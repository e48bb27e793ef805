use vstd::prelude::*;
use vstd::utf8::{decode_utf8, valid_utf8};

verus! {

/// The `&` that separates query items.
pub const AMP: u8 = 38;

/// The `=` that separates a key from its value.
pub const EQS: u8 = 61;

/// The `+` that form encoding uses for a space.
pub const PLUS: u8 = 43;

/// The `%` that opens a two-digit escape.
pub const PCT: u8 = 37;

/// The space character a `+` decodes to.
pub const SPACE: u8 = 32;

/// The bytes of the required `code` parameter's name.
pub open spec fn code_key() -> Seq<u8> {
    seq![99u8, 111u8, 100u8, 101u8]
}

/// The bytes of the required `state` parameter's name.
pub open spec fn state_key() -> Seq<u8> {
    seq![115u8, 116u8, 97u8, 116u8, 101u8]
}

/// The bytes of the optional `scope` parameter's name.
pub open spec fn scope_key() -> Seq<u8> {
    seq![115u8, 99u8, 111u8, 112u8, 101u8]
}

/// Whether `k` names one of the three recognized callback parameters.
pub open spec fn is_known_key(k: Seq<u8>) -> bool {
    k == code_key() || k == state_key() || k == scope_key()
}

/// Whether `b` is an ASCII hexadecimal digit.
pub open spec fn is_hex_digit(b: u8) -> bool {
    (48 <= b <= 57) || (65 <= b <= 70) || (97 <= b <= 102)
}

/// The numeric value of an ASCII hexadecimal digit.
pub open spec fn hex_val(b: u8) -> u8
    recommends
        is_hex_digit(b),
{
    if 48 <= b <= 57 {
        (b - 48) as u8
    } else if 65 <= b <= 70 {
        (b - 55) as u8
    } else {
        (b - 87) as u8
    }
}

/// Form-decode a value: `+` stands for a space, `%` opens a two-digit
/// hexadecimal byte escape, and any other byte stands for itself. A `%`
/// not followed by two hexadecimal digits makes the value undecodable.
pub open spec fn spec_decode(s: Seq<u8>) -> Option<Seq<u8>>
    decreases s.len(),
{
    if s.len() == 0 {
        Some(Seq::empty())
    } else if s[0] == PLUS {
        match spec_decode(s.skip(1)) {
            Some(d) => Some(seq![SPACE] + d),
            None => None,
        }
    } else if s[0] == PCT {
        if s.len() >= 3 && is_hex_digit(s[1]) && is_hex_digit(s[2]) {
            match spec_decode(s.skip(3)) {
                Some(d) => Some(seq![(hex_val(s[1]) * 16 + hex_val(s[2])) as u8] + d),
                None => None,
            }
        } else {
            None
        }
    } else {
        match spec_decode(s.skip(1)) {
            Some(d) => Some(seq![s[0]] + d),
            None => None,
        }
    }
}

/// A parameter value as text: form-decoded bytes read as UTF-8.
pub open spec fn spec_field_value(raw: Seq<u8>) -> Option<Seq<char>> {
    match spec_decode(raw) {
        Some(b) => if valid_utf8(b) {
            Some(decode_utf8(b))
        } else {
            None
        },
        None => None,
    }
}

/// Split a query on `&`, gathering the bytes of each item; `cur` is the
/// partial item read so far.
pub open spec fn split_rec(q: Seq<u8>, cur: Seq<u8>) -> Seq<Seq<u8>>
    decreases q.len(),
{
    if q.len() == 0 {
        seq![cur]
    } else if q[0] == AMP {
        seq![cur] + split_rec(q.skip(1), Seq::empty())
    } else {
        split_rec(q.skip(1), cur.push(q[0]))
    }
}

/// The items of a query string: the runs of bytes between `&` separators.
pub open spec fn split_items(q: Seq<u8>) -> Seq<Seq<u8>> {
    split_rec(q, Seq::empty())
}

/// The position of the first `=` in an item, if any.
pub open spec fn first_eq(item: Seq<u8>) -> Option<int>
    decreases item.len(),
{
    if item.len() == 0 {
        None
    } else if item[0] == EQS {
        Some(0)
    } else {
        match first_eq(item.skip(1)) {
            Some(i) => Some(i + 1),
            None => None,
        }
    }
}

/// An item's key and raw value: the key runs to the first `=` and the
/// value follows it; an item without `=` is a key with an empty value.
pub open spec fn item_pair(item: Seq<u8>) -> (Seq<u8>, Seq<u8>) {
    match first_eq(item) {
        Some(i) => (item.take(i), item.skip(i + 1)),
        None => (item, Seq::empty()),
    }
}

/// The key/raw-value pairs of a query string, in order.
pub open spec fn query_pairs(q: Seq<u8>) -> Seq<(Seq<u8>, Seq<u8>)> {
    split_items(q).map_values(|it: Seq<u8>| item_pair(it))
}

/// The raw value a query gives to `key`, the last occurrence winning.
pub open spec fn last_raw(ps: Seq<(Seq<u8>, Seq<u8>)>, key: Seq<u8>) -> Option<Seq<u8>>
    decreases ps.len(),
{
    if ps.len() == 0 {
        None
    } else if ps.last().0 == key {
        Some(ps.last().1)
    } else {
        last_raw(ps.drop_last(), key)
    }
}

/// Every occurrence of a recognized parameter must carry a decodable
/// value; one undecodable `code`, `state` or `scope` value spoils the
/// whole query.
pub open spec fn all_known_values_ok(ps: Seq<(Seq<u8>, Seq<u8>)>) -> bool {
    forall|i: int|
        0 <= i < ps.len() && is_known_key(ps[i].0) ==> (#[trigger] spec_field_value(
            ps[i].1,
        )) is Some
}

/// The decoded text of `key`'s last occurrence, if any.
pub open spec fn field_of(ps: Seq<(Seq<u8>, Seq<u8>)>, key: Seq<u8>) -> Option<Seq<char>> {
    match last_raw(ps, key) {
        Some(raw) => spec_field_value(raw),
        None => None,
    }
}

/// The mathematical value of a parsed callback query.
pub ghost struct CallbackQueryView {
    pub code: Seq<char>,
    pub state: Seq<char>,
    pub scope: Option<Seq<char>>,
}

/// What a callback query string means: `None` exactly when the query is
/// malformed — a recognized parameter's value does not decode, or `code`
/// or `state` is missing. Parameters beyond the three recognized ones are
/// ignored; keys are matched on their raw bytes.
pub open spec fn parse_query_spec(q: Seq<u8>) -> Option<CallbackQueryView> {
    let ps = query_pairs(q);
    if !all_known_values_ok(ps) {
        None
    } else {
        match (field_of(ps, code_key()), field_of(ps, state_key())) {
            (Some(c), Some(s)) => Some(
                CallbackQueryView { code: c, state: s, scope: field_of(ps, scope_key()) },
            ),
            _ => None,
        }
    }
}

/// Law: a query without a `code` parameter, or without a `state`
/// parameter, is malformed, no matter what else it carries.
pub proof fn lemma_missing_required_is_malformed(q: Seq<u8>)
    requires
        last_raw(query_pairs(q), code_key()) is None || last_raw(query_pairs(q), state_key())
            is None,
    ensures
        parse_query_spec(q) is None,
{
}

/// The parsed form of the provider's callback request: the authorization
/// code, the echoed anti-forgery state, and the optional out-of-band
/// scope list.
#[derive(PartialEq, Debug)]
pub struct CallbackQuery {
    /// The authorization code issued by the provider.
    pub code: String,
    /// The `state` value echoed back by the provider.
    pub state: String,
    /// The provider's out-of-band `scope` list, if it sent one.
    pub scope: Option<String>,
}

impl View for CallbackQuery {
    type V = CallbackQueryView;

    open spec fn view(&self) -> CallbackQueryView {
        CallbackQueryView {
            code: self.code@,
            state: self.state@,
            scope: match self.scope {
                Some(s) => Some(s@),
                None => None,
            },
        }
    }
}

/// The three recognized parameter names are pairwise distinct.
proof fn lemma_known_keys_distinct()
    ensures
        code_key() != state_key(),
        code_key() != scope_key(),
        state_key() != scope_key(),
{
    assert(code_key().len() == 4);
    assert(state_key().len() == 5);
    assert(state_key()[1] == 116u8);
    assert(scope_key()[1] == 99u8);
}

/// Relies on `String::from_utf8` (std): it returns `Ok` exactly when the
/// bytes are valid UTF-8, and the resulting string reads those bytes as
/// UTF-8.
#[verifier::external_body]
fn utf8_string(bytes: Vec<u8>) -> (r: Option<String>)
    ensures
        r matches Some(s) ==> valid_utf8(bytes@) && s@ == decode_utf8(bytes@),
        r is None ==> !valid_utf8(bytes@),
{
    String::from_utf8(bytes).ok()
}

/// The numeric value of a hexadecimal digit, or `None` for any other byte.
fn hex_digit_val(b: u8) -> (r: Option<u8>)
    ensures
        match r {
            Some(v) => is_hex_digit(b) && v == hex_val(b) && v < 16,
            None => !is_hex_digit(b),
        },
{
    if 48 <= b && b <= 57 {
        Some(b - 48)
    } else if 65 <= b && b <= 70 {
        Some(b - 55)
    } else if 97 <= b && b <= 102 {
        Some(b - 87)
    } else {
        None
    }
}

/// Form-decode a value's bytes; `None` on a broken `%` escape.
fn percent_decode(s: &Vec<u8>) -> (r: Option<Vec<u8>>)
    ensures
        match r {
            Some(d) => spec_decode(s@) == Some(d@),
            None => spec_decode(s@) is None,
        },
{
    let mut out: Vec<u8> = Vec::new();
    let mut j: usize = 0;
    let n = s.len();
    proof {
        assert(s@.skip(0) =~= s@);
    }
    while j < n
        invariant
            n == s@.len(),
            j <= n,
            spec_decode(s@) == match spec_decode(s@.skip(j as int)) {
                Some(d) => Some(out@ + d),
                None => None::<Seq<u8>>,
            },
        decreases n - j,
    {
        let ghost rest = s@.skip(j as int);
        let ghost before = out@;
        proof {
            assert(rest[0] == s@[j as int]);
            assert(rest.skip(1) =~= s@.skip(j as int + 1));
        }
        let b = s[j];
        if b == PLUS {
            out.push(SPACE);
            j = j + 1;
            proof {
                lemma_decode_extend(s@, j as int, before, SPACE, out@);
            }
        } else if b == PCT {
            if n - j >= 3 {
                proof {
                    assert(rest.len() >= 3);
                    assert(rest[1] == s@[j as int + 1]);
                    assert(rest[2] == s@[j as int + 2]);
                    assert(rest.skip(3) =~= s@.skip(j as int + 3));
                }
                let h1 = hex_digit_val(s[j + 1]);
                let h2 = hex_digit_val(s[j + 2]);
                match (h1, h2) {
                    (Some(v1), Some(v2)) => {
                        out.push(v1 * 16 + v2);
                        j = j + 3;
                        proof {
                            lemma_decode_extend(
                                s@,
                                j as int,
                                before,
                                (hex_val(rest[1]) * 16 + hex_val(rest[2])) as u8,
                                out@,
                            );
                        }
                    },
                    _ => {
                        return None;
                    },
                }
            } else {
                proof {
                    assert(rest.len() < 3);
                }
                return None;
            }
        } else {
            out.push(b);
            j = j + 1;
            proof {
                lemma_decode_extend(s@, j as int, before, rest[0], out@);
            }
        }
    }
    proof {
        assert(s@.skip(n as int) =~= Seq::<u8>::empty());
    }
    Some(out)
}

/// Re-establish `percent_decode`'s running relation after one decoded
/// byte `x` has been pushed onto `before`, giving `now`.
proof fn lemma_decode_extend(s: Seq<u8>, j: int, before: Seq<u8>, x: u8, now: Seq<u8>)
    requires
        now == before.push(x),
        spec_decode(s) == match spec_decode(s.skip(j)) {
            Some(d) => Some(before + (seq![x] + d)),
            None => None::<Seq<u8>>,
        },
    ensures
        spec_decode(s) == match spec_decode(s.skip(j)) {
            Some(d) => Some(now + d),
            None => None::<Seq<u8>>,
        },
{
    match spec_decode(s.skip(j)) {
        Some(d) => {
            assert(before + (seq![x] + d) =~= now + d);
        },
        None => {},
    }
}

/// A found `=` at position `j`, with none before it, is the first one.
proof fn lemma_first_eq_found(item: Seq<u8>, j: int)
    requires
        0 <= j < item.len(),
        item[j] == EQS,
        forall|k: int| 0 <= k < j ==> item[k] != EQS,
    ensures
        first_eq(item) == Some(j),
    decreases j,
{
    if j > 0 {
        assert(item.skip(1)[j - 1] == item[j]);
        assert(forall|k: int| 0 <= k < j - 1 ==> item.skip(1)[k] == item[k + 1]);
        lemma_first_eq_found(item.skip(1), j - 1);
    }
}

/// An item without any `=` has no first `=`.
proof fn lemma_first_eq_none(item: Seq<u8>)
    requires
        forall|k: int| 0 <= k < item.len() ==> item[k] != EQS,
    ensures
        first_eq(item) is None,
    decreases item.len(),
{
    if item.len() > 0 {
        assert(forall|k: int| 0 <= k < item.skip(1).len() ==> item.skip(1)[k] == item[k + 1]);
        lemma_first_eq_none(item.skip(1));
    }
}

/// The position of the first `=` in an item, if any.
fn find_eq(item: &Vec<u8>) -> (r: Option<usize>)
    ensures
        match r {
            Some(i) => i < item@.len() && first_eq(item@) == Some(i as int),
            None => first_eq(item@) is None,
        },
{
    let mut t: usize = 0;
    let n = item.len();
    while t < n
        invariant
            n == item@.len(),
            t <= n,
            forall|k: int| 0 <= k < t ==> item@[k] != EQS,
        decreases n - t,
    {
        if item[t] == EQS {
            proof {
                lemma_first_eq_found(item@, t as int);
            }
            return Some(t);
        }
        t = t + 1;
    }
    proof {
        lemma_first_eq_none(item@);
    }
    None
}

/// Copy `item[start..end]` into a vector of its own.
fn copy_range(item: &Vec<u8>, start: usize, end: usize) -> (r: Vec<u8>)
    requires
        start <= end <= item@.len(),
    ensures
        r@ == item@.subrange(start as int, end as int),
{
    let mut out: Vec<u8> = Vec::new();
    let mut t: usize = start;
    while t < end
        invariant
            start <= t <= end <= item@.len(),
            out@ == item@.subrange(start as int, t as int),
        decreases end - t,
    {
        out.push(item[t]);
        t = t + 1;
        proof {
            assert(out@ =~= item@.subrange(start as int, t as int));
        }
    }
    out
}

/// Whether two byte vectors hold the same bytes.
fn bytes_eq(a: &Vec<u8>, b: &Vec<u8>) -> (r: bool)
    ensures
        r == (a@ == b@),
{
    if a.len() != b.len() {
        return false;
    }
    let n = a.len();
    let mut t: usize = 0;
    while t < n
        invariant
            n == a@.len() == b@.len(),
            t <= n,
            forall|k: int| 0 <= k < t ==> a@[k] == b@[k],
        decreases n - t,
    {
        if a[t] != b[t] {
            return false;
        }
        t = t + 1;
    }
    proof {
        assert(a@ =~= b@);
    }
    true
}

/// The bytes of `code`, as a vector.
fn code_key_vec() -> (r: Vec<u8>)
    ensures
        r@ == code_key(),
{
    let mut v: Vec<u8> = Vec::new();
    v.push(99);
    v.push(111);
    v.push(100);
    v.push(101);
    proof {
        assert(v@ =~= code_key());
    }
    v
}

/// The bytes of `state`, as a vector.
fn state_key_vec() -> (r: Vec<u8>)
    ensures
        r@ == state_key(),
{
    let mut v: Vec<u8> = Vec::new();
    v.push(115);
    v.push(116);
    v.push(97);
    v.push(116);
    v.push(101);
    proof {
        assert(v@ =~= state_key());
    }
    v
}

/// The bytes of `scope`, as a vector.
fn scope_key_vec() -> (r: Vec<u8>)
    ensures
        r@ == scope_key(),
{
    let mut v: Vec<u8> = Vec::new();
    v.push(115);
    v.push(99);
    v.push(111);
    v.push(112);
    v.push(101);
    proof {
        assert(v@ =~= scope_key());
    }
    v
}

/// A parameter value as text: form-decode, then read as UTF-8.
fn decode_value(raw: &Vec<u8>) -> (r: Option<String>)
    ensures
        match r {
            Some(s) => spec_field_value(raw@) == Some(s@),
            None => spec_field_value(raw@) is None,
        },
{
    match percent_decode(raw) {
        Some(bytes) => utf8_string(bytes),
        None => None,
    }
}

/// How a tracking variable reflects the parameter it tracks: it is set
/// exactly when the parameter occurred, and then holds the decoded text
/// of the last occurrence.
pub open spec fn slot_rel(slot: Option<String>, lr: Option<Seq<u8>>) -> bool {
    match lr {
        None => slot is None,
        Some(raw) => match slot {
            Some(s) => spec_field_value(raw) == Some(s@),
            None => false,
        },
    }
}

/// Parse the raw bytes of a callback request's query string into the
/// `code`, `state` and optional `scope` parameters.
///
/// Returns the parsed parameters exactly when the query is well-formed
/// in the sense of [`parse_query_spec`], and `None` otherwise.
pub fn parse_callback_query(query: &[u8]) -> (r: Option<CallbackQuery>)
    ensures
        match r {
            Some(p) => parse_query_spec(query@) == Some(p@),
            None => parse_query_spec(query@) is None,
        },
{
    let mut items: Vec<Vec<u8>> = Vec::new();
    let mut cur: Vec<u8> = Vec::new();
    let mut j: usize = 0;
    let n = query.len();
    proof {
        assert(query@.skip(0) =~= query@);
        let iv0 = items@.map_values(|v: Vec<u8>| v@);
        let s0 = split_rec(query@, cur@);
        assert(iv0 + s0 =~= s0);
    }
    while j < n
        invariant
            n == query@.len(),
            j <= n,
            split_items(query@) == items@.map_values(|v: Vec<u8>| v@) + split_rec(
                query@.skip(j as int),
                cur@,
            ),
        decreases n - j,
    {
        let ghost rest = query@.skip(j as int);
        proof {
            assert(rest[0] == query@[j as int]);
            assert(rest.skip(1) =~= query@.skip(j as int + 1));
        }
        let b = query[j];
        if b == AMP {
            let ghost iv = items@.map_values(|v: Vec<u8>| v@);
            let ghost cv = cur@;
            items.push(cur);
            cur = Vec::new();
            proof {
                assert(items@.map_values(|v: Vec<u8>| v@) =~= iv.push(cv));
                let tail = split_rec(query@.skip(j as int + 1), Seq::empty());
                assert(iv + (seq![cv] + tail) =~= iv.push(cv) + tail);
            }
        } else {
            cur.push(b);
        }
        j = j + 1;
    }
    let ghost iv = items@.map_values(|v: Vec<u8>| v@);
    let ghost cv = cur@;
    items.push(cur);
    proof {
        assert(query@.skip(n as int) =~= Seq::<u8>::empty());
        assert(items@.map_values(|v: Vec<u8>| v@) =~= iv.push(cv));
        assert(iv + seq![cv] =~= iv.push(cv));
        assert(items@.map_values(|v: Vec<u8>| v@) == split_items(query@));
    }
    let ghost ps = query_pairs(query@);
    proof {
        assert(ps == items@.map_values(|v: Vec<u8>| v@).map_values(|it: Seq<u8>| item_pair(it)));
        assert(ps.len() == items@.len());
        assert(forall|i: int|
            0 <= i < ps.len() ==> #[trigger] ps[i] == item_pair(items@[i]@));
    }
    let mut code_s: Option<String> = None;
    let mut state_s: Option<String> = None;
    let mut scope_s: Option<String> = None;
    let total = items.len();
    let mut m: usize = 0;
    while m < total
        invariant
            total == items@.len(),
            m <= total,
            ps == query_pairs(query@),
            ps.len() == total,
            forall|i: int| 0 <= i < ps.len() ==> #[trigger] ps[i] == item_pair(items@[i]@),
            forall|i: int|
                0 <= i < m && is_known_key(ps[i].0) ==> (#[trigger] spec_field_value(
                    ps[i].1,
                )) is Some,
            slot_rel(code_s, last_raw(ps.take(m as int), code_key())),
            slot_rel(state_s, last_raw(ps.take(m as int), state_key())),
            slot_rel(scope_s, last_raw(ps.take(m as int), scope_key())),
        decreases total - m,
    {
        let item = &items[m];
        let ghost pr = ps[m as int];
        proof {
            assert(ps.take(m as int + 1).drop_last() =~= ps.take(m as int));
            assert(ps.take(m as int + 1).last() == pr);
            lemma_known_keys_distinct();
        }
        let ilen = item.len();
        let eq_pos = find_eq(item);
        let (key, rawval) = match eq_pos {
            Some(i) => {
                let k = copy_range(item, 0, i);
                let v = copy_range(item, i + 1, ilen);
                proof {
                    assert(item@.subrange(0, i as int) =~= item@.take(i as int));
                    let vlen = item@.len() as int;
                    assert(item@.subrange(i as int + 1, vlen) =~= item@.skip(i as int + 1));
                }
                (k, v)
            },
            None => {
                let k = copy_range(item, 0, ilen);
                proof {
                    assert(item@.subrange(0, item@.len() as int) =~= item@);
                }
                (k, Vec::new())
            },
        };
        proof {
            assert(pr.0 == key@);
            assert(pr.1 == rawval@);
        }
        let ck = code_key_vec();
        let sk = state_key_vec();
        let pk = scope_key_vec();
        if bytes_eq(&key, &ck) {
            match decode_value(&rawval) {
                Some(s) => {
                    code_s = Some(s);
                },
                None => {
                    proof {
                        assert(spec_field_value(ps[m as int].1) is None);
                        assert(!all_known_values_ok(ps));
                    }
                    return None;
                },
            }
        } else if bytes_eq(&key, &sk) {
            match decode_value(&rawval) {
                Some(s) => {
                    state_s = Some(s);
                },
                None => {
                    proof {
                        assert(spec_field_value(ps[m as int].1) is None);
                        assert(!all_known_values_ok(ps));
                    }
                    return None;
                },
            }
        } else if bytes_eq(&key, &pk) {
            match decode_value(&rawval) {
                Some(s) => {
                    scope_s = Some(s);
                },
                None => {
                    proof {
                        assert(spec_field_value(ps[m as int].1) is None);
                        assert(!all_known_values_ok(ps));
                    }
                    return None;
                },
            }
        } else {
            proof {
                assert(!is_known_key(pr.0));
            }
        }
        m = m + 1;
    }
    proof {
        assert(ps.take(total as int) =~= ps);
    }
    let code = match code_s {
        Some(c) => c,
        None => {
            return None;
        },
    };
    let state = match state_s {
        Some(s) => s,
        None => {
            return None;
        },
    };
    Some(CallbackQuery { code, state, scope: scope_s })
}

} // verus!
