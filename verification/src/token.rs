use vstd::prelude::*;

use crate::json::JsonValue;

verus! {

/// The grant presented to the provider's token endpoint.
#[derive(Clone, PartialEq, Debug)]
pub enum TokenRequest {
    /// The Authorization Code exchange (RFC 6749 §4.1.3).
    AuthorizationCode(String),
    /// A refresh of an earlier access token (RFC 6749 §6).
    RefreshToken(String),
}

/// The provider's answer to a successful token exchange (RFC 6749 §5.1).
///
/// The five standard fields are carried by name; everything else the
/// provider returned is preserved, exactly as it arrived, in `extras`.
#[derive(PartialEq, Debug)]
pub struct TokenResponse {
    /// The access token issued by the authorization server.
    pub access_token: String,
    /// The type of the token (RFC 6749 §7.1).
    pub token_type: String,
    /// The lifetime of the access token in seconds, if disclosed. Absence
    /// means the provider did not say; no default may be assumed.
    pub expires_in: Option<i32>,
    /// The refresh token, if the server provided one.
    pub refresh_token: Option<String>,
    /// The space-separated scope list. Providers echo it only when it
    /// differs from the request, so absence does not mean "no scopes".
    pub scope: Option<String>,
    /// Every response field beyond the five above, in arrival order.
    pub extras: Vec<(String, JsonValue)>,
}

/// Error: the response body did not carry the standard RFC 6749 §5.1
/// fields with the required shapes.
#[derive(Clone, PartialEq, Debug)]
pub struct MalformedTokenResponse;

/// The value a JSON object gives to `key`, with the last occurrence
/// winning when a key repeats.
pub open spec fn last_value(fields: Seq<(String, JsonValue)>, key: Seq<char>) -> Option<JsonValue>
    decreases fields.len(),
{
    if fields.len() == 0 {
        None
    } else if fields.last().0@ == key {
        Some(fields.last().1)
    } else {
        last_value(fields.drop_last(), key)
    }
}

/// Whether `k` is one of the five standard token-response field names.
pub open spec fn is_standard_key(k: Seq<char>) -> bool {
    ||| k == "access_token"@
    ||| k == "token_type"@
    ||| k == "expires_in"@
    ||| k == "refresh_token"@
    ||| k == "scope"@
}

/// The fields of a response body that belong in `extras`: every field
/// whose name is not standard, in order, values untouched.
pub open spec fn spec_extras(fields: Seq<(String, JsonValue)>) -> Seq<(String, JsonValue)> {
    fields.filter(|kv: (String, JsonValue)| !is_standard_key(kv.0@))
}

/// A required string field must be present and a string.
pub open spec fn req_str_ok(v: Option<JsonValue>) -> bool {
    v matches Some(JsonValue::Str(_))
}

/// An optional string field may be absent, `null`, or a string.
pub open spec fn opt_str_ok(v: Option<JsonValue>) -> bool {
    match v {
        None => true,
        Some(JsonValue::Null) => true,
        Some(JsonValue::Str(_)) => true,
        Some(_) => false,
    }
}

/// An optional integer field may be absent, `null`, or an integer that
/// fits in an `i32`.
pub open spec fn opt_int_ok(v: Option<JsonValue>) -> bool {
    match v {
        None => true,
        Some(JsonValue::Null) => true,
        Some(JsonValue::Int(x)) => i32::MIN <= x <= i32::MAX,
        Some(_) => false,
    }
}

/// The payload of a required string field.
pub open spec fn req_str_of(v: Option<JsonValue>) -> String
    recommends
        req_str_ok(v),
{
    match v {
        Some(JsonValue::Str(s)) => s,
        _ => arbitrary(),
    }
}

/// The payload of an optional string field (`None` when absent or `null`).
pub open spec fn opt_str_of(v: Option<JsonValue>) -> Option<String> {
    match v {
        Some(JsonValue::Str(s)) => Some(s),
        _ => None,
    }
}

/// The payload of an optional integer field (`None` when absent or `null`).
pub open spec fn opt_int_of(v: Option<JsonValue>) -> Option<i32> {
    match v {
        Some(JsonValue::Int(x)) => Some(x as i32),
        _ => None,
    }
}

/// Whether a response body is well-formed: the two required fields are
/// strings and the three optional ones, where present, have their
/// standard shapes.
pub open spec fn fields_wf(fields: Seq<(String, JsonValue)>) -> bool {
    &&& req_str_ok(last_value(fields, "access_token"@))
    &&& req_str_ok(last_value(fields, "token_type"@))
    &&& opt_int_ok(last_value(fields, "expires_in"@))
    &&& opt_str_ok(last_value(fields, "refresh_token"@))
    &&& opt_str_ok(last_value(fields, "scope"@))
}

/// The scope fallback as a mathematical function: the response with its
/// `scope` replaced by `query_scope` when, and only when, it had none.
pub open spec fn spec_with_scope_fallback(t: TokenResponse, query_scope: Option<String>)
    -> TokenResponse {
    match t.scope {
        Some(_) => t,
        None => TokenResponse { scope: query_scope, ..t },
    }
}

/// The text a present optional string carries.
pub open spec fn opt_text(o: Option<String>) -> Option<Seq<char>> {
    match o {
        Some(s) => Some(s@),
        None => None,
    }
}

/// The five standard field names are pairwise distinct.
proof fn lemma_standard_keys_distinct()
    ensures
        "access_token"@ != "token_type"@,
        "access_token"@ != "expires_in"@,
        "access_token"@ != "refresh_token"@,
        "access_token"@ != "scope"@,
        "token_type"@ != "expires_in"@,
        "token_type"@ != "refresh_token"@,
        "token_type"@ != "scope"@,
        "expires_in"@ != "refresh_token"@,
        "expires_in"@ != "scope"@,
        "refresh_token"@ != "scope"@,
{
    reveal_strlit("access_token");
    reveal_strlit("token_type");
    reveal_strlit("expires_in");
    reveal_strlit("refresh_token");
    reveal_strlit("scope");
    assert("access_token"@.len() == 12);
    assert("token_type"@.len() == 10);
    assert("expires_in"@.len() == 10);
    assert("refresh_token"@.len() == 13);
    assert("scope"@.len() == 5);
    assert("token_type"@[0] == 't');
    assert("expires_in"@[0] == 'e');
}

/// One step of `spec_extras`: appending a standard field leaves the
/// extras unchanged; appending any other field appends it to the extras.
proof fn lemma_spec_extras_step(s: Seq<(String, JsonValue)>, x: (String, JsonValue))
    ensures
        spec_extras(s.push(x)) == if is_standard_key(x.0@) {
            spec_extras(s)
        } else {
            spec_extras(s).push(x)
        },
{
    reveal(Seq::filter);
    assert(s.push(x).drop_last() =~= s);
    assert(s.push(x).last() == x);
}

/// Compare a field name against an expected name.
fn key_is(k: &String, expected: &str) -> (r: bool)
    ensures
        r == (k@ == expected@),
{
    let e: String = expected.to_owned();
    *k == e
}

/// What the single pass below has seen of one standard field so far.
enum Slot<T> {
    Absent,
    Good(T),
    Bad,
}

/// A required string slot tracks the field's last occurrence.
spec fn req_slot_inv(slot: Slot<String>, lv: Option<JsonValue>) -> bool {
    match lv {
        None => slot is Absent,
        Some(JsonValue::Str(s)) => slot == Slot::Good(s),
        Some(_) => slot is Bad,
    }
}

/// An optional string slot tracks the field's last occurrence.
spec fn opt_slot_inv(slot: Slot<Option<String>>, lv: Option<JsonValue>) -> bool {
    match lv {
        None => slot is Absent,
        Some(JsonValue::Null) => slot == Slot::Good(None::<String>),
        Some(JsonValue::Str(s)) => slot == Slot::Good(Some(s)),
        Some(_) => slot is Bad,
    }
}

/// An optional integer slot tracks the field's last occurrence.
spec fn int_slot_inv(slot: Slot<Option<i32>>, lv: Option<JsonValue>) -> bool {
    match lv {
        None => slot is Absent,
        Some(JsonValue::Null) => slot == Slot::Good(None::<i32>),
        Some(JsonValue::Int(x)) => {
            if i32::MIN <= x <= i32::MAX {
                slot == Slot::Good(Some(x as i32))
            } else {
                slot is Bad
            }
        },
        Some(_) => slot is Bad,
    }
}

impl TokenResponse {
    /// Apply the documented provider-quirk fallback: some providers return
    /// `scope` among the callback's query parameters instead of inside the
    /// token response body, so when the body carried no `scope` the query's
    /// value (if any) is adopted. A `scope` from the body always wins
    /// unchanged. This is the only mutation the engine ever applies to a
    /// token response; every other field is left exactly as it arrived.
    pub fn with_scope_fallback(self, query_scope: Option<String>) -> (r: TokenResponse)
        ensures
            r == spec_with_scope_fallback(self, query_scope),
            r.access_token == self.access_token,
            r.token_type == self.token_type,
            r.expires_in == self.expires_in,
            r.refresh_token == self.refresh_token,
            r.extras == self.extras,
            self.scope is Some ==> r.scope == self.scope,
            self.scope is None ==> r.scope == query_scope,
    {
        let TokenResponse { access_token, token_type, expires_in, refresh_token, scope, extras } =
            self;
        let scope = match scope {
            Some(s) => Some(s),
            None => query_scope,
        };
        TokenResponse { access_token, token_type, expires_in, refresh_token, scope, extras }
    }

    /// Assemble a `TokenResponse` from the decoded fields of a provider's
    /// JSON response body.
    ///
    /// The five standard fields are taken by name (when a key repeats, the
    /// last occurrence wins, as a JSON object does); every other field is
    /// preserved in `extras`, in order and with its value exactly as it
    /// arrived. Returns an error exactly when a standard field has the
    /// wrong shape or a required one is missing.
    pub fn from_fields(fields: Vec<(String, JsonValue)>) -> (r: Result<
        TokenResponse,
        MalformedTokenResponse,
    >)
        ensures
            r is Ok <==> fields_wf(fields@),
            r matches Ok(t) ==> {
                &&& t.access_token == req_str_of(last_value(fields@, "access_token"@))
                &&& t.token_type == req_str_of(last_value(fields@, "token_type"@))
                &&& t.expires_in == opt_int_of(last_value(fields@, "expires_in"@))
                &&& t.refresh_token == opt_str_of(last_value(fields@, "refresh_token"@))
                &&& t.scope == opt_str_of(last_value(fields@, "scope"@))
                &&& t.extras@ == spec_extras(fields@)
            },
    {
        let ghost orig = fields@;
        let mut fields = fields;
        let mut access: Slot<String> = Slot::Absent;
        let mut ttype: Slot<String> = Slot::Absent;
        let mut expires: Slot<Option<i32>> = Slot::Absent;
        let mut refresh: Slot<Option<String>> = Slot::Absent;
        let mut scope: Slot<Option<String>> = Slot::Absent;
        let mut extras: Vec<(String, JsonValue)> = Vec::new();
        let mut i: usize = 0;
        let total: usize = fields.len();
        while fields.len() > 0
            invariant
                orig.len() == total,
                i + fields@.len() == total,
                fields@ == orig.skip(i as int),
                req_slot_inv(access, last_value(orig.take(i as int), "access_token"@)),
                req_slot_inv(ttype, last_value(orig.take(i as int), "token_type"@)),
                int_slot_inv(expires, last_value(orig.take(i as int), "expires_in"@)),
                opt_slot_inv(refresh, last_value(orig.take(i as int), "refresh_token"@)),
                opt_slot_inv(scope, last_value(orig.take(i as int), "scope"@)),
                extras@ == spec_extras(orig.take(i as int)),
            decreases fields@.len(),
        {
            proof {
                lemma_standard_keys_distinct();
                assert(fields@[0] == orig[i as int]);
                assert(orig.take(i as int + 1).drop_last() =~= orig.take(i as int));
                assert(orig.take(i as int + 1).last() == orig[i as int]);
                assert(orig.take(i as int).push(orig[i as int]) =~= orig.take(i as int + 1));
                assert(orig.skip(i as int).remove(0) =~= orig.skip(i as int + 1));
                lemma_spec_extras_step(orig.take(i as int), orig[i as int]);
            }
            let pair = fields.remove(0);
            proof {
                assert(pair == orig[i as int]);
                assert(orig[i as int] == (orig[i as int].0, orig[i as int].1));
            }
            let (k, v) = pair;
            if key_is(&k, "access_token") {
                access = match v {
                    JsonValue::Str(s) => Slot::Good(s),
                    _ => Slot::Bad,
                };
            } else if key_is(&k, "token_type") {
                ttype = match v {
                    JsonValue::Str(s) => Slot::Good(s),
                    _ => Slot::Bad,
                };
            } else if key_is(&k, "expires_in") {
                expires = match v {
                    JsonValue::Null => Slot::Good(None),
                    JsonValue::Int(x) => {
                        if i32::MIN as i64 <= x && x <= i32::MAX as i64 {
                            Slot::Good(Some(x as i32))
                        } else {
                            Slot::Bad
                        }
                    },
                    _ => Slot::Bad,
                };
            } else if key_is(&k, "refresh_token") {
                refresh = match v {
                    JsonValue::Null => Slot::Good(None),
                    JsonValue::Str(s) => Slot::Good(Some(s)),
                    _ => Slot::Bad,
                };
            } else if key_is(&k, "scope") {
                scope = match v {
                    JsonValue::Null => Slot::Good(None),
                    JsonValue::Str(s) => Slot::Good(Some(s)),
                    _ => Slot::Bad,
                };
            } else {
                extras.push((k, v));
            }
            i = i + 1;
        }
        proof {
            assert(orig.take(i as int) =~= orig);
        }
        let access_token = match access {
            Slot::Good(s) => s,
            _ => {
                return Err(MalformedTokenResponse);
            },
        };
        let token_type = match ttype {
            Slot::Good(s) => s,
            _ => {
                return Err(MalformedTokenResponse);
            },
        };
        let expires_in = match expires {
            Slot::Absent => None,
            Slot::Good(o) => o,
            Slot::Bad => {
                return Err(MalformedTokenResponse);
            },
        };
        let refresh_token = match refresh {
            Slot::Absent => None,
            Slot::Good(o) => o,
            Slot::Bad => {
                return Err(MalformedTokenResponse);
            },
        };
        let scope = match scope {
            Slot::Absent => None,
            Slot::Good(o) => o,
            Slot::Bad => {
                return Err(MalformedTokenResponse);
            },
        };
        Ok(TokenResponse { access_token, token_type, expires_in, refresh_token, scope, extras })
    }
}

} // verus!
