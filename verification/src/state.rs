use vstd::prelude::*;

verus! {

/// Whether a presented `state` value satisfies the anti-forgery check
/// against the value in storage: storage must hold exactly the presented
/// value. An empty slot accepts nothing.
pub open spec fn state_accepts(stored: Option<Seq<char>>, presented: Seq<char>) -> bool {
    stored == Some(presented)
}

/// The per-session storage slot for the anti-forgery `state` token.
///
/// The engine requires the host to give every browser session a slot of its
/// own (in practice a private, integrity-protected cookie); this type models
/// the single string value such a slot holds. Reads are destructive: a
/// validation attempt always empties the slot, so a given `state` value can
/// be checked at most once.
pub struct StateSlot {
    value: Option<String>,
}

impl View for StateSlot {
    type V = Option<Seq<char>>;

    closed spec fn view(&self) -> Option<Seq<char>> {
        match self.value {
            Some(s) => Some(s@),
            None => None,
        }
    }
}

impl StateSlot {
    /// A slot with no outstanding login attempt.
    pub fn empty() -> (r: StateSlot)
        ensures
            r@ is None,
    {
        StateSlot { value: None }
    }

    /// A slot holding a previously issued `state` value, as reconstructed
    /// from the session's confidential storage.
    pub fn holding(value: String) -> (r: StateSlot)
        ensures
            r@ == Some(value@),
    {
        StateSlot { value: Some(value) }
    }

    /// Record a freshly issued `state` value, replacing whatever was
    /// outstanding: at most one login attempt is ever pending per session.
    pub fn store(&mut self, value: String)
        ensures
            final(self)@ == Some(value@),
    {
        self.value = Some(value);
    }

    /// The value currently outstanding, if any.
    pub fn peek(&self) -> (r: Option<&String>)
        ensures
            match r {
                Some(s) => self@ == Some(s@),
                None => self@ is None,
            },
    {
        self.value.as_ref()
    }

    /// Destructively validate a presented `state` value: the slot is emptied
    /// by the attempt itself, whether or not the values matched, so no value
    /// can satisfy the check twice.
    pub fn consume_and_check(&mut self, presented: &String) -> (r: bool)
        ensures
            final(self)@ is None,
            r == state_accepts(old(self)@, presented@),
    {
        let taken = self.value.take();
        match taken {
            Some(s) => s == *presented,
            None => false,
        }
    }
}

/// Law: a slot consumed by a validation attempt — successful or failed —
/// accepts no presented value until a new login stores a fresh `state`.
/// Together with `consume_and_check`'s postcondition that the slot is left
/// empty, this rules out replaying a callback URL.
pub proof fn lemma_consumed_slot_accepts_nothing(presented: Seq<char>)
    ensures
        !state_accepts(None, presented),
{
}

} // verus!
