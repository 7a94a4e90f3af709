use vstd::prelude::*;

use crate::query::{decoded, param_value, query_param, raw_param_from};

verus! {

/// Why a callback request delivers no authorization code.
#[derive(Clone, Copy, Debug, PartialEq, Eq, Structural)]
pub enum CallbackError {
    MissingCode,
    MalformedCode,
    MissingState,
    MalformedState,
    StateMismatch,
    AlreadyDelivered,
}

impl CallbackError {
    /// HTTP status of the reply to a rejected callback.
    pub fn status(&self) -> (r: u16)
        ensures
            400 <= r < 500,
            r == 409 <==> *self == CallbackError::AlreadyDelivered,
    {
        match self {
            CallbackError::AlreadyDelivered => 409,
            _ => 400,
        }
    }
}

/// What a callback with query `q` yields, when the flow expects the state
/// `expected` and `delivered` tells whether a code was already handed on.
pub open spec fn callback_outcome(q: Seq<char>, expected: Seq<char>, delivered: bool) -> Result<
    Seq<char>,
    CallbackError,
> {
    if delivered {
        Err(CallbackError::AlreadyDelivered)
    } else {
        match param_value(q, "code"@) {
            None => Err(CallbackError::MissingCode),
            Some(None) => Err(CallbackError::MalformedCode),
            Some(Some(code)) => match param_value(q, "state"@) {
                None => Err(CallbackError::MissingState),
                Some(None) => Err(CallbackError::MalformedState),
                Some(Some(state)) => if state == expected {
                    Ok(code)
                } else {
                    Err(CallbackError::StateMismatch)
                },
            },
        }
    }
}

/// The receiving end of the provider's redirect: it checks each callback
/// against the state of the authorization request and hands on at most one
/// authorization code.
pub struct CallbackReceiver {
    pub expected_state: String,
    pub delivered: bool,
}

/// Body of the reply to an accepted callback.
pub fn acknowledgement() -> (r: String)
    ensures
        r@ == "ok"@,
{
    String::from_str("ok")
}

impl CallbackReceiver {
    pub fn new(expected_state: String) -> (r: CallbackReceiver)
        ensures
            r.expected_state@ == expected_state@,
            !r.delivered,
    {
        CallbackReceiver { expected_state, delivered: false }
    }

    /// Decides on one callback request whose query string is `q`: `Ok` holds
    /// the authorization code to hand to the waiting flow.
    pub fn handle(&mut self, q: &str) -> (r: Result<String, CallbackError>)
        ensures
            final(self).expected_state@ == old(self).expected_state@,
            final(self).delivered == (old(self).delivered || r is Ok),
            match callback_outcome(q@, old(self).expected_state@, old(self).delivered) {
                Ok(code) => r matches Ok(c) && c@ == code,
                Err(e) => r == Err::<String, CallbackError>(e),
            },
    {
        if self.delivered {
            return Err(CallbackError::AlreadyDelivered);
        }
        let code = match query_param(q, "code") {
            None => {
                return Err(CallbackError::MissingCode);
            },
            Some(None) => {
                return Err(CallbackError::MalformedCode);
            },
            Some(Some(c)) => c,
        };
        let state = match query_param(q, "state") {
            None => {
                return Err(CallbackError::MissingState);
            },
            Some(None) => {
                return Err(CallbackError::MalformedState);
            },
            Some(Some(s)) => s,
        };
        if !same_text(&state, &self.expected_state) {
            return Err(CallbackError::StateMismatch);
        }
        self.delivered = true;
        Ok(code)
    }
}

/// A well-formed redirect that carries a code and the expected state hands
/// on exactly that code, decoded; once a code was handed on, no later
/// callback hands on another.
pub proof fn lemma_single_delivery(q: Seq<char>, expected: Seq<char>, later: Seq<char>)
    requires
        param_value(q, "code"@) is Some,
        param_value(q, "code"@).unwrap() is Some,
        param_value(q, "state"@) == Some(Some(expected)),
    ensures
        callback_outcome(q, expected, false) == Ok::<Seq<char>, CallbackError>(
            decoded(raw_param_from(q, "code"@, 0).unwrap()).unwrap(),
        ),
        callback_outcome(later, expected, true) == Err::<Seq<char>, CallbackError>(
            CallbackError::AlreadyDelivered,
        ),
{
}

/// A code goes on only when the callback's state equals the state of the
/// authorization request; any other state is rejected as a mismatch.
pub proof fn lemma_state_must_match(q: Seq<char>, expected: Seq<char>)
    requires
        param_value(q, "code"@) is Some,
        param_value(q, "code"@).unwrap() is Some,
        param_value(q, "state"@) is Some,
        param_value(q, "state"@).unwrap() is Some,
    ensures
        callback_outcome(q, expected, false) is Ok <==> param_value(q, "state"@) == Some(
            Some(expected),
        ),
        param_value(q, "state"@) != Some(Some(expected)) ==> callback_outcome(q, expected, false)
            == Err::<Seq<char>, CallbackError>(CallbackError::StateMismatch),
{
}

/// Character-wise equality of two strings.
pub fn same_text(a: &String, b: &String) -> (r: bool)
    ensures
        r == (a@ == b@),
{
    let n = a.as_str().unicode_len();
    if n != b.as_str().unicode_len() {
        return false;
    }
    let mut k: usize = 0;
    while k < n
        invariant
            n == a@.len(),
            n == b@.len(),
            k <= n,
            forall|j: int| 0 <= j < k ==> a@[j] == b@[j],
        decreases n - k,
    {
        if a.as_str().get_char(k) != b.as_str().get_char(k) {
            return false;
        }
        k = k + 1;
    }
    assert(a@ =~= b@);
    true
}

} // verus!
