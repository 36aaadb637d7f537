use vstd::prelude::*;

verus! {

/// Handle of one registered observer. Tokens are handed out in increasing
/// order, starting at zero, and a store never hands out the same token twice.
pub type SubscriptionToken = u64;

/// Why an `unsubscribe` call was refused.
#[derive(Debug, PartialEq, Eq, Structural)]
pub enum UnsubscribeError {
    /// No observer is currently registered under the carried token.
    WrongToken(SubscriptionToken),
}

/// The character that stands for the decimal digit `d`.
pub open spec fn digit(d: nat) -> char
    recommends
        d < 10,
{
    seq!['0', '1', '2', '3', '4', '5', '6', '7', '8', '9'][d as int]
}

/// The decimal numeral of `n`: its digits, most significant first, without
/// leading zeros, and `0` for zero.
pub open spec fn decimal(n: nat) -> Seq<char>
    decreases n,
{
    if n < 10 {
        seq![digit(n)]
    } else {
        decimal(n / 10).push(digit(n % 10))
    }
}

/// `format!` with a string and a `u64`, both formatted by `Display`: the text
/// is the string as it stands, followed by the number as `u64`'s `Display`
/// writes it, which is its decimal numeral. Not proved; taken from the
/// documentation of std.
#[verifier::external_body]
fn followed_by_number(head: &str, number: u64) -> (text: String)
    ensures
        text@ == head@ + decimal(number as nat),
{
    format!("{}{}", head, number)
}

impl UnsubscribeError {
    /// The token that the refused call was made with.
    pub open spec fn offending_token(&self) -> SubscriptionToken {
        match self {
            UnsubscribeError::WrongToken(token) => *token,
        }
    }

    /// What every message of this error begins with.
    pub open spec fn message_head() -> Seq<char> {
        "Cannot find the subscription by token: "@
    }

    /// Describes the error for a reader: a fixed sentence, then the offending
    /// token in decimal.
    pub fn message(&self) -> (text: String)
        ensures
            text@ == Self::message_head() + decimal(self.offending_token() as nat),
    {
        match self {
            UnsubscribeError::WrongToken(token) => followed_by_number(
                "Cannot find the subscription by token: ",
                *token,
            ),
        }
    }

    /// Returns the token that the refused call was made with.
    pub fn token(&self) -> (token: SubscriptionToken)
        ensures
            token == self.offending_token(),
    {
        match self {
            UnsubscribeError::WrongToken(token) => *token,
        }
    }
}

} // verus!
