//! The classified result of one read attempt, and the errors that end the loop.

use vstd::prelude::*;

verus! {

/// The card families the reader distinguishes in this flow.
#[derive(Clone, Copy, PartialEq, Eq, Structural, Debug)]
pub enum CardType {
    /// Detected but intentionally unhandled: only a warning is logged.
    Bank,
    /// The only card type that is turned into a token.
    Membership,
}

/// What one successful read decoded from the card.
///
/// A value of this type lives for a single loop iteration; it is never
/// persisted.
#[derive(Debug)]
pub struct CardInfo {
    pub card_type: CardType,
    /// Opaque identifier read from the card. The driver contract says a
    /// membership card always carries one; its absence is a contract
    /// violation that ends the loop.
    pub tag_id: Option<String>,
}

/// The tagged result of one read attempt against the reader device.
///
/// "No card on the reader" is a first-class, expected outcome of a polling
/// loop, not an error, so it is kept apart from device faults.
#[derive(Debug)]
pub enum CardReadOutcome {
    Success(CardInfo),
    NoCardPresent,
    Fatal(String),
}

/// Why the loop stopped. Only these conditions cross the loop boundary;
/// everything else is absorbed locally.
#[derive(Debug)]
pub enum LoopError {
    /// A device fault other than "no card present". The reader is not
    /// assumed self-healing, so the fault is surfaced to the supervisor.
    Device(String),
    /// A membership card without an identifier: a driver contract
    /// violation, fatal but reported through this explicit path rather
    /// than by an abrupt crash.
    MissingTagId,
}

impl LoopError {
    /// The surfaced message. For a device fault it carries the underlying
    /// cause verbatim, for diagnosability.
    pub fn message(&self) -> (m: String)
        ensures
            (self matches LoopError::Device(cause) ==> m@ == cause@),
            (self is MissingTagId ==> m@ == "membership card without identifier"@),
    {
        match self {
            LoopError::Device(cause) => cause.clone(),
            LoopError::MissingTagId => String::from_str("membership card without identifier"),
        }
    }
}

} // verus!
