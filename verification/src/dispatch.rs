//! One iteration of the poll-and-dispatch state machine.
//!
//! The loop has a single steady state: read, classify, possibly dispatch,
//! possibly rearm the debounce timer, repeat. Everything the iteration
//! decides is a pure function of the read outcome, whether a sink is
//! registered at dispatch time, and the current instant; the surrounding
//! runtime performs the effect this module chooses.

use vstd::prelude::*;

use crate::debounce::DebounceTimer;
use crate::outcome::{CardReadOutcome, CardType, LoopError};
use crate::token::{token_for, ProvidedToken};

verus! {

/// What one iteration did, beyond updating the loop's own state.
#[derive(Debug)]
pub enum StepEffect {
    /// No card on the reader: the expected idle outcome. Poll again
    /// immediately, with no cooldown.
    Idle,
    /// A bank card was read; that path is intentionally unhandled, so the
    /// iteration only warrants a warning.
    BankIgnored,
    /// A membership token was built and must be handed to the registered
    /// sink.
    Delivered(ProvidedToken),
    /// A membership token was built while no sink was registered yet: it
    /// is dropped, not queued, and no error is raised.
    Dropped,
    /// The loop must stop and surface this error.
    Halted(LoopError),
}

/// The poll-and-dispatch loop's own state: the cooldown it was configured
/// with and the debounce timer it owns.
pub struct PollLoop {
    /// Minimum spacing between two dispatches, in the caller's time unit.
    pub cooldown: u64,
    pub timer: DebounceTimer,
}

impl PollLoop {
    /// A fresh loop whose timer has never been armed.
    pub fn new(cooldown: u64) -> (l: PollLoop)
        ensures
            l.cooldown == cooldown,
            !l.timer.armed(),
    {
        PollLoop { cooldown, timer: DebounceTimer::new() }
    }

    /// Classify one read outcome and decide the iteration's effect.
    ///
    /// A fatal device fault or a membership card without an identifier
    /// halts the loop; a missing card or a bank card changes nothing; a
    /// membership card with an identifier yields exactly one token —
    /// delivered when a sink is registered at this moment, dropped
    /// otherwise — and rearms the debounce timer to `now + cooldown`.
    pub fn step(&mut self, outcome: &CardReadOutcome, sink_registered: bool, now: u64) -> (eff: StepEffect)
        requires
            now + old(self).cooldown <= u64::MAX,
        ensures
            final(self).cooldown == old(self).cooldown,
            match outcome {
                CardReadOutcome::NoCardPresent => {
                    &&& eff is Idle
                    &&& final(self).timer == old(self).timer
                },
                CardReadOutcome::Fatal(cause) => {
                    &&& eff matches StepEffect::Halted(e) && (e matches LoopError::Device(m) && m@ == cause@)
                    &&& final(self).timer == old(self).timer
                },
                CardReadOutcome::Success(card) => match card.card_type {
                    CardType::Bank => {
                        &&& eff is BankIgnored
                        &&& final(self).timer == old(self).timer
                    },
                    CardType::Membership => match card.tag_id {
                        None => {
                            &&& eff matches StepEffect::Halted(e) && e is MissingTagId
                            &&& final(self).timer == old(self).timer
                        },
                        Some(tag) => {
                            &&& final(self).timer.deadline == Some((now + old(self).cooldown) as u64)
                            &&& sink_registered ==> (eff matches StepEffect::Delivered(t) && token_for(t, tag@))
                            &&& !sink_registered ==> eff is Dropped
                        },
                    },
                },
            },
    {
        match outcome {
            CardReadOutcome::NoCardPresent => StepEffect::Idle,
            CardReadOutcome::Fatal(cause) => StepEffect::Halted(LoopError::Device(cause.clone())),
            CardReadOutcome::Success(card) => match card.card_type {
                CardType::Bank => StepEffect::BankIgnored,
                CardType::Membership => match &card.tag_id {
                    None => StepEffect::Halted(LoopError::MissingTagId),
                    Some(tag) => {
                        self.timer.rearm(now, self.cooldown);
                        if sink_registered {
                            StepEffect::Delivered(ProvidedToken::from_tag(tag.clone()))
                        } else {
                            StepEffect::Dropped
                        }
                    },
                },
            },
        }
    }
}

} // verus!
