//! Driving the state machine over a finite sequence of read outcomes.
//!
//! The real loop runs for the lifetime of the process; this module gives
//! its behaviour over any finite prefix of reads an exact mathematical
//! model — which reads halt it, and which identifiers reach the sink, in
//! order — together with an executable driver proved against that model
//! and the laws the loop obeys.

use vstd::prelude::*;

use crate::dispatch::{PollLoop, StepEffect};
use crate::outcome::{CardReadOutcome, CardType, LoopError};
use crate::token::{token_fields_fixed, ProvidedToken};

verus! {

/// One read outcome together with the concurrent facts the loop observes
/// at that iteration: whether a sink is registered at dispatch time, and
/// the current instant.
pub struct PollInput {
    pub outcome: CardReadOutcome,
    pub sink_registered: bool,
    pub now: u64,
}

/// What a finite run produced.
pub struct RunResult {
    /// Every token handed to the sink, in dispatch order.
    pub delivered: Vec<ProvidedToken>,
    /// The surfaced error, present exactly when a read halted the run.
    pub error: Option<LoopError>,
    /// How many reads were processed, the halting one included.
    pub reads_processed: usize,
}

/// A read that ends the loop: a fatal device fault, or a membership card
/// without an identifier.
pub open spec fn halts(i: PollInput) -> bool {
    match i.outcome {
        CardReadOutcome::Fatal(_) => true,
        CardReadOutcome::Success(card) => card.card_type == CardType::Membership
            && card.tag_id is None,
        CardReadOutcome::NoCardPresent => false,
    }
}

/// A read whose token reaches the sink: a membership card with an
/// identifier, while a sink is registered at that moment.
pub open spec fn delivers(i: PollInput) -> bool {
    &&& i.sink_registered
    &&& match i.outcome {
        CardReadOutcome::Success(card) => card.card_type == CardType::Membership
            && card.tag_id is Some,
        _ => false,
    }
}

/// The identifier carried by a successful read (empty for the others).
pub open spec fn tag_of(i: PollInput) -> Seq<char> {
    match i.outcome {
        CardReadOutcome::Success(card) => match card.tag_id {
            Some(t) => t@,
            None => Seq::empty(),
        },
        _ => Seq::empty(),
    }
}

/// The index of the first halting read, or the length of the sequence if
/// none halts.
pub open spec fn first_halt(s: Seq<PollInput>) -> int
    decreases s.len(),
{
    if s.len() == 0 {
        0
    } else if halts(s[0]) {
        0
    } else {
        1 + first_halt(s.skip(1))
    }
}

/// The identifiers delivered over a run, in order: one per delivering read
/// before the first halting read. Drops are not queued, so they leave no
/// trace here.
pub open spec fn delivered_tags(s: Seq<PollInput>) -> Seq<Seq<char>>
    decreases s.len(),
{
    if s.len() == 0 {
        Seq::empty()
    } else if halts(s[0]) {
        Seq::empty()
    } else if delivers(s[0]) {
        seq![tag_of(s[0])] + delivered_tags(s.skip(1))
    } else {
        delivered_tags(s.skip(1))
    }
}

/// The error a halting read surfaces.
pub open spec fn error_for(e: LoopError, i: PollInput) -> bool {
    match i.outcome {
        CardReadOutcome::Fatal(cause) => e matches LoopError::Device(m) && m@ == cause@,
        CardReadOutcome::Success(card) => card.card_type == CardType::Membership
            && card.tag_id is None && e is MissingTagId,
        CardReadOutcome::NoCardPresent => false,
    }
}

/// The identifiers of a sequence of tokens, in order.
pub open spec fn tags_of_tokens(ts: Seq<ProvidedToken>) -> Seq<Seq<char>> {
    ts.map_values(|t: ProvidedToken| t.id_token@)
}

pub proof fn lemma_first_halt_bounds(s: Seq<PollInput>)
    ensures
        0 <= first_halt(s) <= s.len(),
        first_halt(s) < s.len() ==> halts(s[first_halt(s)]),
        forall|j: int| 0 <= j < first_halt(s) ==> !halts(#[trigger] s[j]),
    decreases s.len(),
{
    if s.len() == 0 {
    } else if halts(s[0]) {
    } else {
        lemma_first_halt_bounds(s.skip(1));
        assert forall|j: int| 0 <= j < first_halt(s) implies !halts(#[trigger] s[j]) by {
            if j > 0 {
                assert(s.skip(1)[j - 1] == s[j]);
            }
        }
        if first_halt(s) < s.len() {
            assert(s.skip(1)[first_halt(s) - 1] == s[first_halt(s)]);
        }
    }
}

/// Process the given reads in order, halting at the first fatal one.
///
/// The deliveries are exactly the model's `delivered_tags`, each token
/// well-formed; the error is present exactly when some read halts, and it
/// is the first such read's error.
pub fn run_reads(cooldown: u64, inputs: &Vec<PollInput>) -> (r: RunResult)
    requires
        forall|j: int| 0 <= j < inputs@.len() ==> (#[trigger] inputs@[j].now) + cooldown <= u64::MAX,
    ensures
        tags_of_tokens(r.delivered@) == delivered_tags(inputs@),
        forall|j: int| 0 <= j < r.delivered@.len() ==> token_fields_fixed(#[trigger] r.delivered@[j]),
        first_halt(inputs@) == inputs@.len() ==> r.error is None
            && r.reads_processed == inputs@.len(),
        first_halt(inputs@) < inputs@.len() ==> {
            &&& r.error matches Some(e) && error_for(e, inputs@[first_halt(inputs@)])
            &&& r.reads_processed == first_halt(inputs@) + 1
        },
{
    let mut state = PollLoop::new(cooldown);
    let mut delivered: Vec<ProvidedToken> = Vec::new();
    let n = inputs.len();
    let mut i: usize = 0;
    proof {
        assert(inputs@.skip(0) =~= inputs@);
        assert(tags_of_tokens(delivered@) + delivered_tags(inputs@) =~= delivered_tags(inputs@));
    }
    while i < n
        invariant
            n == inputs@.len(),
            0 <= i <= n,
            state.cooldown == cooldown,
            forall|j: int| 0 <= j < inputs@.len() ==> (#[trigger] inputs@[j].now) + cooldown <= u64::MAX,
            forall|j: int| 0 <= j < i ==> !halts(#[trigger] inputs@[j]),
            tags_of_tokens(delivered@) + delivered_tags(inputs@.skip(i as int)) == delivered_tags(inputs@),
            forall|j: int| 0 <= j < delivered@.len() ==> token_fields_fixed(#[trigger] delivered@[j]),
        decreases n - i,
    {
        let input = &inputs[i];
        let ghost rest = inputs@.skip(i as int);
        proof {
            assert(rest[0] == inputs@[i as int]);
            assert(rest.skip(1) =~= inputs@.skip(i as int + 1));
        }
        let eff = state.step(&input.outcome, input.sink_registered, input.now);
        match eff {
            StepEffect::Halted(e) => {
                proof {
                    assert(halts(inputs@[i as int]));
                    assert(delivered_tags(rest) =~= Seq::<Seq<char>>::empty());
                    assert(tags_of_tokens(delivered@) + delivered_tags(rest) =~= tags_of_tokens(delivered@));
                    lemma_first_halt_at(inputs@, i as int);
                }
                return RunResult { delivered, error: Some(e), reads_processed: i + 1 };
            },
            StepEffect::Delivered(t) => {
                proof {
                    assert(delivers(inputs@[i as int]));
                    assert(!halts(inputs@[i as int]));
                    assert(delivered_tags(rest) == seq![tag_of(rest[0])] + delivered_tags(rest.skip(1)));
                    assert(tags_of_tokens(delivered@.push(t)) =~= tags_of_tokens(delivered@).push(t.id_token@));
                    assert(tags_of_tokens(delivered@).push(t.id_token@)
                        + delivered_tags(inputs@.skip(i as int + 1))
                        =~= tags_of_tokens(delivered@) + delivered_tags(rest));
                }
                delivered.push(t);
            },
            StepEffect::Dropped => {
                proof {
                    assert(!halts(inputs@[i as int]));
                    assert(!delivers(inputs@[i as int]));
                    assert(delivered_tags(rest) == delivered_tags(rest.skip(1)));
                }
            },
            StepEffect::Idle => {
                proof {
                    assert(!halts(inputs@[i as int]));
                    assert(!delivers(inputs@[i as int]));
                    assert(delivered_tags(rest) == delivered_tags(rest.skip(1)));
                }
            },
            StepEffect::BankIgnored => {
                proof {
                    assert(!halts(inputs@[i as int]));
                    assert(!delivers(inputs@[i as int]));
                    assert(delivered_tags(rest) == delivered_tags(rest.skip(1)));
                }
            },
        }
        i += 1;
    }
    proof {
        assert(inputs@.skip(n as int) =~= Seq::<PollInput>::empty());
        assert(tags_of_tokens(delivered@) + delivered_tags(inputs@.skip(n as int))
            =~= tags_of_tokens(delivered@));
        lemma_first_halt_bounds(inputs@);
    }
    RunResult { delivered, error: None, reads_processed: n }
}

/// The first halting read is where the run halts: no earlier read halts
/// it, and deliveries after it never happen.
pub proof fn lemma_first_halt_at(s: Seq<PollInput>, k: int)
    requires
        0 <= k < s.len(),
        halts(s[k]),
        forall|j: int| 0 <= j < k ==> !halts(#[trigger] s[j]),
    ensures
        first_halt(s) == k,
        delivered_tags(s) == delivered_tags(s.take(k)),
    decreases k,
{
    if k == 0 {
        assert(s.take(0) =~= Seq::<PollInput>::empty());
    } else {
        assert(!halts(s[0]));
        assert forall|j: int| 0 <= j < k - 1 implies !halts(#[trigger] s.skip(1)[j]) by {
            assert(s.skip(1)[j] == s[j + 1]);
        }
        assert(s.skip(1)[k - 1] == s[k]);
        lemma_first_halt_at(s.skip(1), k - 1);
        assert(s.take(k)[0] == s[0]);
        assert(s.take(k).skip(1) =~= s.skip(1).take(k - 1));
        if delivers(s[0]) {
            assert(delivered_tags(s) == seq![tag_of(s[0])] + delivered_tags(s.skip(1)));
            assert(delivered_tags(s.take(k)) == seq![tag_of(s.take(k)[0])]
                + delivered_tags(s.take(k).skip(1)));
        } else {
            assert(delivered_tags(s) == delivered_tags(s.skip(1)));
            assert(delivered_tags(s.take(k)) == delivered_tags(s.take(k).skip(1)));
        }
    }
}

/// Law: over any sequence of "no card present" outcomes, the loop never
/// dispatches to the sink and never halts — polling goes on forever.
pub proof fn lemma_idle_never_dispatches(s: Seq<PollInput>)
    requires
        forall|j: int| 0 <= j < s.len() ==> (#[trigger] s[j].outcome) is NoCardPresent,
    ensures
        delivered_tags(s) == Seq::<Seq<char>>::empty(),
        first_halt(s) == s.len(),
    decreases s.len(),
{
    if s.len() > 0 {
        assert(!halts(s[0]) && !delivers(s[0]));
        assert forall|j: int| 0 <= j < s.skip(1).len() implies (#[trigger] s.skip(1)[j].outcome)
            is NoCardPresent by {
            assert(s.skip(1)[j] == s[j + 1]);
        }
        lemma_idle_never_dispatches(s.skip(1));
    }
}

/// Law: drops are not queued. After any prefix of reads that neither halt
/// nor deliver (idle reads, bank cards, and membership reads made while no
/// sink was registered), the first delivering read's identifier is the one
/// and only delivery so far — registering a sink late delivers the next
/// membership read, not the past drops.
pub proof fn lemma_no_queueing(s: Seq<PollInput>, k: int)
    requires
        0 <= k < s.len(),
        forall|j: int| 0 <= j < k ==> !halts(#[trigger] s[j]) && !delivers(#[trigger] s[j]),
        delivers(s[k]),
    ensures
        delivered_tags(s.take(k + 1)) == seq![tag_of(s[k])],
    decreases k,
{
    if k == 0 {
        assert(s.take(1)[0] == s[0]);
        assert(!halts(s[0]));
        assert(s.take(1).skip(1) =~= Seq::<PollInput>::empty());
        assert(delivered_tags(s.take(1)) == seq![tag_of(s.take(1)[0])]
            + delivered_tags(s.take(1).skip(1)));
        assert(delivered_tags(s.take(1)) =~= seq![tag_of(s[0])]);
    } else {
        assert(!halts(s[0]) && !delivers(s[0]));
        assert forall|j: int| 0 <= j < k - 1 implies !halts(#[trigger] s.skip(1)[j])
            && !delivers(#[trigger] s.skip(1)[j]) by {
            assert(s.skip(1)[j] == s[j + 1]);
        }
        assert(s.skip(1)[k - 1] == s[k]);
        lemma_no_queueing(s.skip(1), k - 1);
        assert(s.take(k + 1)[0] == s[0]);
        assert(s.take(k + 1).skip(1) =~= s.skip(1).take(k));
        assert(delivered_tags(s.take(k + 1)) == delivered_tags(s.take(k + 1).skip(1)));
    }
}

/// Law: a fatal read at any point halts the run exactly there, with
/// exactly one surfaced error and no deliveries at or after the fault.
/// Together with `run_reads`'s contract: the error surfaced is the
/// halting read's own, and `reads_processed` counts up to and including
/// that read.
pub proof fn lemma_fatal_halts_once(s: Seq<PollInput>, k: int)
    requires
        0 <= k < s.len(),
        halts(s[k]),
        forall|j: int| 0 <= j < k ==> !halts(#[trigger] s[j]),
    ensures
        first_halt(s) == k,
        delivered_tags(s) == delivered_tags(s.take(k)),
{
    lemma_first_halt_at(s, k);
}

} // verus!
