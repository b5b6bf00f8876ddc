//! The events that a cracking run reports.
//!
//! Workers report one progress event per candidate and one match event per
//! matching candidate; the run ends with a single completion event.

use vstd::prelude::*;

verus! {

/// One step of progress: one candidate out of `total` has been tested, so
/// the fraction done grows by `1 / total`.
#[derive(Clone, Copy, Debug)]
pub struct ProgressEvent {
    total: usize,
}

impl View for ProgressEvent {
    type V = nat;

    /// The number of candidates of the run.
    closed spec fn view(&self) -> nat {
        self.total as nat
    }
}

impl ProgressEvent {
    #[verifier::type_invariant]
    spec fn positive_total(&self) -> bool {
        self.total > 0
    }

    /// The step of a run over `total` candidates; a run over none has no
    /// steps.
    pub fn new(total: usize) -> (event: Option<ProgressEvent>)
        ensures
            event is Some <==> total > 0,
            event matches Some(e) ==> e@ == total,
    {
        if total == 0 {
            None
        } else {
            Some(ProgressEvent { total })
        }
    }

    /// The number of candidates of the run, which is the denominator of the
    /// fraction `1 / total` that this event adds.
    pub fn total(&self) -> (total: usize)
        ensures
            total == self@,
            total > 0,
    {
        proof {
            use_type_invariant(self);
        }
        self.total
    }
}

/// A candidate whose PMKID is the target hash.
#[derive(Clone, Debug)]
pub struct MatchEvent {
    /// The hash that was matched, which is the target hash of the run.
    pub matched_hash: [u8; 16],
    /// The passphrase that yields it.
    pub passphrase: String,
    /// Milliseconds since the run started.
    pub elapsed_ms: u128,
}

/// The scan has gone through every candidate.
#[derive(Clone, Copy, Debug)]
pub struct CompletionEvent {}

/// Any event of a run.
#[derive(Clone, Debug)]
pub enum Event {
    /// One more candidate has been tested.
    Progress(ProgressEvent),
    /// A candidate matched.
    Match(MatchEvent),
    /// No candidate is left.
    Completion(CompletionEvent),
}

/// What an event says, without the time at which it was produced.
pub enum EventShape {
    /// One candidate out of `total` has been tested.
    Progress { total: nat },
    /// `passphrase` yields `matched_hash`.
    Match { matched_hash: Seq<u8>, passphrase: Seq<char> },
    /// The scan is exhausted.
    Completion,
}

impl MatchEvent {
    /// What the event says, without its time.
    pub open spec fn shape(&self) -> EventShape {
        EventShape::Match { matched_hash: self.matched_hash@, passphrase: self.passphrase@ }
    }
}

impl Event {
    /// What the event says, without its time.
    pub open spec fn shape(&self) -> EventShape {
        match self {
            Event::Progress(p) => EventShape::Progress { total: p@ },
            Event::Match(m) => m.shape(),
            Event::Completion(_) => EventShape::Completion,
        }
    }
}

/// The shapes of a sequence of events, in order.
pub open spec fn shapes(events: Seq<Event>) -> Seq<EventShape> {
    events.map_values(|e: Event| e.shape())
}

/// The number of progress events in a trace.
pub open spec fn progress_count(trace: Seq<EventShape>) -> nat {
    trace.filter(|s: EventShape| s is Progress).len()
}

/// The number of match events in a trace.
pub open spec fn match_count(trace: Seq<EventShape>) -> nat {
    trace.filter(|s: EventShape| s is Match).len()
}

/// The number of completion events in a trace.
pub open spec fn completion_count(trace: Seq<EventShape>) -> nat {
    trace.filter(|s: EventShape| s is Completion).len()
}

} // verus!
