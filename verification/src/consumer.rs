//! What the single consumer of a run's events shows.
//!
//! The three streams of a run (progress, match, completion) reach the
//! consumer in no fixed order relative to each other. The consumer applies
//! one rule to whatever arrives: a match is never replaced by the
//! completion of the run, whichever of the two is handled first.

use vstd::prelude::*;
use crate::events::{Event, MatchEvent, ProgressEvent};
use crate::report::{match_report, match_text, no_match_report, no_match_text, text_view};

verus! {

/// What the consumer presents.
#[derive(Clone, Copy, Debug, PartialEq, Eq, Structural)]
pub enum Page {
    /// The scan is going on and nothing was found so far.
    Cracking,
    /// A passphrase was found.
    Success,
    /// The scan ended without a match.
    Failure,
}

/// The state of the consumer of one run.
#[derive(Clone, Debug)]
pub struct Consumer {
    page: Page,
    tested: usize,
    total: usize,
    success_text: Option<String>,
    failure_text: Option<String>,
}

/// The state of a consumer as plain values.
pub struct ConsumerView {
    /// What is presented.
    pub page: Page,
    /// The steps of progress taken since the last completion.
    pub tested: nat,
    /// The number of candidates that the last step of progress named.
    pub total: nat,
    /// The text of the last match, if there was one.
    pub success_text: Option<Seq<char>>,
    /// The text of the completion, once it has come.
    pub failure_text: Option<Seq<char>>,
}

/// The state before any event: the scan is shown as going on, at zero.
pub open spec fn initial_view() -> ConsumerView {
    ConsumerView { page: Page::Cracking, tested: 0, total: 0, success_text: None, failure_text: None }
}

/// A step of progress counts one more tested candidate, up to the largest
/// count that fits.
pub open spec fn after_progress(v: ConsumerView, event: ProgressEvent) -> ConsumerView {
    ConsumerView {
        tested: if v.tested < usize::MAX {
            v.tested + 1
        } else {
            v.tested
        },
        total: event@,
        ..v
    }
}

/// A match is presented at once, with its text.
pub open spec fn after_match(v: ConsumerView, event: MatchEvent) -> ConsumerView {
    ConsumerView {
        page: Page::Success,
        success_text: Some(
            match_text(event.matched_hash@, event.passphrase@, event.elapsed_ms as nat),
        ),
        ..v
    }
}

/// The completion resets the progress and presents the failure, unless a
/// match is being presented.
pub open spec fn after_completion(v: ConsumerView) -> ConsumerView {
    ConsumerView {
        page: if v.page == Page::Success {
            Page::Success
        } else {
            Page::Failure
        },
        tested: 0,
        failure_text: Some(no_match_text()),
        ..v
    }
}

/// The state after one more event.
pub open spec fn after_event(v: ConsumerView, event: Event) -> ConsumerView {
    match event {
        Event::Progress(p) => after_progress(v, p),
        Event::Match(m) => after_match(v, m),
        Event::Completion(_) => after_completion(v),
    }
}

/// The state after a sequence of events, handled in their order.
pub open spec fn after_events(v: ConsumerView, events: Seq<Event>) -> ConsumerView
    decreases events.len(),
{
    if events.len() == 0 {
        v
    } else {
        after_event(after_events(v, events.drop_last()), events.last())
    }
}

/// True when one of the events is a match.
pub open spec fn has_match(events: Seq<Event>) -> bool {
    exists|i: int| 0 <= i < events.len() && (#[trigger] events[i]) is Match
}

/// True when one of the events is a completion.
pub open spec fn has_completion(events: Seq<Event>) -> bool {
    exists|i: int| 0 <= i < events.len() && (#[trigger] events[i]) is Completion
}

impl View for Consumer {
    type V = ConsumerView;

    closed spec fn view(&self) -> ConsumerView {
        ConsumerView {
            page: self.page,
            tested: self.tested as nat,
            total: self.total as nat,
            success_text: text_view(self.success_text),
            failure_text: text_view(self.failure_text),
        }
    }
}

impl Consumer {
    /// A consumer that has seen no event.
    pub fn new() -> (consumer: Consumer)
        ensures
            consumer@ == initial_view(),
    {
        Consumer {
            page: Page::Cracking,
            tested: 0,
            total: 0,
            success_text: None,
            failure_text: None,
        }
    }

    /// Handles a step of progress.
    pub fn on_progress(&mut self, event: &ProgressEvent)
        ensures
            final(self)@ == after_progress(old(self)@, *event),
    {
        if self.tested < usize::MAX {
            self.tested = self.tested + 1;
        }
        self.total = event.total();
    }

    /// Handles a match.
    pub fn on_match(&mut self, event: &MatchEvent)
        ensures
            final(self)@ == after_match(old(self)@, *event),
    {
        self.success_text = Some(match_report(event));
        self.page = Page::Success;
    }

    /// Handles the completion of the run.
    pub fn on_completion(&mut self)
        ensures
            final(self)@ == after_completion(old(self)@),
    {
        self.failure_text = Some(no_match_report());
        if self.page != Page::Success {
            self.page = Page::Failure;
        }
        self.tested = 0;
    }

    /// Handles any event.
    pub fn handle(&mut self, event: &Event)
        ensures
            final(self)@ == after_event(old(self)@, *event),
    {
        match event {
            Event::Progress(p) => self.on_progress(p),
            Event::Match(m) => self.on_match(m),
            Event::Completion(_) => self.on_completion(),
        }
    }

    /// Handles a sequence of events in their order.
    pub fn handle_all(&mut self, events: &Vec<Event>)
        ensures
            final(self)@ == after_events(old(self)@, events@),
    {
        let mut i: usize = 0;
        assert(events@.take(0) =~= Seq::<Event>::empty());
        while i < events.len()
            invariant
                i <= events@.len(),
                self@ == after_events(old(self)@, events@.take(i as int)),
            decreases events@.len() - i,
        {
            self.handle(&events[i]);
            proof {
                let next = events@.take(i + 1);
                assert(next.drop_last() =~= events@.take(i as int));
                assert(next.last() == events@[i as int]);
            }
            i += 1;
        }
        assert(events@.take(events@.len() as int) =~= events@);
    }

    /// What is presented.
    pub fn page(&self) -> (page: Page)
        ensures
            page == self@.page,
    {
        self.page
    }

    /// The progress of the scan as a fraction: the steps taken since the
    /// last completion over the number of candidates.
    pub fn progress(&self) -> (fraction: (usize, usize))
        ensures
            fraction.0 == self@.tested,
            fraction.1 == self@.total,
    {
        (self.tested, self.total)
    }

    /// The text of the last match, if there was one.
    pub fn success_text(&self) -> (text: Option<&String>)
        ensures
            text is Some <==> self@.success_text is Some,
            text matches Some(t) ==> self@.success_text == Some(t@),
    {
        self.success_text.as_ref()
    }

    /// The text of the completion, once it has come.
    pub fn failure_text(&self) -> (text: Option<&String>)
        ensures
            text is Some <==> self@.failure_text is Some,
            text matches Some(t) ==> self@.failure_text == Some(t@),
    {
        self.failure_text.as_ref()
    }
}

/// Whatever the order in which events are handled, a match is presented
/// if and only if a match event was among them; without one the failure
/// is presented as soon as the completion has been handled, and until
/// then the scan is shown as going on.
pub proof fn lemma_match_takes_precedence(events: Seq<Event>)
    ensures
        after_events(initial_view(), events).page == if has_match(events) {
            Page::Success
        } else if has_completion(events) {
            Page::Failure
        } else {
            Page::Cracking
        },
    decreases events.len(),
{
    if events.len() > 0 {
        let before = events.drop_last();
        lemma_match_takes_precedence(before);
        if has_match(before) {
            let i = choose|i: int| 0 <= i < before.len() && (#[trigger] before[i]) is Match;
            assert(events[i] is Match);
        }
        if has_completion(before) {
            let i = choose|i: int| 0 <= i < before.len() && (#[trigger] before[i]) is Completion;
            assert(events[i] is Completion);
        }
        if has_match(events) {
            let i = choose|i: int| 0 <= i < events.len() && (#[trigger] events[i]) is Match;
            if i < before.len() {
                assert(before[i] is Match);
            }
        }
        if has_completion(events) {
            let i = choose|i: int| 0 <= i < events.len() && (#[trigger] events[i]) is Completion;
            if i < before.len() {
                assert(before[i] is Completion);
            }
        }
        assert(events[events.len() - 1] == events.last());
    }
}

/// The number of progress events among the events.
pub open spec fn progress_events(events: Seq<Event>) -> nat {
    events.filter(|e: Event| e is Progress).len()
}

/// The consumer never counts more steps than it was handed progress
/// events, so the fraction that it shows for a run stays within one whole
/// as long as the run reports no more steps than it has candidates.
pub proof fn lemma_tested_within_steps(events: Seq<Event>)
    ensures
        after_events(initial_view(), events).tested <= progress_events(events),
    decreases events.len(),
{
    if events.len() > 0 {
        let before = events.drop_last();
        lemma_tested_within_steps(before);
        assert(events =~= before.push(events.last()));
        before.lemma_filter_push(events.last(), |e: Event| e is Progress);
    }
}

/// Once the completion has been handled the failure text is the fixed
/// text of a scan that found nothing, and it stays.
pub proof fn lemma_completion_sets_failure_text(events: Seq<Event>)
    requires
        has_completion(events),
    ensures
        after_events(initial_view(), events).failure_text == Some(no_match_text()),
    decreases events.len(),
{
    let before = events.drop_last();
    if events.last() is Completion {
    } else {
        let i = choose|i: int| 0 <= i < events.len() && (#[trigger] events[i]) is Completion;
        assert(before[i] is Completion);
        lemma_completion_sets_failure_text(before);
    }
}

} // verus!
