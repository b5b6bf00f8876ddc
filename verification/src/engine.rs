//! The cracking engine: every candidate of a work unit is tested, and what
//! happened is reported as events.
//!
//! The engine scans to exhaustion. It does not stop at the first match, so
//! a wordlist that holds the passphrase twice yields two match events.

use vstd::prelude::*;
use std::time::Instant;
use crate::candidates::{Candidate, WorkUnit};
use crate::events::{
    CompletionEvent, Event, EventShape, MatchEvent, ProgressEvent, completion_count, match_count,
    progress_count, shapes,
};
use crate::network::NetworkParams;
use crate::pmkid::is_match;

verus! {

/// A reading of the monotonic clock, carried through as it is.
#[verifier::external_type_specification]
#[verifier::external_body]
pub struct ExInstant(std::time::Instant);

/// `Instant::now` reads the clock; nothing is known of what it returns.
pub assume_specification[ std::time::Instant::now ]() -> (now: std::time::Instant);

/// `Instant::elapsed` reads the clock; nothing is known of what it returns.
pub assume_specification[ std::time::Instant::elapsed ](start: &std::time::Instant) -> (elapsed:
    core::time::Duration);

/// `Duration::as_millis`; the engine only passes the number on.
pub assume_specification[ core::time::Duration::as_millis ](duration: &core::time::Duration) -> (ms:
    u128);

/// What the test of one candidate of a run over `total` candidates
/// reports: a match event if the candidate yields the target hash, then a
/// progress event in either case.
pub open spec fn candidate_trace(params: NetworkParams, candidate: Candidate, total: nat) -> Seq<
    EventShape,
> {
    if params.accepts(candidate.bytes()) {
        seq![
            EventShape::Match { matched_hash: params@.target_hash, passphrase: candidate@ },
            EventShape::Progress { total },
        ]
    } else {
        seq![EventShape::Progress { total }]
    }
}

/// What the tests of the first `n` candidates of `work` report, in
/// wordlist order.
pub open spec fn scan_trace(params: NetworkParams, work: Seq<Candidate>, n: nat) -> Seq<EventShape>
    decreases n,
{
    if n == 0 {
        Seq::empty()
    } else {
        scan_trace(params, work, (n - 1) as nat) + candidate_trace(
            params,
            work[n - 1],
            work.len(),
        )
    }
}

/// What a whole run reports: the tests of all candidates, then one
/// completion event.
pub open spec fn run_trace(params: NetworkParams, work: Seq<Candidate>) -> Seq<EventShape> {
    scan_trace(params, work, work.len()) + seq![EventShape::Completion]
}

/// Tests one candidate and, if it matches, says so with the time that has
/// passed since `started`.
pub fn check_candidate(params: &NetworkParams, candidate: &Candidate, started: &Instant) -> (found:
    Option<MatchEvent>)
    ensures
        found is Some <==> params.accepts(candidate.bytes()),
        found matches Some(m) ==> m.shape() == (EventShape::Match {
            matched_hash: params@.target_hash,
            passphrase: candidate@,
        }),
{
    if is_match(params, candidate.as_bytes()) {
        let elapsed = started.elapsed();
        Some(
            MatchEvent {
                matched_hash: *params.target_hash(),
                passphrase: candidate.as_str().to_owned(),
                elapsed_ms: elapsed.as_millis(),
            },
        )
    } else {
        None
    }
}

/// Tests the candidate at `index` of `work` and returns the events of that
/// test: the match, if there is one, and the step of progress.
pub fn test_candidate(params: &NetworkParams, work: &WorkUnit, index: usize, started: &Instant) -> (events:
    Vec<Event>)
    requires
        index < work@.len(),
    ensures
        shapes(events@) == candidate_trace(*params, work@[index as int], work@.len()),
{
    let candidate = work.get(index).unwrap();
    let mut events: Vec<Event> = Vec::new();
    let found = check_candidate(params, candidate, started);
    if let Some(m) = found {
        events.push(Event::Match(m));
    }
    let step = ProgressEvent::new(work.len()).unwrap();
    events.push(Event::Progress(step));
    assert(shapes(events@) =~= candidate_trace(*params, work@[index as int], work@.len()));
    events
}

/// The event that ends a run.
pub fn completion() -> (event: Event)
    ensures
        event.shape() == EventShape::Completion,
{
    Event::Completion(CompletionEvent {  })
}

/// Runs the whole scan on the calling thread and returns its events in
/// wordlist order, the completion event last.
pub fn scan(params: &NetworkParams, work: &WorkUnit) -> (events: Vec<Event>)
    ensures
        shapes(events@) == run_trace(*params, work@),
{
    let started = Instant::now();
    let mut events: Vec<Event> = Vec::new();
    let mut i: usize = 0;
    assert(shapes(events@) =~= scan_trace(*params, work@, 0));
    while i < work.len()
        invariant
            i <= work@.len(),
            shapes(events@) == scan_trace(*params, work@, i as nat),
        decreases work@.len() - i,
    {
        let ghost before = events@;
        let candidate = work.get(i).unwrap();
        let found = check_candidate(params, candidate, &started);
        if let Some(m) = found {
            events.push(Event::Match(m));
        }
        let step = ProgressEvent::new(work.len()).unwrap();
        events.push(Event::Progress(step));
        assert(shapes(events@) =~= shapes(before) + candidate_trace(
            *params,
            work@[i as int],
            work@.len(),
        ));
        i += 1;
    }
    let ghost scanned = events@;
    events.push(completion());
    assert(shapes(events@) =~= shapes(scanned) + seq![EventShape::Completion]);
    events
}

/// The passphrases that a trace reports as found, in the order of the
/// trace.
pub open spec fn found_passphrases(trace: Seq<EventShape>) -> Seq<Seq<char>> {
    trace.filter(|s: EventShape| s is Match).map_values(|s: EventShape| s->passphrase)
}

/// The counts of the events of one candidate's test.
proof fn lemma_candidate_counts(params: NetworkParams, candidate: Candidate, total: nat)
    ensures
        progress_count(candidate_trace(params, candidate, total)) == 1,
        completion_count(candidate_trace(params, candidate, total)) == 0,
        match_count(candidate_trace(params, candidate, total)) == if params.accepts(
            candidate.bytes(),
        ) {
            1nat
        } else {
            0nat
        },
{
    let none = Seq::<EventShape>::empty();
    let hit = EventShape::Match { matched_hash: params@.target_hash, passphrase: candidate@ };
    let step = EventShape::Progress { total };
    let is_progress = |s: EventShape| s is Progress;
    let is_match = |s: EventShape| s is Match;
    let is_completion = |s: EventShape| s is Completion;
    if params.accepts(candidate.bytes()) {
        assert(candidate_trace(params, candidate, total) =~= none.push(hit).push(step));
        none.lemma_filter_push(hit, is_progress);
        none.push(hit).lemma_filter_push(step, is_progress);
        none.lemma_filter_push(hit, is_match);
        none.push(hit).lemma_filter_push(step, is_match);
        none.lemma_filter_push(hit, is_completion);
        none.push(hit).lemma_filter_push(step, is_completion);
    } else {
        assert(candidate_trace(params, candidate, total) =~= none.push(step));
        none.lemma_filter_push(step, is_progress);
        none.lemma_filter_push(step, is_match);
        none.lemma_filter_push(step, is_completion);
    }
}

/// The counts of the events of the first `n` tests of a run.
proof fn lemma_scan_counts(params: NetworkParams, work: Seq<Candidate>, n: nat)
    requires
        n <= work.len(),
    ensures
        progress_count(scan_trace(params, work, n)) == n,
        completion_count(scan_trace(params, work, n)) == 0,
        match_count(scan_trace(params, work, n)) == work.take(n as int).filter(
            |c: Candidate| params.accepts(c.bytes()),
        ).len(),
    decreases n,
{
    let accepted = |c: Candidate| params.accepts(c.bytes());
    if n == 0 {
        assert(work.take(0) =~= Seq::<Candidate>::empty());
    } else {
        let m = (n - 1) as nat;
        let head = scan_trace(params, work, m);
        let tail = candidate_trace(params, work[n - 1], work.len());
        lemma_scan_counts(params, work, m);
        lemma_candidate_counts(params, work[n - 1], work.len());
        Seq::filter_distributes_over_add(head, tail, |s: EventShape| s is Progress);
        Seq::filter_distributes_over_add(head, tail, |s: EventShape| s is Match);
        Seq::filter_distributes_over_add(head, tail, |s: EventShape| s is Completion);
        assert(work.take(n as int) =~= work.take(m as int).push(work[n - 1]));
        work.take(m as int).lemma_filter_push(work[n - 1], accepted);
    }
}

/// Every progress event of the first `n` tests carries the number of
/// candidates of the run.
proof fn lemma_scan_totals(params: NetworkParams, work: Seq<Candidate>, n: nat, k: int)
    requires
        n <= work.len(),
        0 <= k < scan_trace(params, work, n).len(),
        scan_trace(params, work, n)[k] is Progress,
    ensures
        scan_trace(params, work, n)[k]->total == work.len(),
    decreases n,
{
    if n > 0 {
        let head = scan_trace(params, work, (n - 1) as nat);
        if k < head.len() {
            lemma_scan_totals(params, work, (n - 1) as nat, k);
        }
    }
}

/// A run ends with its completion event and reports no other: the
/// completion comes after every progress and match event.
pub proof fn lemma_completion_once_and_last(params: NetworkParams, work: Seq<Candidate>)
    ensures
        completion_count(run_trace(params, work)) == 1,
        run_trace(params, work).last() is Completion,
{
    let scanned = scan_trace(params, work, work.len());
    lemma_scan_counts(params, work, work.len());
    scanned.lemma_filter_push(EventShape::Completion, |s: EventShape| s is Completion);
    assert(run_trace(params, work) =~= scanned.push(EventShape::Completion));
}

/// A run over a wordlist that does not hold the passphrase reports no
/// match event and exactly one completion event.
pub proof fn lemma_no_match_without_passphrase(params: NetworkParams, work: Seq<Candidate>)
    requires
        forall|i: int| 0 <= i < work.len() ==> !params.accepts(#[trigger] work[i].bytes()),
    ensures
        match_count(run_trace(params, work)) == 0,
        completion_count(run_trace(params, work)) == 1,
{
    lemma_match_per_occurrence(params, work);
    lemma_completion_once_and_last(params, work);
    let accepted = |c: Candidate| params.accepts(c.bytes());
    work.lemma_all_neg_filter_empty(accepted);
}

/// A run reports one match event for each occurrence of a matching
/// candidate in the wordlist, duplicates included.
pub proof fn lemma_match_per_occurrence(params: NetworkParams, work: Seq<Candidate>)
    ensures
        match_count(run_trace(params, work)) == work.filter(
            |c: Candidate| params.accepts(c.bytes()),
        ).len(),
{
    let scanned = scan_trace(params, work, work.len());
    lemma_scan_counts(params, work, work.len());
    scanned.lemma_filter_push(EventShape::Completion, |s: EventShape| s is Match);
    assert(run_trace(params, work) =~= scanned.push(EventShape::Completion));
    assert(work.take(work.len() as int) =~= work);
}

/// A run reports one progress event per candidate, and each of them adds
/// one part in as many parts as the run has candidates: over a wordlist
/// that is not empty the parts add up to exactly one whole.
pub proof fn lemma_progress_adds_up(params: NetworkParams, work: Seq<Candidate>)
    ensures
        progress_count(run_trace(params, work)) == work.len(),
        forall|k: int|
            0 <= k < run_trace(params, work).len() && (#[trigger] run_trace(
                params,
                work,
            )[k]) is Progress ==> run_trace(params, work)[k]->total == work.len(),
{
    let scanned = scan_trace(params, work, work.len());
    lemma_scan_counts(params, work, work.len());
    scanned.lemma_filter_push(EventShape::Completion, |s: EventShape| s is Progress);
    assert(run_trace(params, work) =~= scanned.push(EventShape::Completion));
    assert forall|k: int|
        0 <= k < run_trace(params, work).len() && (#[trigger] run_trace(
            params,
            work,
        )[k]) is Progress implies run_trace(params, work)[k]->total == work.len() by {
        lemma_scan_totals(params, work, work.len(), k);
    }
}

/// Two runs on the same parameters and the same wordlist report the same
/// events but for their times, and so find the same passphrases.
pub proof fn lemma_runs_agree(
    params: NetworkParams,
    work: Seq<Candidate>,
    first: Seq<Event>,
    second: Seq<Event>,
)
    requires
        shapes(first) == run_trace(params, work),
        shapes(second) == run_trace(params, work),
    ensures
        shapes(first) == shapes(second),
        found_passphrases(shapes(first)) == found_passphrases(shapes(second)),
        match_count(shapes(first)) == match_count(shapes(second)),
{
}

} // verus!
