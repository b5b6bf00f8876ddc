//! What a run comes to: the link between the candidates of a work unit,
//! the events that the engine reports and what the consumer presents.

use vstd::prelude::*;
use crate::candidates::Candidate;
use crate::consumer::{
    Page, after_events, has_completion, has_match, initial_view, lemma_match_takes_precedence,
};
use crate::engine::{candidate_trace, run_trace, scan_trace};
use crate::events::{Event, EventShape, shapes};
use crate::network::NetworkParams;

verus! {

/// True when one of the candidates yields the target hash.
pub open spec fn holds_passphrase(params: NetworkParams, work: Seq<Candidate>) -> bool {
    exists|i: int| 0 <= i < work.len() && params.accepts((#[trigger] work[i]).bytes())
}

/// The match event that reports `candidate` on the network `params`.
pub open spec fn match_of(params: NetworkParams, candidate: Candidate) -> EventShape {
    EventShape::Match { matched_hash: params@.target_hash, passphrase: candidate@ }
}

/// An event is among those of the first `n` tests exactly when it is among
/// those of one of these tests.
proof fn lemma_scan_members(params: NetworkParams, work: Seq<Candidate>, n: nat, s: EventShape)
    requires
        n <= work.len(),
    ensures
        scan_trace(params, work, n).contains(s) <==> exists|i: int|
            0 <= i < n && candidate_trace(params, #[trigger] work[i], work.len()).contains(s),
    decreases n,
{
    if n == 0 {
        assert(!Seq::<EventShape>::empty().contains(s));
    } else {
        let m = (n - 1) as nat;
        let head = scan_trace(params, work, m);
        let tail = candidate_trace(params, work[n - 1], work.len());
        lemma_scan_members(params, work, m, s);
        vstd::seq_lib::lemma_seq_concat_contains_all_elements(head, tail, s);
        if head.contains(s) {
            let i = choose|i: int|
                0 <= i < m && candidate_trace(params, #[trigger] work[i], work.len()).contains(s);
            assert(0 <= i < n && candidate_trace(params, work[i], work.len()).contains(s));
        }
        if exists|i: int|
            0 <= i < n && candidate_trace(params, #[trigger] work[i], work.len()).contains(s) {
            let i = choose|i: int|
                0 <= i < n && candidate_trace(params, #[trigger] work[i], work.len()).contains(s);
            if i < m {
                assert(head.contains(s));
            } else {
                assert(tail.contains(s));
            }
        }
    }
}

/// The events of one test hold the candidate's match event exactly when
/// the candidate yields the target hash, and no other match event.
proof fn lemma_candidate_members(
    params: NetworkParams,
    candidate: Candidate,
    total: nat,
    s: EventShape,
)
    requires
        s is Match,
    ensures
        candidate_trace(params, candidate, total).contains(s) <==> (params.accepts(
            candidate.bytes(),
        ) && s == match_of(params, candidate)),
{
    let trace = candidate_trace(params, candidate, total);
    if params.accepts(candidate.bytes()) {
        assert(trace[0] == match_of(params, candidate));
        if trace.contains(s) {
            let k = choose|k: int| 0 <= k < trace.len() && trace[k] == s;
            assert(k == 0);
        }
    } else {
        if trace.contains(s) {
            let k = choose|k: int| 0 <= k < trace.len() && trace[k] == s;
            assert(k == 0);
        }
    }
}

/// A candidate that yields the target hash is reported: the run has a
/// match event with that passphrase, and its hash is the target hash.
pub proof fn lemma_match_is_reported(params: NetworkParams, work: Seq<Candidate>, i: int)
    requires
        0 <= i < work.len(),
        params.accepts(work[i].bytes()),
    ensures
        run_trace(params, work).contains(match_of(params, work[i])),
{
    let s = match_of(params, work[i]);
    let scanned = scan_trace(params, work, work.len());
    lemma_candidate_members(params, work[i], work.len(), s);
    lemma_scan_members(params, work, work.len(), s);
    vstd::seq_lib::lemma_seq_concat_contains_all_elements(
        scanned,
        seq![EventShape::Completion],
        s,
    );
}

/// Nothing else is reported: every match event of a run carries the target
/// hash and the passphrase of a candidate that yields it.
pub proof fn lemma_matches_are_true(params: NetworkParams, work: Seq<Candidate>, s: EventShape)
    requires
        run_trace(params, work).contains(s),
        s is Match,
    ensures
        s->matched_hash == params@.target_hash,
        exists|i: int|
            0 <= i < work.len() && params.accepts((#[trigger] work[i]).bytes()) && s->passphrase
                == work[i]@,
{
    let scanned = scan_trace(params, work, work.len());
    let end = seq![EventShape::Completion];
    vstd::seq_lib::lemma_seq_concat_contains_all_elements(scanned, end, s);
    if end.contains(s) {
        let k = choose|k: int| 0 <= k < end.len() && end[k] == s;
        assert(end[k] is Completion);
    }
    lemma_scan_members(params, work, work.len(), s);
    let i = choose|i: int|
        0 <= i < work.len() && candidate_trace(params, #[trigger] work[i], work.len()).contains(s);
    lemma_candidate_members(params, work[i], work.len(), s);
    assert(params.accepts(work[i].bytes()) && s->passphrase == work[i]@);
}

/// In whatever order the events of a run reach the consumer, it ends up
/// presenting success if the wordlist holds the passphrase and failure if
/// it does not.
pub proof fn lemma_outcome_in_any_order(
    params: NetworkParams,
    work: Seq<Candidate>,
    events: Seq<Event>,
)
    requires
        shapes(events).to_multiset() == run_trace(params, work).to_multiset(),
    ensures
        after_events(initial_view(), events).page == if holds_passphrase(params, work) {
            Page::Success
        } else {
            Page::Failure
        },
{
    let got = shapes(events);
    let want = run_trace(params, work);
    got.to_multiset_ensures();
    want.to_multiset_ensures();
    assert forall|s: EventShape| got.contains(s) <==> want.contains(s) by {
        assert(got.contains(s) <==> got.to_multiset().count(s) > 0);
        assert(want.contains(s) <==> want.to_multiset().count(s) > 0);
    }
    assert(has_completion(events)) by {
        let end = EventShape::Completion;
        assert(want[want.len() - 1] == end);
        assert(want.contains(end));
        assert(got.contains(end));
        let k = choose|k: int| 0 <= k < got.len() && got[k] == end;
        assert(events[k] is Completion);
    }
    if holds_passphrase(params, work) {
        let i = choose|i: int|
            0 <= i < work.len() && params.accepts((#[trigger] work[i]).bytes());
        lemma_match_is_reported(params, work, i);
        let s = match_of(params, work[i]);
        assert(got.contains(s));
        let k = choose|k: int| 0 <= k < got.len() && got[k] == s;
        assert(events[k] is Match);
    }
    if has_match(events) {
        let k = choose|k: int| 0 <= k < events.len() && (#[trigger] events[k]) is Match;
        let s = got[k];
        assert(s is Match);
        assert(got.contains(s));
        lemma_matches_are_true(params, work, s);
    }
    lemma_match_takes_precedence(events);
}

} // verus!
