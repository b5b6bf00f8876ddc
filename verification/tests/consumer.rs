use ramesh::consumer::{Consumer, Page};
use ramesh::engine::{completion, scan};
use ramesh::events::{Event, MatchEvent, ProgressEvent};
use ramesh::candidates::WorkUnit;
use ramesh::network::NetworkParams;

fn hit() -> MatchEvent {
    MatchEvent {
        matched_hash: [0xab; 16],
        passphrase: "correctpass".to_string(),
        elapsed_ms: 42,
    }
}

const HIT_TEXT: &str = "PMKID Hash: abababababababababababababababab\nPassphrase: correctpass\nTime Taken: 42 ms";

fn step(total: usize) -> ProgressEvent {
    ProgressEvent::new(total).unwrap()
}

#[test]
fn new_consumer_shows_cracking() {
    let c = Consumer::new();
    assert_eq!(c.page(), Page::Cracking);
    assert_eq!(c.progress(), (0, 0));
    assert!(c.success_text().is_none());
    assert!(c.failure_text().is_none());
}

#[test]
fn progress_counts_steps() {
    let mut c = Consumer::new();
    c.on_progress(&step(3));
    assert_eq!(c.progress(), (1, 3));
    c.on_progress(&step(3));
    c.on_progress(&step(3));
    assert_eq!(c.progress(), (3, 3));
    assert_eq!(c.page(), Page::Cracking);
}

#[test]
fn completion_without_match_shows_failure() {
    let mut c = Consumer::new();
    c.on_progress(&step(1));
    c.on_completion();
    assert_eq!(c.page(), Page::Failure);
    assert_eq!(c.failure_text().map(|s| s.as_str()), Some("No match found"));
    assert!(c.success_text().is_none());
    assert_eq!(c.progress(), (0, 1));
}

#[test]
fn match_then_completion_shows_success() {
    let mut c = Consumer::new();
    c.on_match(&hit());
    assert_eq!(c.page(), Page::Success);
    c.on_completion();
    assert_eq!(c.page(), Page::Success);
    assert_eq!(c.success_text().map(|s| s.as_str()), Some(HIT_TEXT));
    assert_eq!(c.failure_text().map(|s| s.as_str()), Some("No match found"));
}

#[test]
fn completion_then_match_shows_success() {
    let mut c = Consumer::new();
    c.on_completion();
    assert_eq!(c.page(), Page::Failure);
    c.on_match(&hit());
    assert_eq!(c.page(), Page::Success);
    assert_eq!(c.success_text().map(|s| s.as_str()), Some(HIT_TEXT));
}

#[test]
fn last_match_gives_the_text() {
    let mut c = Consumer::new();
    c.on_match(&hit());
    let mut second = hit();
    second.elapsed_ms = 43;
    c.on_match(&second);
    assert_eq!(
        c.success_text().map(|s| s.as_str()),
        Some("PMKID Hash: abababababababababababababababab\nPassphrase: correctpass\nTime Taken: 43 ms")
    );
}

#[test]
fn handle_routes_each_kind() {
    let mut c = Consumer::new();
    c.handle(&Event::Progress(step(2)));
    assert_eq!(c.progress(), (1, 2));
    c.handle(&Event::Match(hit()));
    assert_eq!(c.page(), Page::Success);
    c.handle(&completion());
    assert_eq!(c.page(), Page::Success);
    assert_eq!(c.progress(), (0, 2));
}

#[test]
fn every_order_of_streams_gives_the_same_page() {
    let events = [Event::Progress(step(1)), Event::Match(hit()), completion()];
    let orders = [[0, 1, 2], [0, 2, 1], [1, 0, 2], [1, 2, 0], [2, 0, 1], [2, 1, 0]];
    for order in orders {
        let mut c = Consumer::new();
        for i in order {
            c.handle(&events[i]);
        }
        assert_eq!(c.page(), Page::Success, "{:?}", order);
    }
    let events = [Event::Progress(step(1)), completion()];
    for order in [[0, 1], [1, 0]] {
        let mut c = Consumer::new();
        for i in order {
            c.handle(&events[i]);
        }
        assert_eq!(c.page(), Page::Failure, "{:?}", order);
    }
}

#[test]
fn whole_run_through_the_consumer() {
    let params = NetworkParams::parse(
        "TestNet",
        "AA:BB:CC:DD:EE:FF",
        "11:22:33:44:55:66",
        "092dd6c986875ec1a03506cfc70e89dd",
    )
    .unwrap();
    let work = WorkUnit::new(vec!["wrongpass1".to_string(), "correctpass".to_string()]);
    let mut c = Consumer::new();
    c.handle_all(&scan(&params, &work));
    assert_eq!(c.page(), Page::Success);
    let text = c.success_text().unwrap();
    assert!(text.starts_with("PMKID Hash: 092dd6c986875ec1a03506cfc70e89dd\nPassphrase: correctpass\nTime Taken: "));
    assert!(text.ends_with(" ms"));

    let miss = WorkUnit::new(vec!["wrongpass1".to_string(), "wrongpass2".to_string()]);
    let mut c = Consumer::new();
    c.handle_all(&scan(&params, &miss));
    assert_eq!(c.page(), Page::Failure);
    assert_eq!(c.failure_text().map(|s| s.as_str()), Some("No match found"));
}

#[test]
fn progress_event_needs_candidates() {
    assert!(ProgressEvent::new(0).is_none());
    assert_eq!(ProgressEvent::new(5).map(|p| p.total()), Some(5));
}
