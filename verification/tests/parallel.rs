use std::sync::mpsc::channel;
use std::time::Instant;

use rayon::iter::{IntoParallelIterator, ParallelIterator};

use ramesh::candidates::WorkUnit;
use ramesh::consumer::{Consumer, Page};
use ramesh::engine::{completion, test_candidate};
use ramesh::events::Event;
use ramesh::network::NetworkParams;

fn params() -> NetworkParams {
    NetworkParams::parse(
        "TestNet",
        "AA:BB:CC:DD:EE:FF",
        "11:22:33:44:55:66",
        "092dd6c986875ec1a03506cfc70e89dd",
    )
    .unwrap()
}

fn run_on_pool(threads: usize, params: &NetworkParams, work: &WorkUnit) -> Vec<Event> {
    let pool = rayon::ThreadPoolBuilder::new().num_threads(threads).build().unwrap();
    let (tx, rx) = channel();
    let started = Instant::now();
    pool.install(|| {
        (0..work.len()).into_par_iter().for_each_with(tx.clone(), |tx, index| {
            for event in test_candidate(params, work, index, &started) {
                tx.send(event).unwrap();
            }
        });
    });
    tx.send(completion()).unwrap();
    drop(tx);
    rx.iter().collect()
}

fn words(n: usize, hit_at: Option<usize>) -> WorkUnit {
    let list = (0..n)
        .map(|i| if Some(i) == hit_at { "correctpass".to_string() } else { format!("wrong{}", i) })
        .collect();
    WorkUnit::new(list)
}

#[test]
fn progress_adds_up_on_every_pool_size() {
    let params = params();
    let work = words(24, None);
    let most = rayon::current_num_threads().max(3);
    for threads in [1, 2, most] {
        let events = run_on_pool(threads, &params, &work);
        let mut sum = 0.0f64;
        let mut steps = 0;
        for e in &events {
            if let Event::Progress(p) = e {
                assert_eq!(p.total(), 24);
                sum += 1.0 / p.total() as f64;
                steps += 1;
            }
        }
        assert_eq!(steps, 24);
        assert!((sum - 1.0).abs() < 1e-6);
    }
}

#[test]
fn outcome_is_the_same_on_every_pool_size() {
    let params = params();
    let hit = words(16, Some(11));
    let miss = words(16, None);
    for threads in [1, 2, 5] {
        let events = run_on_pool(threads, &params, &hit);
        let found: Vec<&str> = events
            .iter()
            .filter_map(|e| match e {
                Event::Match(m) => Some(m.passphrase.as_str()),
                _ => None,
            })
            .collect();
        assert_eq!(found, vec!["correctpass"]);
        assert!(matches!(events.last(), Some(Event::Completion(_))));
        let mut consumer = Consumer::new();
        consumer.handle_all(&events);
        assert_eq!(consumer.page(), Page::Success);

        let events = run_on_pool(threads, &params, &miss);
        assert_eq!(events.iter().filter(|e| matches!(e, Event::Match(_))).count(), 0);
        assert_eq!(events.iter().filter(|e| matches!(e, Event::Completion(_))).count(), 1);
        let mut consumer = Consumer::new();
        consumer.handle_all(&events);
        assert_eq!(consumer.page(), Page::Failure);
    }
}
