use hfuzz_engine::corpus::{pick_weighted, total_weight};
use hfuzz_engine::coverage::{CoverageSignature, GlobalCoverageState};
use hfuzz_engine::driver::{classify, watch, ExecutionResult, FaultInfo, HostExit, RunStatus, WatchAction};
use hfuzz_engine::engine::{Engine, EngineConfig, EngineError, Phase, Verdict};
use hfuzz_engine::evaluate::select_retained;
use hfuzz_engine::mutate::{copy_range, generate, mutate, mutate_once, nudge, Rng};

fn config(map_len: usize) -> EngineConfig {
    EngineConfig {
        map_len,
        max_input_len: 64,
        max_iterations: 1_000_000,
        round_robin_period: 8,
        max_entries: 1000,
        budget_ms: 1000,
    }
}

fn completed(hits: Vec<u8>) -> ExecutionResult {
    ExecutionResult::from_run(HostExit::Exited { code: 0 }, 1, 1000, false, hits)
}

/// A deterministic target: edge 0 always; edge 1 when the input starts with 'Q'.
fn q_target(input: &[u8]) -> Vec<u8> {
    let mut hits = vec![0u8; 4];
    hits[0] = 1;
    if !input.is_empty() && input[0] == 0x51 {
        hits[1] = 1;
    }
    hits
}

#[test]
fn signature_edges_and_covers() {
    let sig = CoverageSignature::from_edges(8, &vec![1, 5, 9, 5]);
    assert_eq!(sig.hits, vec![0, 1, 0, 0, 0, 1, 0, 0]);
    assert!(sig.covers(1));
    assert!(sig.covers(5));
    assert!(!sig.covers(9));
    assert!(!sig.covers(0));
}

#[test]
fn global_starts_empty_and_merges() {
    let mut g = GlobalCoverageState::new(6);
    assert_eq!(g.map_size(), 6);
    for e in 0..6 {
        assert!(!g.contains(e));
    }
    let a = CoverageSignature::from_edges(6, &vec![0, 2]);
    assert!(g.has_novel(&a));
    assert_eq!(g.novel_edges(&a), vec![0, 2]);
    assert!(g.merge(&a));
    assert!(g.contains(0) && g.contains(2) && !g.contains(1));
    assert!(!g.has_novel(&a));
    assert!(!g.merge(&a));
    let b = CoverageSignature::from_edges(6, &vec![2, 3]);
    assert_eq!(g.novel_edges(&b), vec![3]);
}

#[test]
fn coverage_only_grows_over_merges() {
    let mut g = GlobalCoverageState::new(10);
    let runs = vec![vec![1, 2], vec![2], vec![7, 9], vec![0], vec![1]];
    let mut before: Vec<bool> = (0..10).map(|e| g.contains(e)).collect();
    for r in runs {
        g.merge(&CoverageSignature::from_edges(10, &r));
        let after: Vec<bool> = (0..10).map(|e| g.contains(e)).collect();
        for e in 0..10 {
            assert!(!before[e] || after[e]);
        }
        for &e in r.iter() {
            assert!(after[e]);
        }
        before = after;
    }
}

#[test]
fn same_novel_compares_added_edges() {
    let mut g = GlobalCoverageState::new(6);
    g.merge(&CoverageSignature::from_edges(6, &vec![0, 1]));
    let a = CoverageSignature::from_edges(6, &vec![0, 3]);
    let b = CoverageSignature::from_edges(6, &vec![1, 3]);
    let c = CoverageSignature::from_edges(6, &vec![3, 4]);
    assert!(g.same_novel(&a, &b));
    assert!(!g.same_novel(&a, &c));
}

#[test]
fn known_edges_are_not_inserted() {
    let mut eng = Engine::new(config(4), 1, vec![vec![1, 2]], vec![]);
    let first = eng.next_candidate().unwrap();
    let v = eng.report(&first, completed(vec![1, 1, 0, 0]), 10).unwrap();
    assert_eq!(v, Verdict::Retained { index: 0 });
    // edges {0} and {0, 1} are both inside what was seen
    let v = eng.report(&vec![9], completed(vec![3, 0, 0, 0]), 11).unwrap();
    assert_eq!(v, Verdict::Discarded);
    let v = eng.report(&vec![8], completed(vec![1, 2, 0, 0]), 12).unwrap();
    assert_eq!(v, Verdict::Discarded);
    assert_eq!(eng.corpus.len(), 1);
    let v = eng.report(&vec![7], completed(vec![0, 0, 1, 0]), 13).unwrap();
    assert_eq!(v, Verdict::Retained { index: 1 });
    assert_eq!(eng.corpus[1].data, vec![7]);
    assert_eq!(eng.corpus[1].size, 1);
    assert_eq!(eng.corpus[1].discovered_at, 13);
}

#[test]
fn rng_first_draw_from_zero_seed() {
    let mut r = Rng::new(0);
    assert_eq!(r.next_u64(), 0xE220_A839_7B1D_CDAF);
    assert_eq!(r.state, 0x9E37_79B9_7F4A_7C15);
}

#[test]
fn same_seed_same_candidates() {
    let pool = vec![vec![1u8, 2, 3, 4], vec![0xAA; 10], vec![]];
    let dict = vec![b"GET".to_vec()];
    let a = generate(42, &pool, &dict, 32, 200);
    let b = generate(42, &pool, &dict, 32, 200);
    assert_eq!(a.len(), 200);
    assert_eq!(a, b);
    let c = generate(43, &pool, &dict, 32, 200);
    assert_ne!(a, c);
    let short = generate(42, &pool, &dict, 32, 50);
    assert_eq!(&a[..50], &short[..]);
}

#[test]
fn mutate_is_reproducible_and_bounded() {
    let data = vec![10u8, 20, 30, 40, 50];
    let other = vec![1u8, 2, 3];
    let dict = vec![vec![0xFFu8, 0xFE]];
    let mut r1 = Rng::new(7);
    let mut r2 = Rng::new(7);
    let mut changed = false;
    for _ in 0..100 {
        let a = mutate(&mut r1, &data, &other, &dict, 8);
        let b = mutate(&mut r2, &data, &other, &dict, 8);
        assert_eq!(a, b);
        assert!(a.len() <= 8);
        changed |= a != data;
    }
    assert_eq!(r1.state, r2.state);
    assert!(changed);
}

#[test]
fn mutate_once_grows_empty_input_only_by_insertion() {
    let mut rng = Rng::new(5);
    let mut grew = 0;
    for _ in 0..200 {
        let before = rng.state;
        let c = mutate_once(&mut rng, &vec![], &vec![], &vec![], 4);
        assert!(c.len() <= 1);
        if c.len() == 1 {
            grew += 1;
        }
        assert_eq!(rng.state, before.wrapping_add(4u64.wrapping_mul(0x9E37_79B9_7F4A_7C15)));
    }
    assert!(grew > 0);
}

#[test]
fn copy_range_takes_the_slice() {
    let v = vec![1u8, 2, 3, 4, 5];
    assert_eq!(copy_range(&v, 1, 4), vec![2, 3, 4]);
    assert_eq!(copy_range(&v, 2, 2), Vec::<u8>::new());
}

#[test]
fn weighted_pick_lays_weights_end_to_end() {
    let w = vec![3u64, 1, 4];
    assert_eq!(total_weight(&w), 8);
    assert_eq!(pick_weighted(&w, 0), 0);
    assert_eq!(pick_weighted(&w, 2), 0);
    assert_eq!(pick_weighted(&w, 3), 1);
    assert_eq!(pick_weighted(&w, 4), 2);
    assert_eq!(pick_weighted(&w, 7), 2);
    assert_eq!(pick_weighted(&w, 100), 2);
    assert_eq!(total_weight(&vec![u64::MAX, 5]), u64::MAX);
}

#[test]
fn overrun_is_timed_out_and_killed() {
    assert_eq!(watch(1001, 1000), WatchAction::Kill);
    assert_eq!(watch(1000, 1000), WatchAction::Wait);
    assert_eq!(classify(HostExit::Exited { code: 0 }, 5000, 1000, false), RunStatus::TimedOut);
    assert_eq!(classify(HostExit::Signaled { signal: 9, address: None }, 1001, 1000, true), RunStatus::TimedOut);
    assert_eq!(classify(HostExit::Signaled { signal: 9, address: None }, 10, 1000, true), RunStatus::Killed);
    assert_eq!(classify(HostExit::Exited { code: 3 }, 10, 1000, false), RunStatus::Completed);
    let r = ExecutionResult::from_run(HostExit::Signaled { signal: 11, address: None }, 2000, 1000, false, vec![0; 4]);
    assert_eq!(r.status, RunStatus::TimedOut);
    assert_eq!(r.fault, None);
    assert_eq!(r.duration_ms, 2000);
}

#[test]
fn timed_out_run_is_recorded_as_crash() {
    let mut eng = Engine::new(config(4), 3, vec![], vec![]);
    let c = eng.next_candidate().unwrap();
    let r = ExecutionResult::from_run(HostExit::Exited { code: 0 }, 1500, 1000, false, vec![1, 0, 0, 0]);
    assert_eq!(eng.report(&c, r, 99), Ok(Verdict::Crash { index: 0 }));
    assert_eq!(eng.crashes[0].status, RunStatus::TimedOut);
    assert_eq!(eng.corpus.len(), 0);
}

#[test]
fn empty_corpus_discovers_q_prefix() {
    let mut cfg = config(4);
    cfg.max_input_len = 16;
    let mut eng = Engine::new(cfg, 2024, vec![], vec![]);
    let mut found = false;
    for i in 0..200_000u64 {
        let c = match eng.next_candidate() {
            Some(c) => c,
            None => break,
        };
        let hits = q_target(&c);
        eng.report(&c, completed(hits), i).unwrap();
        if eng.corpus.iter().any(|e| !e.data.is_empty() && e.data[0] == 0x51) {
            found = true;
            break;
        }
    }
    assert!(found);
    assert_eq!(eng.corpus[0].data, Vec::<u8>::new());
}

#[test]
fn smaller_splice_wins_tie() {
    let mut g = GlobalCoverageState::new(8);
    // the two parents: disjoint edges {1, 2} and {4, 5}
    g.merge(&CoverageSignature::from_edges(8, &vec![0, 1, 2]));
    g.merge(&CoverageSignature::from_edges(8, &vec![0, 4, 5]));
    // both spliced variants reach edge 6, and otherwise only known edges
    let big = CoverageSignature::from_edges(8, &vec![0, 1, 6]);
    let small = CoverageSignature::from_edges(8, &vec![0, 4, 6]);
    let keep = select_retained(&g, &vec![big, small], &vec![100, 5]);
    assert_eq!(keep, vec![false, true]);
    let big = CoverageSignature::from_edges(8, &vec![6]);
    let small = CoverageSignature::from_edges(8, &vec![6]);
    let keep = select_retained(&g, &vec![small, big], &vec![5, 100]);
    assert_eq!(keep, vec![true, false]);
}

#[test]
fn tie_break_keeps_first_of_equal_sizes_and_distinct_sets() {
    let g = GlobalCoverageState::new(4);
    let a = CoverageSignature::from_edges(4, &vec![1]);
    let b = CoverageSignature::from_edges(4, &vec![1]);
    let c = CoverageSignature::from_edges(4, &vec![2]);
    let d = CoverageSignature::from_edges(4, &vec![]);
    assert_eq!(select_retained(&g, &vec![a, b, c, d], &vec![3, 3, 9, 1]), vec![true, false, true, false]);
}

#[test]
fn crash_record_keeps_exact_input_and_replays() {
    let mut eng = Engine::new(config(4), 11, vec![b"qwertyuiop".to_vec()], vec![]);
    let c = eng.next_candidate().unwrap();
    assert_eq!(c, b"qwertyuiop".to_vec());
    let r = ExecutionResult::from_run(
        HostExit::Signaled { signal: 11, address: Some(0xdead) },
        3,
        1000,
        false,
        vec![1, 1, 0, 0],
    );
    assert_eq!(r.status, RunStatus::Crashed);
    assert_eq!(eng.report(&c, r, 5), Ok(Verdict::Crash { index: 0 }));
    let rec = &eng.crashes[0];
    assert_eq!(rec.data.len(), 10);
    assert_eq!(rec.fault, Some(FaultInfo { signal: 11, address: Some(0xdead) }));
    assert_eq!(rec.timestamp, 5);
    let bytes = rec.file_bytes();
    assert_eq!(bytes, b"qwertyuiop".to_vec());
    eng.enqueue(bytes);
    assert_eq!(eng.next_candidate(), Some(b"qwertyuiop".to_vec()));
}

#[test]
fn stored_entry_replays_to_its_signature() {
    let mut eng = Engine::new(config(4), 8, vec![b"Qx".to_vec()], vec![]);
    let c = eng.next_candidate().unwrap();
    eng.report(&c, completed(q_target(&c)), 1).unwrap();
    let entry = &eng.corpus[0];
    let recorded = entry.signature.hits.clone();
    let bytes = entry.file_bytes();
    eng.enqueue(bytes);
    let again = eng.next_candidate().unwrap();
    assert_eq!(again, b"Qx".to_vec());
    assert_eq!(q_target(&again), recorded);
}

#[test]
fn wrong_signature_size_is_refused() {
    let mut eng = Engine::new(config(4), 1, vec![], vec![]);
    let c = eng.next_candidate().unwrap();
    assert_eq!(eng.report(&c, completed(vec![1, 0, 0]), 1), Err(EngineError::SignatureSize));
    assert_eq!(eng.corpus.len(), 0);
}

#[test]
fn full_corpus_is_an_error() {
    let mut cfg = config(4);
    cfg.max_entries = 1;
    let mut eng = Engine::new(cfg, 1, vec![], vec![]);
    let c = eng.next_candidate().unwrap();
    assert_eq!(eng.report(&c, completed(vec![1, 0, 0, 0]), 1), Ok(Verdict::Retained { index: 0 }));
    assert_eq!(eng.report(&vec![1], completed(vec![0, 1, 0, 0]), 2), Err(EngineError::CorpusFull));
    assert_eq!(eng.corpus.len(), 1);
    assert!(!eng.global.contains(1));
}

#[test]
fn killed_run_is_dropped() {
    let mut eng = Engine::new(config(4), 1, vec![], vec![]);
    let c = eng.next_candidate().unwrap();
    let r = ExecutionResult::from_run(HostExit::Signaled { signal: 9, address: None }, 5, 1000, true, vec![1, 1, 1, 1]);
    assert_eq!(eng.report(&c, r, 1), Ok(Verdict::Discarded));
    assert_eq!(eng.corpus.len(), 0);
    assert_eq!(eng.crashes.len(), 0);
}

#[test]
fn session_stops_at_budget_or_request() {
    let mut cfg = config(4);
    cfg.max_iterations = 3;
    let mut eng = Engine::new(cfg, 1, vec![vec![1], vec![2]], vec![]);
    assert_eq!(eng.phase, Phase::Selecting);
    assert_eq!(eng.next_candidate(), Some(vec![1]));
    assert_eq!(eng.phase, Phase::Executing);
    assert_eq!(eng.next_candidate(), Some(vec![2]));
    assert!(eng.next_candidate().is_some());
    assert_eq!(eng.next_candidate(), None);
    assert_eq!(eng.phase, Phase::Terminating);
    let s = eng.summary();
    assert_eq!(s.iterations, 3);
    let mut eng = Engine::new(config(4), 1, vec![], vec![]);
    eng.request_stop();
    assert_eq!(eng.next_candidate(), None);
}

#[test]
fn productive_entry_gains_energy() {
    let mut eng = Engine::new(config(4), 77, vec![vec![5]], vec![]);
    let c = eng.next_candidate().unwrap();
    eng.report(&c, completed(vec![1, 0, 0, 0]), 1).unwrap();
    assert_eq!(eng.energy, vec![1]);
    let m = eng.next_candidate().unwrap();
    assert_eq!(eng.parent, Some(0));
    eng.report(&m, completed(vec![0, 1, 0, 0]), 2).unwrap();
    assert_eq!(eng.energy, vec![5, 1]);
}

#[test]
fn nudge_moves_integer_windows() {
    assert_eq!(nudge(&vec![0xFF, 0x00, 7], 0, 1, 17), vec![0x00, 0x01, 7]);
    assert_eq!(nudge(&vec![0xFF, 0xFF, 0xFF, 0xFF], 0, 2, 17), vec![0, 0, 0, 0]);
    assert_eq!(nudge(&vec![0x10, 0x00, 0x00, 0x00, 9], 0, 2, 0), vec![0x00, 0x00, 0x00, 0x00, 9]);
    assert_eq!(nudge(&vec![0x00, 0x00, 0x00, 0x00], 0, 2, 0), vec![0xF0, 0xFF, 0xFF, 0xFF]);
    assert_eq!(nudge(&vec![5], 0, 0, 0), vec![245]);
    // a window that does not fit narrows to one byte
    assert_eq!(nudge(&vec![1, 2, 3], 1, 2, 20), vec![1, 6, 3]);
    assert_eq!(nudge(&vec![1, 2, 3], 2, 1, 20), vec![1, 2, 7]);
}

#[test]
fn summary_counts_covered_edges() {
    let mut eng = Engine::new(config(6), 1, vec![], vec![]);
    let c = eng.next_candidate().unwrap();
    eng.report(&c, completed(vec![1, 0, 4, 0, 0, 1]), 1).unwrap();
    assert_eq!(eng.global.covered_count(), 3);
    let s = eng.summary();
    assert_eq!(s.edges_covered, 3);
    assert_eq!(s.corpus_len, 1);
    assert_eq!(s.crash_count, 0);
    assert_eq!(s.iterations, 1);
}

#[test]
fn learned_token_is_substituted() {
    let mut eng = Engine::new(config(4), 9, vec![vec![0u8; 8]], vec![]);
    eng.add_token(b"ZZ".to_vec());
    assert_eq!(eng.dict, vec![b"ZZ".to_vec()]);
    let c = eng.next_candidate().unwrap();
    eng.report(&c, completed(vec![1, 0, 0, 0]), 1).unwrap();
    let mut seen_token = false;
    for _ in 0..2000 {
        let m = eng.next_candidate().unwrap();
        if m.windows(2).any(|w| w == b"ZZ") {
            seen_token = true;
            break;
        }
    }
    assert!(seen_token);
}
