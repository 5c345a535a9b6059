use std::cell::Cell;

use powlib::gen::{POWChallenge, POWRange, SolveError};
use powlib::num::Num;
use powlib::partition::partition;
use powlib::solver::{scan_chunk, ChunkOutcome, Gather, POWSolver, Step, WorkerReport};

/// Runs the workers of a parallel search one after another, in the given
/// order of sub-ranges, through the same coordinator a threaded run uses.
fn run_workers(solver: &mut POWSolver, k: u8, order: &[usize], seen: &Cell<u32>) -> Result<u128, SolveError> {
    if let Some(done) = solver.cached() {
        return done;
    }
    let parts = solver.plan(k);
    let challenge = *solver.challenge();
    let stop = Cell::new(false);
    let mut gather = Gather::new(parts.len());
    let mut verdict = None;
    for &i in order {
        let outcome = scan_chunk(&challenge, parts[i], &|| stop.get(), &|_v: u128| seen.set(seen.get() + 1));
        if let ChunkOutcome::Found(_) = outcome {
            stop.set(true);
        }
        if let Step::Finish(v) = gather.record(WorkerReport::Done(outcome)) {
            verdict = Some(v);
            break;
        }
    }
    solver.settle(verdict.unwrap_or(Err(SolveError::TaskError)))
}

fn forward(k: u8) -> Vec<usize> {
    (0..k as usize).collect()
}

fn backward(k: u8) -> Vec<usize> {
    (0..k as usize).rev().collect()
}

#[test]
fn scenario_secret_42_in_0_100() {
    let range = POWRange::new(0, 100).unwrap();
    let challenge = POWChallenge::make_from(Num::new(42), Some(range));
    let mut single = POWSolver::new(challenge);
    assert_eq!(single.solve_signle(), Ok(42));
    let seen = Cell::new(0);
    let mut blocking = POWSolver::new(challenge);
    assert_eq!(run_workers(&mut blocking, 4, &forward(4), &seen), Ok(42));
    let mut tasks = POWSolver::new(challenge);
    assert_eq!(run_workers(&mut tasks, 4, &backward(4), &seen), Ok(42));
}

#[test]
fn scenario_secret_outside_range() {
    let challenge = POWChallenge::make_from(Num::new(500), Some(POWRange::new(0, 10).unwrap()));
    let mut single = POWSolver::new(challenge);
    assert_eq!(single.solve_signle(), Err(SolveError::NotFoundInRange));
    let seen = Cell::new(0);
    let mut blocking = POWSolver::new(challenge);
    assert_eq!(run_workers(&mut blocking, 3, &forward(3), &seen), Err(SolveError::NotFoundInRange));
    // every candidate was reported as progress
    assert_eq!(seen.get(), 10);
    let mut tasks = POWSolver::new(challenge);
    assert_eq!(run_workers(&mut tasks, 3, &backward(3), &seen), Err(SolveError::NotFoundInRange));
}

#[test]
fn every_worker_count_agrees_with_single_search() {
    let challenge = POWChallenge::make_from(Num::new(3), Some(POWRange::new(0, 6).unwrap()));
    let mut single = POWSolver::new(challenge);
    let expected = single.solve_signle();
    assert_eq!(expected, Ok(3));
    let seen = Cell::new(0);
    for k in 1..=6u8 {
        let mut s = POWSolver::new(challenge);
        assert_eq!(run_workers(&mut s, k, &forward(k), &seen), expected);
        let mut s = POWSolver::new(challenge);
        assert_eq!(run_workers(&mut s, k, &backward(k), &seen), expected);
    }
}

#[test]
fn secret_in_last_element_is_found() {
    let challenge = POWChallenge::make_from(Num::new(6), Some(POWRange::new(0, 7).unwrap()));
    let seen = Cell::new(0);
    let mut s = POWSolver::new(challenge);
    assert_eq!(run_workers(&mut s, 2, &forward(2), &seen), Ok(6));
}

#[test]
fn partition_covers_every_value_once() {
    for (min, max) in [(0u128, 1u128), (0, 7), (3, 20), (10, 10), (u128::MAX - 9, u128::MAX)] {
        let range = POWRange { min, max };
        let size = (max - min) as u8;
        for k in 1..=size.max(1) {
            let parts = partition(&range, k);
            assert_eq!(parts.len(), k as usize);
            assert_eq!(parts[0].min, min);
            assert_eq!(parts[k as usize - 1].max, max);
            for v in min..max {
                let holders = parts.iter().filter(|p| p.min <= v && v < p.max).count();
                assert_eq!(holders, 1);
            }
            if k <= size {
                assert!(parts.iter().all(|p| p.min < p.max));
            }
        }
    }
}

#[test]
fn partition_sizes_exactly() {
    let parts = partition(&POWRange { min: 0, max: 10 }, 3);
    assert_eq!(
        parts,
        vec![POWRange { min: 0, max: 3 }, POWRange { min: 3, max: 6 }, POWRange { min: 6, max: 10 }]
    );
    let parts = partition(&POWRange { min: 0, max: 2 }, 4);
    assert_eq!(parts.iter().filter(|p| p.min < p.max).count(), 1);
    assert_eq!(parts[3], POWRange { min: 0, max: 2 });
    let parts = partition(&POWRange { min: 9, max: 3 }, 2);
    assert!(parts.iter().all(|p| p.min == 9 && p.max == 9));
}

#[test]
fn chunksize_divides_the_range() {
    let challenge = POWChallenge::make_from(Num::new(1), Some(POWRange { min: 0, max: 100 }));
    let s = POWSolver::new(challenge);
    assert_eq!(s.chunksize(3), 33);
    assert_eq!(s.chunksize(1), 100);
    assert_eq!(s.chunksize(200), 0);
}

#[test]
fn solving_twice_returns_cached_result() {
    let challenge = POWChallenge::make_from(Num::new(2), Some(POWRange { min: 0, max: 5 }));
    let mut s = POWSolver::new(challenge);
    assert_eq!(s.cached(), None);
    assert_eq!(s.solve_signle(), Ok(2));
    assert_eq!(s.cached(), Some(Ok(2)));
    assert_eq!(s.solve_signle(), Ok(2));
    assert_eq!(s.settle(Err(SolveError::NotFoundInRange)), Ok(2));

    let missing = POWChallenge::make_from(Num::new(50), Some(POWRange { min: 0, max: 3 }));
    let mut s = POWSolver::new(missing);
    assert_eq!(s.solve_signle(), Err(SolveError::NotFoundInRange));
    assert_eq!(s.cached(), Some(Err(SolveError::NotFoundInRange)));
    assert_eq!(s.solve_signle(), Err(SolveError::NotFoundInRange));
    assert_eq!(s.settle(Ok(50)), Err(SolveError::NotFoundInRange));
}

#[test]
fn chunk_solve_keeps_what_it_finds() {
    let challenge = POWChallenge::make_from(Num::new(4), Some(POWRange { min: 0, max: 8 }));
    let mut s = POWSolver::new(challenge);
    assert_eq!(s.chunk_solve(0, 4), None);
    assert_eq!(s.cached(), None);
    assert_eq!(s.chunk_solve(4, 8), Some(4));
    assert_eq!(s.cached(), Some(Ok(4)));
}

#[test]
fn chunk_solve_feedback_sees_each_candidate() {
    let challenge = POWChallenge::make_from(Num::new(3), Some(POWRange { min: 0, max: 8 }));
    let mut s = POWSolver::new(challenge);
    let seen = Cell::new(0u32);
    assert_eq!(s.chunk_solve_feedback(0, 8, |_v: u128| seen.set(seen.get() + 1)), Some(3));
    assert_eq!(seen.get(), 4);
    assert_eq!(s.solve_signle(), Ok(3));
}

#[test]
fn scan_chunk_stops_when_cancelled() {
    let challenge = POWChallenge::make_from(Num::new(3), Some(POWRange { min: 0, max: 8 }));
    let out = scan_chunk(&challenge, POWRange { min: 0, max: 8 }, &|| true, &|_v: u128| {});
    assert_eq!(out, ChunkOutcome::Cancelled);
    let out = scan_chunk(&challenge, POWRange { min: 0, max: 8 }, &|| false, &|_v: u128| {});
    assert_eq!(out, ChunkOutcome::Found(3));
    let out = scan_chunk(&challenge, POWRange { min: 4, max: 8 }, &|| false, &|_v: u128| {});
    assert_eq!(out, ChunkOutcome::Exhausted);
}

#[test]
fn gather_decides_by_the_rules() {
    let mut g = Gather::new(3);
    assert!(matches!(g.record(WorkerReport::Progress(9)), Step::Notify(9)));
    assert!(matches!(g.record(WorkerReport::Failed), Step::Wait));
    assert!(matches!(g.record(WorkerReport::Done(ChunkOutcome::Found(5))), Step::Finish(Ok(5))));
    assert_eq!(g.verdict(), Some(Ok(5)));
    assert!(matches!(g.record(WorkerReport::Failed), Step::Finish(Ok(5))));

    let mut g = Gather::new(2);
    assert!(matches!(g.record(WorkerReport::Failed), Step::Wait));
    assert!(matches!(g.record(WorkerReport::Done(ChunkOutcome::Exhausted)), Step::Finish(Err(SolveError::TaskError))));

    let mut g = Gather::new(2);
    assert!(matches!(g.record(WorkerReport::Done(ChunkOutcome::Exhausted)), Step::Wait));
    assert_eq!(g.verdict(), None);
    assert!(matches!(
        g.record(WorkerReport::Done(ChunkOutcome::Exhausted)),
        Step::Finish(Err(SolveError::NotFoundInRange))
    ));

    assert_eq!(Gather::new(0).verdict(), Some(Err(SolveError::NotFoundInRange)));
}

#[test]
fn settle_confirms_values() {
    let challenge = POWChallenge::make_from(Num::new(2), Some(POWRange { min: 0, max: 5 }));
    let mut s = POWSolver::new(challenge);
    assert_eq!(s.settle(Ok(1)), Err(SolveError::TaskError));
    assert_eq!(s.cached(), None);
    assert_eq!(s.settle(Err(SolveError::TaskError)), Err(SolveError::TaskError));
    assert_eq!(s.cached(), None);
    assert_eq!(s.settle(Ok(2)), Ok(2));
    assert_eq!(s.cached(), Some(Ok(2)));
}

#[test]
fn a_match_outside_the_range_is_not_kept() {
    let challenge = POWChallenge::make_from(Num::new(12), Some(POWRange { min: 0, max: 10 }));
    let mut s = POWSolver::new(challenge);
    assert_eq!(s.chunk_solve(10, 13), Some(12));
    assert_eq!(s.cached(), None);
    let seen = Cell::new(0u32);
    assert_eq!(s.chunk_solve_feedback(11, 13, |_v: u128| seen.set(seen.get() + 1)), Some(12));
    assert_eq!(seen.get(), 2);
    assert_eq!(s.cached(), None);
    assert_eq!(s.settle(Ok(12)), Err(SolveError::TaskError));
    assert_eq!(s.cached(), None);
    assert_eq!(s.solve_signle(), Err(SolveError::NotFoundInRange));
}

#[test]
fn a_found_outcome_is_not_replaced() {
    let challenge = POWChallenge::make_from(Num::new(2), Some(POWRange { min: 0, max: 5 }));
    let mut s = POWSolver::new(challenge);
    assert_eq!(s.solve_signle(), Ok(2));
    assert_eq!(s.chunk_solve(2, 3), Some(2));
    assert_eq!(s.cached(), Some(Ok(2)));
}

#[test]
fn scan_chunk_reports_only_misses() {
    let challenge = POWChallenge::make_from(Num::new(3), Some(POWRange { min: 0, max: 8 }));
    let seen = Cell::new(0u32);
    let last = Cell::new(u128::MAX);
    let out = scan_chunk(&challenge, POWRange { min: 0, max: 8 }, &|| false, &|v: u128| {
        seen.set(seen.get() + 1);
        last.set(v);
    });
    assert_eq!(out, ChunkOutcome::Found(3));
    assert_eq!(seen.get(), 3);
    assert_eq!(last.get(), 2);
    let out = scan_chunk(&challenge, POWRange { min: 5, max: 5 }, &|| true, &|_v: u128| {});
    assert_eq!(out, ChunkOutcome::Exhausted);
}
