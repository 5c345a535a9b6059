use vstd::prelude::*;

use crate::gen::{POWChallenge, POWRange, SolveError};
use crate::num::Num;
use crate::partition::{is_partition, partition, span};

verus! {

/// How one worker's scan of its sub-range ended.
#[derive(Clone, Copy, Debug, PartialEq, Eq, Structural)]
pub enum ChunkOutcome {
    /// The first value of the sub-range that solves the challenge.
    Found(u128),
    /// Every value of the sub-range was tried and none matched.
    Exhausted,
    /// The scan stopped early because the search was called off.
    Cancelled,
}

/// `o` is what a scan of `chunk` may end with: the first solving value of the
/// chunk, or `Exhausted` when none there solves, or `Cancelled`.
pub open spec fn scan_settled(c: POWChallenge, chunk: POWRange, o: ChunkOutcome) -> bool {
    match o {
        ChunkOutcome::Found(v) => c.first_in(chunk.min, chunk.max, Some(v)),
        ChunkOutcome::Exhausted => c.first_in(chunk.min, chunk.max, None),
        ChunkOutcome::Cancelled => true,
    }
}

/// Scans `chunk` in order for a value that solves `challenge`. Before each
/// candidate it asks `cancelled` whether to stop; after each candidate that
/// does not match it hands the candidate to `progress`, which sees no other
/// value. An empty chunk is exhausted at once.
pub fn scan_chunk<C: Fn() -> bool, P: Fn(u128)>(
    challenge: &POWChallenge,
    chunk: POWRange,
    cancelled: &C,
    progress: &P,
) -> (r: ChunkOutcome)
    requires
        cancelled.requires(()),
        forall|v: u128|
            chunk.min <= v < chunk.max && !challenge.solves(v) ==> #[trigger] progress.requires((v,)),
    ensures
        chunk.min >= chunk.max ==> r == ChunkOutcome::Exhausted,
        scan_settled(*challenge, chunk, r),
        r == ChunkOutcome::Cancelled ==> cancelled.ensures((), true),
{
    let mut i: u128 = chunk.min;
    while i < chunk.max
        invariant
            chunk.min <= i,
            cancelled.requires(()),
            forall|v: u128|
                chunk.min <= v < chunk.max && !challenge.solves(v) ==> #[trigger] progress.requires((v,)),
            forall|u: u128| chunk.min <= u < i ==> !#[trigger] challenge.solves(u),
        decreases chunk.max - i,
    {
        let stop = cancelled();
        if stop {
            return ChunkOutcome::Cancelled;
        }
        if challenge.check(Num::new(i)) {
            return ChunkOutcome::Found(i);
        }
        progress(i);
        i += 1;
    }
    ChunkOutcome::Exhausted
}

/// A message from a worker to the coordinator of a parallel search.
#[derive(Clone, Copy, Debug, PartialEq, Eq, Structural)]
pub enum WorkerReport {
    /// The worker tried this candidate and it did not match.
    Progress(u128),
    /// The worker's scan ended.
    Done(ChunkOutcome),
    /// The worker stopped abnormally.
    Failed,
}

/// What the coordinator does after a report.
#[derive(Clone, Copy, Debug)]
pub enum Step {
    /// Pass the candidate on to the progress callback, then keep waiting.
    Notify(u128),
    /// Keep waiting for reports.
    Wait,
    /// The search is decided: stop the workers and return this.
    Finish(Result<u128, SolveError>),
}

/// The coordinator's tally of the reports of a parallel search.
#[derive(Clone, Copy, Debug)]
pub struct Gather {
    workers: usize,
    finished: usize,
    exhausted: usize,
    verdict: Option<Result<u128, SolveError>>,
}

impl Gather {
    /// How many workers the search has.
    pub closed spec fn spec_workers(self) -> nat {
        self.workers as nat
    }

    /// How many workers have ended, in any way.
    pub closed spec fn spec_finished(self) -> nat {
        self.finished as nat
    }

    /// How many workers have ended having tried their whole sub-range.
    pub closed spec fn spec_exhausted(self) -> nat {
        self.exhausted as nat
    }

    /// The decided outcome, once there is one.
    pub closed spec fn spec_verdict(self) -> Option<Result<u128, SolveError>> {
        self.verdict
    }

    pub open spec fn wf(self) -> bool {
        &&& self.spec_exhausted() <= self.spec_finished() <= self.spec_workers()
        &&& self.spec_verdict() is None ==> self.spec_finished() < self.spec_workers()
    }

    /// The outcome once `finished` workers have ended, `exhausted` of them
    /// having tried their whole sub-range.
    pub open spec fn tally(workers: nat, finished: nat, exhausted: nat) -> Option<Result<u128, SolveError>> {
        if finished < workers {
            None
        } else if exhausted == workers {
            Some(Err(SolveError::NotFoundInRange))
        } else {
            Some(Err(SolveError::TaskError))
        }
    }

    /// A tally for `workers` workers, none of which has reported.
    pub fn new(workers: usize) -> (r: Gather)
        ensures
            r.wf(),
            r.spec_workers() == workers,
            r.spec_finished() == 0,
            r.spec_exhausted() == 0,
            r.spec_verdict() == Self::tally(workers as nat, 0, 0),
    {
        let verdict = if workers == 0 {
            Some(Err(SolveError::NotFoundInRange))
        } else {
            None
        };
        Gather { workers, finished: 0, exhausted: 0, verdict }
    }

    /// The decided outcome, if any.
    pub fn verdict(&self) -> (r: Option<Result<u128, SolveError>>)
        ensures
            r == self.spec_verdict(),
    {
        self.verdict
    }

    /// Takes one report. The first `Found` decides the search; once every
    /// worker has ended without one, the search failed with `NotFoundInRange`
    /// if all of them tried their whole sub-range, and with `TaskError`
    /// otherwise. A decided search stays decided.
    pub fn record(&mut self, report: WorkerReport) -> (r: Step)
        requires
            old(self).wf(),
        ensures
            final(self).wf(),
            final(self).spec_workers() == old(self).spec_workers(),
            match old(self).spec_verdict() {
                Some(v) => r == Step::Finish(v) && *final(self) == *old(self),
                None => match report {
                    WorkerReport::Progress(v) => r == Step::Notify(v) && *final(self) == *old(self),
                    WorkerReport::Done(ChunkOutcome::Found(v)) => {
                        &&& r == Step::Finish(Ok(v))
                        &&& final(self).spec_verdict() == Some(Ok::<u128, SolveError>(v))
                        &&& final(self).spec_finished() == old(self).spec_finished()
                        &&& final(self).spec_exhausted() == old(self).spec_exhausted()
                    },
                    _ => {
                        let finished = old(self).spec_finished() + 1;
                        let exhausted = if report == WorkerReport::Done(ChunkOutcome::Exhausted) {
                            old(self).spec_exhausted() + 1
                        } else {
                            old(self).spec_exhausted()
                        };
                        &&& final(self).spec_finished() == finished
                        &&& final(self).spec_exhausted() == exhausted
                        &&& final(self).spec_verdict() == Self::tally(
                            old(self).spec_workers(),
                            finished,
                            exhausted,
                        )
                        &&& r == match final(self).spec_verdict() {
                            Some(v) => Step::Finish(v),
                            None => Step::Wait,
                        }
                    },
                },
            },
    {
        match self.verdict {
            Some(v) => {
                return Step::Finish(v);
            },
            None => {},
        }
        match report {
            WorkerReport::Progress(v) => Step::Notify(v),
            WorkerReport::Done(ChunkOutcome::Found(v)) => {
                self.verdict = Some(Ok(v));
                Step::Finish(Ok(v))
            },
            _ => {
                self.finished = self.finished + 1;
                if report == WorkerReport::Done(ChunkOutcome::Exhausted) {
                    self.exhausted = self.exhausted + 1;
                }
                if self.finished < self.workers {
                    Step::Wait
                } else {
                    let v = if self.exhausted == self.workers {
                        Err(SolveError::NotFoundInRange)
                    } else {
                        Err(SolveError::TaskError)
                    };
                    self.verdict = Some(v);
                    Step::Finish(v)
                }
            },
        }
    }
}

/// A search for the value behind a challenge, which remembers how it ended.
#[derive(Clone, Copy, Debug)]
pub struct POWSolver {
    challenge: POWChallenge,
    outcome: Option<Result<u128, SolveError>>,
}

impl POWSolver {
    /// The challenge being solved.
    pub closed spec fn spec_challenge(self) -> POWChallenge {
        self.challenge
    }

    /// How the search ended: a value that solves the challenge, or
    /// `NotFoundInRange`; `None` while no search has ended.
    pub closed spec fn spec_outcome(self) -> Option<Result<u128, SolveError>> {
        self.outcome
    }

    pub open spec fn wf(self) -> bool {
        match self.spec_outcome() {
            Some(Ok(v)) => self.spec_challenge().solves(v) && self.spec_challenge().range.contains(v as int),
            Some(Err(e)) => e == SolveError::NotFoundInRange,
            None => true,
        }
    }

    /// A full search took `s0` to `s1` and returned `r`: a solver that had
    /// ended returns what it ended with and stays as it is; otherwise `r` is the
    /// first value of the challenge's range that solves it, or
    /// `NotFoundInRange`, and the solver keeps `r`.
    pub open spec fn solve_post(s0: POWSolver, s1: POWSolver, r: Result<u128, SolveError>) -> bool {
        let c = s0.spec_challenge();
        &&& s1.spec_challenge() == c
        &&& s1.wf()
        &&& match s0.spec_outcome() {
            Some(o) => r == o && s1.spec_outcome() == s0.spec_outcome(),
            None => s1.spec_outcome() == Some(r) && c.search_result(c.range.min, c.range.max, r),
        }
    }

    /// A scan of `[start, end)` took `s0` to `s1` and returned `r`: a value
    /// found is kept when no search has ended yet and it lies in the
    /// challenge's range, and nothing else changes.
    pub open spec fn chunk_post(s0: POWSolver, s1: POWSolver, start: u128, end: u128, r: Option<u128>) -> bool {
        let c = s0.spec_challenge();
        &&& c.first_in(start, end, r)
        &&& s1.spec_challenge() == c
        &&& s1.wf()
        &&& if r is Some && s0.spec_outcome() is None && c.range.contains(r->Some_0 as int) {
            s1.spec_outcome() == Some(Ok::<u128, SolveError>(r->Some_0))
        } else {
            s1.spec_outcome() == s0.spec_outcome()
        }
    }

    /// Keeps `v`, found by a scan, when no search has ended yet and it lies in
    /// the challenge's range.
    fn keep_found(&mut self, v: u128)
        requires
            old(self).wf(),
            old(self).spec_challenge().solves(v),
        ensures
            final(self).wf(),
            final(self).spec_challenge() == old(self).spec_challenge(),
            if old(self).spec_outcome() is None && old(self).spec_challenge().range.contains(v as int) {
                final(self).spec_outcome() == Some(Ok::<u128, SolveError>(v))
            } else {
                final(self).spec_outcome() == old(self).spec_outcome()
            },
    {
        if self.outcome.is_none() && self.challenge.range.min <= v && v < self.challenge.range.max {
            self.outcome = Some(Ok(v));
        }
    }

    pub fn new(challenge: POWChallenge) -> (r: POWSolver)
        ensures
            r.wf(),
            r.spec_challenge() == challenge,
            r.spec_outcome() is None,
    {
        POWSolver { challenge, outcome: None }
    }

    /// The challenge being solved.
    pub fn challenge(&self) -> (r: &POWChallenge)
        ensures
            *r == self.spec_challenge(),
    {
        &self.challenge
    }

    /// How the search ended, if it has.
    pub fn cached(&self) -> (r: Option<Result<u128, SolveError>>)
        ensures
            r == self.spec_outcome(),
    {
        self.outcome
    }

    /// Scans `[start, end)` in order, handing each candidate to `callback`
    /// before trying it.
    pub fn chunk_solve_feedback<F: Fn(u128)>(&mut self, start: u128, end: u128, callback: F) -> (r: Option<u128>)
        requires
            old(self).wf(),
            forall|v: u128| start <= v < end ==> #[trigger] callback.requires((v,)),
        ensures
            Self::chunk_post(*old(self), *final(self), start, end, r),
    {
        let mut i: u128 = start;
        while i < end
            invariant
                start <= i,
                self.wf(),
                *self == *old(self),
                forall|v: u128| start <= v < end ==> #[trigger] callback.requires((v,)),
                forall|u: u128| start <= u < i ==> !#[trigger] self.challenge.solves(u),
            decreases end - i,
        {
            callback(i);
            if self.challenge.check(Num::new(i)) {
                self.keep_found(i);
                return Some(i);
            }
            i += 1;
        }
        None
    }

    /// Scans `[start, end)` in order.
    pub fn chunk_solve(&mut self, start: u128, end: u128) -> (r: Option<u128>)
        requires
            old(self).wf(),
        ensures
            Self::chunk_post(*old(self), *final(self), start, end, r),
    {
        let r = self.challenge.chunk_solve(start, end);
        match r {
            Some(v) => {
                self.keep_found(v);
            },
            None => {},
        }
        r
    }

    /// Searches the whole range on the calling thread, unless the search has
    /// already ended.
    pub fn solve_signle(&mut self) -> (r: Result<u128, SolveError>)
        requires
            old(self).wf(),
        ensures
            Self::solve_post(*old(self), *final(self), r),
    {
        match self.outcome {
            Some(o) => {
                return o;
            },
            None => {},
        }
        let r = self.challenge.solve_singlethread();
        self.outcome = Some(r);
        r
    }

    /// How many values each of `threads` workers gets, the last one taking
    /// what is left over as well.
    pub fn chunksize(&self, threads: u8) -> (r: u128)
        requires
            threads > 0,
        ensures
            r as int == span(self.spec_challenge().range) / (threads as int),
    {
        let range = self.challenge.range;
        let len: u128 = if range.min <= range.max { range.max - range.min } else { 0 };
        len / (threads as u128)
    }

    /// The sub-ranges that `workers` workers of a parallel search scan.
    pub fn plan(&self, workers: u8) -> (r: Vec<POWRange>)
        requires
            workers > 0,
        ensures
            is_partition(self.spec_challenge().range, r@, workers as int),
            workers <= span(self.spec_challenge().range) ==> forall|i: int|
                0 <= i < r@.len() ==> #[trigger] r@[i].min < r@[i].max,
    {
        partition(&self.challenge.range, workers)
    }

    /// Takes the verdict of a parallel search, unless the search has already
    /// ended. A value is kept only once it is confirmed to lie in the range and
    /// to solve the challenge, and `TaskError` is returned in its place
    /// otherwise; `NotFoundInRange` is
    /// kept; any other error is returned and nothing is kept.
    pub fn settle(&mut self, verdict: Result<u128, SolveError>) -> (r: Result<u128, SolveError>)
        requires
            old(self).wf(),
        ensures
            final(self).wf(),
            final(self).spec_challenge() == old(self).spec_challenge(),
            match old(self).spec_outcome() {
                Some(o) => r == o && final(self).spec_outcome() == old(self).spec_outcome(),
                None => match verdict {
                    Ok(v) => if old(self).spec_challenge().solves(v) && old(self).spec_challenge().range.contains(
                        v as int,
                    ) {
                        r == verdict && final(self).spec_outcome() == Some(r)
                    } else {
                        r == Err::<u128, SolveError>(SolveError::TaskError) && final(self).spec_outcome() is None
                    },
                    Err(SolveError::NotFoundInRange) => r == verdict && final(self).spec_outcome() == Some(r),
                    Err(_) => r == verdict && final(self).spec_outcome() is None,
                },
            },
    {
        match self.outcome {
            Some(o) => {
                return o;
            },
            None => {},
        }
        match verdict {
            Ok(v) => {
                if self.challenge.range.min <= v && v < self.challenge.range.max && self.challenge.check(
                    Num::new(v),
                ) {
                    self.outcome = Some(verdict);
                    verdict
                } else {
                    Err(SolveError::TaskError)
                }
            },
            Err(SolveError::NotFoundInRange) => {
                self.outcome = Some(verdict);
                verdict
            },
            Err(_) => verdict,
        }
    }
}

/// A fresh search of a challenge whose secret lies in its range returns the
/// secret, provided no smaller value of the range shares its digest.
pub proof fn lemma_solve_recovers_secret(s0: POWSolver, s1: POWSolver, r: Result<u128, SolveError>, secret: u128)
    requires
        s0.spec_outcome() is None,
        POWSolver::solve_post(s0, s1, r),
        s0.spec_challenge().range.contains(secret as int),
        s0.spec_challenge().solves(secret),
        forall|u: u128| s0.spec_challenge().range.min <= u < secret ==> !#[trigger] s0.spec_challenge().solves(u),
    ensures
        r == Ok::<u128, SolveError>(secret),
{
    let c = s0.spec_challenge();
    match r {
        Ok(v) => {
            if v < secret {
                assert(!c.solves(v));
            } else if v > secret {
                assert(!c.solves(secret));
            }
        },
        Err(_) => {
            assert(!c.solves(secret));
        },
    }
}

/// A fresh search of a challenge that no value of its range solves ends in
/// `NotFoundInRange`.
pub proof fn lemma_solve_without_solution(s0: POWSolver, s1: POWSolver, r: Result<u128, SolveError>)
    requires
        s0.spec_outcome() is None,
        POWSolver::solve_post(s0, s1, r),
        forall|u: u128| #[trigger] s0.spec_challenge().range.contains(u as int) ==> !s0.spec_challenge().solves(u),
    ensures
        r == Err::<u128, SolveError>(SolveError::NotFoundInRange),
{
    if let Ok(v) = r {
        assert(s0.spec_challenge().range.contains(v as int));
    }
}

/// Once a search has ended, searching again returns the same result and
/// leaves the solver as it was.
pub proof fn lemma_solve_idempotent(
    s0: POWSolver,
    s1: POWSolver,
    r1: Result<u128, SolveError>,
    s2: POWSolver,
    r2: Result<u128, SolveError>,
)
    requires
        s0.wf(),
        POWSolver::solve_post(s0, s1, r1),
        POWSolver::solve_post(s1, s2, r2),
    ensures
        r2 == r1,
        s2.spec_outcome() == s1.spec_outcome(),
        s2.spec_challenge() == s1.spec_challenge(),
{
}

/// When every worker of a parallel search has tried its whole sub-range, no
/// value of the challenge's range solves it, so the full search would have
/// ended in `NotFoundInRange` too.
pub proof fn lemma_exhausted_parts_exhaust_range(c: POWChallenge, parts: Seq<POWRange>, k: int)
    requires
        is_partition(c.range, parts, k),
        forall|i: int| 0 <= i < k ==> c.first_in(#[trigger] parts[i].min, parts[i].max, None),
    ensures
        c.search_result(c.range.min, c.range.max, Err(SolveError::NotFoundInRange)),
{
    crate::partition::lemma_partition_covers(c.range, parts, k);
    assert forall|u: u128| c.range.min <= u < c.range.max implies !#[trigger] c.solves(u) by {
        assert(c.range.contains(u as int));
        let i = choose|i: int| 0 <= i < k && #[trigger] parts[i].contains(u as int);
        assert(c.first_in(parts[i].min, parts[i].max, None));
    }
}

/// A value that a worker of a parallel search finds solves the challenge and
/// lies in its range; when it is the only such value of the range, it is what
/// the full search returns.
pub proof fn lemma_found_part_agrees(c: POWChallenge, parts: Seq<POWRange>, k: int, i: int, v: u128)
    requires
        is_partition(c.range, parts, k),
        0 <= i < k,
        c.first_in(parts[i].min, parts[i].max, Some(v)),
    ensures
        c.solves(v),
        c.range.contains(v as int),
        (forall|u: u128| #[trigger] c.range.contains(u as int) && c.solves(u) ==> u == v) ==> c.search_result(
            c.range.min,
            c.range.max,
            Ok(v),
        ),
{
    assert(c.range.contains(v as int)) by {
        crate::partition::lemma_partition_covers(c.range, parts, k);
        assert(parts[i].contains(v as int));
    }
    if forall|u: u128| #[trigger] c.range.contains(u as int) && c.solves(u) ==> u == v {
        assert forall|u: u128| c.range.min <= u < v implies !#[trigger] c.solves(u) by {
            assert(c.range.contains(u as int));
        }
    }
}

/// When the secret is the only value of the range that solves the challenge,
/// the scans of a partition of the range agree with the full search: the full
/// search returns the secret, any worker that finds a value finds the secret,
/// and the worker whose sub-range holds the secret does not report it exhausted.
pub proof fn lemma_parallel_agrees_with_single(
    c: POWChallenge,
    parts: Seq<POWRange>,
    k: int,
    outcomes: Seq<ChunkOutcome>,
    secret: u128,
)
    requires
        is_partition(c.range, parts, k),
        outcomes.len() == k,
        forall|i: int| 0 <= i < k ==> scan_settled(c, #[trigger] parts[i], outcomes[i]),
        c.range.contains(secret as int),
        c.solves(secret),
        forall|u: u128| #[trigger] c.range.contains(u as int) && c.solves(u) ==> u == secret,
    ensures
        c.search_result(c.range.min, c.range.max, Ok(secret)),
        forall|i: int| 0 <= i < k && #[trigger] outcomes[i] is Found ==> outcomes[i] == ChunkOutcome::Found(secret),
        exists|i: int| 0 <= i < k && #[trigger] outcomes[i] != ChunkOutcome::Exhausted,
{
    assert forall|u: u128| c.range.min <= u < secret implies !#[trigger] c.solves(u) by {
        assert(c.range.contains(u as int));
    }
    assert forall|i: int| 0 <= i < k && #[trigger] outcomes[i] is Found implies outcomes[i] == ChunkOutcome::Found(
        secret,
    ) by {
        let v = outcomes[i]->Found_0;
        assert(scan_settled(c, parts[i], outcomes[i]));
        lemma_found_part_agrees(c, parts, k, i, v);
        assert(c.range.contains(v as int));
    }
    let j = choose|j: int| 0 <= j < k && #[trigger] parts[j].contains(secret as int);
    assert(0 <= j < k && parts[j].contains(secret as int)) by {
        crate::partition::lemma_partition_covers(c.range, parts, k);
    }
    assert(scan_settled(c, parts[j], outcomes[j]));
    assert(outcomes[j] != ChunkOutcome::Exhausted);
}

/// A parallel search is decided as `NotFoundInRange` only when every worker
/// reported that it tried its whole sub-range.
pub proof fn lemma_not_found_needs_all_exhausted(g: Gather)
    requires
        g.wf(),
        g.spec_verdict() == Gather::tally(g.spec_workers(), g.spec_finished(), g.spec_exhausted()),
        g.spec_verdict() == Some(Err::<u128, SolveError>(SolveError::NotFoundInRange)),
    ensures
        g.spec_exhausted() == g.spec_workers(),
{
}

} // verus!
