use vstd::prelude::*;

use crate::hash::{digest_of, hash_num};
use crate::num::Num;

verus! {

/// Relies on rand::random: a value drawn from the thread-local generator.
/// Nothing is known of the value.
pub assume_specification<T>[ rand::random::<T> ]() -> (r: T)
    where
        rand::distributions::Standard: rand::distributions::Distribution<T>,
;

/// Why a range could not be built or a search produced no value.
#[derive(Clone, Copy, Debug, PartialEq, Eq, Structural)]
pub enum SolveError {
    /// The lower bound of a range lies above its upper bound.
    InvalidRange,
    /// Every value of the searched range was tried and none matched.
    NotFoundInRange,
    /// A worker stopped abnormally, or coordination between workers broke down.
    TaskError,
}

/// The half-open interval `[min, max)` of candidate values.
#[derive(Clone, Copy, Debug, PartialEq, Eq, Structural)]
pub struct POWRange {
    pub min: u128,
    pub max: u128,
}

impl POWRange {
    /// `v` lies in `[min, max)`; a range whose bounds are inverted holds nothing.
    pub open spec fn contains(self, v: int) -> bool {
        self.min <= v < self.max
    }

    /// Builds `[min, max)`, refusing bounds in the wrong order.
    pub fn new(min: u128, max: u128) -> (r: Result<POWRange, SolveError>)
        ensures
            min <= max ==> r == Ok::<POWRange, SolveError>(POWRange { min, max }),
            min > max ==> r == Err::<POWRange, SolveError>(SolveError::InvalidRange),
    {
        if min > max {
            Err(SolveError::InvalidRange)
        } else {
            Ok(POWRange { min, max })
        }
    }
}

/// A digest to be matched by a value searched for in a range.
#[derive(Clone, Copy, Debug)]
pub struct POWChallenge {
    pub hash: [u8; 32],
    pub range: POWRange,
}

impl POWChallenge {
    /// `v` hashes to the challenge's digest.
    pub open spec fn solves(self, v: u128) -> bool {
        digest_of(v) == self.hash@
    }

    /// `r` is the outcome of an ascending scan of `[start, end)`: the first value
    /// that solves the challenge, or `None` when no value there does.
    pub open spec fn first_in(self, start: u128, end: u128, r: Option<u128>) -> bool {
        match r {
            Some(v) => start <= v < end && self.solves(v) && forall|u: u128|
                start <= u < v ==> !#[trigger] self.solves(u),
            None => forall|u: u128| start <= u < end ==> !#[trigger] self.solves(u),
        }
    }

    /// `r` is what a full search of `[start, end)` returns: the first solving
    /// value, or `NotFoundInRange` when there is none.
    pub open spec fn search_result(self, start: u128, end: u128, r: Result<u128, SolveError>) -> bool {
        match r {
            Ok(v) => self.first_in(start, end, Some(v)),
            Err(e) => e == SolveError::NotFoundInRange && self.first_in(start, end, None),
        }
    }

    /// The challenge hides `num` and searches `range`, or `[0, 2 * num)`
    /// when no range is given.
    pub open spec fn made_from(self, num: u128, range: Option<POWRange>) -> bool {
        &&& self.solves(num)
        &&& self.range == match range {
            Some(v) => v,
            None => (POWRange { min: 0, max: (2 * num) as u128 }),
        }
    }

    pub fn new(hash: [u8; 32], range: POWRange) -> (r: POWChallenge)
        ensures
            r.hash == hash,
            r.range == range,
    {
        POWChallenge { hash, range }
    }

    /// The secret that the number `draw` picks from `range`.
    pub open spec fn secret_of(range: POWRange, draw: u128) -> u128
        recommends
            range.min < range.max,
    {
        (draw % ((range.max - range.min) as u128) + range.min) as u128
    }

    /// A challenge for the secret that `draw` picks from `range`: the draw
    /// taken modulo the range's width, above its lower bound.
    pub fn make_with(range: POWRange, draw: u128) -> (r: POWChallenge)
        requires
            range.min < range.max,
        ensures
            r.range == range,
            r.hash@ == digest_of(Self::secret_of(range, draw)),
            range.contains(Self::secret_of(range, draw) as int),
    {
        let width: u128 = range.max - range.min;
        let secret = draw % width + range.min;
        POWChallenge { hash: hash_num(Num::new(secret)), range: range }
    }

    /// A challenge for a secret drawn at random from `range`.
    pub fn make(range: POWRange) -> (r: POWChallenge)
        requires
            range.min < range.max,
        ensures
            r.range == range,
            exists|draw: u128| r.hash@ == digest_of(#[trigger] Self::secret_of(range, draw)),
            exists|s: u128| range.contains(s as int) && #[trigger] r.solves(s),
    {
        let draw: u128 = rand::random::<u128>();
        let r = Self::make_with(range, draw);
        assert(r.solves(Self::secret_of(range, draw)));
        r
    }

    /// A challenge for the given secret; without a range, the range is
    /// `[0, 2 * num)`.
    pub fn make_from(num: Num, range: Option<POWRange>) -> (r: POWChallenge)
        requires
            range.is_some() || num@ <= u128::MAX / 2,
        ensures
            r.made_from(num@, range),
    {
        POWChallenge {
            hash: hash_num(num),
            range: match range {
                Some(v) => v,
                None => POWRange { min: 0, max: num * 2 },
            },
        }
    }

    /// Whether `num` hashes to the challenge's digest.
    pub fn check(&self, num: Num) -> (r: bool)
        ensures
            r == self.solves(num@),
    {
        let h = hash_num(num);
        let mut i: usize = 0;
        while i < 32
            invariant
                0 <= i <= 32,
                h@ == digest_of(num@),
                forall|j: int| 0 <= j < i ==> h@[j] == self.hash@[j],
            decreases 32 - i,
        {
            if h[i] != self.hash[i] {
                assert(h@[i as int] != self.hash@[i as int]);
                return false;
            }
            i += 1;
        }
        assert(h@ =~= self.hash@);
        true
    }

    /// The first value of `[start, end)` that solves the challenge.
    pub fn chunk_solve(&self, start: u128, end: u128) -> (r: Option<u128>)
        ensures
            self.first_in(start, end, r),
    {
        let mut i: u128 = start;
        while i < end
            invariant
                start <= i,
                forall|u: u128| start <= u < i ==> !#[trigger] self.solves(u),
            decreases end - i,
        {
            if self.check(Num::new(i)) {
                return Some(i);
            }
            i += 1;
        }
        None
    }

    /// Searches the whole range in order.
    pub fn solve_singlethread(&self) -> (r: Result<u128, SolveError>)
        ensures
            self.search_result(self.range.min, self.range.max, r),
    {
        match self.chunk_solve(self.range.min, self.range.max) {
            Some(v) => Ok(v),
            None => Err(SolveError::NotFoundInRange),
        }
    }
}

/// A challenge made from a secret accepts that secret, and a range inferred
/// from a non-zero secret holds it.
pub proof fn lemma_check_accepts_secret(c: POWChallenge, num: u128, range: Option<POWRange>)
    requires
        c.made_from(num, range),
        range.is_some() || num <= u128::MAX / 2,
    ensures
        c.solves(num),
        range.is_none() && num > 0 ==> c.range.contains(num as int),
{
}

} // verus!
