use powlib::gen::{POWChallenge, POWRange, SolveError};
use powlib::hash::{hash, hash_num};
use powlib::num::Num;

#[test]
fn num_bytes_are_big_endian() {
    let n = Num::new(0x0102_0304_0506_0708_090a_0b0c_0d0e_0f10);
    assert_eq!(n.bytes(), [1, 2, 3, 4, 5, 6, 7, 8, 9, 10, 11, 12, 13, 14, 15, 16]);
    let mut one = [0u8; 16];
    one[15] = 1;
    assert_eq!(Num::new(1).bytes(), one);
}

#[test]
fn num_from_bytes_reads_back() {
    for v in [0u128, 1, 255, 256, 473823, u128::MAX] {
        let n = Num::new(v);
        assert_eq!(Num::from_bytes(n.bytes()), n);
        assert_eq!(Num::from_bytes(n.bytes()).value(), v);
    }
    assert_eq!(Num::from_bytes([0xff; 16]).value(), u128::MAX);
}

#[test]
fn num_converts_both_ways() {
    let n: Num = 77u128.into();
    assert_eq!(n.value(), 77);
    let back: u128 = n.into();
    assert_eq!(back, 77);
}

#[test]
fn range_rejects_inverted_bounds() {
    assert_eq!(POWRange::new(5, 4), Err(SolveError::InvalidRange));
    assert_eq!(POWRange::new(4, 4), Ok(POWRange { min: 4, max: 4 }));
    assert_eq!(POWRange::new(0, 100), Ok(POWRange { min: 0, max: 100 }));
}

#[test]
fn hash_fills_the_output() {
    let mut out = [0u8; 32];
    hash(&[1, 2, 3], &mut out);
    assert_ne!(out, [0u8; 32]);
    let mut again = [0u8; 32];
    hash(&[1, 2, 3], &mut again);
    assert_eq!(out, again);
}

#[test]
fn hash_num_is_deterministic_and_distinguishes() {
    let a = hash_num(Num::new(42));
    assert_eq!(a, hash_num(Num::new(42)));
    assert_ne!(a, hash_num(Num::new(43)));
    let mut direct = [0u8; 32];
    hash(&Num::new(42).bytes(), &mut direct);
    assert_eq!(a, direct);
}

#[test]
fn make_from_check_accepts_only_the_secret() {
    let range = POWRange::new(0, 100).unwrap();
    let c = POWChallenge::make_from(Num::new(42), Some(range));
    assert!(c.check(Num::new(42)));
    for v in [0u128, 1, 41, 43, 99] {
        assert!(!c.check(Num::new(v)));
    }
    assert_eq!(c.range, range);
}

#[test]
fn make_from_infers_double_range() {
    let c = POWChallenge::make_from(Num::new(42), None);
    assert_eq!(c.range, POWRange { min: 0, max: 84 });
    assert!(c.check(Num::new(42)));
}

#[test]
fn challenge_new_keeps_fields() {
    let digest = hash_num(Num::new(3));
    let c = POWChallenge::new(digest, POWRange { min: 0, max: 8 });
    assert_eq!(c.hash, digest);
    assert!(c.check(Num::new(3)));
    assert_eq!(c.chunk_solve(0, 8), Some(3));
    assert_eq!(c.chunk_solve(4, 8), None);
    assert_eq!(c.chunk_solve(8, 0), None);
}

#[test]
fn make_hides_a_value_of_the_range() {
    let range = POWRange::new(10, 18).unwrap();
    let c = POWChallenge::make(range);
    assert_eq!(c.range, range);
    let v = c.solve_singlethread().unwrap();
    assert!(10 <= v && v < 18);
    assert!(c.check(Num::new(v)));
}

#[test]
fn solve_singlethread_reports_missing_secret() {
    let c = POWChallenge::make_from(Num::new(500), Some(POWRange { min: 0, max: 10 }));
    assert_eq!(c.solve_singlethread(), Err(SolveError::NotFoundInRange));
    let c = POWChallenge::make_from(Num::new(7), Some(POWRange { min: 0, max: 10 }));
    assert_eq!(c.solve_singlethread(), Ok(7));
}

#[test]
fn make_with_picks_the_secret_from_the_draw() {
    let range = POWRange::new(10, 18).unwrap();
    let c = POWChallenge::make_with(range, 5);
    assert_eq!(c.range, range);
    assert!(c.check(Num::new(15)));
    assert_eq!(c.solve_singlethread(), Ok(15));
    let c = POWChallenge::make_with(range, 16 + 3);
    assert_eq!(c.hash, hash_num(Num::new(13)));
}

#[test]
fn num_multiplies_by_a_number() {
    assert_eq!(Num::new(21) * 2, 42);
    assert_eq!(Num::new(0) * 7, 0);
}
