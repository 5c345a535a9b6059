use vstd::prelude::*;

verus! {

/// The sixteen bytes of `n`, most significant first.
pub open spec fn be_bytes(n: u128) -> Seq<u8> {
    Seq::new(16, |i: int| (n >> ((8 * (15 - i)) as u128)) as u8)
}

/// An unsigned 128-bit value, hashed through its big-endian bytes.
#[derive(Clone, Copy, Debug, PartialEq, Eq, Structural)]
pub struct Num {
    number: u128,
}

impl View for Num {
    type V = u128;

    closed spec fn view(&self) -> u128 {
        self.number
    }
}

/// Two values with the same big-endian bytes are equal, so reading a value
/// back from its bytes gives the value.
pub proof fn lemma_be_bytes_injective(a: u128, b: u128)
    requires
        be_bytes(a) == be_bytes(b),
    ensures
        a == b,
{
    let sa = be_bytes(a);
    let sb = be_bytes(b);
    assert(sa[0] == sb[0] && sa[1] == sb[1] && sa[2] == sb[2] && sa[3] == sb[3]);
    assert(sa[4] == sb[4] && sa[5] == sb[5] && sa[6] == sb[6] && sa[7] == sb[7]);
    assert(sa[8] == sb[8] && sa[9] == sb[9] && sa[10] == sb[10] && sa[11] == sb[11]);
    assert(sa[12] == sb[12] && sa[13] == sb[13] && sa[14] == sb[14] && sa[15] == sb[15]);
    assert(a == b) by (bit_vector)
        requires
            (a >> 120u128) as u8 == (b >> 120u128) as u8,
            (a >> 112u128) as u8 == (b >> 112u128) as u8,
            (a >> 104u128) as u8 == (b >> 104u128) as u8,
            (a >> 96u128) as u8 == (b >> 96u128) as u8,
            (a >> 88u128) as u8 == (b >> 88u128) as u8,
            (a >> 80u128) as u8 == (b >> 80u128) as u8,
            (a >> 72u128) as u8 == (b >> 72u128) as u8,
            (a >> 64u128) as u8 == (b >> 64u128) as u8,
            (a >> 56u128) as u8 == (b >> 56u128) as u8,
            (a >> 48u128) as u8 == (b >> 48u128) as u8,
            (a >> 40u128) as u8 == (b >> 40u128) as u8,
            (a >> 32u128) as u8 == (b >> 32u128) as u8,
            (a >> 24u128) as u8 == (b >> 24u128) as u8,
            (a >> 16u128) as u8 == (b >> 16u128) as u8,
            (a >> 8u128) as u8 == (b >> 8u128) as u8,
            (a >> 0u128) as u8 == (b >> 0u128) as u8,
    ;
}

impl Num {
    pub fn new(num: u128) -> (r: Num)
        ensures
            r@ == num,
    {
        Num { number: num }
    }

    /// The value as a plain integer.
    pub fn value(&self) -> (r: u128)
        ensures
            r == self@,
    {
        self.number
    }

    /// The sixteen big-endian bytes that the hash function is fed.
    pub fn bytes(&self) -> (r: [u8; 16])
        ensures
            r@ == be_bytes(self@),
    {
        let n = self.number;
        let r: [u8; 16] = [
            (n >> 120u128) as u8,
            (n >> 112u128) as u8,
            (n >> 104u128) as u8,
            (n >> 96u128) as u8,
            (n >> 88u128) as u8,
            (n >> 80u128) as u8,
            (n >> 72u128) as u8,
            (n >> 64u128) as u8,
            (n >> 56u128) as u8,
            (n >> 48u128) as u8,
            (n >> 40u128) as u8,
            (n >> 32u128) as u8,
            (n >> 24u128) as u8,
            (n >> 16u128) as u8,
            (n >> 8u128) as u8,
            (n >> 0u128) as u8,
        ];
        assert(r@ =~= be_bytes(n));
        r
    }

    /// The value whose big-endian bytes are `bytes`.
    pub fn from_bytes(bytes: [u8; 16]) -> (r: Num)
        ensures
            be_bytes(r@) == bytes@,
    {
        let b0: u8 = bytes[0];
        let b1: u8 = bytes[1];
        let b2: u8 = bytes[2];
        let b3: u8 = bytes[3];
        let b4: u8 = bytes[4];
        let b5: u8 = bytes[5];
        let b6: u8 = bytes[6];
        let b7: u8 = bytes[7];
        let b8: u8 = bytes[8];
        let b9: u8 = bytes[9];
        let b10: u8 = bytes[10];
        let b11: u8 = bytes[11];
        let b12: u8 = bytes[12];
        let b13: u8 = bytes[13];
        let b14: u8 = bytes[14];
        let b15: u8 = bytes[15];
        let number: u128 = ((b0 as u128) << 120u128)
            | ((b1 as u128) << 112u128)
            | ((b2 as u128) << 104u128)
            | ((b3 as u128) << 96u128)
            | ((b4 as u128) << 88u128)
            | ((b5 as u128) << 80u128)
            | ((b6 as u128) << 72u128)
            | ((b7 as u128) << 64u128)
            | ((b8 as u128) << 56u128)
            | ((b9 as u128) << 48u128)
            | ((b10 as u128) << 40u128)
            | ((b11 as u128) << 32u128)
            | ((b12 as u128) << 24u128)
            | ((b13 as u128) << 16u128)
            | ((b14 as u128) << 8u128)
            | ((b15 as u128) << 0u128);
        assert(
            (number >> 120u128) as u8 == b0 &&
            (number >> 112u128) as u8 == b1 &&
            (number >> 104u128) as u8 == b2 &&
            (number >> 96u128) as u8 == b3 &&
            (number >> 88u128) as u8 == b4 &&
            (number >> 80u128) as u8 == b5 &&
            (number >> 72u128) as u8 == b6 &&
            (number >> 64u128) as u8 == b7 &&
            (number >> 56u128) as u8 == b8 &&
            (number >> 48u128) as u8 == b9 &&
            (number >> 40u128) as u8 == b10 &&
            (number >> 32u128) as u8 == b11 &&
            (number >> 24u128) as u8 == b12 &&
            (number >> 16u128) as u8 == b13 &&
            (number >> 8u128) as u8 == b14 &&
            (number >> 0u128) as u8 == b15
        ) by (bit_vector)
            requires
                number == ((b0 as u128) << 120u128)
                    | ((b1 as u128) << 112u128)
                    | ((b2 as u128) << 104u128)
                    | ((b3 as u128) << 96u128)
                    | ((b4 as u128) << 88u128)
                    | ((b5 as u128) << 80u128)
                    | ((b6 as u128) << 72u128)
                    | ((b7 as u128) << 64u128)
                    | ((b8 as u128) << 56u128)
                    | ((b9 as u128) << 48u128)
                    | ((b10 as u128) << 40u128)
                    | ((b11 as u128) << 32u128)
                    | ((b12 as u128) << 24u128)
                    | ((b13 as u128) << 16u128)
                    | ((b14 as u128) << 8u128)
                    | ((b15 as u128) << 0u128),
        ;
        assert(be_bytes(number) =~= bytes@);
        Num { number }
    }
}

impl From<u128> for Num {
    fn from(number: u128) -> (r: Num) {
        Num { number }
    }
}

impl vstd::std_specs::convert::FromSpecImpl<u128> for Num {
    open spec fn obeys_from_spec() -> bool {
        true
    }

    closed spec fn from_spec(v: u128) -> Num {
        Num { number: v }
    }
}

impl From<Num> for u128 {
    fn from(value: Num) -> (r: u128) {
        value.number
    }
}

impl vstd::std_specs::convert::FromSpecImpl<Num> for u128 {
    open spec fn obeys_from_spec() -> bool {
        true
    }

    open spec fn from_spec(v: Num) -> u128 {
        v@
    }
}

/// Converting a number to a `Num` keeps its value, and converting a `Num`
/// back gives that value.
pub proof fn lemma_from_round_trip(v: u128, n: Num)
    ensures
        <Num as vstd::std_specs::convert::FromSpec<u128>>::from_spec(v)@ == v,
        <u128 as vstd::std_specs::convert::FromSpec<Num>>::from_spec(n) == n@,
        <u128 as vstd::std_specs::convert::FromSpec<Num>>::from_spec(
            <Num as vstd::std_specs::convert::FromSpec<u128>>::from_spec(v),
        ) == v,
{
}

impl std::ops::Mul<u128> for Num {
    type Output = u128;

    fn mul(self, rhs: u128) -> (r: u128) {
        self.number * rhs
    }
}

impl vstd::std_specs::ops::MulSpecImpl<u128> for Num {
    open spec fn obeys_mul_spec() -> bool {
        true
    }

    open spec fn mul_req(self, rhs: u128) -> bool {
        self@ * rhs <= u128::MAX
    }

    open spec fn mul_spec(self, rhs: u128) -> u128 {
        (self@ * rhs) as u128
    }
}

} // verus!
