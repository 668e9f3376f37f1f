//! Integers as bytes in network order, most significant byte first.
use vstd::prelude::*;

verus! {

/// A fixed number of bytes.
pub trait ByteArray: Sized {
    spec fn bytes(&self) -> Seq<u8>;

    /// How many bytes there are.
    spec fn width() -> nat;

    fn size() -> (n: usize)
        ensures
            n == Self::width(),
    ;

    fn as_slice(&self) -> (r: &[u8])
        ensures
            r@ == self.bytes(),
    ;

    fn from_slice(s: &[u8]) -> (r: Self)
        requires
            s@.len() == Self::width(),
        ensures
            r.bytes() == s@,
    ;
}

/// What can be written as bytes.
pub trait EndianWrite: Sized {
    type Array: ByteArray;

    spec fn encoding(self) -> Seq<u8>;

    fn as_bytes(self) -> (r: Self::Array)
        ensures
            r.bytes() == self.encoding(),
    ;
}

/// What can be read from bytes.
pub trait EndianRead: Sized {
    type Array: ByteArray;

    spec fn decoding(b: Seq<u8>) -> Self;

    fn from_bytes(b: Self::Array) -> (r: Self)
        ensures
            r == Self::decoding(b.bytes()),
    ;
}

/// What reads back as it was written.
pub trait Endian: EndianWrite + EndianRead {
    /// A value takes as many bytes to write as to read, and reading what was
    /// written gives the value back.
    proof fn law_round_trip(self)
        ensures
            self.encoding().len() == <Self as EndianRead>::Array::width(),
            Self::decoding(self.encoding()) == self,
    ;
}

/// The number that `b` spells in base 256.
pub open spec fn be_value(b: Seq<u8>) -> nat
    decreases b.len(),
{
    if b.len() == 0 {
        0
    } else {
        be_value(b.drop_last()) * 256 + b.last() as nat
    }
}

/// The last `n` digits of `u` in base 256.
pub open spec fn be_digits(u: nat, n: nat) -> Seq<u8>
    decreases n,
{
    if n == 0 {
        Seq::empty()
    } else {
        be_digits(u / 256, (n - 1) as nat).push((u % 256) as u8)
    }
}

/// The signed number that the residue `u` stands for, of a type with `m` values.
pub open spec fn signed(u: int, m: int) -> int {
    if u < m / 2 {
        u
    } else {
        u - m
    }
}

impl ByteArray for [u8; 1] {
    open spec fn bytes(&self) -> Seq<u8> {
        self@
    }

    open spec fn width() -> nat {
        1
    }

    fn size() -> (n: usize) {
        1
    }

    fn as_slice(&self) -> (r: &[u8]) {
        self
    }

    fn from_slice(s: &[u8]) -> (r: Self) {
        let r = [s[0]];
        assert(r@ =~= s@);
        r
    }
}

impl ByteArray for [u8; 2] {
    open spec fn bytes(&self) -> Seq<u8> {
        self@
    }

    open spec fn width() -> nat {
        2
    }

    fn size() -> (n: usize) {
        2
    }

    fn as_slice(&self) -> (r: &[u8]) {
        self
    }

    fn from_slice(s: &[u8]) -> (r: Self) {
        let r = [s[0], s[1]];
        assert(r@ =~= s@);
        r
    }
}

impl ByteArray for [u8; 4] {
    open spec fn bytes(&self) -> Seq<u8> {
        self@
    }

    open spec fn width() -> nat {
        4
    }

    fn size() -> (n: usize) {
        4
    }

    fn as_slice(&self) -> (r: &[u8]) {
        self
    }

    fn from_slice(s: &[u8]) -> (r: Self) {
        let r = [s[0], s[1], s[2], s[3]];
        assert(r@ =~= s@);
        r
    }
}

impl ByteArray for [u8; 8] {
    open spec fn bytes(&self) -> Seq<u8> {
        self@
    }

    open spec fn width() -> nat {
        8
    }

    fn size() -> (n: usize) {
        8
    }

    fn as_slice(&self) -> (r: &[u8]) {
        self
    }

    fn from_slice(s: &[u8]) -> (r: Self) {
        let r = [s[0], s[1], s[2], s[3], s[4], s[5], s[6], s[7]];
        assert(r@ =~= s@);
        r
    }
}

/// `256` multiplied by itself `n` times.
pub open spec fn power(n: nat) -> nat
    decreases n,
{
    if n == 0 {
        1
    } else {
        256 * power((n - 1) as nat)
    }
}

/// A number of at most `n` digits is the value of those digits.
proof fn lemma_value_of_digits(u: nat, n: nat)
    requires
        u < power(n),
    ensures
        be_digits(u, n).len() == n,
        be_value(be_digits(u, n)) == u,
    decreases n,
{
    if n > 0 {
        lemma_value_of_digits(u / 256, (n - 1) as nat);
        assert(be_digits(u, n).drop_last() =~= be_digits(u / 256, (n - 1) as nat));
    }
}

impl EndianWrite for i8 {
    type Array = [u8; 1];

    open spec fn encoding(self) -> Seq<u8> {
        be_digits((self as int % 0x100) as nat, 1)
    }

    fn as_bytes(self) -> (r: [u8; 1]) {
        let v: i8 = self;
        let u: u8 = v as u8;
        assert(u == if v < 0 { v + 0x100 } else { v as int }) by (bit_vector)
            requires
                u == v as u8,
        ;
        let r = [u];
        proof {
            reveal_with_fuel(be_digits, 2);
            assert(r@ =~= self.encoding());
        }
        r
    }
}

impl EndianRead for i8 {
    type Array = [u8; 1];

    open spec fn decoding(b: Seq<u8>) -> i8 {
        signed(be_value(b) as int, 0x100) as i8
    }

    fn from_bytes(b: [u8; 1]) -> (r: i8) {
        let u: u8 = b[0];
        let r: i8 = u as i8;
        assert(r == if u < 0x80 { u as int } else { u - 0x100 }) by (bit_vector)
            requires
                r == u as i8,
        ;
        proof {
            reveal_with_fuel(be_value, 2);
        }
        r
    }
}

impl Endian for i8 {
    proof fn law_round_trip(self) {
        reveal_with_fuel(power, 2);
        lemma_value_of_digits((self as int % 0x100) as nat, 1);
    }
}

impl EndianWrite for i16 {
    type Array = [u8; 2];

    open spec fn encoding(self) -> Seq<u8> {
        be_digits((self as int % 0x1_0000) as nat, 2)
    }

    fn as_bytes(self) -> (r: [u8; 2]) {
        let v: i16 = self;
        let u: u16 = v as u16;
        assert(u == if v < 0 { v + 0x1_0000 } else { v as int }) by (bit_vector)
            requires
                u == v as u16,
        ;
        let u1: u16 = u / 256;
        let r = [(u1 % 256) as u8, (u % 256) as u8];
        proof {
            assert(be_digits(u1 as nat / 256, 0) =~= r@.take(0));
            assert(be_digits(u1 as nat, 1) =~= r@.take(1));
            assert(be_digits(u as nat, 2) =~= r@.take(2));
            assert(r@.take(2) =~= r@);
        }
        r
    }
}

impl EndianRead for i16 {
    type Array = [u8; 2];

    open spec fn decoding(b: Seq<u8>) -> i16 {
        signed(be_value(b) as int, 0x1_0000) as i16
    }

    fn from_bytes(b: [u8; 2]) -> (r: i16) {
        let u: u16 = b[0] as u16 * 256 + b[1] as u16;
        let r: i16 = u as i16;
        assert(r == if u < 0x8000 { u as int } else { u - 0x1_0000 }) by (bit_vector)
            requires
                r == u as i16,
        ;
        proof {
            reveal_with_fuel(be_value, 3);
        }
        r
    }
}

impl Endian for i16 {
    proof fn law_round_trip(self) {
        reveal_with_fuel(power, 3);
        lemma_value_of_digits((self as int % 0x1_0000) as nat, 2);
    }
}

impl EndianWrite for i32 {
    type Array = [u8; 4];

    open spec fn encoding(self) -> Seq<u8> {
        be_digits((self as int % 0x1_0000_0000) as nat, 4)
    }

    fn as_bytes(self) -> (r: [u8; 4]) {
        let v: i32 = self;
        let u: u32 = v as u32;
        assert(u == if v < 0 { v + 0x1_0000_0000 } else { v as int }) by (bit_vector)
            requires
                u == v as u32,
        ;
        let u1: u32 = u / 256;
        let u2: u32 = u1 / 256;
        let u3: u32 = u2 / 256;
        let r = [(u3 % 256) as u8, (u2 % 256) as u8, (u1 % 256) as u8, (u % 256) as u8];
        proof {
            assert(be_digits(u3 as nat / 256, 0) =~= r@.take(0));
            assert(be_digits(u3 as nat, 1) =~= r@.take(1));
            assert(be_digits(u2 as nat, 2) =~= r@.take(2));
            assert(be_digits(u1 as nat, 3) =~= r@.take(3));
            assert(be_digits(u as nat, 4) =~= r@.take(4));
            assert(r@.take(4) =~= r@);
        }
        r
    }
}

impl EndianRead for i32 {
    type Array = [u8; 4];

    open spec fn decoding(b: Seq<u8>) -> i32 {
        signed(be_value(b) as int, 0x1_0000_0000) as i32
    }

    fn from_bytes(b: [u8; 4]) -> (r: i32) {
        let u1: u32 = b[0] as u32 * 256 + b[1] as u32;
        let u2: u32 = u1 * 256 + b[2] as u32;
        let u: u32 = u2 * 256 + b[3] as u32;
        let r: i32 = u as i32;
        assert(r == if u < 0x8000_0000 { u as int } else { u - 0x1_0000_0000 }) by (bit_vector)
            requires
                r == u as i32,
        ;
        proof {
            reveal_with_fuel(be_value, 5);
        }
        r
    }
}

impl Endian for i32 {
    proof fn law_round_trip(self) {
        reveal_with_fuel(power, 5);
        lemma_value_of_digits((self as int % 0x1_0000_0000) as nat, 4);
    }
}

impl EndianWrite for i64 {
    type Array = [u8; 8];

    open spec fn encoding(self) -> Seq<u8> {
        be_digits((self as int % 0x1_0000_0000_0000_0000) as nat, 8)
    }

    fn as_bytes(self) -> (r: [u8; 8]) {
        let v: i64 = self;
        let u: u64 = v as u64;
        assert(u == if v < 0 { v + 0x1_0000_0000_0000_0000 } else { v as int }) by (bit_vector)
            requires
                u == v as u64,
        ;
        let u1: u64 = u / 256;
        let u2: u64 = u1 / 256;
        let u3: u64 = u2 / 256;
        let u4: u64 = u3 / 256;
        let u5: u64 = u4 / 256;
        let u6: u64 = u5 / 256;
        let u7: u64 = u6 / 256;
        let r = [
            (u7 % 256) as u8,
            (u6 % 256) as u8,
            (u5 % 256) as u8,
            (u4 % 256) as u8,
            (u3 % 256) as u8,
            (u2 % 256) as u8,
            (u1 % 256) as u8,
            (u % 256) as u8,
        ];
        proof {
            assert(be_digits(u7 as nat / 256, 0) =~= r@.take(0));
            assert(be_digits(u7 as nat, 1) =~= r@.take(1));
            assert(be_digits(u6 as nat, 2) =~= r@.take(2));
            assert(be_digits(u5 as nat, 3) =~= r@.take(3));
            assert(be_digits(u4 as nat, 4) =~= r@.take(4));
            assert(be_digits(u3 as nat, 5) =~= r@.take(5));
            assert(be_digits(u2 as nat, 6) =~= r@.take(6));
            assert(be_digits(u1 as nat, 7) =~= r@.take(7));
            assert(be_digits(u as nat, 8) =~= r@.take(8));
            assert(r@.take(8) =~= r@);
        }
        r
    }
}

impl EndianRead for i64 {
    type Array = [u8; 8];

    open spec fn decoding(b: Seq<u8>) -> i64 {
        signed(be_value(b) as int, 0x1_0000_0000_0000_0000) as i64
    }

    fn from_bytes(b: [u8; 8]) -> (r: i64) {
        let u1: u64 = b[0] as u64 * 256 + b[1] as u64;
        let u2: u64 = u1 * 256 + b[2] as u64;
        let u3: u64 = u2 * 256 + b[3] as u64;
        let u4: u64 = u3 * 256 + b[4] as u64;
        let u5: u64 = u4 * 256 + b[5] as u64;
        let u6: u64 = u5 * 256 + b[6] as u64;
        let u: u64 = u6 * 256 + b[7] as u64;
        let r: i64 = u as i64;
        assert(r == if u < 0x8000_0000_0000_0000 { u as int } else { u - 0x1_0000_0000_0000_0000 }) by (bit_vector)
            requires
                r == u as i64,
        ;
        proof {
            reveal_with_fuel(be_value, 9);
        }
        r
    }
}

impl Endian for i64 {
    proof fn law_round_trip(self) {
        reveal_with_fuel(power, 9);
        lemma_value_of_digits((self as int % 0x1_0000_0000_0000_0000) as nat, 8);
    }
}

/// An `i8` is written as its one byte, in two's complement, and read from it.
pub proof fn law_i8_in_network_order(v: i8, b: Seq<u8>)
    requires
        b.len() == 1,
    ensures
        v.encoding().len() == 1,
        v.encoding()[0] == v + (if v < 0 { 0x100int } else { 0 }),
        i8::decoding(b) + (if i8::decoding(b) < 0 { 0x100int } else { 0 }) == b[0],
{
    reveal_with_fuel(be_digits, 2);
    reveal_with_fuel(be_value, 2);
}

/// An `i16` is written in two's complement, its high byte first, and read the same way.
pub proof fn law_i16_in_network_order(v: i16, b: Seq<u8>)
    requires
        b.len() == 2,
    ensures
        v.encoding().len() == 2,
        v.encoding()[0] * 0x100 + v.encoding()[1] == v + (if v < 0 { 0x1_0000int } else { 0 }),
        i16::decoding(b) + (if i16::decoding(b) < 0 { 0x1_0000int } else { 0 }) == b[0] * 0x100 + b[1],
{
    reveal_with_fuel(be_digits, 3);
    reveal_with_fuel(be_value, 3);
}

/// An `i32` is written in two's complement, its highest byte first, and read the same way.
pub proof fn law_i32_in_network_order(v: i32, b: Seq<u8>)
    requires
        b.len() == 4,
    ensures
        v.encoding().len() == 4,
        v.encoding()[0] * 0x100_0000 + v.encoding()[1] * 0x1_0000 + v.encoding()[2] * 0x100 + v.encoding()[3] == v + (
        if v < 0 {
            0x1_0000_0000int
        } else {
            0
        }),
        i32::decoding(b) + (if i32::decoding(b) < 0 { 0x1_0000_0000int } else { 0 }) == b[0] * 0x100_0000 + b[1]
            * 0x1_0000 + b[2] * 0x100 + b[3],
{
    reveal_with_fuel(be_digits, 5);
    reveal_with_fuel(be_value, 5);
}

/// An `i64` is written in two's complement, its highest byte first, and read the same way.
pub proof fn law_i64_in_network_order(v: i64, b: Seq<u8>)
    requires
        b.len() == 8,
    ensures
        v.encoding().len() == 8,
        v.encoding()[0] * 0x100_0000_0000_0000 + v.encoding()[1] * 0x1_0000_0000_0000 + v.encoding()[2]
            * 0x100_0000_0000 + v.encoding()[3] * 0x1_0000_0000 + v.encoding()[4] * 0x100_0000 + v.encoding()[5]
            * 0x1_0000 + v.encoding()[6] * 0x100 + v.encoding()[7] == v + (if v < 0 {
            0x1_0000_0000_0000_0000int
        } else {
            0
        }),
        i64::decoding(b) + (if i64::decoding(b) < 0 { 0x1_0000_0000_0000_0000int } else { 0 }) == b[0]
            * 0x100_0000_0000_0000 + b[1] * 0x1_0000_0000_0000 + b[2] * 0x100_0000_0000 + b[3] * 0x1_0000_0000 + b[4]
            * 0x100_0000 + b[5] * 0x1_0000 + b[6] * 0x100 + b[7],
{
    reveal_with_fuel(be_digits, 9);
    reveal_with_fuel(be_value, 9);
}

} // verus!
