//! Numbers in packets: integers of either byte order, and floating-point numbers held as
//! their IEEE 754 bit patterns.

use crate::protocol::Endian;
use vstd::prelude::*;

verus! {

/// The distance of a double-precision bit pattern from the zero of its sign.
pub open spec fn magnitude_64(bits: u64) -> int {
    if bits >= 0x8000_0000_0000_0000 {
        bits - 0x8000_0000_0000_0000
    } else {
        bits as int
    }
}

/// The distance of a single-precision bit pattern from the zero of its sign.
pub open spec fn magnitude_32(bits: u32) -> int {
    if bits >= 0x8000_0000 {
        bits - 0x8000_0000
    } else {
        bits as int
    }
}

/// A double-precision number, as its bit pattern.
#[derive(Debug, Clone, Copy)]
pub struct F64Bits {
    pub bits: u64,
}

/// A single-precision number, as its bit pattern.
#[derive(Debug, Clone, Copy)]
pub struct F32Bits {
    pub bits: u32,
}

/// Whether the number is neither infinite nor NaN.
pub open spec fn finite_64(x: F64Bits) -> bool {
    magnitude_64(x.bits) < 0x7FF0_0000_0000_0000
}

/// Whether the number is NaN.
pub open spec fn nan_64(x: F64Bits) -> bool {
    magnitude_64(x.bits) > 0x7FF0_0000_0000_0000
}

/// Whether two numbers are equal: NaN equals nothing, and the two zeros are equal.
pub open spec fn equal_64(x: F64Bits, y: F64Bits) -> bool {
    !nan_64(x) && !nan_64(y) && (x.bits == y.bits || (magnitude_64(x.bits) == 0 && magnitude_64(
        y.bits,
    ) == 0))
}

/// Whether the number is neither infinite nor NaN.
pub open spec fn finite_32(x: F32Bits) -> bool {
    magnitude_32(x.bits) < 0x7F80_0000
}

/// Whether the number is NaN.
pub open spec fn nan_32(x: F32Bits) -> bool {
    magnitude_32(x.bits) > 0x7F80_0000
}

/// Whether two numbers are equal: NaN equals nothing, and the two zeros are equal.
pub open spec fn equal_32(x: F32Bits, y: F32Bits) -> bool {
    !nan_32(x) && !nan_32(y) && (x.bits == y.bits || (magnitude_32(x.bits) == 0 && magnitude_32(
        y.bits,
    ) == 0))
}

/// The bit pattern of 1.0.
pub const ONE_BITS: u64 = 0x3FF0_0000_0000_0000;

impl F64Bits {
    /// The number 0.0.
    pub fn zero() -> (r: Self)
        ensures
            r.bits == 0,
    {
        F64Bits { bits: 0 }
    }

    /// The number 1.0.
    pub fn one() -> (r: Self)
        ensures
            r.bits == ONE_BITS,
    {
        F64Bits { bits: ONE_BITS }
    }

    fn magnitude(self) -> (r: u64)
        ensures
            r == magnitude_64(self.bits),
    {
        if self.bits >= 0x8000_0000_0000_0000 {
            self.bits - 0x8000_0000_0000_0000
        } else {
            self.bits
        }
    }

    /// Whether the number is neither infinite nor NaN.
    pub fn is_finite(self) -> (r: bool)
        ensures
            r == finite_64(self),
    {
        self.magnitude() < 0x7FF0_0000_0000_0000
    }

    /// Whether the number is NaN.
    pub fn is_nan(self) -> (r: bool)
        ensures
            r == nan_64(self),
    {
        self.magnitude() > 0x7FF0_0000_0000_0000
    }
}

impl PartialEq for F64Bits {
    fn eq(&self, other: &Self) -> (r: bool) {
        !self.is_nan() && !other.is_nan() && (self.bits == other.bits || (self.magnitude() == 0
            && other.magnitude() == 0))
    }
}

impl vstd::std_specs::cmp::PartialEqSpecImpl for F64Bits {
    open spec fn obeys_eq_spec() -> bool {
        true
    }

    open spec fn eq_spec(&self, other: &Self) -> bool {
        equal_64(*self, *other)
    }
}

impl F32Bits {
    fn magnitude(self) -> (r: u32)
        ensures
            r == magnitude_32(self.bits),
    {
        if self.bits >= 0x8000_0000 {
            self.bits - 0x8000_0000
        } else {
            self.bits
        }
    }

    /// Whether the number is neither infinite nor NaN.
    pub fn is_finite(self) -> (r: bool)
        ensures
            r == finite_32(self),
    {
        self.magnitude() < 0x7F80_0000
    }

    /// Whether the number is NaN.
    pub fn is_nan(self) -> (r: bool)
        ensures
            r == nan_32(self),
    {
        self.magnitude() > 0x7F80_0000
    }
}

impl PartialEq for F32Bits {
    fn eq(&self, other: &Self) -> (r: bool) {
        !self.is_nan() && !other.is_nan() && (self.bits == other.bits || (self.magnitude() == 0
            && other.magnitude() == 0))
    }
}

impl vstd::std_specs::cmp::PartialEqSpecImpl for F32Bits {
    open spec fn obeys_eq_spec() -> bool {
        true
    }

    open spec fn eq_spec(&self, other: &Self) -> bool {
        equal_32(*self, *other)
    }
}

/// The unsigned integer that `bytes` holds.
pub open spec fn unsigned_value(bytes: Seq<u8>, endian: Endian) -> nat
    decreases bytes.len(),
{
    if bytes.len() == 0 {
        0
    } else {
        match endian {
            Endian::Little => bytes[0] as nat + 256 * unsigned_value(bytes.skip(1), endian),
            Endian::Big => bytes.last() as nat + 256 * unsigned_value(bytes.drop_last(), endian),
        }
    }
}

/// The two's complement reading of an unsigned integer of `width` bytes.
pub open spec fn signed_value(unsigned: nat, width: nat) -> int {
    let half: int = if width == 1 {
        0x80
    } else if width == 2 {
        0x8000
    } else {
        0x8000_0000
    };
    if unsigned >= half {
        unsigned - 2 * half
    } else {
        unsigned as int
    }
}

/// Reads the unsigned integer in the `width` bytes at `start`.
pub fn read_unsigned_at(data: &[u8], start: usize, width: usize, endian: Endian) -> (r: u64)
    requires
        start + width <= data@.len(),
        width <= 4,
    ensures
        r == unsigned_value(data@.subrange(start as int, start + width), endian),
        width == 1 ==> r < 0x100,
        width == 2 ==> r < 0x1_0000,
        r < 0x1_0000_0000,
{
    let ghost bytes = data@.subrange(start as int, start + width);
    let total: usize = data.len();
    let mut value: u64 = 0;
    let mut i: usize = 0;
    match endian {
        Endian::Big => {
            assert(bytes.take(0) =~= Seq::<u8>::empty());
            while i < width
                invariant
                    i <= width <= 4,
                    start + width <= data@.len(),
                    data@.len() == total,
                    bytes == data@.subrange(start as int, start + width),
                    value == unsigned_value(bytes.take(i as int), Endian::Big),
                    i == 0 ==> value == 0,
                    i == 1 ==> value < 0x100,
                    i == 2 ==> value < 0x1_0000,
                    i == 3 ==> value < 0x100_0000,
                    value < 0x1_0000_0000,
                decreases width - i,
            {
                let ghost next = bytes.take(i + 1);
                assert(next.drop_last() =~= bytes.take(i as int));
                assert(next.last() == data@[start + i]);
                value = value * 256 + data[start + i] as u64;
                i = i + 1;
            }
            assert(bytes.take(width as int) =~= bytes);
        },
        Endian::Little => {
            assert(bytes.skip(width as int) =~= Seq::<u8>::empty());
            while i < width
                invariant
                    i <= width <= 4,
                    start + width <= data@.len(),
                    data@.len() == total,
                    bytes == data@.subrange(start as int, start + width),
                    value == unsigned_value(bytes.skip(width - i), Endian::Little),
                    i == 0 ==> value == 0,
                    i == 1 ==> value < 0x100,
                    i == 2 ==> value < 0x1_0000,
                    i == 3 ==> value < 0x100_0000,
                    value < 0x1_0000_0000,
                decreases width - i,
            {
                let ghost next = bytes.skip(width - i - 1);
                assert(next.skip(1) =~= bytes.skip(width - i));
                assert(next[0] == data@[start + width - i - 1]);
                value = value * 256 + data[start + width - i - 1] as u64;
                i = i + 1;
            }
            assert(bytes.skip(0) =~= bytes);
        },
    }
    value
}

/// The two byte orders mirror each other.
pub proof fn byte_orders_mirror(bytes: Seq<u8>)
    ensures
        unsigned_value(bytes, Endian::Little) == unsigned_value(bytes.reverse(), Endian::Big),
    decreases bytes.len(),
{
    if bytes.len() > 0 {
        byte_orders_mirror(bytes.skip(1));
        assert(bytes.reverse().drop_last() =~= bytes.skip(1).reverse());
        assert(bytes.reverse().last() == bytes[0]);
    }
}

/// A copy of a byte string.
pub fn copied(data: &[u8]) -> (r: Vec<u8>)
    ensures
        r@ == data@,
{
    let mut out: Vec<u8> = Vec::new();
    out.extend_from_slice(data);
    assert(out@ =~= data@);
    out
}

/// How an unsigned integer of one, two or four bytes is written: with the little byte order the
/// low byte first, with the big byte order the high byte first.
pub open spec fn written_unsigned(n: int, width: int, endian: Endian) -> Seq<u8> {
    let a = (n % 256) as u8;
    let b = (n / 256 % 256) as u8;
    let c = (n / 65_536 % 256) as u8;
    let d = (n / 16_777_216 % 256) as u8;
    if width == 1 {
        seq![a]
    } else if width == 2 {
        match endian {
            Endian::Little => seq![a, b],
            Endian::Big => seq![b, a],
        }
    } else {
        match endian {
            Endian::Little => seq![a, b, c, d],
            Endian::Big => seq![d, c, b, a],
        }
    }
}

/// How many values an integer of one, two or four bytes has.
pub open spec fn value_count(width: int) -> int {
    if width == 1 {
        256
    } else if width == 2 {
        65_536
    } else {
        4_294_967_296
    }
}

/// What is written in a byte order reads back in that order.
pub proof fn written_integers_read_back(n: int, width: int, endian: Endian)
    requires
        width == 1 || width == 2 || width == 4,
        0 <= n < value_count(width),
    ensures
        unsigned_value(written_unsigned(n, width, endian), endian) == n,
        written_unsigned(n, width, endian).len() == width,
{
    let bytes = written_unsigned(n, width, endian);
    spelled_out(bytes, endian);
    let q = n / 256;
    let r = n / 65_536;
    assert(n == 256 * q + n % 256);
    assert(r == q / 256);
    assert(q == 256 * r + q % 256);
    assert(n / 16_777_216 == r / 256);
    assert(r == 256 * (r / 256) + r % 256);
}

/// Bytes that read as a number are that number as it is written.
pub proof fn read_integers_are_written_so(bytes: Seq<u8>, endian: Endian)
    requires
        bytes.len() == 1 || bytes.len() == 2 || bytes.len() == 4,
    ensures
        0 <= unsigned_value(bytes, endian) < value_count(bytes.len() as int),
        written_unsigned(unsigned_value(bytes, endian) as int, bytes.len() as int, endian) == bytes,
{
    spelled_out(bytes, endian);
    let n = unsigned_value(bytes, endian) as int;
    let w = bytes.len() as int;
    let le = endian == Endian::Little;
    if w == 2 {
        if le {
            digits_come_apart(n, bytes[0] as int, bytes[1] as int, 0, 0);
        } else {
            digits_come_apart(n, bytes[1] as int, bytes[0] as int, 0, 0);
        }
    } else if w == 4 {
        if le {
            digits_come_apart(
                n,
                bytes[0] as int,
                bytes[1] as int,
                bytes[2] as int,
                bytes[3] as int,
            );
        } else {
            digits_come_apart(
                n,
                bytes[3] as int,
                bytes[2] as int,
                bytes[1] as int,
                bytes[0] as int,
            );
        }
    }
    assert(written_unsigned(n, w, endian) =~= bytes);
}

proof fn digits_come_apart(n: int, a: int, b: int, c: int, d: int)
    requires
        0 <= a < 256,
        0 <= b < 256,
        0 <= c < 256,
        0 <= d < 256,
        n == a + 256 * b + 65_536 * c + 16_777_216 * d,
    ensures
        n % 256 == a,
        n / 256 % 256 == b,
        n / 65_536 % 256 == c,
        n / 16_777_216 % 256 == d,
{
    assert(n / 256 == b + 256 * c + 65_536 * d);
    assert(n / 65_536 == c + 256 * d);
    assert(n / 16_777_216 == d);
}

proof fn spelled_out(bytes: Seq<u8>, endian: Endian)
    requires
        bytes.len() == 1 || bytes.len() == 2 || bytes.len() == 4,
    ensures
        bytes.len() == 1 ==> unsigned_value(bytes, endian) == bytes[0],
        bytes.len() == 2 && endian == Endian::Little ==> unsigned_value(bytes, endian) == bytes[0]
            + 256 * bytes[1],
        bytes.len() == 2 && endian == Endian::Big ==> unsigned_value(bytes, endian) == bytes[1]
            + 256 * bytes[0],
        bytes.len() == 4 && endian == Endian::Little ==> unsigned_value(bytes, endian) == bytes[0]
            + 256 * bytes[1] + 65_536 * bytes[2] + 16_777_216 * bytes[3],
        bytes.len() == 4 && endian == Endian::Big ==> unsigned_value(bytes, endian) == bytes[3]
            + 256 * bytes[2] + 65_536 * bytes[1] + 16_777_216 * bytes[0],
{
    reveal_with_fuel(unsigned_value, 5);
}

/// A double-precision number of the given sign, exponent and fraction is infinite or NaN exactly
/// where the exponent is the largest one, and NaN where the fraction is not zero then.
pub proof fn doubles_are_classified(sign: u64, exponent: u64, fraction: u64)
    requires
        sign <= 1,
        exponent <= 2_047,
        fraction < 0x10_0000_0000_0000,
    ensures
        ({
            let bits = (sign * 0x8000_0000_0000_0000 + exponent * 0x10_0000_0000_0000
                + fraction) as u64;
            &&& finite_64(F64Bits { bits }) <==> exponent < 2_047
            &&& nan_64(F64Bits { bits }) <==> exponent == 2_047 && fraction > 0
        }),
{
}

/// A single-precision number of the given sign, exponent and fraction is infinite or NaN exactly
/// where the exponent is the largest one, and NaN where the fraction is not zero then.
pub proof fn singles_are_classified(sign: u32, exponent: u32, fraction: u32)
    requires
        sign <= 1,
        exponent <= 255,
        fraction < 0x80_0000,
    ensures
        ({
            let bits = (sign * 0x8000_0000 + exponent * 0x80_0000 + fraction) as u32;
            &&& finite_32(F32Bits { bits }) <==> exponent < 255
            &&& nan_32(F32Bits { bits }) <==> exponent == 255 && fraction > 0
        }),
{
}

/// Numbers are equal as numbers: NaN equals nothing, the two zeros are equal, and any other number
/// equals only itself.
pub proof fn numbers_are_compared_as_numbers(a: u64, b: u64, x: u32, y: u32)
    ensures
        ({
            let p = F64Bits { bits: a };
            let q = F64Bits { bits: b };
            &&& nan_64(p) ==> !equal_64(p, q) && !equal_64(q, p)
            &&& !nan_64(p) ==> equal_64(p, p)
            &&& equal_64(F64Bits { bits: 0 }, F64Bits { bits: 0x8000_0000_0000_0000 })
            &&& equal_64(p, q) && a != b ==> (a == 0 || a == 0x8000_0000_0000_0000) && (b == 0 || b
                == 0x8000_0000_0000_0000)
        }),
        ({
            let p = F32Bits { bits: x };
            let q = F32Bits { bits: y };
            &&& nan_32(p) ==> !equal_32(p, q) && !equal_32(q, p)
            &&& !nan_32(p) ==> equal_32(p, p)
            &&& equal_32(F32Bits { bits: 0 }, F32Bits { bits: 0x8000_0000 })
            &&& equal_32(p, q) && x != y ==> (x == 0 || x == 0x8000_0000) && (y == 0 || y
                == 0x8000_0000)
        }),
{
}

} // verus!
