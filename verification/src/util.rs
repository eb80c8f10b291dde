//! Numbers from raw bytes.

use vstd::prelude::*;
use num::complex::Complex;
use crate::endian::Endianness;
use crate::error::Error;
use crate::float::{Float32, Float64};

verus! {

/// 256 to the power `n`: how many values `n` bytes can spell.
pub open spec fn radix(n: nat) -> nat
    decreases n,
{
    if n == 0 {
        1
    } else {
        256 * radix((n - 1) as nat)
    }
}

/// The number that bytes spell with the most significant byte first.
pub open spec fn unsigned_be(s: Seq<u8>) -> nat
    decreases s.len(),
{
    if s.len() == 0 {
        0
    } else {
        unsigned_be(s.drop_last()) * 256 + s.last() as nat
    }
}

/// The number that bytes spell with the least significant byte first.
pub open spec fn unsigned_le(s: Seq<u8>) -> nat
    decreases s.len(),
{
    if s.len() == 0 {
        0
    } else {
        s.first() as nat + 256 * unsigned_le(s.drop_first())
    }
}

/// The unsigned number that bytes spell in a byte order.
pub open spec fn unsigned_value(s: Seq<u8>, endianness: Endianness) -> nat {
    match endianness {
        Endianness::Big => unsigned_be(s),
        Endianness::Little => unsigned_le(s),
    }
}

/// The two's complement reading of bytes in a byte order: the upper half of
/// the unsigned range stands for the negative numbers.
pub open spec fn signed_value(s: Seq<u8>, endianness: Endianness) -> int {
    let u = unsigned_value(s, endianness);
    if 2 * u >= radix(s.len()) {
        u - radix(s.len())
    } else {
        u as int
    }
}

/// The first values of `radix`.
pub proof fn lemma_radix_values()
    ensures
        radix(0) == 1,
        radix(1) == 0x100,
        radix(2) == 0x1_0000,
        radix(3) == 0x100_0000,
        radix(4) == 0x1_0000_0000,
        radix(5) == 0x100_0000_0000,
        radix(6) == 0x1_0000_0000_0000,
        radix(7) == 0x100_0000_0000_0000,
        radix(8) == 0x1_0000_0000_0000_0000,
{
    reveal_with_fuel(radix, 9);
}

/// `radix` grows with its argument.
pub proof fn lemma_radix_monotonic(a: nat, b: nat)
    requires
        a <= b,
    ensures
        0 < radix(a) <= radix(b),
    decreases b,
{
    if b == 0 {
    } else if a == b {
        lemma_radix_monotonic((a - 1) as nat, (b - 1) as nat);
    } else {
        lemma_radix_monotonic(a, (b - 1) as nat);
    }
}

/// Bytes spell a number below `radix` of their count, in either order.
pub proof fn lemma_unsigned_bound(s: Seq<u8>, endianness: Endianness)
    ensures
        unsigned_value(s, endianness) < radix(s.len()),
    decreases s.len(),
{
    if s.len() > 0 {
        match endianness {
            Endianness::Big => lemma_unsigned_bound(s.drop_last(), endianness),
            Endianness::Little => lemma_unsigned_bound(s.drop_first(), endianness),
        }
    }
}

/// The unsigned number that at most eight bytes spell.
fn unsigned_of(v: &[u8], endianness: Endianness) -> (r: u64)
    requires
        v@.len() <= 8,
    ensures
        r == unsigned_value(v@, endianness),
        r < radix(v@.len()),
{
    let n = v.len();
    let mut acc: u64 = 0;
    proof {
        lemma_radix_values();
    }
    match endianness {
        Endianness::Big => {
            let mut i: usize = 0;
            while i < n
                invariant
                    i <= n,
                    n == v@.len(),
                    n <= 8,
                    acc == unsigned_be(v@.take(i as int)),
                    acc < radix(i as nat),
                decreases n - i,
            {
                proof {
                    lemma_radix_monotonic((i + 1) as nat, 8);
                    lemma_radix_values();
                    assert(v@.take(i + 1).drop_last() == v@.take(i as int));
                }
                acc = acc * 256 + v[i] as u64;
                i += 1;
            }
            proof {
                assert(v@.take(n as int) == v@);
            }
        },
        Endianness::Little => {
            let mut i: usize = n;
            while i > 0
                invariant
                    i <= n,
                    n == v@.len(),
                    n <= 8,
                    acc == unsigned_le(v@.skip(i as int)),
                    acc < radix((n - i) as nat),
                decreases i,
            {
                proof {
                    lemma_radix_monotonic((n - i + 1) as nat, 8);
                    lemma_radix_values();
                    assert(v@.skip(i - 1).drop_first() == v@.skip(i as int));
                }
                i -= 1;
                acc = acc * 256 + v[i] as u64;
            }
            proof {
                assert(v@.skip(0) == v@);
            }
        },
    }
    acc
}

/// The bytes of a file from `start` on; none where the file ends before.
pub open spec fn bytes_from(file: Seq<u8>, start: int) -> Seq<u8> {
    if 0 <= start <= file.len() {
        file.skip(start)
    } else {
        Seq::empty()
    }
}

/// The sum of two counts of bytes, held at the largest count that fits.
pub open spec fn capped_sum(a: usize, b: usize) -> usize {
    if a + b > usize::MAX {
        usize::MAX
    } else {
        (a + b) as usize
    }
}

/// Appending one item and then a sequence is appending the sequence with the
/// item before it.
pub proof fn lemma_push_then_concat<T>(a: Seq<T>, x: T, b: Seq<T>)
    ensures
        a.push(x) + b == a + (seq![x] + b),
{
}

/// The two's complement reading of bytes lies in the signed range of their
/// count.
pub proof fn lemma_signed_range(s: Seq<u8>, endianness: Endianness)
    ensures
        -(radix(s.len()) as int) <= 2 * signed_value(s, endianness) < radix(s.len()),
{
    lemma_unsigned_bound(s, endianness);
}

/// What `byte_to_i8` returns: the byte as a number where it is at most 127.
pub open spec fn spec_byte_to_i8(v: u8) -> Result<i8, Error> {
    if v <= 127 {
        Ok(v as i8)
    } else {
        Err(Error::ByteConversionError)
    }
}

/// What `bytes_to_i16` returns: the two's complement reading of exactly two bytes.
pub open spec fn spec_bytes_to_i16(v: Seq<u8>, endianness: Endianness) -> Result<i16, Error> {
    if v.len() == 2 {
        Ok(signed_value(v, endianness) as i16)
    } else {
        Err(Error::ByteConversionError)
    }
}

/// What `bytes_to_i32` returns: the two's complement reading of exactly four bytes.
pub open spec fn spec_bytes_to_i32(v: Seq<u8>, endianness: Endianness) -> Result<i32, Error> {
    if v.len() == 4 {
        Ok(signed_value(v, endianness) as i32)
    } else {
        Err(Error::ByteConversionError)
    }
}

/// What `bytes_to_i64` returns: the two's complement reading of exactly eight bytes.
pub open spec fn spec_bytes_to_i64(v: Seq<u8>, endianness: Endianness) -> Result<i64, Error> {
    if v.len() == 8 {
        Ok(signed_value(v, endianness) as i64)
    } else {
        Err(Error::ByteConversionError)
    }
}

/// What `bytes_to_f32` returns: exactly four bytes spell the bit pattern.
pub open spec fn spec_bytes_to_f32(v: Seq<u8>, endianness: Endianness) -> Result<Float32, Error> {
    if v.len() == 4 {
        Ok(Float32 { bits: unsigned_value(v, endianness) as u32 })
    } else {
        Err(Error::ByteConversionError)
    }
}

/// What `bytes_to_f64` returns: exactly eight bytes spell the bit pattern.
pub open spec fn spec_bytes_to_f64(v: Seq<u8>, endianness: Endianness) -> Result<Float64, Error> {
    if v.len() == 8 {
        Ok(Float64 { bits: unsigned_value(v, endianness) as u64 })
    } else {
        Err(Error::ByteConversionError)
    }
}

/// Reads a byte as a signed 8-bit number. A byte above 127 is no such number
/// and is refused.
pub fn byte_to_i8(v: u8) -> (r: Result<i8, Error>)
    ensures
        r == spec_byte_to_i8(v),
        v <= 127 ==> r is Ok && r->Ok_0 == v,
{
    if v <= 127 {
        Ok(v as i8)
    } else {
        Err(Error::ByteConversionError)
    }
}

/// Reads exactly two bytes as a signed 16-bit number in the given byte order.
pub fn bytes_to_i16(v: &[u8], endianness: Endianness) -> (r: Result<i16, Error>)
    ensures
        r == spec_bytes_to_i16(v@, endianness),
        v@.len() == 2 ==> r is Ok && r->Ok_0 == signed_value(v@, endianness),
{
    if v.len() != 2 {
        return Err(Error::ByteConversionError);
    }
    let u = unsigned_of(v, endianness);
    proof {
        lemma_radix_values();
    }
    if u >= 0x8000 {
        Ok(((u - 0x8000) as i16) + i16::MIN)
    } else {
        Ok(u as i16)
    }
}

/// Reads exactly four bytes as a signed 32-bit number in the given byte order.
pub fn bytes_to_i32(v: &[u8], endianness: Endianness) -> (r: Result<i32, Error>)
    ensures
        r == spec_bytes_to_i32(v@, endianness),
        v@.len() == 4 ==> r is Ok && r->Ok_0 == signed_value(v@, endianness),
{
    if v.len() != 4 {
        return Err(Error::ByteConversionError);
    }
    let u = unsigned_of(v, endianness);
    proof {
        lemma_radix_values();
    }
    if u >= 0x8000_0000 {
        Ok(((u - 0x8000_0000) as i32) + i32::MIN)
    } else {
        Ok(u as i32)
    }
}

/// Reads exactly eight bytes as a signed 64-bit number in the given byte order.
pub fn bytes_to_i64(v: &[u8], endianness: Endianness) -> (r: Result<i64, Error>)
    ensures
        r == spec_bytes_to_i64(v@, endianness),
        v@.len() == 8 ==> r is Ok && r->Ok_0 == signed_value(v@, endianness),
{
    if v.len() != 8 {
        return Err(Error::ByteConversionError);
    }
    let u = unsigned_of(v, endianness);
    proof {
        lemma_radix_values();
    }
    if u >= 0x8000_0000_0000_0000 {
        Ok(((u - 0x8000_0000_0000_0000) as i64) + i64::MIN)
    } else {
        Ok(u as i64)
    }
}

/// Reads exactly four bytes as a single-precision number in the given byte
/// order: the bytes spell its bit pattern.
pub fn bytes_to_f32(v: &[u8], endianness: Endianness) -> (r: Result<Float32, Error>)
    ensures
        r == spec_bytes_to_f32(v@, endianness),
        v@.len() == 4 ==> r is Ok && r->Ok_0.bits == unsigned_value(v@, endianness),
{
    if v.len() != 4 {
        return Err(Error::ByteConversionError);
    }
    let u = unsigned_of(v, endianness);
    proof {
        lemma_radix_values();
    }
    Ok(Float32 { bits: u as u32 })
}

/// Reads exactly eight bytes as a double-precision number in the given byte
/// order: the bytes spell its bit pattern.
pub fn bytes_to_f64(v: &[u8], endianness: Endianness) -> (r: Result<Float64, Error>)
    ensures
        r == spec_bytes_to_f64(v@, endianness),
        v@.len() == 8 ==> r is Ok && r->Ok_0.bits == unsigned_value(v@, endianness),
{
    if v.len() != 8 {
        return Err(Error::ByteConversionError);
    }
    let u = unsigned_of(v, endianness);
    Ok(Float64 { bits: u })
}

/// A complex number of the given parts.
pub open spec fn complex<T>(re: T, im: T) -> Complex<T> {
    Complex { re, im }
}

/// What `bytes_to_complex_i8` returns: the first byte is the real part, the
/// second the imaginary part; a byte above 127 is refused, the real part's
/// first.
pub open spec fn spec_bytes_to_complex_i8(v: Seq<u8>) -> Result<Complex<i8>, Error> {
    if v.len() < 2 || v[0] > 127 || v[1] > 127 {
        Err(Error::ByteConversionError)
    } else {
        Ok(complex(v[0] as i8, v[1] as i8))
    }
}

/// What `bytes_to_complex_i16` returns: two 16-bit numbers one after the
/// other, the real part first.
pub open spec fn spec_bytes_to_complex_i16(v: Seq<u8>, endianness: Endianness) -> Result<
    Complex<i16>,
    Error,
> {
    if v.len() < 4 {
        Err(Error::ByteConversionError)
    } else {
        Ok(
            complex(
                signed_value(v.subrange(0, 2), endianness) as i16,
                signed_value(v.subrange(2, 4), endianness) as i16,
            ),
        )
    }
}

/// What `bytes_to_complex_i32` returns: two 32-bit numbers one after the
/// other, the real part first.
pub open spec fn spec_bytes_to_complex_i32(v: Seq<u8>, endianness: Endianness) -> Result<
    Complex<i32>,
    Error,
> {
    if v.len() < 8 {
        Err(Error::ByteConversionError)
    } else {
        Ok(
            complex(
                signed_value(v.subrange(0, 4), endianness) as i32,
                signed_value(v.subrange(4, 8), endianness) as i32,
            ),
        )
    }
}

/// What `bytes_to_complex_i64` returns: two 64-bit numbers one after the
/// other, the real part first.
pub open spec fn spec_bytes_to_complex_i64(v: Seq<u8>, endianness: Endianness) -> Result<
    Complex<i64>,
    Error,
> {
    if v.len() < 16 {
        Err(Error::ByteConversionError)
    } else {
        Ok(
            complex(
                signed_value(v.subrange(0, 8), endianness) as i64,
                signed_value(v.subrange(8, 16), endianness) as i64,
            ),
        )
    }
}

/// What `bytes_to_complex_f32` returns: two single-precision bit patterns one
/// after the other, the real part first.
pub open spec fn spec_bytes_to_complex_f32(v: Seq<u8>, endianness: Endianness) -> Result<
    Complex<Float32>,
    Error,
> {
    if v.len() < 8 {
        Err(Error::ByteConversionError)
    } else {
        Ok(
            complex(
                Float32 { bits: unsigned_value(v.subrange(0, 4), endianness) as u32 },
                Float32 { bits: unsigned_value(v.subrange(4, 8), endianness) as u32 },
            ),
        )
    }
}

/// What `bytes_to_complex_f64` returns: two double-precision bit patterns one
/// after the other, the real part first.
pub open spec fn spec_bytes_to_complex_f64(v: Seq<u8>, endianness: Endianness) -> Result<
    Complex<Float64>,
    Error,
> {
    if v.len() < 16 {
        Err(Error::ByteConversionError)
    } else {
        Ok(
            complex(
                Float64 { bits: unsigned_value(v.subrange(0, 8), endianness) as u64 },
                Float64 { bits: unsigned_value(v.subrange(8, 16), endianness) as u64 },
            ),
        )
    }
}

/// Reads two bytes as a complex number of signed 8-bit parts (CB).
pub fn bytes_to_complex_i8(v: &[u8]) -> (r: Result<Complex<i8>, Error>)
    ensures
        r == spec_bytes_to_complex_i8(v@),
{
    if v.len() < 2 {
        return Err(Error::ByteConversionError);
    }
    let re: i8 = byte_to_i8(v[0])?;
    let im: i8 = byte_to_i8(v[1])?;
    Ok(Complex::<i8>::new(re, im))
}

/// Reads four bytes as a complex number of signed 16-bit parts (CI).
pub fn bytes_to_complex_i16(v: &[u8], endianness: Endianness) -> (r: Result<Complex<i16>, Error>)
    ensures
        r == spec_bytes_to_complex_i16(v@, endianness),
{
    if v.len() < 4 {
        return Err(Error::ByteConversionError);
    }
    let re: i16 = bytes_to_i16(&v[0..2], endianness)?;
    let im: i16 = bytes_to_i16(&v[2..4], endianness)?;
    Ok(Complex::<i16>::new(re, im))
}

/// Reads eight bytes as a complex number of signed 32-bit parts (CL).
pub fn bytes_to_complex_i32(v: &[u8], endianness: Endianness) -> (r: Result<Complex<i32>, Error>)
    ensures
        r == spec_bytes_to_complex_i32(v@, endianness),
{
    if v.len() < 8 {
        return Err(Error::ByteConversionError);
    }
    let re: i32 = bytes_to_i32(&v[0..4], endianness)?;
    let im: i32 = bytes_to_i32(&v[4..8], endianness)?;
    Ok(Complex::<i32>::new(re, im))
}

/// Reads sixteen bytes as a complex number of signed 64-bit parts (CX).
pub fn bytes_to_complex_i64(v: &[u8], endianness: Endianness) -> (r: Result<Complex<i64>, Error>)
    ensures
        r == spec_bytes_to_complex_i64(v@, endianness),
{
    if v.len() < 16 {
        return Err(Error::ByteConversionError);
    }
    let re: i64 = bytes_to_i64(&v[0..8], endianness)?;
    let im: i64 = bytes_to_i64(&v[8..16], endianness)?;
    Ok(Complex::<i64>::new(re, im))
}

/// Reads eight bytes as a complex number of single-precision parts (CF).
pub fn bytes_to_complex_f32(v: &[u8], endianness: Endianness) -> (r: Result<
    Complex<Float32>,
    Error,
>)
    ensures
        r == spec_bytes_to_complex_f32(v@, endianness),
{
    if v.len() < 8 {
        return Err(Error::ByteConversionError);
    }
    let re: Float32 = bytes_to_f32(&v[0..4], endianness)?;
    let im: Float32 = bytes_to_f32(&v[4..8], endianness)?;
    Ok(Complex::<Float32>::new(re, im))
}

/// Reads sixteen bytes as a complex number of double-precision parts (CD).
pub fn bytes_to_complex_f64(v: &[u8], endianness: Endianness) -> (r: Result<
    Complex<Float64>,
    Error,
>)
    ensures
        r == spec_bytes_to_complex_f64(v@, endianness),
{
    if v.len() < 16 {
        return Err(Error::ByteConversionError);
    }
    let re: Float64 = bytes_to_f64(&v[0..8], endianness)?;
    let im: Float64 = bytes_to_f64(&v[8..16], endianness)?;
    Ok(Complex::<Float64>::new(re, im))
}

} // verus!
