//! Variable-length unsigned integers of 1, 2, 4 or 8 bytes. The two most
//! significant bits of the first byte give the length; the remaining bits
//! hold the value in big-endian order.
use vstd::prelude::*;

use crate::error::DecodeError;
use crate::error::EncodeError;

verus! {

/// Largest value a variable-length integer can carry: 2^62 - 1.
pub const VARINT_MAX: u64 = 0x3fff_ffff_ffff_ffff;

/// Number of bytes that the encoding of `v` occupies.
pub open spec fn spec_varint_size(v: u64) -> nat {
    if v <= 63 {
        1
    } else if v <= 16383 {
        2
    } else if v <= 0x3fff_ffff {
        4
    } else {
        8
    }
}

/// The bytes that stand for `v`, meaningful for `v <= VARINT_MAX`.
pub open spec fn spec_encode_varint(v: u64) -> Seq<u8> {
    if v <= 63 {
        seq![v as u8]
    } else if v <= 16383 {
        seq![(0x40 + v / 0x100) as u8, (v % 0x100) as u8]
    } else if v <= 0x3fff_ffff {
        seq![
            (0x80 + v / 0x100_0000) as u8,
            (v / 0x1_0000 % 0x100) as u8,
            (v / 0x100 % 0x100) as u8,
            (v % 0x100) as u8,
        ]
    } else {
        seq![
            (0xc0 + v / 0x100_0000_0000_0000) as u8,
            (v / 0x1_0000_0000_0000 % 0x100) as u8,
            (v / 0x100_0000_0000 % 0x100) as u8,
            (v / 0x1_0000_0000 % 0x100) as u8,
            (v / 0x100_0000 % 0x100) as u8,
            (v / 0x1_0000 % 0x100) as u8,
            (v / 0x100 % 0x100) as u8,
            (v % 0x100) as u8,
        ]
    }
}

/// Length announced by the first byte of an encoding.
pub open spec fn spec_varint_announced(first: u8) -> nat {
    if first < 0x40 {
        1
    } else if first < 0x80 {
        2
    } else if first < 0xc0 {
        4
    } else {
        8
    }
}

/// The value that the first `spec_varint_announced(s[0])` bytes of `s` hold.
pub open spec fn spec_varint_value(s: Seq<u8>) -> int
    recommends
        s.len() >= 1,
        s.len() >= spec_varint_announced(s[0]),
{
    let n = spec_varint_announced(s[0]);
    let head = s[0] % 0x40;
    if n == 1 {
        head as int
    } else if n == 2 {
        head * 0x100 + s[1]
    } else if n == 4 {
        head * 0x100_0000 + s[1] * 0x1_0000 + s[2] * 0x100 + s[3]
    } else {
        head * 0x100_0000_0000_0000 + s[1] * 0x1_0000_0000_0000 + s[2] * 0x100_0000_0000 + s[3]
            * 0x1_0000_0000 + s[4] * 0x100_0000 + s[5] * 0x1_0000 + s[6] * 0x100 + s[7]
    }
}

/// Reads one integer from the front of `s`: the value and what follows it,
/// or `MissingField` where `s` ends too early.
pub open spec fn spec_decode_varint(s: Seq<u8>) -> Result<(u64, Seq<u8>), DecodeError> {
    if s.len() == 0 {
        Err(DecodeError::MissingField)
    } else if s.len() < spec_varint_announced(s[0]) {
        Err(DecodeError::MissingField)
    } else {
        Ok((spec_varint_value(s) as u64, s.skip(spec_varint_announced(s[0]) as int)))
    }
}

/// Every decoded value is at most `VARINT_MAX`.
pub proof fn lemma_varint_value_bounded(s: Seq<u8>)
    requires
        s.len() >= 1,
        s.len() >= spec_varint_announced(s[0]),
    ensures
        0 <= spec_varint_value(s) <= VARINT_MAX,
{
}

proof fn lemma_varint_bytes_2(v: u64)
    by (bit_vector)
    requires
        v <= 16383,
    ensures
        v / 0x100 < 0x40,
        (v / 0x100) * 0x100 + v % 0x100 == v,
{
}

proof fn lemma_varint_bytes_4(v: u64)
    by (bit_vector)
    requires
        v <= 0x3fff_ffff,
    ensures
        v / 0x100_0000 < 0x40,
        (v / 0x100_0000) * 0x100_0000 + (v / 0x1_0000 % 0x100) * 0x1_0000 + (v / 0x100 % 0x100)
            * 0x100 + v % 0x100 == v,
{
}

proof fn lemma_varint_bytes_8(v: u64)
    by (bit_vector)
    requires
        v <= 0x3fff_ffff_ffff_ffff,
    ensures
        v / 0x100_0000_0000_0000 < 0x40,
        (v / 0x100_0000_0000_0000) * 0x100_0000_0000_0000 + (v / 0x1_0000_0000_0000 % 0x100)
            * 0x1_0000_0000_0000 + (v / 0x100_0000_0000 % 0x100) * 0x100_0000_0000 + (v
            / 0x1_0000_0000 % 0x100) * 0x1_0000_0000 + (v / 0x100_0000 % 0x100) * 0x100_0000 + (v
            / 0x1_0000 % 0x100) * 0x1_0000 + (v / 0x100 % 0x100) * 0x100 + v % 0x100 == v,
{
}

/// Decoding what was encoded gives the value back and leaves what followed
/// it, for every value up to `VARINT_MAX`.
pub proof fn lemma_varint_round_trip(v: u64, rest: Seq<u8>)
    requires
        v <= VARINT_MAX,
    ensures
        spec_encode_varint(v).len() == spec_varint_size(v),
        spec_decode_varint(spec_encode_varint(v) + rest) == Ok::<(u64, Seq<u8>), DecodeError>(
            (v, rest),
        ),
{
    let e = spec_encode_varint(v);
    let s = e + rest;
    assert(s[0] == e[0]);
    assert(s.skip(e.len() as int) =~= rest);
    if v <= 63 {
    } else if v <= 16383 {
        lemma_varint_bytes_2(v);
        assert(s[1] == e[1]);
    } else if v <= 0x3fff_ffff {
        lemma_varint_bytes_4(v);
        assert(s[1] == e[1] && s[2] == e[2] && s[3] == e[3]);
    } else {
        lemma_varint_bytes_8(v);
        assert(s[1] == e[1] && s[2] == e[2] && s[3] == e[3] && s[4] == e[4] && s[5] == e[5]
            && s[6] == e[6] && s[7] == e[7]);
    }
}

/// Number of bytes that the encoding of `v` occupies.
pub fn varint_size(v: u64) -> (n: usize)
    ensures
        n == spec_varint_size(v),
{
    if v <= 63 {
        1
    } else if v <= 16383 {
        2
    } else if v <= 0x3fff_ffff {
        4
    } else {
        8
    }
}

/// Appends the encoding of `v` to `out`. Values above `VARINT_MAX` are
/// refused with `BoundsExceeded` and leave `out` as it was.
pub fn encode_varint(v: u64, out: &mut Vec<u8>) -> (r: Result<(), EncodeError>)
    ensures
        v <= VARINT_MAX ==> r is Ok && final(out)@ == old(out)@ + spec_encode_varint(v),
        v > VARINT_MAX ==> r == Err::<(), EncodeError>(EncodeError::BoundsExceeded) && final(out)@
            == old(out)@,
{
    if v > VARINT_MAX {
        return Err(EncodeError::BoundsExceeded);
    }
    if v <= 63 {
        out.push(v as u8);
    } else if v <= 16383 {
        out.push((0x40 + v / 0x100) as u8);
        out.push((v % 0x100) as u8);
    } else if v <= 0x3fff_ffff {
        out.push((0x80 + v / 0x100_0000) as u8);
        out.push((v / 0x1_0000 % 0x100) as u8);
        out.push((v / 0x100 % 0x100) as u8);
        out.push((v % 0x100) as u8);
    } else {
        out.push((0xc0 + v / 0x100_0000_0000_0000) as u8);
        out.push((v / 0x1_0000_0000_0000 % 0x100) as u8);
        out.push((v / 0x100_0000_0000 % 0x100) as u8);
        out.push((v / 0x1_0000_0000 % 0x100) as u8);
        out.push((v / 0x100_0000 % 0x100) as u8);
        out.push((v / 0x1_0000 % 0x100) as u8);
        out.push((v / 0x100 % 0x100) as u8);
        out.push((v % 0x100) as u8);
    }
    assert(out@ =~= old(out)@ + spec_encode_varint(v));
    Ok(())
}

/// Reads one integer at `pos`. On success the second component is the
/// position just behind it.
pub fn decode_varint_at(buf: &[u8], pos: usize) -> (r: Result<(u64, usize), DecodeError>)
    requires
        pos <= buf@.len(),
    ensures
        match r {
            Ok((v, next)) => pos < next <= buf@.len() && v <= VARINT_MAX && spec_decode_varint(
                buf@.skip(pos as int),
            ) == Ok::<(u64, Seq<u8>), DecodeError>((v, buf@.skip(next as int))),
            Err(e) => spec_decode_varint(buf@.skip(pos as int)) == Err::<
                (u64, Seq<u8>),
                DecodeError,
            >(e),
        },
{
    let ghost s = buf@.skip(pos as int);
    let len = buf.len();
    if pos >= len {
        return Err(DecodeError::MissingField);
    }
    let avail = len - pos;
    let first = buf[pos];
    assert(s[0] == first);
    let n: usize = if first < 0x40 {
        1
    } else if first < 0x80 {
        2
    } else if first < 0xc0 {
        4
    } else {
        8
    };
    if avail < n {
        return Err(DecodeError::MissingField);
    }
    let head: u64 = (first % 0x40) as u64;
    proof {
        assert forall|k: int| 0 <= k < n implies s[k] == buf@[pos + k] by {}
        assert(s.skip(n as int) =~= buf@.skip(pos + n));
        lemma_varint_value_bounded(s);
    }
    let v: u64 = if n == 1 {
        head
    } else if n == 2 {
        head * 0x100 + buf[pos + 1] as u64
    } else if n == 4 {
        head * 0x100_0000 + buf[pos + 1] as u64 * 0x1_0000 + buf[pos + 2] as u64 * 0x100 + buf[pos
            + 3] as u64
    } else {
        head * 0x100_0000_0000_0000 + buf[pos + 1] as u64 * 0x1_0000_0000_0000 + buf[pos
            + 2] as u64 * 0x100_0000_0000 + buf[pos + 3] as u64 * 0x1_0000_0000 + buf[pos
            + 4] as u64 * 0x100_0000 + buf[pos + 5] as u64 * 0x1_0000 + buf[pos + 6] as u64 * 0x100
            + buf[pos + 7] as u64
    };
    Ok((v, pos + n))
}

/// Reads one integer from the front of `buf`: the value and the number of
/// bytes it took.
pub fn decode_varint(buf: &[u8]) -> (r: Result<(u64, usize), DecodeError>)
    ensures
        match r {
            Ok((v, n)) => 0 < n <= buf@.len() && v <= VARINT_MAX && spec_decode_varint(buf@)
                == Ok::<(u64, Seq<u8>), DecodeError>((v, buf@.skip(n as int))),
            Err(e) => spec_decode_varint(buf@) == Err::<(u64, Seq<u8>), DecodeError>(e),
        },
{
    assert(buf@.skip(0) =~= buf@);
    decode_varint_at(buf, 0)
}

} // verus!
