//! Varint: a variable-length encoding of 64-bit integers.  Each encoded byte
//! carries 7 payload bits in its low bits, least-significant group first, and
//! uses its high bit as a continuation flag: 1 means more bytes follow, 0
//! marks the last byte.  A `u64` encodes to between 1 and 10 bytes; signed
//! values go through the zig-zag transform first.

use vstd::arithmetic::div_mod::lemma_multiply_divide_lt;
use vstd::arithmetic::power2::lemma2_to64;
use vstd::arithmetic::power2::lemma2_to64_rest;
use vstd::arithmetic::power2::lemma_pow2_adds;
use vstd::arithmetic::power2::lemma_pow2_pos;
use vstd::arithmetic::power2::lemma_pow2_strictly_increases;
use vstd::arithmetic::power2::pow2;
use vstd::prelude::*;

use crate::zigzag::ZagZig;
use crate::zigzag::ZigZag;

verus! {

/// Maximum length in bytes of a varint-encoded 16-bit integer
pub const MAX_VARINT_LEN_U16: usize = 3;

/// Maximum length in bytes of a varint-encoded 32-bit integer
pub const MAX_VARINT_LEN_U32: usize = 5;

/// Maximum length in bytes of a varint-encoded 64-bit integer
pub const MAX_VARINT_LEN_U64: usize = 10;

/// The continuation flag: the high bit of each encoded byte
const OVERFLOW_U8: u8 = 0x80;

/// The continuation flag's value as a `u64`
const OVERFLOW: u64 = 0x80;

/// The 7 payload bits of an encoded byte, as a `u64`
const MASK: u64 = 0x7f;

/// How a decode of malformed input fails; each variant carries the number of
/// bytes already consumed when the failure was found.
#[derive(Debug, PartialEq, Eq, Hash)]
pub enum ErrorKind {
    /// Ten bytes were consumed and the continuation bit was still set: no
    /// valid 64-bit varint is this long, so the input is corrupt.
    Overflow(usize),
    /// The input ended before a byte with a clear continuation bit and before
    /// the ten-byte limit: the input is a truncated varint.
    ShortOfData(usize),
}

/// Whether the continuation bit of an encoded byte is set
pub open spec fn continues(b: u8) -> bool {
    b >= 0x80
}

/// The 7 payload bits of an encoded byte
pub open spec fn payload(b: u8) -> u64 {
    (b as u64) & 0x7f
}

/// The varint encoding of `n`: its 7-bit groups, least significant first,
/// each with the continuation bit set except the last.
pub open spec fn spec_put_u64(n: u64) -> Seq<u8>
    decreases n,
{
    if n < 0x80 {
        seq![n as u8]
    } else {
        seq![(n % 0x80 + 0x80) as u8] + spec_put_u64(n / 0x80)
    }
}

/// What decoding yields once `read` bytes with set continuation bits have
/// accumulated into `acc`: the payload of each byte at position `i` lands at
/// bit `7 * i` of the result.  Ten consumed bytes without a terminal byte are
/// an overflow; exhausted input before that is a truncation.
pub open spec fn spec_get_u64_from(data: Seq<u8>, read: nat, acc: u64) -> Result<
    (u64, usize),
    ErrorKind,
>
    decreases 10 - read,
{
    if read >= 10 {
        Err(ErrorKind::Overflow(10))
    } else if read >= data.len() {
        Err(ErrorKind::ShortOfData(read as usize))
    } else if !continues(data[read as int]) {
        Ok((acc | (payload(data[read as int]) << ((7 * read) as u64)), (read + 1) as usize))
    } else {
        spec_get_u64_from(data, read + 1, acc | (payload(data[read as int]) << ((7 * read) as u64)))
    }
}

/// What decoding a byte sequence as an unsigned 64-bit varint yields
pub open spec fn spec_get_u64(data: Seq<u8>) -> Result<(u64, usize), ErrorKind> {
    spec_get_u64_from(data, 0, 0)
}

/// What decoding a byte sequence as a zig-zag encoded signed 64-bit varint
/// yields: the unsigned decode's value put through zig-zag decoding, with the
/// byte count and any error unchanged.
pub open spec fn spec_get_i64(data: Seq<u8>) -> Result<(i64, usize), ErrorKind> {
    match spec_get_u64(data) {
        Ok((v, n)) => Ok((v.spec_zagzig(), n)),
        Err(e) => Err(e),
    }
}

/// The encoding of a value below `pow2(7 * k)` takes at most `k` bytes.
proof fn lemma_spec_put_u64_len_bounded(n: u64, k: nat)
    requires
        1 <= k,
        n < pow2(7 * k),
    ensures
        spec_put_u64(n).len() <= k,
    decreases k,
{
    if n >= 0x80 {
        lemma2_to64();
        if k == 1 {
            assert(false);
        } else {
            lemma_pow2_adds(7, (7 * (k - 1)) as nat);
            lemma_pow2_pos(7 * (k - 1) as nat);
            lemma_multiply_divide_lt(n as int, pow2(7 * (k - 1) as nat) as int, 0x80);
            lemma_spec_put_u64_len_bounded(n / 0x80, (k - 1) as nat);
        }
    }
}

/// Length bound: every `u64` encodes to between 1 and 10 bytes.
pub proof fn lemma_put_u64_len(n: u64)
    ensures
        1 <= spec_put_u64(n).len() <= MAX_VARINT_LEN_U64,
{
    lemma2_to64();
    lemma2_to64_rest();
    lemma_pow2_strictly_increases(64, 70);
    lemma_spec_put_u64_len_bounded(n, 10);
}

/// Every byte of an encoding has its continuation bit set except the last,
/// which has it clear.
proof fn lemma_put_u64_bytes(n: u64)
    ensures
        forall|i: int|
            0 <= i < spec_put_u64(n).len() - 1 ==> continues(#[trigger] spec_put_u64(n)[i]),
        !continues(spec_put_u64(n)[spec_put_u64(n).len() - 1]),
    decreases n,
{
    if n >= 0x80 {
        lemma_put_u64_bytes(n / 0x80);
    }
}

/// Decoding from position `read` of data that carries the encoding of `v`
/// there consumes exactly that encoding and lands `v` at bit `7 * read` of
/// the result.
proof fn lemma_get_from_encoding(data: Seq<u8>, v: u64, read: nat, acc: u64)
    requires
        read + spec_put_u64(v).len() <= 10,
        data.len() >= read + spec_put_u64(v).len(),
        data.subrange(read as int, (read + spec_put_u64(v).len()) as int) == spec_put_u64(v),
        v <= u64::MAX >> ((7 * read) as u64),
    ensures
        spec_get_u64_from(data, read, acc) == Ok::<_, ErrorKind>(
            (
                acc | (v << ((7 * read) as u64)),
                (read + spec_put_u64(v).len()) as usize,
            ),
        ),
    decreases v,
{
    let s = (7 * read) as u64;
    let b = data[read as int];
    assert(b == spec_put_u64(v)[0]);
    if v < 0x80 {
        assert(b == v as u8);
        assert(v < 0x80 ==> ((v as u8) as u64) & 0x7f == v) by (bit_vector);
        assert(payload(b) == v);
    } else {
        assert(b == (v % 0x80 + 0x80) as u8);
        assert(((v % 0x80 + 0x80) as u8 as u64) & 0x7f == v % 0x80) by (bit_vector);
        assert(payload(b) == v % 0x80);
        assert(continues(b));
        let v2 = v / 0x80;
        let acc2 = acc | (payload(b) << s);
        let s2 = (7 * (read + 1)) as u64;
        assert(spec_put_u64(v).len() == 1 + spec_put_u64(v2).len());
        assert(s <= 56) by {
            lemma_put_u64_len(v2);
        }
        assert(s2 == s + 7);
        assert(v <= u64::MAX >> s && s <= 56 && s2 == s + 7 ==> v / 0x80 <= u64::MAX >> s2)
            by (bit_vector);
        assert(data.subrange(
            (read + 1) as int,
            (read + 1 + spec_put_u64(v2).len()) as int,
        ) =~= spec_put_u64(v).subrange(1, spec_put_u64(v).len() as int));
        assert(spec_put_u64(v).subrange(1, spec_put_u64(v).len() as int) =~= spec_put_u64(v2));
        lemma_get_from_encoding(data, v2, read + 1, acc2);
        assert(v <= u64::MAX >> s && s <= 56 && s2 == s + 7 ==> v << s == ((v % 0x80) << s) | ((v
            / 0x80) << s2)) by (bit_vector);
        assert(forall|a: u64, x: u64, y: u64| #[trigger] (a | (x | y)) == (a | x) | y)
            by (bit_vector);
        assert(acc | (v << s) == acc2 | (v2 << s2));
    }
}

/// Round trip (unsigned): decoding an encoding gives back the encoded value
/// and the encoding's full length.
pub proof fn lemma_put_get_roundtrip_u64(v: u64)
    ensures
        spec_get_u64(spec_put_u64(v)) == Ok::<_, ErrorKind>(
            (v, spec_put_u64(v).len() as usize),
        ),
{
    lemma_put_u64_len(v);
    assert(v <= u64::MAX >> ((7 * 0) as u64)) by (bit_vector);
    assert(spec_put_u64(v).subrange(0, spec_put_u64(v).len() as int) =~= spec_put_u64(v));
    lemma_get_from_encoding(spec_put_u64(v), v, 0, 0);
    assert(0u64 | (v << ((7 * 0) as u64)) == v) by (bit_vector);
}

/// Round trip (signed): decoding the encoding of a zig-zag transformed value
/// gives back the value and the encoding's full length.
pub proof fn lemma_put_get_roundtrip_i64(v: i64)
    ensures
        spec_get_i64(spec_put_u64(v.spec_zigzag())) == Ok::<_, ErrorKind>(
            (v, spec_put_u64(v.spec_zigzag()).len() as usize),
        ),
{
    lemma_put_get_roundtrip_u64(v.spec_zigzag());
    crate::zigzag::lemma_zigzag_roundtrip_i64(v);
}

/// Input that ends while every byte still has its continuation bit set, and
/// before the ten-byte limit, decodes to `ShortOfData` with the input length.
proof fn lemma_short_from(data: Seq<u8>, read: nat, acc: u64)
    requires
        data.len() < 10,
        read <= data.len(),
        forall|i: int| read <= i < data.len() ==> continues(#[trigger] data[i]),
    ensures
        spec_get_u64_from(data, read, acc) == Err::<(u64, usize), _>(
            ErrorKind::ShortOfData(data.len() as usize),
        ),
    decreases data.len() - read,
{
    if read < data.len() {
        lemma_short_from(data, read + 1, acc | (payload(data[read as int]) << ((7 * read) as u64)));
    }
}

/// Truncation detection: decoding any strict prefix of an encoding yields
/// `ShortOfData` carrying the prefix's length.
pub proof fn lemma_truncated_encoding(v: u64, l: int)
    requires
        0 <= l < spec_put_u64(v).len(),
    ensures
        spec_get_u64(spec_put_u64(v).take(l)) == Err::<(u64, usize), _>(
            ErrorKind::ShortOfData(l as usize),
        ),
{
    lemma_put_u64_len(v);
    lemma_put_u64_bytes(v);
    lemma_short_from(spec_put_u64(v).take(l), 0, 0);
}

/// Ten bytes with set continuation bits, wherever the input ends after them,
/// decode to `Overflow` after consuming ten bytes.
proof fn lemma_overflow_from(data: Seq<u8>, read: nat, acc: u64)
    requires
        read <= 10,
        data.len() >= 10,
        forall|i: int| read <= i < 10 ==> continues(#[trigger] data[i]),
    ensures
        spec_get_u64_from(data, read, acc) == Err::<(u64, usize), _>(ErrorKind::Overflow(10)),
    decreases 10 - read,
{
    if read < 10 {
        lemma_overflow_from(
            data,
            read + 1,
            acc | (payload(data[read as int]) << ((7 * read) as u64)),
        );
    }
}

/// Overflow detection: input whose first ten bytes all have their
/// continuation bit set decodes to `Overflow(10)`, whatever follows.
pub proof fn lemma_overflow(data: Seq<u8>)
    requires
        data.len() >= 10,
        forall|i: int| 0 <= i < 10 ==> continues(#[trigger] data[i]),
    ensures
        spec_get_u64(data) == Err::<(u64, usize), _>(ErrorKind::Overflow(10)),
{
    lemma_overflow_from(data, 0, 0);
}

/// A byte with a clear continuation bit within the first ten positions ends
/// the decode successfully, consuming the bytes up to and including it.
proof fn lemma_terminal_from(data: Seq<u8>, read: nat, acc: u64, i: int)
    requires
        read <= i < 10,
        i < data.len(),
        !continues(data[i]),
        forall|j: int| read <= j < i ==> continues(#[trigger] data[j]),
    ensures
        spec_get_u64_from(data, read, acc) is Ok,
        spec_get_u64_from(data, read, acc)->Ok_0.1 == i + 1,
    decreases i - read,
{
    if read < i {
        lemma_terminal_from(
            data,
            read + 1,
            acc | (payload(data[read as int]) << ((7 * read) as u64)),
            i,
        );
    }
}

/// Successful termination at the limit: if the first clear continuation bit
/// sits at position `i` within the first ten bytes, decoding succeeds and
/// consumes exactly `i + 1` bytes.  In particular ten bytes whose tenth has
/// the bit clear decode successfully.
pub proof fn lemma_terminal_in_bounds(data: Seq<u8>, i: int)
    requires
        0 <= i < 10,
        i < data.len(),
        !continues(data[i]),
        forall|j: int| 0 <= j < i ==> continues(#[trigger] data[j]),
    ensures
        spec_get_u64(data) is Ok,
        spec_get_u64(data)->Ok_0.1 == i + 1,
{
    lemma_terminal_from(data, 0, 0, i);
}

/// Encodes a u64 value and appends it to the buffer, returning the number of
/// bytes written.  Existing buffer content is kept.
pub fn put_u64(buf: &mut Vec<u8>, num: u64) -> (written: usize)
    ensures
        final(buf)@ == old(buf)@ + spec_put_u64(num),
        written == spec_put_u64(num).len(),
        1 <= written <= MAX_VARINT_LEN_U64,
{
    proof {
        lemma_put_u64_len(num);
    }
    let ghost buf0: Seq<u8> = buf@;
    let mut n: u64 = num;
    let mut written: usize = 0;
    while n >= OVERFLOW
        invariant
            buf0 + spec_put_u64(num) == buf@ + spec_put_u64(n),
            written == buf@.len() - buf0.len(),
            written + spec_put_u64(n).len() == spec_put_u64(num).len(),
            spec_put_u64(num).len() <= 10,
        decreases n,
    {
        let b: u8 = (#[verifier::truncate] (n as u8)) | OVERFLOW_U8;
        proof {
            assert(n >= 0x80 ==> ((n as u8) | 0x80u8) == n % 0x80 + 0x80) by (bit_vector);
            assert(n >> 7u64 == n / 0x80) by (bit_vector);
            assert(buf0 + spec_put_u64(num) =~= (buf@ + seq![b]) + spec_put_u64(n / 0x80));
        }
        buf.push(b);
        n = n >> 7u64;
        written = written + 1;
    }
    proof {
        assert(buf0 + spec_put_u64(num) =~= (buf@ + seq![n as u8]));
    }
    buf.push(n as u8);
    written + 1
}

/// Encodes an i64 value by zig-zag transforming it and appending its varint
/// encoding to the buffer, returning the number of bytes written.
pub fn put_i64(buf: &mut Vec<u8>, num: i64) -> (written: usize)
    ensures
        final(buf)@ == old(buf)@ + spec_put_u64(num.spec_zigzag()),
        written == spec_put_u64(num.spec_zigzag()).len(),
        1 <= written <= MAX_VARINT_LEN_U64,
{
    put_u64(buf, num.zigzag())
}

/// Decodes a u64 from the given bytes, returning the value and the number of
/// bytes consumed, or the error that [`spec_get_u64`] assigns to the input.
pub fn get_u64(data: &[u8]) -> (r: Result<(u64, usize), ErrorKind>)
    ensures
        r == spec_get_u64(data@),
{
    let mut read: usize = 0;
    let mut res: u64 = 0;
    let mut bit_shift: u64 = 0;

    while read < data.len() && read < MAX_VARINT_LEN_U64
        invariant
            read <= 10,
            read <= data@.len(),
            bit_shift == 7 * read,
            spec_get_u64(data@) == spec_get_u64_from(data@, read as nat, res),
        decreases 10 - read,
    {
        let byte: u8 = *vstd::slice::slice_index_get(data, read);

        res = res | (((byte as u64) & MASK) << bit_shift);
        if byte < OVERFLOW_U8 {
            return Ok((res, read + 1));
        }

        bit_shift = bit_shift + 7;
        read = read + 1;
    }

    if read == MAX_VARINT_LEN_U64 {
        return Err(ErrorKind::Overflow(read));
    }

    Err(ErrorKind::ShortOfData(read))
}

/// Decodes an i64 from the given bytes: the unsigned decode's value put
/// through zig-zag decoding, with the byte count and any error unchanged.
pub fn get_i64(data: &[u8]) -> (r: Result<(i64, usize), ErrorKind>)
    ensures
        r == spec_get_i64(data@),
{
    match get_u64(data) {
        Ok((uint, read)) => Ok((uint.zagzig(), read)),
        Err(e) => Err(e),
    }
}

} // verus!
