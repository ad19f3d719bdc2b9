//! Unsigned LEB128 integers, as the binary module format writes its sizes,
//! counts and indices.
//!
//! The reader is lenient: it never fails. It stops at the first byte without
//! the continuation bit, at the end of the input, or after five bytes,
//! whichever comes first, and keeps the low 32 bits of what it has read.

use vstd::prelude::*;

verus! {

/// The most bytes that one 32-bit integer may take.
pub const MAX_LEB128_BYTES: usize = 5;

/// Whether `b` announces that another byte follows.
pub open spec fn has_continuation(b: u8) -> bool {
    b >= 0x80
}

/// The seven payload bits of `b`.
pub open spec fn payload(b: u8) -> int {
    b as int % 0x80
}

/// The number of bytes that the reader takes from the front of `data`.
pub open spec fn leb128_len(data: Seq<u8>) -> int {
    if data.len() == 0 {
        0
    } else if !has_continuation(data[0]) || data.len() == 1 {
        1
    } else if !has_continuation(data[1]) || data.len() == 2 {
        2
    } else if !has_continuation(data[2]) || data.len() == 3 {
        3
    } else if !has_continuation(data[3]) || data.len() == 4 {
        4
    } else {
        5
    }
}

/// The weight of the payload of byte `i`: 128 to the power `i`.
pub open spec fn weight(i: int) -> int {
    if i <= 0 {
        1
    } else if i == 1 {
        0x80
    } else if i == 2 {
        0x4000
    } else if i == 3 {
        0x20_0000
    } else {
        0x1000_0000
    }
}

/// The weighted payloads of the first `n` bytes of `data`, summed.
pub open spec fn payload_sum(data: Seq<u8>, n: int) -> int
    decreases n,
{
    if n <= 0 {
        0
    } else {
        payload_sum(data, n - 1) + payload(data[n - 1]) * weight(n - 1)
    }
}

/// The integer that the reader makes of the front of `data`: the payloads of
/// the bytes it takes, least significant first, cut to 32 bits.
pub open spec fn leb128_value(data: Seq<u8>) -> int {
    payload_sum(data, leb128_len(data)) % 0x1_0000_0000
}

/// Whether the reader ran out of input in the middle of an integer: it took
/// every byte there was, fewer than five, and the last one (if any) still
/// announced another.
pub open spec fn leb128_truncated(data: Seq<u8>) -> bool {
    &&& leb128_len(data) == data.len()
    &&& data.len() < 5
    &&& (data.len() > 0 ==> has_continuation(data[data.len() - 1]))
}

/// The reader takes at most five bytes, never more than there are, and
/// at least one where there is any; its value fits 32 bits.
pub proof fn lemma_reader_bounds(data: Seq<u8>)
    ensures
        0 <= leb128_len(data) <= data.len(),
        leb128_len(data) <= 5,
        data.len() > 0 ==> leb128_len(data) >= 1,
        0 <= leb128_value(data) < 0x1_0000_0000,
{
}

/// An input that ends in the middle of an integer is read to its end, and
/// gives the value of the payloads that were there.
pub proof fn lemma_truncated_read(data: Seq<u8>)
    requires
        data.len() < 5,
        forall|i: int| 0 <= i < data.len() ==> has_continuation(#[trigger] data[i]),
    ensures
        leb128_truncated(data),
        leb128_len(data) == data.len(),
        leb128_value(data) == payload_sum(data, data.len() as int),
{
    reveal_with_fuel(payload_sum, 6);
}

/// What the reader makes of an input depends only on the bytes it takes:
/// where a read of `a` ended on its own account, any `b` that begins with the
/// bytes taken reads the same.
pub proof fn lemma_reader_local(a: Seq<u8>, b: Seq<u8>)
    requires
        !leb128_truncated(a),
        leb128_len(a) <= b.len(),
        forall|i: int| 0 <= i < leb128_len(a) ==> a[i] == b[i],
    ensures
        leb128_len(b) == leb128_len(a),
        leb128_value(b) == leb128_value(a),
{
    reveal_with_fuel(payload_sum, 6);
}

proof fn lemma_or_is_add(acc: u32, digit: u8, shift: u32)
    by (bit_vector)
    requires
        shift == 0 || shift == 7 || shift == 14 || shift == 21 || shift == 28,
        (acc as u64) < (1u64 << (shift as u64)),
    ensures
        (acc | (((digit & 0x7f) as u32) << shift)) as int == ((acc as u64) + (((digit as u64)
            % 0x80) << (shift as u64))) % 0x1_0000_0000,
        shift < 28 ==> ((acc as u64) + (((digit as u64) % 0x80) << (shift as u64))) < (1u64 << ((
        shift + 7) as u64)),
        (digit & 0x80 == 0) <==> digit < 0x80,
{
}

proof fn lemma_shift_is_weight(digit: u64, i: int)
    requires
        0 <= i < 5,
        digit < 0x80,
    ensures
        (digit << ((7 * i) as u64)) == digit * weight(i),
        (1u64 << ((7 * i) as u64)) == weight(i),
        i < 4 ==> (1u64 << ((7 * i + 7) as u64)) == weight(i + 1),
{
    assert(digit < 0x80 ==> (digit << 0u64) == digit * 1) by (bit_vector);
    assert(digit < 0x80 ==> (digit << 7u64) == digit * 0x80) by (bit_vector);
    assert(digit < 0x80 ==> (digit << 14u64) == digit * 0x4000) by (bit_vector);
    assert(digit < 0x80 ==> (digit << 21u64) == digit * 0x20_0000) by (bit_vector);
    assert(digit < 0x80 ==> (digit << 28u64) == digit * 0x1000_0000) by (bit_vector);
    assert((1u64 << 0u64) == 1 && (1u64 << 7u64) == 0x80 && (1u64 << 14u64) == 0x4000 && (1u64
        << 21u64) == 0x20_0000 && (1u64 << 28u64) == 0x1000_0000) by (bit_vector);
}

/// Reads one unsigned integer from the front of `data` and returns it with
/// the number of bytes taken. Any input is accepted: an empty one gives
/// `(0, 0)`, a truncated one the value of what was there.
pub fn read_leb128_u32(data: &[u8]) -> (r: (u32, usize))
    ensures
        r.0 as int == leb128_value(data@),
        r.1 as int == leb128_len(data@),
        r.1 <= data@.len(),
        r.1 <= MAX_LEB128_BYTES,
{
    let mut result: u32 = 0;
    let mut shift: u32 = 0;
    let mut pos: usize = 0;
    loop
        invariant_except_break
            pos < 5,
            shift == 7 * pos,
            (result as int) < weight(pos as int),
            forall|i: int| 0 <= i < pos ==> has_continuation(#[trigger] data@[i]),
        invariant
            pos <= 5,
            pos <= data@.len(),
            result as int == payload_sum(data@, pos as int) % 0x1_0000_0000,
        ensures
            pos as int == leb128_len(data@),
        decreases 5 - pos,
    {
        if pos >= data.len() {
            break ;
        }
        let byte: u8 = data[pos];
        proof {
            lemma_shift_is_weight((byte as u64) % 0x80, pos as int);
            lemma_or_is_add(result, byte, shift);
        }
        pos += 1;
        result |= ((byte & 0x7f) as u32) << shift;
        shift += 7;
        if (byte & 0x80) == 0 {
            break ;
        }
        if shift >= 32 {
            break ;
        }
    }
    (result, pos)
}

/// The shortest encoding of `n`: seven bits to a byte, least significant
/// first, every byte but the last with the continuation bit set.
pub open spec fn leb128_encoding(n: u32) -> Seq<u8>
    decreases n,
{
    if n < 0x80 {
        seq![n as u8]
    } else {
        seq![(n % 0x80 + 0x80) as u8] + leb128_encoding(n / 0x80)
    }
}

proof fn lemma_split_low_bits(n: u32)
    by (bit_vector)
    ensures
        (n & 0x7f) == n % 0x80,
        (n >> 7) == n / 0x80,
        n % 0x80 < 0x80,
        (((n & 0x7f) as u8) | 0x80u8) as u32 == (n % 0x80) + 0x80u32,
        ((n & 0x7f) as u8) as u32 == n % 0x80,
{
}

/// Writes `n` in its shortest encoding.
pub fn encode_leb128_u32(n: u32) -> (out: Vec<u8>)
    ensures
        out@ == leb128_encoding(n),
{
    let mut out: Vec<u8> = Vec::new();
    let mut rest: u32 = n;
    loop
        invariant_except_break
            leb128_encoding(n) == out@ + leb128_encoding(rest),
        ensures
            out@ == leb128_encoding(n),
        decreases rest,
    {
        proof {
            lemma_split_low_bits(rest);
        }
        let byte: u8 = (rest & 0x7f) as u8;
        let ghost before = rest;
        rest = rest >> 7;
        if rest == 0 {
            out.push(byte);
            assert(leb128_encoding(before) =~= seq![byte]);
            break ;
        } else {
            out.push(byte | 0x80);
            assert(leb128_encoding(before) =~= seq![(byte | 0x80) as u8] + leb128_encoding(rest));
            assert(out@ + leb128_encoding(rest) =~= leb128_encoding(n));
        }
    }
    out
}

/// An encoding is between one and five bytes long, and only its last byte
/// lacks the continuation bit.
pub proof fn lemma_encoding_shape(n: u32)
    ensures
        1 <= leb128_encoding(n).len() <= 5,
        !has_continuation(leb128_encoding(n).last()),
        forall|i: int|
            0 <= i < leb128_encoding(n).len() - 1 ==> has_continuation(
                #[trigger] leb128_encoding(n)[i],
            ),
{
    reveal_with_fuel(leb128_encoding, 6);
}

proof fn lemma_read_encoding(n: u32)
    ensures
        leb128_len(leb128_encoding(n)) == leb128_encoding(n).len(),
        leb128_value(leb128_encoding(n)) == n,
        !leb128_truncated(leb128_encoding(n)),
{
    let enc = leb128_encoding(n);
    let d0 = n as int % 0x80;
    let r1 = n as int / 0x80;
    let d1 = r1 % 0x80;
    let r2 = r1 / 0x80;
    let d2 = r2 % 0x80;
    let r3 = r2 / 0x80;
    let d3 = r3 % 0x80;
    let r4 = r3 / 0x80;
    assert(n as int == d0 + 0x80 * d1 + 0x4000 * d2 + 0x20_0000 * d3 + 0x1000_0000 * r4);
    assert(r4 < 0x10);
    reveal_with_fuel(leb128_encoding, 6);
    if n < 0x80 {
        assert(enc =~= seq![d0 as u8]);
        reveal_with_fuel(payload_sum, 2);
    } else if n < 0x4000 {
        assert(enc =~= seq![(d0 + 0x80) as u8, d1 as u8]);
        reveal_with_fuel(payload_sum, 3);
    } else if n < 0x20_0000 {
        assert(enc =~= seq![(d0 + 0x80) as u8, (d1 + 0x80) as u8, d2 as u8]);
        reveal_with_fuel(payload_sum, 4);
    } else if n < 0x1000_0000 {
        assert(enc =~= seq![(d0 + 0x80) as u8, (d1 + 0x80) as u8, (d2 + 0x80) as u8, d3 as u8]);
        reveal_with_fuel(payload_sum, 5);
    } else {
        assert(enc =~= seq![
            (d0 + 0x80) as u8,
            (d1 + 0x80) as u8,
            (d2 + 0x80) as u8,
            (d3 + 0x80) as u8,
            r4 as u8,
        ]);
        reveal_with_fuel(payload_sum, 6);
    }
}

/// Reading an encoding gives the integer back and takes all of its bytes,
/// whatever follows it in the input.
pub proof fn lemma_read_after_encode(n: u32, rest: Seq<u8>)
    ensures
        leb128_len(leb128_encoding(n) + rest) == leb128_encoding(n).len(),
        leb128_value(leb128_encoding(n) + rest) == n,
{
    let enc = leb128_encoding(n);
    lemma_read_encoding(n);
    assert forall|i: int| 0 <= i < leb128_len(enc) implies enc[i] == (enc + rest)[i] by {}
    lemma_reader_local(enc, enc + rest);
}

} // verus!
