//! Binary primitives of the cache format: little-endian integers, the 7-bit
//! variable-length integer, length-prefixed strings, booleans and raw bytes.
//! Each has an encoder, a decoder on the front of a byte sequence, and the
//! proof that the decoder reads back what the encoder wrote.

use crate::text::{from_utf8_lossy, utf8_text};
use byteorder::{BigEndian, ByteOrder, LittleEndian};
use vstd::prelude::*;
use vstd::slice::slice_subrange;
use vstd::utf8::encode_utf8;

verus! {

/// 256 to the power of `n`: the number of values that `n` bytes can write.
pub open spec fn pow256(n: nat) -> int
    decreases n,
{
    if n == 0 {
        1
    } else {
        256 * pow256((n - 1) as nat)
    }
}

/// The number that bytes write, the low byte first.
pub open spec fn le_value(s: Seq<u8>) -> int
    decreases s.len(),
{
    if s.len() == 0 {
        0
    } else {
        s[0] as int + 256 * le_value(s.drop_first())
    }
}

/// The `n` bytes that write the number `v`, the low byte first.
pub open spec fn le_bytes(v: int, n: nat) -> Seq<u8>
    decreases n,
{
    if n == 0 {
        Seq::empty()
    } else {
        seq![(v % 256) as u8] + le_bytes(v / 256, (n - 1) as nat)
    }
}

/// The number that stands for the integer `v` in two's complement of `n` bytes.
pub open spec fn twos_complement(v: int, n: nat) -> int {
    if v < 0 {
        v + pow256(n)
    } else {
        v
    }
}

/// The integer that the number `u` stands for in two's complement of `n` bytes.
pub open spec fn signed_value(u: int, n: nat) -> int {
    if 2 * u >= pow256(n) {
        u - pow256(n)
    } else {
        u
    }
}

/// The `n` bytes of the integer `v`: two's complement, low byte first.
pub open spec fn ser_int(v: int, n: nat) -> Seq<u8> {
    le_bytes(twos_complement(v, n), n)
}

/// The integer that bytes write: two's complement, low byte first.
pub open spec fn int_of(s: Seq<u8>) -> int {
    signed_value(le_value(s), s.len())
}

/// `BigEndian::read_u16` of byteorder. Trusted: the first byte is the high one.
#[verifier::external_body]
pub(crate) fn read_u16_be(buf: &[u8]) -> (v: u16)
    requires
        buf@.len() >= 2,
    ensures
        v as int == le_value(seq![buf@[1], buf@[0]]),
{
    BigEndian::read_u16(buf)
}

/// `LittleEndian::read_u16` of byteorder. Trusted: the first byte is the low one.
#[verifier::external_body]
pub(crate) fn read_u16_le(buf: &[u8]) -> (v: u16)
    requires
        buf@.len() >= 2,
    ensures
        v as int == le_value(buf@.subrange(0, 2)),
{
    LittleEndian::read_u16(buf)
}

/// `LittleEndian::read_i16` of byteorder. Trusted: the integer that the
/// first two bytes write, low byte first, in two's complement.
#[verifier::external_body]
pub(crate) fn read_i16_le(buf: &[u8]) -> (v: i16)
    requires
        buf@.len() >= 2,
    ensures
        v as int == int_of(buf@.subrange(0, 2)),
{
    LittleEndian::read_i16(buf)
}

/// `LittleEndian::read_i32` of byteorder. Trusted: the integer that the
/// first four bytes write, low byte first, in two's complement.
#[verifier::external_body]
pub(crate) fn read_i32_le(buf: &[u8]) -> (v: i32)
    requires
        buf@.len() >= 4,
    ensures
        v as int == int_of(buf@.subrange(0, 4)),
{
    LittleEndian::read_i32(buf)
}

/// `LittleEndian::read_i64` of byteorder. Trusted: the integer that the
/// first eight bytes write, low byte first, in two's complement.
#[verifier::external_body]
pub(crate) fn read_i64_le(buf: &[u8]) -> (v: i64)
    requires
        buf@.len() >= 8,
    ensures
        v as int == int_of(buf@.subrange(0, 8)),
{
    LittleEndian::read_i64(buf)
}

/// `LittleEndian::write_i16` of byteorder, on a buffer of two bytes. Trusted:
/// the buffer holds the two's complement of the value, low byte first.
#[verifier::external_body]
pub(crate) fn le_bytes_i16(v: i16) -> (out: [u8; 2])
    ensures
        out@ == ser_int(v as int, 2),
{
    let mut out = [0u8; 2];
    LittleEndian::write_i16(&mut out, v);
    out
}

/// `LittleEndian::write_i32` of byteorder, on a buffer of four bytes. Trusted:
/// the buffer holds the two's complement of the value, low byte first.
#[verifier::external_body]
pub(crate) fn le_bytes_i32(v: i32) -> (out: [u8; 4])
    ensures
        out@ == ser_int(v as int, 4),
{
    let mut out = [0u8; 4];
    LittleEndian::write_i32(&mut out, v);
    out
}

/// `LittleEndian::write_i64` of byteorder, on a buffer of eight bytes. Trusted:
/// the buffer holds the two's complement of the value, low byte first.
#[verifier::external_body]
pub(crate) fn le_bytes_i64(v: i64) -> (out: [u8; 8])
    ensures
        out@ == ser_int(v as int, 8),
{
    let mut out = [0u8; 8];
    LittleEndian::write_i64(&mut out, v);
    out
}

/// The bytes of a 16-bit integer: two's complement, low byte first.
pub open spec fn ser_i16(v: i16) -> Seq<u8> {
    ser_int(v as int, 2)
}

/// The bytes of a 32-bit integer: two's complement, low byte first.
pub open spec fn ser_i32(v: i32) -> Seq<u8> {
    ser_int(v as int, 4)
}

/// The bytes of a 64-bit integer: two's complement, low byte first.
pub open spec fn ser_i64(v: i64) -> Seq<u8> {
    ser_int(v as int, 8)
}

/// The byte that stands for an 8-bit integer in two's complement.
pub open spec fn byte_of(v: i8) -> u8 {
    if v < 0 {
        (v + 256) as u8
    } else {
        v as u8
    }
}

/// The 8-bit integer that a byte stands for in two's complement.
pub open spec fn i8_of(b: u8) -> i8 {
    if b >= 128 {
        (b - 256) as i8
    } else {
        b as i8
    }
}

/// The byte of an 8-bit integer: its two's complement.
pub open spec fn ser_i8(v: i8) -> Seq<u8> {
    seq![byte_of(v)]
}

/// The byte of a truth value: 1 for true, 0 for false.
pub open spec fn ser_bool(b: bool) -> Seq<u8> {
    seq![if b { 1u8 } else { 0u8 }]
}

/// The bytes of a length in the 7-bit variable-length encoding: seven bits
/// to a byte, the low ones first, the high bit set on every byte but the last.
pub open spec fn ser_varint(n: int) -> Seq<u8>
    decreases n,
{
    if n < 0x80 {
        seq![n as u8]
    } else {
        seq![(n % 0x80 + 0x80) as u8] + ser_varint(n / 0x80)
    }
}

/// The bytes of a text: the length of its UTF-8 form, then that form.
#[verifier::opaque]
pub open spec fn ser_string(text: Seq<char>) -> Seq<u8> {
    ser_varint(encode_utf8(text).len() as int) + encode_utf8(text)
}

/// The greatest length a string of the cache may have, in bytes.
pub open spec fn max_string_len() -> int {
    0x7fff_ffff
}

/// Whether a text can be written: its UTF-8 form is not longer than a
/// 32-bit length can say.
pub open spec fn fits(text: Seq<char>) -> bool {
    encode_utf8(text).len() <= max_string_len()
}

/// The 16-bit integer at the front of `s`, and what follows it.
pub open spec fn parse_i16(s: Seq<u8>) -> Option<(i16, Seq<u8>)> {
    if s.len() < 2 {
        None
    } else {
        Some((int_of(s.take(2)) as i16, s.skip(2)))
    }
}

/// The 32-bit integer at the front of `s`, and what follows it.
pub open spec fn parse_i32(s: Seq<u8>) -> Option<(i32, Seq<u8>)> {
    if s.len() < 4 {
        None
    } else {
        Some((int_of(s.take(4)) as i32, s.skip(4)))
    }
}

/// The 64-bit integer at the front of `s`, and what follows it.
pub open spec fn parse_i64(s: Seq<u8>) -> Option<(i64, Seq<u8>)> {
    if s.len() < 8 {
        None
    } else {
        Some((int_of(s.take(8)) as i64, s.skip(8)))
    }
}

/// The byte at the front of `s`, and what follows it.
pub open spec fn parse_u8(s: Seq<u8>) -> Option<(u8, Seq<u8>)> {
    if s.len() < 1 {
        None
    } else {
        Some((s[0], s.skip(1)))
    }
}

/// The 8-bit integer at the front of `s`, and what follows it.
pub open spec fn parse_i8(s: Seq<u8>) -> Option<(i8, Seq<u8>)> {
    if s.len() < 1 {
        None
    } else {
        Some((i8_of(s[0]), s.skip(1)))
    }
}

/// The truth value at the front of `s`, and what follows it: any byte but
/// 0 is true.
pub open spec fn parse_bool(s: Seq<u8>) -> Option<(bool, Seq<u8>)> {
    if s.len() < 1 {
        None
    } else {
        Some((s[0] != 0, s.skip(1)))
    }
}

/// The first `n` bytes of `s`, and what follows them.
pub open spec fn parse_bytes(s: Seq<u8>, n: int) -> Option<(Seq<u8>, Seq<u8>)> {
    if n < 0 || s.len() < n {
        None
    } else {
        Some((s.take(n), s.skip(n)))
    }
}

/// The variable-length integer at the front of `s`, of which `used` bytes
/// have been read already, and what follows it. An integer of more than
/// five bytes, or of more than 31 bits, is refused.
pub open spec fn parse_varint_from(s: Seq<u8>, used: int) -> Option<(int, Seq<u8>)>
    decreases 5 - used,
{
    if used < 0 || used >= 5 || s.len() == 0 {
        None
    } else if s[0] < 0x80 {
        if used == 4 && s[0] > 7 {
            None
        } else {
            Some((s[0] as int, s.skip(1)))
        }
    } else {
        match parse_varint_from(s.skip(1), used + 1) {
            Some((high, rest)) => Some((s[0] - 0x80 + 0x80 * high, rest)),
            None => None,
        }
    }
}

/// The variable-length integer at the front of `s`, and what follows it.
pub open spec fn parse_varint(s: Seq<u8>) -> Option<(int, Seq<u8>)> {
    parse_varint_from(s, 0)
}

/// The text at the front of `s`, and what follows it. Bytes that are not
/// valid UTF-8 are replaced, not refused.
#[verifier::opaque]
pub open spec fn parse_string(s: Seq<u8>) -> Option<(Seq<char>, Seq<u8>)> {
    match parse_varint(s) {
        Some((n, rest)) => if rest.len() < n {
            None
        } else {
            Some((utf8_text(rest.take(n)), rest.skip(n)))
        },
        None => None,
    }
}

/// The greatest value that a variable-length integer may still have after
/// `used` of its five bytes, plus one.
pub open spec fn varint_bound(used: int) -> int {
    if used == 0 {
        0x8000_0000
    } else if used == 1 {
        0x100_0000
    } else if used == 2 {
        0x2_0000
    } else if used == 3 {
        0x400
    } else {
        8
    }
}

/// A variable-length integer that is read has 31 bits at most.
pub proof fn lemma_parse_varint_bound(s: Seq<u8>, used: int)
    requires
        0 <= used < 5,
    ensures
        parse_varint_from(s, used) matches Some((n, rest)) ==> 0 <= n < varint_bound(used)
            && rest.len() < s.len(),
    decreases 5 - used,
{
    if s.len() > 0 && s[0] >= 0x80 {
        if used < 4 {
            lemma_parse_varint_bound(s.skip(1), used + 1);
        } else {
            assert(parse_varint_from(s.skip(1), used + 1) is None);
        }
    }
}

/// Reading the encoding of a length gives the length back, and leaves what
/// stood behind it.
pub proof fn lemma_varint_round_trip(n: int, used: int, rest: Seq<u8>)
    requires
        0 <= used < 5,
        0 <= n < varint_bound(used),
    ensures
        parse_varint_from(ser_varint(n) + rest, used) == Some((n, rest)),
    decreases n,
{
    let s = ser_varint(n) + rest;
    if n < 0x80 {
        assert(s[0] == n as u8);
        assert(s.skip(1) =~= rest);
    } else {
        assert(used < 4);
        assert(s[0] == (n % 0x80 + 0x80) as u8);
        assert(s.skip(1) =~= ser_varint(n / 0x80) + rest);
        lemma_varint_round_trip(n / 0x80, used + 1, rest);
    }
}

/// Reading the bytes of a text that fits gives the text back.
pub proof fn lemma_string_round_trip(text: Seq<char>, rest: Seq<u8>)
    requires
        fits(text),
    ensures
        parse_string(ser_string(text) + rest) == Some((text, rest)),
{
    reveal(ser_string);
    reveal(parse_string);
    let body = encode_utf8(text);
    assert(ser_string(text) + rest =~= ser_varint(body.len() as int) + (body + rest));
    lemma_varint_round_trip(body.len() as int, 0, body + rest);
    assert((body + rest).take(body.len() as int) =~= body);
    assert((body + rest).skip(body.len() as int) =~= rest);
    vstd::utf8::encode_utf8_valid_utf8(text);
    vstd::utf8::encode_utf8_decode_utf8(text);
}

/// The powers of 256 that the integers of the format need.
pub proof fn lemma_pow256()
    ensures
        pow256(1) == 0x100,
        pow256(2) == 0x1_0000,
        pow256(4) == 0x1_0000_0000,
        pow256(8) == 0x1_0000_0000_0000_0000,
{
    reveal_with_fuel(pow256, 9);
}

/// The bytes of a number are as many as asked for, and write that number.
pub proof fn lemma_le_round_trip(u: int, n: nat)
    requires
        0 <= u < pow256(n),
    ensures
        le_bytes(u, n).len() == n,
        le_value(le_bytes(u, n)) == u,
    decreases n,
{
    if n > 0 {
        lemma_le_round_trip(u / 256, (n - 1) as nat);
        assert(le_bytes(u, n).drop_first() =~= le_bytes(u / 256, (n - 1) as nat));
    }
}

/// The number that `n` bytes write is below 256 to the power of `n`.
pub proof fn lemma_le_value_bound(s: Seq<u8>)
    ensures
        0 <= le_value(s) < pow256(s.len()),
    decreases s.len(),
{
    if s.len() > 0 {
        lemma_le_value_bound(s.drop_first());
    }
}

/// Reading the `n` bytes of an integer that `n` bytes can hold gives the
/// integer back.
pub proof fn lemma_int_round_trip(v: int, n: nat, rest: Seq<u8>)
    requires
        -pow256(n) <= 2 * v < pow256(n),
    ensures
        ser_int(v, n).len() == n,
        (ser_int(v, n) + rest).take(n as int) == ser_int(v, n),
        (ser_int(v, n) + rest).skip(n as int) == rest,
        int_of(ser_int(v, n)) == v,
{
    lemma_le_round_trip(twos_complement(v, n), n);
    assert((ser_int(v, n) + rest).take(n as int) =~= ser_int(v, n));
    assert((ser_int(v, n) + rest).skip(n as int) =~= rest);
}

/// Reading the bytes of a 16-bit integer gives the integer back.
pub proof fn lemma_i16_round_trip(v: i16, rest: Seq<u8>)
    ensures
        parse_i16(ser_i16(v) + rest) == Some((v, rest)),
{
    lemma_pow256();
    lemma_int_round_trip(v as int, 2, rest);
}

/// Reading the bytes of a 32-bit integer gives the integer back.
pub proof fn lemma_i32_round_trip(v: i32, rest: Seq<u8>)
    ensures
        parse_i32(ser_i32(v) + rest) == Some((v, rest)),
{
    lemma_pow256();
    lemma_int_round_trip(v as int, 4, rest);
}

/// Reading the bytes of a 64-bit integer gives the integer back.
pub proof fn lemma_i64_round_trip(v: i64, rest: Seq<u8>)
    ensures
        parse_i64(ser_i64(v) + rest) == Some((v, rest)),
{
    lemma_pow256();
    lemma_int_round_trip(v as int, 8, rest);
}

/// Reading the byte of an 8-bit integer gives the integer back.
pub proof fn lemma_i8_round_trip(v: i8, rest: Seq<u8>)
    ensures
        parse_i8(ser_i8(v) + rest) == Some((v, rest)),
{
    let s = ser_i8(v) + rest;
    assert(s.skip(1) =~= rest);
}

/// Reading the byte of a truth value gives the truth value back.
pub proof fn lemma_bool_round_trip(v: bool, rest: Seq<u8>)
    ensures
        parse_bool(ser_bool(v) + rest) == Some((v, rest)),
{
    let s = ser_bool(v) + rest;
    assert(s.skip(1) =~= rest);
}

/// The byte that stands for an 8-bit integer in two's complement.
pub fn i8_byte(v: i8) -> (b: u8)
    ensures
        b == byte_of(v),
{
    assert(v < 0 ==> (v as u8) as i64 == (v as i64) + 256) by (bit_vector);
    assert(v >= 0 ==> (v as u8) as i64 == (v as i64)) by (bit_vector);
    v as u8
}

/// The 8-bit integer that a byte stands for in two's complement.
pub fn byte_i8(b: u8) -> (v: i8)
    ensures
        v == i8_of(b),
{
    assert(b >= 128 ==> (b as i8) as i64 == (b as i64) - 256) by (bit_vector);
    assert(b < 128 ==> (b as i8) as i64 == (b as i64)) by (bit_vector);
    b as i8
}

/// Appends raw bytes.
pub fn put_bytes(out: &mut Vec<u8>, bytes: &[u8])
    ensures
        final(out)@ == old(out)@ + bytes@,
{
    let mut i: usize = 0;
    assert(bytes@.take(0) =~= Seq::<u8>::empty());
    assert(old(out)@ + Seq::<u8>::empty() =~= old(out)@);
    while i < bytes.len()
        invariant
            i <= bytes.len(),
            out@ == old(out)@ + bytes@.take(i as int),
        decreases bytes.len() - i,
    {
        out.push(bytes[i]);
        assert(bytes@.take(i + 1) =~= bytes@.take(i as int).push(bytes@[i as int]));
        assert(out@ =~= old(out)@ + bytes@.take(i + 1));
        i += 1;
    }
    assert(bytes@.take(bytes@.len() as int) =~= bytes@);
}

/// Appends an 8-bit integer.
pub fn put_i8(out: &mut Vec<u8>, v: i8)
    ensures
        final(out)@ == old(out)@ + ser_i8(v),
{
    out.push(i8_byte(v));
    assert(out@ =~= old(out)@ + ser_i8(v));
}

/// Appends a truth value.
pub fn put_bool(out: &mut Vec<u8>, b: bool)
    ensures
        final(out)@ == old(out)@ + ser_bool(b),
{
    if b {
        out.push(1);
    } else {
        out.push(0);
    }
    assert(out@ =~= old(out)@ + ser_bool(b));
}

/// Appends a 16-bit integer, low byte first.
pub fn put_i16(out: &mut Vec<u8>, v: i16)
    ensures
        final(out)@ == old(out)@ + ser_i16(v),
{
    let bytes = le_bytes_i16(v);
    put_bytes(out, bytes.as_slice());
}

/// Appends a 32-bit integer, low byte first.
pub fn put_i32(out: &mut Vec<u8>, v: i32)
    ensures
        final(out)@ == old(out)@ + ser_i32(v),
{
    let bytes = le_bytes_i32(v);
    put_bytes(out, bytes.as_slice());
}

/// Appends a 64-bit integer, low byte first.
pub fn put_i64(out: &mut Vec<u8>, v: i64)
    ensures
        final(out)@ == old(out)@ + ser_i64(v),
{
    let bytes = le_bytes_i64(v);
    put_bytes(out, bytes.as_slice());
}

/// Appends a length in the 7-bit variable-length encoding.
pub fn put_varint(out: &mut Vec<u8>, n: usize)
    ensures
        final(out)@ == old(out)@ + ser_varint(n as int),
{
    let mut left: usize = n;
    let ghost mut done: Seq<u8> = Seq::empty();
    assert(old(out)@ + done =~= old(out)@);
    assert(done + ser_varint(left as int) =~= ser_varint(n as int));
    while left >= 0x80
        invariant
            out@ == old(out)@ + done,
            done + ser_varint(left as int) == ser_varint(n as int),
        decreases left,
    {
        let low: u8 = ((left % 0x80) + 0x80) as u8;
        out.push(low);
        proof {
            assert(done.push(low) + ser_varint(left as int / 0x80) =~= done + (seq![low]
                + ser_varint(left as int / 0x80)));
            assert(out@ =~= old(out)@ + done.push(low));
            done = done.push(low);
        }
        left = left / 0x80;
    }
    out.push(left as u8);
    assert(out@ =~= old(out)@ + (done + seq![left as u8]));
}

/// Whether a string can be written: its UTF-8 form is not longer than a
/// 32-bit length can say.
pub fn string_fits(text: &str) -> (yes: bool)
    ensures
        yes == fits(text@),
{
    text.as_bytes().len() <= 0x7fff_ffff
}

/// Appends a string: the length of its UTF-8 form, then that form.
pub fn put_string(out: &mut Vec<u8>, text: &str)
    ensures
        final(out)@ == old(out)@ + ser_string(text@),
{
    reveal(ser_string);
    let bytes = text.as_bytes();
    put_varint(out, bytes.len());
    put_bytes(out, bytes);
    assert(out@ =~= old(out)@ + ser_string(text@));
}

/// A place in a run of bytes, from which values are read front to back.
pub struct Reader<'a> {
    buf: &'a [u8],
    pos: usize,
}

impl<'a> Reader<'a> {
    /// The bytes that have not been read yet.
    pub closed spec fn rest(&self) -> Seq<u8> {
        self.buf@.skip(self.pos as int)
    }

    /// What every reader keeps: its place is within the bytes.
    pub closed spec fn wf(&self) -> bool {
        self.pos <= self.buf@.len()
    }

    /// A reader at the front of `buf`.
    pub fn new(buf: &'a [u8]) -> (reader: Reader<'a>)
        ensures
            reader.wf(),
            reader.rest() == buf@,
    {
        assert(buf@.skip(0) =~= buf@);
        Reader { buf, pos: 0 }
    }

    /// The number of bytes that have not been read yet.
    pub fn remaining(&self) -> (n: usize)
        requires
            self.wf(),
        ensures
            n == self.rest().len(),
    {
        self.buf.len() - self.pos
    }

    /// Reads `n` raw bytes.
    pub fn take_bytes(&mut self, n: usize) -> (bytes: Option<&'a [u8]>)
        requires
            old(self).wf(),
        ensures
            final(self).wf(),
            match bytes {
                Some(found) => parse_bytes(old(self).rest(), n as int) == Some(
                    (found@, final(self).rest()),
                ),
                None => parse_bytes(old(self).rest(), n as int) is None && final(self).rest()
                    == old(self).rest(),
            },
    {
        if self.buf.len() - self.pos < n {
            return None;
        }
        let found = slice_subrange(self.buf, self.pos, self.pos + n);
        proof {
            assert(found@ =~= self.rest().take(n as int));
            assert(self.buf@.skip(self.pos + n) =~= self.rest().skip(n as int));
        }
        self.pos = self.pos + n;
        Some(found)
    }

    /// Reads one byte.
    pub fn take_u8(&mut self) -> (v: Option<u8>)
        requires
            old(self).wf(),
        ensures
            final(self).wf(),
            match v {
                Some(x) => parse_u8(old(self).rest()) == Some((x, final(self).rest())),
                None => parse_u8(old(self).rest()) is None && final(self).rest() == old(self).rest(),
            },
    {
        match self.take_bytes(1) {
            Some(found) => Some(found[0]),
            None => None,
        }
    }

    /// Reads an 8-bit integer.
    pub fn take_i8(&mut self) -> (v: Option<i8>)
        requires
            old(self).wf(),
        ensures
            final(self).wf(),
            match v {
                Some(x) => parse_i8(old(self).rest()) == Some((x, final(self).rest())),
                None => parse_i8(old(self).rest()) is None && final(self).rest() == old(self).rest(),
            },
    {
        match self.take_bytes(1) {
            Some(found) => Some(byte_i8(found[0])),
            None => None,
        }
    }

    /// Reads a truth value: any byte but 0 is true.
    pub fn take_bool(&mut self) -> (v: Option<bool>)
        requires
            old(self).wf(),
        ensures
            final(self).wf(),
            match v {
                Some(x) => parse_bool(old(self).rest()) == Some((x, final(self).rest())),
                None => parse_bool(old(self).rest()) is None && final(self).rest() == old(self).rest(),
            },
    {
        match self.take_bytes(1) {
            Some(found) => Some(found[0] != 0),
            None => None,
        }
    }

    /// Reads a 16-bit integer, low byte first.
    pub fn take_i16(&mut self) -> (v: Option<i16>)
        requires
            old(self).wf(),
        ensures
            final(self).wf(),
            match v {
                Some(x) => parse_i16(old(self).rest()) == Some((x, final(self).rest())),
                None => parse_i16(old(self).rest()) is None && final(self).rest() == old(self).rest(),
            },
    {
        match self.take_bytes(2) {
            Some(found) => {
                assert(found@.subrange(0, 2) =~= old(self).rest().take(2));
                Some(read_i16_le(found))
            },
            None => None,
        }
    }

    /// Reads a 32-bit integer, low byte first.
    pub fn take_i32(&mut self) -> (v: Option<i32>)
        requires
            old(self).wf(),
        ensures
            final(self).wf(),
            match v {
                Some(x) => parse_i32(old(self).rest()) == Some((x, final(self).rest())),
                None => parse_i32(old(self).rest()) is None && final(self).rest() == old(self).rest(),
            },
    {
        match self.take_bytes(4) {
            Some(found) => {
                assert(found@.subrange(0, 4) =~= old(self).rest().take(4));
                Some(read_i32_le(found))
            },
            None => None,
        }
    }

    /// Reads a 64-bit integer, low byte first.
    pub fn take_i64(&mut self) -> (v: Option<i64>)
        requires
            old(self).wf(),
        ensures
            final(self).wf(),
            match v {
                Some(x) => parse_i64(old(self).rest()) == Some((x, final(self).rest())),
                None => parse_i64(old(self).rest()) is None && final(self).rest() == old(self).rest(),
            },
    {
        match self.take_bytes(8) {
            Some(found) => {
                assert(found@.subrange(0, 8) =~= old(self).rest().take(8));
                Some(read_i64_le(found))
            },
            None => None,
        }
    }

    /// Reads a length in the 7-bit variable-length encoding.
    pub fn take_varint(&mut self) -> (v: Option<usize>)
        requires
            old(self).wf(),
        ensures
            final(self).wf(),
            match v {
                Some(n) => parse_varint(old(self).rest()) == Some((n as int, final(self).rest()))
                    && n <= 0x7fff_ffff,
                None => parse_varint(old(self).rest()) is None && final(self).rest() == old(self).rest(),
            },
    {
        let start = self.pos;
        let v = self.varint_from(0);
        if v.is_none() {
            self.pos = start;
        }
        proof {
            lemma_parse_varint_bound(old(self).rest(), 0);
        }
        v
    }

    fn varint_from(&mut self, used: usize) -> (v: Option<usize>)
        requires
            old(self).wf(),
            used < 5,
        ensures
            final(self).wf(),
            final(self).buf == old(self).buf,
            match v {
                Some(n) => parse_varint_from(old(self).rest(), used as int) == Some(
                    (n as int, final(self).rest()),
                ) && n < varint_bound(used as int),
                None => parse_varint_from(old(self).rest(), used as int) is None,
            },
        decreases 5 - used,
    {
        proof {
            lemma_parse_varint_bound(self.rest(), used as int);
        }
        if self.pos >= self.buf.len() {
            return None;
        }
        let b = self.buf[self.pos];
        assert(b == self.rest()[0]);
        assert(self.buf@.skip(self.pos + 1) =~= self.rest().skip(1));
        self.pos = self.pos + 1;
        if b < 0x80 {
            if used == 4 && b > 7 {
                None
            } else {
                Some(b as usize)
            }
        } else if used == 4 {
            assert(parse_varint_from(old(self).rest().skip(1), 5) is None);
            None
        } else {
            match self.varint_from(used + 1) {
                Some(high) => Some((b - 0x80) as usize + 0x80 * high),
                None => None,
            }
        }
    }

    /// Reads a string: a length, then as many bytes of UTF-8, of which the
    /// invalid ones are replaced.
    pub fn take_string(&mut self) -> (v: Option<String>)
        requires
            old(self).wf(),
        ensures
            final(self).wf(),
            match v {
                Some(text) => parse_string(old(self).rest()) == Some((text@, final(self).rest())),
                None => parse_string(old(self).rest()) is None,
            },
    {
        reveal(parse_string);
        let n = match self.take_varint() {
            Some(n) => n,
            None => {
                return None;
            },
        };
        match self.take_bytes(n) {
            Some(found) => Some(from_utf8_lossy(found)),
            None => None,
        }
    }
}

} // verus!
