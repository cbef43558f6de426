//! Text: decoding the bytes of a file, and the small operations on sequences
//! of characters that the parsers are written with.

use crate::wire::{le_value, read_u16_be, read_u16_le};
use vstd::prelude::*;
use vstd::slice::slice_subrange;
use vstd::std_specs::iter::IteratorSpec;
use vstd::utf8::{decode_utf8, valid_utf8};

verus! {

/// What `String::from_utf8_lossy` makes of bytes that are not valid UTF-8:
/// each invalid sequence becomes U+FFFD.
pub uninterp spec fn utf8_lossy(bytes: Seq<u8>) -> Seq<char>;

/// What `String::from_utf16_lossy` makes of UTF-16 code units: unpaired
/// surrogates become U+FFFD.
pub uninterp spec fn utf16_lossy(units: Seq<u16>) -> Seq<char>;

/// What `str::to_lowercase` returns: the lowercase form under Unicode's rules.
pub uninterp spec fn lowercase(text: Seq<char>) -> Seq<char>;

/// What `char::is_whitespace` returns: whether the character has Unicode's
/// `White_Space` property.
pub uninterp spec fn is_whitespace(c: char) -> bool;

/// The text that a run of bytes stands for: its UTF-8 decoding where the bytes
/// are valid UTF-8, the lossy decoding otherwise.
pub open spec fn utf8_text(bytes: Seq<u8>) -> Seq<char> {
    if valid_utf8(bytes) {
        decode_utf8(bytes)
    } else {
        utf8_lossy(bytes)
    }
}

/// `String::from_utf8_lossy`. Trusted: valid UTF-8 decodes to the string it
/// encodes; for other bytes the result is only named.
#[verifier::external_body]
pub(crate) fn from_utf8_lossy(bytes: &[u8]) -> (text: String)
    ensures
        valid_utf8(bytes@) ==> text@ == decode_utf8(bytes@),
        !valid_utf8(bytes@) ==> text@ == utf8_lossy(bytes@),
{
    String::from_utf8_lossy(bytes).into_owned()
}

/// `String::from_utf16_lossy`. Trusted: the result is only named.
#[verifier::external_body]
pub(crate) fn from_utf16_lossy(units: &[u16]) -> (text: String)
    ensures
        text@ == utf16_lossy(units@),
{
    String::from_utf16_lossy(units)
}

/// `str::to_lowercase`. Trusted: the result is only named.
#[verifier::external_body]
pub(crate) fn to_lowercase(text: &str) -> (lower: String)
    ensures
        lower@ == lowercase(text@),
{
    text.to_lowercase()
}

/// `char::is_whitespace`. Trusted: the result is only named.
#[verifier::external_body]
pub(crate) fn char_is_whitespace(c: char) -> (white: bool)
    ensures
        white == is_whitespace(c),
{
    c.is_whitespace()
}

/// `String::push`. Trusted: the character is appended.
#[verifier::external_body]
pub(crate) fn push_char(text: &mut String, c: char)
    ensures
        final(text)@ == old(text)@.push(c),
{
    text.push(c)
}

/// The characters of a string.
pub fn chars_of(text: &str) -> (chars: Vec<char>)
    ensures
        chars@ == text@,
{
    broadcast use vstd::string::group_string_axioms;

    let mut chars: Vec<char> = Vec::new();
    let mut rest = text.chars();
    loop
        invariant
            rest.obeys_prophetic_iter_laws(),
            rest.decrease() is Some,
            chars@ + rest.remaining() == text@,
        ensures
            chars@ == text@,
        decreases rest.decrease()->0,
    {
        match rest.next() {
            Some(c) => {
                chars.push(c);
            },
            None => {
                break ;
            },
        }
    }
    chars
}

/// The string made of the given characters.
pub fn string_of(chars: &[char]) -> (text: String)
    ensures
        text@ == chars@,
{
    let mut text = String::new();
    let mut i: usize = 0;
    while i < chars.len()
        invariant
            i <= chars.len(),
            text@ == chars@.take(i as int),
        decreases chars.len() - i,
    {
        push_char(&mut text, chars[i]);
        i += 1;
    }
    text
}

/// Whether a run of characters is exactly the given text.
pub fn is_text(chars: &[char], text: &str) -> (same: bool)
    ensures
        same == (chars@ == text@),
{
    let other = chars_of(text);
    if chars.len() != other.len() {
        return false;
    }
    let mut i: usize = 0;
    while i < chars.len()
        invariant
            i <= chars.len(),
            chars.len() == other.len(),
            other@ == text@,
            forall|j: int| 0 <= j < i ==> chars@[j] == other@[j],
        decreases chars.len() - i,
    {
        if chars[i] != other[i] {
            return false;
        }
        i += 1;
    }
    assert(chars@ =~= other@);
    true
}


/// The UTF-16 code units that a run of bytes holds, two bytes each, in the
/// given byte order. A last odd byte is left out.
pub open spec fn utf16_units(bytes: Seq<u8>, big_endian: bool) -> Seq<u16> {
    Seq::new(
        (bytes.len() / 2) as nat,
        |i: int|
            if big_endian {
                le_value(seq![bytes[2 * i + 1], bytes[2 * i]]) as u16
            } else {
                le_value(seq![bytes[2 * i], bytes[2 * i + 1]]) as u16
            },
    )
}

/// The text of a file, by its byte order mark: `FE FF` UTF-16 big-endian,
/// `FF FE` UTF-16 little-endian, `EF BB BF` UTF-8; without a mark, and for a
/// file of fewer than three bytes, UTF-8. The mark is not part of the text.
pub open spec fn file_text(bytes: Seq<u8>) -> Seq<char> {
    if bytes.len() < 3 {
        utf8_text(bytes)
    } else if bytes[0] == 0xFE && bytes[1] == 0xFF {
        utf16_lossy(utf16_units(bytes.skip(2), true))
    } else if bytes[0] == 0xFF && bytes[1] == 0xFE {
        utf16_lossy(utf16_units(bytes.skip(2), false))
    } else if bytes[0] == 0xEF && bytes[1] == 0xBB && bytes[2] == 0xBF {
        utf8_text(bytes.skip(3))
    } else {
        utf8_text(bytes)
    }
}

/// Reads the UTF-16 code units of `bytes` from index 2 on.
fn read_utf16_units(bytes: &[u8], big_endian: bool) -> (units: Vec<u16>)
    requires
        bytes@.len() >= 2,
    ensures
        units@ == utf16_units(bytes@.skip(2), big_endian),
{
    let count: usize = (bytes.len() - 2) / 2;
    let mut units: Vec<u16> = Vec::new();
    let mut i: usize = 0;
    while i < count
        invariant
            i <= count,
            count == (bytes@.len() - 2) / 2,
            2 <= bytes@.len() <= usize::MAX,
            units@.len() == i,
            forall|j: int| 0 <= j < i ==> units@[j] == utf16_units(bytes@.skip(2), big_endian)[j],
        decreases count - i,
    {
        let pair = slice_subrange(bytes, 2 + 2 * i, 4 + 2 * i);
        let unit = if big_endian {
            read_u16_be(pair)
        } else {
            read_u16_le(pair)
        };
        proof {
            assert(pair@.subrange(0, 2) =~= pair@);
            assert(pair@ =~= seq![bytes@.skip(2)[2 * i], bytes@.skip(2)[2 * i + 1]]);
        }
        units.push(unit);
        i += 1;
    }
    assert(units@ =~= utf16_units(bytes@.skip(2), big_endian));
    units
}

/// Decodes the contents of a text file, telling its encoding by the byte
/// order mark. Invalid sequences are replaced, never refused.
pub fn string_from_file(bytes: &[u8]) -> (text: String)
    ensures
        text@ == file_text(bytes@),
{
    if bytes.len() < 3 {
        from_utf8_lossy(bytes)
    } else if bytes[0] == 0xFE && bytes[1] == 0xFF {
        let units = read_utf16_units(bytes, true);
        from_utf16_lossy(units.as_slice())
    } else if bytes[0] == 0xFF && bytes[1] == 0xFE {
        let units = read_utf16_units(bytes, false);
        from_utf16_lossy(units.as_slice())
    } else if bytes[0] == 0xEF && bytes[1] == 0xBB && bytes[2] == 0xBF {
        let rest = slice_subrange(bytes, 3, bytes.len());
        assert(rest@ =~= bytes@.skip(3));
        from_utf8_lossy(rest)
    } else {
        from_utf8_lossy(bytes)
    }
}


/// The index of the first `c` in `s`, or the length of `s` where there is none.
pub open spec fn find(s: Seq<char>, c: char) -> int
    decreases s.len(),
{
    if s.len() == 0 || s[0] == c {
        0
    } else {
        1 + find(s.drop_first(), c)
    }
}

/// The index of the first `c` in `chars`, or their number where there is none.
pub fn find_char(chars: &[char], c: char) -> (at: usize)
    ensures
        at == find(chars@, c),
        at <= chars@.len(),
{
    let mut i: usize = 0;
    assert(chars@.skip(0) =~= chars@);
    while i < chars.len() && chars[i] != c
        invariant
            i <= chars.len(),
            i + find(chars@.skip(i as int), c) == find(chars@, c),
        decreases chars.len() - i,
    {
        assert(chars@.skip(i as int).drop_first() =~= chars@.skip(i + 1));
        i += 1;
    }
    i
}

/// `s` without the whitespace at its front.
pub open spec fn trim_start(s: Seq<char>) -> Seq<char>
    decreases s.len(),
{
    if s.len() > 0 && is_whitespace(s[0]) {
        trim_start(s.drop_first())
    } else {
        s
    }
}

/// `s` without the whitespace at its end.
pub open spec fn trim_end(s: Seq<char>) -> Seq<char>
    decreases s.len(),
{
    if s.len() > 0 && is_whitespace(s.last()) {
        trim_end(s.drop_last())
    } else {
        s
    }
}

/// `s` without the whitespace at its front and at its end.
pub open spec fn trim(s: Seq<char>) -> Seq<char> {
    trim_end(trim_start(s))
}

/// A copy of the characters from index `from` up to `to`.
pub fn copy_range(chars: &[char], from: usize, to: usize) -> (out: Vec<char>)
    requires
        from <= to <= chars@.len(),
    ensures
        out@ == chars@.subrange(from as int, to as int),
{
    let mut out: Vec<char> = Vec::new();
    let mut i: usize = from;
    while i < to
        invariant
            from <= i <= to <= chars@.len(),
            out@ == chars@.subrange(from as int, i as int),
        decreases to - i,
    {
        out.push(chars[i]);
        assert(chars@.subrange(from as int, i as int).push(chars@[i as int]) =~= chars@.subrange(
            from as int,
            i + 1,
        ));
        i += 1;
    }
    out
}

/// The characters without the whitespace at their front and at their end.
pub fn trimmed(chars: &[char]) -> (out: Vec<char>)
    ensures
        out@ == trim(chars@),
{
    let mut from: usize = 0;
    assert(chars@.skip(0) =~= chars@);
    while from < chars.len() && char_is_whitespace(chars[from])
        invariant
            from <= chars.len(),
            trim_start(chars@.skip(from as int)) == trim_start(chars@),
        decreases chars.len() - from,
    {
        assert(chars@.skip(from as int).drop_first() =~= chars@.skip(from + 1));
        from += 1;
    }
    assert(trim_start(chars@) == chars@.skip(from as int));
    let mut to: usize = chars.len();
    assert(chars@.subrange(from as int, to as int) =~= chars@.skip(from as int));
    while from < to && char_is_whitespace(chars[to - 1])
        invariant
            from <= to <= chars.len(),
            trim_end(chars@.subrange(from as int, to as int)) == trim(chars@),
        decreases to - from,
    {
        assert(chars@.subrange(from as int, to as int).drop_last() =~= chars@.subrange(
            from as int,
            to - 1,
        ));
        to -= 1;
    }
    copy_range(chars, from, to)
}

/// The pieces of `s` between its line feeds. A text without a line feed is
/// one line; a line feed at the very end is followed by one empty line.
pub open spec fn lines(s: Seq<char>) -> Seq<Seq<char>>
    decreases s.len(),
{
    let i = find(s, '\n');
    if i < 0 || i >= s.len() {
        seq![s]
    } else {
        seq![s.take(i)] + lines(s.skip(i + 1))
    }
}

/// The character sequences that a sequence of strings holds.
pub open spec fn string_views(names: Seq<String>) -> Seq<Seq<char>> {
    Seq::new(names.len(), |i: int| names[i]@)
}

/// The character sequences that a sequence of vectors holds.
pub open spec fn texts(rows: Seq<Vec<char>>) -> Seq<Seq<char>> {
    Seq::new(rows.len(), |i: int| rows[i]@)
}

/// Splits the characters at their line feeds.
pub fn split_lines(chars: &[char]) -> (out: Vec<Vec<char>>)
    ensures
        texts(out@) == lines(chars@),
{
    let mut out: Vec<Vec<char>> = Vec::new();
    let mut pos: usize = 0;
    assert(chars@.skip(0) =~= chars@);
    assert(texts(out@) =~= Seq::<Seq<char>>::empty());
    loop
        invariant_except_break
            pos <= chars.len(),
            texts(out@) + lines(chars@.skip(pos as int)) == lines(chars@),
        ensures
            texts(out@) == lines(chars@),
        decreases chars.len() - pos,
    {
        let rest = slice_subrange(chars, pos, chars.len());
        assert(rest@ =~= chars@.skip(pos as int));
        let at = find_char(rest, '\n');
        let ghost before = texts(out@);
        out.push(copy_range(rest, 0, at));
        proof {
            assert(rest@.subrange(0, at as int) =~= rest@.take(at as int));
            assert(texts(out@) =~= before.push(rest@.take(at as int)));
        }
        if at >= rest.len() {
            proof {
                assert(rest@.take(at as int) =~= rest@);
                assert(lines(rest@) =~= seq![rest@]);
                assert(before + seq![rest@] =~= before.push(rest@));
            }
            break ;
        }
        proof {
            assert(rest@.skip(at + 1) =~= chars@.skip(pos + at + 1));
            assert(before + (seq![rest@.take(at as int)] + lines(rest@.skip(at + 1)))
                =~= before.push(rest@.take(at as int)) + lines(rest@.skip(at + 1)));
        }
        pos = pos + at + 1;
    }
    out
}

/// The parts of `s` before and after its first `c`, where it has one.
pub open spec fn split_once(s: Seq<char>, c: char) -> Option<(Seq<char>, Seq<char>)> {
    let i = find(s, c);
    if 0 <= i < s.len() {
        Some((s.take(i), s.skip(i + 1)))
    } else {
        None
    }
}

/// Splits the characters at their first `c`.
pub fn split_at_first(chars: &[char], c: char) -> (parts: Option<(Vec<char>, Vec<char>)>)
    ensures
        match parts {
            Some((before, after)) => split_once(chars@, c) == Some((before@, after@)),
            None => split_once(chars@, c) is None,
        },
{
    let at = find_char(chars, c);
    if at < chars.len() {
        let before = copy_range(chars, 0, at);
        let after = copy_range(chars, at + 1, chars.len());
        assert(before@ =~= chars@.take(at as int));
        assert(after@ =~= chars@.skip(at + 1));
        Some((before, after))
    } else {
        None
    }
}

/// Whether the characters begin with the given text.
pub fn starts_with(chars: &[char], text: &str) -> (begins: bool)
    ensures
        begins == text@.is_prefix_of(chars@),
{
    let head = chars_of(text);
    if head.len() > chars.len() {
        return false;
    }
    let front = slice_subrange(chars, 0, head.len());
    let same = is_text(front, text);
    assert(front@ =~= chars@.subrange(0, text@.len() as int));
    same
}

/// The lowercase form of the characters.
pub fn lowered(chars: &[char]) -> (out: Vec<char>)
    ensures
        out@ == lowercase(chars@),
{
    let text = string_of(chars);
    let lower = to_lowercase(text.as_str());
    chars_of(lower.as_str())
}

/// `s` without any occurrence of the character `c`.
pub open spec fn without_char(s: Seq<char>, c: char) -> Seq<char>
    decreases s.len(),
{
    if s.len() == 0 {
        s
    } else if s[0] == c {
        without_char(s.drop_first(), c)
    } else {
        seq![s[0]] + without_char(s.drop_first(), c)
    }
}

/// The characters without any occurrence of `c`.
pub fn remove_char(chars: &[char], c: char) -> (out: Vec<char>)
    ensures
        out@ == without_char(chars@, c),
{
    let mut out: Vec<char> = Vec::new();
    let mut i: usize = 0;
    assert(chars@.skip(0) =~= chars@);
    while i < chars.len()
        invariant
            i <= chars.len(),
            out@ + without_char(chars@.skip(i as int), c) == without_char(chars@, c),
        decreases chars.len() - i,
    {
        let ghost rest = chars@.skip(i as int);
        assert(rest.drop_first() =~= chars@.skip(i + 1));
        if chars[i] != c {
            assert(out@ + (seq![rest[0]] + without_char(rest.drop_first(), c)) =~= out@.push(
                rest[0],
            ) + without_char(rest.drop_first(), c));
            out.push(chars[i]);
        }
        i += 1;
    }
    assert(out@ + Seq::<char>::empty() =~= out@);
    out
}

/// `s` without the occurrences of the text `pat`, found from left to right
/// and never overlapping.
pub open spec fn without_text(s: Seq<char>, pat: Seq<char>) -> Seq<char>
    decreases s.len(),
{
    if pat.len() == 0 || s.len() < pat.len() {
        s
    } else if pat.is_prefix_of(s) {
        without_text(s.skip(pat.len() as int), pat)
    } else {
        seq![s[0]] + without_text(s.drop_first(), pat)
    }
}

/// The characters without the occurrences of the text `pat`.
pub fn remove_text(chars: &[char], pat: &str) -> (out: Vec<char>)
    requires
        pat@.len() > 0,
    ensures
        out@ == without_text(chars@, pat@),
{
    let width = chars_of(pat).len();
    let mut out: Vec<char> = Vec::new();
    let mut i: usize = 0;
    assert(chars@.skip(0) =~= chars@);
    while i < chars.len() && chars.len() - i >= width
        invariant
            i <= chars.len(),
            width == pat@.len(),
            width > 0,
            out@ + without_text(chars@.skip(i as int), pat@) == without_text(chars@, pat@),
        decreases chars.len() - i,
    {
        let rest = slice_subrange(chars, i, chars.len());
        assert(rest@ =~= chars@.skip(i as int));
        if starts_with(rest, pat) {
            assert(rest@.skip(width as int) =~= chars@.skip(i + width));
            i += width;
        } else {
            assert(rest@.drop_first() =~= chars@.skip(i + 1));
            assert(out@ + (seq![rest@[0]] + without_text(rest@.drop_first(), pat@)) =~= out@.push(
                rest@[0],
            ) + without_text(rest@.drop_first(), pat@));
            out.push(chars[i]);
            i += 1;
        }
    }
    let ghost done = out@;
    let tail = copy_range(chars, i, chars.len());
    assert(tail@ =~= chars@.skip(i as int));
    let mut j: usize = 0;
    while j < tail.len()
        invariant
            j <= tail.len(),
            out@ == done + tail@.take(j as int),
        decreases tail.len() - j,
    {
        out.push(tail[j]);
        assert(done + tail@.take(j + 1) =~= (done + tail@.take(j as int)).push(tail@[j as int]));
        j += 1;
    }
    assert(tail@.take(tail@.len() as int) =~= tail@);
    out
}


/// Whether `c` is one of the ten decimal digits.
pub open spec fn is_digit(c: char) -> bool {
    '0' <= c <= '9'
}

/// Whether `s` holds decimal digits only.
pub open spec fn all_digits(s: Seq<char>) -> bool {
    forall|i: int| 0 <= i < s.len() ==> is_digit(#[trigger] s[i])
}

/// The number that the decimal digits `s` write; 0 for no digit.
pub open spec fn digits_value(s: Seq<char>) -> int
    decreases s.len(),
{
    if s.len() == 0 {
        0
    } else {
        digits_value(s.drop_last()) * 10 + (s.last() as int - '0' as int)
    }
}

/// The digits of a decimal number: `s` without one leading sign.
pub open spec fn unsigned_part(s: Seq<char>) -> Seq<char> {
    if s.len() > 0 && (s[0] == '-' || s[0] == '+') {
        s.drop_first()
    } else {
        s
    }
}

/// The decimal integer that `s` writes, where it writes one between `min`
/// and `max`: an optional sign `+` or `-`, then one or more digits and
/// nothing else.
pub open spec fn parse_int(s: Seq<char>, min: int, max: int) -> Option<int> {
    let digits = unsigned_part(s);
    let value = if s.len() > 0 && s[0] == '-' {
        -digits_value(digits)
    } else {
        digits_value(digits)
    };
    if digits.len() > 0 && all_digits(digits) && min <= value <= max {
        Some(value)
    } else {
        None
    }
}

/// The value of a run of digits does not shrink when a digit is appended.
proof fn lemma_digits_grow(s: Seq<char>, n: int)
    requires
        all_digits(s),
        0 <= n <= s.len(),
    ensures
        0 <= digits_value(s.take(n)) <= digits_value(s),
    decreases s.len() - n,
{
    lemma_digits_nonnegative(s.take(n));
    if n == s.len() {
        assert(s.take(n) =~= s);
    } else {
        lemma_digits_grow(s, n + 1);
        assert(s.take(n + 1).drop_last() =~= s.take(n));
        assert(is_digit(s[n]));
    }
}

proof fn lemma_digits_nonnegative(s: Seq<char>)
    requires
        all_digits(s),
    ensures
        0 <= digits_value(s),
    decreases s.len(),
{
    if s.len() > 0 {
        lemma_digits_nonnegative(s.drop_last());
        assert(is_digit(s[s.len() - 1]));
    }
}

/// Reads a decimal integer between `min` and `max`.
pub fn parse_decimal(chars: &[char], min: i64, max: i64) -> (value: Option<i64>)
    requires
        -0x8000_0000 <= min <= 0 <= max <= 0x7fff_ffff,
    ensures
        match value {
            Some(v) => parse_int(chars@, min as int, max as int) == Some(v as int),
            None => parse_int(chars@, min as int, max as int) is None,
        },
{
    let negative = chars.len() > 0 && chars[0] == '-';
    let start: usize = if chars.len() > 0 && (chars[0] == '-' || chars[0] == '+') {
        1
    } else {
        0
    };
    let digits = slice_subrange(chars, start, chars.len());
    assert(digits@ =~= unsigned_part(chars@));
    if digits.len() == 0 {
        return None;
    }
    let mut acc: i64 = 0;
    let mut i: usize = 0;
    assert(digits@.take(0) =~= Seq::<char>::empty());
    while i < digits.len()
        invariant
            i <= digits.len(),
            digits@ == unsigned_part(chars@),
            -0x8000_0000 <= min <= 0 <= max <= 0x7fff_ffff,
            all_digits(digits@.take(i as int)),
            acc == digits_value(digits@.take(i as int)),
            0 <= acc <= 0x8000_0000,
        decreases digits.len() - i,
    {
        let c = digits[i];
        if !('0' <= c && c <= '9') {
            assert(!is_digit(digits@[i as int]));
            return None;
        }
        let next: i64 = acc * 10 + (c as i64 - '0' as i64);
        proof {
            assert(digits@.take(i + 1).drop_last() =~= digits@.take(i as int));
            assert(digits@.take(i + 1).last() == c);
            assert(next == digits_value(digits@.take(i + 1)));
            assert forall|j: int| 0 <= j < i + 1 implies is_digit(
                #[trigger] digits@.take(i + 1)[j],
            ) by {
                if j < i {
                    assert(digits@.take(i + 1)[j] == digits@.take(i as int)[j]);
                }
            }
        }
        if next > 0x8000_0000 {
            proof {
                if all_digits(digits@) {
                    lemma_digits_grow(digits@, i + 1);
                }
            }
            return None;
        }
        acc = next;
        i += 1;
    }
    assert(digits@.take(digits@.len() as int) =~= digits@);
    let signed: i64 = if negative {
        -acc
    } else {
        acc
    };
    if min <= signed && signed <= max {
        Some(signed)
    } else {
        None
    }
}


/// Trimming makes no text longer.
pub proof fn lemma_trim_shorter(s: Seq<char>)
    ensures
        trim(s).len() <= s.len(),
{
    lemma_trim_start_shorter(s);
    lemma_trim_end_shorter(trim_start(s));
}

proof fn lemma_trim_start_shorter(s: Seq<char>)
    ensures
        trim_start(s).len() <= s.len(),
    decreases s.len(),
{
    if s.len() > 0 && is_whitespace(s[0]) {
        lemma_trim_start_shorter(s.drop_first());
    }
}

proof fn lemma_trim_end_shorter(s: Seq<char>)
    ensures
        trim_end(s).len() <= s.len(),
    decreases s.len(),
{
    if s.len() > 0 && is_whitespace(s.last()) {
        lemma_trim_end_shorter(s.drop_last());
    }
}

} // verus!
