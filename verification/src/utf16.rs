//! Counting UTF-16 code units from UTF-8 bytes.

use vstd::prelude::*;
use vstd::string::StringSliceAdditionalSpecFns;
use vstd::utf8::*;

verus! {

/// Number of UTF-16 code units a single UTF-8 byte contributes: every
/// byte that is not a continuation byte starts a code point (one unit),
/// and a leading byte of a four-byte sequence adds a second unit.
pub open spec fn utf16_units_of_byte(b: u8) -> nat {
    (if b < 0x80 || b >= 0xc0 { 1nat } else { 0nat }) + (if b >= 0xf0 { 1nat } else { 0nat })
}

/// UTF-16 code units of a byte sequence, counted byte by byte.
pub open spec fn utf16_len_of_bytes(bytes: Seq<u8>) -> nat
    decreases bytes.len(),
{
    if bytes.len() == 0 {
        0
    } else {
        utf16_len_of_bytes(bytes.drop_last()) + utf16_units_of_byte(bytes.last())
    }
}

/// The count never exceeds two units per byte.
pub proof fn lemma_utf16_len_bound(bytes: Seq<u8>)
    ensures
        utf16_len_of_bytes(bytes) <= 2 * bytes.len(),
    decreases bytes.len(),
{
    if bytes.len() > 0 {
        lemma_utf16_len_bound(bytes.drop_last());
    }
}

/// Counting is additive over concatenation.
pub proof fn lemma_utf16_len_concat(a: Seq<u8>, b: Seq<u8>)
    ensures
        utf16_len_of_bytes(a + b) == utf16_len_of_bytes(a) + utf16_len_of_bytes(b),
    decreases b.len(),
{
    if b.len() > 0 {
        assert((a + b).drop_last() =~= a + b.drop_last());
        lemma_utf16_len_concat(a, b.drop_last());
    } else {
        assert(a + b =~= a);
    }
}


/// UTF-16 code units needed for one character: characters outside the
/// basic multilingual plane take a surrogate pair.
pub open spec fn utf16_units_of_char(c: char) -> nat {
    if (c as u32) >= 0x10000 { 2 } else { 1 }
}

/// UTF-16 length of a character sequence.
pub open spec fn utf16_len(chars: Seq<char>) -> nat
    decreases chars.len(),
{
    if chars.len() == 0 {
        0
    } else {
        utf16_units_of_char(chars[0]) + utf16_len(chars.drop_first())
    }
}

proof fn lemma_single_byte(b: u8)
    ensures
        utf16_len_of_bytes(seq![b]) == utf16_units_of_byte(b),
{
    assert(seq![b].drop_last() =~= Seq::<u8>::empty());
    assert(seq![b].last() == b);
    assert(utf16_len_of_bytes(Seq::<u8>::empty()) == 0);
}

proof fn lemma_utf16_len_of_scalar(c: char)
    ensures
        utf16_len_of_bytes(encode_scalar(c as u32)) == utf16_units_of_char(c),
{
    let v = c as u32;
    char_is_scalar(c);
    if has_width_1_encoding(v) {
        assert(leading_byte_width_1(v) < 0x80) by (bit_vector)
            requires v <= 0x7F;
        lemma_single_byte(leading_byte_width_1(v));
    } else if has_width_2_encoding(v) {
        let b0 = leading_byte_width_2(v);
        let b1 = last_continuation_byte(v);
        assert(0xc0 <= b0 < 0xf0 && 0x80 <= b1 < 0xc0) by (bit_vector)
            requires 0x80 <= v <= 0x7FF, b0 == leading_byte_width_2(v), b1 == last_continuation_byte(v);
        lemma_single_byte(b0);
        lemma_single_byte(b1);
        lemma_utf16_len_concat(seq![b0], seq![b1]);
        assert(encode_scalar(v) =~= seq![b0] + seq![b1]);
    } else if has_width_3_encoding(v) {
        let b0 = leading_byte_width_3(v);
        let b1 = second_last_continuation_byte(v);
        let b2 = last_continuation_byte(v);
        assert(0xc0 <= b0 < 0xf0 && 0x80 <= b1 < 0xc0 && 0x80 <= b2 < 0xc0) by (bit_vector)
            requires 0x800 <= v <= 0xFFFF, b0 == leading_byte_width_3(v),
                b1 == second_last_continuation_byte(v), b2 == last_continuation_byte(v);
        lemma_single_byte(b0);
        lemma_single_byte(b1);
        lemma_single_byte(b2);
        lemma_utf16_len_concat(seq![b0], seq![b1]);
        lemma_utf16_len_concat(seq![b0] + seq![b1], seq![b2]);
        assert(encode_scalar(v) =~= seq![b0] + seq![b1] + seq![b2]);
    } else {
        let b0 = leading_byte_width_4(v);
        let b1 = third_last_continuation_byte(v);
        let b2 = second_last_continuation_byte(v);
        let b3 = last_continuation_byte(v);
        assert(0xf0 <= b0 && 0x80 <= b1 < 0xc0 && 0x80 <= b2 < 0xc0 && 0x80 <= b3 < 0xc0)
            by (bit_vector)
            requires 0x10000 <= v <= 0x10FFFF, b0 == leading_byte_width_4(v),
                b1 == third_last_continuation_byte(v), b2 == second_last_continuation_byte(v),
                b3 == last_continuation_byte(v);
        lemma_single_byte(b0);
        lemma_single_byte(b1);
        lemma_single_byte(b2);
        lemma_single_byte(b3);
        lemma_utf16_len_concat(seq![b0], seq![b1]);
        lemma_utf16_len_concat(seq![b0] + seq![b1], seq![b2]);
        lemma_utf16_len_concat(seq![b0] + seq![b1] + seq![b2], seq![b3]);
        assert(encode_scalar(v) =~= seq![b0] + seq![b1] + seq![b2] + seq![b3]);
    }
}

/// Counting UTF-16 units over the UTF-8 bytes of a text gives the UTF-16
/// length of its characters.
pub proof fn lemma_utf16_len_of_encoding(chars: Seq<char>)
    ensures
        utf16_len_of_bytes(encode_utf8(chars)) == utf16_len(chars),
    decreases chars.len(),
{
    if chars.len() > 0 {
        lemma_utf16_len_of_scalar(chars[0]);
        lemma_utf16_len_concat(encode_scalar(chars[0] as u32), encode_utf8(chars.drop_first()));
        lemma_utf16_len_of_encoding(chars.drop_first());
    }
}

proof fn lemma_utf16_len_bounds(chars: Seq<char>)
    ensures
        chars.len() <= utf16_len(chars) <= encode_utf8(chars).len(),
    decreases chars.len(),
{
    if chars.len() > 0 {
        let c = chars[0];
        let v = c as u32;
        char_is_scalar(c);
        assert(utf16_units_of_char(c) <= encode_scalar(v).len()) by {
            if v >= 0x10000 {
                assert(!has_width_1_encoding(v) && !has_width_2_encoding(v) && !has_width_3_encoding(v));
            }
        }
        lemma_utf16_len_bounds(chars.drop_first());
    }
}

/// Counting UTF-16 code units adds up over concatenation and gives 0 for
/// the empty string; a string has at least as many units as characters and
/// at most as many as UTF-8 bytes.
pub proof fn law_utf16_count_adds(a: Seq<char>, b: Seq<char>)
    ensures
        utf16_len_of_bytes(encode_utf8(a + b)) == utf16_len_of_bytes(encode_utf8(a)) + utf16_len_of_bytes(
            encode_utf8(b),
        ),
        utf16_len_of_bytes(encode_utf8(Seq::<char>::empty())) == 0,
        a.len() <= utf16_len_of_bytes(encode_utf8(a)) <= encode_utf8(a).len(),
    decreases a.len(),
{
    lemma_utf16_len_of_encoding(a);
    lemma_utf16_len_of_encoding(b);
    lemma_utf16_len_of_encoding(a + b);
    lemma_utf16_len_bounds(a);
    if a.len() > 0 {
        assert((a + b).drop_first() =~= a.drop_first() + b);
        law_utf16_count_adds(a.drop_first(), b);
        lemma_utf16_len_of_encoding(a.drop_first());
        lemma_utf16_len_of_encoding(a.drop_first() + b);
    } else {
        assert(a + b =~= b);
    }
}

/// Counts the UTF-16 code units of the bytes `bytes[start..end]`.
pub fn count_utf16_in(bytes: &[u8], start: usize, end: usize) -> (count: usize)
    requires
        start <= end <= bytes@.len(),
        bytes@.len() <= isize::MAX,
    ensures
        count == utf16_len_of_bytes(bytes@.subrange(start as int, end as int)),
{
    let mut utf16_count: usize = 0;
    let mut i: usize = start;
    while i < end
        invariant
            start <= i <= end <= bytes@.len(),
            bytes@.len() <= isize::MAX,
            utf16_count == utf16_len_of_bytes(bytes@.subrange(start as int, i as int)),
        decreases end - i,
    {
        let b: u8 = bytes[i];
        proof {
            assert(bytes@.subrange(start as int, i + 1).drop_last()
                =~= bytes@.subrange(start as int, i as int));
            lemma_utf16_len_bound(bytes@.subrange(start as int, i as int));
        }
        assert(((b as i8) >= -0x40) == (b < 0x80 || b >= 0xc0)) by (bit_vector);
        if (b as i8) >= -0x40 {
            utf16_count += 1;
        }
        if b >= 0xf0 {
            utf16_count += 1;
        }
        i += 1;
    }
    utf16_count
}

/// Whether two strings hold the same characters, compared byte by byte.
pub fn str_eq(a: &str, b: &str) -> (eq: bool)
    ensures
        eq == (a@ == b@),
{
    let x = a.as_bytes();
    let y = b.as_bytes();
    proof {
        encode_utf8_decode_utf8(a@);
        encode_utf8_decode_utf8(b@);
    }
    if x.len() != y.len() {
        return false;
    }
    let mut i: usize = 0;
    while i < x.len()
        invariant
            x@ == a.spec_bytes(),
            y@ == b.spec_bytes(),
            x@.len() == y@.len(),
            i <= x@.len(),
            x@.take(i as int) == y@.take(i as int),
        decreases x@.len() - i,
    {
        if x[i] != y[i] {
            assert(a@ != b@) by {
                if a@ == b@ {
                    assert(x@ == encode_utf8(a@));
                    assert(y@ == encode_utf8(b@));
                    assert(x@[i as int] == y@[i as int]);
                }
            }
            return false;
        }
        i += 1;
        assert(x@.take(i as int) =~= y@.take(i as int));
    }
    assert(x@.take(i as int) =~= x@);
    assert(y@.take(i as int) =~= y@);
    true
}

/// Counts the number of utf-16 code units in the given string.
pub fn count_utf16(s: &str) -> (count: usize)
    requires
        s.spec_bytes().len() <= isize::MAX,
    ensures
        count == utf16_len_of_bytes(s.spec_bytes()),
        count == utf16_len(s@),
        s@.len() <= count <= s.spec_bytes().len(),
{
    proof {
        lemma_utf16_len_of_encoding(s@);
        lemma_utf16_len_bounds(s@);
    }
    let bytes = s.as_bytes();
    let mut utf16_count: usize = 0;
    let mut i: usize = 0;
    while i < bytes.len()
        invariant
            bytes@ == s.spec_bytes(),
            bytes@.len() <= isize::MAX,
            i <= bytes@.len(),
            utf16_count == utf16_len_of_bytes(bytes@.take(i as int)),
        decreases bytes@.len() - i,
    {
        let b: u8 = bytes[i];
        proof {
            assert(bytes@.take(i + 1).drop_last() =~= bytes@.take(i as int));
            lemma_utf16_len_bound(bytes@.take(i as int));
        }
        assert(((b as i8) >= -0x40) == (b < 0x80 || b >= 0xc0)) by (bit_vector);
        if (b as i8) >= -0x40 {
            utf16_count += 1;
        }
        if b >= 0xf0 {
            utf16_count += 1;
        }
        i += 1;
    }
    assert(bytes@.take(i as int) =~= bytes@);
    utf16_count
}

} // verus!
