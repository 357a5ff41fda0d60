//! Pure encode/decode specifications for wide code-unit sequences.
//!
//! The 16-bit encoding is UTF-16: one unit for scalar values below
//! `0x10000`, a high/low surrogate pair for the rest. The 32-bit encoding
//! is trivial: one unit per scalar value. Decoding is lenient: ill-formed
//! units (unpaired surrogates, out-of-range 32-bit units) decode to the
//! replacement character U+FFFD instead of failing.

use vstd::prelude::*;
use vstd::arithmetic::div_mod::lemma_fundamental_div_mod;
use vstd::utf8::{char_is_scalar, char_u32_cast, is_scalar};

verus! {

/// A 16-bit unit that is either half of a surrogate pair.
pub open spec fn is_surrogate(u: u16) -> bool {
    0xD800 <= u && u <= 0xDFFF
}

/// A 16-bit unit that can lead a surrogate pair.
pub open spec fn is_high_surrogate(u: u16) -> bool {
    0xD800 <= u && u <= 0xDBFF
}

/// A 16-bit unit that can trail a surrogate pair.
pub open spec fn is_low_surrogate(u: u16) -> bool {
    0xDC00 <= u && u <= 0xDFFF
}

/// The scalar value jointly encoded by a surrogate pair.
pub open spec fn utf16_combine(high: u16, low: u16) -> u32 {
    (0x10000 + (high - 0xD800) * 0x400 + (low - 0xDC00)) as u32
}

/// The UTF-16 encoding of one Unicode scalar value: one unit below
/// `0x10000`, otherwise a surrogate pair by the standard offset formula.
pub open spec fn utf16_encode_scalar(v: u32) -> Seq<u16> {
    if v < 0x10000 {
        seq![v as u16]
    } else {
        seq![
            (0xD800 + (v - 0x10000) / 0x400) as u16,
            (0xDC00 + (v - 0x10000) % 0x400) as u16,
        ]
    }
}

/// The UTF-16 encoding of a sequence of characters.
pub open spec fn utf16_encode(t: Seq<char>) -> Seq<u16>
    decreases t.len(),
{
    if t.len() == 0 {
        Seq::empty()
    } else {
        utf16_encode_scalar(t[0] as u32) + utf16_encode(t.drop_first())
    }
}

/// The lossy decoding of a 16-bit unit sequence: a well-placed surrogate
/// pair decodes to its combined scalar, any other surrogate unit to
/// U+FFFD, and every remaining unit to itself.
pub open spec fn utf16_decode(s: Seq<u16>) -> Seq<char>
    decreases s.len(),
{
    if s.len() == 0 {
        Seq::empty()
    } else if !is_surrogate(s[0]) {
        seq![(s[0] as u32) as char] + utf16_decode(s.drop_first())
    } else if is_high_surrogate(s[0]) && s.len() >= 2 && is_low_surrogate(s[1]) {
        seq![utf16_combine(s[0], s[1]) as char] + utf16_decode(s.skip(2))
    } else {
        seq!['\u{FFFD}'] + utf16_decode(s.drop_first())
    }
}

/// The trivial 32-bit encoding of a sequence of characters.
pub open spec fn utf32_encode(t: Seq<char>) -> Seq<u32> {
    t.map_values(|c: char| c as u32)
}

/// The lossy decoding of a 32-bit unit sequence: units that are valid
/// scalar values decode to themselves, the rest to U+FFFD.
pub open spec fn utf32_decode(s: Seq<u32>) -> Seq<char> {
    s.map_values(|v: u32| if is_scalar(v) { v as char } else { '\u{FFFD}' })
}

/// How many trailing units one lenient pop consumes: the trailing pair if
/// the last unit is a low surrogate led by a high surrogate, else one.
pub open spec fn utf16_pop_units(s: Seq<u16>) -> int {
    if s.len() >= 2 && is_low_surrogate(s.last()) && is_high_surrogate(s[s.len() - 2]) {
        2
    } else {
        1
    }
}

/// The value one lenient pop returns: the combined scalar of a trailing
/// pair, or the raw last unit (unpaired surrogates included) widened.
pub open spec fn utf16_pop_value(s: Seq<u16>) -> u32 {
    if s.len() >= 2 && is_low_surrogate(s.last()) && is_high_surrogate(s[s.len() - 2]) {
        utf16_combine(s[s.len() - 2], s.last())
    } else {
        s.last() as u32
    }
}

/// How many units a lenient removal at `idx` consumes: two if `idx`
/// addresses a high surrogate validly paired with the next unit, else one.
pub open spec fn utf16_remove_units(s: Seq<u16>, idx: int) -> int {
    if is_high_surrogate(s[idx]) && idx + 1 < s.len() && is_low_surrogate(s[idx + 1]) {
        2
    } else {
        1
    }
}

/// The value a lenient removal at `idx` returns: the combined scalar of a
/// valid pair starting there, or the raw unit at `idx` widened.
pub open spec fn utf16_remove_value(s: Seq<u16>, idx: int) -> u32 {
    if is_high_surrogate(s[idx]) && idx + 1 < s.len() && is_low_surrogate(s[idx + 1]) {
        utf16_combine(s[idx], s[idx + 1])
    } else {
        s[idx] as u32
    }
}

/// Tests whether a 16-bit unit is either half of a surrogate pair.
#[verifier::when_used_as_spec(is_surrogate)]
pub fn is_utf16_surrogate(u: u16) -> (r: bool)
    ensures
        r == is_surrogate(u),
{
    0xD800 <= u && u <= 0xDFFF
}

/// Tests whether a 16-bit unit can lead a surrogate pair.
#[verifier::when_used_as_spec(is_high_surrogate)]
pub fn is_utf16_high_surrogate(u: u16) -> (r: bool)
    ensures
        r == is_high_surrogate(u),
{
    0xD800 <= u && u <= 0xDBFF
}

/// Tests whether a 16-bit unit can trail a surrogate pair.
#[verifier::when_used_as_spec(is_low_surrogate)]
pub fn is_utf16_low_surrogate(u: u16) -> (r: bool)
    ensures
        r == is_low_surrogate(u),
{
    0xDC00 <= u && u <= 0xDFFF
}

/// The shape of one encoded scalar taken from a character: a single
/// non-surrogate unit holding the value itself, or a well-formed
/// surrogate pair that combines back to the value.
pub proof fn lemma_utf16_encode_scalar_char(c: char)
    ensures
        (c as u32) < 0x10000 ==> {
            let units = utf16_encode_scalar(c as u32);
            &&& units.len() == 1
            &&& !is_surrogate(units[0])
            &&& units[0] as u32 == c as u32
        },
        (c as u32) >= 0x10000 ==> {
            let units = utf16_encode_scalar(c as u32);
            &&& units.len() == 2
            &&& is_high_surrogate(units[0])
            &&& is_low_surrogate(units[1])
            &&& utf16_combine(units[0], units[1]) == c as u32
        },
{
    char_is_scalar(c);
    let v = c as u32;
    if v >= 0x10000 {
        let rest = v - 0x10000;
        assert(0 <= rest < 0x100000);
        assert(0 <= rest / 0x400 < 0x400 && 0 <= rest % 0x400 < 0x400) by (nonlinear_arith)
            requires
                0 <= rest < 0x100000,
        ;
        lemma_fundamental_div_mod(rest as int, 0x400);
    }
}

/// Encoding distributes over concatenation.
pub proof fn lemma_utf16_encode_append(s: Seq<char>, t: Seq<char>)
    ensures
        utf16_encode(s + t) == utf16_encode(s) + utf16_encode(t),
    decreases s.len(),
{
    if s.len() == 0 {
        assert(s + t =~= t);
        assert(utf16_encode(s) + utf16_encode(t) =~= utf16_encode(t));
    } else {
        assert((s + t).drop_first() =~= s.drop_first() + t);
        lemma_utf16_encode_append(s.drop_first(), t);
        assert((s + t)[0] == s[0]);
        assert(utf16_encode(s + t) =~= utf16_encode(s) + utf16_encode(t));
    }
}

/// Decoding an encoded character off the front of a unit sequence yields
/// that character back and leaves the rest to decode.
pub proof fn lemma_utf16_decode_encoded_prefix(c: char, rest: Seq<u16>)
    ensures
        utf16_decode(utf16_encode_scalar(c as u32) + rest) == seq![c] + utf16_decode(rest),
{
    lemma_utf16_encode_scalar_char(c);
    let units = utf16_encode_scalar(c as u32);
    let s = units + rest;
    if (c as u32) < 0x10000 {
        assert(s[0] == units[0]);
        assert(s.drop_first() =~= rest);
        char_u32_cast(c, s[0] as u32);
    } else {
        assert(s[0] == units[0] && s[1] == units[1]);
        assert(s.skip(2) =~= rest);
        char_u32_cast(c, utf16_combine(s[0], s[1]));
    }
}

/// LAW: a 16-bit round trip is lossless. Native text, which never holds
/// an unpaired surrogate, decodes from its own encoding unchanged.
pub proof fn lemma_utf16_round_trip(t: Seq<char>)
    ensures
        utf16_decode(utf16_encode(t)) == t,
    decreases t.len(),
{
    if t.len() > 0 {
        lemma_utf16_decode_encoded_prefix(t[0], utf16_encode(t.drop_first()));
        lemma_utf16_round_trip(t.drop_first());
        assert(utf16_decode(utf16_encode(t)) =~= t);
    }
}

/// LAW: a 32-bit round trip is lossless. Every unit encoded from native
/// text is a valid scalar value, so lenient decoding restores the text.
pub proof fn lemma_utf32_round_trip(t: Seq<char>)
    ensures
        utf32_decode(utf32_encode(t)) == t,
{
    assert forall|i: int| 0 <= i < t.len() implies utf32_decode(utf32_encode(t))[i] == t[i] by {
        char_is_scalar(t[i]);
        char_u32_cast(t[i], t[i] as u32);
    }
    assert(utf32_decode(utf32_encode(t)) =~= t);
}

/// LAW: popping right after pushing a character onto a 16-bit buffer
/// yields that character's scalar value and restores the prior contents,
/// for every buffer and every character.
pub proof fn lemma_utf16_pop_of_pushed_char(s: Seq<u16>, c: char)
    ensures
        ({
            let t = s + utf16_encode_scalar(c as u32);
            &&& utf16_pop_value(t) == c as u32
            &&& t.take(t.len() - utf16_pop_units(t)) == s
        }),
{
    lemma_utf16_encode_scalar_char(c);
    let t = s + utf16_encode_scalar(c as u32);
    if (c as u32) < 0x10000 {
        assert(t.take(t.len() - 1) =~= s);
    } else {
        assert(t.take(t.len() - 2) =~= s);
    }
}

/// LAW: removing at `idx` right after inserting a character at `idx` in a
/// 16-bit buffer yields that character's scalar value and restores the
/// prior contents, for every buffer, valid index and character.
pub proof fn lemma_utf16_remove_of_inserted_char(s: Seq<u16>, idx: int, c: char)
    requires
        0 <= idx <= s.len(),
    ensures
        ({
            let t = s.take(idx) + utf16_encode_scalar(c as u32) + s.skip(idx);
            &&& utf16_remove_value(t, idx) == c as u32
            &&& t.take(idx) + t.skip(idx + utf16_remove_units(t, idx)) == s
        }),
{
    lemma_utf16_encode_scalar_char(c);
    let units = utf16_encode_scalar(c as u32);
    let t = s.take(idx) + units + s.skip(idx);
    assert(t[idx] == units[0]);
    if (c as u32) < 0x10000 {
        assert(t.take(idx) + t.skip(idx + 1) =~= s);
    } else {
        assert(t[idx + 1] == units[1]);
        assert(t.take(idx) + t.skip(idx + 2) =~= s);
    }
}

/// LAW: popping a 16-bit buffer whose sole content is one low surrogate
/// yields that surrogate's raw value, uncombined, and empties the buffer.
pub proof fn lemma_utf16_pop_lone_low_surrogate(u: u16)
    requires
        is_low_surrogate(u),
    ensures
        utf16_pop_value(seq![u]) == u as u32,
        utf16_pop_units(seq![u]) == 1,
{
}

/// LAW: popping right after pushing a character onto a 32-bit buffer
/// yields that character's scalar value and restores the prior contents.
pub proof fn lemma_utf32_pop_of_pushed_char(s: Seq<u32>, c: char)
    ensures
        s.push(c as u32).last() == c as u32,
        s.push(c as u32).drop_last() == s,
{
    assert(s.push(c as u32).drop_last() =~= s);
}

/// LAW: removing at `idx` right after inserting a character at `idx` in a
/// 32-bit buffer yields that character's scalar value and restores the
/// prior contents.
pub proof fn lemma_utf32_remove_of_inserted_char(s: Seq<u32>, idx: int, c: char)
    requires
        0 <= idx <= s.len(),
    ensures
        s.insert(idx, c as u32)[idx] == c as u32,
        s.insert(idx, c as u32).remove(idx) == s,
{
    assert(s.insert(idx, c as u32).remove(idx) =~= s);
}

} // verus!
