//! UTF-16 text as the Windows API takes and returns it.
use vstd::prelude::*;

use crate::text::chars_of;

verus! {

/// `char::from_u32` gives the character with the code `code` exactly where there is one:
/// below the surrogates, or above them up to the last code point.
pub assume_specification[ char::from_u32 ](code: u32) -> (c: Option<char>)
    ensures
        match c {
            Some(c) => c as u32 == code && (code < 0xd800 || 0xe000 <= code <= 0x10ffff),
            None => 0xd800 <= code < 0xe000 || code > 0x10ffff,
        },
;

/// Whether a unit opens a surrogate pair.
pub open spec fn high_surrogate(unit: u16) -> bool {
    0xd800 <= unit < 0xdc00
}

/// Whether a unit closes a surrogate pair.
pub open spec fn low_surrogate(unit: u16) -> bool {
    0xdc00 <= unit < 0xe000
}

/// The units of one character: one of them in the basic plane, a surrogate pair elsewhere.
pub open spec fn encode_char(c: char) -> Seq<u16> {
    let code = c as int;
    if code < 0x10000 {
        seq![code as u16]
    } else {
        seq![
            (0xd800 + (code - 0x10000) / 0x400) as u16,
            (0xdc00 + (code - 0x10000) % 0x400) as u16,
        ]
    }
}

/// The UTF-16 units of a text.
pub open spec fn encode(s: Seq<char>) -> Seq<u16>
    decreases s.len(),
{
    if s.len() == 0 {
        seq![]
    } else {
        encode_char(s[0]) + encode(s.drop_first())
    }
}

/// The character that a surrogate pair stands for.
pub open spec fn pair_char(high: u16, low: u16) -> char {
    (0x10000 + (high - 0xd800) * 0x400 + (low - 0xdc00)) as char
}

/// The text that UTF-16 units stand for, with U+FFFD for every unpaired surrogate.
pub open spec fn decode(units: Seq<u16>) -> Seq<char>
    decreases units.len(),
{
    if units.len() == 0 {
        seq![]
    } else if !high_surrogate(units[0]) && !low_surrogate(units[0]) {
        seq![units[0] as char] + decode(units.skip(1))
    } else if high_surrogate(units[0]) && units.len() > 1 && low_surrogate(units[1]) {
        seq![pair_char(units[0], units[1])] + decode(units.skip(2))
    } else {
        seq!['\u{fffd}'] + decode(units.skip(1))
    }
}

/// How many units stand before the first zero, or all of them where there is none.
pub open spec fn zero_at(units: Seq<u16>) -> nat
    decreases units.len(),
{
    if units.len() == 0 || units[0] == 0 {
        0
    } else {
        1 + zero_at(units.skip(1))
    }
}

/// What a zero-terminated buffer holds: nothing where there is no terminator or no text
/// before it.
pub open spec fn terminated_text(buffer: Seq<u16>) -> Option<Seq<char>> {
    let end = zero_at(buffer);
    if end == buffer.len() || end == 0 {
        None
    } else {
        Some(decode(buffer.take(end as int)))
    }
}

/// The code of a character is a code point that is no surrogate.
pub proof fn lemma_char_code(c: char)
    ensures
        0 <= c as int <= 0x10ffff,
        !(0xd800 <= c as int && (c as int) < 0xe000),
        c as u32 == c as int,
        (c as int) as char == c,
{
}

/// The text that UTF-16 units stand for, with U+FFFD for every unpaired surrogate.
pub fn decode_units(units: &[u16]) -> (s: String)
    ensures
        s@ == decode(units@),
{
    let mut s = String::new();
    let mut i: usize = 0;
    assert(units@.skip(0) == units@);
    while i < units.len()
        invariant
            i <= units@.len(),
            decode(units@) == s@ + decode(units@.skip(i as int)),
        decreases units@.len() - i,
    {
        let ghost done = s@;
        let ghost rest = units@.skip(i as int);
        let unit: u16 = units[i];
        let high: bool = 0xd800 <= unit && unit < 0xdc00;
        if high && units.len() - i > 1 && 0xdc00 <= units[i + 1] && units[i + 1] < 0xe000 {
            let low: u16 = units[i + 1];
            let code: u32 = 0x10000 + (unit as u32 - 0xd800) * 0x400 + (low as u32 - 0xdc00);
            match char::from_u32(code) {
                Some(c) => {
                    proof {
                        lemma_char_code(c);
                    }
                    s.push(c)
                },
                None => {},
            }
            assert(rest.skip(2) == units@.skip(i + 2));
            assert(s@ + decode(units@.skip(i + 2)) =~= done + decode(rest));
            i += 2;
        } else {
            match char::from_u32(unit as u32) {
                Some(c) => {
                    proof {
                        lemma_char_code(c);
                    }
                    s.push(c)
                },
                None => s.push('\u{fffd}'),
            }
            assert(rest.skip(1) == units@.skip(i + 1));
            assert(s@ + decode(units@.skip(i + 1)) =~= done + decode(rest));
            i += 1;
        }
    }
    assert(decode(units@.skip(i as int)) =~= seq![]);
    s
}

/// How many units stand before the first zero, or all of them where there is none.
pub fn count_before_zero(units: &[u16]) -> (r: usize)
    ensures
        r == zero_at(units@),
        r <= units@.len(),
{
    let mut i: usize = 0;
    assert(units@.skip(0) == units@);
    while i < units.len() && units[i] != 0
        invariant
            i <= units@.len(),
            zero_at(units@) == i + zero_at(units@.skip(i as int)),
        decreases units@.len() - i,
    {
        assert(units@.skip(i as int).skip(1) == units@.skip(i + 1));
        i += 1;
    }
    i
}

/// The text in a zero-terminated buffer. A buffer without a terminator, or with the
/// terminator at its front, holds none.
pub fn wide_to_string(buffer: &[u16]) -> (r: Option<String>)
    ensures
        match r {
            Some(s) => terminated_text(buffer@) == Some(s@),
            None => terminated_text(buffer@) is None,
        },
{
    let end = count_before_zero(buffer);
    if end == buffer.len() || end == 0 {
        return None;
    }
    assert(buffer@.subrange(0, end as int) == buffer@.take(end as int));
    Some(decode_units(&buffer[0..end]))
}

/// The zero-terminated UTF-16 form of a text.
pub fn wide_null(value: &str) -> (units: Vec<u16>)
    ensures
        units@ == encode(value@).push(0),
{
    let chars = chars_of(value);
    let mut units: Vec<u16> = Vec::new();
    let mut i: usize = 0;
    assert(chars@.skip(0) == chars@);
    while i < chars.len()
        invariant
            i <= chars@.len(),
            encode(chars@) == units@ + encode(chars@.skip(i as int)),
        decreases chars@.len() - i,
    {
        let ghost done = units@;
        let ghost rest = chars@.skip(i as int);
        let c: char = chars[i];
        proof {
            lemma_char_code(c);
        }
        let code: u32 = c as u32;
        if code < 0x10000 {
            units.push(code as u16);
        } else {
            let offset: u32 = code - 0x10000;
            units.push((0xd800 + offset / 0x400) as u16);
            units.push((0xdc00 + offset % 0x400) as u16);
        }
        assert(rest.drop_first() == chars@.skip(i + 1));
        assert(units@ + encode(chars@.skip(i + 1)) =~= done + encode(rest));
        i += 1;
    }
    assert(encode(chars@.skip(i as int)) =~= seq![]);
    assert(units@ =~= encode(value@));
    units.push(0);
    units
}

/// Decoding gives back every text that was encoded.
pub proof fn decode_inverts_encode(s: Seq<char>)
    ensures
        decode(encode(s)) == s,
    decreases s.len(),
{
    if s.len() > 0 {
        let head = encode_char(s[0]);
        let tail = encode(s.drop_first());
        decode_inverts_encode(s.drop_first());
        lemma_char_code(s[0]);
        if (s[0] as int) < 0x10000 {
            assert((head + tail).skip(1) =~= tail);
        } else {
            assert((head + tail).skip(2) =~= tail);
        }
        assert(decode(encode(s)) =~= s);
    } else {
        assert(decode(encode(s)) =~= s);
    }
}

/// The zero terminator of a text without NUL characters is the first zero unit.
proof fn lemma_zero_at_terminator(s: Seq<char>)
    requires
        !s.contains('\0'),
    ensures
        zero_at(encode(s).push(0)) == encode(s).len(),
    decreases s.len(),
{
    reveal_with_fuel(zero_at, 3);
    let units = encode(s).push(0);
    if s.len() > 0 {
        let rest = s.drop_first();
        assert forall|i: int| 0 <= i < rest.len() implies rest[i] != '\0' by {
            assert(rest[i] == s[i + 1]);
        }
        lemma_zero_at_terminator(rest);
        lemma_char_code(s[0]);
        assert(s[0] != '\0');
        if (s[0] as int) < 0x10000 {
            assert(units.skip(1) =~= encode(rest).push(0));
        } else {
            assert(units.skip(1).skip(1) =~= encode(rest).push(0));
        }
    }
}

/// A text without NUL characters comes back from its zero-terminated form; the empty text
/// comes back as nothing.
pub proof fn wide_text_round_trip(s: Seq<char>)
    requires
        !s.contains('\0'),
    ensures
        terminated_text(encode(s).push(0)) == if s.len() == 0 {
            None::<Seq<char>>
        } else {
            Some(s)
        },
{
    lemma_zero_at_terminator(s);
    decode_inverts_encode(s);
    assert(encode(s).push(0).take(encode(s).len() as int) =~= encode(s));
    if s.len() > 0 {
        assert(encode(s).len() > 0);
    }
}

} // verus!
