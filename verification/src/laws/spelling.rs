//! Text: trimming, searching, ordering, spelling of numbers, and UTF-16.
use vstd::prelude::*;

use crate::text::{
    before, decimal, joined, position, prefix_without, starts_with, trim_end, trim_start, trimmed,
    upper, upper_char, upper_hex, white_space,
};
use crate::wide::{
    decode, encode, encode_char, lemma_char_code, terminated_text, zero_at,
};

verus! {

/// What is left when white space is taken from the front: the part from some place on, with white
/// space alone before it and none at its own front.
proof fn lemma_trim_start(s: Seq<char>) -> (from: int)
    ensures
        0 <= from <= s.len(),
        trim_start(s) == s.skip(from),
        forall|k: int| 0 <= k < from ==> white_space(#[trigger] s[k]),
        from < s.len() ==> !white_space(s[from]),
    decreases s.len(),
{
    if s.len() > 0 && white_space(s[0]) {
        let rest = s.drop_first();
        let from = lemma_trim_start(rest);
        assert(rest.skip(from) =~= s.skip(from + 1));
        assert forall|k: int| 0 <= k < from + 1 implies white_space(#[trigger] s[k]) by {
            if k > 0 {
                assert(rest[k - 1] == s[k]);
            }
        }
        if from < rest.len() {
            assert(rest[from] == s[from + 1]);
        }
        from + 1
    } else {
        assert(s.skip(0) =~= s);
        0
    }
}

/// What is left when white space is taken from the back.
proof fn lemma_trim_end(s: Seq<char>) -> (to: int)
    ensures
        0 <= to <= s.len(),
        trim_end(s) == s.take(to),
        forall|k: int| to <= k < s.len() ==> white_space(#[trigger] s[k]),
        0 < to ==> !white_space(s[to - 1]),
    decreases s.len(),
{
    if s.len() > 0 && white_space(s.last()) {
        let rest = s.drop_last();
        let to = lemma_trim_end(rest);
        assert(rest.take(to) =~= s.take(to));
        assert forall|k: int| to <= k < s.len() implies white_space(#[trigger] s[k]) by {
            if k < rest.len() {
                assert(rest[k] == s[k]);
            }
        }
        to
    } else {
        assert(s.take(s.len() as int) =~= s);
        s.len() as int
    }
}

/// A trimmed text is the part of a text between white space: nothing but white space is left out at
/// either end, and neither end of what is left is white space.
pub proof fn trimming_takes_white_space_alone(s: Seq<char>) -> (ends: (int, int))
    ensures
        0 <= ends.0 <= ends.1 <= s.len(),
        trimmed(s) == s.subrange(ends.0, ends.1),
        forall|k: int| 0 <= k < ends.0 || ends.1 <= k < s.len() ==> white_space(#[trigger] s[k]),
        ends.0 < ends.1 ==> !white_space(s[ends.0]) && !white_space(s[ends.1 - 1]),
{
    let from = lemma_trim_start(s);
    let rest = s.skip(from);
    let to = lemma_trim_end(rest);
    assert(rest.take(to) =~= s.subrange(from, from + to));
    assert forall|k: int| 0 <= k < from || from + to <= k < s.len() implies white_space(
        #[trigger] s[k],
    ) by {
        if k >= from {
            assert(rest[k - from] == s[k]);
        }
    }
    if to > 0 {
        assert(rest[to - 1] == s[from + to - 1]);
    }
    (from, from + to)
}

/// A text without white space at its ends is its own trimmed form.
pub proof fn trimmed_text_stays(s: Seq<char>)
    requires
        s.len() > 0 ==> !white_space(s[0]) && !white_space(s.last()),
    ensures
        trimmed(s) == s,
{
}

/// Upper-casing turns the ASCII letters into their capitals, and nothing else into anything else.
pub proof fn upper_case_of_a_character(c: char)
    ensures
        'a' <= c <= 'z' ==> upper_char(c) as int == c as int - 'a' as int + 'A' as int,
        !('a' <= c <= 'z') ==> upper_char(c) == c,
        upper(seq![c]) == seq![upper_char(c)],
{
    lemma_char_code(c);
    assert(upper(seq![c]) =~= seq![upper_char(c)]);
}

/// Upper-casing goes character by character.
pub proof fn upper_case_of_a_text(s: Seq<char>, i: int)
    requires
        0 <= i < s.len(),
    ensures
        upper(s).len() == s.len(),
        upper(s)[i] == upper_char(s[i]),
{
}

/// Whether a text holds another at some place.
pub open spec fn holds_at(s: Seq<char>, pattern: Seq<char>, at: int) -> bool {
    0 <= at && at + pattern.len() <= s.len() && forall|k: int|
        0 <= k < pattern.len() ==> s[at + k] == #[trigger] pattern[k]
}

/// A search finds the first place, and none only where there is none.
pub proof fn search_finds_the_first_place(s: Seq<char>, pattern: Seq<char>)
    ensures
        match position(s, pattern) {
            Some(at) => holds_at(s, pattern, at as int) && forall|k: int|
                0 <= k < at ==> !#[trigger] holds_at(s, pattern, k),
            None => forall|k: int| !#[trigger] holds_at(s, pattern, k),
        },
    decreases s.len(),
{
    lemma_starts_with(s, pattern);
    if !starts_with(s, pattern) {
        if s.len() == 0 {
            assert forall|k: int| !#[trigger] holds_at(s, pattern, k) by {
                if holds_at(s, pattern, k) {
                    assert(k == 0);
                }
            }
        } else {
            let rest = s.drop_first();
            search_finds_the_first_place(rest, pattern);
            assert forall|k: int| k >= 1 implies #[trigger] holds_at(s, pattern, k) == holds_at(
                rest,
                pattern,
                k - 1,
            ) by {
                if holds_at(s, pattern, k) {
                    assert forall|m: int| 0 <= m < pattern.len() implies rest[k - 1 + m]
                        == #[trigger] pattern[m] by {
                        assert(s[k + m] == pattern[m]);
                    }
                }
                if holds_at(rest, pattern, k - 1) {
                    assert forall|m: int| 0 <= m < pattern.len() implies s[k + m]
                        == #[trigger] pattern[m] by {
                        assert(rest[k - 1 + m] == pattern[m]);
                    }
                }
            }
            match position(rest, pattern) {
                Some(at) => {
                    assert(holds_at(s, pattern, at as int + 1));
                    assert forall|k: int| 0 <= k < at + 1 implies !#[trigger] holds_at(
                        s,
                        pattern,
                        k,
                    ) by {
                        if k >= 1 {
                            assert(!holds_at(rest, pattern, k - 1));
                        }
                    }
                },
                None => {
                    assert forall|k: int| !#[trigger] holds_at(s, pattern, k) by {
                        if k >= 1 {
                            assert(!holds_at(rest, pattern, k - 1));
                        }
                    }
                },
            }
        }
    }
}

/// A text begins with another where it holds it at its front.
proof fn lemma_starts_with(s: Seq<char>, pattern: Seq<char>)
    ensures
        starts_with(s, pattern) == holds_at(s, pattern, 0),
{
    if starts_with(s, pattern) {
        assert forall|k: int| 0 <= k < pattern.len() implies s[0 + k] == #[trigger] pattern[k] by {
            assert(s.take(pattern.len() as int)[k] == pattern[k]);
        }
    }
    if holds_at(s, pattern, 0) {
        assert forall|k: int| 0 <= k < pattern.len() implies s.take(pattern.len() as int)[k]
            == pattern[k] by {
            assert(s[0 + k] == pattern[k]);
        }
        assert(s.take(pattern.len() as int) =~= pattern);
    }
}

/// The part of a text before a character ends at the first such character, or holds all of the
/// text.
pub proof fn prefix_ends_at_the_first_such_character(s: Seq<char>, c: char)
    ensures
        prefix_without(s, c) <= s.len(),
        prefix_without(s, c) < s.len() ==> s[prefix_without(s, c) as int] == c,
        forall|k: int| 0 <= k < prefix_without(s, c) ==> #[trigger] s[k] != c,
    decreases s.len(),
{
    if s.len() > 0 && s[0] != c {
        let rest = s.drop_first();
        prefix_ends_at_the_first_such_character(rest, c);
        let end = prefix_without(rest, c);
        if end < rest.len() {
            assert(s[end as int + 1] == rest[end as int]);
        }
        assert forall|k: int| 0 <= k < end + 1 implies #[trigger] s[k] != c by {
            if k > 0 {
                assert(s[k] == rest[k - 1]);
            }
        }
    }
}

/// Of two texts the one comes first that has the lower character at the first place where they
/// differ, or that is the beginning of the other.
pub proof fn texts_are_ordered_by_their_first_difference(a: Seq<char>, b: Seq<char>, at: int)
    requires
        0 <= at <= a.len(),
        at <= b.len(),
        forall|k: int| 0 <= k < at ==> #[trigger] a[k] == b[k],
    ensures
        at < a.len() && at < b.len() && a[at] != b[at] ==> before(a, b) == (a[at] < b[at]),
        at == a.len() ==> before(a, b) == (a.len() < b.len()),
        at == b.len() ==> !before(a, b),
    decreases at,
{
    if at > 0 {
        assert(a[0] == b[0]);
        let x = a.drop_first();
        let y = b.drop_first();
        assert forall|k: int| 0 <= k < at - 1 implies #[trigger] x[k] == y[k] by {
            assert(a[k + 1] == b[k + 1]);
        }
        texts_are_ordered_by_their_first_difference(x, y, at - 1);
        if at < a.len() && at < b.len() {
            assert(x[at - 1] == a[at] && y[at - 1] == b[at]);
        }
    }
}

/// The number that a text of decimal digits spells.
pub open spec fn number(s: Seq<char>) -> int
    decreases s.len(),
{
    if s.len() == 0 {
        0
    } else {
        10 * number(s.drop_last()) + (s.last() as int - '0' as int)
    }
}

/// The decimal spelling of a number spells that number, in digits alone, without a zero in front.
pub proof fn decimal_spells_the_number(n: nat)
    ensures
        decimal(n).len() > 0,
        number(decimal(n)) == n,
        forall|k: int| 0 <= k < decimal(n).len() ==> '0' <= #[trigger] decimal(n)[k] <= '9',
        n > 0 ==> decimal(n)[0] != '0',
        n == 0 ==> decimal(n) == seq!['0'],
    decreases n,
{
    let s = decimal(n);
    if n >= 10 {
        decimal_spells_the_number(n / 10);
        assert(s.drop_last() =~= decimal(n / 10));
        assert forall|k: int| 0 <= k < s.len() implies '0' <= #[trigger] s[k] <= '9' by {
            if k < s.len() - 1 {
                assert(s[k] == decimal(n / 10)[k]);
            }
        }
        assert(s[0] == decimal(n / 10)[0]);
    } else {
        assert(s.drop_last() =~= seq![]);
        assert(number(seq![]) == 0);
        if n > 0 {
            assert(s[0] as int == 48 + n);
        }
    }
}

/// Different numbers are spelled differently.
pub proof fn decimal_spellings_differ(m: nat, n: nat)
    requires
        m != n,
    ensures
        decimal(m) != decimal(n),
{
    decimal_spells_the_number(m);
    decimal_spells_the_number(n);
}

/// The value of a hexadecimal digit in upper case.
pub open spec fn hex_value(c: char) -> int {
    if '0' <= c <= '9' {
        c as int - '0' as int
    } else {
        c as int - 'A' as int + 10
    }
}

/// The number that a text of hexadecimal digits spells.
pub open spec fn hex_number(s: Seq<char>) -> int
    decreases s.len(),
{
    if s.len() == 0 {
        0
    } else {
        16 * hex_number(s.drop_last()) + hex_value(s.last())
    }
}

/// The hexadecimal spelling of a number spells that number, in digits and capitals alone.
pub proof fn hexadecimal_spells_the_number(n: nat)
    ensures
        upper_hex(n).len() > 0,
        hex_number(upper_hex(n)) == n,
        forall|k: int|
            0 <= k < upper_hex(n).len() ==> '0' <= #[trigger] upper_hex(n)[k] <= '9' || 'A'
                <= upper_hex(n)[k] <= 'F',
    decreases n,
{
    let s = upper_hex(n);
    if n >= 16 {
        hexadecimal_spells_the_number(n / 16);
        assert(s.drop_last() =~= upper_hex(n / 16));
        assert forall|k: int| 0 <= k < s.len() implies '0' <= #[trigger] s[k] <= '9' || 'A' <= s[k]
            <= 'F' by {
            if k < s.len() - 1 {
                assert(s[k] == upper_hex(n / 16)[k]);
            }
        }
    } else {
        assert(s.drop_last() =~= seq![]);
        assert(hex_number(seq![]) == 0);
    }
}

/// Parts are joined in their order, with the separator between each two and nowhere else.
pub proof fn parts_are_joined_in_order(
    parts: Seq<Seq<char>>,
    separator: Seq<char>,
    last: Seq<char>,
)
    ensures
        joined(seq![], separator) == Seq::<char>::empty(),
        joined(seq![last], separator) == last,
        parts.len() > 0 ==> joined(parts.push(last), separator) == joined(parts, separator)
            + separator + last,
{
    assert(parts.push(last).drop_last() =~= parts);
    assert(seq![last][0] == last);
}

/// The units of a character: itself in the basic plane, elsewhere the two surrogates that together
/// stand for it.
pub proof fn units_of_a_character(c: char)
    ensures
        (c as int) < 0x10000 ==> encode_char(c).len() == 1 && encode_char(c)[0] as int == c as int,
        0x10000 <= c as int ==> {
            let units = encode_char(c);
            &&& units.len() == 2
            &&& 0xd800 <= units[0] < 0xdc00
            &&& 0xdc00 <= units[1] < 0xe000
            &&& 0x10000 + (units[0] - 0xd800) * 0x400 + (units[1] - 0xdc00) == c as int
        },
{
    lemma_char_code(c);
}

/// The units of a text are those of its characters, one after the other.
pub proof fn units_of_a_text(a: Seq<char>, b: Seq<char>)
    ensures
        encode(seq![]) == Seq::<u16>::empty(),
        a.len() == 1 ==> encode(a) == encode_char(a[0]),
        encode(a + b) == encode(a) + encode(b),
    decreases a.len(),
{
    if a.len() == 0 {
        assert(a + b =~= b);
        assert(encode(a) + encode(b) =~= encode(b));
    } else {
        units_of_a_text(a.drop_first(), b);
        assert((a + b).drop_first() =~= a.drop_first() + b);
        assert(encode(a + b) =~= encode(a) + encode(b));
        if a.len() == 1 {
            assert(a.drop_first() =~= seq![]);
            assert(encode(a) =~= encode_char(a[0]));
        }
    }
}

/// What units stand for: one outside the surrogates is a character, two that pair are another, and
/// one without its other half is replaced.
pub proof fn characters_of_units(first: u16, rest: Seq<u16>)
    ensures
        !(0xd800 <= first < 0xe000) ==> decode(seq![first] + rest) == seq![first as char] + decode(
            rest,
        ),
        0xdc00 <= first < 0xe000 ==> decode(seq![first] + rest) == seq!['\u{fffd}'] + decode(rest),
        0xd800 <= first < 0xdc00 && (rest.len() == 0 || !(0xdc00 <= rest[0] < 0xe000)) ==> decode(
            seq![first] + rest,
        ) == seq!['\u{fffd}'] + decode(rest),
        0xd800 <= first < 0xdc00 && rest.len() > 0 && 0xdc00 <= rest[0] < 0xe000 ==> decode(
            seq![first] + rest,
        ) == seq![
            (0x10000 + (first - 0xd800) * 0x400 + (rest[0] - 0xdc00)) as char,
        ] + decode(rest.skip(1)),
{
    let units = seq![first] + rest;
    assert(units.skip(1) =~= rest);
    if rest.len() > 0 {
        assert(units.skip(2) =~= rest.skip(1));
        assert(units[1] == rest[0]);
    }
}

/// The terminator of a buffer is its first zero.
pub proof fn terminator_is_the_first_zero(units: Seq<u16>)
    ensures
        zero_at(units) <= units.len(),
        zero_at(units) < units.len() ==> units[zero_at(units) as int] == 0,
        forall|k: int| 0 <= k < zero_at(units) ==> #[trigger] units[k] != 0,
    decreases units.len(),
{
    if units.len() > 0 && units[0] != 0 {
        let rest = units.skip(1);
        terminator_is_the_first_zero(rest);
        let end = zero_at(rest);
        if end < rest.len() {
            assert(units[end as int + 1] == rest[end as int]);
        }
        assert forall|k: int| 0 <= k < end + 1 implies #[trigger] units[k] != 0 by {
            if k > 0 {
                assert(units[k] == rest[k - 1]);
            }
        }
    }
}

/// A buffer holds the text before its first zero, and none where there is no zero or nothing before
/// it.
pub proof fn buffer_holds_the_text_before_its_terminator(buffer: Seq<u16>, end: int)
    requires
        0 <= end <= buffer.len(),
        forall|k: int| 0 <= k < end ==> #[trigger] buffer[k] != 0,
        end < buffer.len() ==> buffer[end] == 0,
    ensures
        0 < end < buffer.len() ==> terminated_text(buffer) == Some(decode(buffer.take(end))),
        end == 0 || end == buffer.len() ==> terminated_text(buffer) is None,
{
    terminator_is_the_first_zero(buffer);
    assert(zero_at(buffer) == end) by {
        if zero_at(buffer) < end {
            assert(buffer[zero_at(buffer) as int] != 0);
        }
        if zero_at(buffer) > end {
            assert(buffer[end] != 0);
        }
    }
}

} // verus!
