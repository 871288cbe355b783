//! Text as sequences of characters: trimming, upper-casing, searching, ordering and
//! the decimal and hexadecimal spelling of numbers.
use vstd::prelude::*;

verus! {

/// `String::push` appends one character.
pub assume_specification[ String::push ](s: &mut String, c: char)
    ensures
        final(s)@ == old(s)@.push(c),
;

/// Whether `c` has the Unicode property White_Space.
pub open spec fn white_space(c: char) -> bool {
    let code = c as u32;
    ||| 0x09 <= code <= 0x0d
    ||| code == 0x20
    ||| code == 0x85
    ||| code == 0xa0
    ||| code == 0x1680
    ||| 0x2000 <= code <= 0x200a
    ||| code == 0x2028
    ||| code == 0x2029
    ||| code == 0x202f
    ||| code == 0x205f
    ||| code == 0x3000
}

/// `s` without its leading white space.
pub open spec fn trim_start(s: Seq<char>) -> Seq<char>
    decreases s.len(),
{
    if s.len() > 0 && white_space(s[0]) {
        trim_start(s.drop_first())
    } else {
        s
    }
}

/// `s` without its trailing white space.
pub open spec fn trim_end(s: Seq<char>) -> Seq<char>
    decreases s.len(),
{
    if s.len() > 0 && white_space(s.last()) {
        trim_end(s.drop_last())
    } else {
        s
    }
}

/// `s` without leading and trailing white space.
pub open spec fn trimmed(s: Seq<char>) -> Seq<char> {
    trim_end(trim_start(s))
}

/// The ASCII upper-case form of one character; all others stay as they are.
pub open spec fn upper_char(c: char) -> char {
    if 'a' <= c <= 'z' {
        ((c as u32) - 32) as char
    } else {
        c
    }
}

/// `s` with every ASCII lower-case letter replaced by its upper-case form.
pub open spec fn upper(s: Seq<char>) -> Seq<char> {
    Seq::new(s.len(), |i: int| upper_char(s[i]))
}

/// Whether `s` begins with `pattern`.
pub open spec fn starts_with(s: Seq<char>, pattern: Seq<char>) -> bool {
    pattern.len() <= s.len() && s.take(pattern.len() as int) == pattern
}

/// The first place at which `pattern` stands in `s`.
pub open spec fn position(s: Seq<char>, pattern: Seq<char>) -> Option<nat>
    decreases s.len(),
{
    if starts_with(s, pattern) {
        Some(0)
    } else if s.len() == 0 {
        None
    } else {
        match position(s.drop_first(), pattern) {
            Some(at) => Some(at + 1),
            None => None,
        }
    }
}

/// The length of the longest prefix of `s` that does not hold `c`.
pub open spec fn prefix_without(s: Seq<char>, c: char) -> nat
    decreases s.len(),
{
    if s.len() == 0 || s[0] == c {
        0
    } else {
        1 + prefix_without(s.drop_first(), c)
    }
}

/// Whether `a` comes strictly before `b` in the lexicographic order of code points.
pub open spec fn before(a: Seq<char>, b: Seq<char>) -> bool
    decreases a.len(),
{
    if b.len() == 0 {
        false
    } else if a.len() == 0 {
        true
    } else if a[0] != b[0] {
        a[0] < b[0]
    } else {
        before(a.drop_first(), b.drop_first())
    }
}

/// The character of a decimal digit.
pub open spec fn digit(n: nat) -> char {
    (48 + n) as char
}

/// The decimal spelling of `n`.
pub open spec fn decimal(n: nat) -> Seq<char>
    decreases n,
{
    if n < 10 {
        seq![digit(n)]
    } else {
        decimal(n / 10).push(digit(n % 10))
    }
}

/// The character of a hexadecimal digit, in upper case.
pub open spec fn hex_digit(n: nat) -> char {
    if n < 10 {
        (48 + n) as char
    } else {
        (55 + n) as char
    }
}

/// The upper-case hexadecimal spelling of `n`.
pub open spec fn upper_hex(n: nat) -> Seq<char>
    decreases n,
{
    if n < 16 {
        seq![hex_digit(n)]
    } else {
        upper_hex(n / 16).push(hex_digit(n % 16))
    }
}

/// The parts one after another, with `separator` between each two.
pub open spec fn joined(parts: Seq<Seq<char>>, separator: Seq<char>) -> Seq<char>
    decreases parts.len(),
{
    if parts.len() == 0 {
        seq![]
    } else if parts.len() == 1 {
        parts[0]
    } else {
        joined(parts.drop_last(), separator) + separator + parts.last()
    }
}

/// The contents of the strings of a list.
pub open spec fn views(list: Seq<String>) -> Seq<Seq<char>> {
    Seq::new(list.len(), |i: int| list[i]@)
}

/// The characters of a string, in order.
pub fn chars_of(s: &str) -> (chars: Vec<char>)
    ensures
        chars@ == s@,
{
    let mut chars: Vec<char> = Vec::new();
    for c in it: s.chars()
        invariant
            chars@ == it.seq().take(it.index() as int),
            it.seq() == s@,
    {
        chars.push(c);
    }
    chars
}

/// The string made of the given characters.
pub fn string_of(chars: &[char]) -> (s: String)
    ensures
        s@ == chars@,
{
    let mut s = String::new();
    let mut i: usize = 0;
    while i < chars.len()
        invariant
            i <= chars@.len(),
            s@ == chars@.take(i as int),
        decreases chars@.len() - i,
    {
        s.push(chars[i]);
        i += 1;
    }
    assert(chars@.take(i as int) == chars@);
    s
}

/// Whether a character is white space.
pub fn is_white_space(c: char) -> (r: bool)
    ensures
        r == white_space(c),
{
    let code: u32 = c as u32;
    (0x09 <= code && code <= 0x0d) || code == 0x20 || code == 0x85 || code == 0xa0 || code == 0x1680
        || (0x2000 <= code && code <= 0x200a) || code == 0x2028 || code == 0x2029 || code == 0x202f
        || code == 0x205f || code == 0x3000
}

/// The ASCII upper-case form of one character.
pub fn upper_of(c: char) -> (r: char)
    ensures
        r == upper_char(c),
{
    if 'a' <= c && c <= 'z' {
        let code: u8 = c as u8;
        (code - 32) as char
    } else {
        c
    }
}

/// The characters with every ASCII lower-case letter in upper case.
pub fn upper_chars(chars: &[char]) -> (r: Vec<char>)
    ensures
        r@ == upper(chars@),
{
    let mut r: Vec<char> = Vec::new();
    let mut i: usize = 0;
    while i < chars.len()
        invariant
            i <= chars@.len(),
            r@ == upper(chars@).take(i as int),
        decreases chars@.len() - i,
    {
        r.push(upper_of(chars[i]));
        i += 1;
    }
    r
}

/// The string with every ASCII lower-case letter in upper case.
pub fn to_upper(s: &str) -> (r: String)
    ensures
        r@ == upper(s@),
{
    let chars = chars_of(s);
    let raised = upper_chars(&chars);
    string_of(&raised)
}

/// The characters without leading and trailing white space.
pub fn trim_chars(chars: &[char]) -> (r: &[char])
    ensures
        r@ == trimmed(chars@),
{
    let mut start: usize = 0;
    assert(chars@.skip(0) == chars@);
    while start < chars.len() && is_white_space(chars[start])
        invariant
            start <= chars@.len(),
            trim_start(chars@) == trim_start(chars@.skip(start as int)),
        decreases chars@.len() - start,
    {
        assert(chars@.skip(start as int).drop_first() == chars@.skip(start + 1));
        start += 1;
    }
    let ghost rest = chars@.skip(start as int);
    assert(trim_start(chars@) == rest);
    let mut end: usize = chars.len();
    assert(rest == chars@.subrange(start as int, end as int));
    while start < end && is_white_space(chars[end - 1])
        invariant
            start <= end <= chars@.len(),
            trim_end(rest) == trim_end(chars@.subrange(start as int, end as int)),
        decreases end - start,
    {
        assert(chars@.subrange(start as int, end as int).drop_last() == chars@.subrange(
            start as int,
            end - 1,
        ));
        end -= 1;
    }
    &chars[start..end]
}

/// The string without leading and trailing white space.
pub fn trim(s: &str) -> (r: String)
    ensures
        r@ == trimmed(s@),
{
    let chars = chars_of(s);
    string_of(trim_chars(&chars))
}

/// Whether `pattern` stands in `chars` at `at`.
fn matches_at(chars: &[char], pattern: &[char], at: usize) -> (r: bool)
    requires
        at <= chars@.len(),
    ensures
        r == starts_with(chars@.skip(at as int), pattern@),
{
    let count: usize = chars.len();
    if count - at < pattern.len() {
        return false;
    }
    let ghost rest = chars@.skip(at as int);
    let mut i: usize = 0;
    while i < pattern.len()
        invariant
            i <= pattern@.len(),
            at + pattern@.len() <= chars@.len(),
            chars@.len() == count,
            rest == chars@.skip(at as int),
            forall|k: int| 0 <= k < i ==> rest[k] == pattern@[k],
        decreases pattern@.len() - i,
    {
        if chars[at + i] != pattern[i] {
            assert(rest.take(pattern@.len() as int)[i as int] != pattern@[i as int]);
            return false;
        }
        i += 1;
    }
    assert(rest.take(pattern@.len() as int) =~= pattern@);
    true
}

/// The first place at which `pattern` stands in `chars`.
pub fn find(chars: &[char], pattern: &[char]) -> (r: Option<usize>)
    ensures
        match r {
            Some(at) => position(chars@, pattern@) == Some(at as nat) && at + pattern@.len()
                <= chars@.len(),
            None => position(chars@, pattern@) is None,
        },
{
    let mut at: usize = 0;
    assert(chars@.skip(0) == chars@);
    while at < chars.len()
        invariant
            at <= chars@.len(),
            position(chars@, pattern@) == match position(chars@.skip(at as int), pattern@) {
                Some(k) => Some(at as nat + k),
                None => None,
            },
        decreases chars@.len() - at,
    {
        if matches_at(chars, pattern, at) {
            return Some(at);
        }
        assert(chars@.skip(at as int).drop_first() == chars@.skip(at + 1));
        at += 1;
    }
    if matches_at(chars, pattern, at) {
        Some(at)
    } else {
        None
    }
}

/// How many characters stand before the first `c`, or all of them where there is none.
pub fn count_before(chars: &[char], c: char) -> (r: usize)
    ensures
        r == prefix_without(chars@, c),
        r <= chars@.len(),
        r < chars@.len() ==> chars@[r as int] == c,
{
    let mut i: usize = 0;
    assert(chars@.skip(0) == chars@);
    while i < chars.len() && chars[i] != c
        invariant
            i <= chars@.len(),
            prefix_without(chars@, c) == i + prefix_without(chars@.skip(i as int), c),
        decreases chars@.len() - i,
    {
        assert(chars@.skip(i as int).drop_first() == chars@.skip(i + 1));
        i += 1;
    }
    i
}

/// Whether `a` comes strictly before `b` in the lexicographic order of code points.
pub fn is_before(a: &str, b: &str) -> (r: bool)
    ensures
        r == before(a@, b@),
{
    let x = chars_of(a);
    let y = chars_of(b);
    let mut i: usize = 0;
    assert(x@.skip(0) == x@ && y@.skip(0) == y@);
    while i < x.len() && i < y.len() && x[i] == y[i]
        invariant
            i <= x@.len(),
            i <= y@.len(),
            before(x@, y@) == before(x@.skip(i as int), y@.skip(i as int)),
        decreases x@.len() - i,
    {
        assert(x@.skip(i as int).drop_first() == x@.skip(i + 1));
        assert(y@.skip(i as int).drop_first() == y@.skip(i + 1));
        i += 1;
    }
    if i >= y.len() {
        false
    } else if i >= x.len() {
        true
    } else {
        x[i] < y[i]
    }
}

/// No text comes before itself.
pub proof fn lemma_before_irreflexive(a: Seq<char>)
    ensures
        !before(a, a),
    decreases a.len(),
{
    if a.len() > 0 {
        lemma_before_irreflexive(a.drop_first());
    }
}

/// The order of texts is transitive.
pub proof fn lemma_before_transitive(a: Seq<char>, b: Seq<char>, c: Seq<char>)
    requires
        before(a, b),
        before(b, c),
    ensures
        before(a, c),
    decreases a.len(),
{
    if a.len() > 0 && a[0] == b[0] && b[0] == c[0] {
        lemma_before_transitive(a.drop_first(), b.drop_first(), c.drop_first());
    }
}

/// Of two different texts one comes before the other.
pub proof fn lemma_before_total(a: Seq<char>, b: Seq<char>)
    ensures
        a == b || before(a, b) || before(b, a),
    decreases a.len(),
{
    if a.len() > 0 && b.len() > 0 {
        if a[0] == b[0] {
            lemma_before_total(a.drop_first(), b.drop_first());
            if a.drop_first() == b.drop_first() {
                assert(a =~= seq![a[0]] + a.drop_first());
                assert(b =~= seq![b[0]] + b.drop_first());
            }
        }
    } else if a.len() == 0 && b.len() == 0 {
        assert(a =~= b);
    }
}

/// The decimal spelling of a number.
pub fn decimal_string(n: u64) -> (s: String)
    ensures
        s@ == decimal(n as nat),
    decreases n,
{
    let last: u8 = (n % 10) as u8;
    let mut s = if n < 10 {
        String::new()
    } else {
        decimal_string(n / 10)
    };
    s.push((48 + last) as char);
    assert(s@ =~= decimal(n as nat));
    s
}

/// The upper-case hexadecimal spelling of a number.
pub fn upper_hex_string(n: u64) -> (s: String)
    ensures
        s@ == upper_hex(n as nat),
    decreases n,
{
    let last: u8 = (n % 16) as u8;
    let mut s = if n < 16 {
        String::new()
    } else {
        upper_hex_string(n / 16)
    };
    s.push(
        if last < 10 {
            (48 + last) as char
        } else {
            (55 + last) as char
        },
    );
    assert(s@ =~= upper_hex(n as nat));
    s
}

/// The strings one after another, with `separator` between each two.
pub fn join(parts: &[String], separator: &str) -> (s: String)
    ensures
        s@ == joined(views(parts@), separator@),
{
    let ghost all = views(parts@);
    let mut s = String::new();
    let mut i: usize = 0;
    while i < parts.len()
        invariant
            i <= parts@.len(),
            all == views(parts@),
            s@ == joined(all.take(i as int), separator@),
        decreases parts@.len() - i,
    {
        if i > 0 {
            s.append(separator);
        }
        s.append(parts[i].as_str());
        assert(all.take(i + 1).drop_last() == all.take(i as int));
        assert(s@ =~= joined(all.take(i + 1), separator@));
        i += 1;
    }
    assert(all.take(i as int) == all);
    s
}

/// A copy of a list of strings.
pub fn copy_of(list: &[String]) -> (r: Vec<String>)
    ensures
        r@ == list@,
{
    let mut r: Vec<String> = Vec::new();
    let mut i: usize = 0;
    while i < list.len()
        invariant
            i <= list@.len(),
            r@ == list@.take(i as int),
        decreases list@.len() - i,
    {
        r.push(list[i].clone());
        i += 1;
    }
    assert(list@.take(i as int) == list@);
    r
}

/// Two strings one after the other.
pub fn concat(a: &str, b: &str) -> (s: String)
    ensures
        s@ == a@ + b@,
{
    let mut s = a.to_owned();
    s.append(b);
    s
}

/// Three strings one after the other.
pub fn concat3(a: &str, b: &str, c: &str) -> (s: String)
    ensures
        s@ == a@ + b@ + c@,
{
    let mut s = concat(a, b);
    s.append(c);
    s
}

} // verus!
