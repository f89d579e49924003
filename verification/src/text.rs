//! Text operations over the characters of a string.
//!
//! A string is modelled by its sequence of characters. The functions here work
//! on that sequence: searching, trimming, joining, and reading and writing
//! decimal numbers.

use vstd::prelude::*;

verus! {

/// `str` equality compares the two texts character by character.
pub assume_specification[ <str as PartialEq<str>>::eq ](left: &str, right: &str) -> (same: bool)
    ensures
        same == (left@ == right@),
;

/// True when the two texts are equal.
pub fn same_text(left: &str, right: &str) -> (same: bool)
    ensures
        same == (left@ == right@),
{
    *left == *right
}

/// The pattern stands in `text` at character `at`.
pub open spec fn occurs_at(text: Seq<char>, pattern: Seq<char>, at: int) -> bool {
    &&& 0 <= at
    &&& at + pattern.len() <= text.len()
    &&& text.subrange(at, at + pattern.len()) == pattern
}

/// The first character position from `from` on at which the pattern stands.
pub open spec fn first_from(text: Seq<char>, pattern: Seq<char>, from: int) -> Option<int>
    decreases text.len() - from + 1,
{
    if from < 0 || from + pattern.len() > text.len() {
        None
    } else if occurs_at(text, pattern, from) {
        Some(from)
    } else {
        first_from(text, pattern, from + 1)
    }
}

/// The first character position at which the pattern stands.
pub open spec fn first_at(text: Seq<char>, pattern: Seq<char>) -> Option<int> {
    first_from(text, pattern, 0)
}

/// `first_at` is a position of the pattern, and no earlier one is.
pub proof fn lemma_first_from(text: Seq<char>, pattern: Seq<char>, from: int)
    requires
        0 <= from,
    ensures
        first_from(text, pattern, from) matches Some(at) ==> from <= at && occurs_at(
            text,
            pattern,
            at,
        ) && forall|j: int| from <= j < at ==> !occurs_at(text, pattern, j),
        first_from(text, pattern, from) is None ==> forall|j: int|
            from <= j ==> !occurs_at(text, pattern, j),
    decreases text.len() - from + 1,
{
    if from + pattern.len() <= text.len() && !occurs_at(text, pattern, from) {
        lemma_first_from(text, pattern, from + 1);
    }
}

/// The text starts with the prefix.
pub open spec fn has_prefix(text: Seq<char>, prefix: Seq<char>) -> bool {
    occurs_at(text, prefix, 0)
}

/// The characters of the Unicode `White_Space` property.
pub open spec fn is_white_space(c: char) -> bool {
    let n = c as u32;
    ||| 9 <= n <= 13
    ||| n == 32
    ||| n == 0x85
    ||| n == 0xa0
    ||| n == 0x1680
    ||| 0x2000 <= n <= 0x200a
    ||| n == 0x2028
    ||| n == 0x2029
    ||| n == 0x202f
    ||| n == 0x205f
    ||| n == 0x3000
}

/// The text without its leading white space.
pub open spec fn trimmed_start(text: Seq<char>) -> Seq<char>
    decreases text.len(),
{
    if text.len() > 0 && is_white_space(text[0]) {
        trimmed_start(text.subrange(1, text.len() as int))
    } else {
        text
    }
}

/// The text without its trailing white space.
pub open spec fn trimmed_end(text: Seq<char>) -> Seq<char>
    decreases text.len(),
{
    if text.len() > 0 && is_white_space(text[text.len() - 1]) {
        trimmed_end(text.subrange(0, text.len() - 1))
    } else {
        text
    }
}

/// The text without its leading and trailing white space.
pub open spec fn trimmed(text: Seq<char>) -> Seq<char> {
    trimmed_end(trimmed_start(text))
}

/// The text without its leading newlines and spaces.
pub open spec fn after_blanks(text: Seq<char>) -> Seq<char>
    decreases text.len(),
{
    if text.len() > 0 && (text[0] == '\n' || text[0] == ' ') {
        after_blanks(text.subrange(1, text.len() as int))
    } else {
        text
    }
}

/// The text with every occurrence of the pattern removed, from the left.
pub open spec fn removed_all(text: Seq<char>, pattern: Seq<char>) -> Seq<char>
    decreases text.len(),
{
    match first_at(text, pattern) {
        Some(at) => if 0 <= at && at + pattern.len() <= text.len() && pattern.len() > 0 {
            text.subrange(0, at) + removed_all(
                text.subrange(at + pattern.len(), text.len() as int),
                pattern,
            )
        } else {
            text
        },
        None => text,
    }
}

/// The parts joined by the separator.
pub open spec fn joined(parts: Seq<Seq<char>>, separator: Seq<char>) -> Seq<char>
    decreases parts.len(),
{
    if parts.len() == 0 {
        Seq::empty()
    } else if parts.len() == 1 {
        parts[0]
    } else {
        joined(parts.drop_last(), separator) + separator + parts.last()
    }
}

/// One digit of a number below sixteen, in lower case.
pub open spec fn digit(d: nat) -> Seq<char> {
    if d == 0 {
        "0"@
    } else if d == 1 {
        "1"@
    } else if d == 2 {
        "2"@
    } else if d == 3 {
        "3"@
    } else if d == 4 {
        "4"@
    } else if d == 5 {
        "5"@
    } else if d == 6 {
        "6"@
    } else if d == 7 {
        "7"@
    } else if d == 8 {
        "8"@
    } else if d == 9 {
        "9"@
    } else if d == 10 {
        "a"@
    } else if d == 11 {
        "b"@
    } else if d == 12 {
        "c"@
    } else if d == 13 {
        "d"@
    } else if d == 14 {
        "e"@
    } else {
        "f"@
    }
}

/// The number written in the base, without leading zeros.
pub open spec fn numeral(n: nat, base: nat) -> Seq<char>
    decreases n,
{
    if base < 2 || n < base {
        digit(n)
    } else {
        proof {
            vstd::arithmetic::div_mod::lemma_div_decreases(n as int, base as int);
        }
        numeral(n / base, base) + digit(n % base)
    }
}

/// The decimal text of a number.
pub open spec fn decimal(n: nat) -> Seq<char> {
    numeral(n, 10)
}

/// The lower-case hexadecimal text of a number.
pub open spec fn hexadecimal(n: nat) -> Seq<char> {
    numeral(n, 16)
}

/// The decimal text of a signed number.
pub open spec fn signed_decimal(n: int) -> Seq<char> {
    if n < 0 {
        "-"@ + decimal((-n) as nat)
    } else {
        decimal(n as nat)
    }
}

/// The value of a decimal digit.
pub open spec fn digit_value(c: char) -> Option<nat> {
    if '0' <= c <= '9' {
        Some((c as u32 - '0' as u32) as nat)
    } else {
        None
    }
}

/// The number that a text of decimal digits alone writes.
pub open spec fn digits_value(text: Seq<char>) -> Option<nat>
    decreases text.len(),
{
    if text.len() == 0 {
        None
    } else {
        match digit_value(text.last()) {
            None => None,
            Some(low) => if text.len() == 1 {
                Some(low)
            } else {
                match digits_value(text.drop_last()) {
                    None => None,
                    Some(high) => Some(high * 10 + low),
                }
            },
        }
    }
}

/// The number in a decimal text with an optional `+`, within `0..=max`.
pub open spec fn read_unsigned(text: Seq<char>, max: nat) -> Option<nat> {
    let digits = if text.len() > 0 && text[0] == '+' {
        text.subrange(1, text.len() as int)
    } else {
        text
    };
    match digits_value(digits) {
        Some(n) => if n <= max {
            Some(n)
        } else {
            None
        },
        None => None,
    }
}

/// The number in a decimal text with an optional `+` or `-`, within the range
/// of `i32`.
pub open spec fn read_i32(text: Seq<char>) -> Option<i32> {
    if text.len() > 0 && text[0] == '-' {
        match digits_value(text.subrange(1, text.len() as int)) {
            Some(n) => if n <= 0x8000_0000 {
                Some((-(n as int)) as i32)
            } else {
                None
            },
            None => None,
        }
    } else {
        match read_unsigned(text, 0x7fff_ffff) {
            Some(n) => Some(n as i32),
            None => None,
        }
    }
}

/// The characters of a text.
pub fn characters(text: &str) -> (chars: Vec<char>)
    ensures
        chars@ == text@,
{
    let mut chars: Vec<char> = Vec::new();
    for c in iter: text.chars()
        invariant
            iter.seq() == text@,
            chars@ == text@.take(iter.index() as int),
    {
        chars.push(c);
    }
    chars
}

/// True when the pattern stands at the position.
fn stands_at(text: &Vec<char>, pattern: &Vec<char>, at: usize) -> (found: bool)
    requires
        at + pattern@.len() <= text@.len(),
    ensures
        found == occurs_at(text@, pattern@, at as int),
{
    let total: usize = text.len();
    let mut i: usize = 0;
    while i < pattern.len()
        invariant
            total == text@.len(),
            i <= pattern@.len(),
            at + pattern@.len() <= text@.len(),
            forall|j: int| 0 <= j < i ==> text@[at + j] == pattern@[j],
        decreases pattern@.len() - i,
    {
        if text[at + i] != pattern[i] {
            assert(text@.subrange(at as int, at + pattern@.len())[i as int] != pattern@[i as int]);
            return false;
        }
        i = i + 1;
    }
    assert(text@.subrange(at as int, at + pattern@.len()) =~= pattern@);
    true
}

/// Copies an optional text.
pub fn clone_text(text: &Option<String>) -> (copy: Option<String>)
    ensures
        copy.deep_view() == text.deep_view(),
{
    match text {
        Some(text) => Some(text.clone()),
        None => None,
    }
}

/// The first character position of the pattern in the text.
pub fn find(text: &str, pattern: &str) -> (at: Option<usize>)
    ensures
        at is Some == first_at(text@, pattern@) is Some,
        at matches Some(i) ==> first_at(text@, pattern@) == Some(i as int) && i + pattern@.len()
            <= text@.len() && occurs_at(text@, pattern@, i as int),
{
    let text_chars = characters(text);
    let pattern_chars = characters(pattern);
    let total: usize = text_chars.len();
    let mut i: usize = 0;
    while pattern_chars.len() <= text_chars.len() && i <= text_chars.len() - pattern_chars.len()
        invariant
            text_chars@ == text@,
            pattern_chars@ == pattern@,
            total == text@.len(),
            i <= text@.len() + 1,
            first_at(text@, pattern@) == first_from(text@, pattern@, i as int),
        decreases text@.len() + 1 - i,
    {
        if stands_at(&text_chars, &pattern_chars, i) {
            return Some(i);
        }
        assert(pattern@.len() == 0 ==> text@.subrange(i as int, i as int) =~= pattern@);
        i = i + 1;
    }
    None
}

/// True when the text starts with the prefix.
pub fn starts_with(text: &str, prefix: &str) -> (yes: bool)
    ensures
        yes == has_prefix(text@, prefix@),
{
    let text_chars = characters(text);
    let prefix_chars = characters(prefix);
    prefix_chars.len() <= text_chars.len() && stands_at(&text_chars, &prefix_chars, 0)
}

/// The characters of the text from one position to another.
pub fn slice(text: &str, from: usize, to: usize) -> (part: String)
    requires
        from <= to <= text@.len(),
    ensures
        part@ == text@.subrange(from as int, to as int),
{
    text.substring_char(from, to).to_owned()
}

/// True for a character of the `White_Space` property.
fn white_space(c: char) -> (yes: bool)
    ensures
        yes == is_white_space(c),
{
    let n: u32 = c as u32;
    (9 <= n && n <= 13) || n == 32 || n == 0x85 || n == 0xa0 || n == 0x1680 || (0x2000 <= n && n
        <= 0x200a) || n == 0x2028 || n == 0x2029 || n == 0x202f || n == 0x205f || n == 0x3000
}

proof fn lemma_skip_one(text: Seq<char>, from: int)
    requires
        0 <= from < text.len(),
    ensures
        text.subrange(from, text.len() as int).subrange(1, text.len() - from) =~= text.subrange(
            from + 1,
            text.len() as int,
        ),
{
}

/// The text without its leading white space.
pub fn trim_start(text: &str) -> (rest: String)
    ensures
        rest@ == trimmed_start(text@),
{
    let chars = characters(text);
    let mut from: usize = 0;
    assert(text@.subrange(0, text@.len() as int) =~= text@);
    while from < chars.len() && white_space(chars[from])
        invariant
            chars@ == text@,
            from <= text@.len(),
            trimmed_start(text@) == trimmed_start(text@.subrange(from as int, text@.len() as int)),
        decreases text@.len() - from,
    {
        proof {
            lemma_skip_one(text@, from as int);
        }
        from = from + 1;
    }
    slice(text, from, chars.len())
}

/// The text without its leading newlines and spaces.
pub fn skip_blanks(text: &str) -> (rest: String)
    ensures
        rest@ == after_blanks(text@),
{
    let chars = characters(text);
    let mut from: usize = 0;
    assert(text@.subrange(0, text@.len() as int) =~= text@);
    while from < chars.len() && (chars[from] == '\n' || chars[from] == ' ')
        invariant
            chars@ == text@,
            from <= text@.len(),
            after_blanks(text@) == after_blanks(text@.subrange(from as int, text@.len() as int)),
        decreases text@.len() - from,
    {
        proof {
            lemma_skip_one(text@, from as int);
        }
        from = from + 1;
    }
    slice(text, from, chars.len())
}

/// The text without its trailing white space.
fn trim_end(text: &str) -> (rest: String)
    ensures
        rest@ == trimmed_end(text@),
{
    let chars = characters(text);
    let mut to: usize = chars.len();
    assert(text@.subrange(0, text@.len() as int) =~= text@);
    while to > 0 && white_space(chars[to - 1])
        invariant
            chars@ == text@,
            to <= text@.len(),
            trimmed_end(text@) == trimmed_end(text@.subrange(0, to as int)),
        decreases to,
    {
        assert(text@.subrange(0, to as int).subrange(0, to - 1) =~= text@.subrange(0, to - 1));
        to = to - 1;
    }
    slice(text, 0, to)
}

/// The text without its leading and trailing white space.
pub fn trim(text: &str) -> (rest: String)
    ensures
        rest@ == trimmed(text@),
{
    let started = trim_start(text);
    trim_end(started.as_str())
}

/// The text with every occurrence of the pattern removed.
pub fn remove_all(text: &str, pattern: &str) -> (rest: String)
    requires
        pattern@.len() > 0,
    ensures
        rest@ == removed_all(text@, pattern@),
{
    let mut kept = String::new();
    let mut tail = text.to_owned();
    assert(kept@ + removed_all(tail@, pattern@) =~= removed_all(text@, pattern@));
    loop
        invariant
            pattern@.len() > 0,
            kept@ + removed_all(tail@, pattern@) == removed_all(text@, pattern@),
        decreases tail@.len(),
    {
        match find(tail.as_str(), pattern) {
            None => {
                kept.append(tail.as_str());
                return kept;
            },
            Some(at) => {
                let ghost before = kept@;
                let ghost whole = tail@;
                let end: usize = tail.as_str().unicode_len();
                let width: usize = pattern.unicode_len();
                kept.append(slice(tail.as_str(), 0, at).as_str());
                tail = slice(tail.as_str(), at + width, end);
                assert(before + (whole.subrange(0, at as int) + removed_all(tail@, pattern@))
                    =~= kept@ + removed_all(tail@, pattern@));
            },
        }
    }
}

/// The views of a sequence of strings.
pub open spec fn texts(parts: Seq<String>) -> Seq<Seq<char>> {
    Seq::new(parts.len(), |i: int| parts[i]@)
}

/// Join the parts with the separator.
pub fn join(parts: &Vec<String>, separator: &str) -> (text: String)
    ensures
        text@ == joined(texts(parts@), separator@),
{
    let mut text = String::new();
    let mut i: usize = 0;
    assert(texts(parts@).take(0) =~= Seq::empty());
    while i < parts.len()
        invariant
            i <= parts@.len(),
            text@ == joined(texts(parts@).take(i as int), separator@),
        decreases parts@.len() - i,
    {
        if i > 0 {
            text.append(separator);
        }
        text.append(parts[i].as_str());
        proof {
            let next = texts(parts@).take(i + 1);
            assert(next.drop_last() =~= texts(parts@).take(i as int));
            assert(Seq::<char>::empty() + parts@[i as int]@ =~= parts@[i as int]@);
        }
        i = i + 1;
    }
    assert(texts(parts@).take(i as int) =~= texts(parts@));
    text
}

/// The digit of a number below sixteen.
fn digit_text(d: u8) -> (text: &'static str)
    requires
        d < 16,
    ensures
        text@ == digit(d as nat),
{
    if d == 0 {
        "0"
    } else if d == 1 {
        "1"
    } else if d == 2 {
        "2"
    } else if d == 3 {
        "3"
    } else if d == 4 {
        "4"
    } else if d == 5 {
        "5"
    } else if d == 6 {
        "6"
    } else if d == 7 {
        "7"
    } else if d == 8 {
        "8"
    } else if d == 9 {
        "9"
    } else if d == 10 {
        "a"
    } else if d == 11 {
        "b"
    } else if d == 12 {
        "c"
    } else if d == 13 {
        "d"
    } else if d == 14 {
        "e"
    } else {
        "f"
    }
}

/// The decimal text of a number.
pub fn decimal_text(n: u64) -> (text: String)
    ensures
        text@ == decimal(n as nat),
    decreases n,
{
    if n < 10 {
        digit_text(n as u8).to_owned()
    } else {
        let mut text = decimal_text(n / 10);
        text.append(digit_text((n % 10) as u8));
        text
    }
}

/// The decimal text of a signed number.
pub fn signed_text(n: i64) -> (text: String)
    ensures
        text@ == signed_decimal(n as int),
{
    if n < 0 {
        let magnitude: u64 = if n == i64::MIN {
            0x8000_0000_0000_0000
        } else {
            (-n) as u64
        };
        let mut text = "-".to_owned();
        text.append(decimal_text(magnitude).as_str());
        text
    } else {
        decimal_text(n as u64)
    }
}

/// The lower-case hexadecimal text of a number.
pub fn hexadecimal_text(n: u128) -> (text: String)
    ensures
        text@ == hexadecimal(n as nat),
    decreases n,
{
    if n < 16 {
        digit_text(n as u8).to_owned()
    } else {
        let mut text = hexadecimal_text(n / 16);
        text.append(digit_text((n % 16) as u8));
        text
    }
}

proof fn lemma_digits_value_grows(text: Seq<char>, upto: int)
    requires
        0 < upto <= text.len(),
    ensures
        digits_value(text) matches Some(n) ==> digits_value(text.take(upto)) matches Some(m) && m
            <= n,
    decreases text.len(),
{
    if upto < text.len() {
        lemma_digits_value_grows(text.drop_last(), upto);
        assert(text.drop_last().take(upto) =~= text.take(upto));
    } else {
        assert(text.take(upto) =~= text);
    }
}

/// Read decimal digits from a position to the end, as a number up to `max`.
fn read_digits(chars: &Vec<char>, from: usize, max: u64) -> (value: Option<u64>)
    requires
        from <= chars@.len(),
        max <= 0xffff_ffff,
    ensures
        ({
            let digits = digits_value(chars@.subrange(from as int, chars@.len() as int));
            match value {
                Some(n) => digits == Some(n as nat) && n <= max,
                None => digits matches Some(n) ==> n > max,
            }
        }),
{
    let ghost digits = chars@.subrange(from as int, chars@.len() as int);
    if from == chars.len() {
        return None;
    }
    let mut value: u64 = 0;
    let mut i: usize = from;
    while i < chars.len()
        invariant
            from <= i <= chars@.len(),
            from < chars@.len(),
            max <= 0xffff_ffff,
            digits == chars@.subrange(from as int, chars@.len() as int),
            value <= max,
            i == from ==> value == 0,
            i > from ==> digits_value(digits.take(i - from)) == Some(value as nat),
        decreases chars@.len() - i,
    {
        let c: char = chars[i];
        proof {
            assert(digits.take(i - from + 1).drop_last() =~= digits.take(i - from));
            assert(digits.take(i - from + 1).last() == c);
            lemma_digits_value_grows(digits, i - from + 1);
        }
        if c < '0' || c > '9' {
            return None;
        }
        let low: u64 = (c as u32 - '0' as u32) as u64;
        value = value * 10 + low;
        if value > max {
            return None;
        }
        i = i + 1;
    }
    assert(digits.take(i - from) =~= digits);
    Some(value)
}

/// Read a decimal number with an optional `+`, up to `u32::MAX`.
pub fn parse_u32(text: &str) -> (value: Option<u32>)
    ensures
        match value {
            Some(n) => read_unsigned(text@, 0xffff_ffff) == Some(n as nat),
            None => read_unsigned(text@, 0xffff_ffff) is None,
        },
{
    let chars = characters(text);
    let from: usize = if chars.len() > 0 && chars[0] == '+' {
        1
    } else {
        0
    };
    assert(text@.subrange(0, text@.len() as int) =~= text@);
    match read_digits(&chars, from, 0xffff_ffff) {
        Some(n) => Some(n as u32),
        None => None,
    }
}

/// Read a decimal number with an optional `+` or `-`, in the range of `i32`.
pub fn parse_i32(text: &str) -> (value: Option<i32>)
    ensures
        value == read_i32(text@),
{
    let chars = characters(text);
    assert(text@.subrange(0, text@.len() as int) =~= text@);
    if chars.len() > 0 && chars[0] == '-' {
        match read_digits(&chars, 1, 0x8000_0000) {
            Some(n) => Some((-(n as i64)) as i32),
            None => None,
        }
    } else {
        let from: usize = if chars.len() > 0 && chars[0] == '+' {
            1
        } else {
            0
        };
        match read_digits(&chars, from, 0x7fff_ffff) {
            Some(n) => Some(n as i32),
            None => None,
        }
    }
}

/// The pieces of a text between the separators. The empty text is one piece.
pub open spec fn pieces(text: Seq<char>, separator: char) -> Seq<Seq<char>>
    decreases text.len(),
{
    if text.len() == 0 {
        seq![Seq::empty()]
    } else {
        let before = pieces(text.drop_last(), separator);
        if text.last() == separator {
            before.push(Seq::empty())
        } else {
            before.drop_last().push(before.last().push(text.last()))
        }
    }
}

/// Splits a text at every separator.
pub fn split(text: &str, separator: char) -> (parts: Vec<String>)
    ensures
        texts(parts@) == pieces(text@, separator),
        parts@.len() > 0,
{
    let chars = characters(text);
    let mut parts: Vec<String> = Vec::new();
    let mut start: usize = 0;
    let size: usize = chars.len();
    assert(text@.take(0) =~= Seq::empty());
    assert(texts(parts@).push(text@.subrange(0, 0)) =~= seq![Seq::empty()]);
    for i in 0..size
        invariant
            size == chars@.len(),
            chars@ == text@,
            start <= i,
            texts(parts@).push(text@.subrange(start as int, i as int)) == pieces(
                text@.take(i as int),
                separator,
            ),
    {
        let ghost before = texts(parts@);
        proof {
            let next = text@.take(i as int + 1);
            assert(next.drop_last() =~= text@.take(i as int));
            assert(next.last() == text@[i as int]);
        }
        if chars[i] == separator {
            let ghost piece = text@.subrange(start as int, i as int);
            parts.push(slice(text, start, i));
            start = i + 1;
            assert(texts(parts@) =~= before.push(piece));
            assert(text@.subrange(i as int + 1, i as int + 1) =~= Seq::empty());
        } else {
            let ghost piece = text@.subrange(start as int, i as int);
            assert(before.push(piece).drop_last() =~= before);
            assert(text@.subrange(start as int, i as int + 1) =~= piece.push(text@[i as int]));
        }
    }
    assert(text@.take(size as int) =~= text@);
    let ghost before = texts(parts@);
    let ghost piece = text@.subrange(start as int, size as int);
    parts.push(slice(text, start, size));
    assert(texts(parts@) =~= before.push(piece));
    parts
}

/// The value of a hexadecimal digit.
pub open spec fn hex_value(c: char) -> nat {
    if '0' <= c <= '9' {
        (c as u32 - '0' as u32) as nat
    } else {
        (c as u32 - 'a' as u32 + 10) as nat
    }
}

/// A digit is one lower-case hexadecimal character, from which its value can be
/// read.
pub proof fn lemma_digit(d: nat)
    requires
        d < 16,
    ensures
        digit(d).len() == 1,
        '0' <= digit(d)[0] <= '9' || 'a' <= digit(d)[0] <= 'f',
        hex_value(digit(d)[0]) == d,
{
    reveal_strlit("0");
    reveal_strlit("1");
    reveal_strlit("2");
    reveal_strlit("3");
    reveal_strlit("4");
    reveal_strlit("5");
    reveal_strlit("6");
    reveal_strlit("7");
    reveal_strlit("8");
    reveal_strlit("9");
    reveal_strlit("a");
    reveal_strlit("b");
    reveal_strlit("c");
    reveal_strlit("d");
    reveal_strlit("e");
    reveal_strlit("f");
}

/// A hexadecimal text is made of digits, at least one.
pub proof fn lemma_hexadecimal(n: nat)
    ensures
        hexadecimal(n).len() > 0,
        forall|i: int|
            0 <= i < hexadecimal(n).len() ==> '0' <= #[trigger] hexadecimal(n)[i] <= '9' || 'a'
                <= hexadecimal(n)[i] <= 'f',
    decreases n,
{
    if n < 16 {
        lemma_digit(n);
    } else {
        vstd::arithmetic::div_mod::lemma_div_decreases(n as int, 16);
        lemma_hexadecimal(n / 16);
        lemma_digit(n % 16);
        let front = numeral(n / 16, 16);
        assert forall|i: int| 0 <= i < hexadecimal(n).len() implies '0' <= #[trigger] hexadecimal(
            n,
        )[i] <= '9' || 'a' <= hexadecimal(n)[i] <= 'f' by {
            if i < front.len() {
                assert(hexadecimal(n)[i] == hexadecimal(n / 16)[i]);
            } else {
                assert(hexadecimal(n)[i] == digit(n % 16)[0]);
            }
        }
    }
}

/// Different numbers have different hexadecimal texts.
pub proof fn lemma_hexadecimal_is_injective(n: nat, m: nat)
    requires
        hexadecimal(n) == hexadecimal(m),
    ensures
        n == m,
    decreases n,
{
    let text = hexadecimal(n);
    lemma_digit(n % 16);
    lemma_digit(m % 16);
    lemma_hexadecimal(n / 16);
    lemma_hexadecimal(m / 16);
    assert(text.last() == digit(n % 16)[0]);
    assert(text.last() == digit(m % 16)[0]);
    if n >= 16 && m >= 16 {
        vstd::arithmetic::div_mod::lemma_div_decreases(n as int, 16);
        assert(text.drop_last() =~= hexadecimal(n / 16));
        assert(text.drop_last() =~= hexadecimal(m / 16));
        lemma_hexadecimal_is_injective(n / 16, m / 16);
        vstd::arithmetic::div_mod::lemma_fundamental_div_mod(n as int, 16);
        vstd::arithmetic::div_mod::lemma_fundamental_div_mod(m as int, 16);
    }
}

/// A number whose hexadecimal text goes on where that of another ends is at least
/// sixteen times the other.
pub proof fn lemma_longer_hexadecimal(n: nat, m: nat)
    requires
        hexadecimal(n).len() < hexadecimal(m).len(),
        hexadecimal(m).take(hexadecimal(n).len() as int) == hexadecimal(n),
    ensures
        m >= 16 * n,
    decreases m,
{
    lemma_hexadecimal(n);
    if m < 16 {
        lemma_digit(m);
    } else {
        let front = hexadecimal(m / 16);
        lemma_digit(m % 16);
        vstd::arithmetic::div_mod::lemma_div_decreases(m as int, 16);
        vstd::arithmetic::div_mod::lemma_fundamental_div_mod(m as int, 16);
        assert(hexadecimal(m).drop_last() =~= front);
        assert(front.take(hexadecimal(n).len() as int) =~= hexadecimal(m).take(
            hexadecimal(n).len() as int,
        ));
        if hexadecimal(n).len() < front.len() {
            lemma_longer_hexadecimal(n, m / 16);
        } else {
            assert(front =~= hexadecimal(n));
            lemma_hexadecimal_is_injective(n, m / 16);
        }
    }
}

/// Joining loses no part and adds nothing but the separators: one part is itself, and
/// the parts of two lists, one behind the other, are joined as each list and with one
/// separator between them.
pub proof fn law_joining_keeps_every_part(
    first: Seq<Seq<char>>,
    second: Seq<Seq<char>>,
    part: Seq<char>,
    separator: Seq<char>,
)
    ensures
        joined(Seq::empty(), separator) == Seq::<char>::empty(),
        joined(seq![part], separator) == part,
        first.len() > 0 && second.len() > 0 ==> joined(first + second, separator) == joined(
            first,
            separator,
        ) + separator + joined(second, separator),
    decreases second.len(),
{
    if first.len() > 0 && second.len() > 0 {
        let whole = first + second;
        assert(whole.drop_last() =~= first + second.drop_last());
        assert(whole.last() == second.last());
        if second.len() == 1 {
            assert(whole.drop_last() =~= first);
        } else {
            law_joining_keeps_every_part(first, second.drop_last(), part, separator);
            let front = joined(first, separator);
            let middle = joined(second.drop_last(), separator);
            assert(front + separator + middle + separator + second.last() =~= front + separator + (
            middle + separator + second.last()));
        }
    }
}

/// A part of a text with nothing but white space before and behind it.
pub open spec fn stands_alone(text: Seq<char>, from: int, to: int) -> bool {
    &&& 0 <= from <= to <= text.len()
    &&& forall|i: int| 0 <= i < from ==> is_white_space(#[trigger] text[i])
    &&& forall|i: int| to <= i < text.len() ==> is_white_space(#[trigger] text[i])
}

/// The text without its leading white space is what stands behind it.
pub proof fn lemma_trimmed_start(text: Seq<char>) -> (from: int)
    ensures
        0 <= from <= text.len(),
        trimmed_start(text) == text.subrange(from, text.len() as int),
        forall|i: int| 0 <= i < from ==> is_white_space(#[trigger] text[i]),
        from < text.len() ==> !is_white_space(text[from]),
    decreases text.len(),
{
    if text.len() > 0 && is_white_space(text[0]) {
        let rest = text.subrange(1, text.len() as int);
        let behind = lemma_trimmed_start(rest);
        assert(rest.subrange(behind, rest.len() as int) =~= text.subrange(
            behind + 1,
            text.len() as int,
        ));
        assert forall|i: int| 0 <= i < behind + 1 implies is_white_space(#[trigger] text[i]) by {
            if i > 0 {
                assert(is_white_space(rest[i - 1]));
            }
        }
        behind + 1
    } else {
        assert(text.subrange(0, text.len() as int) =~= text);
        0
    }
}

proof fn lemma_trimmed_end(text: Seq<char>) -> (to: int)
    ensures
        0 <= to <= text.len(),
        trimmed_end(text) == text.subrange(0, to),
        forall|i: int| to <= i < text.len() ==> is_white_space(#[trigger] text[i]),
        to > 0 ==> !is_white_space(text[to - 1]),
    decreases text.len(),
{
    if text.len() > 0 && is_white_space(text[text.len() - 1]) {
        let rest = text.subrange(0, text.len() - 1);
        let end = lemma_trimmed_end(rest);
        assert(rest.subrange(0, end) =~= text.subrange(0, end));
        assert forall|i: int| end <= i < text.len() implies is_white_space(#[trigger] text[i]) by {
            if i < text.len() - 1 {
                assert(is_white_space(rest[i]));
            }
        }
        end
    } else {
        assert(text.subrange(0, text.len() as int) =~= text);
        text.len() as int
    }
}

/// Trimming takes the white space around a text and nothing else: what is left is a
/// part of the text with nothing but white space before and behind it, and neither
/// begins nor ends with white space.
pub proof fn law_trimming_takes_white_space_alone(text: Seq<char>)
    ensures
        exists|from: int, to: int| #[trigger]
            stands_alone(text, from, to) && trimmed(text) == text.subrange(from, to),
        trimmed(text).len() > 0 ==> !is_white_space(trimmed(text)[0]) && !is_white_space(
            trimmed(text).last(),
        ),
        exists|from: int| #[trigger]
            stands_alone(text.take(from), from, from) && trimmed_start(text) == text.skip(from),
        trimmed_start(text).len() > 0 ==> !is_white_space(trimmed_start(text)[0]),
{
    let from = lemma_trimmed_start(text);
    let rest = trimmed_start(text);
    let to = lemma_trimmed_end(rest);
    assert(rest.subrange(0, to) =~= text.subrange(from, from + to));
    assert forall|i: int| from + to <= i < text.len() implies is_white_space(
        #[trigger] text[i],
    ) by {
        assert(is_white_space(rest[i - from]));
    }
    assert(stands_alone(text, from, from + to));
    assert(from <= text.len());
    assert(text.take(from).len() == from);
    assert(stands_alone(text.take(from), from, from));
    assert(text.skip(from) =~= text.subrange(from, text.len() as int));
}

/// Among the plain characters exactly the space, the tab, the two ends of a line and
/// the two page movements are white space. A line separator, a no-break space and an
/// ideographic space are too.
pub proof fn law_white_space(c: char)
    ensures
        (c as u32) < 128 ==> (is_white_space(c) <==> c == ' ' || c == '\t' || c == '\n' || c == '\r'
            || c == '\u{b}' || c == '\u{c}'),
        is_white_space('\u{2028}') && is_white_space('\u{a0}') && is_white_space('\u{3000}'),
{
}

proof fn lemma_decimal(n: nat)
    ensures
        decimal(n).len() > 0,
        digits_value(decimal(n)) == Some(n),
        decimal(n)[0] == '0' ==> n == 0,
        forall|i: int| 0 <= i < decimal(n).len() ==> '0' <= #[trigger] decimal(n)[i] <= '9',
    decreases n,
{
    if n < 10 {
        lemma_digit(n);
    } else {
        vstd::arithmetic::div_mod::lemma_div_decreases(n as int, 10);
        vstd::arithmetic::div_mod::lemma_fundamental_div_mod(n as int, 10);
        lemma_decimal(n / 10);
        lemma_digit(n % 10);
        let front = decimal(n / 10);
        assert(decimal(n).drop_last() =~= front);
        assert(decimal(n).last() == digit(n % 10)[0]);
        assert(decimal(n)[0] == front[0]);
        assert forall|i: int| 0 <= i < decimal(n).len() implies '0' <= #[trigger] decimal(n)[i]
            <= '9' by {
            if i < front.len() {
                assert(decimal(n)[i] == front[i]);
            }
        }
    }
}

/// A number reads back from its decimal text, which has no leading zero, also behind a
/// plus sign and, where it is negative, behind its minus sign.
pub proof fn law_numbers_read_back(n: nat, max: nat, signed: i32)
    ensures
        n <= max ==> read_unsigned(decimal(n), max) == Some(n) && read_unsigned(
            seq!['+'] + decimal(n),
            max,
        ) == Some(n),
        n > max ==> read_unsigned(decimal(n), max) is None,
        decimal(n)[0] == '0' ==> n == 0,
        read_i32(signed_decimal(signed as int)) == Some(signed),
{
    lemma_decimal(n);
    assert((seq!['+'] + decimal(n)).subrange(1, 1 + decimal(n).len() as int) =~= decimal(n));
    reveal_strlit("-");
    if signed < 0 {
        let size = (-signed) as nat;
        lemma_decimal(size);
        assert(("-"@ + decimal(size)).subrange(1, 1 + decimal(size).len() as int) =~= decimal(size));
    } else {
        lemma_decimal(signed as nat);
    }
}

/// Only digits, at least one, are read as a number.
pub proof fn law_only_digits_are_numbers(text: Seq<char>)
    ensures
        digits_value(text) is Some <==> text.len() > 0 && forall|i: int|
            0 <= i < text.len() ==> '0' <= #[trigger] text[i] <= '9',
    decreases text.len(),
{
    if text.len() > 1 {
        let front = text.drop_last();
        law_only_digits_are_numbers(front);
        if digits_value(text) is Some {
            assert forall|i: int| 0 <= i < text.len() implies '0' <= #[trigger] text[i] <= '9' by {
                if i < front.len() {
                    assert(front[i] == text[i]);
                }
            }
        }
        if forall|i: int| 0 <= i < text.len() ==> '0' <= #[trigger] text[i] <= '9' {
            assert forall|i: int| 0 <= i < front.len() implies '0' <= #[trigger] front[i]
                <= '9' by {
                assert(front[i] == text[i]);
            }
            assert('0' <= text[text.len() - 1] <= '9');
        }
    }
}

/// Splitting loses nothing: no piece holds the separator, and the pieces with one
/// separator between each two are the text.
pub proof fn law_pieces_are_the_text(text: Seq<char>, separator: char)
    ensures
        pieces(text, separator).len() > 0,
        joined(pieces(text, separator), seq![separator]) == text,
        forall|i: int|
            0 <= i < pieces(text, separator).len() ==> !(#[trigger] pieces(
                text,
                separator,
            )[i]).contains(separator),
    decreases text.len(),
{
    let all = pieces(text, separator);
    if text.len() > 0 {
        let front = text.drop_last();
        law_pieces_are_the_text(front, separator);
        let before = pieces(front, separator);
        let mark = seq![separator];
        assert(text =~= front.push(text.last()));
        if text.last() == separator {
            assert(all.drop_last() =~= before);
            assert(joined(all, mark) =~= front + mark + Seq::<char>::empty());
            assert(front + mark + Seq::<char>::empty() =~= text);
        } else {
            let last = before.last().push(text.last());
            assert(all.drop_last() =~= before.drop_last());
            assert(all.last() == last);
            if before.len() == 1 {
                assert(before[0] == before.last());
                assert(all[0] == last);
                assert(last =~= text);
            } else {
                let head = joined(before.drop_last(), mark) + mark;
                assert(head + last =~= (head + before.last()).push(text.last()));
            }
            assert forall|i: int| 0 <= i < all.len() implies !(#[trigger] all[i]).contains(
                separator,
            ) by {
                if i < before.len() - 1 {
                    assert(all[i] == before[i]);
                } else {
                    assert(all[i] == last);
                    assert(!before[before.len() - 1].contains(separator));
                    if last.contains(separator) {
                        let k = choose|k: int| 0 <= k < last.len() && last[k] == separator;
                        assert(before.last()[k] == separator);
                    }
                }
            }
        }
    } else {
        assert(joined(all, seq![separator]) == all[0]);
    }
}

/// Removing a pattern takes out its occurrences and nothing else: a text without one
/// is kept, and where the first one stands behind some text, that text is kept and the
/// rest is treated alike.
pub proof fn law_removal_takes_the_pattern_alone(
    before: Seq<char>,
    after: Seq<char>,
    pattern: Seq<char>,
)
    requires
        pattern.len() > 0,
    ensures
        (forall|at: int| !#[trigger] occurs_at(before, pattern, at)) ==> removed_all(
            before,
            pattern,
        ) == before,
        (forall|at: int|
            0 <= at < before.len() ==> !#[trigger] occurs_at(before + pattern + after, pattern, at))
            ==> removed_all(before + pattern + after, pattern) == before + removed_all(
            after,
            pattern,
        ),
{
    lemma_first_from(before, pattern, 0);
    let text = before + pattern + after;
    lemma_first_from(text, pattern, 0);
    let end = (before.len() + pattern.len()) as int;
    assert(text.subrange(before.len() as int, end) =~= pattern);
    assert(occurs_at(text, pattern, before.len() as int));
    assert(text.subrange(end, text.len() as int) =~= after);
    assert(text.subrange(0, before.len() as int) =~= before);
}

proof fn lemma_pieces_append(first: Seq<char>, second: Seq<char>, separator: char)
    ensures
        pieces(first + seq![separator] + second, separator) == pieces(first, separator) + pieces(
            second,
            separator,
        ),
    decreases second.len(),
{
    let before = pieces(first, separator);
    let whole = first + seq![separator] + second;
    law_pieces_are_the_text(first, separator);
    if second.len() == 0 {
        assert(whole.drop_last() =~= first);
        assert(whole.last() == separator);
        assert(before.push(Seq::empty()) =~= before + seq![Seq::<char>::empty()]);
    } else {
        let rest = second.drop_last();
        lemma_pieces_append(first, rest, separator);
        law_pieces_are_the_text(rest, separator);
        let behind = pieces(rest, separator);
        assert(whole.drop_last() =~= first + seq![separator] + rest);
        assert(whole.last() == second.last());
        let all = before + behind;
        if second.last() == separator {
            assert(all.push(Seq::empty()) =~= before + behind.push(Seq::empty()));
        } else {
            let last = behind.last().push(second.last());
            assert(all.last() == behind.last());
            assert(all.drop_last().push(last) =~= before + behind.drop_last().push(last));
        }
    }
}

/// A text without the separator is one piece, and the pieces of two texts with a
/// separator between them are those of the first and then those of the second.
pub proof fn law_pieces_of_two_texts(first: Seq<char>, second: Seq<char>, separator: char)
    ensures
        pieces(first + seq![separator] + second, separator) == pieces(first, separator) + pieces(
            second,
            separator,
        ),
        !first.contains(separator) ==> pieces(first, separator) == seq![first],
    decreases first.len(),
{
    lemma_pieces_append(first, second, separator);
    if !first.contains(separator) {
        if first.len() == 0 {
            assert(first =~= Seq::empty());
        } else {
            let front = first.drop_last();
            if front.contains(separator) {
                let k = choose|k: int| 0 <= k < front.len() && front[k] == separator;
                assert(first[k] == separator);
            }
            law_pieces_of_two_texts(front, second, separator);
            assert(first[first.len() - 1] != separator);
            assert(front.push(first.last()) =~= first);
            assert(pieces(first, separator) =~= seq![first]);
        }
    }
}

} // verus!
