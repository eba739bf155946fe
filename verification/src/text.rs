//! Text as sequences of characters: numbers, hexadecimal, trimming, splitting, joining.

use vstd::prelude::*;

verus! {

/// `String::push` of std: the string grows by the given character at its end.
pub assume_specification[ std::string::String::push ](s: &mut std::string::String, c: char)
    ensures
        final(s)@ == old(s)@.push(c),
;

/// The decimal digit of a number below ten.
pub open spec fn digit(d: nat) -> char {
    (48 + d) as char
}

/// The decimal notation of `n`.
pub open spec fn decimal(n: nat) -> Seq<char>
    decreases n,
{
    if n < 10 {
        seq![digit(n)]
    } else {
        decimal(n / 10).push(digit(n % 10))
    }
}

/// `text` with zeros in front of it up to `width` characters.
pub open spec fn zero_filled(text: Seq<char>, width: nat) -> Seq<char> {
    if text.len() < width {
        Seq::new((width - text.len()) as nat, |i: int| '0') + text
    } else {
        text
    }
}

pub open spec fn is_digit(c: char) -> bool {
    '0' <= c && c <= '9'
}

/// Whether every character of `text` is a decimal digit.
pub open spec fn all_digits(text: Seq<char>) -> bool {
    forall|i: int| 0 <= i < text.len() ==> is_digit(#[trigger] text[i])
}

/// The number that decimal digits spell.
pub open spec fn digits_value(text: Seq<char>) -> nat
    decreases text.len(),
{
    if text.len() == 0 {
        0
    } else {
        (digits_value(text.drop_last()) * 10 + (text.last() as nat - 48)) as nat
    }
}

/// The unsigned number that `text` spells, if it is at most `max`: decimal digits, at least one,
/// with or without one plus sign in front.
pub open spec fn unsigned_of(text: Seq<char>, max: nat) -> Option<nat> {
    let digits = if text.len() > 0 && text[0] == '+' {
        text.skip(1)
    } else {
        text
    };
    if digits.len() > 0 && all_digits(digits) && digits_value(digits) <= max {
        Some(digits_value(digits))
    } else {
        None
    }
}

/// The hexadecimal digit of a number below sixteen, in lower case.
pub open spec fn hex_digit(d: nat) -> char {
    if d < 10 {
        (48 + d) as char
    } else {
        (87 + d) as char
    }
}

/// The hexadecimal digit of a number below sixteen, in upper case.
pub open spec fn hex_digit_upper(d: nat) -> char {
    if d < 10 {
        (48 + d) as char
    } else {
        (55 + d) as char
    }
}

/// The two lower-case hexadecimal digits of a byte.
pub open spec fn hex_byte(byte: u8) -> Seq<char> {
    seq![hex_digit(byte as nat / 16), hex_digit(byte as nat % 16)]
}

/// The two upper-case hexadecimal digits of a byte.
pub open spec fn hex_byte_upper(byte: u8) -> Seq<char> {
    seq![hex_digit_upper(byte as nat / 16), hex_digit_upper(byte as nat % 16)]
}

/// Two lower-case hexadecimal digits for each byte.
pub open spec fn hex(bytes: Seq<u8>) -> Seq<char>
    decreases bytes.len(),
{
    if bytes.len() == 0 {
        Seq::empty()
    } else {
        hex(bytes.drop_last()) + hex_byte(bytes.last())
    }
}

/// The hexadecimal notation of `n`, in lower case.
pub open spec fn hexadecimal(n: nat) -> Seq<char>
    decreases n,
{
    if n < 16 {
        seq![hex_digit(n)]
    } else {
        hexadecimal(n / 16).push(hex_digit(n % 16))
    }
}

pub open spec fn is_hex_digit(c: char) -> bool {
    is_digit(c) || ('a' <= c && c <= 'f') || ('A' <= c && c <= 'F')
}

/// The value of one hexadecimal digit.
pub open spec fn hex_digit_value(c: char) -> nat {
    if is_digit(c) {
        (c as nat - 48) as nat
    } else if 'a' <= c && c <= 'f' {
        (c as nat - 87) as nat
    } else {
        (c as nat - 55) as nat
    }
}

/// The hexadecimal digits of `text`, in order.
pub open spec fn hex_digits_of(text: Seq<char>) -> Seq<char>
    decreases text.len(),
{
    if text.len() == 0 {
        Seq::empty()
    } else if is_hex_digit(text.last()) {
        hex_digits_of(text.drop_last()).push(text.last())
    } else {
        hex_digits_of(text.drop_last())
    }
}

/// The number that hexadecimal digits spell.
pub open spec fn hex_value(text: Seq<char>) -> nat
    decreases text.len(),
{
    if text.len() == 0 {
        0
    } else {
        hex_value(text.drop_last()) * 16 + hex_digit_value(text.last())
    }
}

/// Whether `c` has the Unicode property `White_Space`.
pub open spec fn is_space(c: char) -> bool {
    ||| '\u{9}' <= c && c <= '\u{d}'
    ||| c == '\u{20}'
    ||| c == '\u{85}'
    ||| c == '\u{a0}'
    ||| c == '\u{1680}'
    ||| '\u{2000}' <= c && c <= '\u{200a}'
    ||| c == '\u{2028}'
    ||| c == '\u{2029}'
    ||| c == '\u{202f}'
    ||| c == '\u{205f}'
    ||| c == '\u{3000}'
}

/// `text` without the white space in front.
pub open spec fn trimmed_start(text: Seq<char>) -> Seq<char>
    decreases text.len(),
{
    if text.len() > 0 && is_space(text[0]) {
        trimmed_start(text.skip(1))
    } else {
        text
    }
}

/// `text` without the white space at its end.
pub open spec fn trimmed_end(text: Seq<char>) -> Seq<char>
    decreases text.len(),
{
    if text.len() > 0 && is_space(text.last()) {
        trimmed_end(text.drop_last())
    } else {
        text
    }
}

/// `text` without the white space around it.
pub open spec fn trimmed(text: Seq<char>) -> Seq<char> {
    trimmed_end(trimmed_start(text))
}

/// `text` without any number of `c` in front.
pub open spec fn without_leading(text: Seq<char>, c: char) -> Seq<char>
    decreases text.len(),
{
    if text.len() > 0 && text[0] == c {
        without_leading(text.skip(1), c)
    } else {
        text
    }
}

/// `text` without any number of the pair `a b` in front.
pub open spec fn without_leading_pair(text: Seq<char>, a: char, b: char) -> Seq<char>
    decreases text.len(),
{
    if text.len() >= 2 && text[0] == a && text[1] == b {
        without_leading_pair(text.skip(2), a, b)
    } else {
        text
    }
}

/// The ASCII capital letters in lower case, everything else as it is.
pub open spec fn ascii_lower(c: char) -> char {
    if 'A' <= c && c <= 'Z' {
        (c as nat + 32) as char
    } else {
        c
    }
}

/// `text` with its ASCII capital letters in lower case.
pub open spec fn ascii_lowered(text: Seq<char>) -> Seq<char> {
    text.map_values(|c: char| ascii_lower(c))
}

/// What separates the parts of a list.
#[derive(Debug, Clone, Copy, PartialEq, Eq)]
pub enum Separator {
    One(char),
    /// A comma or any white space.
    CommaOrSpace,
}

/// Whether `c` separates parts.
pub open spec fn separates(separator: Separator, c: char) -> bool {
    match separator {
        Separator::One(one) => c == one,
        Separator::CommaOrSpace => c == ',' || is_space(c),
    }
}

/// The position of the first separator in `text`, or the length of `text`.
pub open spec fn first_separator(text: Seq<char>, separator: Separator) -> int
    decreases text.len(),
{
    if text.len() == 0 || separates(separator, text[0]) {
        0
    } else {
        1 + first_separator(text.skip(1), separator)
    }
}

/// The parts of `text` between separators; always at least one, and possibly empty ones.
pub open spec fn split(text: Seq<char>, separator: Separator) -> Seq<Seq<char>>
    decreases text.len(),
{
    let at = first_separator(text, separator);
    if 0 <= at < text.len() {
        seq![text.take(at)] + split(text.skip(at + 1), separator)
    } else {
        seq![text]
    }
}

/// `line` without one carriage return at its end.
pub open spec fn without_return(line: Seq<char>) -> Seq<char> {
    if line.len() > 0 && line.last() == '\r' {
        line.drop_last()
    } else {
        line
    }
}

/// The lines of `text`. A line ends with a line feed, with or without a carriage return before
/// it; the last line needs no end.
pub open spec fn lines(text: Seq<char>) -> Seq<Seq<char>>
    decreases text.len(),
{
    let at = first_separator(text, Separator::One('\n'));
    if text.len() == 0 {
        Seq::empty()
    } else if 0 <= at < text.len() {
        seq![without_return(text.take(at))] + lines(text.skip(at + 1))
    } else {
        seq![text]
    }
}

/// The parts with `separator` between them.
pub open spec fn joined(parts: Seq<Seq<char>>, separator: Seq<char>) -> Seq<char>
    decreases parts.len(),
{
    if parts.len() == 0 {
        Seq::empty()
    } else if parts.len() == 1 {
        parts[0]
    } else {
        joined(parts.drop_last(), separator) + separator + parts.last()
    }
}

/// Whether `needle` occurs in `text`.
pub open spec fn holds(text: Seq<char>, needle: Seq<char>) -> bool {
    exists|i: int| occurs_at(text, needle, i)
}

/// Whether `needle` occurs in `text` at position `i`.
pub open spec fn occurs_at(text: Seq<char>, needle: Seq<char>, i: int) -> bool {
    0 <= i && i + needle.len() <= text.len() && text.subrange(i, i + needle.len()) == needle
}

/// The UTF-16 code units of one character.
pub open spec fn utf16_of(c: char) -> Seq<u16> {
    let point = c as u32;
    if point < 0x1_0000 {
        seq![point as u16]
    } else {
        seq![
            (0xd800 + (point - 0x1_0000) / 0x400) as u16,
            (0xdc00 + (point - 0x1_0000) % 0x400) as u16,
        ]
    }
}

/// The UTF-16 code units of `text`.
pub open spec fn utf16(text: Seq<char>) -> Seq<u16>
    decreases text.len(),
{
    if text.len() == 0 {
        Seq::empty()
    } else {
        utf16(text.drop_last()) + utf16_of(text.last())
    }
}

/// The views of strings.
pub open spec fn string_views(parts: Seq<String>) -> Seq<Seq<char>> {
    parts.map_values(|part: String| part@)
}

/// The views of character vectors.
pub open spec fn char_views(parts: Seq<Vec<char>>) -> Seq<Seq<char>> {
    parts.map_values(|part: Vec<char>| part@)
}

/// `first_separator` is the one position with no separator before it and one at it.
pub proof fn lemma_first_separator(text: Seq<char>, separator: Separator, n: int)
    requires
        0 <= n <= text.len(),
        forall|i: int| 0 <= i < n ==> !separates(separator, #[trigger] text[i]),
        n == text.len() || separates(separator, text[n]),
    ensures
        first_separator(text, separator) == n,
    decreases text.len(),
{
    if n > 0 {
        let rest = text.skip(1);
        assert(!separates(separator, text[0]));
        assert forall|i: int| 0 <= i < n - 1 implies !separates(separator, #[trigger] rest[i]) by {
            assert(rest[i] == text[i + 1]);
        }
        lemma_first_separator(rest, separator, n - 1);
    }
}

/// What `first_separator` is, without a candidate at hand.
pub proof fn lemma_first_separator_bounds(text: Seq<char>, separator: Separator)
    ensures
        ({
            let n = first_separator(text, separator);
            &&& 0 <= n <= text.len()
            &&& forall|i: int| 0 <= i < n ==> !separates(separator, #[trigger] text[i])
            &&& n == text.len() || separates(separator, text[n])
        }),
    decreases text.len(),
{
    if text.len() > 0 && !separates(separator, text[0]) {
        lemma_first_separator_bounds(text.skip(1), separator);
        let n = first_separator(text, separator);
        assert forall|i: int| 0 <= i < n implies !separates(separator, #[trigger] text[i]) by {
            if i > 0 {
                assert(text[i] == text.skip(1)[i - 1]);
            }
        }
    }
}

/// The lines of two texts in a row are those of the first, then those of the second, where the
/// first ends with a line feed or is empty.
pub proof fn law_lines_add_up(first: Seq<char>, second: Seq<char>)
    requires
        first.len() == 0 || first.last() == '\n',
    ensures
        lines(first + second) == lines(first) + lines(second),
    decreases first.len(),
{
    let whole = first + second;
    if first.len() == 0 {
        assert(whole =~= second);
        assert(lines(first) + lines(second) =~= lines(second));
    } else {
        let feed = Separator::One('\n');
        lemma_first_separator_bounds(first, feed);
        let at = first_separator(first, feed);
        assert(separates(feed, first[first.len() - 1]));
        assert(at < first.len());
        assert forall|i: int| 0 <= i < at implies !separates(feed, #[trigger] whole[i]) by {
            assert(whole[i] == first[i]);
        }
        assert(whole[at] == first[at]);
        lemma_first_separator(whole, feed, at);
        let rest = first.skip(at + 1);
        assert(whole.skip(at + 1) =~= rest + second);
        assert(whole.take(at) =~= first.take(at));
        if rest.len() > 0 {
            assert(rest.last() == first.last());
        }
        law_lines_add_up(rest, second);
        let line = seq![without_return(first.take(at))];
        assert(line + (lines(rest) + lines(second)) =~= line + lines(rest) + lines(second));
    }
}

/// Decimal notation is digits that spell the number, without a leading zero.
pub proof fn law_decimal_spells_the_number(n: nat)
    ensures
        decimal(n).len() >= 1,
        all_digits(decimal(n)),
        digits_value(decimal(n)) == n,
        decimal(n)[0] == '0' ==> n == 0,
    decreases n,
{
    if n < 10 {
        let one = seq![digit(n)];
        assert(one.drop_last() =~= Seq::<char>::empty());
        reveal_with_fuel(digits_value, 2);
    } else {
        law_decimal_spells_the_number(n / 10);
        let text = decimal(n);
        assert(text.drop_last() =~= decimal(n / 10));
        assert(text[0] == decimal(n / 10)[0]);
    }
}

/// Digits without a leading zero are the decimal notation of the number they spell.
pub proof fn law_digits_are_decimal_notation(text: Seq<char>)
    requires
        text.len() >= 1,
        all_digits(text),
        text.len() == 1 || text[0] != '0',
    ensures
        decimal(digits_value(text)) == text,
        text.len() > 1 ==> digits_value(text) >= 10,
    decreases text.len(),
{
    let last = text.last();
    assert(is_digit(last));
    if text.len() == 1 {
        reveal_with_fuel(digits_value, 2);
        assert(decimal(digits_value(text)) =~= text);
    } else {
        let front = text.drop_last();
        assert forall|i: int| 0 <= i < front.len() implies is_digit(#[trigger] front[i]) by {
            assert(front[i] == text[i]);
        }
        assert(front[0] == text[0]);
        law_digits_are_decimal_notation(front);
        if front.len() == 1 {
            reveal_with_fuel(digits_value, 2);
            assert(is_digit(front[0]));
            assert(front.drop_last().len() == 0);
            assert(digits_value(front) == front[0] as nat - 48);
        }
        assert(digits_value(front) >= 1);
        assert(decimal(digits_value(text)) =~= text);
    }
}

/// A number that is written down and read again is the same number.
pub proof fn law_decimal_is_read_back(n: nat, max: nat)
    requires
        n <= max,
    ensures
        unsigned_of(decimal(n), max) == Some(n),
{
    law_decimal_spells_the_number(n);
    assert(is_digit(decimal(n)[0]));
}

proof fn lemma_digits_prefix(text: Seq<char>, n: int)
    requires
        all_digits(text),
        0 <= n <= text.len(),
    ensures
        digits_value(text.take(n)) <= digits_value(text),
    decreases text.len() - n,
{
    if n < text.len() {
        lemma_digits_prefix(text, n + 1);
        let longer = text.take(n + 1);
        assert(longer.drop_last() =~= text.take(n));
        assert(is_digit(text[n]));
    } else {
        assert(text.take(n) =~= text);
    }
}

/// The characters of `text`.
pub fn chars_of(text: &str) -> (chars: Vec<char>)
    ensures
        chars@ == text@,
{
    let mut chars: Vec<char> = Vec::new();
    for c in it: text.chars()
        invariant
            chars@ == it.seq().take(it.index() as int),
    {
        chars.push(c);
    }
    chars
}

/// The characters as a string.
pub fn string_of(chars: &[char]) -> (text: String)
    ensures
        text@ == chars@,
{
    let mut text = String::new();
    let mut i: usize = 0;
    assert(text@ =~= chars@.take(0));
    while i < chars.len()
        invariant
            i <= chars@.len(),
            text@ == chars@.take(i as int),
        decreases chars@.len() - i,
    {
        text.push(chars[i]);
        assert(chars@.take(i + 1) =~= chars@.take(i as int).push(chars@[i as int]));
        i += 1;
    }
    assert(chars@.take(chars@.len() as int) =~= chars@);
    text
}

/// A copy of `part` as a vector.
pub fn copy_of(part: &[char]) -> (copy: Vec<char>)
    ensures
        copy@ == part@,
{
    vstd::slice::slice_to_vec(part)
}

/// Whether two character sequences are equal.
pub fn same(a: &[char], b: &[char]) -> (equal: bool)
    ensures
        equal == (a@ == b@),
{
    if a.len() != b.len() {
        return false;
    }
    let mut i: usize = 0;
    while i < a.len()
        invariant
            a@.len() == b@.len(),
            i <= a@.len(),
            forall|j: int| 0 <= j < i ==> a@[j] == b@[j],
        decreases a@.len() - i,
    {
        if a[i] != b[i] {
            return false;
        }
        i += 1;
    }
    assert(a@ =~= b@);
    true
}

/// Whether `chars` reads as `text`.
pub fn reads(chars: &[char], text: &str) -> (equal: bool)
    ensures
        equal == (chars@ == text@),
{
    same(chars, &chars_of(text))
}

/// The decimal notation of `n`.
pub fn decimal_text(n: u64) -> (text: String)
    ensures
        text@ == decimal(n as nat),
    decreases n,
{
    if n < 10 {
        let mut text = String::new();
        text.push((48 + n as u8) as char);
        assert(text@ =~= decimal(n as nat));
        text
    } else {
        let mut text = decimal_text(n / 10);
        text.push((48 + (n % 10) as u8) as char);
        text
    }
}

/// `text` with zeros in front of it up to `width` characters.
pub fn zero_fill(text: &str, width: usize) -> (filled: String)
    ensures
        filled@ == zero_filled(text@, width as nat),
{
    let chars = chars_of(text);
    let mut filled = String::new();
    let mut i: usize = chars.len();
    while i < width
        invariant
            chars@.len() <= i,
            i <= width || i == chars@.len(),
            filled@ == Seq::new((i - chars@.len()) as nat, |j: int| '0'),
        decreases width - i,
    {
        filled.push('0');
        i += 1;
        assert(filled@ =~= Seq::new((i - chars@.len()) as nat, |j: int| '0'));
    }
    filled.append(text);
    assert(filled@ =~= zero_filled(text@, width as nat));
    filled
}

/// `n` in decimal notation with at least `width` digits.
pub fn padded_decimal(n: u64, width: usize) -> (text: String)
    ensures
        text@ == zero_filled(decimal(n as nat), width as nat),
{
    zero_fill(&decimal_text(n), width)
}

fn hex_char(d: u8) -> (c: char)
    requires
        d < 16,
    ensures
        c == hex_digit(d as nat),
{
    if d < 10 {
        (48 + d) as char
    } else {
        (87 + d) as char
    }
}

fn hex_char_upper(d: u8) -> (c: char)
    requires
        d < 16,
    ensures
        c == hex_digit_upper(d as nat),
{
    if d < 10 {
        (48 + d) as char
    } else {
        (55 + d) as char
    }
}

/// Two lower-case hexadecimal digits for each byte.
pub fn hex_text(bytes: &[u8]) -> (text: String)
    ensures
        text@ == hex(bytes@),
{
    let mut text = String::new();
    let mut i: usize = 0;
    assert(text@ =~= hex(bytes@.take(0)));
    while i < bytes.len()
        invariant
            i <= bytes@.len(),
            text@ == hex(bytes@.take(i as int)),
        decreases bytes@.len() - i,
    {
        text.push(hex_char(bytes[i] / 16));
        text.push(hex_char(bytes[i] % 16));
        proof {
            let next = bytes@.take(i + 1);
            assert(next.drop_last() =~= bytes@.take(i as int));
            assert(next.last() == bytes@[i as int]);
            assert(text@ =~= hex(next));
        }
        i += 1;
    }
    assert(bytes@.take(bytes@.len() as int) =~= bytes@);
    text
}

/// The two upper-case hexadecimal digits of a byte.
pub fn hex_byte_upper_text(byte: u8) -> (text: String)
    ensures
        text@ == hex_byte_upper(byte),
{
    let mut text = String::new();
    text.push(hex_char_upper(byte / 16));
    text.push(hex_char_upper(byte % 16));
    assert(text@ =~= hex_byte_upper(byte));
    text
}

/// The hexadecimal notation of `n`.
pub fn hexadecimal_text(n: u64) -> (text: String)
    ensures
        text@ == hexadecimal(n as nat),
    decreases n,
{
    if n < 16 {
        let mut text = String::new();
        text.push(hex_char(n as u8));
        assert(text@ =~= hexadecimal(n as nat));
        text
    } else {
        let mut text = hexadecimal_text(n / 16);
        text.push(hex_char((n % 16) as u8));
        text
    }
}

/// `n` in hexadecimal notation with at least `width` digits.
pub fn padded_hexadecimal(n: u64, width: usize) -> (text: String)
    ensures
        text@ == zero_filled(hexadecimal(n as nat), width as nat),
{
    zero_fill(&hexadecimal_text(n), width)
}

/// Whether `c` is white space.
pub fn is_white_space(c: char) -> (space: bool)
    ensures
        space == is_space(c),
{
    ('\u{9}' <= c && c <= '\u{d}') || c == '\u{20}' || c == '\u{85}' || c == '\u{a0}' || c
        == '\u{1680}' || ('\u{2000}' <= c && c <= '\u{200a}') || c == '\u{2028}' || c == '\u{2029}'
        || c == '\u{202f}' || c == '\u{205f}' || c == '\u{3000}'
}

/// `text` without the white space around it.
pub fn trim<'a>(text: &'a [char]) -> (part: &'a [char])
    ensures
        part@ == trimmed(text@),
{
    let mut start: usize = 0;
    assert(text@.skip(0) =~= text@);
    while start < text.len() && is_white_space(text[start])
        invariant
            start <= text@.len(),
            trimmed_start(text@) == trimmed_start(text@.skip(start as int)),
        decreases text@.len() - start,
    {
        assert(text@.skip(start as int).skip(1) =~= text@.skip(start + 1));
        start += 1;
    }
    let ghost middle = text@.skip(start as int);
    assert(trimmed_start(text@) == middle);
    let mut end: usize = text.len();
    assert(text@.subrange(start as int, end as int) =~= middle);
    while end > start && is_white_space(text[end - 1])
        invariant
            start <= end <= text@.len(),
            trimmed_end(middle) == trimmed_end(text@.subrange(start as int, end as int)),
        decreases end,
    {
        let ghost now = text@.subrange(start as int, end as int);
        assert(now.last() == text@[end - 1]);
        assert(now.drop_last() =~= text@.subrange(start as int, end - 1));
        end -= 1;
    }
    proof {
        let now = text@.subrange(start as int, end as int);
        if now.len() > 0 {
            assert(now.last() == text@[end - 1]);
        }
    }
    vstd::slice::slice_subrange(text, start, end)
}

/// `text` without the white space around it.
pub fn trimmed_text(text: &str) -> (part: String)
    ensures
        part@ == trimmed(text@),
{
    string_of(trim(&chars_of(text)))
}

/// `text` without any number of `c` in front.
pub fn strip_leading<'a>(text: &'a [char], c: char) -> (part: &'a [char])
    ensures
        part@ == without_leading(text@, c),
{
    let mut start: usize = 0;
    assert(text@.skip(0) =~= text@);
    while start < text.len() && text[start] == c
        invariant
            start <= text@.len(),
            without_leading(text@, c) == without_leading(text@.skip(start as int), c),
        decreases text@.len() - start,
    {
        assert(text@.skip(start as int).skip(1) =~= text@.skip(start + 1));
        start += 1;
    }
    assert(text@.subrange(start as int, text@.len() as int) =~= text@.skip(start as int));
    vstd::slice::slice_subrange(text, start, text.len())
}

/// `text` without any number of the pair `a b` in front.
pub fn strip_leading_pair<'a>(text: &'a [char], a: char, b: char) -> (part: &'a [char])
    ensures
        part@ == without_leading_pair(text@, a, b),
{
    let total: usize = text.len();
    let mut start: usize = 0;
    assert(text@.skip(0) =~= text@);
    while total - start >= 2 && text[start] == a && text[start + 1] == b
        invariant
            total == text@.len(),
            start <= total,
            without_leading_pair(text@, a, b) == without_leading_pair(
                text@.skip(start as int),
                a,
                b,
            ),
        decreases total - start,
    {
        assert(text@.skip(start as int).skip(2) =~= text@.skip(start + 2));
        start += 2;
    }
    assert(text@.subrange(start as int, total as int) =~= text@.skip(start as int));
    vstd::slice::slice_subrange(text, start, total)
}

/// `text` with its ASCII capital letters in lower case.
pub fn lower_ascii(text: &[char]) -> (lowered: Vec<char>)
    ensures
        lowered@ == ascii_lowered(text@),
{
    let mut lowered: Vec<char> = Vec::new();
    let mut i: usize = 0;
    while i < text.len()
        invariant
            i <= text@.len(),
            lowered@.len() == i,
            forall|j: int| 0 <= j < i ==> lowered@[j] == ascii_lower(text@[j]),
        decreases text@.len() - i,
    {
        let c = text[i];
        if 'A' <= c && c <= 'Z' {
            lowered.push((c as u8 + 32) as char);
        } else {
            lowered.push(c);
        }
        i += 1;
    }
    assert(lowered@ =~= ascii_lowered(text@));
    lowered
}

/// Whether `c` separates parts.
pub fn is_separator(separator: Separator, c: char) -> (yes: bool)
    ensures
        yes == separates(separator, c),
{
    match separator {
        Separator::One(one) => c == one,
        Separator::CommaOrSpace => c == ',' || is_white_space(c),
    }
}

/// The position of the first separator in `text`, or the length of `text`.
pub fn find_separator(text: &[char], separator: Separator) -> (at: usize)
    ensures
        at == first_separator(text@, separator),
        at <= text@.len(),
{
    let mut at: usize = 0;
    while at < text.len() && !is_separator(separator, text[at])
        invariant
            at <= text@.len(),
            forall|i: int| 0 <= i < at ==> !separates(separator, #[trigger] text@[i]),
        decreases text@.len() - at,
    {
        at += 1;
    }
    proof {
        lemma_first_separator(text@, separator, at as int);
    }
    at
}

/// The parts of `text` between separators.
pub fn split_text(text: &[char], separator: Separator) -> (parts: Vec<Vec<char>>)
    ensures
        char_views(parts@) == split(text@, separator),
{
    let mut parts: Vec<Vec<char>> = Vec::new();
    let mut start: usize = 0;
    let total: usize = text.len();
    assert(text@.skip(0) =~= text@);
    assert(char_views(parts@) + split(text@, separator) =~= split(text@, separator));
    loop
        invariant
            total == text@.len(),
            start <= total,
            char_views(parts@) + split(text@.skip(start as int), separator) == split(
                text@,
                separator,
            ),
        decreases total - start,
    {
        let ghost before = parts@;
        let ghost rest_text = text@.skip(start as int);
        proof {
            lemma_first_separator_bounds(rest_text, separator);
        }
        assert(text@.subrange(start as int, total as int) =~= rest_text);
        let rest = vstd::slice::slice_subrange(text, start, total);
        let at: usize = find_separator(rest, separator);
        let part = copy_of(vstd::slice::slice_subrange(rest, 0, at));
        assert(part@ =~= rest_text.take(at as int));
        parts.push(part);
        assert(char_views(parts@) =~= char_views(before).push(part@));
        if at == rest.len() {
            assert(part@ =~= rest_text);
            assert(char_views(parts@) =~= char_views(before) + split(rest_text, separator));
            return parts;
        }
        assert(rest_text.skip(at + 1) =~= text@.skip(start + at + 1));
        assert(char_views(parts@) + split(text@.skip(start + at + 1), separator) =~= char_views(
            before,
        ) + split(rest_text, separator));
        start = start + at + 1;
    }
}

/// The lines of `text`.
pub fn split_lines(text: &[char]) -> (parts: Vec<Vec<char>>)
    ensures
        char_views(parts@) == lines(text@),
{
    let mut parts: Vec<Vec<char>> = Vec::new();
    let mut start: usize = 0;
    let total: usize = text.len();
    assert(text@.skip(0) =~= text@);
    assert(char_views(parts@) + lines(text@) =~= lines(text@));
    while start < total
        invariant
            total == text@.len(),
            start <= total,
            char_views(parts@) + lines(text@.skip(start as int)) == lines(text@),
        decreases total - start,
    {
        let ghost before = parts@;
        let ghost rest_text = text@.skip(start as int);
        proof {
            lemma_first_separator_bounds(rest_text, Separator::One('\n'));
        }
        assert(text@.subrange(start as int, total as int) =~= rest_text);
        let rest = vstd::slice::slice_subrange(text, start, total);
        let at: usize = find_separator(rest, Separator::One('\n'));
        if at == rest.len() {
            let part = copy_of(rest);
            parts.push(part);
            assert(char_views(parts@) =~= char_views(before).push(rest_text));
            assert(char_views(parts@) =~= char_views(before) + lines(rest_text));
            return parts;
        }
        let mut part = copy_of(vstd::slice::slice_subrange(rest, 0, at));
        assert(part@ =~= rest_text.take(at as int));
        if part.len() > 0 && part[part.len() - 1] == '\r' {
            let shorter: usize = part.len() - 1;
            part.truncate(shorter);
            assert(part@ =~= rest_text.take(at as int).drop_last());
        }
        assert(part@ == without_return(rest_text.take(at as int)));
        parts.push(part);
        assert(char_views(parts@) =~= char_views(before).push(part@));
        assert(rest_text.skip(at + 1) =~= text@.skip(start + at + 1));
        assert(char_views(parts@) + lines(text@.skip(start + at + 1)) =~= char_views(before)
            + lines(rest_text));
        start = start + at + 1;
    }
    assert(text@.skip(start as int).len() == 0);
    assert(char_views(parts@) + lines(text@.skip(start as int)) =~= char_views(parts@));
    parts
}

/// The parts with `separator` between them.
pub fn join(parts: &[String], separator: &str) -> (text: String)
    ensures
        text@ == joined(string_views(parts@), separator@),
{
    let mut text = String::new();
    let mut i: usize = 0;
    let ghost views = string_views(parts@);
    assert(text@ =~= joined(views.take(0), separator@));
    while i < parts.len()
        invariant
            i <= parts@.len(),
            views == string_views(parts@),
            text@ == joined(views.take(i as int), separator@),
        decreases parts@.len() - i,
    {
        if i > 0 {
            text.append(separator);
        }
        text.append(&parts[i]);
        proof {
            let next = views.take(i + 1);
            assert(next.drop_last() =~= views.take(i as int));
            assert(next.last() == parts@[i as int]@);
            assert(text@ =~= joined(next, separator@));
        }
        i += 1;
    }
    assert(views.take(parts@.len() as int) =~= views);
    text
}

/// Whether `needle` occurs in `text`.
pub fn contains(text: &[char], needle: &[char]) -> (found: bool)
    ensures
        found == holds(text@, needle@),
{
    let total: usize = text.len();
    let width: usize = needle.len();
    if width == 0 {
        assert(occurs_at(text@, needle@, 0)) by {
            assert(text@.subrange(0, 0) =~= needle@);
        }
        return true;
    }
    if width > total {
        return false;
    }
    let last: usize = total - width;
    let mut i: usize = 0;
    while i < last + 1
        invariant
            total == text@.len(),
            0 < width == needle@.len(),
            width <= total,
            last == total - width,
            i <= last + 1,
            forall|j: int| 0 <= j < i ==> !occurs_at(text@, needle@, j),
        decreases last + 1 - i,
    {
        if same(vstd::slice::slice_subrange(text, i, i + width), needle) {
            assert(occurs_at(text@, needle@, i as int));
            return true;
        }
        i += 1;
    }
    false
}

/// The unsigned number that `text` spells, if it is at most `max`.
pub fn parse_unsigned(text: &[char], max: u64) -> (value: Option<u64>)
    ensures
        match value {
            Some(number) => unsigned_of(text@, max as nat) == Some(number as nat),
            None => unsigned_of(text@, max as nat) is None,
        },
{
    let total: usize = text.len();
    let start: usize = if total > 0 && text[0] == '+' {
        1
    } else {
        0
    };
    let ghost digits = if text@.len() > 0 && text@[0] == '+' {
        text@.skip(1)
    } else {
        text@
    };
    assert(digits =~= text@.skip(start as int));
    if start == total {
        return None;
    }
    let mut value: u64 = 0;
    let mut i: usize = start;
    assert(digits.take(0) =~= Seq::empty());
    while i < total
        invariant
            total == text@.len(),
            start <= i <= total,
            digits == text@.skip(start as int),
            unsigned_of(text@, max as nat) == (if digits.len() > 0 && all_digits(digits)
                && digits_value(digits) <= max {
                Some(digits_value(digits))
            } else {
                None
            }),
            all_digits(digits.take(i - start)),
            value == digits_value(digits.take(i - start)),
            value <= max,
        decreases total - i,
    {
        let c = text[i];
        assert(digits[i - start] == c);
        if !('0' <= c && c <= '9') {
            assert(!is_digit(digits[i - start]));
            return None;
        }
        let wide: u128 = value as u128 * 10 + (c as u8 - 48) as u128;
        let ghost next = digits.take(i - start + 1);
        proof {
            assert(next.drop_last() =~= digits.take(i - start));
            assert(next.last() == c);
            assert(wide == digits_value(next));
            assert forall|j: int| 0 <= j < next.len() implies is_digit(#[trigger] next[j]) by {
                if j < i - start {
                    assert(next[j] == digits.take(i - start)[j]);
                }
            }
        }
        if wide > max as u128 {
            proof {
                if all_digits(digits) {
                    lemma_digits_prefix(digits, i - start + 1);
                }
            }
            return None;
        }
        value = wide as u64;
        i += 1;
    }
    assert(digits.take(total - start) =~= digits);
    Some(value)
}

/// Whether `c` is a hexadecimal digit.
pub fn is_hex(c: char) -> (yes: bool)
    ensures
        yes == is_hex_digit(c),
{
    ('0' <= c && c <= '9') || ('a' <= c && c <= 'f') || ('A' <= c && c <= 'F')
}

/// The hexadecimal digits of `text`, in order.
pub fn keep_hex_digits(text: &[char]) -> (digits: Vec<char>)
    ensures
        digits@ == hex_digits_of(text@),
{
    let mut digits: Vec<char> = Vec::new();
    let mut i: usize = 0;
    assert(text@.take(0) =~= Seq::empty());
    while i < text.len()
        invariant
            i <= text@.len(),
            digits@ == hex_digits_of(text@.take(i as int)),
        decreases text@.len() - i,
    {
        proof {
            let next = text@.take(i + 1);
            assert(next.drop_last() =~= text@.take(i as int));
            assert(next.last() == text@[i as int]);
        }
        if is_hex(text[i]) {
            digits.push(text[i]);
        }
        i += 1;
    }
    assert(text@.take(text@.len() as int) =~= text@);
    digits
}

proof fn lemma_hex_digits_are_hex(text: Seq<char>)
    ensures
        forall|i: int|
            0 <= i < hex_digits_of(text).len() ==> is_hex_digit(#[trigger] hex_digits_of(text)[i]),
    decreases text.len(),
{
    if text.len() > 0 {
        let front = hex_digits_of(text.drop_last());
        lemma_hex_digits_are_hex(text.drop_last());
        let all = hex_digits_of(text);
        assert forall|i: int| 0 <= i < all.len() implies is_hex_digit(#[trigger] all[i]) by {
            if i < front.len() {
                assert(all[i] == front[i]);
            }
        }
    }
}

/// `16` to the power of `n`.
pub open spec fn power16(n: nat) -> nat
    decreases n,
{
    if n == 0 {
        1
    } else {
        16 * power16((n - 1) as nat)
    }
}

proof fn lemma_power16(n: nat)
    requires
        n <= 12,
    ensures
        power16(n) <= 0x1_0000_0000_0000,
{
    reveal_with_fuel(power16, 13);
}

/// The number that at most twelve hexadecimal digits spell.
pub fn read_hex(digits: &[char]) -> (value: u64)
    requires
        digits@.len() <= 12,
        forall|i: int| 0 <= i < digits@.len() ==> is_hex_digit(#[trigger] digits@[i]),
    ensures
        value == hex_value(digits@),
        value < 0x1_0000_0000_0000,
{
    let mut value: u64 = 0;
    let mut i: usize = 0;
    assert(digits@.take(0) =~= Seq::empty());
    while i < digits.len()
        invariant
            digits@.len() <= 12,
            forall|j: int| 0 <= j < digits@.len() ==> is_hex_digit(#[trigger] digits@[j]),
            i <= digits@.len(),
            value == hex_value(digits@.take(i as int)),
            value < power16(i as nat),
        decreases digits@.len() - i,
    {
        let c = digits[i];
        assert(is_hex_digit(digits@[i as int]));
        let d: u64 = if '0' <= c && c <= '9' {
            (c as u8 - 48) as u64
        } else if 'a' <= c && c <= 'f' {
            (c as u8 - 87) as u64
        } else {
            (c as u8 - 55) as u64
        };
        assert(d < 16);
        proof {
            lemma_power16(i as nat);
            let next = digits@.take(i + 1);
            assert(next.drop_last() =~= digits@.take(i as int));
            assert(next.last() == c);
        }
        value = value * 16 + d;
        i += 1;
    }
    proof {
        assert(digits@.take(digits@.len() as int) =~= digits@);
        lemma_power16(i as nat);
    }
    value
}

/// The hexadecimal digits of `text`, as digits.
pub fn hex_digits_in(text: &[char]) -> (digits: Vec<char>)
    ensures
        digits@ == hex_digits_of(text@),
        forall|i: int| 0 <= i < digits@.len() ==> is_hex_digit(#[trigger] digits@[i]),
{
    let digits = keep_hex_digits(text);
    proof {
        lemma_hex_digits_are_hex(text@);
    }
    digits
}

/// The UTF-16 code units of `text`.
pub fn utf16_units(text: &str) -> (units: Vec<u16>)
    ensures
        units@ == utf16(text@),
{
    let chars = chars_of(text);
    let mut units: Vec<u16> = Vec::new();
    let mut i: usize = 0;
    assert(chars@.take(0) =~= Seq::empty());
    while i < chars.len()
        invariant
            i <= chars@.len(),
            units@ == utf16(chars@.take(i as int)),
        decreases chars@.len() - i,
    {
        let c = chars[i];
        let point: u32 = c as u32;
        proof {
            vstd::utf8::char_is_scalar(c);
        }
        let ghost before = units@;
        if point < 0x1_0000 {
            units.push(point as u16);
        } else {
            units.push((0xd800 + (point - 0x1_0000) / 0x400) as u16);
            units.push((0xdc00 + (point - 0x1_0000) % 0x400) as u16);
        }
        proof {
            let next = chars@.take(i + 1);
            assert(next.drop_last() =~= chars@.take(i as int));
            assert(next.last() == chars@[i as int]);
            assert(utf16_of(c).len() == units@.len() - before.len());
            assert(units@ =~= before + utf16_of(c));
        }
        i += 1;
    }
    assert(chars@.take(chars@.len() as int) =~= chars@);
    units
}

/// Whether every character of `text` is white space.
pub open spec fn all_spaces(text: Seq<char>) -> bool {
    forall|i: int| 0 <= i < text.len() ==> is_space(#[trigger] text[i])
}

/// Whether `text` neither begins nor ends with white space.
pub open spec fn is_bare(text: Seq<char>) -> bool {
    text.len() == 0 || (!is_space(text[0]) && !is_space(text.last()))
}

/// Trimming takes the white space off both ends and nothing else: whatever stands between is kept
/// as it is.
pub proof fn law_trimming_keeps_what_stands_between(
    before: Seq<char>,
    core: Seq<char>,
    after: Seq<char>,
)
    requires
        all_spaces(before),
        all_spaces(after),
        is_bare(core),
    ensures
        trimmed(before + core + after) == core,
{
    if core.len() == 0 {
        let all = before + core + after;
        assert forall|i: int| 0 <= i < all.len() implies is_space(#[trigger] all[i]) by {
            if i < before.len() {
                assert(all[i] == before[i]);
            } else {
                assert(all[i] == after[i - before.len()]);
            }
        }
        assert(all + Seq::<char>::empty() =~= all);
        lemma_trimmed_start(all, Seq::empty());
        assert(trimmed_end(Seq::<char>::empty()) =~= core);
    } else {
        assert(before + core + after =~= before + (core + after));
        assert((core + after)[0] == core[0]);
        lemma_trimmed_start(before, core + after);
        lemma_trimmed_end(core, after);
    }
}

proof fn lemma_trimmed_start(before: Seq<char>, rest: Seq<char>)
    requires
        all_spaces(before),
        rest.len() == 0 || !is_space(rest[0]),
    ensures
        trimmed_start(before + rest) == rest,
    decreases before.len(),
{
    let all = before + rest;
    if before.len() == 0 {
        assert(all =~= rest);
    } else {
        assert(is_space(before[0]));
        assert(all[0] == before[0]);
        let fewer = before.skip(1);
        assert forall|i: int| 0 <= i < fewer.len() implies is_space(#[trigger] fewer[i]) by {
            assert(fewer[i] == before[i + 1]);
        }
        assert(all.skip(1) =~= fewer + rest);
        lemma_trimmed_start(fewer, rest);
    }
}

proof fn lemma_trimmed_end(core: Seq<char>, after: Seq<char>)
    requires
        all_spaces(after),
        core.len() > 0,
        !is_space(core.last()),
    ensures
        trimmed_end(core + after) == core,
    decreases after.len(),
{
    let all = core + after;
    if after.len() == 0 {
        assert(all =~= core);
    } else {
        assert(is_space(after[after.len() - 1]));
        assert(all.last() == after.last());
        let fewer = after.drop_last();
        assert forall|i: int| 0 <= i < fewer.len() implies is_space(#[trigger] fewer[i]) by {
            assert(fewer[i] == after[i]);
        }
        assert(all.drop_last() =~= core + fewer);
        lemma_trimmed_end(core, fewer);
    }
}

/// A text without a separator is one part, and a separator makes the parts of what stands before it
/// and of what stands behind it into those of the whole, none left out.
pub proof fn law_a_separator_divides(
    before: Seq<char>,
    between: char,
    after: Seq<char>,
    separator: Separator,
)
    requires
        separates(separator, between),
    ensures
        split(before.push(between) + after, separator) == split(before, separator) + split(
            after,
            separator,
        ),
        (forall|i: int| 0 <= i < after.len() ==> !separates(separator, #[trigger] after[i]))
            ==> split(after, separator) == seq![after],
    decreases before.len(),
{
    let whole = before.push(between) + after;
    if forall|i: int| 0 <= i < after.len() ==> !separates(separator, #[trigger] after[i]) {
        lemma_first_separator(after, separator, after.len() as int);
    }
    lemma_first_separator_bounds(before, separator);
    let at = first_separator(before, separator);
    assert forall|i: int| 0 <= i < at implies !separates(separator, #[trigger] whole[i]) by {
        assert(whole[i] == before[i]);
    }
    if at < before.len() {
        assert(whole[at] == before[at]);
        lemma_first_separator(whole, separator, at);
        let rest = before.skip(at + 1);
        assert(whole.skip(at + 1) =~= rest.push(between) + after);
        assert(whole.take(at) =~= before.take(at));
        law_a_separator_divides(rest, between, after, separator);
        let one = seq![before.take(at)];
        assert(one + (split(rest, separator) + split(after, separator)) =~= one + split(
            rest,
            separator,
        ) + split(after, separator));
    } else {
        assert(whole[at] == between);
        lemma_first_separator(whole, separator, at);
        assert(whole.skip(at + 1) =~= after);
        assert(whole.take(at) =~= before);
    }
}

/// A text without a line feed is one line, whole, unless it is empty; a line feed ends a line, and
/// takes one carriage return before it away with it.
pub proof fn law_a_line_is_kept_whole(line: Seq<char>)
    requires
        forall|i: int| 0 <= i < line.len() ==> #[trigger] line[i] != '\n',
    ensures
        line.len() > 0 ==> lines(line) == seq![line],
        line.len() == 0 ==> lines(line) == Seq::<Seq<char>>::empty(),
        lines(line.push('\n')) == seq![
            if line.len() > 0 && line.last() == '\r' {
                line.drop_last()
            } else {
                line
            },
        ],
{
    let feed = Separator::One('\n');
    lemma_first_separator(line, feed, line.len() as int);
    let ended = line.push('\n');
    assert forall|i: int| 0 <= i < line.len() implies !separates(feed, #[trigger] ended[i]) by {
        assert(ended[i] == line[i]);
    }
    lemma_first_separator(ended, feed, line.len() as int);
    assert(ended.take(line.len() as int) =~= line);
    assert(ended.skip(line.len() as int + 1) =~= Seq::<char>::empty());
    assert(lines(ended.skip(line.len() as int + 1)) =~= Seq::<Seq<char>>::empty());
    assert(lines(ended) =~= seq![without_return(line)]);
}

/// Parts are joined one after the other: the next part comes behind one separator.
pub proof fn law_parts_are_joined_in_order(parts: Seq<Seq<char>>, next: Seq<char>, separator: Seq<
    char,
>)
    ensures
        joined(Seq::<Seq<char>>::empty(), separator) == Seq::<char>::empty(),
        joined(seq![next], separator) == next,
        parts.len() > 0 ==> joined(parts.push(next), separator) == joined(parts, separator)
            + separator + next,
{
    assert(parts.push(next).drop_last() =~= parts);
}

/// The hexadecimal notation of a number is read back as that number, and has no zero in front.
pub proof fn law_hexadecimal_is_read_back(n: nat)
    ensures
        hexadecimal(n).len() >= 1,
        forall|i: int| 0 <= i < hexadecimal(n).len() ==> is_hex_digit(#[trigger] hexadecimal(n)[i])
            && hexadecimal(n)[i] != 'x' && hexadecimal(n)[i] != 'X',
        hex_value(hexadecimal(n)) == n,
        hex_digits_of(hexadecimal(n)) == hexadecimal(n),
        hexadecimal(n)[0] == '0' ==> n == 0,
    decreases n,
{
    if n < 16 {
        let one = seq![hex_digit(n)];
        assert(one.drop_last() =~= Seq::<char>::empty());
        reveal_with_fuel(hex_value, 2);
        reveal_with_fuel(hex_digits_of, 2);
        assert(hex_digits_of(one) =~= one);
    } else {
        law_hexadecimal_is_read_back(n / 16);
        let all = hexadecimal(n);
        assert(all.drop_last() =~= hexadecimal(n / 16));
        assert(all[0] == hexadecimal(n / 16)[0]);
        assert forall|i: int| 0 <= i < all.len() implies is_hex_digit(#[trigger] all[i]) && all[i]
            != 'x' && all[i] != 'X' by {
            if i < all.len() - 1 {
                assert(all[i] == hexadecimal(n / 16)[i]);
            }
        }
    }
}

/// Two hexadecimal digits stand for each byte, in order, the high one first, and spell it.
pub proof fn law_each_byte_is_two_digits(data: Seq<u8>)
    ensures
        hex(data).len() == 2 * data.len(),
        forall|i: int|
            0 <= i < data.len() ==> 16 * hex_digit_value(hex(data)[2 * i]) + hex_digit_value(
                hex(data)[2 * i + 1],
            ) == #[trigger] data[i],
        forall|i: int|
            0 <= i < hex(data).len() ==> is_hex_digit(#[trigger] hex(data)[i]) && !('A' <= hex(
                data,
            )[i] && hex(data)[i] <= 'Z'),
    decreases data.len(),
{
    if data.len() > 0 {
        let front = data.drop_last();
        law_each_byte_is_two_digits(front);
        let all = hex(data);
        let before = hex(front);
        assert forall|i: int| 0 <= i < data.len() implies 16 * hex_digit_value(all[2 * i])
            + hex_digit_value(all[2 * i + 1]) == #[trigger] data[i] by {
            if i < front.len() {
                assert(front[i] == data[i]);
                assert(all[2 * i] == before[2 * i]);
                assert(all[2 * i + 1] == before[2 * i + 1]);
            } else {
                assert(all[2 * i] == hex_byte(data.last())[0]);
                assert(all[2 * i + 1] == hex_byte(data.last())[1]);
            }
        }
        assert forall|i: int| 0 <= i < all.len() implies is_hex_digit(#[trigger] all[i]) && !('A'
            <= all[i] && all[i] <= 'Z') by {
            if i < before.len() {
                assert(all[i] == before[i]);
            } else {
                assert(all[i] == hex_byte(data.last())[i - before.len()]);
            }
        }
    }
}

/// What is no hexadecimal digit does not count, wherever it stands.
pub proof fn law_only_hexadecimal_digits_count(before: Seq<char>, other: char, after: Seq<char>)
    requires
        !('0' <= other && other <= '9'),
        !('a' <= other && other <= 'f'),
        !('A' <= other && other <= 'F'),
    ensures
        hex_digits_of(before.push(other) + after) == hex_digits_of(before + after),
    decreases after.len(),
{
    if after.len() == 0 {
        assert(before.push(other) + after =~= before.push(other));
        assert(before + after =~= before);
        assert(before.push(other).drop_last() =~= before);
    } else {
        let fewer = after.drop_last();
        law_only_hexadecimal_digits_count(before, other, fewer);
        assert((before.push(other) + after).drop_last() =~= before.push(other) + fewer);
        assert((before + after).drop_last() =~= before + fewer);
    }
}

/// Filling up puts zeros in front until the width is reached, and never takes anything away.
pub proof fn law_filling_puts_zeros_in_front(text: Seq<char>, width: nat)
    ensures
        ({
            let filled = zero_filled(text, width);
            let more: int = if text.len() < width {
                width - text.len()
            } else {
                0
            };
            &&& filled.len() == text.len() + more
            &&& filled.skip(more) == text
            &&& forall|i: int| 0 <= i < more ==> filled[i] == '0'
        }),
{
    let filled = zero_filled(text, width);
    let more: int = if text.len() < width {
        width - text.len()
    } else {
        0
    };
    assert(filled.skip(more) =~= text);
}

/// An unsigned number is digits, at least one, with at most one plus sign in front, and at most the
/// largest that is allowed.
pub proof fn law_what_counts_as_a_number(text: Seq<char>, max: nat)
    ensures
        unsigned_of(text, max) matches Some(n) ==> n <= max && text.len() > 0,
        text.len() == 0 ==> unsigned_of(text, max) is None,
        text == seq!['+'] ==> unsigned_of(text, max) is None,
        text.len() > 0 && text[0] != '+' ==> unsigned_of(seq!['+'] + text, max) == unsigned_of(
            text,
            max,
        ),
        (exists|i: int|
            0 <= i < text.len() && !(i == 0 && text[i] == '+') && !('0' <= #[trigger] text[i]
                && text[i] <= '9')) ==> unsigned_of(text, max) is None,
{
    assert((seq!['+'] + text).skip(1) =~= text);
    if exists|i: int|
        0 <= i < text.len() && !(i == 0 && text[i] == '+') && !('0' <= #[trigger] text[i] && text[i]
            <= '9') {
        let i = choose|i: int|
            0 <= i < text.len() && !(i == 0 && text[i] == '+') && !('0' <= #[trigger] text[i]
                && text[i] <= '9');
        let digits = if text[0] == '+' {
            text.skip(1)
        } else {
            text
        };
        let at = if text[0] == '+' {
            i - 1
        } else {
            i
        };
        assert(digits[at] == text[i]);
        assert(!is_digit(digits[at]));
    }
}

/// Lowering touches the capital letters of ASCII alone, each by 32, and keeps the length.
pub proof fn law_lowering_touches_capitals_alone(text: Seq<char>)
    ensures
        ascii_lowered(text).len() == text.len(),
        forall|i: int|
            0 <= i < text.len() ==> (#[trigger] ascii_lowered(text)[i]) as int == text[i] as int + (
            if 'A' <= text[i] && text[i] <= 'Z' {
                32int
            } else {
                0
            }),
{
}

/// A number above the limit is refused, and zeros in front of a number change nothing.
pub proof fn law_limits_and_leading_zeros(n: nat, max: nat, digits: Seq<char>)
    requires
        all_digits(digits),
        digits.len() > 0,
    ensures
        n > max ==> unsigned_of(decimal(n), max) is None,
        unsigned_of(seq!['0'] + digits, max) == unsigned_of(digits, max),
{
    law_decimal_spells_the_number(n);
    assert(is_digit(decimal(n)[0]));
    let longer = seq!['0'] + digits;
    assert(is_digit(digits[0]));
    assert forall|i: int| 0 <= i < longer.len() implies is_digit(#[trigger] longer[i]) by {
        if i > 0 {
            assert(longer[i] == digits[i - 1]);
        }
    }
    lemma_zero_in_front(digits);
}

proof fn lemma_zero_in_front(digits: Seq<char>)
    requires
        all_digits(digits),
    ensures
        digits_value(seq!['0'] + digits) == digits_value(digits),
    decreases digits.len(),
{
    let longer = seq!['0'] + digits;
    if digits.len() == 0 {
        assert(longer.drop_last() =~= Seq::<char>::empty());
        reveal_with_fuel(digits_value, 2);
    } else {
        assert(longer.drop_last() =~= seq!['0'] + digits.drop_last());
        assert forall|i: int| 0 <= i < digits.drop_last().len() implies is_digit(
            #[trigger] digits.drop_last()[i],
        ) by {
            assert(digits.drop_last()[i] == digits[i]);
        }
        lemma_zero_in_front(digits.drop_last());
        assert(longer.last() == digits.last());
    }
}

/// A text holds what stands anywhere in it, character by character.
pub proof fn law_what_a_text_holds(
    before: Seq<char>,
    needle: Seq<char>,
    after: Seq<char>,
    at: int,
)
    ensures
        holds(before + needle + after, needle),
        holds(before, needle) ==> needle.len() <= before.len(),
        occurs_at(before, needle, at) <==> 0 <= at <= before.len() - needle.len() && forall|k: int|
            0 <= k < needle.len() ==> before[at + k] == #[trigger] needle[k],
{
    let whole = before + needle + after;
    let n = before.len() as int;
    assert(whole.subrange(n, n + needle.len()) =~= needle);
    assert(occurs_at(whole, needle, n));
    if 0 <= at <= before.len() - needle.len() {
        let part = before.subrange(at, at + needle.len());
        if part == needle {
            assert forall|k: int| 0 <= k < needle.len() implies before[at + k]
                == #[trigger] needle[k] by {
                assert(part[k] == needle[k]);
            }
        } else if forall|k: int|
            0 <= k < needle.len() ==> before[at + k] == #[trigger] needle[k] {
            assert(part =~= needle);
        }
    }
}

/// A character below `0x10000` is one code unit, its own number; any other is two, of which the
/// first holds the upper ten bits of what is above `0x10000` and the second the lower ten.
pub proof fn law_the_code_units_of_a_text(front: Seq<char>, back: Seq<char>, c: char)
    ensures
        utf16(Seq::<char>::empty()) == Seq::<u16>::empty(),
        utf16(front + back) == utf16(front) + utf16(back),
        c as int <= 0xffff ==> utf16(seq![c]) == seq![c as u16],
        c as int > 0xffff ==> utf16(seq![c]).len() == 2 && 0xd800 <= utf16(seq![c])[0] < 0xdc00
            && 0xdc00 <= utf16(seq![c])[1] < 0xe000 && c as int == 0x1_0000 + (utf16(seq![c])[0]
            - 0xd800) * 0x400 + (utf16(seq![c])[1] - 0xdc00),
    decreases back.len(),
{
    assert(seq![c].drop_last() =~= Seq::<char>::empty());
    assert(utf16(Seq::<char>::empty()) =~= Seq::<u16>::empty());
    assert(utf16(seq![c]) =~= utf16_of(c));
    if back.len() == 0 {
        assert(front + back =~= front);
        assert(utf16(front) + utf16(back) =~= utf16(front));
    } else {
        law_the_code_units_of_a_text(front, back.drop_last(), c);
        assert((front + back).drop_last() =~= front + back.drop_last());
        assert((front + back).last() == back.last());
        assert(utf16(front + back) =~= utf16(front) + utf16(back));
    }
}

/// White space is what Unicode counts as such: the controls from 9 to 13, the blank, and the listed
/// characters above; a letter, a digit or any other sign is none.
pub proof fn law_what_is_white_space(c: char)
    ensures
        is_space(c) <==> {
            let n = c as int;
            9 <= n <= 13 || n == 32 || n == 0x85 || n == 0xa0 || n == 0x1680 || 0x2000 <= n <= 0x200a
                || n == 0x2028 || n == 0x2029 || n == 0x202f || n == 0x205f || n == 0x3000
        },
{
}

/// A separator is one character, or the comma and every white space.
pub proof fn law_what_separates(one: char, c: char)
    ensures
        separates(Separator::One(one), c) <==> c == one,
        separates(Separator::CommaOrSpace, c) <==> (c == ',' || is_space(c)),
{
}

/// In capitals a byte is two digits as well, the upper half first: `0` to `9`, then `A` to `F`.
pub proof fn law_each_byte_is_two_capital_digits(byte: u8)
    ensures
        ({
            let shown = hex_byte_upper(byte);
            let high = byte as int / 16;
            let low = byte as int % 16;
            &&& shown.len() == 2
            &&& high < 10 ==> shown[0] as int == '0' as int + high
            &&& high >= 10 ==> shown[0] as int == 'A' as int + (high - 10)
            &&& low < 10 ==> shown[1] as int == '0' as int + low
            &&& low >= 10 ==> shown[1] as int == 'A' as int + (low - 10)
        }),
{
}

/// The digits by their characters: ten decimal ones, and six letters of either case behind them,
/// of which the small ones are written.
pub proof fn law_the_digits_by_their_characters(c: char, d: nat)
    ensures
        is_digit(c) <==> 48 <= c as int <= 57,
        is_hex_digit(c) <==> (48 <= c as int <= 57 || 65 <= c as int <= 70 || 97 <= c as int <= 102),
        48 <= c as int <= 57 ==> hex_digit_value(c) == c as int - 48,
        65 <= c as int <= 70 ==> hex_digit_value(c) == c as int - 55,
        97 <= c as int <= 102 ==> hex_digit_value(c) == c as int - 87,
        d < 10 ==> decimal(d) == seq![(48 + d) as char] && hexadecimal(d) == seq![(48 + d) as char],
        10 <= d < 16 ==> hexadecimal(d) == seq![(87 + d) as char],
{
}

/// The last digit of a number is what it leaves over a multiple of the base, and the digits before
/// it are those of the rest.
pub proof fn law_the_last_digit(n: nat)
    ensures
        n >= 10 ==> decimal(n) == decimal(n / 10) + seq![(48 + n % 10) as char],
        n >= 16 ==> hexadecimal(n).drop_last() == hexadecimal(n / 16) && hex_digit_value(
            hexadecimal(n).last(),
        ) == n % 16,
        n < 16 ==> hexadecimal(n).len() == 1,
        n < 10 ==> decimal(n).len() == 1,
{
    if n >= 16 {
        assert(hexadecimal(n).drop_last() =~= hexadecimal(n / 16));
    }
    if n >= 10 {
        assert(decimal(n) =~= decimal(n / 10) + seq![(48 + n % 10) as char]);
    }
}

} // verus!
