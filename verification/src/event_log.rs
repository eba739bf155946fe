//! The text of the session log.
//!
//! Every state change, keep-alive number and failure is one line of a text file that a user can
//! hand over. Nothing here looks at what a line says: callers pass short readable lines, and never
//! the account or the password.

use vstd::prelude::*;

use crate::text;

verus! {

/// The file that the log is kept in.
pub const FILE_NAME: &'static str = "drcom.log";

/// The log starts over once it is longer than this.
pub const MAX_BYTES: u64 = 262144;

/// What the single previous generation has behind its name, after a dot.
pub const ROTATED_SUFFIX: &'static str = "1";

/// The local wall clock.
#[derive(Debug, Clone, Copy, PartialEq, Eq, Structural)]
pub struct LocalTime {
    pub year: u16,
    pub month: u16,
    pub day: u16,
    pub hour: u16,
    pub minute: u16,
    pub second: u16,
}

/// A number with two digits at least.
pub open spec fn two(n: u16) -> Seq<char> {
    text::zero_filled(text::decimal(n as nat), 2)
}

/// A number with four digits at least.
pub open spec fn four(n: u16) -> Seq<char> {
    text::zero_filled(text::decimal(n as nat), 4)
}

/// A moment for a reader.
pub open spec fn stamp(now: LocalTime) -> Seq<char> {
    four(now.year) + "-"@ + two(now.month) + "-"@ + two(now.day) + " "@ + two(now.hour) + ":"@
        + two(now.minute) + ":"@ + two(now.second)
}

/// A moment for a file name.
pub open spec fn compact_stamp(now: LocalTime) -> Seq<char> {
    four(now.year) + two(now.month) + two(now.day) + "-"@ + two(now.hour) + two(now.minute) + two(
        now.second,
    )
}

/// A character that keeps a line in one piece.
pub open spec fn flattened(c: char) -> char {
    if c == '\r' || c == '\n' {
        ' '
    } else {
        c
    }
}

/// A message on one line.
pub open spec fn on_one_line(message: Seq<char>) -> Seq<char> {
    message.map_values(|c: char| flattened(c))
}

/// The line of a message, without its end.
pub open spec fn line_of(now: LocalTime, message: Seq<char>) -> Seq<char> {
    "["@ + stamp(now) + "] "@ + on_one_line(message)
}

/// The last `n` parts.
pub open spec fn last_parts(parts: Seq<Seq<char>>, n: nat) -> Seq<Seq<char>> {
    if parts.len() <= n {
        parts
    } else {
        parts.skip(parts.len() - n)
    }
}

/// Keeps one message on one line, so that the log can be split again.
pub fn single_line(message: &str) -> (line: String)
    ensures
        line@ == on_one_line(message@),
{
    let chars = text::chars_of(message);
    let mut line = String::new();
    let mut i: usize = 0;
    while i < chars.len()
        invariant
            chars@ == message@,
            i <= chars@.len(),
            line@.len() == i,
            forall|j: int| 0 <= j < i ==> line@[j] == flattened(chars@[j]),
        decreases chars@.len() - i,
    {
        let c = chars[i];
        if c == '\r' || c == '\n' {
            line.push(' ');
        } else {
            line.push(c);
        }
        i += 1;
    }
    assert(line@ =~= on_one_line(message@));
    line
}

/// A moment for a reader: `2026-09-15 08:30:05`.
pub fn timestamp(now: LocalTime) -> (shown: String)
    ensures
        shown@ == stamp(now),
{
    let mut shown = text::padded_decimal(now.year as u64, 4);
    shown.append("-");
    shown.append(&text::padded_decimal(now.month as u64, 2));
    shown.append("-");
    shown.append(&text::padded_decimal(now.day as u64, 2));
    shown.append(" ");
    shown.append(&text::padded_decimal(now.hour as u64, 2));
    shown.append(":");
    shown.append(&text::padded_decimal(now.minute as u64, 2));
    shown.append(":");
    shown.append(&text::padded_decimal(now.second as u64, 2));
    shown
}

/// A moment for a file name: `20260915-083005`.
pub fn compact_timestamp(now: LocalTime) -> (shown: String)
    ensures
        shown@ == compact_stamp(now),
{
    let mut shown = text::padded_decimal(now.year as u64, 4);
    shown.append(&text::padded_decimal(now.month as u64, 2));
    shown.append(&text::padded_decimal(now.day as u64, 2));
    shown.append("-");
    shown.append(&text::padded_decimal(now.hour as u64, 2));
    shown.append(&text::padded_decimal(now.minute as u64, 2));
    shown.append(&text::padded_decimal(now.second as u64, 2));
    shown
}

/// What one message adds to the log: a stamped line and its end.
pub fn record(now: LocalTime, message: &str) -> (line: String)
    ensures
        line@ == line_of(now, message@).push('\n'),
{
    let mut line = "[".to_string();
    line.append(&timestamp(now));
    line.append("] ");
    line.append(&single_line(message));
    line.push('\n');
    line
}

/// Whether a log of this length starts over before the next line.
pub fn rotate_if_large(length: u64) -> (rotate: bool)
    ensures
        rotate == (length > MAX_BYTES),
{
    length > MAX_BYTES
}

/// The file name of the single previous generation of a log.
pub fn rotated_path(file_name: &str) -> (rotated: String)
    ensures
        rotated@ == file_name@ + "."@ + ROTATED_SUFFIX@,
{
    let mut rotated = file_name.to_string();
    rotated.append(".");
    rotated.append(ROTATED_SUFFIX);
    rotated
}

/// What has to be done to a log file for one message.
#[derive(Debug, Clone, PartialEq, Eq)]
pub struct Append {
    /// Whether the file is renamed first, which starts the log over.
    pub rotate: bool,
    /// What is written at the end.
    pub line: String,
}

/// How a message gets into a log, given how long the file is: nothing is known of its length where
/// there is no file.
pub fn append(length: Option<u64>, now: LocalTime, message: &str) -> (step: Append)
    ensures
        step.rotate == (length matches Some(length) && length > MAX_BYTES),
        step.line@ == line_of(now, message@).push('\n'),
{
    let rotate = match length {
        Some(length) => rotate_if_large(length),
        None => false,
    };
    Append { rotate, line: record(now, message) }
}

/// The last lines of a log, oldest first. Without a log there are none.
pub fn tail(log: Option<&str>, lines: usize) -> (shown: String)
    ensures
        shown@ == match log {
            Some(log) => text::joined(last_parts(text::lines(log@), lines as nat), "\n"@),
            None => Seq::<char>::empty(),
        },
{
    let log = match log {
        Some(log) => log,
        None => return String::new(),
    };
    let all = text::split_lines(&text::chars_of(log));
    let ghost views = text::char_views(all@);
    let total: usize = all.len();
    let start: usize = if total <= lines {
        0
    } else {
        total - lines
    };
    assert(views.len() == total);
    let mut kept: Vec<String> = Vec::new();
    let mut i: usize = start;
    while i < total
        invariant
            total == all@.len(),
            views == text::char_views(all@),
            start <= i <= total,
            kept@.len() == i - start,
            forall|j: int| 0 <= j < i - start ==> (#[trigger] kept@[j])@ == views[start + j],
        decreases total - i,
    {
        assert(views[i as int] == all@[i as int]@);
        kept.push(text::string_of(&all[i]));
        i += 1;
    }
    assert(text::string_views(kept@) =~= last_parts(views, lines as nat));
    text::join(&kept, "\n")
}

pub open spec fn holds_line_end(words: Seq<char>) -> bool {
    exists|i: int| 0 <= i < words.len() && (#[trigger] words[i] == '\n' || words[i] == '\r')
}

proof fn lemma_filled(n: u16, width: nat)
    ensures
        !holds_line_end(text::zero_filled(text::decimal(n as nat), width)),
{
    text::law_decimal_spells_the_number(n as nat);
    let digits = text::decimal(n as nat);
    let filled = text::zero_filled(digits, width);
    assert forall|i: int| 0 <= i < filled.len() implies filled[i] != '\n' && filled[i] != '\r' by {
        if digits.len() < width {
            if i >= width - digits.len() {
                assert(text::is_digit(digits[i - (width - digits.len())]));
            }
        } else {
            assert(text::is_digit(digits[i]));
        }
    }
}

proof fn lemma_appended(a: Seq<char>, b: Seq<char>)
    requires
        !holds_line_end(a),
        !holds_line_end(b),
    ensures
        !holds_line_end(a + b),
{
    let both = a + b;
    assert forall|i: int| 0 <= i < both.len() implies both[i] != '\n' && both[i] != '\r' by {
        if i < a.len() {
            assert(both[i] == a[i]);
        } else {
            assert(both[i] == b[i - a.len()]);
        }
    }
}

proof fn lemma_stamp(now: LocalTime)
    ensures
        !holds_line_end(stamp(now)),
{
    reveal_strlit("-");
    reveal_strlit(" ");
    reveal_strlit(":");
    lemma_filled(now.year, 4);
    lemma_filled(now.month, 2);
    lemma_filled(now.day, 2);
    lemma_filled(now.hour, 2);
    lemma_filled(now.minute, 2);
    lemma_filled(now.second, 2);
    let s1 = four(now.year) + "-"@;
    lemma_appended(four(now.year), "-"@);
    let s2 = s1 + two(now.month);
    lemma_appended(s1, two(now.month));
    let s3 = s2 + "-"@;
    lemma_appended(s2, "-"@);
    let s4 = s3 + two(now.day);
    lemma_appended(s3, two(now.day));
    let s5 = s4 + " "@;
    lemma_appended(s4, " "@);
    let s6 = s5 + two(now.hour);
    lemma_appended(s5, two(now.hour));
    let s7 = s6 + ":"@;
    lemma_appended(s6, ":"@);
    let s8 = s7 + two(now.minute);
    lemma_appended(s7, two(now.minute));
    let s9 = s8 + ":"@;
    lemma_appended(s8, ":"@);
    lemma_appended(s9, two(now.second));
}

/// A message with the moment it came in.
#[verifier::ext_equal]
pub struct Entry {
    pub now: LocalTime,
    pub message: Seq<char>,
}

/// The log that entries leave, oldest first.
pub open spec fn log_of(entries: Seq<Entry>) -> Seq<char>
    decreases entries.len(),
{
    if entries.len() == 0 {
        Seq::empty()
    } else {
        line_of(entries[0].now, entries[0].message).push('\n') + log_of(entries.skip(1))
    }
}

/// The lines of entries.
pub open spec fn entry_lines(entries: Seq<Entry>) -> Seq<Seq<char>> {
    entries.map_values(|entry: Entry| line_of(entry.now, entry.message))
}

proof fn lemma_line(now: LocalTime, message: Seq<char>)
    ensures
        !holds_line_end(line_of(now, message)),
{
    reveal_strlit("[");
    reveal_strlit("] ");
    lemma_stamp(now);
    let flat = on_one_line(message);
    assert(!holds_line_end(flat));
    lemma_appended("["@, stamp(now));
    let s1 = "["@ + stamp(now);
    lemma_appended(s1, "] "@);
    let s2 = s1 + "] "@;
    lemma_appended(s2, flat);
}

/// Whatever the messages hold, each is one line of the log, in the order they came in, so the last
/// lines of a log are the last messages.
pub proof fn law_each_message_is_one_line(entries: Seq<Entry>)
    ensures
        text::lines(log_of(entries)) == entry_lines(entries),
    decreases entries.len(),
{
    if entries.len() == 0 {
        assert(entry_lines(entries) =~= Seq::empty());
    } else {
        let first = entries[0];
        let line = line_of(first.now, first.message);
        let rest = log_of(entries.skip(1));
        let log = line.push('\n') + rest;
        let end = text::Separator::One('\n');
        lemma_line(first.now, first.message);
        assert forall|i: int| 0 <= i < line.len() implies !text::separates(end, #[trigger] log[i]) by {
            assert(log[i] == line[i]);
        }
        text::lemma_first_separator(log, end, line.len() as int);
        assert(log.take(line.len() as int) =~= line);
        assert(log.skip(line.len() as int + 1) =~= rest);
        if line.len() > 0 {
            assert(line.last() != '\r');
        }
        assert(text::without_return(line) == line);
        law_each_message_is_one_line(entries.skip(1));
        assert(entry_lines(entries) =~= seq![line] + entry_lines(entries.skip(1)));
    }
}

/// Up to 99, and up to 9999, a number has exactly two digits, and four, the tens before the ones.
pub proof fn law_the_digits_of_a_moment(n: u16)
    ensures
        n < 100 ==> two(n).len() == 2 && two(n)[0] as int == '0' as int + n / 10 && two(n)[1] as int
            == '0' as int + n % 10,
        n < 10000 ==> four(n).len() == 4 && four(n)[0] as int == '0' as int + n / 1000
            && four(n)[1] as int == '0' as int + n / 100 % 10 && four(n)[2] as int == '0' as int + n
            / 10 % 10 && four(n)[3] as int == '0' as int + n % 10,
{
    reveal_with_fuel(text::decimal, 5);
}

/// A moment for a reader is `YYYY-MM-DD hh:mm:ss`, and one for a file name `YYYYMMDD-hhmmss`.
pub proof fn law_the_layout_of_a_moment(now: LocalTime)
    requires
        now.year < 10000,
        now.month < 100,
        now.day < 100,
        now.hour < 100,
        now.minute < 100,
        now.second < 100,
    ensures
        ({
            let shown = stamp(now);
            &&& shown.len() == 19
            &&& shown.subrange(0, 4) == four(now.year)
            &&& shown[4] == '-'
            &&& shown.subrange(5, 7) == two(now.month)
            &&& shown[7] == '-'
            &&& shown.subrange(8, 10) == two(now.day)
            &&& shown[10] == ' '
            &&& shown.subrange(11, 13) == two(now.hour)
            &&& shown[13] == ':'
            &&& shown.subrange(14, 16) == two(now.minute)
            &&& shown[16] == ':'
            &&& shown.subrange(17, 19) == two(now.second)
        }),
        ({
            let named = compact_stamp(now);
            &&& named.len() == 15
            &&& named.subrange(0, 4) == four(now.year)
            &&& named.subrange(4, 6) == two(now.month)
            &&& named.subrange(6, 8) == two(now.day)
            &&& named[8] == '-'
            &&& named.subrange(9, 11) == two(now.hour)
            &&& named.subrange(11, 13) == two(now.minute)
            &&& named.subrange(13, 15) == two(now.second)
        }),
{
    law_the_digits_of_a_moment(now.year);
    law_the_digits_of_a_moment(now.month);
    law_the_digits_of_a_moment(now.day);
    law_the_digits_of_a_moment(now.hour);
    law_the_digits_of_a_moment(now.minute);
    law_the_digits_of_a_moment(now.second);
    reveal_strlit("-");
    reveal_strlit(" ");
    reveal_strlit(":");
    let (y, mo, d) = (four(now.year), two(now.month), two(now.day));
    let (h, mi, s) = (two(now.hour), two(now.minute), two(now.second));
    lemma_layout(y, mo, d, h, mi, s);
}

proof fn lemma_layout(
    y: Seq<char>,
    mo: Seq<char>,
    d: Seq<char>,
    h: Seq<char>,
    mi: Seq<char>,
    s: Seq<char>,
)
    requires
        y.len() == 4,
        mo.len() == 2,
        d.len() == 2,
        h.len() == 2,
        mi.len() == 2,
        s.len() == 2,
    ensures
        ({
            let shown = y + "-"@ + mo + "-"@ + d + " "@ + h + ":"@ + mi + ":"@ + s;
            &&& shown.len() == 19
            &&& shown.subrange(0, 4) == y
            &&& shown[4] == '-'
            &&& shown.subrange(5, 7) == mo
            &&& shown[7] == '-'
            &&& shown.subrange(8, 10) == d
            &&& shown[10] == ' '
            &&& shown.subrange(11, 13) == h
            &&& shown[13] == ':'
            &&& shown.subrange(14, 16) == mi
            &&& shown[16] == ':'
            &&& shown.subrange(17, 19) == s
        }),
        ({
            let named = y + mo + d + "-"@ + h + mi + s;
            &&& named.len() == 15
            &&& named.subrange(0, 4) == y
            &&& named.subrange(4, 6) == mo
            &&& named.subrange(6, 8) == d
            &&& named[8] == '-'
            &&& named.subrange(9, 11) == h
            &&& named.subrange(11, 13) == mi
            &&& named.subrange(13, 15) == s
        }),
{
    reveal_strlit("-");
    reveal_strlit(" ");
    reveal_strlit(":");
}

/// On its line a message keeps its length and every character, but for line ends, which become
/// blanks.
pub proof fn law_a_message_keeps_its_characters(message: Seq<char>, i: int)
    requires
        0 <= i < message.len(),
    ensures
        on_one_line(message).len() == message.len(),
        message[i] != '\n' && message[i] != '\r' ==> on_one_line(message)[i] == message[i],
        message[i] == '\n' || message[i] == '\r' ==> on_one_line(message)[i] == ' ',
{
}

/// A line is the moment in brackets, a blank and the message.
pub proof fn law_the_layout_of_a_line(now: LocalTime, message: Seq<char>)
    ensures
        ({
            let line = line_of(now, message);
            let n = stamp(now).len() as int;
            &&& line.len() == n + 3 + message.len()
            &&& line[0] == '['
            &&& line.subrange(1, n + 1) == stamp(now)
            &&& line[n + 1] == ']'
            &&& line[n + 2] == ' '
            &&& line.skip(n + 3) == on_one_line(message)
        }),
{
    reveal_strlit("[");
    reveal_strlit("] ");
    let line = line_of(now, message);
    let n = stamp(now).len() as int;
    assert(line.subrange(1, n + 1) =~= stamp(now));
    assert(line.skip(n + 3) =~= on_one_line(message));
}

/// The last parts are those at the end, in order, as many as asked for or as there are.
pub proof fn law_the_last_parts_are_kept(parts: Seq<Seq<char>>, n: nat, i: int)
    ensures
        last_parts(parts, n).len() == (if parts.len() < n {
            parts.len()
        } else {
            n
        }),
        0 <= i < last_parts(parts, n).len() ==> last_parts(parts, n)[i] == parts[parts.len()
            - last_parts(parts, n).len() + i],
        MAX_BYTES == 256 * 1024,
{
}

} // verus!
