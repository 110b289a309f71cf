//! The queue of player-to-player mail waiting for the next maintenance run.
//!
//! The queue file holds one message per line: sender empire, recipient
//! empire, year and body, separated by tabs. Backslashes, newlines and tabs
//! in the body are written as `\\`, `\n` and `\t`.
use crate::support::{char_is_whitespace, is_unicode_whitespace};
use crate::text::{chars_of, decimal, push_char, push_decimal};
use vstd::prelude::*;

verus! {

/// Name of the queue file inside a game directory.
pub const QUEUE_FILE_NAME: &'static str = "RUSTMAIL.QUE";

/// One queued message.
#[derive(Debug, Clone, PartialEq, Eq)]
pub struct QueuedPlayerMail {
    pub sender_empire_id: u8,
    pub recipient_empire_id: u8,
    pub year: u16,
    pub body: String,
}

impl View for QueuedPlayerMail {
    type V = (u8, u8, u16, Seq<char>);

    open spec fn view(&self) -> (u8, u8, u16, Seq<char>) {
        (self.sender_empire_id, self.recipient_empire_id, self.year, self.body@)
    }
}

// ---------------------------------------------------------------------------
// Escaping the body
// ---------------------------------------------------------------------------

/// How one body character is written in the queue file.
pub open spec fn escape_char(c: char) -> Seq<char> {
    if c == '\\' {
        seq!['\\', '\\']
    } else if c == '\n' {
        seq!['\\', 'n']
    } else if c == '\t' {
        seq!['\\', 't']
    } else {
        seq![c]
    }
}

/// A body as written in the queue file.
pub open spec fn escape_text(s: Seq<char>) -> Seq<char>
    decreases s.len(),
{
    if s.len() == 0 {
        Seq::empty()
    } else {
        escape_char(s[0]) + escape_text(s.drop_first())
    }
}

/// What an escape sequence `\` `c` stands for: `\n`, `\t` and `\\` their
/// character, any other pair itself.
pub open spec fn unescape_pair(c: char) -> Seq<char> {
    if c == 'n' {
        seq!['\n']
    } else if c == 't' {
        seq!['\t']
    } else if c == '\\' {
        seq!['\\']
    } else {
        seq!['\\', c]
    }
}

/// A body read back from the queue file; a lone trailing `\` stays.
pub open spec fn unescape_text(s: Seq<char>) -> Seq<char>
    decreases s.len(),
{
    if s.len() == 0 {
        Seq::empty()
    } else if s[0] != '\\' {
        seq![s[0]] + unescape_text(s.drop_first())
    } else if s.len() == 1 {
        seq!['\\']
    } else {
        unescape_pair(s[1]) + unescape_text(s.subrange(2, s.len() as int))
    }
}

fn push_escaped(out: &mut String, c: char)
    ensures
        final(out)@ == old(out)@ + escape_char(c),
{
    if c == '\\' {
        push_char(out, '\\');
        push_char(out, '\\');
    } else if c == '\n' {
        push_char(out, '\\');
        push_char(out, 'n');
    } else if c == '\t' {
        push_char(out, '\\');
        push_char(out, 't');
    } else {
        push_char(out, c);
    }
    assert(final(out)@ =~= old(out)@ + escape_char(c));
}

/// Writes a body for the queue file: `\` as `\\`, newline as `\n`, tab as `\t`.
pub fn escape_field(value: &str) -> (r: String)
    ensures
        r@ == escape_text(value@),
{
    let cs = chars_of(value);
    let n = cs.len();
    let mut out = String::new();
    let mut i: usize = 0;
    assert(cs@.subrange(0, n as int) =~= cs@);
    assert(out@ + escape_text(cs@) =~= escape_text(cs@));
    while i < n
        invariant
            i <= n,
            n == cs@.len(),
            out@ + escape_text(cs@.subrange(i as int, n as int)) == escape_text(cs@),
        decreases n - i,
    {
        let ghost rest = cs@.subrange(i as int, n as int);
        assert(rest.drop_first() =~= cs@.subrange(i + 1, n as int));
        push_escaped(&mut out, cs[i]);
        assert(out@ + escape_text(cs@.subrange(i + 1, n as int)) =~= escape_text(cs@));
        i = i + 1;
    }
    assert(cs@.subrange(n as int, n as int) =~= Seq::<char>::empty());
    assert(out@ =~= escape_text(value@));
    out
}

/// Reads `cs[from..to]` back from the queue file's escaped form.
fn unescape_chars(cs: &Vec<char>, from: usize, to: usize) -> (r: String)
    requires
        from <= to <= cs@.len(),
    ensures
        r@ == unescape_text(cs@.subrange(from as int, to as int)),
{
    let mut out = String::new();
    let mut i: usize = from;
    assert(out@ + unescape_text(cs@.subrange(from as int, to as int)) =~= unescape_text(
        cs@.subrange(from as int, to as int),
    ));
    while i < to
        invariant
            from <= i <= to <= cs@.len(),
            out@ + unescape_text(cs@.subrange(i as int, to as int)) == unescape_text(
                cs@.subrange(from as int, to as int),
            ),
        decreases to - i,
    {
        let ghost rest = cs@.subrange(i as int, to as int);
        let ch = cs[i];
        if ch != '\\' {
            assert(rest.drop_first() =~= cs@.subrange(i + 1, to as int));
            push_char(&mut out, ch);
            i = i + 1;
        } else if i + 1 == to {
            push_char(&mut out, '\\');
            i = i + 1;
            assert(cs@.subrange(i as int, to as int) =~= Seq::<char>::empty());
        } else {
            assert(rest.subrange(2, rest.len() as int) =~= cs@.subrange(i + 2, to as int));
            let next = cs[i + 1];
            if next == 'n' {
                push_char(&mut out, '\n');
            } else if next == 't' {
                push_char(&mut out, '\t');
            } else if next == '\\' {
                push_char(&mut out, '\\');
            } else {
                push_char(&mut out, '\\');
                push_char(&mut out, next);
            }
            i = i + 2;
        }
        assert(out@ + unescape_text(cs@.subrange(i as int, to as int)) =~= unescape_text(
            cs@.subrange(from as int, to as int),
        ));
    }
    assert(cs@.subrange(to as int, to as int) =~= Seq::<char>::empty());
    assert(out@ =~= unescape_text(cs@.subrange(from as int, to as int)));
    out
}

/// Reads a body back from the queue file: `\n`, `\t` and `\\` become their
/// characters; any other backslash is kept as written.
pub fn unescape_field(value: &str) -> (r: String)
    ensures
        r@ == unescape_text(value@),
{
    let cs = chars_of(value);
    assert(cs@.subrange(0, cs@.len() as int) =~= cs@);
    unescape_chars(&cs, 0, cs.len())
}

/// Unescaping `escape_char(c)` followed by more text gives back `c` first.
proof fn lemma_unescape_escaped_char(c: char, rest: Seq<char>)
    ensures
        unescape_text(escape_char(c) + rest) == seq![c] + unescape_text(rest),
{
    let s = escape_char(c) + rest;
    if c == '\\' || c == '\n' || c == '\t' {
        assert(s.subrange(2, s.len() as int) =~= rest);
    } else {
        assert(s.drop_first() =~= rest);
    }
}

/// Reading back an escaped body gives the body: unescaping undoes escaping.
pub proof fn lemma_unescape_escape(s: Seq<char>)
    ensures
        unescape_text(escape_text(s)) == s,
    decreases s.len(),
{
    if s.len() > 0 {
        lemma_unescape_escape(s.drop_first());
        lemma_unescape_escaped_char(s[0], escape_text(s.drop_first()));
        assert(seq![s[0]] + s.drop_first() =~= s);
    }
}

// ---------------------------------------------------------------------------
// Lines of the queue file
// ---------------------------------------------------------------------------

/// Why the queue file could not be read: a number field is empty, holds a
/// character other than a decimal digit, or is too large for its type.
#[derive(Debug, Clone, Copy, PartialEq, Eq, Structural)]
pub enum MailQueueError {
    Empty,
    InvalidDigit,
    PosOverflow,
}

/// Number of characters before the first `sep` (all of `s` when it has none).
pub open spec fn run_len(s: Seq<char>, sep: char) -> nat
    decreases s.len(),
{
    if s.len() == 0 || s[0] == sep {
        0
    } else {
        1 + run_len(s.drop_first(), sep)
    }
}

/// `run_len` stops at the first `sep`, or at the end.
pub proof fn lemma_run_len(s: Seq<char>, sep: char)
    ensures
        run_len(s, sep) <= s.len(),
        forall|i: int| 0 <= i < run_len(s, sep) ==> s[i] != sep,
        run_len(s, sep) < s.len() ==> s[run_len(s, sep) as int] == sep,
    decreases s.len(),
{
    if s.len() > 0 && s[0] != sep {
        lemma_run_len(s.drop_first(), sep);
        assert forall|i: int| 0 <= i < run_len(s, sep) implies s[i] != sep by {
            if i > 0 {
                assert(s[i] == s.drop_first()[i - 1]);
            }
        }
    }
}

/// A run of `k` characters other than `sep`, ended by `sep` or by the end
/// of `s`, has length `run_len(s, sep)`.
pub proof fn lemma_run_len_is(s: Seq<char>, sep: char, k: nat)
    requires
        k <= s.len(),
        forall|i: int| 0 <= i < k ==> s[i] != sep,
        k < s.len() ==> s[k as int] == sep,
    ensures
        run_len(s, sep) == k,
    decreases k,
{
    if k > 0 {
        assert forall|i: int| 0 <= i < k - 1 implies s.drop_first()[i] != sep by {
            assert(s.drop_first()[i] == s[i + 1]);
        }
        lemma_run_len_is(s.drop_first(), sep, (k - 1) as nat);
    }
}

/// A line without its trailing carriage return, if it has one.
pub open spec fn strip_cr(line: Seq<char>) -> Seq<char> {
    if line.len() > 0 && line.last() == '\r' {
        line.drop_last()
    } else {
        line
    }
}

/// The lines of a text, as `str::lines` gives them: split at each `\n`,
/// a `\r` before the `\n` dropped, and no empty last line after a final
/// `\n`.
pub open spec fn text_lines(s: Seq<char>) -> Seq<Seq<char>>
    decreases s.len(),
{
    if s.len() == 0 {
        Seq::empty()
    } else {
        let k = run_len(s, '\n');
        if k >= s.len() {
            seq![s]
        } else {
            seq![strip_cr(s.take(k as int))] + text_lines(s.skip(k as int + 1))
        }
    }
}

/// A line that `str::trim` leaves empty.
pub open spec fn is_blank(line: Seq<char>) -> bool {
    forall|i: int| 0 <= i < line.len() ==> is_unicode_whitespace(#[trigger] line[i])
}

/// A decimal digit.
pub open spec fn is_digit(c: char) -> bool {
    '0' <= c <= '9'
}

/// Reads the decimal digits `d` after the value `acc` read so far, as
/// `str::parse` does for an unsigned type whose largest value is `max`: a
/// non-digit is `InvalidDigit`, a value past `max` is `PosOverflow`,
/// whichever comes first from the left.
pub open spec fn scan_digits(d: Seq<char>, acc: int, max: int) -> Result<int, MailQueueError>
    decreases d.len(),
{
    if d.len() == 0 {
        Ok(acc)
    } else if !is_digit(d[0]) {
        Err(MailQueueError::InvalidDigit)
    } else if acc * 10 + (d[0] as int - '0' as int) > max {
        Err(MailQueueError::PosOverflow)
    } else {
        scan_digits(d.drop_first(), acc * 10 + (d[0] as int - '0' as int), max)
    }
}

/// `str::parse` for an unsigned type whose largest value is `max`: an
/// optional leading `+`, then decimal digits.
pub open spec fn parse_number(s: Seq<char>, max: int) -> Result<int, MailQueueError> {
    if s.len() == 0 {
        Err(MailQueueError::Empty)
    } else if s.len() == 1 && (s[0] == '+' || s[0] == '-') {
        Err(MailQueueError::InvalidDigit)
    } else if s[0] == '+' {
        scan_digits(s.drop_first(), 0, max)
    } else {
        scan_digits(s, 0, max)
    }
}

/// One line of the queue file: `None` for a blank line or one with fewer
/// than four tab-separated fields, else the message or the first number
/// field that could not be read. The body is everything after the third
/// tab.
pub open spec fn parse_mail_line(line: Seq<char>) -> Option<
    Result<(u8, u8, u16, Seq<char>), MailQueueError>,
> {
    let a = run_len(line, '\t');
    let r1 = line.skip(a as int + 1);
    let b = run_len(r1, '\t');
    let r2 = r1.skip(b as int + 1);
    let c = run_len(r2, '\t');
    if is_blank(line) || a >= line.len() || b >= r1.len() || c >= r2.len() {
        None
    } else {
        match parse_number(line.take(a as int), 255) {
            Err(e) => Some(Err(e)),
            Ok(sender) => match parse_number(r1.take(b as int), 255) {
                Err(e) => Some(Err(e)),
                Ok(recipient) => match parse_number(r2.take(c as int), 65535) {
                    Err(e) => Some(Err(e)),
                    Ok(year) => Some(
                        Ok((sender as u8, recipient as u8, year as u16, unescape_text(r2.skip(c as int + 1)))),
                    ),
                },
            },
        }
    }
}

/// The messages of a run of lines, or the first error among them.
pub open spec fn parse_mail_lines(ls: Seq<Seq<char>>) -> Result<
    Seq<(u8, u8, u16, Seq<char>)>,
    MailQueueError,
>
    decreases ls.len(),
{
    if ls.len() == 0 {
        Ok(Seq::empty())
    } else {
        match parse_mail_line(ls[0]) {
            None => parse_mail_lines(ls.drop_first()),
            Some(Err(e)) => Err(e),
            Some(Ok(m)) => match parse_mail_lines(ls.drop_first()) {
                Ok(ms) => Ok(seq![m] + ms),
                Err(e) => Err(e),
            },
        }
    }
}

/// The messages of a whole queue file, or the first error in it.
pub open spec fn parse_mail_text(s: Seq<char>) -> Result<
    Seq<(u8, u8, u16, Seq<char>)>,
    MailQueueError,
> {
    parse_mail_lines(text_lines(s))
}

/// `done` followed by what `rest` gives, or the error `rest` ends in.
pub open spec fn after_messages(
    done: Seq<(u8, u8, u16, Seq<char>)>,
    rest: Result<Seq<(u8, u8, u16, Seq<char>)>, MailQueueError>,
) -> Result<Seq<(u8, u8, u16, Seq<char>)>, MailQueueError> {
    match rest {
        Ok(ms) => Ok(done + ms),
        Err(e) => Err(e),
    }
}

/// The line of the queue file for one message, newline included.
pub open spec fn mail_line(m: (u8, u8, u16, Seq<char>)) -> Seq<char> {
    decimal(m.0 as nat) + seq!['\t'] + decimal(m.1 as nat) + seq!['\t'] + decimal(m.2 as nat)
        + seq!['\t'] + escape_text(m.3) + seq!['\n']
}

/// The queue file's line for `mail`: sender, recipient, year and escaped
/// body, separated by tabs, with a final newline.
pub fn format_mail_line(mail: &QueuedPlayerMail) -> (r: String)
    ensures
        r@ == mail_line(mail@),
{
    let mut out = String::new();
    push_decimal(&mut out, mail.sender_empire_id as u32);
    push_char(&mut out, '\t');
    push_decimal(&mut out, mail.recipient_empire_id as u32);
    push_char(&mut out, '\t');
    push_decimal(&mut out, mail.year as u32);
    push_char(&mut out, '\t');
    let body = escape_field(mail.body.as_str());
    crate::text::push_str(&mut out, body.as_str());
    push_char(&mut out, '\n');
    assert(out@ =~= mail_line(mail@));
    out
}

/// The views of a run of messages.
pub open spec fn mail_views(v: Seq<QueuedPlayerMail>) -> Seq<(u8, u8, u16, Seq<char>)> {
    v.map_values(|m: QueuedPlayerMail| m@)
}

/// First index at or after `from` that holds `sep`, or `to` when there is
/// none before it.
fn find_sep(cs: &Vec<char>, from: usize, to: usize, sep: char) -> (j: usize)
    requires
        from <= to <= cs@.len(),
    ensures
        from <= j <= to,
        j - from == run_len(cs@.subrange(from as int, to as int), sep),
{
    let mut j: usize = from;
    while j < to && cs[j] != sep
        invariant
            from <= j <= to <= cs@.len(),
            forall|i: int| from <= i < j ==> cs@[i] != sep,
        decreases to - j,
    {
        j = j + 1;
    }
    proof {
        let line = cs@.subrange(from as int, to as int);
        assert forall|i: int| 0 <= i < j - from implies line[i] != sep by {
            assert(line[i] == cs@[from + i]);
        }
        lemma_run_len_is(line, sep, (j - from) as nat);
    }
    j
}

/// Reads the number field `cs[from..to]` as `str::parse` does for an
/// unsigned type whose largest value is `max`.
fn parse_number_at(cs: &Vec<char>, from: usize, to: usize, max: u32) -> (r: Result<
    u32,
    MailQueueError,
>)
    requires
        from <= to <= cs@.len(),
        max <= 65535,
    ensures
        match parse_number(cs@.subrange(from as int, to as int), max as int) {
            Ok(v) => r == Ok::<u32, MailQueueError>(v as u32) && 0 <= v <= max,
            Err(e) => r == Err::<u32, MailQueueError>(e),
        },
{
    let ghost s = cs@.subrange(from as int, to as int);
    if from == to {
        return Err(MailQueueError::Empty);
    }
    let first = cs[from];
    if to - from == 1 && (first == '+' || first == '-') {
        return Err(MailQueueError::InvalidDigit);
    }
    let mut i: usize = if first == '+' {
        from + 1
    } else {
        from
    };
    assert(s.drop_first() =~= cs@.subrange(from + 1, to as int));
    let mut acc: u32 = 0;
    while i < to
        invariant
            from <= i <= to <= cs@.len(),
            acc <= max <= 65535,
            s == cs@.subrange(from as int, to as int),
            scan_digits(cs@.subrange(i as int, to as int), acc as int, max as int) == parse_number(
                s,
                max as int,
            ),
        decreases to - i,
    {
        let c = cs[i];
        assert(cs@.subrange(i as int, to as int)[0] == c);
        if !('0' <= c && c <= '9') {
            return Err(MailQueueError::InvalidDigit);
        }
        let d = (c as u32) - ('0' as u32);
        if acc * 10 + d > max {
            return Err(MailQueueError::PosOverflow);
        }
        assert(cs@.subrange(i as int, to as int).drop_first() =~= cs@.subrange(i + 1, to as int));
        acc = acc * 10 + d;
        i = i + 1;
    }
    Ok(acc)
}

/// Reads the queue line `cs[from..to]`.
fn parse_line_at(cs: &Vec<char>, from: usize, to: usize) -> (r: Option<
    Result<QueuedPlayerMail, MailQueueError>,
>)
    requires
        from <= to <= cs@.len(),
    ensures
        match parse_mail_line(cs@.subrange(from as int, to as int)) {
            None => r is None,
            Some(Err(e)) => r == Some(Err::<QueuedPlayerMail, MailQueueError>(e)),
            Some(Ok(m)) => r matches Some(Ok(mail)) && mail@ == m,
        },
{
    let ghost line = cs@.subrange(from as int, to as int);
    let mut i: usize = from;
    let mut blank = true;
    while i < to
        invariant
            from <= i <= to <= cs@.len(),
            line == cs@.subrange(from as int, to as int),
            blank ==> forall|k: int| from <= k < i ==> is_unicode_whitespace(#[trigger] cs@[k]),
            !blank ==> !is_blank(line),
        decreases to - i,
    {
        if blank && !char_is_whitespace(cs[i]) {
            assert(line[i - from] == cs@[i as int]);
            blank = false;
        }
        i = i + 1;
    }
    if blank {
        assert forall|k: int| 0 <= k < line.len() implies is_unicode_whitespace(#[trigger] line[k]) by {
            assert(line[k] == cs@[from + k]);
        }
        return None;
    }
    let t1 = find_sep(cs, from, to, '\t');
    if t1 == to {
        return None;
    }
    assert(line.skip(t1 - from + 1) =~= cs@.subrange(t1 + 1, to as int));
    let t2 = find_sep(cs, t1 + 1, to, '\t');
    if t2 == to {
        return None;
    }
    assert(cs@.subrange(t1 + 1, to as int).skip(t2 - t1) =~= cs@.subrange(t2 + 1, to as int));
    let t3 = find_sep(cs, t2 + 1, to, '\t');
    if t3 == to {
        return None;
    }
    assert(cs@.subrange(t2 + 1, to as int).skip(t3 - t2) =~= cs@.subrange(t3 + 1, to as int));
    assert(line.take(t1 - from) =~= cs@.subrange(from as int, t1 as int));
    assert(cs@.subrange(t1 + 1, to as int).take(t2 - t1 - 1) =~= cs@.subrange(t1 + 1, t2 as int));
    assert(cs@.subrange(t2 + 1, to as int).take(t3 - t2 - 1) =~= cs@.subrange(t2 + 1, t3 as int));
    let sender = match parse_number_at(cs, from, t1, 255) {
        Ok(v) => v,
        Err(e) => return Some(Err(e)),
    };
    let recipient = match parse_number_at(cs, t1 + 1, t2, 255) {
        Ok(v) => v,
        Err(e) => return Some(Err(e)),
    };
    let year = match parse_number_at(cs, t2 + 1, t3, 65535) {
        Ok(v) => v,
        Err(e) => return Some(Err(e)),
    };
    let body = unescape_chars(cs, t3 + 1, to);
    Some(
        Ok(
            QueuedPlayerMail {
                sender_empire_id: sender as u8,
                recipient_empire_id: recipient as u8,
                year: year as u16,
                body,
            },
        ),
    )
}

/// The line starting at `pos`, which ends at `j` (a newline or the end),
/// is read first, and the lines after it from `next` on.
proof fn lemma_next_line(cs: Seq<char>, pos: int, j: int, end: int, next: int)
    requires
        0 <= pos < cs.len(),
        pos <= j <= cs.len(),
        j - pos == run_len(cs.subrange(pos, cs.len() as int), '\n'),
        end == if j < cs.len() && j > pos && cs[j - 1] == '\r' {
            j - 1
        } else {
            j
        },
        next == if j < cs.len() {
            j + 1
        } else {
            cs.len() as int
        },
    ensures
        parse_mail_lines(text_lines(cs.skip(pos))) == match parse_mail_line(
            cs.subrange(pos, end),
        ) {
            None => parse_mail_lines(text_lines(cs.skip(next))),
            Some(Err(e)) => Err(e),
            Some(Ok(m)) => match parse_mail_lines(text_lines(cs.skip(next))) {
                Ok(ms) => Ok(seq![m] + ms),
                Err(e) => Err(e),
            },
        },
{
    let rest = cs.skip(pos);
    let line = cs.subrange(pos, end);
    let tail = text_lines(cs.skip(next));
    assert(cs.subrange(pos, cs.len() as int) =~= rest);
    if j < cs.len() {
        assert(rest.take(j - pos) =~= cs.subrange(pos, j));
        assert(rest.skip(j - pos + 1) =~= cs.skip(next));
        if end < j {
            assert(cs.subrange(pos, j).drop_last() =~= line);
        }
    } else {
        assert(cs.skip(next) =~= Seq::<char>::empty());
        assert(line =~= rest);
        assert(text_lines(Seq::<char>::empty()) =~= Seq::<Seq<char>>::empty());
    }
    assert(text_lines(rest) =~= seq![line] + tail);
    assert((seq![line] + tail).drop_first() =~= tail);
    assert((seq![line] + tail)[0] == line);
}

/// Reads the text of a queue file: one message per line that has at least
/// four tab-separated fields; blank lines and shorter lines are skipped; a
/// number field that does not read as its type stops the reading with the
/// reason.
pub fn parse_mail_queue(text: &str) -> (r: Result<Vec<QueuedPlayerMail>, MailQueueError>)
    ensures
        match parse_mail_text(text@) {
            Ok(ms) => r matches Ok(v) && mail_views(v@) == ms,
            Err(e) => r == Err::<Vec<QueuedPlayerMail>, MailQueueError>(e),
        },
{
    let cs = chars_of(text);
    let n = cs.len();
    let mut out: Vec<QueuedPlayerMail> = Vec::new();
    let mut pos: usize = 0;
    assert(cs@.skip(0) =~= cs@);
    assert(mail_views(out@) =~= Seq::<(u8, u8, u16, Seq<char>)>::empty());
    assert(after_messages(mail_views(out@), parse_mail_text(text@)) =~= parse_mail_text(text@)) by {
        match parse_mail_text(text@) {
            Ok(ms) => {
                assert(mail_views(out@) + ms =~= ms);
            },
            Err(e) => {},
        }
    }
    while pos < n
        invariant
            pos <= n == cs@.len(),
            cs@ == text@,
            after_messages(mail_views(out@), parse_mail_lines(text_lines(cs@.skip(pos as int))))
                == parse_mail_text(text@),
        decreases n - pos,
    {
        let j = find_sep(&cs, pos, n, '\n');
        let end = if j < n && j > pos && cs[j - 1] == '\r' {
            j - 1
        } else {
            j
        };
        let next = if j < n {
            j + 1
        } else {
            n
        };
        let ghost tail = text_lines(cs@.skip(next as int));
        proof {
            lemma_next_line(cs@, pos as int, j as int, end as int, next as int);
        }
        let parsed = parse_line_at(&cs, pos, end);
        match parsed {
            None => {},
            Some(Err(e)) => {
                return Err(e);
            },
            Some(Ok(m)) => {
                let ghost before = mail_views(out@);
                out.push(m);
                proof {
                    assert(mail_views(out@) =~= before.push(m@));
                    match parse_mail_lines(tail) {
                        Ok(ms) => {
                            assert(before + (seq![m@] + ms) =~= before.push(m@) + ms);
                        },
                        Err(e) => {},
                    }
                }
            },
        }
        pos = next;
    }
    assert(cs@.skip(n as int) =~= Seq::<char>::empty());
    assert(mail_views(out@) + Seq::<(u8, u8, u16, Seq<char>)>::empty() =~= mail_views(out@));
    Ok(out)
}

// ---------------------------------------------------------------------------
// What reading gives back of what was written
// ---------------------------------------------------------------------------

proof fn lemma_escape_concat(a: Seq<char>, b: Seq<char>)
    ensures
        escape_text(a + b) == escape_text(a) + escape_text(b),
    decreases a.len(),
{
    if a.len() == 0 {
        assert(a + b =~= b);
        assert(escape_text(a) + escape_text(b) =~= escape_text(b));
    } else {
        lemma_escape_concat(a.drop_first(), b);
        assert((a + b).drop_first() =~= a.drop_first() + b);
        assert((a + b)[0] == a[0]);
        assert(escape_char(a[0]) + (escape_text(a.drop_first()) + escape_text(b)) =~= (escape_char(
            a[0],
        ) + escape_text(a.drop_first())) + escape_text(b));
    }
}

proof fn lemma_escape_plain(s: Seq<char>)
    ensures
        forall|i: int|
            0 <= i < escape_text(s).len() ==> #[trigger] escape_text(s)[i] != '\n' && escape_text(
                s,
            )[i] != '\t',
    decreases s.len(),
{
    if s.len() > 0 {
        lemma_escape_plain(s.drop_first());
        let e = escape_char(s[0]);
        let rest = escape_text(s.drop_first());
        assert forall|i: int| 0 <= i < escape_text(s).len() implies #[trigger] escape_text(s)[i]
            != '\n' && escape_text(s)[i] != '\t' by {
            if i >= e.len() {
                assert(escape_text(s)[i] == rest[i - e.len()]);
            }
        }
    }
}

proof fn lemma_escape_last(s: Seq<char>)
    requires
        s.len() > 0,
        s.last() != '\r',
    ensures
        escape_text(s).len() > 0,
        escape_text(s).last() != '\r',
{
    let init = s.drop_last();
    let c = s.last();
    lemma_escape_concat(init, seq![c]);
    assert(init + seq![c] =~= s);
    assert(seq![c].drop_first() =~= Seq::<char>::empty());
    assert(escape_text(Seq::<char>::empty()) =~= Seq::<char>::empty());
    assert(escape_text(seq![c]) =~= escape_char(c));
}

proof fn lemma_decimal_digits(n: nat)
    ensures
        decimal(n).len() >= 1,
        forall|i: int| 0 <= i < decimal(n).len() ==> is_digit(#[trigger] decimal(n)[i]),
    decreases n,
{
    if n >= 10 {
        lemma_decimal_digits(n / 10);
    }
}

proof fn lemma_scan_concat(a: Seq<char>, b: Seq<char>, acc: int, max: int)
    ensures
        scan_digits(a + b, acc, max) == match scan_digits(a, acc, max) {
            Ok(v) => scan_digits(b, v, max),
            Err(e) => Err(e),
        },
    decreases a.len(),
{
    if a.len() == 0 {
        assert(a + b =~= b);
    } else {
        assert((a + b).drop_first() =~= a.drop_first() + b);
        assert((a + b)[0] == a[0]);
        lemma_scan_concat(a.drop_first(), b, acc * 10 + (a[0] as int - '0' as int), max);
    }
}

proof fn lemma_parse_decimal(n: nat, max: int)
    requires
        n <= max,
    ensures
        parse_number(decimal(n), max) == Ok::<int, MailQueueError>(n as int),
{
    lemma_decimal_digits(n);
    lemma_scan_decimal(n, max);
}

proof fn lemma_scan_decimal(n: nat, max: int)
    requires
        n <= max,
    ensures
        scan_digits(decimal(n), 0, max) == Ok::<int, MailQueueError>(n as int),
    decreases n,
{
    assert(scan_digits(Seq::<char>::empty(), n as int, max) == Ok::<int, MailQueueError>(n as int));
    if n < 10 {
        assert(decimal(n).drop_first() =~= Seq::<char>::empty());
    } else {
        lemma_scan_decimal(n / 10, max);
        let c = crate::text::digit_char(n % 10);
        lemma_scan_concat(decimal(n / 10), seq![c], 0, max);
        assert(decimal(n / 10) + seq![c] =~= decimal(n));
        assert(seq![c].drop_first() =~= Seq::<char>::empty());
        assert((n / 10) * 10 + n % 10 == n);
    }
}

/// Lines of a text that is empty or ends in a newline, followed by more
/// text, are its own lines followed by those of the rest.
proof fn lemma_lines_concat(t: Seq<char>, u: Seq<char>)
    requires
        t.len() == 0 || t.last() == '\n',
    ensures
        text_lines(t + u) == text_lines(t) + text_lines(u),
    decreases t.len(),
{
    if t.len() == 0 {
        assert(t + u =~= u);
        assert(text_lines(t) + text_lines(u) =~= text_lines(u));
    } else {
        let k = run_len(t, '\n');
        lemma_run_len(t, '\n');
        if k >= t.len() {
            assert(t[t.len() - 1] != '\n');
        }
        assert(k < t.len());
        assert forall|i: int| 0 <= i < k implies (t + u)[i] != '\n' by {
            assert((t + u)[i] == t[i]);
        }
        assert((t + u)[k as int] == t[k as int]);
        lemma_run_len_is(t + u, '\n', k);
        let t2 = t.skip(k as int + 1);
        assert((t + u).take(k as int) =~= t.take(k as int));
        assert((t + u).skip(k as int + 1) =~= t2 + u);
        if t2.len() > 0 {
            assert(t2.last() == t.last());
        }
        lemma_lines_concat(t2, u);
        assert(seq![strip_cr(t.take(k as int))] + (text_lines(t2) + text_lines(u)) =~= (seq![
            strip_cr(t.take(k as int)),
        ] + text_lines(t2)) + text_lines(u));
    }
}

/// Reading two runs of lines: the messages of the first, then those of the
/// second, or the first error.
proof fn lemma_parse_lines_concat(ls1: Seq<Seq<char>>, ls2: Seq<Seq<char>>)
    ensures
        parse_mail_lines(ls1 + ls2) == match parse_mail_lines(ls1) {
            Ok(a) => after_messages(a, parse_mail_lines(ls2)),
            Err(e) => Err(e),
        },
    decreases ls1.len(),
{
    if ls1.len() == 0 {
        assert(ls1 + ls2 =~= ls2);
        match parse_mail_lines(ls2) {
            Ok(ms) => {
                assert(Seq::<(u8, u8, u16, Seq<char>)>::empty() + ms =~= ms);
            },
            Err(e) => {},
        }
    } else {
        assert((ls1 + ls2)[0] == ls1[0]);
        assert((ls1 + ls2).drop_first() =~= ls1.drop_first() + ls2);
        lemma_parse_lines_concat(ls1.drop_first(), ls2);
        match parse_mail_line(ls1[0]) {
            Some(Ok(m)) => {
                match parse_mail_lines(ls1.drop_first()) {
                    Ok(a) => {
                        match parse_mail_lines(ls2) {
                            Ok(b) => {
                                assert(seq![m] + (a + b) =~= (seq![m] + a) + b);
                            },
                            Err(e) => {},
                        }
                    },
                    Err(e) => {},
                }
            },
            _ => {},
        }
    }
}

/// The queue line of a message, without its newline.
pub open spec fn mail_line_text(m: (u8, u8, u16, Seq<char>)) -> Seq<char> {
    decimal(m.0 as nat) + seq!['\t'] + decimal(m.1 as nat) + seq!['\t'] + decimal(m.2 as nat)
        + seq!['\t'] + escape_text(m.3)
}

/// A digit run followed by a tab and more text: the run ends at the tab.
proof fn lemma_field(d: Seq<char>, rest: Seq<char>)
    requires
        forall|i: int| 0 <= i < d.len() ==> is_digit(#[trigger] d[i]),
    ensures
        run_len(d + seq!['\t'] + rest, '\t') == d.len(),
        (d + seq!['\t'] + rest).take(d.len() as int) == d,
        (d + seq!['\t'] + rest).skip(d.len() as int + 1) == rest,
{
    let s = d + seq!['\t'] + rest;
    assert forall|i: int| 0 <= i < d.len() implies s[i] != '\t' by {
        assert(s[i] == d[i]);
    }
    assert(s[d.len() as int] == '\t');
    lemma_run_len_is(s, '\t', d.len());
    assert(s.take(d.len() as int) =~= d);
    assert(s.skip(d.len() as int + 1) =~= rest);
}

/// A message's own line reads back as that message.
proof fn lemma_parse_mail_line_text(m: (u8, u8, u16, Seq<char>))
    ensures
        parse_mail_line(mail_line_text(m)) == Some(
            Ok::<(u8, u8, u16, Seq<char>), MailQueueError>(m),
        ),
{
    let d0 = decimal(m.0 as nat);
    let d1 = decimal(m.1 as nat);
    let d2 = decimal(m.2 as nat);
    let e = escape_text(m.3);
    let line = mail_line_text(m);
    let r1 = d1 + seq!['\t'] + d2 + seq!['\t'] + e;
    let r2 = d2 + seq!['\t'] + e;
    lemma_decimal_digits(m.0 as nat);
    lemma_decimal_digits(m.1 as nat);
    lemma_decimal_digits(m.2 as nat);
    assert(line =~= d0 + seq!['\t'] + r1);
    assert(r1 =~= d1 + seq!['\t'] + r2);
    lemma_field(d0, r1);
    lemma_field(d1, r2);
    lemma_field(d2, e);
    assert(is_digit(line[0]));
    assert(!is_blank(line)) by {
        assert(!is_unicode_whitespace(line[0]));
    }
    lemma_parse_decimal(m.0 as nat, 255);
    lemma_parse_decimal(m.1 as nat, 255);
    lemma_parse_decimal(m.2 as nat, 65535);
    lemma_unescape_escape(m.3);
}

/// A message's line, whose body does not end in a carriage return, is one
/// line of text.
proof fn lemma_mail_line_lines(m: (u8, u8, u16, Seq<char>))
    requires
        m.3.len() == 0 || m.3.last() != '\r',
    ensures
        text_lines(mail_line(m)) == seq![mail_line_text(m)],
{
    let l = mail_line_text(m);
    let s = mail_line(m);
    assert(s =~= l + seq!['\n']);
    lemma_decimal_digits(m.0 as nat);
    lemma_decimal_digits(m.1 as nat);
    lemma_decimal_digits(m.2 as nat);
    lemma_escape_plain(m.3);
    let d0 = decimal(m.0 as nat);
    let d1 = decimal(m.1 as nat);
    let d2 = decimal(m.2 as nat);
    let e = escape_text(m.3);
    assert forall|i: int| 0 <= i < l.len() implies s[i] != '\n' by {
        assert(s[i] == l[i]);
        let p0 = d0.len() as int;
        let p1 = p0 + 1 + d1.len();
        let p2 = p1 + 1 + d2.len();
        if i < p0 {
            assert(l[i] == d0[i]);
        } else if i == p0 {
        } else if i < p1 {
            assert(l[i] == d1[i - p0 - 1]);
        } else if i == p1 {
        } else if i < p2 {
            assert(l[i] == d2[i - p1 - 1]);
        } else if i == p2 {
        } else {
            assert(l[i] == e[i - p2 - 1]);
        }
    }
    lemma_run_len_is(s, '\n', l.len());
    assert(s.take(l.len() as int) =~= l);
    assert(s.skip(l.len() as int + 1) =~= Seq::<char>::empty());
    assert(text_lines(Seq::<char>::empty()) =~= Seq::<Seq<char>>::empty());
    if m.3.len() > 0 {
        lemma_escape_last(m.3);
        assert(l.last() == e.last());
    } else {
        assert(l.last() == '\t');
    }
    assert(strip_cr(l) == l);
    assert(seq![l] + Seq::<Seq<char>>::empty() =~= seq![l]);
}

/// Appending a message's line to a queue text that is empty or ends in a
/// newline, and reading it back, gives the messages read before followed by
/// that message (or the same error as before), provided the body does not
/// end in a carriage return, which `str::lines` would drop.
pub proof fn lemma_read_after_append(text: Seq<char>, m: (u8, u8, u16, Seq<char>))
    requires
        text.len() == 0 || text.last() == '\n',
        m.3.len() == 0 || m.3.last() != '\r',
    ensures
        parse_mail_text(text + mail_line(m)) == match parse_mail_text(text) {
            Ok(ms) => Ok(ms.push(m)),
            Err(e) => Err(e),
        },
{
    lemma_lines_concat(text, mail_line(m));
    lemma_mail_line_lines(m);
    lemma_parse_lines_concat(text_lines(text), seq![mail_line_text(m)]);
    lemma_parse_mail_line_text(m);
    assert(seq![mail_line_text(m)].drop_first() =~= Seq::<Seq<char>>::empty());
    assert(parse_mail_lines(Seq::<Seq<char>>::empty()) == Ok::<Seq<(u8, u8, u16, Seq<char>)>, MailQueueError>(Seq::empty()));
    match parse_mail_text(text) {
        Ok(ms) => {
            assert(ms + (seq![m] + Seq::<(u8, u8, u16, Seq<char>)>::empty()) =~= ms.push(m));
        },
        Err(e) => {},
    }
}

/// A queue file written line by line from a list of messages reads back as
/// that list, provided no body ends in a carriage return.
pub open spec fn queue_text(ms: Seq<(u8, u8, u16, Seq<char>)>) -> Seq<char>
    decreases ms.len(),
{
    if ms.len() == 0 {
        Seq::empty()
    } else {
        queue_text(ms.drop_last()) + mail_line(ms.last())
    }
}

/// Writing a list of messages one line each and reading the file back gives
/// the list, provided no body ends in a carriage return.
pub proof fn lemma_read_written_queue(ms: Seq<(u8, u8, u16, Seq<char>)>)
    requires
        forall|i: int| 0 <= i < ms.len() ==> (#[trigger] ms[i]).3.len() == 0 || ms[i].3.last() != '\r',
    ensures
        parse_mail_text(queue_text(ms)) == Ok::<Seq<(u8, u8, u16, Seq<char>)>, MailQueueError>(ms),
    decreases ms.len(),
{
    if ms.len() == 0 {
        assert(text_lines(Seq::<char>::empty()) =~= Seq::<Seq<char>>::empty());
        assert(ms =~= Seq::<(u8, u8, u16, Seq<char>)>::empty());
    } else {
        let init = ms.drop_last();
        assert forall|i: int| 0 <= i < init.len() implies (#[trigger] init[i]).3.len() == 0
            || init[i].3.last() != '\r' by {
            assert(init[i] == ms[i]);
        }
        lemma_read_written_queue(init);
        assert(ms[ms.len() - 1] == ms.last());
        let t = queue_text(init);
        if init.len() > 0 {
            assert(mail_line(init.last()).last() == '\n');
            assert(t.last() == '\n');
        }
        lemma_read_after_append(t, ms.last());
        assert(init.push(ms.last()) =~= ms);
    }
}

} // verus!
