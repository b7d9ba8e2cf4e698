//! Log records: which levels a filter lets through, and the text of a log line
//! (`[INFO] (target -> file:line) - message`, with the tag colored when the
//! terminal allows it).

use colored::Colorize;
use vstd::prelude::*;

verus! {

broadcast use vstd::string::group_string_axioms;

/// The severity of a log record, from the most to the least severe.
#[derive(Clone, Copy, Debug, PartialEq, Eq, Structural)]
pub enum Level {
    Error,
    Warn,
    Info,
    Debug,
    Trace,
}

/// The most verbose level a logger lets through, or `Off`.
#[derive(Clone, Copy, Debug, PartialEq, Eq, Structural)]
pub enum LevelFilter {
    Off,
    Error,
    Warn,
    Info,
    Debug,
    Trace,
}

/// The verbosity of a level: `Error` is 1, `Trace` is 5.
pub open spec fn level_rank(level: Level) -> int {
    match level {
        Level::Error => 1,
        Level::Warn => 2,
        Level::Info => 3,
        Level::Debug => 4,
        Level::Trace => 5,
    }
}

/// The verbosity a filter allows: `Off` is 0, `Trace` is 5.
pub open spec fn filter_rank(filter: LevelFilter) -> int {
    match filter {
        LevelFilter::Off => 0,
        LevelFilter::Error => 1,
        LevelFilter::Warn => 2,
        LevelFilter::Info => 3,
        LevelFilter::Debug => 4,
        LevelFilter::Trace => 5,
    }
}

/// Whether a record of `level` passes `filter`: its level is at most as
/// verbose as the filter allows.
pub fn level_allowed(level: Level, filter: LevelFilter) -> (allowed: bool)
    ensures
        allowed == (level_rank(level) <= filter_rank(filter)),
{
    match filter {
        LevelFilter::Off => false,
        LevelFilter::Error => matches!(level, Level::Error),
        LevelFilter::Warn => matches!(level, Level::Error | Level::Warn),
        LevelFilter::Info => matches!(level, Level::Error | Level::Warn | Level::Info),
        LevelFilter::Debug => !matches!(level, Level::Trace),
        LevelFilter::Trace => true,
    }
}

/// A filter lets through every level that a stricter filter lets through.
pub proof fn lemma_filter_monotone(level: Level, strict: LevelFilter, loose: LevelFilter)
    requires
        filter_rank(strict) <= filter_rank(loose),
        level_rank(level) <= filter_rank(strict),
    ensures
        level_rank(level) <= filter_rank(loose),
{
}

/// The tag that opens a log line of `level`.
pub open spec fn tag_text(level: Level) -> Seq<char> {
    match level {
        Level::Error => "[ERRO]"@,
        Level::Warn => "[WARN]"@,
        Level::Info => "[INFO]"@,
        Level::Debug => "[DBUG]"@,
        Level::Trace => "[TRCE]"@,
    }
}

/// The ANSI foreground color code of the tag of `level`: red, yellow,
/// green, blue and purple.
pub open spec fn tag_color_code(level: Level) -> Seq<char> {
    match level {
        Level::Error => "31"@,
        Level::Warn => "33"@,
        Level::Info => "32"@,
        Level::Debug => "34"@,
        Level::Trace => "35"@,
    }
}

/// `text` between the ANSI sequence that sets foreground color `code` and
/// the one that resets all attributes.
pub open spec fn ansi_painted(code: Seq<char>, text: Seq<char>) -> Seq<char> {
    "\x1B["@ + code + "m"@ + text + "\x1B[0m"@
}

/// `text` holds no escape character.
pub open spec fn escape_free(text: Seq<char>) -> bool {
    !text.contains('\x1B')
}

/// The decimal digit `d` (for `d` below 10).
pub open spec fn digit_char(d: nat) -> char {
    if d == 0 { '0' }
    else if d == 1 { '1' }
    else if d == 2 { '2' }
    else if d == 3 { '3' }
    else if d == 4 { '4' }
    else if d == 5 { '5' }
    else if d == 6 { '6' }
    else if d == 7 { '7' }
    else if d == 8 { '8' }
    else { '9' }
}

/// The decimal notation of `n`, without leading zeros.
pub open spec fn decimal(n: nat) -> Seq<char>
    decreases n,
{
    if n < 10 {
        seq![digit_char(n)]
    } else {
        decimal(n / 10).push(digit_char(n % 10))
    }
}

/// `c` is one of the ASCII digits `0` to `9`.
pub open spec fn is_ascii_digit(c: char) -> bool {
    '0' <= c && c <= '9'
}

/// The number that the digit string `s` denotes, read in base ten: each
/// digit is worth its distance from `0`.
pub open spec fn base_ten_value(s: Seq<char>) -> int
    decreases s.len(),
{
    if s.len() == 0 {
        0
    } else {
        base_ten_value(s.drop_last()) * 10 + ((s.last() as u32) - ('0' as u32))
    }
}

/// The digit for `d` is the character `d` places after `0`.
pub proof fn lemma_digit_char(d: nat)
    requires
        d < 10,
    ensures
        digit_char(d) as u32 == ('0' as u32) + d,
        is_ascii_digit(digit_char(d)),
{
}

/// `decimal(n)` is the base-ten notation of `n`: a non-empty string of
/// ASCII digits, without a leading zero unless `n` is zero, that reads back
/// as `n`.
pub proof fn lemma_decimal_reads_back(n: nat)
    ensures
        decimal(n).len() > 0,
        forall|i: int| 0 <= i < decimal(n).len() ==> #[trigger] is_ascii_digit(decimal(n)[i]),
        base_ten_value(decimal(n)) == n,
        n > 0 ==> decimal(n)[0] != '0',
    decreases n,
{
    if n < 10 {
        lemma_digit_char(n);
        let s = decimal(n);
        assert(s.drop_last().len() == 0);
        assert(base_ten_value(s.drop_last()) == 0);
    } else {
        let q = n / 10;
        let r = n % 10;
        lemma_decimal_reads_back(q);
        lemma_digit_char(r);
        let s = decimal(n);
        assert(s == decimal(q).push(digit_char(r)));
        assert(s.drop_last() =~= decimal(q));
        assert(n == q * 10 + r) by (nonlinear_arith)
            requires
                q == n / 10,
                r == n % 10,
        ;
        assert(forall|i: int| 0 <= i < decimal(q).len() ==> s[i] == decimal(q)[i]);
        assert(q > 0);
    }
}

/// The text of a log line with the given tag.
pub open spec fn log_line(
    tag: Seq<char>,
    target: Seq<char>,
    file: Seq<char>,
    line: u32,
    message: Seq<char>,
) -> Seq<char> {
    tag + " ("@ + target + " -> "@ + file + ":"@ + decimal(line as nat) + ") - "@ + message
}

/// `colored::Colorize::red` on `text`, displayed. The crate writes the text
/// plain when coloring is off (as `CLICOLOR`, `CLICOLOR_FORCE`, `NO_COLOR`,
/// whether standard output is a terminal, or a manual override decide), and
/// otherwise between the sequence for code 31 and the reset sequence; which
/// of the two comes back is not stated.
#[verifier::external_body]
fn paint_red(text: &str) -> (painted: String)
    requires
        escape_free(text@),
    ensures
        painted@ == text@ || painted@ == ansi_painted("31"@, text@),
{
    text.red().to_string()
}

/// `colored::Colorize::yellow` on `text`, displayed: the text plain, or
/// between the sequence for code 33 and the reset sequence, as the
/// environment decides.
#[verifier::external_body]
fn paint_yellow(text: &str) -> (painted: String)
    requires
        escape_free(text@),
    ensures
        painted@ == text@ || painted@ == ansi_painted("33"@, text@),
{
    text.yellow().to_string()
}

/// `colored::Colorize::green` on `text`, displayed: the text plain, or
/// between the sequence for code 32 and the reset sequence, as the
/// environment decides.
#[verifier::external_body]
fn paint_green(text: &str) -> (painted: String)
    requires
        escape_free(text@),
    ensures
        painted@ == text@ || painted@ == ansi_painted("32"@, text@),
{
    text.green().to_string()
}

/// `colored::Colorize::blue` on `text`, displayed: the text plain, or
/// between the sequence for code 34 and the reset sequence, as the
/// environment decides.
#[verifier::external_body]
fn paint_blue(text: &str) -> (painted: String)
    requires
        escape_free(text@),
    ensures
        painted@ == text@ || painted@ == ansi_painted("34"@, text@),
{
    text.blue().to_string()
}

/// `colored::Colorize::purple` on `text`, displayed: the text plain, or
/// between the sequence for code 35 (magenta) and the reset sequence, as the
/// environment decides.
#[verifier::external_body]
fn paint_purple(text: &str) -> (painted: String)
    requires
        escape_free(text@),
    ensures
        painted@ == text@ || painted@ == ansi_painted("35"@, text@),
{
    text.purple().to_string()
}

/// The tag of `level`, colored if the environment allows it.
pub fn painted_tag(level: Level) -> (tag: String)
    ensures
        tag@ == tag_text(level) || tag@ == ansi_painted(tag_color_code(level), tag_text(level)),
{
    proof {
        reveal_strlit("[ERRO]");
        reveal_strlit("[WARN]");
        reveal_strlit("[INFO]");
        reveal_strlit("[DBUG]");
        reveal_strlit("[TRCE]");
        reveal_strlit("31");
        reveal_strlit("32");
        reveal_strlit("33");
        reveal_strlit("34");
        reveal_strlit("35");
    }
    match level {
        Level::Error => {
            let t = "[ERRO]";
            assert(escape_free(t@)) by { assert(t@ =~= seq!['[', 'E', 'R', 'R', 'O', ']']); }
            paint_red(t)
        },
        Level::Warn => {
            let t = "[WARN]";
            assert(escape_free(t@)) by { assert(t@ =~= seq!['[', 'W', 'A', 'R', 'N', ']']); }
            paint_yellow(t)
        },
        Level::Info => {
            let t = "[INFO]";
            assert(escape_free(t@)) by { assert(t@ =~= seq!['[', 'I', 'N', 'F', 'O', ']']); }
            paint_green(t)
        },
        Level::Debug => {
            let t = "[DBUG]";
            assert(escape_free(t@)) by { assert(t@ =~= seq!['[', 'D', 'B', 'U', 'G', ']']); }
            paint_blue(t)
        },
        Level::Trace => {
            let t = "[TRCE]";
            assert(escape_free(t@)) by { assert(t@ =~= seq!['[', 'T', 'R', 'C', 'E', ']']); }
            paint_purple(t)
        },
    }
}

/// The decimal digit `d` as a one-character string.
fn digit_str(d: u32) -> (s: &'static str)
    requires
        d < 10,
    ensures
        s@ == seq![digit_char(d as nat)],
{
    proof {
        reveal_strlit("0");
        reveal_strlit("1");
        reveal_strlit("2");
        reveal_strlit("3");
        reveal_strlit("4");
        reveal_strlit("5");
        reveal_strlit("6");
        reveal_strlit("7");
        reveal_strlit("8");
        reveal_strlit("9");
    }
    let s = if d == 0 { "0" }
        else if d == 1 { "1" }
        else if d == 2 { "2" }
        else if d == 3 { "3" }
        else if d == 4 { "4" }
        else if d == 5 { "5" }
        else if d == 6 { "6" }
        else if d == 7 { "7" }
        else if d == 8 { "8" }
        else { "9" };
    assert(s@ =~= seq![digit_char(d as nat)]);
    s
}

/// Appends the decimal notation of `n` to `out`.
fn push_decimal(out: &mut String, n: u32)
    ensures
        final(out)@ == old(out)@ + decimal(n as nat),
    decreases n,
{
    if n >= 10 {
        push_decimal(out, n / 10);
    }
    let d = digit_str(n % 10);
    out.append(d);
    assert(final(out)@ =~= old(out)@ + decimal(n as nat)) by {
        if n >= 10 {
            assert(decimal(n as nat) == decimal((n / 10) as nat).push(digit_char((n % 10) as nat)));
        }
    }
}

/// The text of a log line with the given (already colored) tag:
/// `tag (target -> file:line) - message`.
pub fn compose_log_line(tag: &str, target: &str, file: &str, line: u32, message: &str) -> (text: String)
    ensures
        text@ == log_line(tag@, target@, file@, line, message@),
{
    let mut text = String::from_str(tag);
    text.append(" (");
    text.append(target);
    text.append(" -> ");
    text.append(file);
    text.append(":");
    push_decimal(&mut text, line);
    text.append(") - ");
    text.append(message);
    assert(text@ =~= log_line(tag@, target@, file@, line, message@));
    text
}

/// The log line for a record of `level`: its tag (colored if the environment
/// allows it), the target, the source location and the message.
pub fn logfmt(level: Level, target: &str, file: &str, line: u32, message: &str) -> (text: String)
    ensures
        text@ == log_line(tag_text(level), target@, file@, line, message@) || text@ == log_line(
            ansi_painted(tag_color_code(level), tag_text(level)),
            target@,
            file@,
            line,
            message@,
        ),
{
    let tag = painted_tag(level);
    compose_log_line(tag.as_str(), target, file, line, message)
}

/// The line that a logger with `filter` prints for a record, or `None` when
/// the filter drops it. A record without a file is attributed to `unknown`,
/// one without a line number to line 0.
pub fn record_line(
    level: Level,
    filter: LevelFilter,
    target: &str,
    file: Option<&str>,
    line: Option<u32>,
    message: &str,
) -> (text: Option<String>)
    ensures
        text is None <==> !(level_rank(level) <= filter_rank(filter)),
        text matches Some(t) ==> {
            let f = match file {
                Some(f) => f@,
                None => "unknown"@,
            };
            let l = match line {
                Some(l) => l,
                None => 0u32,
            };
            ||| t@ == log_line(tag_text(level), target@, f, l, message@)
            ||| t@ == log_line(ansi_painted(tag_color_code(level), tag_text(level)), target@, f, l, message@)
        },
{
    if !level_allowed(level, filter) {
        return None;
    }
    let file = match file {
        Some(f) => f,
        None => "unknown",
    };
    let line = match line {
        Some(l) => l,
        None => 0,
    };
    Some(logfmt(level, target, file, line, message))
}

} // verus!
