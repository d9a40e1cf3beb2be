//! Turning one raw log line into a classified record.
//!
//! A well-formed line reads `[HH:MM:SS] [<thread>/<LEVEL>]: <message>`.
use vstd::prelude::*;

use crate::text::{
    contains_seq, ends_with, find_first, find_in_window, find_last, find_last_in_window,
    starts_with, to_chars, trim, trim_end, trim_window, window_contains, window_ends_with,
    window_equals, window_starts_with, CharKind,
};

verus! {

/// Severity taken from the bracketed thread/level tag of a line.
#[derive(Debug, PartialEq, Eq, Structural, Hash, Clone, Copy)]
pub enum LogLevel {
    Info,
    Warning,
    Error,
    Other,
}

/// What a message is about, decided from its text.
#[derive(Debug, PartialEq, Eq, Structural, Hash, Clone, Copy)]
pub enum LogClass {
    UserAuth,
    UserJoinedDetails,
    UserJoined,
    UserLeft,
    ServerVersion,
    ServerStart,
    ServerStop,
    ServerOverload,
    Other,
}

/// One parsed line.
#[derive(Debug, Eq, Hash)]
pub struct LogRecord {
    pub time: String,
    pub level: LogLevel,
    pub class: LogClass,
    pub status_message: String,
}

/// The mathematical content of a [`LogRecord`].
pub struct RecordModel {
    pub time: Seq<char>,
    pub level: LogLevel,
    pub class: LogClass,
    pub status_message: Seq<char>,
}

impl View for LogRecord {
    type V = RecordModel;

    open spec fn view(&self) -> RecordModel {
        RecordModel {
            time: self.time@,
            level: self.level,
            class: self.class,
            status_message: self.status_message@,
        }
    }
}

impl PartialEq for LogRecord {
    fn eq(&self, other: &LogRecord) -> (r: bool) {
        self.time == other.time && self.level == other.level && self.class == other.class
            && self.status_message == other.status_message
    }
}

impl vstd::std_specs::cmp::PartialEqSpecImpl for LogRecord {
    open spec fn obeys_eq_spec() -> bool {
        true
    }

    open spec fn eq_spec(&self, other: &LogRecord) -> bool {
        self@ == other@
    }
}

/// The level named after the `/` of a tag: `INFO`, `WARN` and `ERROR`, case-sensitive.
pub open spec fn level_of_name(name: Seq<char>) -> LogLevel {
    if name == "INFO"@ {
        LogLevel::Info
    } else if name == "WARN"@ {
        LogLevel::Warning
    } else if name == "ERROR"@ {
        LogLevel::Error
    } else {
        LogLevel::Other
    }
}

/// The level of a tag `[<thread>/<LEVEL>]`: brackets trimmed, then the text after the first `/`.
pub open spec fn level_of_tag(tag: Seq<char>) -> LogLevel {
    let t = trim(tag, CharKind::SquareBracket);
    match find_first(t, CharKind::Exactly('/')) {
        Some(i) => level_of_name(t.subrange(i + 1, t.len() as int)),
        None => LogLevel::Other,
    }
}

/// The class of a message body: the first rule that matches wins.
pub open spec fn classify(body: Seq<char>) -> LogClass {
    if contains_seq(body, "UUID"@) {
        LogClass::UserAuth
    } else if contains_seq(body, "logged in with entity id"@) {
        LogClass::UserJoinedDetails
    } else if ends_with(body, "joined the game"@) {
        LogClass::UserJoined
    } else if ends_with(body, "left the game"@) {
        LogClass::UserLeft
    } else if starts_with(body, "Starting minecraft server version"@) {
        LogClass::ServerVersion
    } else if starts_with(body, "Can't keep up!"@) {
        LogClass::ServerOverload
    } else if starts_with(body, "Done ("@) {
        LogClass::ServerStart
    } else if starts_with(body, "Stopping server"@) {
        LogClass::ServerStop
    } else {
        LogClass::Other
    }
}

/// The last whitespace-delimited word of `body`, if it has one.
pub open spec fn last_word(body: Seq<char>) -> Option<Seq<char>> {
    let t = trim_end(body, CharKind::WhiteSpace);
    if t.len() == 0 {
        None
    } else {
        match find_last(t, CharKind::WhiteSpace) {
            Some(i) => Some(t.subrange(i + 1, t.len() as int)),
            None => Some(t),
        }
    }
}

/// Status of a server start: the text between the first two round brackets.
pub open spec fn server_start_status(body: Seq<char>) -> Seq<char> {
    match find_first(body, CharKind::RoundBracket) {
        Some(i) => {
            let rest = body.subrange(i + 1, body.len() as int);
            match find_first(rest, CharKind::RoundBracket) {
                Some(j) => "Server started after "@ + rest.subrange(0, j),
                None => body,
            }
        },
        None => body,
    }
}

/// Status of an overloaded server: the text after the first `?`.
pub open spec fn server_overload_status(body: Seq<char>) -> Seq<char> {
    match find_first(body, CharKind::Exactly('?')) {
        Some(i) => "Server running slow."@ + body.subrange(i + 1, body.len() as int),
        None => body,
    }
}

/// The part of a status message that depends on the class.
pub open spec fn class_status(class: LogClass, body: Seq<char>) -> Seq<char> {
    match class {
        LogClass::ServerVersion => "Server starting up using version: "@ + match last_word(body) {
            Some(w) => w,
            None => "Unknown"@,
        },
        LogClass::ServerStart => server_start_status(body),
        LogClass::ServerStop => "Server is shutting down"@,
        LogClass::ServerOverload => server_overload_status(body),
        _ => body,
    }
}

pub open spec fn level_prefix(level: LogLevel) -> Seq<char> {
    match level {
        LogLevel::Warning => "Warning - "@,
        LogLevel::Error => "Error - "@,
        _ => Seq::empty(),
    }
}

/// The human-readable status of a record.
pub open spec fn status_message(
    time: Seq<char>,
    level: LogLevel,
    class: LogClass,
    body: Seq<char>,
) -> Seq<char> {
    time + " - "@ + level_prefix(level) + class_status(class, body)
}

/// The record that a line yields, if any.
pub open spec fn parse_line(line: Seq<char>) -> Option<RecordModel> {
    if line.len() < 10 || line[0] != '[' {
        None
    } else {
        let rest = line.subrange(10, line.len() as int);
        match find_first(rest, CharKind::Exactly(':')) {
            None => None,
            Some(i) => {
                let time = trim(
                    trim(line.subrange(0, 10), CharKind::WhiteSpace),
                    CharKind::SquareBracket,
                );
                let level = level_of_tag(rest.subrange(0, i));
                let body = trim(rest.subrange(i + 1, rest.len() as int), CharKind::WhiteSpace);
                let class = classify(body);
                Some(
                    RecordModel {
                        time,
                        level,
                        class,
                        status_message: status_message(time, level, class, body),
                    },
                )
            },
        }
    }
}

/// A line that does not begin with `[` yields no record.
pub proof fn lemma_unbracketed_line_rejected(line: Seq<char>)
    requires
        line.len() == 0 || line[0] != '[',
    ensures
        parse_line(line) is None,
{
}

/// A line that begins with `[` but has no `:` after its first ten characters yields no record.
pub proof fn lemma_line_without_colon_rejected(line: Seq<char>)
    requires
        line.len() > 0,
        line[0] == '[',
        forall|i: int| 10 <= i < line.len() ==> #[trigger] line[i] != ':',
    ensures
        parse_line(line) is None,
{
    if line.len() >= 10 {
        let rest = line.subrange(10, line.len() as int);
        assert forall|j: int| 0 <= j < rest.len() implies !crate::text::in_kind(
            CharKind::Exactly(':'),
            #[trigger] rest[j],
        ) by {
            assert(rest[j] == line[10 + j]);
        }
        crate::text::lemma_absent_not_found(rest, CharKind::Exactly(':'));
    }
}

fn level_in(v: &Vec<char>, lo: usize, hi: usize) -> (r: LogLevel)
    requires
        lo <= hi <= v.len(),
    ensures
        r == level_of_tag(v@.subrange(lo as int, hi as int)),
{
    let ghost tag = v@.subrange(lo as int, hi as int);
    let (a, b) = trim_window(v, lo, hi, CharKind::SquareBracket);
    match find_in_window(v, a, b, CharKind::Exactly('/')) {
        None => LogLevel::Other,
        Some(s) => {
            let ghost t = v@.subrange(a as int, b as int);
            assert(t.subrange(s - a + 1, t.len() as int) =~= v@.subrange(s + 1, b as int));
            if window_equals(v, s + 1, b, &to_chars("INFO")) {
                LogLevel::Info
            } else if window_equals(v, s + 1, b, &to_chars("WARN")) {
                LogLevel::Warning
            } else if window_equals(v, s + 1, b, &to_chars("ERROR")) {
                LogLevel::Error
            } else {
                LogLevel::Other
            }
        },
    }
}

fn class_in(v: &Vec<char>, lo: usize, hi: usize) -> (r: LogClass)
    requires
        lo <= hi <= v.len(),
    ensures
        r == classify(v@.subrange(lo as int, hi as int)),
{
    if window_contains(v, lo, hi, &to_chars("UUID")) {
        LogClass::UserAuth
    } else if window_contains(v, lo, hi, &to_chars("logged in with entity id")) {
        LogClass::UserJoinedDetails
    } else if window_ends_with(v, lo, hi, &to_chars("joined the game")) {
        LogClass::UserJoined
    } else if window_ends_with(v, lo, hi, &to_chars("left the game")) {
        LogClass::UserLeft
    } else if window_starts_with(v, lo, hi, &to_chars("Starting minecraft server version")) {
        LogClass::ServerVersion
    } else if window_starts_with(v, lo, hi, &to_chars("Can't keep up!")) {
        LogClass::ServerOverload
    } else if window_starts_with(v, lo, hi, &to_chars("Done (")) {
        LogClass::ServerStart
    } else if window_starts_with(v, lo, hi, &to_chars("Stopping server")) {
        LogClass::ServerStop
    } else {
        LogClass::Other
    }
}

fn last_word_in(v: &Vec<char>, lo: usize, hi: usize) -> (r: Option<(usize, usize)>)
    requires
        lo <= hi <= v.len(),
    ensures
        match r {
            Some((a, b)) => lo <= a <= b <= hi && last_word(v@.subrange(lo as int, hi as int))
                == Some(v@.subrange(a as int, b as int)),
            None => last_word(v@.subrange(lo as int, hi as int)) is None,
        },
{
    let ghost body = v@.subrange(lo as int, hi as int);
    let mut e: usize = hi;
    while e > lo && crate::text::char_in_kind(CharKind::WhiteSpace, v[e - 1])
        invariant
            lo <= e <= hi <= v.len(),
            body == v@.subrange(lo as int, hi as int),
            trim_end(body, CharKind::WhiteSpace) == trim_end(
                v@.subrange(lo as int, e as int),
                CharKind::WhiteSpace,
            ),
        decreases e - lo,
    {
        assert(v@.subrange(lo as int, e as int).drop_last() =~= v@.subrange(lo as int, e - 1));
        e = e - 1;
    }
    assert(e > lo ==> v@.subrange(lo as int, e as int).last() == v@[e - 1]);
    assert(trim_end(body, CharKind::WhiteSpace) == v@.subrange(lo as int, e as int));
    if e == lo {
        return None;
    }
    match find_last_in_window(v, lo, e, CharKind::WhiteSpace) {
        Some(i) => {
            assert(v@.subrange(lo as int, e as int).subrange(i - lo + 1, e - lo) =~= v@.subrange(
                i + 1,
                e as int,
            ));
            Some((i + 1, e))
        },
        None => Some((lo, e)),
    }
}

fn server_start_in(s: &str, v: &Vec<char>, lo: usize, hi: usize) -> (r: String)
    requires
        v@ == s@,
        lo <= hi <= v.len(),
    ensures
        r@ == server_start_status(v@.subrange(lo as int, hi as int)),
{
    let ghost body = v@.subrange(lo as int, hi as int);
    match find_in_window(v, lo, hi, CharKind::RoundBracket) {
        Some(i) => {
            assert(body.subrange(i - lo + 1, body.len() as int) =~= v@.subrange(i + 1, hi as int));
            match find_in_window(v, i + 1, hi, CharKind::RoundBracket) {
                Some(j) => {
                    assert(v@.subrange(i + 1, hi as int).subrange(0, j - (i + 1)) =~= v@.subrange(
                        i + 1,
                        j as int,
                    ));
                    let mut out = "Server started after ".to_owned();
                    out.append(s.substring_char(i + 1, j));
                    out
                },
                None => s.substring_char(lo, hi).to_owned(),
            }
        },
        None => s.substring_char(lo, hi).to_owned(),
    }
}

fn server_overload_in(s: &str, v: &Vec<char>, lo: usize, hi: usize) -> (r: String)
    requires
        v@ == s@,
        lo <= hi <= v.len(),
    ensures
        r@ == server_overload_status(v@.subrange(lo as int, hi as int)),
{
    let ghost body = v@.subrange(lo as int, hi as int);
    match find_in_window(v, lo, hi, CharKind::Exactly('?')) {
        Some(i) => {
            assert(body.subrange(i - lo + 1, body.len() as int) =~= v@.subrange(i + 1, hi as int));
            let mut out = "Server running slow.".to_owned();
            out.append(s.substring_char(i + 1, hi));
            out
        },
        None => s.substring_char(lo, hi).to_owned(),
    }
}

fn status_in(
    time: &str,
    s: &str,
    v: &Vec<char>,
    level: LogLevel,
    class: LogClass,
    lo: usize,
    hi: usize,
) -> (r: String)
    requires
        v@ == s@,
        lo <= hi <= v.len(),
    ensures
        r@ == status_message(time@, level, class, v@.subrange(lo as int, hi as int)),
{
    let ghost body = v@.subrange(lo as int, hi as int);
    let mut out = time.to_owned();
    out.append(" - ");
    match level {
        LogLevel::Warning => out.append("Warning - "),
        LogLevel::Error => out.append("Error - "),
        _ => {
            assert(out@ + level_prefix(level) =~= out@);
        },
    }
    assert(out@ == time@ + " - "@ + level_prefix(level));
    match class {
        LogClass::ServerVersion => {
            out.append("Server starting up using version: ");
            match last_word_in(v, lo, hi) {
                Some((a, b)) => out.append(s.substring_char(a, b)),
                None => out.append("Unknown"),
            }
        },
        LogClass::ServerStart => {
            let part = server_start_in(s, v, lo, hi);
            out.append(part.as_str());
        },
        LogClass::ServerStop => out.append("Server is shutting down"),
        LogClass::ServerOverload => {
            let part = server_overload_in(s, v, lo, hi);
            out.append(part.as_str());
        },
        _ => out.append(s.substring_char(lo, hi)),
    }
    out
}

impl LogRecord {
    pub fn new(time: String, level: LogLevel, class: LogClass, status_message: String) -> (r:
        LogRecord)
        ensures
            r.time@ == time@,
            r.level == level,
            r.class == class,
            r.status_message@ == status_message@,
    {
        LogRecord { time, level, class, status_message }
    }

    /// Parses one line; `None` when the line does not have the expected shape.
    pub fn from_record(record: &str) -> (r: Option<LogRecord>)
        ensures
            match r {
                Some(rec) => parse_line(record@) == Some(rec@),
                None => parse_line(record@) is None,
            },
    {
        let v = to_chars(record);
        let n = v.len();
        if n < 10 || v[0] != '[' {
            return None;
        }
        let ghost rest = v@.subrange(10, n as int);
        match find_in_window(&v, 10, n, CharKind::Exactly(':')) {
            None => None,
            Some(c) => {
                let (t0, t1) = trim_window(&v, 0, 10, CharKind::WhiteSpace);
                let (t2, t3) = trim_window(&v, t0, t1, CharKind::SquareBracket);
                assert(rest.subrange(0, c - 10) =~= v@.subrange(10, c as int));
                assert(rest.subrange(c - 10 + 1, rest.len() as int) =~= v@.subrange(
                    c + 1,
                    n as int,
                ));
                let level = level_in(&v, 10, c);
                let (b0, b1) = trim_window(&v, c + 1, n, CharKind::WhiteSpace);
                let class = class_in(&v, b0, b1);
                let time = record.substring_char(t2, t3);
                let status_message = status_in(time, record, &v, level, class, b0, b1);
                Some(LogRecord::new(time.to_owned(), level, class, status_message))
            },
        }
    }
}

/// The level of a tag `[<thread>/<LEVEL>]`.
pub fn parse_log_level(level_string: &str) -> (r: LogLevel)
    ensures
        r == level_of_tag(level_string@),
{
    let v = to_chars(level_string);
    assert(v@.subrange(0, v.len() as int) =~= v@);
    level_in(&v, 0, v.len())
}

/// The class of a message, after trimming surrounding whitespace.
pub fn parse_class(log_message: &str) -> (r: LogClass)
    ensures
        r == classify(trim(log_message@, CharKind::WhiteSpace)),
{
    let v = to_chars(log_message);
    assert(v@.subrange(0, v.len() as int) =~= v@);
    let (a, b) = trim_window(&v, 0, v.len(), CharKind::WhiteSpace);
    class_in(&v, a, b)
}

/// The status text of a record with the given time, level, class and message body.
pub fn parse_status_message(time: &str, level: LogLevel, class: LogClass, log_message: &str) -> (r:
    String)
    ensures
        r@ == status_message(time@, level, class, log_message@),
{
    let v = to_chars(log_message);
    assert(v@.subrange(0, v.len() as int) =~= v@);
    status_in(time, log_message, &v, level, class, 0, v.len())
}

/// The status text of a server start message.
pub fn parse_server_start_log(log_message: &str) -> (r: String)
    ensures
        r@ == server_start_status(log_message@),
{
    let v = to_chars(log_message);
    assert(v@.subrange(0, v.len() as int) =~= v@);
    server_start_in(log_message, &v, 0, v.len())
}

/// The status text of a server overload message.
pub fn parse_server_overloaded_log(log_message: &str) -> (r: String)
    ensures
        r@ == server_overload_status(log_message@),
{
    let v = to_chars(log_message);
    assert(v@.subrange(0, v.len() as int) =~= v@);
    server_overload_in(log_message, &v, 0, v.len())
}

} // verus!
