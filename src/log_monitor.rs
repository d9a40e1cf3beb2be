//! Following the log file from poll to poll, and turning what was read into
//! records and deliveries.
//!
//! The file itself is read elsewhere: a [`FileTracker`] holds the position
//! already consumed and, from what a metadata check of the path reports,
//! decides on each poll whether to read, from where, and whether the file was
//! replaced.
use vstd::prelude::*;
use vstd::utf8::{decode_utf8, encode_utf8, valid_utf8};

use crate::configuration::Notification;
use crate::filter::{
    all_deliveries, deliveries_model, plan_deliveries, records_model, subscribers_model, Delivery,
};
use crate::log_record::{parse_line, LogRecord, RecordModel};

verus! {

broadcast use {vstd::utf8::encode_utf8_decode_utf8, vstd::utf8::encode_utf8_valid_utf8};

/// A modification time: seconds and nanoseconds since the Unix epoch.
#[derive(Debug, PartialEq, Eq, Structural, Clone, Copy)]
pub struct FileTime {
    pub secs: u64,
    pub nanos: u32,
}

/// What a metadata check of the followed path reports.
#[derive(Debug, PartialEq, Eq, Structural, Clone, Copy)]
pub struct FileStamp {
    /// The platform's identity of the file now at the path (an inode number).
    pub identity: u64,
    pub modified: FileTime,
}

/// What the caller is to do after a poll.
#[derive(Debug, PartialEq, Eq, Structural, Clone, Copy)]
pub enum PollAction {
    /// Nothing changed since the last poll.
    Idle,
    /// The path could not be checked; try again on the next tick.
    Retry,
    /// Read everything from `offset` to the end of the file. With `reopen`, the file at the
    /// path has replaced the one followed so far: reopen it first.
    Read { offset: u64, reopen: bool },
}

/// The state kept between polls of one log file.
///
/// A replacement is recognised by the file's identity alone: a file truncated in place keeps
/// its identity and is read on from the old position.
pub struct FileTracker {
    identity: u64,
    last_modified: Option<FileTime>,
    cursor: u64,
}

/// What a [`FileTracker`] holds: the file followed, the modification time last read at,
/// and the position consumed.
pub struct TrackerModel {
    pub identity: u64,
    pub last_modified: Option<FileTime>,
    pub cursor: nat,
}

impl View for FileTracker {
    type V = TrackerModel;

    closed spec fn view(&self) -> TrackerModel {
        TrackerModel {
            identity: self.identity,
            last_modified: self.last_modified,
            cursor: self.cursor as nat,
        }
    }
}

/// What a poll asks for, given what the metadata check of the path reported.
pub open spec fn poll_action(t: TrackerModel, observed: Option<FileStamp>) -> PollAction {
    match observed {
        None => PollAction::Retry,
        Some(s) => {
            if s.identity != t.identity {
                PollAction::Read { offset: 0, reopen: true }
            } else if t.last_modified == Some(s.modified) {
                PollAction::Idle
            } else {
                PollAction::Read { offset: t.cursor as u64, reopen: false }
            }
        },
    }
}

/// The state after `n` bytes were read for a poll that was given `s`: a file with another
/// identity is followed from its beginning, the same file from where it was left.
pub open spec fn commit_step(t: TrackerModel, s: FileStamp, n: nat) -> TrackerModel {
    if s.identity != t.identity {
        TrackerModel { identity: s.identity, last_modified: Some(s.modified), cursor: n }
    } else {
        TrackerModel { identity: t.identity, last_modified: Some(s.modified), cursor: t.cursor + n }
    }
}

/// The pieces of `s` between newlines; the last one is not followed by a newline.
pub open spec fn pieces(s: Seq<char>) -> Seq<Seq<char>>
    decreases s.len(),
{
    if s.len() == 0 {
        seq![Seq::empty()]
    } else {
        let p = pieces(s.drop_last());
        if s.last() == '\n' {
            p.push(Seq::empty())
        } else {
            p.update(p.len() - 1, p.last().push(s.last()))
        }
    }
}

/// A line ended by `\r\n` loses its `\r`.
pub open spec fn strip_cr(line: Seq<char>) -> Seq<char> {
    if line.len() > 0 && line.last() == '\r' {
        line.drop_last()
    } else {
        line
    }
}

/// The lines of `s`: split at `\n` or `\r\n`, with no empty line after a final newline.
pub open spec fn lines_of(s: Seq<char>) -> Seq<Seq<char>> {
    let p = pieces(s);
    let ended = p.drop_last().map_values(|l: Seq<char>| strip_cr(l));
    if p.last().len() == 0 {
        ended
    } else {
        ended.push(p.last())
    }
}

pub open spec fn strings_model(v: Seq<String>) -> Seq<Seq<char>> {
    v.map_values(|s: String| s@)
}

/// The records of a run of lines, in line order; lines of another shape are dropped.
pub open spec fn parsed_records(lines: Seq<Seq<char>>) -> Seq<RecordModel>
    decreases lines.len(),
{
    if lines.len() == 0 {
        seq![]
    } else {
        let before = parsed_records(lines.drop_last());
        match parse_line(lines.last()) {
            Some(r) => before.push(r),
            None => before,
        }
    }
}

/// The text of a chunk of bytes: its decoding when it is valid UTF-8, else nothing.
pub open spec fn chunk_text(data: Seq<u8>) -> Seq<char> {
    if valid_utf8(data) {
        decode_utf8(data)
    } else {
        Seq::empty()
    }
}

/// Relies on `std::str::from_utf8`: `Ok` with the same bytes seen as text exactly when they
/// are valid UTF-8.
#[verifier::external_body]
fn utf8_str(bytes: &[u8]) -> (r: Option<&str>)
    ensures
        match r {
            Some(s) => encode_utf8(s@) == bytes@,
            None => !valid_utf8(bytes@),
        },
{
    std::str::from_utf8(bytes).ok()
}

/// The lines of `text`, split at `\n` or `\r\n`.
pub fn split_lines(text: &str) -> (r: Vec<String>)
    ensures
        strings_model(r@) == lines_of(text@),
{
    let v = crate::text::to_chars(text);
    let n = v.len();
    let mut out: Vec<String> = Vec::new();
    let mut start: usize = 0;
    let ghost mut raw: Seq<Seq<char>> = seq![];
    assert(v@.subrange(0, 0) =~= Seq::<char>::empty());
    for i in 0..n
        invariant
            n == v.len(),
            v@ == text@,
            start <= i,
            pieces(v@.subrange(0, i as int)) == raw.push(v@.subrange(start as int, i as int)),
            strings_model(out@) == raw.map_values(|l: Seq<char>| strip_cr(l)),
    {
        let ghost cur = v@.subrange(start as int, i as int);
        assert(v@.subrange(0, i + 1).drop_last() =~= v@.subrange(0, i as int));
        if v[i] == '\n' {
            let end = if i > start && v[i - 1] == '\r' {
                i - 1
            } else {
                i
            };
            assert(v@.subrange(start as int, end as int) == strip_cr(cur)) by {
                if i > start && v@[i - 1] == '\r' {
                    assert(cur.drop_last() =~= v@.subrange(start as int, end as int));
                } else {
                    assert(cur =~= v@.subrange(start as int, end as int));
                }
            }
            let line = text.substring_char(start, end).to_owned();
            let ghost prev = out@;
            out.push(line);
            proof {
                assert(strings_model(out@) =~= strings_model(prev).push(line@));
                assert(raw.push(cur).map_values(|l: Seq<char>| strip_cr(l)) =~= raw.map_values(
                    |l: Seq<char>| strip_cr(l),
                ).push(strip_cr(cur)));
                raw = raw.push(cur);
                assert(v@.subrange((i + 1) as int, (i + 1) as int) =~= Seq::<char>::empty());
            }
            start = i + 1;
        } else {
            assert(cur.push(v@[i as int]) =~= v@.subrange(start as int, i + 1));
            assert(raw.push(cur).update(raw.len() as int, cur.push(v@[i as int])) =~= raw.push(
                v@.subrange(start as int, i + 1),
            ));
        }
    }
    assert(v@.subrange(0, n as int) =~= v@);
    let ghost cur = v@.subrange(start as int, n as int);
    assert(raw.push(cur).drop_last() =~= raw);
    if start < n {
        let ghost prev = out@;
        out.push(text.substring_char(start, n).to_owned());
        assert(strings_model(out@) =~= strings_model(prev).push(cur));
    }
    out
}

/// The records of the given lines, in line order; `None` when there were no lines to read.
pub fn parse_log_records(logs: Option<Vec<String>>) -> (r: Option<Vec<LogRecord>>)
    ensures
        match logs {
            None => r is None,
            Some(lines) => r matches Some(recs) && records_model(recs@) == parsed_records(
                strings_model(lines@),
            ),
        },
{
    match logs {
        None => None,
        Some(lines) => {
            let ghost ls = strings_model(lines@);
            let mut out: Vec<LogRecord> = Vec::new();
            for i in 0..lines.len()
                invariant
                    ls == strings_model(lines@),
                    records_model(out@) == parsed_records(ls.subrange(0, i as int)),
            {
                assert(ls.subrange(0, i + 1).drop_last() =~= ls.subrange(0, i as int));
                let ghost prev = out@;
                match LogRecord::from_record(lines[i].as_str()) {
                    Some(rec) => {
                        out.push(rec);
                        assert(records_model(out@) =~= records_model(prev).push(rec@));
                    },
                    None => {},
                }
            }
            assert(ls.subrange(0, lines.len() as int) =~= ls);
            Some(out)
        },
    }
}

/// What one read yields: the deliveries for the records it held, and whether its bytes were
/// valid UTF-8 (when not, they count as no text).
pub struct Ingested {
    pub deliveries: Vec<Delivery>,
    pub decoded: bool,
}

impl FileTracker {
    /// Follows a file from its current end: only what is appended after this call is read.
    pub fn open(stamp: FileStamp, length: u64) -> (r: FileTracker)
        ensures
            r@ == (TrackerModel {
                identity: stamp.identity,
                last_modified: Some(stamp.modified),
                cursor: length as nat,
            }),
    {
        FileTracker { identity: stamp.identity, last_modified: Some(stamp.modified), cursor: length }
    }

    /// Follows a file from its beginning: the first poll reads all of it.
    pub fn open_from_start(stamp: FileStamp) -> (r: FileTracker)
        ensures
            r@ == (TrackerModel { identity: stamp.identity, last_modified: None, cursor: 0 }),
    {
        FileTracker { identity: stamp.identity, last_modified: None, cursor: 0 }
    }

    /// The identity of the file followed.
    pub fn identity(&self) -> (r: u64)
        ensures
            r == self@.identity,
    {
        self.identity
    }

    /// The position up to which the file has been consumed.
    pub fn cursor(&self) -> (r: u64)
        ensures
            r == self@.cursor,
    {
        self.cursor
    }

    /// The modification time seen at the last poll that read.
    pub fn last_modified(&self) -> (r: Option<FileTime>)
        ensures
            r == self@.last_modified,
    {
        self.last_modified
    }

    /// Decides one poll from what a metadata check of the path reported (`None`: the path
    /// could not be checked). Nothing changes until the read it asks for is taken in.
    pub fn poll(&self, observed: Option<FileStamp>) -> (r: PollAction)
        ensures
            r == poll_action(self@, observed),
    {
        match observed {
            None => PollAction::Retry,
            Some(s) => {
                if s.identity != self.identity {
                    PollAction::Read { offset: 0, reopen: true }
                } else {
                    let unchanged = match self.last_modified {
                        Some(m) => m == s.modified,
                        None => false,
                    };
                    if unchanged {
                        PollAction::Idle
                    } else {
                        PollAction::Read { offset: self.cursor, reopen: false }
                    }
                }
            },
        }
    }

    /// Takes in the bytes that the read asked for by a poll given `stamp` returned: the
    /// cursor moves past them, and their text is split into lines.
    pub fn receive(&mut self, stamp: FileStamp, data: &Vec<u8>) -> (r: (Vec<String>, bool))
        requires
            stamp.identity == old(self)@.identity ==> old(self)@.cursor + data.len() <= u64::MAX,
        ensures
            final(self)@ == commit_step(old(self)@, stamp, data.len() as nat),
            r.1 == valid_utf8(data@),
            strings_model(r.0@) == lines_of(chunk_text(data@)),
    {
        if stamp.identity != self.identity {
            self.identity = stamp.identity;
            self.cursor = data.len() as u64;
        } else {
            self.cursor = self.cursor + data.len() as u64;
        }
        self.last_modified = Some(stamp.modified);
        match utf8_str(data.as_slice()) {
            Some(text) => (split_lines(text), true),
            None => {
                let empty: Vec<String> = Vec::new();
                assert(pieces(Seq::<char>::empty()) == seq![Seq::<char>::empty()]);
                assert(lines_of(Seq::<char>::empty()) =~= Seq::<Seq<char>>::empty());
                assert(strings_model(empty@) =~= Seq::<Seq<char>>::empty());
                (empty, false)
            },
        }
    }

    /// Takes in the bytes that the read asked for by a poll given `stamp` returned, and plans
    /// the deliveries of the records they hold.
    pub fn ingest(&mut self, stamp: FileStamp, data: &Vec<u8>, subscribers: &[Notification]) -> (r:
        Ingested)
        requires
            stamp.identity == old(self)@.identity ==> old(self)@.cursor + data.len() <= u64::MAX,
        ensures
            final(self)@ == commit_step(old(self)@, stamp, data.len() as nat),
            r.decoded == valid_utf8(data@),
            deliveries_model(r.deliveries@) == all_deliveries(
                parsed_records(lines_of(chunk_text(data@))),
                subscribers_model(subscribers@),
            ),
    {
        let (lines, decoded) = self.receive(stamp, data);
        let records = parse_log_records(Some(lines));
        match records {
            Some(recs) => Ingested { deliveries: plan_deliveries(&recs, subscribers), decoded },
            None => Ingested { deliveries: Vec::new(), decoded },
        }
    }
}

/// Once a read for a poll given `s` is taken in, polling again with the same report finds
/// nothing new.
pub proof fn lemma_repeat_poll_is_idle(t: TrackerModel, s: FileStamp, n: nat)
    ensures
        poll_action(commit_step(t, s, n), Some(s)) == PollAction::Idle,
{
}

/// The cursor never moves back, except when a read is taken in from a file that replaced
/// the one followed: it then restarts from that file's beginning.
pub proof fn lemma_cursor_monotone(t: TrackerModel, s: FileStamp, n: nat)
    ensures
        commit_step(t, s, n).cursor >= t.cursor || (s.identity != t.identity && commit_step(
            t,
            s,
            n,
        ).cursor == n),
{
}

/// A file that replaced the one followed is read from its own beginning, and is followed
/// from then on.
pub proof fn lemma_rotation_reads_replacement(t: TrackerModel, s: FileStamp, n: nat)
    requires
        s.identity != t.identity,
    ensures
        poll_action(t, Some(s)) == (PollAction::Read { offset: 0, reopen: true }),
        commit_step(t, s, n) == (TrackerModel {
            identity: s.identity,
            last_modified: Some(s.modified),
            cursor: n,
        }),
{
}

} // verus!
