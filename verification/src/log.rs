//! The two line-oriented listings beside the event protocol: the global
//! event log and the window registry.  Both work on plain characters; the
//! I/O layer feeds what it read from the fixed `log` and `index` resources.

use vstd::prelude::*;
use crate::errors::Error;
use crate::num::num_val;
use crate::num::usize_token_ok;
use crate::num::parse_usize;
use crate::scan::scan;
use crate::strutil::chars_to_string;
use crate::text::not_space_pred;
use crate::text::tokens_from;
use crate::text::trim;
use crate::text::find_space;
use crate::text::copy_range;
use crate::text::trim_chars;
use crate::text::split_ws;
use crate::text::split_lines;
use crate::text::lines_from;

verus! {

/// One record of the editor's global event log.
#[derive(Debug)]
pub struct LogEvent {
    pub id: usize,
    pub op: String,
    pub name: String,
}

/// One window of the registry listing.
#[derive(Debug)]
pub struct WinInfo {
    pub id: usize,
    pub name: String,
}

/// The outcome of parsing one log record.
pub enum LogParse {
    Log { id: usize, op: Seq<char>, name: Seq<char> },
    Fail { e: Error },
}

/// The outcome of parsing one line of the window registry.
pub enum IndexLineParse {
    Skip,
    Win { id: usize, name: Seq<char> },
    Fail { e: Error },
}

/// Parses one log record: a window id, an operation and a window name,
/// separated by single spaces; the name runs to the end of the record and is
/// trimmed of surrounding whitespace.
pub open spec fn parse_log(s: Seq<char>) -> LogParse {
    let i = scan(s, 0, not_space_pred());
    if i == s.len() {
        LogParse::Fail { e: Error::Malformed }
    } else {
        let j = scan(s, i + 1, not_space_pred());
        if j == s.len() {
            LogParse::Fail { e: Error::Malformed }
        } else if !usize_token_ok(s.take(i)) {
            LogParse::Fail { e: Error::BadNumber }
        } else {
            LogParse::Log {
                id: num_val(s.take(i)) as usize,
                op: s.subrange(i + 1, j),
                name: trim(s.skip(j + 1)),
            }
        }
    }
}

/// Parses one line of the registry listing: the window id is the first
/// whitespace-separated field and the name the sixth; a line with fewer than
/// six fields is skipped.
pub open spec fn parse_index_line(s: Seq<char>) -> IndexLineParse {
    let ts = tokens_from(s, 0);
    if ts.len() < 6 {
        IndexLineParse::Skip
    } else if !usize_token_ok(ts[0]) {
        IndexLineParse::Fail { e: Error::BadNumber }
    } else {
        IndexLineParse::Win { id: num_val(ts[0]) as usize, name: ts[5] }
    }
}

/// The outcome of parsing the whole registry listing, line by line: the
/// windows of the lines that carry one, or the first line's failure.
pub enum IndexParse {
    Wins { ws: Seq<(usize, Seq<char>)> },
    Fail { e: Error },
}

/// Parses the registry listing: short lines are skipped, and the first
/// malformed id fails the whole listing.
pub open spec fn parse_index(lines: Seq<Seq<char>>) -> IndexParse
    decreases lines.len(),
{
    if lines.len() == 0 {
        IndexParse::Wins { ws: Seq::empty() }
    } else {
        match parse_index_line(lines[0]) {
            IndexLineParse::Fail { e } => IndexParse::Fail { e },
            IndexLineParse::Skip => parse_index(lines.skip(1)),
            IndexLineParse::Win { id, name } => match parse_index(lines.skip(1)) {
                IndexParse::Fail { e } => IndexParse::Fail { e },
                IndexParse::Wins { ws } => IndexParse::Wins { ws: seq![(id, name)] + ws },
            },
        }
    }
}

impl WinInfo {
    /// Parses one line of the registry listing.
    pub fn parse_line(line: &Vec<char>) -> (r: Result<Option<WinInfo>, Error>)
        ensures
            match parse_index_line(line@) {
                IndexLineParse::Skip => r == Ok::<Option<WinInfo>, Error>(None),
                IndexLineParse::Win { id, name } => r matches Ok(Some(w)) && w.id == id && w.name@
                    == name,
                IndexLineParse::Fail { e } => r == Err::<Option<WinInfo>, Error>(e),
            },
    {
        let ts = split_ws(line);
        if ts.len() < 6 {
            return Ok(None);
        }
        let id = match parse_usize(&ts[0]) {
            Ok(n) => n,
            Err(e) => {
                return Err(e);
            },
        };
        Ok(Some(WinInfo { id, name: chars_to_string(&ts[5]) }))
    }

    /// Parses the whole registry listing, one window per line that carries
    /// one.
    pub fn windows_from(text: &Vec<char>) -> (r: Result<Vec<WinInfo>, Error>)
        ensures
            match parse_index(lines_from(text@, 0)) {
                IndexParse::Wins { ws } => r matches Ok(v) && v@.map_values(
                    |w: WinInfo| (w.id, w.name@),
                ) == ws,
                IndexParse::Fail { e } => r == Err::<Vec<WinInfo>, Error>(e),
            },
    {
        let ghost f = |w: WinInfo| (w.id, w.name@);
        let lines = split_lines(text);
        let ghost ls = lines@.map_values(|t: Vec<char>| t@);
        let mut ws: Vec<WinInfo> = Vec::new();
        let mut k: usize = 0;
        proof {
            assert(ws@.map_values(f) =~= Seq::<(usize, Seq<char>)>::empty());
            assert(ls.skip(0) =~= ls);
        }
        while k < lines.len()
            invariant
                0 <= k <= ls.len(),
                ls == lines@.map_values(|t: Vec<char>| t@),
                ls == lines_from(text@, 0),
                f == (|w: WinInfo| (w.id, w.name@)),
                parse_index(ls.skip(k as int)) matches IndexParse::Fail { e } ==> parse_index(ls)
                    == parse_index(ls.skip(k as int)),
                parse_index(ls.skip(k as int)) matches IndexParse::Wins { ws: rest } ==>
                    parse_index(ls) == (IndexParse::Wins { ws: ws@.map_values(f) + rest }),
            decreases ls.len() - k,
        {
            let ghost tail = ls.skip(k as int);
            proof {
                assert(tail[0] == ls[k as int]);
                assert(tail.skip(1) =~= ls.skip(k + 1));
            }
            match WinInfo::parse_line(&lines[k]) {
                Err(e) => {
                    proof {
                        assert(parse_index_line(tail[0]) == (IndexLineParse::Fail { e }));
                        assert(parse_index(tail) == (IndexParse::Fail { e }));
                        assert(parse_index(ls) == (IndexParse::Fail { e }));
                    }
                    return Err(e);
                },
                Ok(None) => {},
                Ok(Some(w)) => {
                    let ghost ws_old = ws@;
                    let ghost x = (w.id, w.name@);
                    ws.push(w);
                    proof {
                        assert(ws@.map_values(f) =~= ws_old.map_values(f).push(x));
                        if let IndexParse::Wins { ws: rest } = parse_index(ls.skip(k + 1)) {
                            assert(ws_old.map_values(f) + (seq![x] + rest) =~= ws_old.map_values(
                                f,
                            ).push(x) + rest);
                        }
                    }
                },
            }
            k = k + 1;
        }
        proof {
            assert(ls.skip(ls.len() as int) =~= Seq::<Seq<char>>::empty());
            assert(ws@.map_values(f) + Seq::<(usize, Seq<char>)>::empty() =~= ws@.map_values(f));
        }
        Ok(ws)
    }
}

/// Reads the editor's global event log record by record.
///
/// The I/O layer feeds each raw read from the `log` resource as one chunk;
/// `read` parses the oldest chunk fed and not yet read.
pub struct LogReader {
    pending: Vec<Vec<char>>,
}

impl LogReader {
    /// The chunks fed and not yet read, oldest first.
    pub closed spec fn queued(self) -> Seq<Seq<char>> {
        self.pending@.map_values(|c: Vec<char>| c@)
    }

    /// A reader with nothing fed yet.
    pub fn new() -> (r: LogReader)
        ensures
            r.queued() == Seq::<Seq<char>>::empty(),
    {
        let r = LogReader { pending: Vec::new() };
        proof {
            assert(r.queued() =~= Seq::<Seq<char>>::empty());
        }
        r
    }

    /// Appends one raw read from the log resource.
    pub fn feed(&mut self, chunk: Vec<char>)
        ensures
            final(self).queued() == old(self).queued().push(chunk@),
    {
        let ghost c = chunk@;
        self.pending.push(chunk);
        proof {
            assert(self.queued() =~= old(self).queued().push(c));
        }
    }

    /// Parses the oldest chunk as one log record.  The chunk is consumed
    /// whether or not it parses.
    pub fn read(&mut self) -> (r: Result<LogEvent, Error>)
        ensures
            old(self).queued().len() == 0 ==> r == Err::<LogEvent, Error>(Error::Exhausted)
                && final(self).queued() == old(self).queued(),
            old(self).queued().len() > 0 ==> final(self).queued() == old(self).queued().skip(1)
                && match parse_log(old(self).queued()[0]) {
                LogParse::Log { id, op, name } => r matches Ok(ev) && ev.id == id && ev.op@ == op
                    && ev.name@ == name,
                LogParse::Fail { e } => r == Err::<LogEvent, Error>(e),
            },
    {
        if self.pending.len() == 0 {
            return Err(Error::Exhausted);
        }
        let chunk = self.pending.remove(0);
        let ghost s = chunk@;
        proof {
            assert(self.queued() =~= old(self).queued().skip(1));
            assert(old(self).queued()[0] == s);
        }
        let i = find_space(&chunk, 0);
        if i == chunk.len() {
            return Err(Error::Malformed);
        }
        let j = find_space(&chunk, i + 1);
        if j == chunk.len() {
            return Err(Error::Malformed);
        }
        let id_tok = copy_range(&chunk, 0, i);
        proof {
            assert(id_tok@ =~= s.take(i as int));
        }
        let id = match parse_usize(&id_tok) {
            Ok(n) => n,
            Err(e) => {
                return Err(e);
            },
        };
        let op_tok = copy_range(&chunk, i + 1, j);
        let rest = copy_range(&chunk, j + 1, chunk.len());
        proof {
            assert(rest@ =~= s.skip(j + 1));
        }
        let name_tok = trim_chars(&rest);
        Ok(LogEvent { id, op: chars_to_string(&op_tok), name: chars_to_string(&name_tok) })
    }
}

} // verus!
