//! The per-window control surface.
//!
//! A [`Win`] decides what literal text goes to which of its five resources;
//! it performs no I/O itself.  Each operation queues one write, and the I/O
//! layer drains the queue with [`Win::take_writes`] and performs each write
//! on the matching open resource.

use vstd::prelude::*;
use vstd::string::StringExecFns;
use crate::codec::WinEvents;
use crate::errors::Error;
use crate::num::num_val;
use crate::num::usize_token_ok;
use crate::num::parse_usize;
use crate::text::tokens_from;
use crate::text::split_ws;

verus! {

/// Selects one of a window's five resources; purely a dispatch key.
#[derive(Clone, Copy, Debug, PartialEq, Eq, Structural)]
pub enum File {
    Ctl,
    Body,
    Addr,
    Data,
    Tag,
}

/// One write the control surface has decided on: the literal data and the
/// resource it goes to.
pub struct WriteReq {
    pub file: File,
    pub data: String,
}

impl WriteReq {
    /// The value of this request: the target and the characters to write.
    pub open spec fn m(self) -> (File, Seq<char>) {
        (self.file, self.data@)
    }
}

/// What a control command looks like on the control resource: the command
/// with a newline appended.
pub open spec fn ctl_data(cmd: Seq<char>) -> Seq<char> {
    cmd + "\n"@
}

/// The command that renames a window.
pub open spec fn name_cmd(n: Seq<char>) -> Seq<char> {
    "name "@ + n + "\n"@
}

/// The command that deletes a window: unconditionally when `sure`, else
/// subject to the editor's own refusal policy.
pub open spec fn del_cmd(sure: bool) -> Seq<char> {
    if sure {
        "delete\n"@
    } else {
        "del\n"@
    }
}

/// One editor window, addressed by its immutable integer id.
pub struct Win {
    id: usize,
    writes: Vec<WriteReq>,
}

impl Win {
    /// The window's id.
    pub closed spec fn spec_id(self) -> usize {
        self.id
    }

    /// The writes decided on and not yet performed, oldest first.
    pub closed spec fn queued(self) -> Seq<(File, Seq<char>)> {
        self.writes@.map_values(|w: WriteReq| w.m())
    }

    /// Binds the control surface to an existing window id.
    pub fn attach(id: usize) -> (w: Win)
        ensures
            w.spec_id() == id,
            w.queued() == Seq::<(File, Seq<char>)>::empty(),
    {
        let w = Win { id, writes: Vec::new() };
        proof {
            assert(w.queued() =~= Seq::<(File, Seq<char>)>::empty());
        }
        w
    }

    /// The window's id.
    pub fn id(&self) -> (r: usize)
        ensures
            r == self.spec_id(),
    {
        self.id
    }

    /// A fresh event stream for this window's event resource.
    pub fn events(&self) -> (es: WinEvents)
        ensures
            es.wf(),
            es.rem() == Seq::<char>::empty(),
            es.pending_out() == Seq::<char>::empty(),
    {
        WinEvents::new()
    }

    /// Hands the queued writes to the I/O layer, oldest first, leaving the
    /// queue empty.
    pub fn take_writes(&mut self) -> (v: Vec<WriteReq>)
        ensures
            v@.map_values(|w: WriteReq| w.m()) == old(self).queued(),
            final(self).queued() == Seq::<(File, Seq<char>)>::empty(),
            final(self).spec_id() == old(self).spec_id(),
    {
        let mut v: Vec<WriteReq> = Vec::new();
        core::mem::swap(&mut v, &mut self.writes);
        proof {
            assert(self.queued() =~= Seq::<(File, Seq<char>)>::empty());
        }
        v
    }

    /// Queues the literal characters of `data` for the selected resource;
    /// appends nothing.
    pub fn write(&mut self, file: File, data: String) -> (r: Result<(), Error>)
        ensures
            r is Ok,
            final(self).spec_id() == old(self).spec_id(),
            final(self).queued() == old(self).queued().push((file, data@)),
    {
        let ghost d = data@;
        self.writes.push(WriteReq { file, data });
        proof {
            assert(self.queued() =~= old(self).queued().push((file, d)));
        }
        Ok(())
    }

    /// Queues a command on the control resource: the command, then a newline.
    pub fn ctl(&mut self, data: String) -> (r: Result<(), Error>)
        ensures
            r is Ok,
            final(self).spec_id() == old(self).spec_id(),
            final(self).queued() == old(self).queued().push((File::Ctl, ctl_data(data@))),
    {
        let mut s = data;
        s.append("\n");
        self.write(File::Ctl, s)
    }

    /// Queues an address expression on the address resource, newline
    /// terminated.
    pub fn addr(&mut self, data: String) -> (r: Result<(), Error>)
        ensures
            r is Ok,
            final(self).spec_id() == old(self).spec_id(),
            final(self).queued() == old(self).queued().push((File::Addr, ctl_data(data@))),
    {
        let mut s = data;
        s.append("\n");
        self.write(File::Addr, s)
    }

    /// Sets the address to the empty range, then writes empty text to the
    /// data resource, in that order.
    pub fn clear(&mut self) -> (r: Result<(), Error>)
        ensures
            r is Ok,
            final(self).spec_id() == old(self).spec_id(),
            final(self).queued() == old(self).queued().push((File::Addr, ","@)).push(
                (File::Data, ""@),
            ),
    {
        let r = self.write(File::Addr, String::from_str(","));
        if r.is_err() {
            return r;
        }
        proof {
            reveal_strlit("");
            assert(""@ =~= Seq::<char>::empty());
        }
        self.write(File::Data, String::new())
    }

    /// Renames the window.
    pub fn name(&mut self, name: &str) -> (r: Result<(), Error>)
        ensures
            r is Ok,
            final(self).spec_id() == old(self).spec_id(),
            final(self).queued() == old(self).queued().push((File::Ctl, name_cmd(name@))),
    {
        let mut s = String::from_str("name ");
        s.append(name);
        let r = self.ctl(s);
        proof {
            assert(ctl_data("name "@ + name@) =~= name_cmd(name@));
        }
        r
    }

    /// Parses the resolved address read back from the address resource: its
    /// first two whitespace-separated fields as decimal numbers.  Fewer than
    /// two fields is a short read.
    pub fn parse_addr(line: &Vec<char>) -> (r: Result<(usize, usize), Error>)
        ensures
            ({
                let ts = tokens_from(line@, 0);
                &&& ts.len() < 2 ==> r == Err::<(usize, usize), Error>(Error::ShortRead)
                &&& (ts.len() >= 2 && usize_token_ok(ts[0]) && usize_token_ok(ts[1])) ==> r
                    == Ok::<(usize, usize), Error>(
                    (num_val(ts[0]) as usize, num_val(ts[1]) as usize),
                )
                &&& (ts.len() >= 2 && !(usize_token_ok(ts[0]) && usize_token_ok(ts[1]))) ==> r
                    == Err::<(usize, usize), Error>(Error::BadNumber)
            }),
    {
        let ts = split_ws(line);
        if ts.len() < 2 {
            return Err(Error::ShortRead);
        }
        let a = match parse_usize(&ts[0]) {
            Ok(n) => n,
            Err(e) => {
                return Err(e);
            },
        };
        let b = match parse_usize(&ts[1]) {
            Ok(n) => n,
            Err(e) => {
                return Err(e);
            },
        };
        Ok((a, b))
    }

    /// Parses the id of a freshly allocated window: the first
    /// whitespace-separated field of the first read from the allocation
    /// resource.  No field at all is a short read.
    pub fn parse_new_id(line: &Vec<char>) -> (r: Result<usize, Error>)
        ensures
            ({
                let ts = tokens_from(line@, 0);
                &&& ts.len() == 0 ==> r == Err::<usize, Error>(Error::ShortRead)
                &&& (ts.len() > 0 && usize_token_ok(ts[0])) ==> r == Ok::<usize, Error>(
                    num_val(ts[0]) as usize,
                )
                &&& (ts.len() > 0 && !usize_token_ok(ts[0])) ==> r == Err::<usize, Error>(
                    Error::BadNumber,
                )
            }),
    {
        let ts = split_ws(line);
        if ts.len() == 0 {
            return Err(Error::ShortRead);
        }
        parse_usize(&ts[0])
    }

    /// Deletes the window: `"delete"` forces deletion even with unsaved
    /// state, `"del"` leaves the editor free to refuse.
    pub fn del(&mut self, sure: bool) -> (r: Result<(), Error>)
        ensures
            r is Ok,
            final(self).spec_id() == old(self).spec_id(),
            final(self).queued() == old(self).queued().push((File::Ctl, del_cmd(sure))),
    {
        if sure {
            let r = self.ctl(String::from_str("delete"));
            proof {
                reveal_strlit("delete");
                reveal_strlit("delete\n");
                reveal_strlit("\n");
                assert(ctl_data("delete"@) =~= del_cmd(true));
            }
            r
        } else {
            let r = self.ctl(String::from_str("del"));
            proof {
                reveal_strlit("del");
                reveal_strlit("del\n");
                reveal_strlit("\n");
                assert(ctl_data("del"@) =~= del_cmd(false));
            }
            r
        }
    }
}

} // verus!
