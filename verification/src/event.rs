//! The plain data record one logical editor event decodes to.

use vstd::prelude::*;
use vstd::string::StrSliceExecFns;
use crate::num::dec_digits;
use crate::strutil::push_char;
use crate::strutil::push_u32;
use crate::win::ctl_data;
use crate::win::File;
use crate::win::Win;

verus! {

/// The address expression that selects the literal character range
/// `[q0, q1)`.
pub open spec fn span_expr(q0: u32, q1: u32) -> Seq<char> {
    seq!['#'] + dec_digits(q0 as nat) + seq![',', '#'] + dec_digits(q1 as nat)
}

/// The mathematical value of an [`Event`]: the same fields with the strings
/// replaced by their character sequences.
pub struct EventModel {
    pub c1: char,
    pub c2: char,
    pub q0: u32,
    pub q1: u32,
    pub orig_q0: u32,
    pub orig_q1: u32,
    pub flag: u32,
    pub nr: u32,
    pub text: Seq<char>,
    pub arg: Seq<char>,
    pub loc: Seq<char>,
}

/// One user or programmatic action reported by the editor on a window.
///
/// `c1` and `c2` are the origin and action categories; `[q0, q1)` is the
/// address the event concerns; `orig_q0`/`orig_q1` and `flag` keep the
/// bookkeeping of the record that triggered an expansion; `nr` is the exact
/// character count of `text`; `arg` and `loc` carry the two extra payloads of
/// a chorded argument.
#[derive(Debug)]
pub struct Event {
    pub c1: char,
    pub c2: char,
    pub q0: u32,
    pub q1: u32,
    pub orig_q0: u32,
    pub orig_q1: u32,
    pub flag: u32,
    pub nr: u32,
    pub text: String,
    pub arg: String,
    pub loc: String,
}

impl Event {
    /// The value this event carries.
    pub open spec fn m(self) -> EventModel {
        EventModel {
            c1: self.c1,
            c2: self.c2,
            q0: self.q0,
            q1: self.q1,
            orig_q0: self.orig_q0,
            orig_q1: self.orig_q1,
            flag: self.flag,
            nr: self.nr,
            text: self.text@,
            arg: self.arg@,
            loc: self.loc@,
        }
    }

    /// Replaces the text payload, keeping the length bookkeeping exact.
    ///
    /// This completes a deferred text load: after the caller has set the
    /// window's address to this event's range and read the resulting data
    /// resource, the content is assigned here.
    pub fn set_text(&mut self, data: String)
        requires
            data@.len() <= u32::MAX,
        ensures
            final(self).m() == (EventModel { text: data@, nr: data@.len() as u32, ..old(self).m() }),
    {
        self.nr = data.as_str().unicode_len() as u32;
        self.text = data;
    }

    /// Begins the deferred text load.
    ///
    /// The editor elides an event's text when the address range is non-empty
    /// but the text did not fit the record; the caller must then fetch it.
    /// When that is the case, this queues the address command selecting the
    /// event's literal range on `w` and returns true: the caller performs the
    /// queued write, reads the window's data resource in full, and hands the
    /// content to [`Event::set_text`].  Otherwise `w` is left untouched.
    pub fn load_text(&self, w: &mut Win) -> (r: bool)
        ensures
            r == (self.text@.len() == 0 && self.q0 < self.q1),
            final(w).spec_id() == old(w).spec_id(),
            r ==> final(w).queued() == old(w).queued().push(
                (File::Addr, ctl_data(span_expr(self.q0, self.q1))),
            ),
            !r ==> final(w).queued() == old(w).queued(),
    {
        if self.text.as_str().is_empty() && self.q0 < self.q1 {
            let mut s = String::new();
            push_char(&mut s, '#');
            push_u32(&mut s, self.q0);
            push_char(&mut s, ',');
            push_char(&mut s, '#');
            push_u32(&mut s, self.q1);
            proof {
                assert(s@ =~= span_expr(self.q0, self.q1));
            }
            let _ = w.addr(s);
            true
        } else {
            false
        }
    }
}

} // verus!
