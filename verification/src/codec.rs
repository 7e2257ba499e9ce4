//! The framed event protocol: the grammar of raw records, the assembly of
//! logical events out of one, two or four raw records, and the stream type
//! that decodes and encodes them.
//!
//! A raw record is: one origin character, one action character, three decimal
//! integers (address start, address end, flag bitmask) each followed by
//! exactly one mandatory space, a decimal character count followed by exactly
//! one mandatory space, then exactly that many literal characters, then a
//! mandatory newline.  Numeric values are accumulated modulo 2^32.

use vstd::prelude::*;
use crate::errors::Error;
use crate::event::Event;
use crate::event::EventModel;
use crate::num::is_digit;
use crate::num::num_val;
use crate::num::dec_digits;
use crate::num::char_is_digit;
use crate::num::char_digit_val;
use crate::scan::scan;
use crate::scan::lemma_scan_stop;
use crate::strutil::push_char;
use crate::strutil::push_u32;

verus! {

/// The largest character count a raw record may carry.
pub const EVENT_SIZE: usize = 256;

/// The outcome of parsing one numeric field: its value and the index just
/// past its terminating space, or the failure.
pub enum NumParse {
    Num { v: u32, used: int },
    Fail { e: Error },
}

/// One raw record as parsed from the head of the input, and how many
/// characters it used.
pub struct RawRec {
    pub c1: char,
    pub c2: char,
    pub q0: u32,
    pub q1: u32,
    pub flag: u32,
    pub nr: u32,
    pub text: Seq<char>,
    pub used: int,
}

/// The outcome of parsing one raw record from the head of the input.
pub enum RecParse {
    Rec { r: RawRec },
    Fail { e: Error },
}

/// The outcome of parsing one logical event from the head of the input.
pub enum EvParse {
    Ev { ev: EventModel, used: int },
    Fail { e: Error },
}

/// The digit predicate, under one name so every scan over digits speaks of
/// the same function.
pub open spec fn digit_pred() -> spec_fn(char) -> bool {
    |c: char| is_digit(c)
}

/// Parses one numeric field at the head of `s`: a run of decimal digits
/// (possibly empty) that must be followed by a single space.  The value is
/// the digits read modulo 2^32.
#[verifier::opaque]
pub open spec fn parse_num(s: Seq<char>) -> NumParse {
    let end = scan(s, 0, digit_pred());
    if end == s.len() {
        NumParse::Fail { e: Error::Exhausted }
    } else if s[end] != ' ' {
        NumParse::Fail { e: Error::BadNumber }
    } else {
        NumParse::Num { v: (num_val(s.take(end)) % 0x1_0000_0000) as u32, used: end + 1 }
    }
}

/// A parsed numeric field uses at least its space and never more than the
/// whole input.
pub proof fn lemma_parse_num_used(s: Seq<char>)
    ensures
        parse_num(s) matches NumParse::Num { v, used } ==> 1 <= used <= s.len(),
{
    reveal(parse_num);
    crate::scan::lemma_scan_bounds(s, 0, digit_pred());
}

/// Parses one raw record at the head of `s`.
#[verifier::opaque]
pub open spec fn parse_record(s: Seq<char>) -> RecParse {
    if s.len() < 2 {
        RecParse::Fail { e: Error::Exhausted }
    } else {
        match parse_num(s.skip(2)) {
            NumParse::Fail { e } => RecParse::Fail { e },
            NumParse::Num { v: q0, used: u0 } => match parse_num(s.skip(2 + u0)) {
                NumParse::Fail { e } => RecParse::Fail { e },
                NumParse::Num { v: q1, used: u1 } => match parse_num(s.skip(2 + u0 + u1)) {
                    NumParse::Fail { e } => RecParse::Fail { e },
                    NumParse::Num { v: flag, used: u2 } => match parse_num(
                        s.skip(2 + u0 + u1 + u2),
                    ) {
                        NumParse::Fail { e } => RecParse::Fail { e },
                        NumParse::Num { v: nr, used: u3 } => {
                            let body = 2 + u0 + u1 + u2 + u3;
                            if nr > EVENT_SIZE as u32 {
                                RecParse::Fail { e: Error::TooLong }
                            } else if s.len() < body + nr + 1 {
                                RecParse::Fail { e: Error::Exhausted }
                            } else if s[body + nr] != '\n' {
                                RecParse::Fail { e: Error::BadFrame }
                            } else {
                                RecParse::Rec {
                                    r: RawRec {
                                        c1: s[0],
                                        c2: s[1],
                                        q0,
                                        q1,
                                        flag,
                                        nr,
                                        text: s.subrange(body, body + nr),
                                        used: body + nr + 1,
                                    },
                                }
                            }
                        },
                    },
                },
            },
        }
    }
}

/// A parsed raw record uses at least its two category characters and never
/// more than the whole input.
pub proof fn lemma_parse_record_used(s: Seq<char>)
    ensures
        parse_record(s) matches RecParse::Rec { r } ==> 2 < r.used <= s.len(),
{
    reveal(parse_record);
    if s.len() >= 2 {
        lemma_parse_num_used(s.skip(2));
        if let NumParse::Num { v: q0, used: u0 } = parse_num(s.skip(2)) {
            lemma_parse_num_used(s.skip(2 + u0));
            if let NumParse::Num { v: q1, used: u1 } = parse_num(s.skip(2 + u0)) {
                lemma_parse_num_used(s.skip(2 + u0 + u1));
                if let NumParse::Num { v: flag, used: u2 } = parse_num(s.skip(2 + u0 + u1)) {
                    lemma_parse_num_used(s.skip(2 + u0 + u1 + u2));
                }
            }
        }
    }
}

/// The event a single raw record yields: the pre-expansion address mirrors
/// the address, and the chorded payloads are empty.
pub open spec fn rec_to_ev(r: RawRec) -> EventModel {
    EventModel {
        c1: r.c1,
        c2: r.c2,
        q0: r.q0,
        q1: r.q1,
        orig_q0: r.q0,
        orig_q1: r.q1,
        flag: r.flag,
        nr: r.nr,
        text: r.text,
        arg: Seq::empty(),
        loc: Seq::empty(),
    }
}

/// Completes a logical event: when the chorded-argument bit is set, two more
/// raw records are parsed and their texts become `arg` and `loc`.
pub open spec fn parse_chord(s: Seq<char>, used: int, ev: EventModel) -> EvParse {
    if ev.flag & 8 != 0 {
        match parse_record(s.skip(used)) {
            RecParse::Fail { e } => EvParse::Fail { e },
            RecParse::Rec { r: r3 } => match parse_record(s.skip(used + r3.used)) {
                RecParse::Fail { e } => EvParse::Fail { e },
                RecParse::Rec { r: r4 } => EvParse::Ev {
                    ev: EventModel { arg: r3.text, loc: r4.text, ..ev },
                    used: used + r3.used + r4.used,
                },
            },
        }
    } else {
        EvParse::Ev { ev, used }
    }
}

/// Parses one logical event at the head of `s`.
///
/// One raw record is parsed.  When its expansion bit is set a second one is
/// parsed as well: if the first record's address is collapsed the second
/// record is the result, keeping the first's address and flag as its
/// pre-expansion bookkeeping; otherwise the second record is drained and the
/// first is the result.  When the chorded-argument bit is set two further raw
/// records supply `arg` and `loc`.
pub open spec fn parse_event(s: Seq<char>) -> EvParse {
    match parse_record(s) {
        RecParse::Fail { e } => EvParse::Fail { e },
        RecParse::Rec { r: r1 } => {
            if r1.flag & 2 != 0 {
                match parse_record(s.skip(r1.used)) {
                    RecParse::Fail { e } => EvParse::Fail { e },
                    RecParse::Rec { r: r2 } => {
                        let ev = if r1.q0 == r1.q1 {
                            EventModel {
                                orig_q0: r1.q0,
                                orig_q1: r1.q1,
                                flag: r1.flag,
                                ..rec_to_ev(r2)
                            }
                        } else {
                            rec_to_ev(r1)
                        };
                        parse_chord(s, r1.used + r2.used, ev)
                    },
                }
            } else {
                parse_chord(s, r1.used, rec_to_ev(r1))
            }
        },
    }
}

/// What one encoded event looks like on the wire: origin, action, start and
/// end address, the latter two each followed by a space, then a newline.
pub open spec fn encode_event(c1: char, c2: char, q0: u32, q1: u32) -> Seq<char> {
    seq![c1, c2] + dec_digits(q0 as nat) + seq![' '] + dec_digits(q1 as nat) + seq![' ', '\n']
}

/// One window's event stream.
///
/// The stream works on plain characters: the I/O layer feeds the characters
/// read from the window's event resource with [`WinEvents::feed`] and sends
/// what [`WinEvents::take_output`] drains.  `read_event` consumes characters
/// only when it returns an event, so a stream that ran out of input can be
/// fed more and retried.
pub struct WinEvents {
    input: Vec<char>,
    pos: usize,
    out: String,
}

impl WinEvents {
    /// The stream's bookkeeping is consistent.
    pub closed spec fn wf(self) -> bool {
        self.pos <= self.input@.len()
    }

    /// The characters fed in and not yet consumed.
    pub closed spec fn rem(self) -> Seq<char> {
        self.input@.skip(self.pos as int)
    }

    /// The encoded events not yet drained.
    pub closed spec fn pending_out(self) -> Seq<char> {
        self.out@
    }

    /// A stream with nothing fed and nothing pending.
    pub fn new() -> (es: WinEvents)
        ensures
            es.wf(),
            es.rem() == Seq::<char>::empty(),
            es.pending_out() == Seq::<char>::empty(),
    {
        let es = WinEvents { input: Vec::new(), pos: 0, out: String::new() };
        proof {
            assert(es.rem() =~= Seq::<char>::empty());
        }
        es
    }

    /// Appends characters read from the event resource.
    pub fn feed(&mut self, mut more: Vec<char>)
        requires
            old(self).wf(),
        ensures
            final(self).wf(),
            final(self).rem() == old(self).rem() + more@,
            final(self).pending_out() == old(self).pending_out(),
    {
        let ghost m = more@;
        self.input.append(&mut more);
        proof {
            assert(self.input@.skip(self.pos as int) =~= old(self).rem() + m);
        }
    }

    /// Drains the encoded events awaiting transmission.
    pub fn take_output(&mut self) -> (s: String)
        requires
            old(self).wf(),
        ensures
            final(self).wf(),
            final(self).rem() == old(self).rem(),
            final(self).pending_out() == Seq::<char>::empty(),
            s@ == old(self).pending_out(),
    {
        let s = self.out.clone();
        self.out = String::new();
        s
    }

    /// Reads the next character.
    fn get_ch(&mut self) -> (r: Result<char, Error>)
        requires
            old(self).wf(),
        ensures
            final(self).wf(),
            final(self).input == old(self).input,
            final(self).out == old(self).out,
            old(self).rem().len() == 0 ==> r == Err::<char, Error>(Error::Exhausted)
                && final(self).pos == old(self).pos,
            old(self).rem().len() > 0 ==> r == Ok::<char, Error>(old(self).rem()[0])
                && final(self).pos == old(self).pos + 1,
    {
        if self.pos < self.input.len() {
            let c = self.input[self.pos];
            self.pos = self.pos + 1;
            Ok(c)
        } else {
            Err(Error::Exhausted)
        }
    }

    /// Reads one numeric field: digits up to a mandatory single space.
    fn get_en(&mut self) -> (r: Result<u32, Error>)
        requires
            old(self).wf(),
        ensures
            final(self).wf(),
            final(self).input == old(self).input,
            final(self).out == old(self).out,
            match parse_num(old(self).rem()) {
                NumParse::Num { v, used } => r == Ok::<u32, Error>(v) && final(self).pos
                    == old(self).pos + used,
                NumParse::Fail { e } => r == Err::<u32, Error>(e) && final(self).pos == old(self).pos,
            },
    {
        let ghost s = self.rem();
        let ghost p = digit_pred();
        let mut i: usize = self.pos;
        let mut n: u32 = 0;
        loop
            invariant
                *self == *old(self),
                self.wf(),
                self.pos <= i <= self.input@.len(),
                forall|m: int| self.pos <= m < i ==> is_digit(#[trigger] self.input@[m]),
                n == num_val(self.input@.subrange(self.pos as int, i as int)) % 0x1_0000_0000,
                s == self.rem(),
                p == digit_pred(),
            decreases self.input@.len() - i,
        {
            if i == self.input.len() {
                proof {
                    reveal(parse_num);
                    assert(forall|m: int|
                        0 <= m < s.len() ==> #[trigger] p(s[m]) == is_digit(
                            self.input@[self.pos + m],
                        ));
                    lemma_scan_stop(s, 0, s.len() as int, p);
                    assert(parse_num(s) == (NumParse::Fail { e: Error::Exhausted }));
                }
                return Err(Error::Exhausted);
            }
            let c = self.input[i];
            if !char_is_digit(c) {
                let ghost j = i - self.pos;
                proof {
                    assert(forall|m: int| 0 <= m < j ==> #[trigger] p(s[m]));
                    assert(!p(s[j]));
                    lemma_scan_stop(s, 0, j, p);
                }
                if c != ' ' {
                    proof {
                        reveal(parse_num);
                        assert(s[j] == c);
                        assert(parse_num(s) == (NumParse::Fail { e: Error::BadNumber }));
                    }
                    return Err(Error::BadNumber);
                }
                proof {
                    reveal(parse_num);
                    assert(s.take(j) =~= self.input@.subrange(self.pos as int, i as int));
                    assert(parse_num(s) == (NumParse::Num {
                        v: (num_val(s.take(j)) % 0x1_0000_0000) as u32,
                        used: j + 1,
                    }));
                }
                self.pos = i + 1;
                return Ok(n);
            }
            let d = char_digit_val(c);
            let n64 = (n as u64) * 10 + (d as u64);
            let n2 = (n64 % 0x1_0000_0000) as u32;
            proof {
                let pre = self.input@.subrange(self.pos as int, i as int);
                let whole = self.input@.subrange(self.pos as int, i + 1);
                assert(whole.drop_last() =~= pre);
                assert(whole.last() == self.input@[i as int]);
                let a = num_val(pre) as int;
                let dd = crate::num::digit_val(self.input@[i as int]) as int;
                let mm = 0x1_0000_0000int;
                vstd::arithmetic::div_mod::lemma_mul_mod_noop_left(a, 10, mm);
                vstd::arithmetic::div_mod::lemma_add_mod_noop((a % mm) * 10, dd, mm);
                vstd::arithmetic::div_mod::lemma_add_mod_noop(a * 10, dd, mm);
                vstd::arithmetic::div_mod::lemma_small_mod(dd as nat, mm as nat);
                assert(((a % mm) * 10 + dd) % mm == (a * 10 + dd) % mm);
            }
            n = n2;
            i = i + 1;
        }
    }

    /// Decodes one raw record, or restores the stream position and reports
    /// why it could not.
    fn get_event(&mut self) -> (r: Result<Event, Error>)
        requires
            old(self).wf(),
        ensures
            final(self).wf(),
            final(self).input == old(self).input,
            final(self).out == old(self).out,
            match parse_record(old(self).rem()) {
                RecParse::Rec { r: rec } => r matches Ok(ev) && ev.m() == rec_to_ev(rec) && final(self).pos == old(self).pos + rec.used,
                RecParse::Fail { e } => r == Err::<Event, Error>(e) && final(self).pos == old(self).pos,
            },
    {
        let ghost s0 = self.rem();
        let pos0 = self.pos;
        let c1 = match self.get_ch() {
            Ok(c) => c,
            Err(e) => {
                proof {
                    reveal(parse_record);
                    assert(parse_record(s0) == (RecParse::Fail { e: Error::Exhausted }));
                }
                return Err(e);
            },
        };
        let c2 = match self.get_ch() {
            Ok(c) => c,
            Err(e) => {
                proof {
                    reveal(parse_record);
                    assert(parse_record(s0) == (RecParse::Fail { e: Error::Exhausted }));
                }
                self.pos = pos0;
                return Err(e);
            },
        };
        proof {
            assert(self.rem() =~= s0.skip(2));
        }
        let q0 = match self.get_en() {
            Ok(v) => v,
            Err(e) => {
                proof {
                    reveal(parse_record);
                    assert(parse_record(s0) == (RecParse::Fail { e }));
                }
                self.pos = pos0;
                return Err(e);
            },
        };
        let ghost u0 = (parse_num(s0.skip(2)))->Num_used;
        proof {
            lemma_parse_num_used(s0.skip(2));
            assert(self.rem() =~= s0.skip(2 + u0));
        }
        let q1 = match self.get_en() {
            Ok(v) => v,
            Err(e) => {
                proof {
                    reveal(parse_record);
                    assert(parse_record(s0) == (RecParse::Fail { e }));
                }
                self.pos = pos0;
                return Err(e);
            },
        };
        let ghost u1 = (parse_num(s0.skip(2 + u0)))->Num_used;
        proof {
            lemma_parse_num_used(s0.skip(2 + u0));
            assert(self.rem() =~= s0.skip(2 + u0 + u1));
        }
        let flag = match self.get_en() {
            Ok(v) => v,
            Err(e) => {
                proof {
                    reveal(parse_record);
                    assert(parse_record(s0) == (RecParse::Fail { e }));
                }
                self.pos = pos0;
                return Err(e);
            },
        };
        let ghost u2 = (parse_num(s0.skip(2 + u0 + u1)))->Num_used;
        proof {
            lemma_parse_num_used(s0.skip(2 + u0 + u1));
            assert(self.rem() =~= s0.skip(2 + u0 + u1 + u2));
        }
        let nr = match self.get_en() {
            Ok(v) => v,
            Err(e) => {
                proof {
                    reveal(parse_record);
                    assert(parse_record(s0) == (RecParse::Fail { e }));
                }
                self.pos = pos0;
                return Err(e);
            },
        };
        let ghost u3 = (parse_num(s0.skip(2 + u0 + u1 + u2)))->Num_used;
        let ghost body = 2 + u0 + u1 + u2 + u3;
        proof {
            lemma_parse_num_used(s0.skip(2 + u0 + u1 + u2));
            assert(self.rem() =~= s0.skip(body));
        }
        if nr > EVENT_SIZE as u32 {
            proof {
                reveal(parse_record);
                assert(parse_record(s0) == (RecParse::Fail { e: Error::TooLong }));
            }
            self.pos = pos0;
            return Err(Error::TooLong);
        }
        let mut text = String::new();
        let mut k: u32 = 0;
        proof {
            assert(text@ =~= s0.subrange(body, body));
        }
        while k < nr
            invariant
                old(self).wf(),
                self.wf(),
                self.input == old(self).input,
                self.out == old(self).out,
                0 <= k <= nr,
                self.pos == old(self).pos + body + k,
                s0 == old(self).rem(),
                self.rem() == s0.skip(body + k),
                6 <= body,
                body + k <= s0.len(),
                text@ == s0.subrange(body, body + k),
                pos0 == old(self).pos,
                nr <= EVENT_SIZE as u32,
                parse_num(s0.skip(2)) == (NumParse::Num { v: q0, used: u0 }),
                parse_num(s0.skip(2 + u0)) == (NumParse::Num { v: q1, used: u1 }),
                parse_num(s0.skip(2 + u0 + u1)) == (NumParse::Num { v: flag, used: u2 }),
                parse_num(s0.skip(2 + u0 + u1 + u2)) == (NumParse::Num { v: nr, used: u3 }),
                body == 2 + u0 + u1 + u2 + u3,
                s0.len() >= 2,
            decreases nr - k,
        {
            let c = match self.get_ch() {
                Ok(c) => c,
                Err(e) => {
                    proof {
                        reveal(parse_record);
                        assert(s0.len() == body + k);
                        assert(parse_record(s0) == (RecParse::Fail { e: Error::Exhausted }));
                    }
                    self.pos = pos0;
                    return Err(e);
                },
            };
            push_char(&mut text, c);
            proof {
                assert(s0.skip(body + k).skip(1) =~= s0.skip(body + k + 1));
                assert(s0.subrange(body, body + k).push(s0.skip(body + k)[0]) =~= s0.subrange(
                    body,
                    body + k + 1,
                ));
            }
            k = k + 1;
        }
        let c = match self.get_ch() {
            Ok(c) => c,
            Err(e) => {
                proof {
                    reveal(parse_record);
                    assert(s0.len() == body + nr);
                    assert(parse_record(s0) == (RecParse::Fail { e: Error::Exhausted }));
                }
                self.pos = pos0;
                return Err(e);
            },
        };
        if c != '\n' {
            proof {
                reveal(parse_record);
                assert(s0[body + nr] == c);
                assert(parse_record(s0) == (RecParse::Fail { e: Error::BadFrame }));
            }
            self.pos = pos0;
            return Err(Error::BadFrame);
        }
        proof {
            reveal(parse_record);
            assert(s0[body + nr] == c);
            assert(parse_record(s0) == (RecParse::Rec {
                r: RawRec {
                    c1: s0[0],
                    c2: s0[1],
                    q0,
                    q1,
                    flag,
                    nr,
                    text: s0.subrange(body, body + nr),
                    used: body + nr + 1,
                },
            }));
            assert(self.rem() =~= s0.skip(body + nr + 1));
        }
        Ok(
            Event {
                c1,
                c2,
                q0,
                q1,
                orig_q0: q0,
                orig_q1: q1,
                flag,
                nr,
                text,
                arg: String::new(),
                loc: String::new(),
            },
        )
    }

    /// Decodes one logical event: one, two or four raw records, as the
    /// expansion and chorded-argument flag bits of the first record demand.
    /// On failure the stream position is left where the call found it, so a
    /// stream that merely ran short can be fed and retried.
    #[verifier::rlimit(60)]
    pub fn read_event(&mut self) -> (r: Result<Event, Error>)
        requires
            old(self).wf(),
        ensures
            final(self).wf(),
            final(self).pending_out() == old(self).pending_out(),
            match parse_event(old(self).rem()) {
                EvParse::Ev { ev, used } => r matches Ok(got) && got.m() == ev && final(self).rem()
                    == old(self).rem().skip(used),
                EvParse::Fail { e } => r == Err::<Event, Error>(e) && final(self).rem() == old(self).rem(),
            },
    {
        let ghost s0 = self.rem();
        let pos0 = self.pos;
        let mut e = match self.get_event() {
            Ok(e) => e,
            Err(err) => {
                return Err(err);
            },
        };
        let ghost r1 = (parse_record(s0))->Rec_r;
        let ghost used1: int = r1.used;
        proof {
            lemma_parse_record_used(s0);
            assert(self.rem() =~= s0.skip(used1));
        }
        if e.flag & 2 != 0 {
            let mut e2 = match self.get_event() {
                Ok(x) => x,
                Err(err) => {
                    self.pos = pos0;
                    return Err(err);
                },
            };
            let ghost r2 = (parse_record(s0.skip(used1)))->Rec_r;
            if e.q0 == e.q1 {
                e2.orig_q0 = e.q0;
                e2.orig_q1 = e.q1;
                e2.flag = e.flag;
                e = e2;
            }
            proof {
                lemma_parse_record_used(s0.skip(used1));
                assert(self.rem() =~= s0.skip(used1 + r2.used));
            }
            let ghost used2: int = used1 + r2.used;
            if e.flag & 8 != 0 {
                let e3 = match self.get_event() {
                    Ok(x) => x,
                    Err(err) => {
                        self.pos = pos0;
                        return Err(err);
                    },
                };
                let ghost r3 = (parse_record(s0.skip(used2)))->Rec_r;
                proof {
                    lemma_parse_record_used(s0.skip(used2));
                    assert(self.rem() =~= s0.skip(used2 + r3.used));
                }
                let e4 = match self.get_event() {
                    Ok(x) => x,
                    Err(err) => {
                        self.pos = pos0;
                        return Err(err);
                    },
                };
                let ghost r4 = (parse_record(s0.skip(used2 + r3.used)))->Rec_r;
                e.arg = e3.text;
                e.loc = e4.text;
                proof {
                    lemma_parse_record_used(s0.skip(used2 + r3.used));
                    assert(self.rem() =~= s0.skip(used2 + r3.used + r4.used));
                }
            }
            Ok(e)
        } else {
            if e.flag & 8 != 0 {
                let e3 = match self.get_event() {
                    Ok(x) => x,
                    Err(err) => {
                        self.pos = pos0;
                        return Err(err);
                    },
                };
                let ghost r3 = (parse_record(s0.skip(used1)))->Rec_r;
                proof {
                    lemma_parse_record_used(s0.skip(used1));
                    assert(self.rem() =~= s0.skip(used1 + r3.used));
                }
                let e4 = match self.get_event() {
                    Ok(x) => x,
                    Err(err) => {
                        self.pos = pos0;
                        return Err(err);
                    },
                };
                let ghost r4 = (parse_record(s0.skip(used1 + r3.used)))->Rec_r;
                e.arg = e3.text;
                e.loc = e4.text;
                proof {
                    lemma_parse_record_used(s0.skip(used1 + r3.used));
                    assert(self.rem() =~= s0.skip(used1 + r3.used + r4.used));
                }
            }
            Ok(e)
        }
    }

    /// Encodes an event back into the stream: only origin, action, start and
    /// end address are serialized.  This is how a caller returns an event
    /// unmodified or drives a synthetic action.
    pub fn write_event(&mut self, ev: Event) -> (r: Result<(), Error>)
        requires
            old(self).wf(),
        ensures
            final(self).wf(),
            final(self).rem() == old(self).rem(),
            final(self).pending_out() == old(self).pending_out() + encode_event(
                ev.c1,
                ev.c2,
                ev.q0,
                ev.q1,
            ),
            r is Ok,
    {
        let ghost o0 = self.out@;
        push_char(&mut self.out, ev.c1);
        push_char(&mut self.out, ev.c2);
        push_u32(&mut self.out, ev.q0);
        push_char(&mut self.out, ' ');
        push_u32(&mut self.out, ev.q1);
        push_char(&mut self.out, ' ');
        push_char(&mut self.out, '\n');
        proof {
            assert(self.out@ =~= o0 + encode_event(ev.c1, ev.c2, ev.q0, ev.q1));
        }
        Ok(())
    }
}

} // verus!
