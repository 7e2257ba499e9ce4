//! Proved facts about the event protocol: what a canonically encoded record
//! parses to, how many raw records one logical event consumes, and when a
//! numeric field is rejected.

use vstd::prelude::*;
use crate::codec::digit_pred;
use crate::codec::encode_event;
use crate::codec::parse_chord;
use crate::codec::parse_event;
use crate::codec::parse_num;
use crate::codec::parse_record;
use crate::codec::rec_to_ev;
use crate::codec::EvParse;
use crate::codec::NumParse;
use crate::codec::RawRec;
use crate::codec::RecParse;
use crate::codec::EVENT_SIZE;
use crate::errors::Error;
use crate::event::EventModel;
use crate::num::dec_digits;
use crate::num::lemma_dec_digits;
use crate::scan::scan;
use crate::scan::lemma_scan_stop;

verus! {

/// Everything of a raw record up to its text: the two category characters
/// and the four numeric fields, each with its mandatory space.
pub open spec fn record_header(c1: char, c2: char, q0: u32, q1: u32, flag: u32, nr: u32) -> Seq<
    char,
> {
    seq![c1, c2] + dec_digits(q0 as nat) + seq![' '] + dec_digits(q1 as nat) + seq![' ']
        + dec_digits(flag as nat) + seq![' '] + dec_digits(nr as nat) + seq![' ']
}

/// One whole raw record, canonically encoded.
pub open spec fn record_bytes(
    c1: char,
    c2: char,
    q0: u32,
    q1: u32,
    flag: u32,
    nr: u32,
    text: Seq<char>,
) -> Seq<char> {
    record_header(c1, c2, q0, q1, flag, nr) + text + seq!['\n']
}

/// A canonically spelled number followed by a space parses back to itself,
/// whatever comes after the space.
pub proof fn lemma_parse_num_encoded(n: u32, rest: Seq<char>)
    ensures
        parse_num(dec_digits(n as nat) + seq![' '] + rest) == (NumParse::Num {
            v: n,
            used: dec_digits(n as nat).len() + 1 as int,
        }),
{
    reveal(parse_num);
    let d = dec_digits(n as nat);
    let s = d + seq![' '] + rest;
    lemma_dec_digits(n as nat);
    let p = digit_pred();
    assert forall|m: int| 0 <= m < d.len() implies #[trigger] p(s[m]) by {
        assert(s[m] == d[m]);
    }
    assert(s[d.len() as int] == ' ');
    assert(!p(s[d.len() as int]));
    lemma_scan_stop(s, 0, d.len() as int, p);
    assert(s.take(d.len() as int) =~= d);
    vstd::arithmetic::div_mod::lemma_small_mod(n as nat, 0x1_0000_0000nat);
}

/// A digit run followed by any character other than a single space is a
/// malformed numeric field.
pub proof fn lemma_number_needs_single_space(s: Seq<char>)
    requires
        ({
            let end = scan(s, 0, digit_pred());
            end < s.len() && s[end] != ' '
        }),
    ensures
        parse_num(s) == (NumParse::Fail { e: Error::BadNumber }),
{
    reveal(parse_num);
}

/// A canonically encoded raw record with an in-range count parses back to
/// exactly its fields, whatever follows it.
pub proof fn lemma_parse_record_encoded(
    c1: char,
    c2: char,
    q0: u32,
    q1: u32,
    flag: u32,
    nr: u32,
    text: Seq<char>,
    rest: Seq<char>,
)
    requires
        text.len() == nr as nat,
        nr <= EVENT_SIZE as u32,
    ensures
        parse_record(record_bytes(c1, c2, q0, q1, flag, nr, text) + rest) == (RecParse::Rec {
            r: RawRec {
                c1,
                c2,
                q0,
                q1,
                flag,
                nr,
                text,
                used: record_bytes(c1, c2, q0, q1, flag, nr, text).len() as int,
            },
        }),
{
    reveal(parse_record);
    let d0 = dec_digits(q0 as nat);
    let d1 = dec_digits(q1 as nat);
    let d2 = dec_digits(flag as nat);
    let d3 = dec_digits(nr as nat);
    let rb = record_bytes(c1, c2, q0, q1, flag, nr, text);
    let s = rb + rest;
    let t3 = text + seq!['\n'] + rest;
    let t2 = d3 + seq![' '] + t3;
    let t1 = d2 + seq![' '] + t2;
    let t0 = d1 + seq![' '] + t1;
    assert(s.skip(2) =~= d0 + seq![' '] + t0);
    lemma_parse_num_encoded(q0, t0);
    let u0 = d0.len() + 1;
    assert(s.skip(2 + u0 as int) =~= d1 + seq![' '] + t1);
    lemma_parse_num_encoded(q1, t1);
    let u1 = d1.len() + 1;
    assert(s.skip(2 + u0 as int + u1 as int) =~= d2 + seq![' '] + t2);
    lemma_parse_num_encoded(flag, t2);
    let u2 = d2.len() + 1;
    assert(s.skip(2 + u0 as int + u1 as int + u2 as int) =~= d3 + seq![' '] + t3);
    lemma_parse_num_encoded(nr, t3);
    let u3 = d3.len() + 1;
    let body = 2 + u0 as int + u1 as int + u2 as int + u3 as int;
    assert(rb.len() == body + nr + 1);
    assert(s[body + nr] == '\n');
    assert(s.subrange(body, body + nr) =~= text);
    assert(s[0] == c1 && s[1] == c2);
}

/// A count above the maximum is rejected from the header alone, before any
/// text characters are consumed: whatever follows the count's space, the
/// parse fails the same way.
pub proof fn lemma_oversized_count_rejected(
    c1: char,
    c2: char,
    q0: u32,
    q1: u32,
    flag: u32,
    nr: u32,
    rest: Seq<char>,
)
    requires
        nr > EVENT_SIZE as u32,
    ensures
        parse_record(record_header(c1, c2, q0, q1, flag, nr) + rest) == (RecParse::Fail {
            e: Error::TooLong,
        }),
{
    reveal(parse_record);
    let d0 = dec_digits(q0 as nat);
    let d1 = dec_digits(q1 as nat);
    let d2 = dec_digits(flag as nat);
    let d3 = dec_digits(nr as nat);
    let s = record_header(c1, c2, q0, q1, flag, nr) + rest;
    let t3 = rest;
    let t2 = d3 + seq![' '] + t3;
    let t1 = d2 + seq![' '] + t2;
    let t0 = d1 + seq![' '] + t1;
    assert(s.skip(2) =~= d0 + seq![' '] + t0);
    lemma_parse_num_encoded(q0, t0);
    let u0 = d0.len() + 1;
    assert(s.skip(2 + u0 as int) =~= d1 + seq![' '] + t1);
    lemma_parse_num_encoded(q1, t1);
    let u1 = d1.len() + 1;
    assert(s.skip(2 + u0 as int + u1 as int) =~= d2 + seq![' '] + t2);
    lemma_parse_num_encoded(flag, t2);
    let u2 = d2.len() + 1;
    assert(s.skip(2 + u0 as int + u1 as int + u2 as int) =~= d3 + seq![' '] + t3);
    lemma_parse_num_encoded(nr, t3);
}

/// A record whose flag has neither the expansion bit nor the chorded bit is
/// one whole logical event: exactly one raw record is consumed.
pub proof fn lemma_single_record(s: Seq<char>, r1: RawRec)
    requires
        parse_record(s) == (RecParse::Rec { r: r1 }),
        r1.flag & 2 == 0,
        r1.flag & 8 == 0,
    ensures
        parse_event(s) == (EvParse::Ev { ev: rec_to_ev(r1), used: r1.used }),
{
}

/// Expansion with a collapsed address: exactly two raw records are consumed;
/// the result is the second record carrying the first record's address and
/// flag as its pre-expansion bookkeeping.
pub proof fn lemma_expansion_collapsed(s: Seq<char>, r1: RawRec, r2: RawRec)
    requires
        parse_record(s) == (RecParse::Rec { r: r1 }),
        parse_record(s.skip(r1.used)) == (RecParse::Rec { r: r2 }),
        r1.flag & 2 != 0,
        r1.flag & 8 == 0,
        r1.q0 == r1.q1,
    ensures
        parse_event(s) == (EvParse::Ev {
            ev: EventModel { orig_q0: r1.q0, orig_q1: r1.q1, flag: r1.flag, ..rec_to_ev(r2) },
            used: r1.used + r2.used,
        }),
{
}

/// Expansion with a non-collapsed address: the second raw record is still
/// consumed, to keep the framing synchronized, but the first record is
/// returned verbatim.
pub proof fn lemma_expansion_kept(s: Seq<char>, r1: RawRec, r2: RawRec)
    requires
        parse_record(s) == (RecParse::Rec { r: r1 }),
        parse_record(s.skip(r1.used)) == (RecParse::Rec { r: r2 }),
        r1.flag & 2 != 0,
        r1.flag & 8 == 0,
        r1.q0 != r1.q1,
    ensures
        parse_event(s) == (EvParse::Ev { ev: rec_to_ev(r1), used: r1.used + r2.used }),
{
}

/// A chorded argument consumes exactly two raw records beyond the base
/// record or records, and their texts become `arg` and `loc`.
pub proof fn lemma_chorded(s: Seq<char>, used: int, ev: EventModel, r3: RawRec, r4: RawRec)
    requires
        ev.flag & 8 != 0,
        parse_record(s.skip(used)) == (RecParse::Rec { r: r3 }),
        parse_record(s.skip(used + r3.used)) == (RecParse::Rec { r: r4 }),
    ensures
        parse_chord(s, used, ev) == (EvParse::Ev {
            ev: EventModel { arg: r3.text, loc: r4.text, ..ev },
            used: used + r3.used + r4.used,
        }),
{
}

/// Round trip: what `write_event` emits, completed into a raw record with a
/// zero flag and a zero count, decodes back to an event with the same
/// origin, action, start and end address.
pub proof fn lemma_encode_round_trip(c1: char, c2: char, q0: u32, q1: u32)
    ensures
        ({
            let out = encode_event(c1, c2, q0, q1);
            let rec = out.take(out.len() - 1) + seq!['0', ' ', '0', ' ', '\n'];
            parse_event(rec) == (EvParse::Ev {
                ev: EventModel {
                    c1,
                    c2,
                    q0,
                    q1,
                    orig_q0: q0,
                    orig_q1: q1,
                    flag: 0,
                    nr: 0,
                    text: Seq::empty(),
                    arg: Seq::empty(),
                    loc: Seq::empty(),
                },
                used: rec.len() as int,
            })
        }),
{
    let out = encode_event(c1, c2, q0, q1);
    let rec = out.take(out.len() - 1) + seq!['0', ' ', '0', ' ', '\n'];
    let rb = record_bytes(c1, c2, q0, q1, 0u32, 0u32, Seq::empty());
    assert(dec_digits(0nat) == seq!['0']);
    assert(rec =~= rb + Seq::<char>::empty());
    lemma_parse_record_encoded(c1, c2, q0, q1, 0u32, 0u32, Seq::empty(), Seq::empty());
    let r1 = RawRec {
        c1,
        c2,
        q0,
        q1,
        flag: 0u32,
        nr: 0u32,
        text: Seq::empty(),
        used: rb.len() as int,
    };
    assert(0u32 & 2 == 0) by (bit_vector);
    assert(0u32 & 8 == 0) by (bit_vector);
    lemma_single_record(rec, r1);
    assert(rec.len() == rb.len());
    assert(rec_to_ev(r1) == (EventModel {
        c1,
        c2,
        q0,
        q1,
        orig_q0: q0,
        orig_q1: q1,
        flag: 0,
        nr: 0,
        text: Seq::empty(),
        arg: Seq::empty(),
        loc: Seq::empty(),
    }));
}

} // verus!
