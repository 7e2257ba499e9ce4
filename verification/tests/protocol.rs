use acme::codec::WinEvents;
use acme::codec::EVENT_SIZE;
use acme::errors::Error;
use acme::errors::ErrorKind;

fn chars(s: &str) -> Vec<char> {
    s.chars().collect()
}

fn stream(s: &str) -> WinEvents {
    let mut es = WinEvents::new();
    es.feed(chars(s));
    es
}

#[test]
fn error_kinds_classify() {
    assert_eq!(Error::Transport.kind(), ErrorKind::Transport);
    assert_eq!(Error::BadFrame.kind(), ErrorKind::Format);
    assert_eq!(Error::Malformed.kind(), ErrorKind::Format);
    assert_eq!(Error::ShortRead.kind(), ErrorKind::Protocol);
}

#[test]
fn literal_record_decodes() {
    let mut es = stream("EX10 10 0 4 blah\n");
    let ev = es.read_event().unwrap();
    assert_eq!(ev.c1, 'E');
    assert_eq!(ev.c2, 'X');
    assert_eq!(ev.q0, 10);
    assert_eq!(ev.q1, 10);
    assert_eq!(ev.orig_q0, 10);
    assert_eq!(ev.orig_q1, 10);
    assert_eq!(ev.flag, 0);
    assert_eq!(ev.nr, 4);
    assert_eq!(ev.text, "blah");
    assert_eq!(ev.arg, "");
    assert_eq!(ev.loc, "");
}

#[test]
fn plain_flag_consumes_one_record() {
    let mut es = stream("EX1 2 0 1 a\nKI7 8 0 1 b\n");
    let first = es.read_event().unwrap();
    assert_eq!(first.text, "a");
    let second = es.read_event().unwrap();
    assert_eq!(second.c1, 'K');
    assert_eq!(second.text, "b");
    assert_eq!(es.read_event().unwrap_err(), Error::Exhausted);
}

#[test]
fn expansion_collapsed_takes_second_record() {
    let mut es = stream("EX5 5 2 0 \nLM3 9 0 2 ab\n");
    let ev = es.read_event().unwrap();
    assert_eq!(ev.c1, 'L');
    assert_eq!(ev.c2, 'M');
    assert_eq!(ev.q0, 3);
    assert_eq!(ev.q1, 9);
    assert_eq!(ev.orig_q0, 5);
    assert_eq!(ev.orig_q1, 5);
    assert_eq!(ev.flag, 2);
    assert_eq!(ev.text, "ab");
    assert_eq!(es.read_event().unwrap_err(), Error::Exhausted);
}

#[test]
fn expansion_kept_returns_first_record() {
    let mut es = stream("EX4 9 2 3 foo\nKI1 2 0 0 \n");
    let ev = es.read_event().unwrap();
    assert_eq!(ev.c1, 'E');
    assert_eq!(ev.q0, 4);
    assert_eq!(ev.q1, 9);
    assert_eq!(ev.orig_q0, 4);
    assert_eq!(ev.orig_q1, 9);
    assert_eq!(ev.flag, 2);
    assert_eq!(ev.text, "foo");
    // the second record was still drained
    assert_eq!(es.read_event().unwrap_err(), Error::Exhausted);
}

#[test]
fn chorded_argument_takes_two_more_records() {
    let mut es = stream("EX1 2 8 1 x\nEX0 0 0 3 arg\nEX0 0 0 5 a.txt\n");
    let ev = es.read_event().unwrap();
    assert_eq!(ev.flag, 8);
    assert_eq!(ev.text, "x");
    assert_eq!(ev.arg, "arg");
    assert_eq!(ev.loc, "a.txt");
    assert_eq!(es.read_event().unwrap_err(), Error::Exhausted);
}

#[test]
fn expansion_and_chord_take_four_records() {
    let mut es = stream(
        "EX5 5 10 0 \nLM3 9 0 2 hi\nEX0 0 0 3 arg\nEX0 0 0 3 loc\nKI1 2 0 1 z\n",
    );
    let ev = es.read_event().unwrap();
    assert_eq!(ev.q0, 3);
    assert_eq!(ev.q1, 9);
    assert_eq!(ev.orig_q0, 5);
    assert_eq!(ev.flag, 10);
    assert_eq!(ev.text, "hi");
    assert_eq!(ev.arg, "arg");
    assert_eq!(ev.loc, "loc");
    // exactly four records went; the fifth is still there
    let next = es.read_event().unwrap();
    assert_eq!(next.c1, 'K');
    assert_eq!(next.text, "z");
}

#[test]
fn oversized_count_rejected_without_text() {
    // the header alone is enough to fail: no text characters follow
    let mut es = stream("EX1 2 0 257 ");
    assert_eq!(es.read_event().unwrap_err(), Error::TooLong);
    assert_eq!(Error::TooLong.kind(), ErrorKind::Format);
}

#[test]
fn count_at_maximum_accepted() {
    let body: String = "x".repeat(EVENT_SIZE);
    let mut es = stream(&format!("EX1 2 0 256 {}\n", body));
    let ev = es.read_event().unwrap();
    assert_eq!(ev.nr, 256);
    assert_eq!(ev.text, body);
}

#[test]
fn digit_run_needs_single_space() {
    let mut es = stream("EX1x 2 0 0 \n");
    assert_eq!(es.read_event().unwrap_err(), Error::BadNumber);
    assert_eq!(Error::BadNumber.kind(), ErrorKind::Format);
}

#[test]
fn missing_newline_is_framing_error() {
    let mut es = stream("EX1 2 0 1 ab");
    assert_eq!(es.read_event().unwrap_err(), Error::BadFrame);
}

#[test]
fn short_stream_can_be_fed_and_retried() {
    let mut es = stream("EX10 10 0 4 bl");
    assert_eq!(es.read_event().unwrap_err(), Error::Exhausted);
    assert_eq!(Error::Exhausted.kind(), ErrorKind::Protocol);
    es.feed(chars("ah\n"));
    let ev = es.read_event().unwrap();
    assert_eq!(ev.text, "blah");
}

#[test]
fn empty_digit_run_is_zero() {
    let mut es = stream("EX 10 0 0 \n");
    let ev = es.read_event().unwrap();
    assert_eq!(ev.q0, 0);
    assert_eq!(ev.q1, 10);
}

#[test]
fn numbers_wrap_modulo_u32() {
    let mut es = stream("EX4294967295 4294967296 0 0 \n");
    let ev = es.read_event().unwrap();
    assert_eq!(ev.q0, u32::MAX);
    assert_eq!(ev.q1, 0);
}

#[test]
fn write_event_serializes_addresses_only() {
    let mut es = WinEvents::new();
    let ev = acme::event::Event {
        c1: 'E',
        c2: 'X',
        q0: 10,
        q1: 10,
        orig_q0: 3,
        orig_q1: 4,
        flag: 7,
        nr: 4,
        text: "blah".to_string(),
        arg: "junk".to_string(),
        loc: "more".to_string(),
    };
    es.write_event(ev).unwrap();
    assert_eq!(es.take_output(), "EX10 10 \n");
    assert_eq!(es.take_output(), "");
}

#[test]
fn encode_then_decode_round_trips() {
    let mut es = WinEvents::new();
    let ev = acme::event::Event {
        c1: 'E',
        c2: 'X',
        q0: 1234,
        q1: 56789,
        orig_q0: 0,
        orig_q1: 0,
        flag: 0,
        nr: 0,
        text: String::new(),
        arg: String::new(),
        loc: String::new(),
    };
    es.write_event(ev).unwrap();
    let out = es.take_output();
    // a record built from exactly that output, with flag 0 and count 0
    let rec = format!("{}0 0 \n", &out[..out.len() - 1]);
    let mut back = stream(&rec);
    let got = back.read_event().unwrap();
    assert_eq!(got.c1, 'E');
    assert_eq!(got.c2, 'X');
    assert_eq!(got.q0, 1234);
    assert_eq!(got.q1, 56789);
}
