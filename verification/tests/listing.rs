use acme::errors::Error;
use acme::log::LogReader;
use acme::log::WinInfo;

fn chars(s: &str) -> Vec<char> {
    s.chars().collect()
}

#[test]
fn log_record_parses() {
    let mut log = LogReader::new();
    log.feed(chars("2 new /home/user/notes.txt\n"));
    let ev = log.read().unwrap();
    assert_eq!(ev.id, 2);
    assert_eq!(ev.op, "new");
    assert_eq!(ev.name, "/home/user/notes.txt");
}

#[test]
fn log_name_may_hold_spaces() {
    let mut log = LogReader::new();
    log.feed(chars("11 put a b c\n"));
    let ev = log.read().unwrap();
    assert_eq!(ev.id, 11);
    assert_eq!(ev.op, "put");
    assert_eq!(ev.name, "a b c");
}

#[test]
fn log_two_fields_is_malformed() {
    let mut log = LogReader::new();
    log.feed(chars("2 focus"));
    assert_eq!(log.read().unwrap_err(), Error::Malformed);
}

#[test]
fn log_bad_id_is_rejected() {
    let mut log = LogReader::new();
    log.feed(chars("x new name\n"));
    assert_eq!(log.read().unwrap_err(), Error::BadNumber);
}

#[test]
fn log_reads_in_feed_order() {
    let mut log = LogReader::new();
    assert_eq!(log.read().unwrap_err(), Error::Exhausted);
    log.feed(chars("1 new a\n"));
    log.feed(chars("2 del b\n"));
    assert_eq!(log.read().unwrap().id, 1);
    assert_eq!(log.read().unwrap().id, 2);
    assert_eq!(log.read().unwrap_err(), Error::Exhausted);
}

#[test]
fn index_line_parses() {
    let line = "   1          220    10968 0        0 /home/user/file.txt Del Snarf |";
    let w = WinInfo::parse_line(&chars(line)).unwrap().unwrap();
    assert_eq!(w.id, 1);
    assert_eq!(w.name, "/home/user/file.txt");
}

#[test]
fn index_short_line_skipped() {
    assert!(WinInfo::parse_line(&chars("1 2 3")).unwrap().is_none());
    assert!(WinInfo::parse_line(&chars("")).unwrap().is_none());
}

#[test]
fn index_listing_parses_whole_text() {
    let text = "\
   1          220    10968 0        0 /home/user/a.txt Del Snarf |\n\
short line\n\
   7           10       42 0        1 /home/user/b.txt Del Snarf |\n";
    let ws = WinInfo::windows_from(&chars(text)).unwrap();
    assert_eq!(ws.len(), 2);
    assert_eq!(ws[0].id, 1);
    assert_eq!(ws[0].name, "/home/user/a.txt");
    assert_eq!(ws[1].id, 7);
    assert_eq!(ws[1].name, "/home/user/b.txt");
    assert_eq!(WinInfo::windows_from(&chars("")).unwrap().len(), 0);
}

#[test]
fn index_listing_propagates_bad_id() {
    let text = "1 2 3 4 5 /tmp/a ok\nbad 2 3 4 5 /tmp/b oops\n";
    assert!(WinInfo::windows_from(&chars(text)).is_err());
}

#[test]
fn index_bad_id_is_rejected() {
    let line = "q 220 10968 0 0 /tmp/x";
    assert_eq!(WinInfo::parse_line(&chars(line)).unwrap_err(), Error::BadNumber);
}
