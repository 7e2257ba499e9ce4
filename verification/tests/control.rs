use acme::event::Event;
use acme::errors::Error;
use acme::win::File;
use acme::win::Win;

fn chars(s: &str) -> Vec<char> {
    s.chars().collect()
}

#[test]
fn del_sure_writes_delete() {
    let mut w = Win::attach(3);
    w.del(true).unwrap();
    let v = w.take_writes();
    assert_eq!(v.len(), 1);
    assert_eq!(v[0].file, File::Ctl);
    assert_eq!(v[0].data, "delete\n");
}

#[test]
fn del_unsure_writes_del() {
    let mut w = Win::attach(3);
    w.del(false).unwrap();
    let v = w.take_writes();
    assert_eq!(v.len(), 1);
    assert_eq!(v[0].file, File::Ctl);
    assert_eq!(v[0].data, "del\n");
}

#[test]
fn name_writes_name_command() {
    let mut w = Win::attach(1);
    w.name("foo").unwrap();
    let v = w.take_writes();
    assert_eq!(v.len(), 1);
    assert_eq!(v[0].file, File::Ctl);
    assert_eq!(v[0].data, "name foo\n");
}

#[test]
fn ctl_appends_newline() {
    let mut w = Win::attach(1);
    w.ctl("clean".to_string()).unwrap();
    let v = w.take_writes();
    assert_eq!(v[0].file, File::Ctl);
    assert_eq!(v[0].data, "clean\n");
}

#[test]
fn addr_appends_newline() {
    let mut w = Win::attach(1);
    w.addr("#3,#9".to_string()).unwrap();
    let v = w.take_writes();
    assert_eq!(v[0].file, File::Addr);
    assert_eq!(v[0].data, "#3,#9\n");
}

#[test]
fn write_appends_nothing() {
    let mut w = Win::attach(1);
    w.write(File::Body, "blah hello".to_string()).unwrap();
    w.write(File::Tag, "".to_string()).unwrap();
    let v = w.take_writes();
    assert_eq!(v.len(), 2);
    assert_eq!(v[0].file, File::Body);
    assert_eq!(v[0].data, "blah hello");
    assert_eq!(v[1].file, File::Tag);
    assert_eq!(v[1].data, "");
}

#[test]
fn clear_sets_empty_address_then_empty_data() {
    let mut w = Win::attach(1);
    w.clear().unwrap();
    let v = w.take_writes();
    assert_eq!(v.len(), 2);
    assert_eq!(v[0].file, File::Addr);
    assert_eq!(v[0].data, ",");
    assert_eq!(v[1].file, File::Data);
    assert_eq!(v[1].data, "");
}

#[test]
fn take_writes_drains_in_order() {
    let mut w = Win::attach(9);
    assert_eq!(w.id(), 9);
    w.name("a").unwrap();
    w.ctl("dirty".to_string()).unwrap();
    let v = w.take_writes();
    assert_eq!(v.len(), 2);
    assert_eq!(v[0].data, "name a\n");
    assert_eq!(v[1].data, "dirty\n");
    assert_eq!(w.take_writes().len(), 0);
}

#[test]
fn load_text_queues_range_fetch() {
    let mut w = Win::attach(2);
    let mut ev = Event {
        c1: 'L',
        c2: 'l',
        q0: 3,
        q1: 9,
        orig_q0: 3,
        orig_q1: 9,
        flag: 2,
        nr: 0,
        text: String::new(),
        arg: String::new(),
        loc: String::new(),
    };
    assert!(ev.load_text(&mut w));
    let v = w.take_writes();
    assert_eq!(v.len(), 1);
    assert_eq!(v[0].file, File::Addr);
    assert_eq!(v[0].data, "#3,#9\n");
    ev.set_text("hello!".to_string());
    assert_eq!(ev.text, "hello!");
    assert_eq!(ev.nr, 6);
}

#[test]
fn load_text_skips_present_text() {
    let mut w = Win::attach(2);
    let ev = Event {
        c1: 'L',
        c2: 'l',
        q0: 3,
        q1: 9,
        orig_q0: 3,
        orig_q1: 9,
        flag: 0,
        nr: 2,
        text: "hi".to_string(),
        arg: String::new(),
        loc: String::new(),
    };
    assert!(!ev.load_text(&mut w));
    assert_eq!(w.take_writes().len(), 0);
}

#[test]
fn parse_addr_reads_two_fields() {
    assert_eq!(Win::parse_addr(&chars("3 17")).unwrap(), (3, 17));
    assert_eq!(Win::parse_addr(&chars("  42   99  extra")).unwrap(), (42, 99));
    assert_eq!(Win::parse_addr(&chars("7")).unwrap_err(), Error::ShortRead);
    assert_eq!(Win::parse_addr(&chars("")).unwrap_err(), Error::ShortRead);
    assert_eq!(Win::parse_addr(&chars("a 4")).unwrap_err(), Error::BadNumber);
}

#[test]
fn parse_new_id_takes_first_field() {
    assert_eq!(Win::parse_new_id(&chars("4 more stuff")).unwrap(), 4);
    assert_eq!(Win::parse_new_id(&chars("  12\n")).unwrap(), 12);
    assert_eq!(Win::parse_new_id(&chars("   ")).unwrap_err(), Error::ShortRead);
    assert_eq!(Win::parse_new_id(&chars("x1")).unwrap_err(), Error::BadNumber);
}

#[test]
fn events_starts_empty() {
    let w = Win::attach(5);
    let mut es = w.events();
    assert_eq!(es.read_event().unwrap_err(), Error::Exhausted);
}
