#![allow(non_snake_case)]

use eve_log::reader::{LineStep, LogReader, ReadFault, ReadStart};

const RULE: &str = "------------------------------------------------------------\n";

fn header(listener: &str) -> Vec<String> {
    vec![
        RULE.to_string(),
        "  Gamelog\n".to_string(),
        format!("  Listener: {listener}\n"),
        "  Session Started: 2022.06.30 19:15:51\n".to_string(),
        RULE.to_string(),
    ]
}

fn header_size(lines: &[String]) -> u64 {
    lines.iter().take(5).map(|l| l.len() as u64).sum()
}

fn reader_of(listener: &str, body: &str) -> LogReader {
    let h = header(listener);
    let size = header_size(&h) + body.len() as u64;
    LogReader::new(size, &h).unwrap()
}

fn reader_new(name: &str) -> Result<LogReader, &'static str> {
    let lines: Option<Vec<String>> = match name {
        "20220630_191551_0000000000.txt" => Some(header("Some User")),
        "20220630_191551_2117846337.txt" => Some(header("Test User")),
        "20220630_191551_2117846338.txt" => Some(header("Другой Пилот")),
        r"..\test_data\bad_log\20220101_111111.txt" => Some(vec![
            "2022.01.01 11:11:11 Launcher started\n".to_string(),
            "2022.01.01 11:11:12 Updating\n".to_string(),
        ]),
        r"..\test_data\bad_log\20220101_111111_0000000001.txt" => {
            let mut h = header("Some User");
            h[0] = "Gamelog\n".to_string();
            Some(h)
        }
        r"..\test_data\bad_log\20220101_111111_0000000002.txt" => {
            let mut h = header("Some User");
            h[1] = "Gamelog\n".to_string();
            Some(h)
        }
        _ => None,
    };
    match lines {
        None => Err("cant get file metadata"),
        Some(l) => LogReader::new(header_size(&l), &l),
    }
}

#[test]
fn LogReader_new_ok() {
    let lr = reader_new("20220630_191551_0000000000.txt");
    assert!(lr.is_ok(), "create logreader from '20220630_191551_0000000000.txt'");

    let lr = reader_new("20220630_191551_2117846337.txt");
    assert!(lr.is_ok(), "create logreader from '20220630_191551_2117846337.txt'");

    let lr = reader_new("20220630_191551_2117846338.txt");
    assert!(lr.is_ok(), "create logreader from '20220630_191551_2117846338.txt'");
}

#[test]
fn LogReader_new_err() {
    // file not exists
    let lr = reader_new("20220630_191551_2117846338.txt.missing");
    assert!(lr.is_err());

    // only launcher log
    let lr = reader_new(r"..\test_data\bad_log\20220101_111111.txt");
    assert!(lr.is_err());

    // Bad Header #1
    let lr = reader_new(r"..\test_data\bad_log\20220101_111111_0000000001.txt");
    assert!(lr.is_err());

    // Bad Header #2
    let lr = reader_new(r"..\test_data\bad_log\20220101_111111_0000000002.txt");
    assert!(lr.is_err());
}

#[test]
fn header_errors_name_the_line() {
    for k in 0..5 {
        let mut h = header("Some User");
        h[k] = "x\n".to_string();
        let expected = format!("Header parse error: line #{k}");
        assert_eq!(LogReader::new(100, &h).err(), Some(expected.as_str()));
    }
    let h: Vec<String> = header("Some User").into_iter().take(3).collect();
    assert_eq!(
        LogReader::new(100, &h).err(),
        Some("Header parse error: header contains less that 5 lines")
    );
    let mut h = header("Some User");
    h[3] = "  Session Started: 2022.06.30\n".to_string();
    assert_eq!(LogReader::new(100, &h).err(), Some("Header parse error: line #3"));
}

#[test]
fn reading_starts_after_the_header() {
    let mut h = header("Some User");
    h.push("[ 2022.06.30 19:16:00 ] (notify) first\n".to_string());
    let r = LogReader::new(1000, &h).unwrap();
    assert_eq!(r.offset(), header_size(&h));
    assert!(!r.is_reading());
    assert!(!r.is_changed(header_size(&h)));
    assert!(r.is_changed(header_size(&h) + 1));
}

#[test]
fn get_details_reads_name_and_id() {
    let r = reader_of("Some User", "");
    assert_eq!(
        r.get_details("20220630_191551_2117846337.txt"),
        Ok(("Some User".to_string(), 2117846337))
    );
    assert_eq!(
        r.get_details("20220630_1915_2117846337.txt"),
        Err("bad file name format(timestamp + user_id)")
    );
    assert_eq!(
        r.get_details("20220630_191551_2117846337.log"),
        Err("bad file name format(timestamp + user_id)")
    );
    assert_eq!(r.try_get_details("20220630_191551_99999999999999999999.txt"), None);
    assert_eq!(
        r.try_get_details("20220630_191551_42.txt"),
        Some(Ok(("Some User".to_string(), 42)))
    );
}

#[test]
fn get_language_matches_the_listener_line() {
    assert_eq!(reader_of("Pilot", "").get_language(), Ok("english"));
    let mut h = header("Pilot");
    h[2] = "  Auditeur: Pilote\n".to_string();
    let r = LogReader::new(header_size(&h), &h).unwrap();
    assert_eq!(r.get_language(), Ok("french"));
    h[2] = "  收听者: 飞行员\n".to_string();
    let r = LogReader::new(header_size(&h), &h).unwrap();
    assert_eq!(r.get_language(), Ok("chinese"));
    h[2] = "  Pilot: Nobody\n".to_string();
    let r = LogReader::new(header_size(&h), &h).unwrap();
    assert_eq!(r.get_language(), Err("problem with detecting language"));
}

#[test]
fn read_steps_gather_multiline_records() {
    let body = "[ a ] one\ncont\n[ b ] two\n";
    let mut r = reader_of("P", body);
    let h = header_size(&header("P"));
    match r.begin_read(Some(h + body.len() as u64)) {
        ReadStart::OpenAt(o) => assert_eq!(o, h),
        other => panic!("{other:?}"),
    }
    assert!(matches!(r.feed_line("[ a ] one\n".to_string(), 10), LineStep::ReadMore));
    assert!(matches!(r.feed_line("cont\n".to_string(), 5), LineStep::ReadMore));
    match r.feed_line("[ b ] two\n".to_string(), 10) {
        LineStep::Done(Some(s)) => assert_eq!(s, "[ a ] one\ncont\n"),
        other => panic!("{other:?}"),
    }
    match r.begin_read(None) {
        ReadStart::Done(Some(s)) => assert_eq!(s, "[ b ] two\n"),
        other => panic!("{other:?}"),
    }
    assert!(!r.is_reading());
    assert!(matches!(r.begin_read(Some(h + body.len() as u64)), ReadStart::Done(None)));
}

#[test]
fn read_steps_refuse_malformed_bodies() {
    let mut r = reader_of("P", "0123456789abcdefghij");
    let h = header_size(&header("P"));
    assert!(matches!(r.begin_read(Some(h + 20)), ReadStart::OpenAt(_)));
    assert_eq!(r.feed_fault("no mark\n", 8), Some(ReadFault::NoOpenRecord));
    assert_eq!(r.feed_fault("x [ y\n", 6), Some(ReadFault::MisplacedMark));
    assert_eq!(r.feed_fault("[ y\n", 4), None);
    // At the end of the file a line may hold the mark anywhere.
    assert_eq!(r.feed_fault("x [ y ", 20), None);
    assert_eq!(r.feed_fault("no mark at all", 20), Some(ReadFault::NoOpenRecord));
}

#[test]
fn read_steps_at_the_end_of_the_file() {
    let body = "[ a ] one\ntail";
    let mut r = reader_of("P", body);
    let h = header_size(&header("P"));
    assert!(matches!(r.begin_read(Some(h + 14)), ReadStart::OpenAt(_)));
    assert!(matches!(r.feed_line("[ a ] one\n".to_string(), 10), LineStep::ReadMore));
    assert_eq!(r.feed_fault("tail", 4), None);
    match r.feed_line("tail".to_string(), 4) {
        LineStep::Done(Some(s)) => assert_eq!(s, "[ a ] one\ntail"),
        other => panic!("{other:?}"),
    }
    // Nothing is pending: the file is closed, and opened again when it grows.
    assert!(!r.is_reading());
    assert!(matches!(r.begin_read(Some(h + 14)), ReadStart::Done(None)));
    match r.begin_read(Some(h + 24)) {
        ReadStart::OpenAt(o) => assert_eq!(o, h + 14),
        other => panic!("{other:?}"),
    }

    // A file that ends with a record mark line hands out the pending record
    // and keeps the last one.
    let body = "[ a ] one\n[ b ] two";
    let mut r = reader_of("P", body);
    assert!(matches!(r.begin_read(Some(h + 19)), ReadStart::OpenAt(_)));
    assert!(matches!(r.feed_line("[ a ] one\n".to_string(), 10), LineStep::ReadMore));
    match r.feed_line("[ b ] two".to_string(), 9) {
        LineStep::Done(Some(s)) => assert_eq!(s, "[ a ] one\n"),
        other => panic!("{other:?}"),
    }
    assert!(r.is_reading());
    match r.begin_read(None) {
        ReadStart::Done(Some(s)) => assert_eq!(s, "[ b ] two"),
        other => panic!("{other:?}"),
    }
    assert!(!r.is_reading());
}
