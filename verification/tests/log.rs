#![allow(non_snake_case)]

use eve_log::log::Log;
use eve_log::reader::{LineStep, ReadStart};

/// The lines of `content` as `read_line` hands them out, line ends kept.
fn split_lines(content: &str) -> Vec<String> {
    let mut lines = Vec::new();
    let mut rest = content;
    while !rest.is_empty() {
        match rest.find('\n') {
            Some(p) => {
                lines.push(rest[..p + 1].to_string());
                rest = &rest[p + 1..];
            }
            None => {
                lines.push(rest.to_string());
                rest = "";
            }
        }
    }
    lines
}

/// The first lines of a file, as far as a header check reads them.
fn header_lines(content: &str) -> Vec<String> {
    split_lines(content).into_iter().take(6).collect()
}

/// Opens the log of a file `name` holding `content`.
fn open_log(name: &str, content: &str) -> Result<Log, &'static str> {
    Log::try_new(name, content.len() as u64, &header_lines(content)).expect("user id fits")
}

/// Reads one record of the in-memory file `content`, as the program does
/// with a real file; `pos` is where the open file stands.
fn read_record(log: &mut Log, content: &str, pos: &mut usize) -> Option<String> {
    let len = if log.is_reading() { None } else { Some(content.len() as u64) };
    match log.begin_read(len) {
        ReadStart::Done(r) => return r,
        ReadStart::OpenAt(off) => *pos = off as usize,
        ReadStart::ReadLines => {}
    }
    loop {
        let rest = &content[*pos..];
        let line = match rest.find('\n') {
            Some(p) => &rest[..p + 1],
            None => rest,
        };
        *pos += line.len();
        if let Some(f) = log.feed_fault(line, line.len() as u64) {
            panic!("{f:?}");
        }
        match log.feed_line(line.to_string(), line.len() as u64) {
            LineStep::Done(r) => return r,
            LineStep::ReadMore => {}
        }
    }
}

fn read_all(log: &mut Log, content: &str) -> Vec<String> {
    let mut pos = 0usize;
    let mut out = Vec::new();
    while let Some(r) = read_record(log, content, &mut pos) {
        out.push(r);
    }
    out
}

fn header(listener: &str) -> String {
    format!(
        "------------------------------------------------------------\n  Gamelog\n  Listener: {listener}\n  Session Started: 2022.06.30 19:15:51\n------------------------------------------------------------\n"
    )
}

fn body_0000000000() -> String {
    let mut body = String::new();
    for i in 0..12 {
        body.push_str(&format!("[ 2022.06.30 19:16:{:02} ] (combat) #{i}#\n", i));
        if i == 7 {
            body.push_str("#7.2#\n");
        }
        if i == 11 {
            body.push_str("#11.2#\n#11.3#\n");
        }
    }
    body
}

fn file_content(name: &str) -> Option<String> {
    match name {
        "20220630_191551_0000000000.txt" => Some(header("Some User") + &body_0000000000()),
        "20220630_191551_4586487627.txt" => Some(
            header("Test User Name") + "[ 2022.06.30 19:16:00 ] (notify) Docking.\n",
        ),
        "20220630_191551_8779804650.txt" => Some(
            header("QWER TY1234 ASD") + "[ 2022.06.30 19:16:00 ] (None) Jumping.\n",
        ),
        r"bad_log\20220101_111111.txt" => Some(
            "2022.01.01 11:11:11 Launcher started\n2022.01.01 11:11:12 Updating\n".to_string(),
        ),
        r"bad_log\20220101_111111_0000000001.txt" => Some(
            "Gamelog\n  Gamelog\n  Listener: Some User\n  Session Started: 2022.01.01 11:11:11\n------------------------------------------------------------\n"
                .to_string(),
        ),
        r"bad_log\20220101_111111_0000000002.txt" => Some(
            "------------------------------------------------------------\nGamelog\n  Listener: Some User\n  Session Started: 2022.01.01 11:11:11\n------------------------------------------------------------\n"
                .to_string(),
        ),
        _ => None,
    }
}

fn l_pb_new(s: &str) -> Result<Log, &'static str> {
    match file_content(s) {
        None => Err("cant get file metadata"),
        Some(content) => {
            let name = s.rsplit('\\').next().unwrap();
            open_log(name, &content)
        }
    }
}

#[test]
fn Log_new_ok() {
    for k in [
        "20220630_191551_0000000000.txt",
        "20220630_191551_4586487627.txt",
        "20220630_191551_8779804650.txt",
    ] {
        let res = l_pb_new(k);
        assert!(res.is_ok(), "{k}");
    }
}

#[test]
fn Log_new_err() {
    for (k, v) in [
        (r"bad_log\20220630_123456_1234567890.txt", "file not exists"),
        (r"bad_log\20220101_111111.txt", "only launcher log"),
        (r"bad_log\20220101_111111_0000000001.txt", "Bad Header #1"),
        (r"bad_log\20220101_111111_0000000002.txt", "Bad Header #2"),
    ] {
        let res = l_pb_new(k);
        assert!(res.is_err(), "{v}");
    }
}

#[test]
fn file_20220630_191551_0000000000() {
    let res = l_pb_new("20220630_191551_0000000000.txt");

    assert!(res.is_ok());
    let mut l = res.unwrap();

    assert_eq!(l.user_name, "Some User");
    assert_eq!(l.user_id, 0u64);

    let content = file_content("20220630_191551_0000000000.txt").unwrap();
    let lines = read_all(&mut l, &content);

    assert!(lines[0].find("(combat) #0#").is_some());
    assert!(lines[7].find("#7#").is_some());
    assert!(lines[7].find("#7.2#").is_some());
    assert!(lines[11].find("#11.3#").is_some());
}

#[test]
fn file_20220630_191551_4586487627() {
    let res = l_pb_new("20220630_191551_4586487627.txt");

    assert!(res.is_ok());
    let l = res.unwrap();

    assert_eq!(l.user_name, "Test User Name");
    assert_eq!(l.user_id, 4586487627u64);
}

#[test]
fn file_20220630_191551_8779804650() {
    let res = l_pb_new("20220630_191551_8779804650.txt");

    assert!(res.is_ok());
    let l = res.unwrap();

    assert_eq!(l.user_name, "QWER TY1234 ASD");
    assert_eq!(l.user_id, 8779804650u64);
}

#[test]
fn log_records_keep_the_body_text() {
    let content = file_content("20220630_191551_0000000000.txt").unwrap();
    let mut l = l_pb_new("20220630_191551_0000000000.txt").unwrap();
    let records = read_all(&mut l, &content);
    assert_eq!(records.len(), 12);
    assert_eq!(records.concat(), body_0000000000());
    assert!(records.iter().all(|r| r.starts_with("[ ")));
    assert_eq!(records[7], "[ 2022.06.30 19:16:07 ] (combat) #7#\n#7.2#\n");
    assert_eq!(records[11], "[ 2022.06.30 19:16:11 ] (combat) #11#\n#11.2#\n#11.3#\n");
    assert!(!l.is_changed(content.len() as u64));
    assert!(l.is_changed(content.len() as u64 + 1));
}

#[test]
fn log_reads_appended_records() {
    let content = file_content("20220630_191551_4586487627.txt").unwrap();
    let mut l = l_pb_new("20220630_191551_4586487627.txt").unwrap();
    let first = read_all(&mut l, &content);
    assert_eq!(first, vec!["[ 2022.06.30 19:16:00 ] (notify) Docking.\n".to_string()]);
    assert!(!l.is_reading());
    assert!(read_all(&mut l, &content).is_empty());
    let grown = content.clone() + "[ 2022.06.30 19:17:00 ] (notify) Undocking.\n";
    assert!(l.is_changed(grown.len() as u64));
    let second = read_all(&mut l, &grown);
    assert_eq!(second, vec!["[ 2022.06.30 19:17:00 ] (notify) Undocking.\n".to_string()]);
    assert!(read_all(&mut l, &grown).is_empty());
}

#[test]
fn log_reads_records_appended_after_a_multiline_record() {
    let content = header("Some User") + "[ 1 ] a\n  c\n";
    let mut l = open_log("20220630_191551_0000000000.txt", &content).unwrap();
    assert_eq!(read_all(&mut l, &content), vec!["[ 1 ] a\n  c\n".to_string()]);
    let grown = content.clone() + "[ 2 ] b\n";
    assert_eq!(read_all(&mut l, &grown), vec!["[ 2 ] b\n".to_string()]);
    assert!(read_all(&mut l, &grown).is_empty());
}

#[test]
fn log_language_is_detected() {
    let l = l_pb_new("20220630_191551_0000000000.txt").unwrap();
    assert_eq!(l.language, "english");
    assert!(l.language_known());
    assert!(!l.ignored);

    let ru = header("Some User").replace("  Listener: ", "  Слушатель: ");
    let l = open_log("20220630_191551_0000000001.txt", &ru).unwrap();
    assert_eq!(l.language, "russian");
    assert_eq!(l.user_id, 1);
}

#[test]
fn log_new_errors_name_the_failed_check() {
    let no_lang = header("Some User").replace("  Listener: ", "  Someone: ");
    assert_eq!(
        open_log("20220630_191551_0000000001.txt", &no_lang).err(),
        Some("problem with detecting language")
    );
    assert_eq!(
        open_log("log.txt", &header("Some User")).err(),
        Some("bad file name format(timestamp + user_id)")
    );
    let launcher = file_content(r"bad_log\20220101_111111.txt").unwrap();
    assert_eq!(
        open_log("20220101_111111.txt", &launcher).err(),
        Some("Header parse error: line #0")
    );
}

#[test]
fn log_new_refuses_an_id_too_large() {
    let content = header("Some User");
    let lines = header_lines(&content);
    assert!(Log::try_new("20220630_191551_99999999999999999999.txt", 10, &lines).is_none());
    assert!(Log::try_new("20220630_191551_18446744073709551615.txt", 10, &lines).is_some());
}
