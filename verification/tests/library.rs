use eve_log::dir_watcher::{is_log_entry_kind, is_log_file_name, DirWatcher};
use eve_log::language::{generate_language, LineKind, LogLanguage};
use eve_log::log::{head_ok, normalize_line, Log, FIELD_SEPARATOR};
use eve_log::log_entry::{split_pilot, LogEntry};
use eve_log::text::{
    byte_slice, count_char, parse_i64, parse_u64, split_on, str_contains, str_eq, str_starts_with,
};

fn english_log() -> Log {
    let lines: Vec<String> = vec![
        "------------------------------------------------------------\n".to_string(),
        "  Gamelog\n".to_string(),
        "  Listener: Some User\n".to_string(),
        "  Session Started: 2022.06.30 19:15:51\n".to_string(),
        "------------------------------------------------------------\n".to_string(),
    ];
    Log::new("20220630_191551_2117846337.txt", 400, &lines).unwrap()
}

#[test]
fn parse_numbers_as_std_does() {
    for s in ["0", "123", "+5", "", "+", "-", "-1", "12a", " 1", "18446744073709551615",
              "18446744073709551616", "00042", "99999999999999999999999"] {
        assert_eq!(parse_u64(s), s.parse::<u64>().ok(), "{s:?}");
    }
    for s in ["0", "-0", "+7", "-42", "", "-", "+", "9223372036854775807", "9223372036854775808",
              "-9223372036854775808", "-9223372036854775809", "1_0", "٣"] {
        assert_eq!(parse_i64(s), s.parse::<i64>().ok(), "{s:?}");
    }
    assert_eq!(parse_i64("-9223372036854775808"), Some(i64::MIN));
    assert_eq!(parse_u64("18446744073709551615"), Some(u64::MAX));
}

#[test]
fn string_routines() {
    assert!(str_contains("  Listener: Me\n", "  Listener: "));
    assert!(!str_contains("  Listen: Me\n", "  Listener: "));
    assert!(str_contains("abc", ""));
    assert!(!str_contains("", "a"));
    assert!(str_starts_with("[ 2022", "[ "));
    assert!(!str_starts_with("x [ 2022", "[ "));
    assert!(str_eq("combat", "combat"));
    assert!(!str_eq("combat", "combat "));
    assert_eq!(count_char("20220619_201441_2117846337.txt", '_'), 2);
    assert_eq!(count_char("", '_'), 0);
    assert_eq!(split_on("a█b██c", '█'), vec!["a", "b", "", "c"]);
    assert_eq!(split_on("", '█'), vec![""]);
    assert_eq!(split_on("█", '█'), vec!["", ""]);
    assert_eq!(byte_slice("héllo", 1, 3), Some("é"));
    assert_eq!(byte_slice("héllo", 1, 2), None);
    assert_eq!(byte_slice("héllo", 3, 2), None);
    assert_eq!(byte_slice("héllo", 0, 7), None);
    assert_eq!(byte_slice("héllo", 3, 6), Some("llo"));
}

#[test]
fn split_fields_join_back() {
    for s in ["", "█", "a█b██c", "[ 2022.06.30 19:47:05 ] (combat)█39█from█A█B", "no separator"] {
        let parts = split_on(s, '█');
        assert_eq!(parts.join("█"), s);
        assert!(parts.iter().all(|p| !p.contains('█')));
    }
}

#[test]
fn language_table_is_keyed_by_name() {
    let table = generate_language();
    let names: Vec<&str> = table.iter().map(|l| l.name()).collect();
    assert_eq!(names, vec!["english", "russian", "french", "german", "japanese", "chinese"]);
    assert_eq!(table[0].character(), "  Listener: ");
    assert_eq!(table[1].character(), "  Слушатель: ");
    let custom = LogLanguage::new(
        "x", "c", "s", "to", "from", "a", "b", "c2", "d", "e", "f", "g", "h", "i", "j", "k", "l", "m",
    );
    assert_eq!(custom.name(), "x");
    assert_eq!(custom.character(), "c");
}

#[test]
fn combat_kinds_by_field_count() {
    let english = &generate_language()[0];
    let k = |s: &str| english.combat_kind(&split_on(s, '█'));
    assert_eq!(k("t█39█from█Anchoring Damavik█Glances Off"), LineKind::DamageInPve);
    assert_eq!(
        k("t█20 GJ█energy neutralized█Faded Hypnosian Warden█Faded Hypnosian Warden"),
        LineKind::CapNeutIn
    );
    assert_eq!(k("t█1█x█y█z"), LineKind::UnsupportedFive);
    assert_eq!(
        k("t█Warp scramble attempt█from█Raznaborg Anchoring Damavik█to█State Navy Rook"),
        LineKind::ModuleUse
    );
    assert_eq!(
        k("t█1814█to█Raznaborg Blinding Leshak█Veles Supratidal Entropic Disintegrator█Smashes"),
        LineKind::DamageOut
    );
    assert_eq!(
        k("t█82█from█Username[CTAG](Vargur)█Imperial Navy Large EMP Smartbomb█Hits"),
        LineKind::DamageInPvp
    );
    assert_eq!(k("t█1█x█y█z█w"), LineKind::UnsupportedSix);
    assert_eq!(
        k("t█351█remote capacitor transmitted by█Leshak█[REKTD]█[PSST.]█[Dalliloule Nardieu]█Large Remote Capacitor Transmitter II"),
        LineKind::CapTransferedIn
    );
    assert_eq!(
        k("t█257█remote armor repaired to█Leshak█[REKTD]█[PSST.]█[Dalliloule Nardieu]█Large Remote Armor Repairer II"),
        LineKind::ArmorRepairedOut
    );
    // "energy neutralized" is the outgoing phrase first in English.
    assert_eq!(k("t█1█energy neutralized█a█b█c█d█e"), LineKind::CapNeutralizedOut);
    assert_eq!(k("t█1█energy drained to█a█b█c█d█e"), LineKind::NosTaken);
    assert_eq!(k("t█1█x█a█b█c█d█e"), LineKind::UnsupportedEight);
    assert_eq!(k("t█1█x█a█b█c█d"), LineKind::Ignored);
}

#[test]
fn normalized_lines_are_classified() {
    let raw = "[ 2022.06.30 19:47:05 ] (combat) <b>39</b> from <b>Anchoring Damavik</b> - Glances Off\n";
    let n = normalize_line(raw);
    assert_eq!(n, "[ 2022.06.30 19:47:05 ] (combat)█39█from█Anchoring Damavik█Glances Off");
    assert!(head_ok(&n));
    let log = english_log();
    assert_eq!(log.classify_normalized(&n), LineKind::DamageInPve);
    assert_eq!(split_on(&n, FIELD_SEPARATOR).len(), 5);

    let notify = normalize_line("[ 2022.06.30 19:47:05 ] (notify) Docking. \n");
    assert!(head_ok(&notify));
    assert_eq!(log.classify_normalized(&notify), LineKind::Ignored);

    assert!(!head_ok("[ 2022.06.30 ] (combat)"));
    assert!(!head_ok("[ 2022.06.30 19:47:0é ] (combat)"));
}

#[test]
fn normalizing_cleans_separators() {
    assert_eq!(normalize_line("a\r\nb"), "ab");
    assert_eq!(normalize_line("a<x>b"), "a█b");
    assert_eq!(normalize_line("a <x> - <y>b"), "a█b");
    assert_eq!(normalize_line("a<x><y>b"), "a█b");
    assert_eq!(normalize_line("a<x>b."), "a█b");
    assert_eq!(normalize_line("a.<x>,b"), "a█b");
}

#[test]
fn log_entry_builder() {
    let mut e = LogEntry::n("2022.06.30 19:47:05");
    e.act("damage_out").to("Leshak").module("Disintegrator").amount(1814).hit_type("Smashes");
    assert_eq!(e.timestamp, "2022.06.30 19:47:05");
    assert_eq!(e.action, "damage_out");
    assert_eq!(e.to, "Leshak");
    assert_eq!(e.module, "Disintegrator");
    assert_eq!(e.amount, 1814);
    assert_eq!(e.hit_type, "Smashes");
    assert_eq!(e.from, "");
    e.amount_str("-42");
    assert_eq!(e.amount, -42);
    e.from("Me");
    assert_eq!(e.from, "Me");

    let d = LogEntry::default();
    assert_eq!(d.timestamp, "");
    assert_eq!(d.amount, 0);

    let full = LogEntry::new("t", "a", "f", "to", "m", 5, "h", "fc", "fa", "fs", "tc", "ta", "ts");
    assert_eq!(full.from_alli, "fa");
    assert_eq!(full.to_ship, "ts");
}

#[test]
fn log_entry_pilot_fields() {
    assert_eq!(split_pilot("Username[CTAG](Vargur)"), Some(("Username", "CTAG", "Vargur")));
    assert_eq!(split_pilot("Anchoring Damavik"), None);
    let mut e = LogEntry::n("t");
    e.from_adv("Username[CTAG](Vargur)");
    assert_eq!((e.from, e.from_corp, e.from_ship), ("Username", "CTAG", "Vargur"));
    e.from_adv("Anchoring Damavik");
    assert_eq!(e.from, "Anchoring Damavik");
    assert_eq!(e.from_corp, "CTAG");
    e.to_adv("A[B](C)");
    assert_eq!((e.to, e.to_corp, e.to_ship), ("A", "B", "C"));
    assert!(!e.try_to_adv("plain"));
    assert_eq!(e.to, "A");
    assert!(e.try_to_adv("X[Y[Z](W)"));
    assert_eq!((e.to, e.to_corp, e.to_ship), ("X[Y", "Z", "W"));
}

#[test]
fn folder_entries_that_are_logs() {
    assert!(is_log_entry_kind(false, Some("txt")));
    assert!(!is_log_entry_kind(true, Some("txt")));
    assert!(!is_log_entry_kind(false, Some("log")));
    assert!(!is_log_entry_kind(false, None));
    assert!(is_log_file_name("20220619_201441_2117846337.txt"));
    assert!(!is_log_file_name("20220619_201441.txt"));
    assert!(!is_log_file_name("2022_0619_201441_2117846337.txt"));
    let w = DirWatcher::new("logs".to_string());
    assert_eq!(w.path(), "logs");
}
