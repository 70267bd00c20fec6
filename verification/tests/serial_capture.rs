use wiparse_gui::capture::{
    drain_events, next_strict_timestamp, stamped_line, strip_tx_prefix, PortError, PortSettings,
    SerialEvent,
};
use wiparse_gui::files::{
    elide_tab_title, elide_tab_title_to_width, ellipsize_to_width, is_file_lock_error, is_log_extension, live_capture_is_empty, name_extension, name_stem, next_write_step,
    normalize_path, normalize_resolved, normalized_log_name, rename_log_path, same_log_path,
    same_resolved_path, sanitize_photo_stem,
    short_resource, truncate_chars, RenameStep, WriteStep,
};
use wiparse_gui::tabs::{adjacent_tab_index, tab_wheel_switch_allowed};

#[test]
fn log_name_validation_rejects_windows_reserved_characters() {
    assert_eq!(normalized_log_name("  capture  "), Ok("capture".into()));
    assert!(normalized_log_name("").is_err());
    assert!(normalized_log_name("bad:name").is_err());
    assert!(normalized_log_name("bad.").is_err());
}

#[test]
fn open_file_identity_accepts_equivalent_windows_paths() {
    assert!(same_log_path(r"D:\logs\capture.txt", "d:/logs/capture.txt"));
    assert!(!same_log_path(r"D:\logs\capture.txt", r"D:\logs\other.txt"));
}

#[test]
fn live_timestamp_uses_canonical_millisecond_separator() {
    let now: u64 = (13 * 3600 + 7 * 60 + 5) * 1_000_000_000 + 42_000_000;
    let mut last: u64 = now - 1_000_000_000;
    let timestamp = next_strict_timestamp(&mut last, now);
    assert_eq!(timestamp.as_bytes().get(9), Some(&b'.'));
    assert_eq!(timestamp.len(), 14);
    assert_eq!(timestamp, "[13:07:05.042]");
    assert_eq!(last, now);
}

#[test]
fn time_stamps_never_repeat() {
    let now: u64 = 1_000_000_000;
    let mut last: u64 = now;
    assert_eq!(next_strict_timestamp(&mut last, now), "[00:00:01.001]");
    assert_eq!(last, now + 1_000_000);
    assert_eq!(next_strict_timestamp(&mut last, now), "[00:00:01.002]");
    assert_eq!(next_strict_timestamp(&mut last, now + 1_500_000), "[00:00:01.003]");
    let mut last: u64 = 0;
    let first = next_strict_timestamp(&mut last, 1_000_001);
    let second = next_strict_timestamp(&mut last, 1_000_500);
    assert_eq!(first, "[00:00:00.001]");
    assert_eq!(second, "[00:00:00.002]");
    assert!(first < second);
    assert!(second < next_strict_timestamp(&mut last, 2_000_400));
    assert_eq!(stamped_line("[00:00:01.003]", "hello"), "[00:00:01.003] hello");
}

#[test]
fn mouse_wheel_tab_switching_stops_at_ends() {
    assert_eq!(adjacent_tab_index(0, 4, -1), 0);
    assert_eq!(adjacent_tab_index(1, 4, -1), 0);
    assert_eq!(adjacent_tab_index(1, 4, 1), 2);
    assert_eq!(adjacent_tab_index(3, 4, 1), 3);
    assert_eq!(adjacent_tab_index(7, 4, 0), 3);
    assert!(tab_wheel_switch_allowed(None, 1_000_000));
    assert!(!tab_wheel_switch_allowed(Some(1_000_000), 1_100_000));
    assert!(tab_wheel_switch_allowed(Some(1_000_000), 1_240_000));
}

#[test]
fn renaming_moves_a_file_and_overwrites_none() {
    assert_eq!(rename_log_path(false, true, false), RenameStep::Move);
    assert_eq!(rename_log_path(false, true, true), RenameStep::Refuse);
    assert_eq!(rename_log_path(true, true, true), RenameStep::Nothing);
    assert_eq!(rename_log_path(false, false, true), RenameStep::Nothing);
}

#[test]
fn live_capture_empty_detects_bom_only_and_memory_lines() {
    let bom_only: Vec<u8> = b"\xEF\xBB\xBF".to_vec();
    let with_data: Vec<u8> = b"\xEF\xBB\xBFline\n".to_vec();

    assert!(live_capture_is_empty(0, None));
    assert!(live_capture_is_empty(0, Some(&bom_only)));
    assert!(!live_capture_is_empty(0, Some(&with_data)));
    assert!(!live_capture_is_empty(3, Some(&bom_only)));
}

#[test]
fn only_a_byte_order_mark_is_no_content() {
    assert!(!live_capture_is_empty(0, Some(&b"hi\n".to_vec())));
    assert!(live_capture_is_empty(0, Some(&Vec::new())));
    assert!(!live_capture_is_empty(1, Some(&Vec::new())));
    assert!(!live_capture_is_empty(0, Some(&b"\xEF\xBB\xBFl".to_vec())));
    assert!(!live_capture_is_empty(0, Some(&b"\xEF\xBB".to_vec())));
}

#[test]
fn names_are_refused_one_by_one() {
    for c in ['<', '>', ':', '"', '/', '\\', '|', '?', '*', '\u{7}'] {
        let name: String = format!("a{c}b");
        assert_eq!(normalized_log_name(&name), Err(()));
    }
    assert_eq!(normalized_log_name("日志.2024"), Ok("日志.2024".to_string()));
}

#[test]
fn paths_of_existing_files_are_resolved() {
    let here = std::path::Path::new(".").canonicalize().unwrap();
    let expected = normalize_resolved(Some(here.to_string_lossy().into_owned()), ".");
    assert_eq!(normalize_path("."), expected);
    assert_ne!(normalize_path("."), ".");
    assert!(same_log_path(".", "./."));
    let resolved = || Some("C:\\logs\\a.txt".to_string());
    assert!(same_resolved_path(resolved(), "a.txt", None, "c:/logs/A.txt"));
    assert!(!same_resolved_path(resolved(), "a.txt", None, "a.txt"));
    assert_eq!(normalize_path("no/such/file.txt"), "no\\such\\file.txt");
}

#[test]
fn titles_and_resources_are_shortened() {
    assert_eq!(truncate_chars("中文字符", 2), "中…");
    assert_eq!(truncate_chars("中文", 2), "中文");
    assert_eq!(elide_tab_title("short", 10), "short");
    let long = elide_tab_title("a_very_long_capture_name", 8);
    assert!(long.chars().count() <= 8);
    assert!(long.contains('…'));
    assert_eq!(short_resource("USB0"), "USB0");
}

#[test]
fn titles_are_cut_to_what_fits() {
    let fits = vec![true, true, true, false, false];
    assert_eq!(elide_tab_title_to_width("波形图片", true, &fits), "波形图片");
    assert_eq!(elide_tab_title_to_width("波形图片", false, &fits), "波形…");
    assert_eq!(elide_tab_title_to_width("abcd", false, &vec![true, true, false, true]), "abc…");
    assert_eq!(elide_tab_title_to_width("abcd", false, &vec![]), "…");
    assert_eq!(ellipsize_to_width("abcd", true, &fits), "abcd");
    assert_eq!(ellipsize_to_width("abcd", false, &fits), "ab…");
    assert_eq!(ellipsize_to_width("abcd", false, &vec![true, true, false, true]), "a…");
    assert_eq!(ellipsize_to_width("abcd", false, &vec![false; 5]), "…");
}

#[test]
fn only_logs_are_opened_when_dropped() {
    assert!(is_log_extension("TXT"));
    assert!(is_log_extension("log"));
    assert!(!is_log_extension("csv"));
    assert!(!is_log_extension(""));
}

#[test]
fn a_locked_file_is_tried_again() {
    assert!(is_file_lock_error(Some(32), false));
    assert!(!is_file_lock_error(Some(2), false));
    assert!(is_file_lock_error(Some(5), false));
    assert!(is_file_lock_error(None, true));
    assert_eq!(next_write_step(1, true, false), WriteStep::Done);
    assert_eq!(next_write_step(1, false, false), WriteStep::Fail);
    assert_eq!(next_write_step(11, false, true), WriteStep::Retry);
    assert_eq!(next_write_step(12, false, true), WriteStep::Fail);
}

#[test]
fn events_of_a_frame_become_lines_and_notices() {
    let d = drain_events(
        vec!["old".into()],
        vec![
            SerialEvent::Status("open COM3".into()),
            SerialEvent::Line("a".into()),
            SerialEvent::Error("framing".into()),
            SerialEvent::Stopped,
            SerialEvent::Line("lost".into()),
        ],
    );
    assert_eq!(d.batch, vec!["old".to_string(), "a".into(), "[ERR] framing".into()]);
    assert!(d.pending.is_empty());
    assert_eq!(d.status, Some("framing".to_string()));
    assert_eq!(d.notices, vec!["open COM3".to_string(), "error: framing".into()]);
    assert!(d.stopped);
}

#[test]
fn transmitter_tags_are_stripped() {
    assert_eq!(strip_tx_prefix("  TX0: hello"), "hello");
    assert_eq!(strip_tx_prefix("TX1：你好"), "你好");
    assert_eq!(strip_tx_prefix("TX2: hello"), "TX2: hello");
}

#[test]
fn ports_and_speeds_are_chosen() {
    let mut port = PortSettings::new(vec!["COM1".into(), "COM2".into()], Vec::new());
    assert_eq!(port.chosen(), Ok(("COM1".to_string(), 115200)));
    port.override_port("COM2");
    port.override_baud(2000000);
    assert!(!port.baud_custom);
    assert_eq!(port.chosen(), Ok(("COM2".to_string(), 2000000)));
    port.override_port("COM9");
    port.override_baud(9600);
    assert!(port.baud_custom);
    assert_eq!(port.shown(), ("COM9".to_string(), 9600));
    port.edit_baud("96x");
    assert_eq!(port.baud, "96");
    port.edit_baud("none");
    assert_eq!(port.chosen(), Err(PortError::BadBaud));
    port.refresh_ports(Vec::new());
    assert_eq!(port.chosen(), Err(PortError::NoPort));
    port.choose_baud(0);
    port.choose_custom_baud();
    assert_eq!(port.baud, "");
}

#[test]
fn photo_stems_are_made_once() {
    for (raw, stem) in [("  DHO/924 ", "DHO_924"), ("a\u{7}b:", "a_b_"), (" \t ", ""), ("/x", "_x")] {
        assert_eq!(sanitize_photo_stem(raw), stem);
        assert_eq!(sanitize_photo_stem(stem), stem);
    }
}

#[test]
fn names_part_at_their_last_dot() {
    for name in ["a.isf", "a.b.c", ".hidden", "..", "plain", "end.", ".a.b", "日志.txt", "..x", ""] {
        let path = std::path::Path::new(name);
        let extension = path.extension().map(|e| e.to_str().unwrap().to_owned());
        assert_eq!(name_extension(name), extension);
        if let Some(stem) = path.file_stem() {
            assert_eq!(name_stem(name), stem.to_str().unwrap());
        }
    }
    assert_eq!(name_stem("a.b.c"), "a.b");
    assert_eq!(name_extension("a.b.c").as_deref(), Some("c"));
    assert_eq!(name_extension(".hidden"), None);
    assert_eq!(name_extension("end.").as_deref(), Some(""));
}
