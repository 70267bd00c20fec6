use wiparse_gui::browser::{
    browse_start, browser_files, browser_folders, browser_root, browser_stale, order_by_key,
    sort_order, ScannedFile, ScannedFolder,
};
use wiparse_gui::capture::{PortSettings, SerialEvent};
use wiparse_gui::log_tab::{LogTabPage, ViewIds};
use wiparse_gui::pane::{FilterScan, TextHit};
use wiparse_gui::serial::{
    CommitPlan, LinesRequest, LogFile, MoveError, NameFacts, SerialStatus, SerialToolPanel,
    StartError,
};
use wiparse_gui::tabs::{tab_menu, LoadEvent, TabBar, TabMenuAction};

fn empty_scan() -> FilterScan {
    FilterScan { no_needles: true, hits: Vec::new(), truncated: false }
}

fn open(bar: &mut TabBar, ids: &mut ViewIds, path: &str, stem: &str) -> usize {
    let same = bar.tabs_showing(path);
    bar.open_tab(ids, path.into(), Some(stem.into()), 100, &same)
}

fn bar_of(ids: &mut ViewIds, files: usize) -> TabBar {
    let mut bar = TabBar::new(LogTabPage::live_tab(ids, "Live".into(), 100, 100));
    for i in 0..files {
        open(&mut bar, ids, &format!("no/such/file{i}.log"), &format!("file{i}"));
    }
    bar
}

fn panel_of(ids: &mut ViewIds) -> SerialToolPanel {
    let port = PortSettings::new(vec!["COM3".into()], Vec::new());
    let live = LogTabPage::live_tab(ids, "Live".into(), 100, 100);
    SerialToolPanel::new(port, "capture".into(), "logs".into(), "logs".into(), live)
}

fn log_file(path: &str, extension: &str) -> LogFile {
    LogFile {
        exists: true,
        extension: extension.into(),
        parent: Some("dir".into()),
        path: path.into(),
        stem: Some("stem".into()),
    }
}

#[test]
fn closing_a_tab_keeps_the_one_in_front() {
    let mut ids = ViewIds::new();
    let mut bar = bar_of(&mut ids, 3);
    bar.active = 3;
    let front = bar.tabs[3].view_id;
    assert!(!bar.close_tab(0));
    assert!(bar.close_tab(1));
    assert_eq!(bar.tabs[bar.active].view_id, front);
    assert!(bar.tabs[0].live);
    assert!(bar.close_tab(2));
    assert_eq!(bar.tabs.len(), 2);
    assert_eq!(bar.active, 1);
}

#[test]
fn loads_stay_on_their_tabs() {
    let mut ids = ViewIds::new();
    let mut bar = bar_of(&mut ids, 3);
    assert_eq!(bar.loads, vec![1, 2, 3]);
    assert!(bar.close_tab(2));
    assert_eq!(bar.loads, vec![1, 2]);
    bar.settle_loads(&vec![true, false]);
    assert_eq!(bar.loads, vec![2]);
}

#[test]
fn menus_close_tabs_at_both_sides() {
    let mut ids = ViewIds::new();
    let mut bar = bar_of(&mut ids, 4);
    let menu = tab_menu(2, 5);
    assert!(menu.close_current && menu.close_left && menu.close_right && menu.close_all);
    assert!(!tab_menu(0, 5).close_current);
    assert!(bar.run_menu(TabMenuAction::CloseLeft(3)));
    assert_eq!(bar.tabs.len(), 3);
    assert!(bar.run_menu(TabMenuAction::CloseRight(1)));
    assert_eq!(bar.tabs.len(), 2);
    assert!(bar.run_menu(TabMenuAction::CloseAll));
    assert_eq!(bar.tabs.len(), 1);
}

#[test]
fn a_file_is_opened_once() {
    let mut ids = ViewIds::new();
    let mut bar = bar_of(&mut ids, 1);
    let first = open(&mut bar, &mut ids, r"D:\logs\a.txt", "a");
    let again = open(&mut bar, &mut ids, "d:/logs/a.txt", "a");
    assert_eq!(first, again);
    assert_eq!(bar.tabs.len(), 3);
    assert_eq!(bar.collect_open_log_paths().len(), 2);
    let list = bar.tab_list();
    assert!(list[0].live);
    assert_eq!(list[2].title, "a");
}

#[test]
fn opening_a_file_twice_gives_the_same_tab() {
    let mut ids = ViewIds::new();
    let mut panel = panel_of(&mut ids);
    let first = panel.open_path(&mut ids, &log_file("no/such/a.log", "log"), 100);
    assert_eq!(first, Some(1));
    assert_eq!(panel.bar.tabs[1].filepath.as_deref(), Some("no/such/a.log"));
    panel.status = SerialStatus::Ready;
    assert_eq!(panel.open_path(&mut ids, &log_file("NO\\such\\A.log", "log"), 100), first);
    assert_eq!(panel.bar.tabs.len(), 2);
    assert!(matches!(panel.status, SerialStatus::Ready));
    let mut missing = log_file("no/such/b.log", "log");
    missing.exists = false;
    assert_eq!(panel.open_path(&mut ids, &missing, 100), None);
    assert_eq!(panel.bar.tabs.len(), 2);
    assert_eq!(panel.open_file(&mut ids, &log_file("b", "log"), 100, &vec![false, true]), Some(1));
    assert_eq!(panel.open_file(&mut ids, &log_file("b", "log"), 100, &vec![false, false]), Some(2));
}

#[test]
fn put_off_filters_end_where_immediate_ones_do() {
    let hit = |row: usize| TextHit { row, start: 0, end: 3 };
    let scan = |hits: Vec<TextHit>| FilterScan { no_needles: false, hits, truncated: false };
    let mut ids = ViewIds::new();
    let mut panel = panel_of(&mut ids);
    panel.show_lines(vec!["ASK a".into(), "b".into()], true, vec![empty_scan()]);
    panel.bar.tabs[0].panes[0].filter_draft = "ASK".into();
    panel.bar.tabs[0].apply_filter(0, scan(vec![hit(0)]));
    panel.show_lines(vec!["ASK c".into()], true, vec![scan(vec![hit(2)])]);
    let rows = |panel: &SerialToolPanel| -> Vec<usize> {
        panel.bar.tabs[0].panes[0].find_hits.iter().map(|h| h.row).collect()
    };
    assert_eq!(rows(&panel), vec![0, 2]);
    panel.show_lines(vec!["ASK d".into()], false, vec![empty_scan()]);
    assert_eq!(rows(&panel), vec![0, 2]);
    let all = || vec![scan(vec![hit(0), hit(2), hit(3)])];
    panel.bar.active = 1;
    panel.sync_visible_live_filters(all());
    assert_eq!(rows(&panel), vec![0, 2]);
    panel.bar.active = 0;
    panel.sync_visible_live_filters(all());
    assert_eq!(rows(&panel), vec![0, 2, 3]);
    panel.sync_visible_live_filters(vec![empty_scan()]);
    assert_eq!(rows(&panel), vec![0, 2, 3]);
}

#[test]
fn the_log_is_opened_last() {
    let mut ids = ViewIds::new();
    let mut panel = panel_of(&mut ids);
    assert!(panel.start_opens_log(true, &None, Some(9600)));
    assert!(!panel.start_opens_log(true, &None, Some(0)));
    assert!(panel.start_opens_log(false, &Some("COM9".into()), Some(9600)));
    panel.refresh_ports(Vec::new());
    assert!(!panel.start_opens_log(true, &None, Some(9600)));
    assert!(panel.start_opens_log(true, &Some("COM9".into()), Some(9600)));
    panel.capture.name = "other".into();
    assert!(!panel.start_opens_log(false, &Some("COM9".into()), Some(9600)));
    assert!(panel.start_opens_log(true, &Some("COM9".into()), Some(9600)));
    let failed = panel.api_start_monitor(true, None, Some(9600), Err("full".into()));
    assert!(matches!(failed, Err(StartError::NoPort)));
    let failed = panel.api_start_monitor(true, Some("COM9".into()), None, Err("full".into()));
    assert!(matches!(failed, Err(StartError::File(m)) if m == "full"));
}

#[test]
fn loading_reports_reach_their_tab() {
    let mut ids = ViewIds::new();
    let mut panel = panel_of(&mut ids);
    let tab = panel.open_path(&mut ids, &log_file("no/such/a.log", "log"), 100).unwrap();
    assert!(matches!(&panel.status, SerialStatus::Loading(p) if p == "no/such/a.log"));
    assert!(!panel.apply_load_event(tab, LoadEvent::Progress { indexed: 10 }));
    assert_eq!(panel.bar.tabs[tab].index_progress, 10);
    assert!(panel.apply_load_event(
        tab,
        LoadEvent::Done { lines: vec!["x".into()], scans: vec![empty_scan()] }
    ));
    assert_eq!(panel.bar.tabs[tab].line_count(), 1);
    assert!(panel.apply_load_event(tab, LoadEvent::Failed("gone".into())));
}

#[test]
fn dropped_files_are_opened_by_extension() {
    let mut ids = ViewIds::new();
    let mut panel = panel_of(&mut ids);
    assert_eq!(panel.open_dropped(&mut ids, &log_file("a.csv", "csv"), 100), None);
    assert_eq!(panel.open_dir, "logs");
    assert_eq!(panel.open_dropped(&mut ids, &log_file("a.TXT", "TXT"), 100), Some(1));
    assert_eq!(panel.open_dir, "dir");
    let mut missing = log_file("b.log", "log");
    missing.exists = false;
    assert_eq!(panel.open_dropped(&mut ids, &missing, 100), None);
}

#[test]
fn starting_twice_reports_the_running_capture() {
    let mut ids = ViewIds::new();
    let mut panel = panel_of(&mut ids);
    let started = panel.api_start_monitor(true, None, Some(9600), Ok(()));
    assert!(matches!(started, Ok((port, 9600)) if port == "COM3"));
    assert!(panel.is_monitoring());
    assert!(panel.needs_repaint());
    let again = panel.api_start_monitor(true, Some("COM8".into()), None, Ok(()));
    assert!(matches!(again, Ok((port, 9600)) if port == "COM3"));
    panel.api_stop_monitor();
    assert!(!panel.is_monitoring());
    assert!(matches!(panel.status, SerialStatus::Stopped));
}

#[test]
fn a_capture_needs_a_port() {
    let mut ids = ViewIds::new();
    let mut panel = panel_of(&mut ids);
    panel.refresh_ports(Vec::new());
    let started = panel.api_start_monitor(true, None, None, Ok(()));
    assert!(matches!(started, Err(StartError::NoPort)));
    panel.refresh_ports(vec!["COM1".into()]);
    assert!(matches!(panel.status, SerialStatus::PortCount(1)));
}

#[test]
fn frames_show_lines_and_stop_the_capture() {
    let mut ids = ViewIds::new();
    let mut panel = panel_of(&mut ids);
    panel.api_start_monitor(true, None, Some(9600), Ok(())).ok().unwrap();
    let frame = panel.drain_events(vec![
        SerialEvent::Status("open COM3".into()),
        SerialEvent::Line("a".into()),
        SerialEvent::Stopped,
    ]);
    assert!(frame.stopped);
    assert_eq!(frame.batch, vec!["a".to_string()]);
    assert_eq!(frame.notices, vec!["open COM3".to_string(), "stopped".into()]);
    assert!(!panel.is_monitoring());
    panel.show_lines(frame.batch, true, vec![empty_scan()]);
    assert_eq!(panel.api_recent_live_lines(5), vec!["a".to_string()]);
    let (tabs, active) = panel.api_tabs_list();
    assert_eq!((tabs.len(), active), (1, 0));
    let reply = panel
        .api_lines_get(LinesRequest { tab_id: Some(0), from_row: Some(0), limit: Some(10) })
        .unwrap();
    assert_eq!(reply.lines, vec!["a".to_string()]);
    assert!(panel
        .api_lines_get(LinesRequest { tab_id: Some(9), from_row: None, limit: None })
        .is_none());
    panel.clear_live_display(vec![empty_scan()]);
    assert_eq!(panel.api_recent_live_lines(5), Vec::<String>::new());
    panel.on_exit();
    assert!(matches!(panel.status, SerialStatus::Stopped));
}

#[test]
fn sorting_ignores_case() {
    let names = vec!["b".to_string(), "A".into(), "c".into()];
    assert_eq!(sort_order(&names), vec![1, 0, 2]);
    assert_eq!(order_by_key(&names), vec![1, 0, 2]);
}

#[test]
fn only_texts_are_listed() {
    let file = |name: &str, is_file: bool, ext: &str| ScannedFile {
        name: name.into(),
        is_file,
        extension: ext.into(),
        path: format!("dir/{name}"),
    };
    let shown = browser_files(&vec![
        file("b.txt", true, "txt"),
        file("A.txt", true, "TXT"),
        file("c.log", true, "log"),
        file("x.csv", true, "csv"),
        file("dir.txt", false, "txt"),
    ]);
    let names: Vec<&str> = shown.iter().map(|f| f.name.as_str()).collect();
    assert_eq!(names, vec!["A.txt", "b.txt"]);
    let folders = browser_folders(&vec![
        ScannedFolder {
            name: "z".into(),
            is_dir: true,
            files: Some(vec![file("b.txt", true, "txt")]),
        },
        ScannedFolder { name: "empty".into(), is_dir: true, files: Some(Vec::new()) },
        ScannedFolder { name: "locked".into(), is_dir: true, files: None },
        ScannedFolder {
            name: "A".into(),
            is_dir: true,
            files: Some(vec![file("a.txt", true, "txt")]),
        },
        ScannedFolder {
            name: "note.txt".into(),
            is_dir: false,
            files: Some(vec![file("a.txt", true, "txt")]),
        },
    ]);
    let folder_names: Vec<&str> = folders.iter().map(|f| f.name.as_str()).collect();
    assert_eq!(folder_names, vec!["A", "z"]);
    assert!(browser_stale("a", "b"));
    assert!(!browser_stale("a", "a"));
    assert_eq!(browser_root("  "), None);
    assert_eq!(browse_start("", "captures"), "captures");
}

#[test]
fn names_are_committed() {
    let mut ids = ViewIds::new();
    let mut panel = panel_of(&mut ids);
    let mark: &[u8] = b"\xEF\xBB\xBF";
    let facts = |new_exists: bool, content: &[u8]| NameFacts {
        committed_exists: true,
        new_exists,
        old_exists: true,
        old_content: Some(content.to_vec()),
    };

    panel.capture.name = "bad:name".into();
    assert!(panel.name_pending());
    assert!(!panel.commit_live_name(facts(false, mark), Ok(()), Ok(()), vec![empty_scan()]));
    assert!(matches!(panel.status, SerialStatus::RenameInvalid));
    assert_eq!(panel.capture.name, "capture");

    panel.capture.name = " capture ".into();
    assert!(panel.commit_live_name(facts(false, mark), Ok(()), Ok(()), vec![empty_scan()]));
    assert_eq!(panel.capture.name, "capture");

    panel.capture.name = "taken".into();
    assert!(matches!(
        panel.capture.plan_commit(&facts(true, mark), 0),
        CommitPlan::TargetExists
    ));
    assert!(!panel.commit_live_name(facts(true, mark), Ok(()), Ok(()), vec![empty_scan()]));
    assert!(matches!(panel.status, SerialStatus::RenameExists));

    panel.capture.name = "other".into();
    let failed = Err(MoveError::Other("locked".into()));
    assert!(!panel.commit_live_name(facts(false, mark), failed, Ok(()), vec![empty_scan()]));
    assert!(matches!(&panel.status, SerialStatus::RenameFailed(m) if m == "locked"));
    assert_eq!(panel.capture.committed, "capture");

    panel.capture.name = "other".into();
    assert!(panel.commit_live_name(facts(false, mark), Ok(()), Ok(()), vec![empty_scan()]));
    assert!(matches!(&panel.status, SerialStatus::RenameOk(n) if n == "other"));
    assert_eq!(panel.capture.committed, "other");
    assert_eq!(panel.bar.tabs[0].title, "other");

    panel.capture.name = "third".into();
    assert!(panel.commit_live_name(facts(false, b"hi\n"), Ok(()), Ok(()), vec![empty_scan()]));
    assert!(matches!(
        &panel.status,
        SerialStatus::RenameSplit { old, new } if old == "other" && new == "third"
    ));
    assert!(!panel.name_pending());
}
