use wiparse_gui::editor::{FindAction, MatchStatus};
use wiparse_gui::log_tab::{fresh_span, LogTabPage, ReloadPoll, TabBackend, ViewIds};
use wiparse_gui::pane::{
    FilterScan, FilterScanResult, FindJump, PaneState, ScanPoll, TextCaret, TextHit,
};

const CAPACITY: usize = 1000;
const MATCH_LIMIT: usize = 5000;

fn hit(row: usize, start: usize, end: usize) -> TextHit {
    TextHit { row, start, end }
}

fn found(hits: Vec<TextHit>) -> FilterScan {
    FilterScan { no_needles: false, hits, truncated: false }
}

fn nothing() -> FilterScan {
    FilterScan { no_needles: true, hits: Vec::new(), truncated: false }
}

fn live() -> LogTabPage {
    LogTabPage::live_tab(&mut ViewIds::new(), "Live".into(), CAPACITY, MATCH_LIMIT)
}

#[test]
fn tabs_have_independent_scroll_state_ids() {
    let mut ids = ViewIds::new();
    let first = LogTabPage::live_tab(&mut ids, "Live".into(), CAPACITY, MATCH_LIMIT);
    let second = LogTabPage::live_tab(&mut ids, "Live".into(), CAPACITY, MATCH_LIMIT);
    assert_ne!(first.view_id, second.view_id);
    assert!(first.panes[0].reset_horizontal_scroll);
    assert!(second.panes[0].reset_horizontal_scroll);
}

#[test]
fn file_tab_opens_in_view_mode_by_default() {
    let page = LogTabPage::file_tab_empty(
        &mut ViewIds::new(),
        "sample.log".into(),
        Some("sample".into()),
        MATCH_LIMIT,
    );
    assert!(!page.edit.mode);
    assert!(!page.is_editing());
}

#[test]
fn pending_file_preserves_committed_search_intent() {
    let mut page = LogTabPage::file_tab_empty(
        &mut ViewIds::new(),
        "pending.log".into(),
        Some("pending".into()),
        MATCH_LIMIT,
    );
    page.panes[0].filter_draft = "ASK".into();
    page.apply_filter(0, found(Vec::new()));

    assert_eq!(page.panes[0].filter_applied, "ASK");
    assert!(!page.panes[0].show_search);
    assert!(!page.panes[0].filter_busy);
}

#[test]
fn live_front_eviction_shifts_selection_and_targets() {
    let mut pane = PaneState::new();
    pane.sel_anchor = Some(TextCaret { row: 10, col: 2 });
    pane.sel_focus = Some(TextCaret { row: 12, col: 4 });
    pane.parse_row = Some(11);
    pane.scroll_to_master = Some(20);
    pane.highlight_master = Some(20);

    pane.shift_after_front_eviction(5);

    assert_eq!(pane.sel_anchor, Some(TextCaret { row: 5, col: 2 }));
    assert_eq!(pane.sel_focus, Some(TextCaret { row: 7, col: 4 }));
    assert_eq!(pane.parse_row, Some(6));
    assert_eq!(pane.scroll_to_master, Some(15));
    assert_eq!(pane.highlight_master, Some(15));
}

#[test]
fn stale_scan_result_is_discarded_and_closed_panel_stays_closed() {
    let mut page = live();
    page.panes[0].filter_applied = "ASK".into();
    page.panes[0].filter_generation = 2;
    page.panes[0].filter_busy = true;
    page.panes[0].show_search = false;
    page.panes[0].scan_attached = true;
    page.poll_background_tasks(
        ReloadPoll::Empty,
        vec![nothing()],
        vec![ScanPoll::Ready(FilterScanResult {
            generation: 1,
            hits: vec![hit(3, 0, 3), hit(7, 0, 3)],
            truncated: false,
        })],
    );

    assert!(page.panes[0].search_map.is_empty());
    assert!(!page.panes[0].show_search);
    assert!(!page.panes[0].filter_busy);

    page.panes[0].scan_attached = true;
    page.panes[0].filter_busy = true;
    page.poll_background_tasks(
        ReloadPoll::Empty,
        vec![nothing()],
        vec![ScanPoll::Ready(FilterScanResult {
            generation: 2,
            hits: vec![hit(3, 0, 3), hit(7, 0, 3)],
            truncated: false,
        })],
    );
    assert_eq!(page.panes[0].search_map, vec![3, 7]);
    assert!(!page.panes[0].show_search);
}

#[test]
fn live_append_does_not_reopen_closed_search_panel() {
    let mut page = live();
    page.append_lines(vec!["ASK first".into()], true, vec![nothing()]);
    page.panes[0].filter_draft = "ASK".into();
    page.apply_filter(0, found(vec![hit(0, 0, 3)]));
    assert!(!page.panes[0].show_search);
    page.list_all_matches(0, found(vec![hit(0, 0, 3)]));
    assert!(page.panes[0].show_search);

    page.panes[0].show_search = false;
    page.append_lines(vec!["ASK second".into()], true, vec![found(vec![hit(1, 0, 3)])]);

    assert_eq!(page.panes[0].search_map, vec![0, 1]);
    assert!(!page.panes[0].show_search);
}

#[test]
fn search_prefill_requires_a_nonempty_current_selection() {
    let mut pane = PaneState::new();
    pane.last_selected_text = "ASK".into();
    assert!(!pane.has_text_selection());

    pane.sel_anchor = Some(TextCaret { row: 2, col: 4 });
    pane.sel_focus = Some(TextCaret { row: 2, col: 4 });
    assert!(!pane.has_text_selection());

    pane.sel_focus = Some(TextCaret { row: 2, col: 7 });
    assert!(pane.has_text_selection());
}

#[test]
fn apply_filter_does_not_open_results_panel_until_list_all() {
    let mut page = live();
    page.append_lines(vec!["ASK first".into(), "FSK second".into()], true, vec![nothing()]);
    page.panes[0].filter_draft = "ASK".into();
    page.apply_filter(0, found(vec![hit(0, 0, 3)]));
    assert!(!page.panes[0].show_search);
    assert_eq!(page.panes[0].find_hits.len(), 1);
    page.list_all_matches(0, found(vec![hit(0, 0, 3)]));
    assert!(page.panes[0].show_search);
}

#[test]
fn find_jump_wraps_across_hits() {
    let mut page = live();
    page.append_lines(
        vec!["ASK a".into(), "x".into(), "ASK b".into()],
        true,
        vec![nothing()],
    );
    page.panes[0].filter_draft = "ASK".into();
    page.panes[0].find_jump = Some(FindJump::FirstAt { row: 0, start: 0 });
    page.apply_filter(0, found(vec![hit(0, 0, 3), hit(2, 0, 3)]));
    assert_eq!(page.panes[0].find_current, Some(0));
    page.queue_find_jump(0, FindJump::Next);
    assert_eq!(page.panes[0].find_current, Some(1));
    page.queue_find_jump(0, FindJump::Next);
    assert_eq!(page.panes[0].find_current, Some(0));
    page.queue_find_jump(0, FindJump::Prev);
    assert_eq!(page.panes[0].find_current, Some(1));
}

#[test]
fn debounce_clears_timer_when_draft_matches_applied() {
    let mut page = live();
    page.panes[0].filter_draft = "ASK".into();
    page.panes[0].filter_applied = "ASK".into();
    page.panes[0].filter_apply_at = Some(1_000_000);
    page.poll_filter_debounce(1_000_000, vec![found(Vec::new())]);
    assert!(page.panes[0].filter_apply_at.is_none());
}

#[test]
fn apply_filter_keeps_current_hit_when_query_unchanged() {
    let mut page = live();
    page.append_lines(vec!["ASK a".into(), "ASK b".into()], true, vec![nothing()]);
    page.panes[0].filter_draft = "ASK".into();
    page.panes[0].find_jump = Some(FindJump::FirstAt { row: 0, start: 0 });
    page.apply_filter(0, found(vec![hit(0, 0, 3), hit(1, 0, 3)]));
    page.queue_find_jump(0, FindJump::Next);
    assert_eq!(page.panes[0].find_current, Some(1));
    page.apply_filter(0, found(vec![hit(0, 0, 3), hit(1, 0, 3)]));
    assert_eq!(page.panes[0].find_current, Some(1));
    assert_eq!(page.panes[0].find_hits.len(), 2);
    page.panes[0].find_jump = Some(FindJump::FirstAt { row: 0, start: 0 });
    page.apply_filter(0, found(vec![hit(0, 0, 3), hit(1, 0, 3)]));
    assert_eq!(page.panes[0].find_current, Some(0));
}

#[test]
fn apply_filter_resets_current_hit_when_query_changes() {
    let mut page = live();
    page.append_lines(vec!["ASK a".into(), "FSK b".into()], true, vec![nothing()]);
    page.panes[0].filter_draft = "ASK".into();
    page.panes[0].find_jump = Some(FindJump::FirstAt { row: 0, start: 0 });
    page.apply_filter(0, found(vec![hit(0, 0, 3)]));
    assert_eq!(page.panes[0].find_current, Some(0));
    page.panes[0].filter_draft = "FSK".into();
    page.apply_filter(0, found(vec![hit(1, 0, 3)]));
    assert_eq!(page.panes[0].find_current, None);
    assert_eq!(page.panes[0].find_hits.len(), 1);
    assert_eq!(page.panes[0].find_hits[0].row, 1);
}

#[test]
fn clear_display_drops_selection_and_find_cursor() {
    let mut page = live();
    page.append_lines(vec!["ASK a".into()], true, vec![nothing()]);
    page.panes[0].filter_draft = "ASK".into();
    page.panes[0].find_jump = Some(FindJump::FirstAt { row: 0, start: 0 });
    page.apply_filter(0, found(vec![hit(0, 0, 3)]));
    page.panes[0].sel_anchor = Some(TextCaret { row: 0, col: 0 });
    page.panes[0].sel_focus = Some(TextCaret { row: 0, col: 3 });
    page.panes[0].highlight_master = Some(0);
    page.clear_display(vec![found(Vec::new())]);
    assert!(page.panes[0].sel_anchor.is_none());
    assert!(page.panes[0].find_current.is_none());
    assert!(page.panes[0].highlight_master.is_none());
    assert!(page.panes[0].find_hits.is_empty());
    assert_eq!(page.line_count(), 0);
}

#[test]
fn live_tab_keeps_the_newest_lines() {
    let mut page = LogTabPage::live_tab(&mut ViewIds::new(), "Live".into(), 3, MATCH_LIMIT);
    page.append_lines(vec!["a".into(), "b".into()], true, vec![nothing()]);
    page.append_lines(vec!["c".into(), "d".into()], true, vec![nothing()]);
    assert_eq!(page.line_count(), 3);
    assert_eq!(page.lines_slice(0, 10), vec!["b".to_string(), "c".into(), "d".into()]);
    assert_eq!(page.lines_slice(1, 1), vec!["c".to_string()]);
    assert_eq!(page.recent_lines(2), vec!["c".to_string(), "d".into()]);
}

#[test]
fn fresh_lines_stand_at_their_rows() {
    assert_eq!(fresh_span(2, 3, 10), (0, 2));
    assert_eq!(fresh_span(9, 3, 10), (0, 7));
    assert_eq!(fresh_span(9, 12, 10), (2, 0));
    assert_eq!(fresh_span(0, 10, 10), (0, 0));
    assert_eq!(fresh_span(4, 3, 0), (3, 0));
}

#[test]
fn an_empty_text_is_searched_and_replaced_in() {
    let mut page = live();
    page.edit.session.lines = Vec::new();
    page.edit.find = "x".into();
    page.edit.replace = "y".into();
    page.run_find_action(FindAction::Next);
    assert!(matches!(page.edit.match_status, MatchStatus::NoMatches));
    page.run_find_action(FindAction::ReplaceAll);
    assert!(matches!(page.edit.match_status, MatchStatus::Replaced { count: 0 }));
    page.run_find_action(FindAction::Prev);
    assert!(matches!(page.edit.match_status, MatchStatus::NoMatches));
    assert!(!page.edit.dirty);

    page.edit.session.lines = vec!["axb".into(), "x".into()];
    page.run_find_action(FindAction::Replace);
    assert_eq!(page.edit.session.lines, vec!["ayb", "x"]);
    assert!(page.edit.dirty);
    page.run_find_action(FindAction::ReplaceAll);
    assert!(matches!(page.edit.match_status, MatchStatus::Replaced { count: 1 }));
    assert_eq!(page.edit.session.lines, vec!["ayb", "y"]);
}

#[test]
fn eviction_moves_matches_with_their_lines() {
    let mut page = LogTabPage::live_tab(&mut ViewIds::new(), "Live".into(), 2, MATCH_LIMIT);
    page.append_lines(vec!["ASK".into(), "x".into()], true, vec![nothing()]);
    page.panes[0].filter_draft = "ASK".into();
    page.apply_filter(0, found(vec![hit(0, 0, 3)]));
    page.append_lines(vec!["ASK".into()], true, vec![found(vec![hit(1, 0, 3)])]);
    assert_eq!(page.panes[0].find_hits, vec![hit(1, 0, 3)]);
    assert_eq!(page.panes[0].search_map, vec![1]);
}

#[test]
fn goto_dialog_goes_to_the_typed_line() {
    let mut page = live();
    page.append_lines(
        vec!["a".into(), "b".into(), "c".into()],
        true,
        vec![nothing()],
    );
    page.open_goto_dialog();
    assert!(page.goto.open);
    page.goto.draft = "2".into();
    page.finish_goto(true, false, true);
    assert!(!page.goto.open);
    assert_eq!(page.panes[0].highlight_master, Some(1));
    assert_eq!(page.panes[0].scroll_to_master, Some(1));
    page.goto_line(99);
    assert_eq!(page.panes[0].highlight_master, Some(2));
}

#[test]
fn a_file_that_was_read_can_be_edited_and_saved() {
    let mut page = LogTabPage::file_tab_empty(
        &mut ViewIds::new(),
        "notes.log".into(),
        Some("notes".into()),
        MATCH_LIMIT,
    );
    assert!(matches!(page.backend, TabBackend::Pending));
    page.set_file_store(vec!["one".into(), "two".into()], vec![nothing()]);
    page.finish_loading();
    assert_eq!(page.line_count(), 2);
    assert_eq!(page.display_title(), "notes");

    assert!(!page.enter_edit_mode(Err("locked".into())));
    assert!(!page.is_editing());
    assert!(page.enter_edit_mode(Ok(vec!["one".into(), "two".into()])));
    assert!(page.is_editing());
    page.edit.dirty = true;
    assert_eq!(page.display_title(), "notes *");
    assert!(!page.save_edit(Err("disk full".into())));
    assert!(page.edit.dirty);
    assert!(page.save_edit(Ok(())));
    assert!(!page.edit.dirty);
    assert_eq!(page.exit_edit_mode(), Some("notes.log".to_string()));
    assert!(!page.is_editing());
}
