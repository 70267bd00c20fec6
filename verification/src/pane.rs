//! One view pane of a log tab: selection, filter, search hits and scroll targets.
use vstd::prelude::*;
use vstd::string::*;

use crate::text::{contains_text, has_text, same_text};

verus! {

/// Frames for which a scroll target is held so that the layout can settle.
pub const SCROLL_HOLD_FRAMES: u8 = 16;

/// A caret: a line and a character column in it.
#[derive(Debug, Clone, Copy, PartialEq, Eq, Structural)]
pub struct TextCaret {
    pub row: usize,
    pub col: usize,
}

/// One match in the log: a line and a byte range in it.
#[derive(Debug, Clone, Copy, PartialEq, Eq, Structural)]
pub struct TextHit {
    pub row: usize,
    pub start: usize,
    pub end: usize,
}

/// A pending move to another match.
#[derive(Debug, Clone, Copy, PartialEq, Eq, Structural)]
pub enum FindJump {
    Next,
    Prev,
    FirstAt { row: usize, start: usize },
}

/// How a line of the protocol tip is shown.
#[derive(Debug, Clone, Copy, PartialEq, Eq, Structural)]
pub enum TipRole {
    Separator,
    TitleAsk,
    TitleFsk,
    Meta,
    Field,
    Code,
    Hex,
    Good,
    Bad,
    Warn,
    Muted,
}

/// One line of the protocol tip.
pub struct TipLine {
    pub role: TipRole,
    pub text: String,
}

/// What a search over the lines of a tab found for a filter text.
pub struct FilterScan {
    /// The filter text holds no pattern to look for.
    pub no_needles: bool,
    pub hits: Vec<TextHit>,
    pub truncated: bool,
}

/// The outcome of a background search, with the filter generation it was started for.
pub struct FilterScanResult {
    pub generation: u64,
    pub hits: Vec<TextHit>,
    pub truncated: bool,
}

/// What a background search has to say when it is polled.
pub enum ScanPoll {
    Empty,
    Disconnected,
    Ready(FilterScanResult),
}

/// Where the lines of a tab come from.
#[derive(Debug, Clone, Copy, PartialEq, Eq, Structural)]
pub enum BackendKind {
    Live,
    File,
    Pending,
}

/// Selection inside the search result list.
pub struct SearchSelectionState {
    pub anchor: Option<TextCaret>,
    pub focus: Option<TextCaret>,
    pub selecting: bool,
    pub select_dragged: bool,
    pub last_selected_text: String,
}

/// Model of [`SearchSelectionState`].
pub struct SearchSelectionView {
    pub anchor: Option<TextCaret>,
    pub focus: Option<TextCaret>,
    pub selecting: bool,
    pub select_dragged: bool,
    pub last_selected_text: Seq<char>,
}

/// The empty selection.
pub open spec fn no_search_selection() -> SearchSelectionView {
    SearchSelectionView {
        anchor: None,
        focus: None,
        selecting: false,
        select_dragged: false,
        last_selected_text: Seq::empty(),
    }
}

impl View for SearchSelectionState {
    type V = SearchSelectionView;

    open spec fn view(&self) -> SearchSelectionView {
        SearchSelectionView {
            anchor: self.anchor,
            focus: self.focus,
            selecting: self.selecting,
            select_dragged: self.select_dragged,
            last_selected_text: self.last_selected_text@,
        }
    }
}

impl SearchSelectionState {
    /// Nothing selected.
    pub fn new() -> (r: Self)
        ensures
            r@ == no_search_selection(),
    {
        SearchSelectionState {
            anchor: None,
            focus: None,
            selecting: false,
            select_dragged: false,
            last_selected_text: String::new(),
        }
    }

    /// Drops the selection.
    pub fn clear(&mut self)
        ensures
            final(self)@ == no_search_selection(),
    {
        self.anchor = None;
        self.focus = None;
        self.selecting = false;
        self.select_dragged = false;
        self.last_selected_text = String::new();
    }
}

/// State of one pane.
pub struct PaneState {
    pub filter_draft: String,
    pub filter_applied: String,
    pub auto_parse: bool,
    pub sel_anchor: Option<TextCaret>,
    pub sel_focus: Option<TextCaret>,
    pub selecting: bool,
    /// The pointer moved past the click threshold during this drag.
    pub select_dragged: bool,
    pub search_selection: SearchSelectionState,
    pub parse_tip: Option<Vec<TipLine>>,
    pub parse_hint: String,
    pub parse_row: Option<usize>,
    /// Lines that hold a match, in order.
    pub search_map: Vec<usize>,
    pub show_search: bool,
    pub scroll_to_master: Option<usize>,
    pub scroll_hold_frames: u8,
    pub highlight_master: Option<usize>,
    pub last_selected_text: String,
    pub focus_filter_requested: bool,
    /// When false, following the live tail is paused until the user scrolls to the end.
    pub scroll_pinned: bool,
    pub reset_horizontal_scroll: bool,
    /// First visible line when the pane was last shown.
    pub last_view_row: Option<usize>,
    pub find_hits: Vec<TextHit>,
    pub find_current: Option<usize>,
    pub find_truncated: bool,
    pub find_jump: Option<FindJump>,
    /// When the typed filter is due, in microseconds of the frame clock.
    pub filter_apply_at: Option<u64>,
    pub request_find: bool,
    pub request_goto: bool,
    /// A background search is attached.
    pub scan_attached: bool,
    pub filter_busy: bool,
    pub filter_generation: u64,
}

/// Model of [`PaneState`].
pub struct PaneView {
    pub filter_draft: Seq<char>,
    pub filter_applied: Seq<char>,
    pub auto_parse: bool,
    pub sel_anchor: Option<TextCaret>,
    pub sel_focus: Option<TextCaret>,
    pub selecting: bool,
    pub select_dragged: bool,
    pub search_selection: SearchSelectionView,
    pub parse_tip: Option<Vec<TipLine>>,
    pub parse_hint: Seq<char>,
    pub parse_row: Option<usize>,
    pub search_map: Seq<usize>,
    pub show_search: bool,
    pub scroll_to_master: Option<usize>,
    pub scroll_hold_frames: u8,
    pub highlight_master: Option<usize>,
    pub last_selected_text: Seq<char>,
    pub focus_filter_requested: bool,
    pub scroll_pinned: bool,
    pub reset_horizontal_scroll: bool,
    pub last_view_row: Option<usize>,
    pub find_hits: Seq<TextHit>,
    pub find_current: Option<usize>,
    pub find_truncated: bool,
    pub find_jump: Option<FindJump>,
    pub filter_apply_at: Option<u64>,
    pub request_find: bool,
    pub request_goto: bool,
    pub scan_attached: bool,
    pub filter_busy: bool,
    pub filter_generation: u64,
}

/// The model of a pane.
#[verifier::opaque]
pub open spec fn pane_view(pane: PaneState) -> PaneView {
    PaneView {
        filter_draft: pane.filter_draft@,
        filter_applied: pane.filter_applied@,
        auto_parse: pane.auto_parse,
        sel_anchor: pane.sel_anchor,
        sel_focus: pane.sel_focus,
        selecting: pane.selecting,
        select_dragged: pane.select_dragged,
        search_selection: pane.search_selection@,
        parse_tip: pane.parse_tip,
        parse_hint: pane.parse_hint@,
        parse_row: pane.parse_row,
        search_map: pane.search_map@,
        show_search: pane.show_search,
        scroll_to_master: pane.scroll_to_master,
        scroll_hold_frames: pane.scroll_hold_frames,
        highlight_master: pane.highlight_master,
        last_selected_text: pane.last_selected_text@,
        focus_filter_requested: pane.focus_filter_requested,
        scroll_pinned: pane.scroll_pinned,
        reset_horizontal_scroll: pane.reset_horizontal_scroll,
        last_view_row: pane.last_view_row,
        find_hits: pane.find_hits@,
        find_current: pane.find_current,
        find_truncated: pane.find_truncated,
        find_jump: pane.find_jump,
        filter_apply_at: pane.filter_apply_at,
        request_find: pane.request_find,
        request_goto: pane.request_goto,
        scan_attached: pane.scan_attached,
        filter_busy: pane.filter_busy,
        filter_generation: pane.filter_generation,
    }
}

impl View for PaneState {
    type V = PaneView;

    open spec fn view(&self) -> PaneView {
        pane_view(*self)
    }
}

/// A pane as it is first shown.
pub open spec fn fresh_pane() -> PaneView {
    PaneView {
        filter_draft: Seq::empty(),
        filter_applied: Seq::empty(),
        auto_parse: false,
        sel_anchor: None,
        sel_focus: None,
        selecting: false,
        select_dragged: false,
        search_selection: no_search_selection(),
        parse_tip: None,
        parse_hint: Seq::empty(),
        parse_row: None,
        search_map: Seq::empty(),
        show_search: false,
        scroll_to_master: None,
        scroll_hold_frames: 0,
        highlight_master: None,
        last_selected_text: Seq::empty(),
        focus_filter_requested: false,
        scroll_pinned: true,
        reset_horizontal_scroll: true,
        last_view_row: None,
        find_hits: Seq::empty(),
        find_current: None,
        find_truncated: false,
        find_jump: None,
        filter_apply_at: None,
        request_find: false,
        request_goto: false,
        scan_attached: false,
        filter_busy: false,
        filter_generation: 0,
    }
}

// ---------------------------------------------------------------------------
// Transitions over the model
// ---------------------------------------------------------------------------

/// The selection dropped.
pub open spec fn without_selection(p: PaneView) -> PaneView {
    PaneView {
        sel_anchor: None,
        sel_focus: None,
        selecting: false,
        select_dragged: false,
        last_selected_text: Seq::empty(),
        ..p
    }
}

/// Selection, parse result, scroll targets and find position dropped.
pub open spec fn without_navigation(p: PaneView) -> PaneView {
    PaneView {
        search_selection: no_search_selection(),
        parse_tip: None,
        parse_hint: Seq::empty(),
        parse_row: None,
        highlight_master: None,
        scroll_to_master: None,
        find_current: None,
        find_jump: None,
        last_view_row: None,
        ..without_selection(p)
    }
}

/// Line `row` brought into view and marked; the live tail no longer followed.
pub open spec fn shown_at(p: PaneView, row: usize) -> PaneView {
    PaneView {
        scroll_to_master: Some(row),
        scroll_hold_frames: SCROLL_HOLD_FRAMES,
        scroll_pinned: false,
        highlight_master: Some(row),
        ..p
    }
}

/// Match `idx` made current; nothing happens when there is no such match.
pub open spec fn at_find_index(p: PaneView, idx: int) -> PaneView {
    if 0 <= idx < p.find_hits.len() {
        PaneView {
            find_current: Some(idx as usize),
            parse_row: None,
            ..shown_at(p, p.find_hits[idx].row)
        }
    } else {
        p
    }
}

/// Whether a hit lies at or after byte `start` of line `row`.
pub open spec fn hit_at_or_after(hit: TextHit, row: usize, start: usize) -> bool {
    hit.row > row || (hit.row == row && hit.start >= start)
}

/// The first hit from index `i` on that lies at or after the position; 0 when there is none.
pub open spec fn first_hit_from(hits: Seq<TextHit>, row: usize, start: usize, i: int) -> int
    decreases hits.len() - i,
{
    if i < 0 || i >= hits.len() {
        0
    } else if hit_at_or_after(hits[i], row, start) {
        i
    } else {
        first_hit_from(hits, row, start, i + 1)
    }
}

/// The match that a jump leads to, with wrap-around at both ends.
pub open spec fn jump_target(hits: Seq<TextHit>, current: Option<usize>, jump: FindJump) -> int {
    let last = hits.len() - 1;
    match jump {
        FindJump::Next => match current {
            Some(i) => if i >= last {
                0
            } else {
                i + 1
            },
            None => 0,
        },
        FindJump::Prev => match current {
            Some(i) => if i == 0 {
                last
            } else {
                i - 1
            },
            None => last,
        },
        FindJump::FirstAt { row, start } => first_hit_from(hits, row, start, 0),
    }
}

/// The match at which a pane stands; none where it stands at none.
pub open spec fn hit_in_force(current: Option<usize>, hits: Seq<TextHit>) -> Option<TextHit> {
    match current {
        Some(i) => if i < hits.len() {
            Some(hits[i as int])
        } else {
            None
        },
        None => None,
    }
}

/// The pending jump carried out.
#[verifier::opaque]
pub open spec fn after_jump(p: PaneView) -> PaneView {
    match p.find_jump {
        None => p,
        Some(jump) => {
            let q = PaneView { find_jump: None, ..p };
            if p.find_hits.len() == 0 {
                PaneView { find_current: None, ..q }
            } else {
                at_find_index(q, jump_target(p.find_hits, p.find_current, jump))
            }
        },
    }
}

/// A line number after `evicted` lines left at the front; none for a line that left.
pub open spec fn shifted_row(row: Option<usize>, evicted: usize) -> Option<usize> {
    match row {
        Some(r) => if r >= evicted {
            Some((r - evicted) as usize)
        } else {
            None
        },
        None => None,
    }
}

/// A caret after `evicted` lines left at the front.
pub open spec fn shifted_caret(caret: Option<TextCaret>, evicted: usize) -> Option<TextCaret> {
    match caret {
        Some(c) => if c.row >= evicted {
            Some(TextCaret { row: (c.row - evicted) as usize, col: c.col })
        } else {
            None
        },
        None => None,
    }
}

/// A hit with its line moved up by `evicted`.
pub open spec fn moved_hit(hit: TextHit, evicted: usize) -> TextHit {
    TextHit { row: (hit.row - evicted) as usize, start: hit.start, end: hit.end }
}

/// The hits whose line is still there, moved up.
pub open spec fn kept_hits(hits: Seq<TextHit>, evicted: usize) -> Seq<TextHit>
    decreases hits.len(),
{
    if hits.len() == 0 {
        Seq::empty()
    } else {
        let front = kept_hits(hits.drop_last(), evicted);
        if hits.last().row >= evicted {
            front.push(moved_hit(hits.last(), evicted))
        } else {
            front
        }
    }
}

/// The rows that are still there, moved up.
pub open spec fn kept_rows(rows: Seq<usize>, evicted: usize) -> Seq<usize>
    decreases rows.len(),
{
    if rows.len() == 0 {
        Seq::empty()
    } else {
        let front = kept_rows(rows.drop_last(), evicted);
        if rows.last() >= evicted {
            front.push((rows.last() - evicted) as usize)
        } else {
            front
        }
    }
}

/// How many hits at the front of the list, from index `i` on, lie on evicted lines.
pub open spec fn leading_evicted(hits: Seq<TextHit>, evicted: usize, i: int) -> int
    decreases hits.len() - i,
{
    if i < 0 || i >= hits.len() || hits[i].row >= evicted {
        i
    } else {
        leading_evicted(hits, evicted, i + 1)
    }
}

/// The index of the current match once `dropped` matches are gone and `left` remain.
pub open spec fn shifted_current(current: Option<usize>, dropped: int, left: int) -> Option<usize> {
    match current {
        Some(i) => if i >= dropped && i - dropped < left {
            Some((i - dropped) as usize)
        } else {
            None
        },
        None => None,
    }
}

/// A pending jump after `evicted` lines left at the front.
pub open spec fn shifted_jump(jump: Option<FindJump>, evicted: usize) -> Option<FindJump> {
    match jump {
        Some(FindJump::FirstAt { row, start }) => if row >= evicted {
            Some(FindJump::FirstAt { row: (row - evicted) as usize, start })
        } else {
            None
        },
        other => other,
    }
}

/// The selection moved up; dropped as a whole when one of its ends is gone.
pub open spec fn shifted_selection(p: PaneView, evicted: usize) -> PaneView {
    let anchor = shifted_caret(p.sel_anchor, evicted);
    let focus = shifted_caret(p.sel_focus, evicted);
    if anchor is None || focus is None {
        without_selection(p)
    } else {
        PaneView { sel_anchor: anchor, sel_focus: focus, ..p }
    }
}

/// The pane after `evicted` lines left at the front of the log.
pub open spec fn after_front_eviction(p: PaneView, evicted: usize) -> PaneView {
    if evicted == 0 {
        p
    } else {
        let hits = kept_hits(p.find_hits, evicted);
        PaneView {
            search_selection: no_search_selection(),
            parse_row: shifted_row(p.parse_row, evicted),
            scroll_to_master: shifted_row(p.scroll_to_master, evicted),
            highlight_master: shifted_row(p.highlight_master, evicted),
            last_view_row: shifted_row(p.last_view_row, evicted),
            find_hits: hits,
            find_current: shifted_current(
                p.find_current,
                leading_evicted(p.find_hits, evicted, 0),
                hits.len() as int,
            ),
            find_jump: shifted_jump(p.find_jump, evicted),
            search_map: kept_rows(p.search_map, evicted),
            ..shifted_selection(p, evicted)
        }
    }
}

/// The lines that hold a hit: the rows of `hits` with repeats in a row left out.
pub open spec fn match_rows(hits: Seq<TextHit>) -> Seq<usize>
    decreases hits.len(),
{
    if hits.len() == 0 {
        Seq::empty()
    } else {
        let front = match_rows(hits.drop_last());
        if front.len() > 0 && front.last() == hits.last().row {
            front
        } else {
            front.push(hits.last().row)
        }
    }
}

/// All matches dropped.
pub open spec fn without_matches(p: PaneView) -> PaneView {
    PaneView {
        search_map: Seq::empty(),
        find_hits: Seq::empty(),
        find_truncated: false,
        ..p
    }
}

/// New matches taken over; a current match past their end is dropped.
pub open spec fn with_matches(p: PaneView, hits: Seq<TextHit>, truncated: bool) -> PaneView {
    PaneView {
        find_hits: hits,
        find_truncated: truncated,
        search_map: match_rows(hits),
        find_current: match p.find_current {
            Some(i) => if i >= hits.len() {
                None
            } else {
                Some(i)
            },
            None => None,
        },
        ..p
    }
}

// ---------------------------------------------------------------------------
// Operations
// ---------------------------------------------------------------------------

/// The rows of `hits` with repeats in a row left out.
pub fn unique_match_rows(hits: &Vec<TextHit>) -> (r: Vec<usize>)
    ensures
        r@ == match_rows(hits@),
{
    let mut r: Vec<usize> = Vec::new();
    let mut i: usize = 0;
    assert(hits@.take(0) =~= Seq::<TextHit>::empty());
    while i < hits.len()
        invariant
            i <= hits@.len(),
            r@ == match_rows(hits@.take(i as int)),
        decreases hits@.len() - i,
    {
        assert(hits@.take(i + 1).drop_last() =~= hits@.take(i as int));
        if !(r.len() > 0 && r[r.len() - 1] == hits[i].row) {
            r.push(hits[i].row);
        }
        i = i + 1;
    }
    assert(hits@.take(i as int) =~= hits@);
    r
}

fn shift_row(row: Option<usize>, evicted: usize) -> (r: Option<usize>)
    ensures
        r == shifted_row(row, evicted),
{
    match row {
        Some(r) => if r >= evicted {
            Some(r - evicted)
        } else {
            None
        },
        None => None,
    }
}

fn shift_caret(caret: Option<TextCaret>, evicted: usize) -> (r: Option<TextCaret>)
    ensures
        r == shifted_caret(caret, evicted),
{
    match caret {
        Some(c) => if c.row >= evicted {
            Some(TextCaret { row: c.row - evicted, col: c.col })
        } else {
            None
        },
        None => None,
    }
}

fn shift_jump(jump: Option<FindJump>, evicted: usize) -> (r: Option<FindJump>)
    ensures
        r == shifted_jump(jump, evicted),
{
    match jump {
        Some(FindJump::FirstAt { row, start }) => if row >= evicted {
            Some(FindJump::FirstAt { row: row - evicted, start })
        } else {
            None
        },
        other => other,
    }
}

fn jump_from(hits: &Vec<TextHit>, current: Option<usize>, jump: FindJump) -> (r: usize)
    requires
        hits@.len() > 0,
    ensures
        r == jump_target(hits@, current, jump),
{
    let last: usize = hits.len() - 1;
    match jump {
        FindJump::Next => match current {
            Some(i) => if i >= last {
                0
            } else {
                i + 1
            },
            None => 0,
        },
        FindJump::Prev => match current {
            Some(i) => if i == 0 {
                last
            } else {
                i - 1
            },
            None => last,
        },
        FindJump::FirstAt { row, start } => {
            let mut i: usize = 0;
            while i < hits.len() && !(hits[i].row > row || (hits[i].row == row && hits[i].start
                >= start))
                invariant
                    i <= hits@.len(),
                    first_hit_from(hits@, row, start, 0) == first_hit_from(
                        hits@,
                        row,
                        start,
                        i as int,
                    ),
                decreases hits@.len() - i,
            {
                i = i + 1;
            }
            if i < hits.len() {
                i
            } else {
                0
            }
        },
    }
}

impl PaneState {
    /// A pane as it is first shown.
    pub fn new() -> (r: Self)
        ensures
            r@ == fresh_pane(),
    {
        proof {
            reveal(pane_view);
        }
        PaneState {
            filter_draft: String::new(),
            filter_applied: String::new(),
            auto_parse: false,
            sel_anchor: None,
            sel_focus: None,
            selecting: false,
            select_dragged: false,
            search_selection: SearchSelectionState::new(),
            parse_tip: None,
            parse_hint: String::new(),
            parse_row: None,
            search_map: Vec::new(),
            show_search: false,
            scroll_to_master: None,
            scroll_hold_frames: 0,
            highlight_master: None,
            last_selected_text: String::new(),
            focus_filter_requested: false,
            scroll_pinned: true,
            reset_horizontal_scroll: true,
            last_view_row: None,
            find_hits: Vec::new(),
            find_current: None,
            find_truncated: false,
            find_jump: None,
            filter_apply_at: None,
            request_find: false,
            request_goto: false,
            scan_attached: false,
            filter_busy: false,
            filter_generation: 0,
        }
    }

    /// Whether two distinct carets span a selection.
    pub fn has_text_selection(&self) -> (r: bool)
        ensures
            r == (self.sel_anchor is Some && self.sel_focus is Some && self.sel_anchor
                != self.sel_focus),
    {
        proof {
            reveal(pane_view);
        }
        match (self.sel_anchor, self.sel_focus) {
            (Some(anchor), Some(focus)) => anchor != focus,
            _ => false,
        }
    }

    /// Drops the selection.
    pub fn clear_sel(&mut self)
        ensures
            final(self)@ == without_selection(old(self)@),
    {
        proof {
            reveal(pane_view);
        }
        self.sel_anchor = None;
        self.sel_focus = None;
        self.selecting = false;
        self.select_dragged = false;
        self.last_selected_text = String::new();
    }

    /// Drops the selection in the result list.
    pub fn clear_search_sel(&mut self)
        ensures
            final(self)@ == (PaneView { search_selection: no_search_selection(), ..old(self)@ }),
    {
        proof {
            reveal(pane_view);
        }
        self.search_selection.clear();
    }

    /// Drops everything that points into the log.
    pub fn reset_navigation(&mut self)
        ensures
            final(self)@ == without_navigation(old(self)@),
    {
        proof {
            reveal(pane_view);
        }
        self.clear_sel();
        self.clear_search_sel();
        self.parse_tip = None;
        self.parse_hint = String::new();
        self.parse_row = None;
        self.highlight_master = None;
        self.scroll_to_master = None;
        self.find_current = None;
        self.find_jump = None;
        self.last_view_row = None;
    }

    /// Brings line `row` into view and marks it.
    pub fn show_at(&mut self, row: usize)
        ensures
            final(self)@ == shown_at(old(self)@, row),
    {
        proof {
            reveal(pane_view);
        }
        self.scroll_to_master = Some(row);
        self.scroll_hold_frames = SCROLL_HOLD_FRAMES;
        self.scroll_pinned = false;
        self.highlight_master = Some(row);
    }

    /// Makes match `idx` the current one.
    pub fn apply_find_index(&mut self, idx: usize)
        ensures
            final(self)@ == at_find_index(old(self)@, idx as int),
    {
        proof {
            reveal(pane_view);
        }
        if idx >= self.find_hits.len() {
            return;
        }
        let row: usize = self.find_hits[idx].row;
        self.find_current = Some(idx);
        self.show_at(row);
        self.parse_row = None;
    }

    fn pending_jump(&self) -> (r: Option<FindJump>)
        ensures
            r == self@.find_jump,
    {
        proof {
            reveal(pane_view);
        }
        self.find_jump
    }

    fn forget_jump(&mut self)
        ensures
            final(self)@ == (PaneView { find_jump: None, ..old(self)@ }),
    {
        proof {
            reveal(pane_view);
        }
        self.find_jump = None;
    }

    fn forget_current(&mut self)
        ensures
            final(self)@ == (PaneView { find_current: None, ..old(self)@ }),
    {
        proof {
            reveal(pane_view);
        }
        self.find_current = None;
    }

    fn jump_index(&self, jump: FindJump) -> (r: Option<usize>)
        ensures
            r is None <==> self@.find_hits.len() == 0,
            r matches Some(i) ==> i == jump_target(self@.find_hits, self@.find_current, jump),
    {
        proof {
            reveal(pane_view);
        }
        if self.find_hits.len() == 0 {
            return None;
        }
        Some(jump_from(&self.find_hits, self.find_current, jump))
    }

    /// Carries out the pending jump.
    pub fn consume_find_jump(&mut self)
        ensures
            final(self)@ == after_jump(old(self)@),
    {
        proof {
            reveal(after_jump);
        }
        match self.pending_jump() {
            Some(jump) => {
                let target = self.jump_index(jump);
                self.forget_jump();
                match target {
                    Some(idx) => {
                        self.apply_find_index(idx);
                    },
                    None => {
                        self.forget_current();
                    },
                }
            },
            None => {},
        }
    }

    /// The current match.
    pub fn current_find_hit(&self) -> (r: Option<TextHit>)
        ensures
            r == hit_in_force(self.find_current, self.find_hits@),
    {
        proof {
            reveal(pane_view);
        }
        match self.find_current {
            Some(i) => if i < self.find_hits.len() {
                Some(self.find_hits[i])
            } else {
                None
            },
            None => None,
        }
    }

    fn shift_selection(&mut self, evicted: usize)
        ensures
            final(self)@ == (PaneView {
                search_selection: no_search_selection(),
                ..shifted_selection(old(self)@, evicted)
            }),
    {
        proof {
            reveal(pane_view);
        }
        let anchor = shift_caret(self.sel_anchor, evicted);
        let focus = shift_caret(self.sel_focus, evicted);
        self.clear_search_sel();
        if anchor.is_none() || focus.is_none() {
            self.clear_sel();
        } else {
            self.sel_anchor = anchor;
            self.sel_focus = focus;
        }
    }

    fn shift_targets(&mut self, evicted: usize)
        ensures
            final(self)@ == (PaneView {
                parse_row: shifted_row(old(self)@.parse_row, evicted),
                scroll_to_master: shifted_row(old(self)@.scroll_to_master, evicted),
                highlight_master: shifted_row(old(self)@.highlight_master, evicted),
                last_view_row: shifted_row(old(self)@.last_view_row, evicted),
                find_jump: shifted_jump(old(self)@.find_jump, evicted),
                ..old(self)@
            }),
    {
        proof {
            reveal(pane_view);
        }
        self.parse_row = shift_row(self.parse_row, evicted);
        self.scroll_to_master = shift_row(self.scroll_to_master, evicted);
        self.highlight_master = shift_row(self.highlight_master, evicted);
        self.last_view_row = shift_row(self.last_view_row, evicted);
        self.find_jump = shift_jump(self.find_jump, evicted);
    }

    fn shift_matches(&mut self, evicted: usize)
        ensures
            final(self)@ == (PaneView {
                find_hits: kept_hits(old(self)@.find_hits, evicted),
                find_current: shifted_current(
                    old(self)@.find_current,
                    leading_evicted(old(self)@.find_hits, evicted, 0),
                    kept_hits(old(self)@.find_hits, evicted).len() as int,
                ),
                search_map: kept_rows(old(self)@.search_map, evicted),
                ..old(self)@
            }),
    {
        proof {
            reveal(pane_view);
        }
        let dropped: usize = count_leading_evicted(&self.find_hits, evicted);
        let hits = shift_hits(&self.find_hits, evicted);
        let rows = shift_rows(&self.search_map, evicted);
        let current = match self.find_current {
            Some(i) => if i >= dropped && i - dropped < hits.len() {
                Some(i - dropped)
            } else {
                None
            },
            None => None,
        };
        self.find_hits = hits;
        self.find_current = current;
        self.search_map = rows;
    }

    /// Follows the loss of `evicted` lines at the front of the log.
    pub fn shift_after_front_eviction(&mut self, evicted: usize)
        ensures
            final(self)@ == after_front_eviction(old(self)@, evicted),
    {
        if evicted > 0 {
            self.shift_selection(evicted);
            self.shift_targets(evicted);
            self.shift_matches(evicted);
        }
    }

    /// Drops all matches and the find position.
    pub fn drop_matches(&mut self)
        ensures
            final(self)@ == (PaneView { find_current: None, ..without_matches(old(self)@) }),
    {
        proof {
            reveal(pane_view);
        }
        self.search_map = Vec::new();
        self.find_hits = Vec::new();
        self.find_truncated = false;
        self.find_current = None;
    }

    /// Takes over new matches.
    pub fn take_matches(&mut self, hits: Vec<TextHit>, truncated: bool)
        ensures
            final(self)@ == with_matches(old(self)@, hits@, truncated),
    {
        proof {
            reveal(pane_view);
        }
        let rows = unique_match_rows(&hits);
        let current = match self.find_current {
            Some(i) => if i >= hits.len() {
                None
            } else {
                Some(i)
            },
            None => None,
        };
        self.search_map = rows;
        self.find_hits = hits;
        self.find_truncated = truncated;
        self.find_current = current;
    }
}

fn count_leading_evicted(hits: &Vec<TextHit>, evicted: usize) -> (r: usize)
    ensures
        r == leading_evicted(hits@, evicted, 0),
        r <= hits@.len(),
{
    let mut i: usize = 0;
    while i < hits.len() && hits[i].row < evicted
        invariant
            i <= hits@.len(),
            leading_evicted(hits@, evicted, 0) == leading_evicted(hits@, evicted, i as int),
        decreases hits@.len() - i,
    {
        i = i + 1;
    }
    i
}

fn shift_hits(hits: &Vec<TextHit>, evicted: usize) -> (r: Vec<TextHit>)
    ensures
        r@ == kept_hits(hits@, evicted),
{
    let mut r: Vec<TextHit> = Vec::new();
    let mut i: usize = 0;
    assert(hits@.take(0) =~= Seq::<TextHit>::empty());
    while i < hits.len()
        invariant
            i <= hits@.len(),
            r@ == kept_hits(hits@.take(i as int), evicted),
        decreases hits@.len() - i,
    {
        assert(hits@.take(i + 1).drop_last() =~= hits@.take(i as int));
        let hit = hits[i];
        if hit.row >= evicted {
            r.push(TextHit { row: hit.row - evicted, start: hit.start, end: hit.end });
        }
        i = i + 1;
    }
    assert(hits@.take(i as int) =~= hits@);
    r
}

fn shift_rows(rows: &Vec<usize>, evicted: usize) -> (r: Vec<usize>)
    ensures
        r@ == kept_rows(rows@, evicted),
{
    let mut r: Vec<usize> = Vec::new();
    let mut i: usize = 0;
    assert(rows@.take(0) =~= Seq::<usize>::empty());
    while i < rows.len()
        invariant
            i <= rows@.len(),
            r@ == kept_rows(rows@.take(i as int), evicted),
        decreases rows@.len() - i,
    {
        assert(rows@.take(i + 1).drop_last() =~= rows@.take(i as int));
        if rows[i] >= evicted {
            r.push(rows[i] - evicted);
        }
        i = i + 1;
    }
    assert(rows@.take(i as int) =~= rows@);
    r
}

// ---------------------------------------------------------------------------
// Filters
// ---------------------------------------------------------------------------

/// Microseconds that pass between a keystroke in the filter box and its search.
pub const FILTER_DEBOUNCE_US: u64 = 150_000;

/// All matches, the find position and the result list dropped.
pub open spec fn without_search(p: PaneView) -> PaneView {
    PaneView { find_current: None, find_jump: None, show_search: false, ..without_matches(p) }
}

/// The old matches dropped while new ones are looked for; a find position survives only
/// together with a pending jump.
pub open spec fn awaiting_matches(p: PaneView) -> PaneView {
    PaneView {
        find_current: if p.find_jump is None {
            None
        } else {
            p.find_current
        },
        ..without_matches(p)
    }
}

/// The pane once its matches are looked for anew: at once in live lines, in the background
/// in a file, not yet while the file is being loaded.
#[verifier::opaque]
pub open spec fn after_rebuild(
    p: PaneView,
    kind: BackendKind,
    no_needles: bool,
    hits: Seq<TextHit>,
    truncated: bool,
) -> PaneView {
    let q = PaneView {
        filter_generation: p.filter_generation.wrapping_add(1),
        scan_attached: false,
        filter_busy: false,
        ..p
    };
    if no_needles {
        without_search(q)
    } else {
        match kind {
            BackendKind::Live => after_jump(with_matches(q, hits, truncated)),
            BackendKind::File => PaneView {
                scan_attached: true,
                filter_busy: true,
                ..awaiting_matches(q)
            },
            BackendKind::Pending => awaiting_matches(q),
        }
    }
}

/// The typed filter taken over; the find position survives only a jump to a given place.
#[verifier::opaque]
pub open spec fn committed(p: PaneView) -> PaneView {
    PaneView {
        filter_applied: p.filter_draft,
        find_current: if p.find_jump matches Some(FindJump::FirstAt { row, start }) {
            p.find_current
        } else {
            None
        },
        ..p
    }
}

/// The typed filter committed: a new text starts a search, an unchanged one only carries out
/// the pending jump.
pub open spec fn after_apply(
    p: PaneView,
    kind: BackendKind,
    no_needles: bool,
    hits: Seq<TextHit>,
    truncated: bool,
) -> PaneView {
    let q = PaneView { filter_apply_at: None, ..p };
    if p.filter_applied == p.filter_draft {
        if p.filter_busy {
            q
        } else {
            after_jump(q)
        }
    } else {
        after_rebuild(committed(q), kind, no_needles, hits, truncated)
    }
}

/// How many hits from index `i` on lie on line `row`.
pub open spec fn run_on_row(hits: Seq<TextHit>, row: usize, i: int) -> int
    decreases hits.len() - i,
{
    if i < 0 || i >= hits.len() || hits[i].row != row {
        i
    } else {
        run_on_row(hits, row, i + 1)
    }
}

/// How many of the hits in newly appended lines are taken over: as many as the limit leaves
/// room for, and once a search was cut short only those of the first new line.
pub open spec fn taken_count(
    have: int,
    truncated: bool,
    fresh: Seq<TextHit>,
    first_row: usize,
    limit: int,
) -> int {
    let offered = if truncated {
        run_on_row(fresh, first_row, 0)
    } else {
        fresh.len() as int
    };
    if offered <= limit - have {
        offered
    } else {
        limit - have
    }
}

/// The pane after lines were appended in which `fresh` hits were found.
pub open spec fn after_append(
    p: PaneView,
    no_needles: bool,
    fresh: Seq<TextHit>,
    first_row: usize,
    limit: int,
) -> PaneView {
    if no_needles {
        PaneView { find_current: None, ..without_matches(p) }
    } else {
        let have = p.find_hits.len() as int;
        let hits = if have >= limit {
            p.find_hits
        } else {
            p.find_hits + fresh.take(taken_count(have, p.find_truncated, fresh, first_row, limit))
        };
        PaneView {
            find_truncated: have >= limit || p.find_truncated || have + fresh.len() > limit,
            find_hits: hits,
            search_map: match_rows(hits),
            ..p
        }
    }
}

/// The pane after its background search was polled. A result for an older filter is dropped,
/// and a closed result list stays closed.
pub open spec fn after_poll(p: PaneView, poll: ScanPoll) -> PaneView {
    let q = PaneView { scan_attached: false, filter_busy: false, ..p };
    if !p.scan_attached {
        p
    } else {
        match poll {
            ScanPoll::Empty => p,
            ScanPoll::Disconnected => q,
            ScanPoll::Ready(r) => if r.generation == p.filter_generation {
                after_jump(
                    PaneView {
                        show_search: p.show_search && (match_rows(r.hits@).len() > 0
                            || p.filter_applied.len() > 0),
                        ..with_matches(q, r.hits@, r.truncated)
                    },
                )
            } else {
                q
            },
        }
    }
}

fn count_run_on_row(hits: &Vec<TextHit>, row: usize) -> (r: usize)
    ensures
        r == run_on_row(hits@, row, 0),
        r <= hits@.len(),
{
    let mut i: usize = 0;
    while i < hits.len() && hits[i].row == row
        invariant
            i <= hits@.len(),
            run_on_row(hits@, row, 0) == run_on_row(hits@, row, i as int),
        decreases hits@.len() - i,
    {
        i = i + 1;
    }
    i
}

/// `have` with the first `n` of `fresh` behind it.
fn extended_hits(have: &Vec<TextHit>, fresh: &Vec<TextHit>, n: usize) -> (r: Vec<TextHit>)
    requires
        n <= fresh@.len(),
    ensures
        r@ == have@ + fresh@.take(n as int),
{
    let mut r: Vec<TextHit> = Vec::new();
    let mut i: usize = 0;
    while i < have.len()
        invariant
            i <= have@.len(),
            r@ == have@.take(i as int),
        decreases have@.len() - i,
    {
        r.push(have[i]);
        i = i + 1;
        assert(have@.take(i as int) =~= have@.take(i - 1).push(have@[i - 1]));
    }
    assert(have@.take(i as int) =~= have@);
    let mut k: usize = 0;
    while k < n
        invariant
            k <= n <= fresh@.len(),
            r@ == have@ + fresh@.take(k as int),
        decreases n - k,
    {
        r.push(fresh[k]);
        k = k + 1;
        assert(fresh@.take(k as int) =~= fresh@.take(k - 1).push(fresh@[k - 1]));
    }
    r
}

impl PaneState {
    fn drop_search(&mut self)
        ensures
            final(self)@ == without_search(old(self)@),
    {
        proof {
            reveal(pane_view);
        }
        self.drop_matches();
        self.find_jump = None;
        self.show_search = false;
    }

    fn await_matches(&mut self)
        ensures
            final(self)@ == awaiting_matches(old(self)@),
    {
        proof {
            reveal(pane_view);
        }
        let current = if self.find_jump.is_none() {
            None
        } else {
            self.find_current
        };
        self.drop_matches();
        self.find_current = current;
    }

    /// Looks for the matches anew; `scan` is what a search of the lines for the applied
    /// filter finds.
    pub fn rebuild_matches(&mut self, kind: BackendKind, no_needles: bool, scan: FilterScan)
        ensures
            final(self)@ == after_rebuild(
                old(self)@,
                kind,
                no_needles,
                scan.hits@,
                scan.truncated,
            ),
    {
        proof {
            reveal(after_rebuild);
        }
        self.begin_rebuild();
        if no_needles {
            self.drop_search();
        } else {
            match kind {
                BackendKind::Live => {
                    self.take_matches(scan.hits, scan.truncated);
                    self.consume_find_jump();
                },
                BackendKind::File => {
                    self.await_matches();
                    self.attach_scan();
                },
                BackendKind::Pending => {
                    self.await_matches();
                },
            }
        }
    }

    fn begin_rebuild(&mut self)
        ensures
            final(self)@ == (PaneView {
                filter_generation: old(self)@.filter_generation.wrapping_add(1),
                scan_attached: false,
                filter_busy: false,
                ..old(self)@
            }),
    {
        proof {
            reveal(pane_view);
        }
        self.filter_generation = self.filter_generation.wrapping_add(1);
        self.scan_attached = false;
        self.filter_busy = false;
    }

    fn attach_scan(&mut self)
        ensures
            final(self)@ == (PaneView { scan_attached: true, filter_busy: true, ..old(self)@ }),
    {
        proof {
            reveal(pane_view);
        }
        self.scan_attached = true;
        self.filter_busy = true;
    }

    fn commit_draft(&mut self)
        ensures
            final(self)@ == committed(old(self)@),
    {
        proof {
            reveal(pane_view);
            reveal(committed);
        }
        let current = match self.find_jump {
            Some(FindJump::FirstAt { row: _, start: _ }) => self.find_current,
            _ => None,
        };
        self.filter_applied = self.filter_draft.clone();
        self.find_current = current;
    }

    /// Commits the typed filter.
    pub fn apply_draft(&mut self, kind: BackendKind, no_needles: bool, scan: FilterScan)
        ensures
            final(self)@ == after_apply(
                old(self)@,
                kind,
                no_needles,
                scan.hits@,
                scan.truncated,
            ),
    {
        self.clear_due();
        if self.draft_is_applied() {
            if !self.is_busy() {
                self.consume_find_jump();
            }
        } else {
            self.commit_draft();
            self.rebuild_matches(kind, no_needles, scan);
        }
    }

    fn clear_due(&mut self)
        ensures
            final(self)@ == (PaneView { filter_apply_at: None, ..old(self)@ }),
    {
        proof {
            reveal(pane_view);
        }
        self.filter_apply_at = None;
    }

    /// Whether the typed filter is the one in use.
    pub fn draft_is_applied(&self) -> (r: bool)
        ensures
            r == (self@.filter_applied == self@.filter_draft),
    {
        proof {
            reveal(pane_view);
        }
        same_text(self.filter_applied.as_str(), self.filter_draft.as_str())
    }

    /// Whether a search is under way.
    pub fn is_busy(&self) -> (r: bool)
        ensures
            r == self@.filter_busy,
    {
        proof {
            reveal(pane_view);
        }
        self.filter_busy
    }

    /// Takes over the hits found in newly appended lines, up to `limit` hits in all.
    #[verifier::spinoff_prover]
    #[verifier::rlimit(40)]
    pub fn append_matches(
        &mut self,
        no_needles: bool,
        fresh: &Vec<TextHit>,
        first_row: usize,
        limit: usize,
    )
        ensures
            final(self)@ == after_append(
                old(self)@,
                no_needles,
                fresh@,
                first_row,
                limit as int,
            ),
    {
        proof {
            reveal(pane_view);
        }
        if no_needles {
            self.drop_matches();
            return;
        }
        let have: usize = self.find_hits.len();
        let full: bool = have >= limit;
        let room: usize = if full {
            0
        } else {
            limit - have
        };
        let offered: usize = if self.find_truncated {
            count_run_on_row(fresh, first_row)
        } else {
            fresh.len()
        };
        let n: usize = if offered <= room {
            offered
        } else {
            room
        };
        let hits = extended_hits(&self.find_hits, fresh, n);
        assert(self@.find_hits + fresh@.take(0) =~= self@.find_hits);
        let truncated: bool = full || self.find_truncated || fresh.len() > room;
        let rows = unique_match_rows(&hits);
        self.find_truncated = truncated;
        self.find_hits = hits;
        self.search_map = rows;
    }

    fn settle_scan(&mut self, result: FilterScanResult)
        requires
            result.generation == old(self)@.filter_generation,
        ensures
            final(self)@ == after_jump(
                PaneView {
                    show_search: old(self)@.show_search && (match_rows(result.hits@).len() > 0
                        || old(self)@.filter_applied.len() > 0),
                    ..with_matches(old(self)@, result.hits@, result.truncated)
                },
            ),
    {
        proof {
            reveal(pane_view);
        }
        let was_visible: bool = self.show_search;
        self.take_matches(result.hits, result.truncated);
        let keep: bool = was_visible && (self.search_map.len() > 0
            || !self.filter_applied.as_str().is_empty());
        self.show_search = keep;
        self.consume_find_jump();
    }

    /// Takes over what the background search has to say.
    pub fn poll_scan(&mut self, poll: ScanPoll)
        ensures
            final(self)@ == after_poll(old(self)@, poll),
    {
        if !self.has_scan() {
            return;
        }
        match poll {
            ScanPoll::Empty => {},
            ScanPoll::Disconnected => {
                self.detach_scan();
            },
            ScanPoll::Ready(result) => {
                self.detach_scan();
                if result.generation == self.generation() {
                    self.settle_scan(result);
                }
            },
        }
    }

    fn has_scan(&self) -> (r: bool)
        ensures
            r == self@.scan_attached,
    {
        proof {
            reveal(pane_view);
        }
        self.scan_attached
    }

    fn detach_scan(&mut self)
        ensures
            final(self)@ == (PaneView { scan_attached: false, filter_busy: false, ..old(self)@ }),
    {
        proof {
            reveal(pane_view);
        }
        self.scan_attached = false;
        self.filter_busy = false;
    }

    /// The filter generation that a search is started for.
    pub fn generation(&self) -> (r: u64)
        ensures
            r == self@.filter_generation,
    {
        proof {
            reveal(pane_view);
        }
        self.filter_generation
    }

    /// Notes that the filter box was edited at `now`: an emptied box is due at once, another
    /// text after the debounce time.
    pub fn filter_edited(&mut self, now: u64)
        requires
            now <= u64::MAX - FILTER_DEBOUNCE_US,
        ensures
            final(self)@ == after_typing(old(self)@, now),
    {
        proof {
            reveal(pane_view);
        }
        let at: u64 = if self.filter_draft.as_str().is_empty() {
            now
        } else {
            now + FILTER_DEBOUNCE_US
        };
        self.filter_apply_at = Some(at);
    }

    /// Whether the typed filter is due at `now`.
    pub fn filter_due(&self, now: u64) -> (r: bool)
        ensures
            r == is_due(self@, now),
    {
        proof {
            reveal(pane_view);
        }
        match self.filter_apply_at {
            Some(at) => now >= at,
            None => false,
        }
    }
}

// ---------------------------------------------------------------------------
// Showing a pane
// ---------------------------------------------------------------------------

/// What one frame of a pane does with its scroll target.
#[derive(Debug, Clone, Copy, PartialEq, Eq, Structural)]
pub struct ScrollPlan {
    pub scroll_to: Option<usize>,
    pub highlight: Option<usize>,
    /// Keep the end of the log in view.
    pub stick_to_bottom: bool,
}

/// Whether the result list stands below the log.
pub open spec fn search_visible(p: PaneView) -> bool {
    p.show_search && (p.search_map.len() > 0 || p.filter_busy || p.filter_applied.len() > 0)
}

/// The pane after a frame was planned: a held target stays, another is used up.
pub open spec fn after_frame(p: PaneView) -> PaneView {
    if p.scroll_hold_frames > 0 {
        PaneView { scroll_hold_frames: (p.scroll_hold_frames - 1) as u8, ..p }
    } else {
        PaneView { scroll_to_master: None, ..p }
    }
}

/// The plan for one frame. The live tail is followed unless something is being shown; with
/// the result list open only a scroll target counts.
pub open spec fn frame_plan(p: PaneView, kind: BackendKind, auto_scroll: bool) -> ScrollPlan {
    let pinned = if search_visible(p) {
        p.scroll_to_master is Some
    } else {
        p.highlight_master is Some || p.parse_row is Some || p.scroll_to_master is Some
            || p.scroll_hold_frames > 0
    };
    ScrollPlan {
        scroll_to: p.scroll_to_master,
        highlight: p.highlight_master,
        stick_to_bottom: kind == BackendKind::Live && auto_scroll && !pinned,
    }
}

/// The first row index from `i` on that equals `row`.
pub open spec fn row_position(rows: Seq<usize>, row: usize, i: int) -> Option<int>
    decreases rows.len() - i,
{
    if i < 0 || i >= rows.len() {
        None
    } else if rows[i] == row {
        Some(i)
    } else {
        row_position(rows, row, i + 1)
    }
}

/// The first hit from index `i` on that lies on `row`.
pub open spec fn hit_on_row(hits: Seq<TextHit>, row: usize, i: int) -> Option<usize>
    decreases hits.len() - i,
{
    if i < 0 || i >= hits.len() {
        None
    } else if hits[i].row == row {
        Some(i as usize)
    } else {
        hit_on_row(hits, row, i + 1)
    }
}

/// The pane after entry `search_row` of the result list was clicked.
pub open spec fn after_result_click(p: PaneView, search_row: usize) -> PaneView {
    if search_row < p.search_map.len() {
        let row = p.search_map[search_row as int];
        PaneView {
            parse_row: None,
            find_current: hit_on_row(p.find_hits, row, 0),
            ..shown_at(p, row)
        }
    } else {
        p
    }
}

/// What the find toolbar says about the matches.
#[derive(Debug, Clone, Copy, PartialEq, Eq, Structural)]
pub enum FindCount {
    Scanning,
    Blank,
    NoMatches,
    At { current: usize, total: usize, truncated: bool },
}

/// The note beside the find box; the current match is counted from one, none counts as zero.
pub open spec fn find_count_of(p: PaneView) -> FindCount {
    if p.filter_busy {
        FindCount::Scanning
    } else if p.filter_applied.len() == 0 {
        FindCount::Blank
    } else if p.find_hits.len() == 0 {
        FindCount::NoMatches
    } else {
        FindCount::At {
            current: match p.find_current {
                Some(i) => (i + 1) as usize,
                None => 0,
            },
            total: p.find_hits.len() as usize,
            truncated: p.find_truncated,
        }
    }
}

impl PaneState {
    /// Drops the parse result of a pane that does not parse.
    pub fn drop_unused_parse(&mut self)
        ensures
            final(self)@ == if old(self)@.auto_parse {
                old(self)@
            } else {
                PaneView { parse_tip: None, parse_hint: Seq::empty(), ..old(self)@ }
            },
    {
        proof {
            reveal(pane_view);
        }
        if !self.auto_parse {
            self.parse_tip = None;
            self.parse_hint = String::new();
        }
    }

    /// Whether the result list stands below the log.
    pub fn is_search_visible(&self) -> (r: bool)
        ensures
            r == search_visible(self@),
    {
        proof {
            reveal(pane_view);
        }
        self.show_search && (self.search_map.len() > 0 || self.filter_busy
            || !self.filter_applied.as_str().is_empty())
    }

    fn current_plan(&self, kind: BackendKind, auto_scroll: bool) -> (plan: ScrollPlan)
        ensures
            plan == frame_plan(self@, kind, auto_scroll),
    {
        proof {
            reveal(pane_view);
        }
        let pinned: bool = if self.is_search_visible() {
            self.scroll_to_master.is_some()
        } else {
            self.highlight_master.is_some() || self.parse_row.is_some()
                || self.scroll_to_master.is_some() || self.scroll_hold_frames > 0
        };
        let live: bool = match kind {
            BackendKind::Live => true,
            _ => false,
        };
        ScrollPlan {
            scroll_to: self.scroll_to_master,
            highlight: self.highlight_master,
            stick_to_bottom: live && auto_scroll && !pinned,
        }
    }

    fn advance_frame(&mut self)
        ensures
            final(self)@ == after_frame(old(self)@),
    {
        proof {
            reveal(pane_view);
        }
        if self.scroll_hold_frames > 0 {
            self.scroll_hold_frames = self.scroll_hold_frames - 1;
        } else {
            self.scroll_to_master = None;
        }
    }

    /// Plans one frame.
    pub fn plan_frame(&mut self, kind: BackendKind, auto_scroll: bool) -> (plan: ScrollPlan)
        ensures
            plan == frame_plan(old(self)@, kind, auto_scroll),
            final(self)@ == after_frame(old(self)@),
    {
        let plan = self.current_plan(kind, auto_scroll);
        self.advance_frame();
        plan
    }

    /// The entry of the result list that stands for the marked line.
    pub fn active_result_row(&self) -> (r: Option<usize>)
        ensures
            match (r, self@.highlight_master) {
                (Some(i), Some(row)) => row_position(self@.search_map, row, 0) == Some(i as int),
                (None, Some(row)) => row_position(self@.search_map, row, 0) is None,
                (r, None) => r is None,
            },
    {
        proof {
            reveal(pane_view);
        }
        let row: usize = match self.highlight_master {
            Some(row) => row,
            None => {
                return None;
            },
        };
        let mut i: usize = 0;
        while i < self.search_map.len()
            invariant
                i <= self.search_map@.len(),
                self@.highlight_master == Some(row),
                row_position(self.search_map@, row, 0) == row_position(
                    self.search_map@,
                    row,
                    i as int,
                ),
            decreases self.search_map@.len() - i,
        {
            if self.search_map[i] == row {
                proof {
                    reveal(pane_view);
                }
                return Some(i);
            }
            i = i + 1;
        }
        None
    }

    fn find_hit_on_row(&self, row: usize) -> (r: Option<usize>)
        ensures
            r == hit_on_row(self@.find_hits, row, 0),
    {
        proof {
            reveal(pane_view);
        }
        let mut i: usize = 0;
        while i < self.find_hits.len()
            invariant
                i <= self.find_hits@.len(),
                hit_on_row(self.find_hits@, row, 0) == hit_on_row(
                    self.find_hits@,
                    row,
                    i as int,
                ),
            decreases self.find_hits@.len() - i,
        {
            if self.find_hits[i].row == row {
                proof {
                    reveal(pane_view);
                }
                return Some(i);
            }
            i = i + 1;
        }
        None
    }

    /// Shows the line of entry `search_row` of the result list.
    pub fn click_result(&mut self, search_row: usize)
        ensures
            final(self)@ == after_result_click(old(self)@, search_row),
    {
        proof {
            reveal(pane_view);
        }
        if search_row < self.search_map.len() {
            let row: usize = self.search_map[search_row];
            let current = self.find_hit_on_row(row);
            self.show_at(row);
            self.parse_row = None;
            self.find_current = current;
        }
    }

    /// The note beside the find box.
    pub fn find_count(&self) -> (r: FindCount)
        requires
            self@.find_current matches Some(i) ==> i < usize::MAX,
        ensures
            r == find_count_of(self@),
    {
        proof {
            reveal(pane_view);
        }
        if self.filter_busy {
            FindCount::Scanning
        } else if self.filter_applied.as_str().is_empty() {
            FindCount::Blank
        } else if self.find_hits.len() == 0 {
            FindCount::NoMatches
        } else {
            let current: usize = match self.find_current {
                Some(i) => i + 1,
                None => 0,
            };
            FindCount::At {
                current,
                total: self.find_hits.len(),
                truncated: self.find_truncated,
            }
        }
    }

    /// The line that the pane stands at: the caret, the marked line or the first visible one.
    pub fn focus_row(&self) -> (r: usize)
        ensures
            r == pane_focus_row(self@),
    {
        proof {
            reveal(pane_view);
        }
        match self.sel_focus {
            Some(caret) => caret.row,
            None => match self.highlight_master {
                Some(row) => row,
                None => match self.last_view_row {
                    Some(row) => row,
                    None => 0,
                },
            },
        }
    }
}

/// The line that a pane stands at.
pub open spec fn pane_focus_row(p: PaneView) -> usize {
    match p.sel_focus {
        Some(caret) => caret.row,
        None => match p.highlight_master {
            Some(row) => row,
            None => match p.last_view_row {
                Some(row) => row,
                None => 0,
            },
        },
    }
}

/// Whether a line carries a protocol message worth decoding.
pub open spec fn parses(line: Seq<char>) -> bool {
    has_text(line, "ASK "@) || has_text(line, "FSK "@)
}

/// Shows what decoding `line` gave: the tip, or a hint that says why there is none.
pub fn apply_line_parse(
    pane: &mut PaneState,
    line: &str,
    tip: Option<Vec<TipLine>>,
    failed_hint: String,
    skip_hint: String,
)
    ensures
        final(pane)@ == (if !parses(line@) {
            PaneView { parse_tip: None, parse_hint: skip_hint@, ..old(pane)@ }
        } else if tip is None {
            PaneView { parse_tip: None, parse_hint: failed_hint@, ..old(pane)@ }
        } else {
            PaneView { parse_tip: tip, parse_hint: Seq::empty(), ..old(pane)@ }
        }),
{
    proof {
        reveal(pane_view);
    }
    if contains_text(line, "ASK ") || contains_text(line, "FSK ") {
        let hint = if tip.is_none() {
            failed_hint
        } else {
            String::new()
        };
        pane.parse_tip = tip;
        pane.parse_hint = hint;
    } else {
        pane.parse_tip = None;
        pane.parse_hint = skip_hint;
    }
}

// ---------------------------------------------------------------------------
// Single fields
// ---------------------------------------------------------------------------

impl PaneState {
    /// Queues a jump; it is carried out at once unless a search is under way.
    pub fn queue_jump(&mut self, jump: FindJump)
        ensures
            final(self)@ == ({
                let p = PaneView { find_jump: Some(jump), ..old(self)@ };
                if p.filter_busy {
                    p
                } else {
                    after_jump(p)
                }
            }),
    {
        self.set_jump(jump);
        if !self.is_busy() {
            self.consume_find_jump();
        }
    }

    /// Notes a jump to be carried out later.
    pub fn set_jump(&mut self, jump: FindJump)
        ensures
            final(self)@ == (PaneView { find_jump: Some(jump), ..old(self)@ }),
    {
        proof {
            reveal(pane_view);
        }
        self.find_jump = Some(jump);
    }

    /// Opens or closes the result list.
    pub fn set_show_search(&mut self, shown: bool)
        ensures
            final(self)@ == (PaneView { show_search: shown, ..old(self)@ }),
    {
        proof {
            reveal(pane_view);
        }
        self.show_search = shown;
    }

    /// Puts a text into the filter box.
    pub fn set_draft(&mut self, draft: String)
        ensures
            final(self)@ == (PaneView { filter_draft: draft@, ..old(self)@ }),
    {
        proof {
            reveal(pane_view);
        }
        self.filter_draft = draft;
    }

    /// Drops the find position unless a jump is pending.
    pub fn forget_place(&mut self)
        ensures
            final(self)@ == (PaneView {
                find_current: if old(self)@.find_jump is None {
                    None
                } else {
                    old(self)@.find_current
                },
                ..old(self)@
            }),
    {
        proof {
            reveal(pane_view);
        }
        let current = if self.find_jump.is_none() {
            None
        } else {
            self.find_current
        };
        self.find_current = current;
    }

    /// Whether a filter is in use.
    pub fn has_filter(&self) -> (r: bool)
        ensures
            r == (self@.filter_applied.len() > 0),
    {
        proof {
            reveal(pane_view);
        }
        !self.filter_applied.as_str().is_empty()
    }

    /// Follows the tail of a live capture again.
    pub fn pin(&mut self)
        ensures
            final(self)@ == pinned(old(self)@),
    {
        proof {
            reveal(pane_view);
        }
        self.scroll_pinned = true;
    }

    /// Gives up a background search and the selection.
    pub fn detach_for_edit(&mut self)
        ensures
            final(self)@ == without_selection(
                PaneView { scan_attached: false, filter_busy: false, ..old(self)@ },
            ),
    {
        self.detach_scan();
        self.clear_sel();
    }

    /// Asks for the keyboard focus in the filter box; a selected text becomes the draft.
    pub fn prefill_find(&mut self)
        ensures
            final(self)@ == prefilled(old(self)@),
    {
        proof {
            reveal(pane_view);
        }
        let use_selection: bool = self.has_text_selection()
            && !self.last_selected_text.as_str().is_empty();
        if use_selection {
            self.filter_draft = self.last_selected_text.clone();
        }
        self.focus_filter_requested = true;
    }

    /// The selected text, if a selection stands for one.
    pub fn has_selected_text(&self) -> (r: bool)
        ensures
            r == selection_usable(self@),
    {
        proof {
            reveal(pane_view);
        }
        self.has_text_selection() && !self.last_selected_text.as_str().is_empty()
    }

    /// Makes the selected text the draft.
    pub fn draft_from_selection(&mut self)
        ensures
            final(self)@ == (PaneView {
                filter_draft: old(self)@.last_selected_text,
                ..old(self)@
            }),
    {
        proof {
            reveal(pane_view);
        }
        self.filter_draft = self.last_selected_text.clone();
    }

    /// The end of the selection that was set first.
    pub fn anchor(&self) -> (r: Option<TextCaret>)
        ensures
            r == self@.sel_anchor,
    {
        proof {
            reveal(pane_view);
        }
        self.sel_anchor
    }

    /// The end of the selection that was set last.
    pub fn focus(&self) -> (r: Option<TextCaret>)
        ensures
            r == self@.sel_focus,
    {
        proof {
            reveal(pane_view);
        }
        self.sel_focus
    }

    /// The line around which the pane is shown.
    pub fn anchor_row(&self) -> (r: usize)
        ensures
            r == pane_anchor_row(self@),
    {
        proof {
            reveal(pane_view);
        }
        match self.scroll_to_master {
            Some(row) => row,
            None => match self.highlight_master {
                Some(row) => row,
                None => match self.last_view_row {
                    Some(row) => row,
                    None => 0,
                },
            },
        }
    }

    /// Reads and clears the requests that the pane left for its tab: find, go to line.
    pub fn take_requests(&mut self) -> (r: (bool, bool))
        ensures
            r == (old(self)@.request_find, old(self)@.request_goto),
            final(self)@ == (PaneView { request_find: false, request_goto: false, ..old(self)@ }),
    {
        proof {
            reveal(pane_view);
        }
        let r = (self.request_find, self.request_goto);
        self.request_find = false;
        self.request_goto = false;
        r
    }
}

/// The pane with the live tail followed again.
pub open spec fn pinned(p: PaneView) -> PaneView {
    PaneView { scroll_pinned: true, ..p }
}

/// Whether a selection stands for a text.
pub open spec fn selection_usable(p: PaneView) -> bool {
    p.sel_anchor is Some && p.sel_focus is Some && p.sel_anchor != p.sel_focus
        && p.last_selected_text.len() > 0
}

/// The pane with the keyboard focus asked for and the selected text as draft.
pub open spec fn prefilled(p: PaneView) -> PaneView {
    PaneView {
        focus_filter_requested: true,
        filter_draft: if selection_usable(p) {
            p.last_selected_text
        } else {
            p.filter_draft
        },
        ..p
    }
}

/// The line around which a pane is shown.
pub open spec fn pane_anchor_row(p: PaneView) -> usize {
    match p.scroll_to_master {
        Some(row) => row,
        None => match p.highlight_master {
            Some(row) => row,
            None => match p.last_view_row {
                Some(row) => row,
                None => 0,
            },
        },
    }
}

/// The pane after its filter box was edited at `now`.
pub open spec fn after_typing(p: PaneView, now: u64) -> PaneView {
    PaneView {
        filter_apply_at: Some(
            if p.filter_draft.len() == 0 {
                now
            } else {
                (now + FILTER_DEBOUNCE_US) as u64
            },
        ),
        ..p
    }
}

/// Whether the typed filter of a pane is due at `now`.
pub open spec fn is_due(p: PaneView, now: u64) -> bool {
    p.filter_apply_at matches Some(at) && now >= at
}

} // verus!
