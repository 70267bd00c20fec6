//! A log tab: its lines, its panes, the go-to dialog and the editor.
use vstd::prelude::*;
use vstd::string::*;

use crate::editor::{EditorView, LineEditorSession, MatchStatus};
use crate::pane::{BackendKind, FilterScan, FindJump, PaneState, PaneView, ScanPoll, TextCaret};
use crate::{editor, pane, search, text};

verus! {

/// The largest number of panes in a tab.
pub const MAX_PANES: usize = 16;

/// Lines before and after the anchor that are read ahead when a tab is activated.
pub const PREFETCH_BEFORE: usize = 256;

pub const PREFETCH_AFTER: usize = 1024;

/// Hands out identities for tabs.
pub struct ViewIds {
    pub next: u64,
}

impl ViewIds {
    pub fn new() -> (r: Self)
        ensures
            r.next == 1,
    {
        ViewIds { next: 1 }
    }

    /// A number that was not handed out before.
    pub fn allocate(&mut self) -> (r: u64)
        requires
            old(self).next < u64::MAX,
        ensures
            r == old(self).next,
            final(self).next == old(self).next + 1,
    {
        let id: u64 = self.next;
        self.next = self.next + 1;
        id
    }
}

// ---------------------------------------------------------------------------
// Lines
// ---------------------------------------------------------------------------

/// The newest lines of a capture; older ones leave at the front.
pub struct LiveLogStore {
    pub lines: Vec<String>,
    pub capacity: usize,
}

/// Where the lines of a tab come from.
pub enum TabBackend {
    Live(LiveLogStore),
    File(Vec<String>),
    Pending,
}

/// Model of [`TabBackend`].
pub enum BackendView {
    Live { lines: Seq<Seq<char>>, capacity: usize },
    File { lines: Seq<Seq<char>> },
    Pending,
}

impl View for TabBackend {
    type V = BackendView;

    open spec fn view(&self) -> BackendView {
        match self {
            TabBackend::Live(store) => BackendView::Live {
                lines: search::views(store.lines@),
                capacity: store.capacity,
            },
            TabBackend::File(lines) => BackendView::File { lines: search::views(lines@) },
            TabBackend::Pending => BackendView::Pending,
        }
    }
}

impl BackendView {
    /// The lines that can be shown.
    pub open spec fn lines(self) -> Seq<Seq<char>> {
        match self {
            BackendView::Live { lines, capacity } => lines,
            BackendView::File { lines } => lines,
            BackendView::Pending => Seq::empty(),
        }
    }

    pub open spec fn kind(self) -> BackendKind {
        match self {
            BackendView::Live { lines, capacity } => BackendKind::Live,
            BackendView::File { lines } => BackendKind::File,
            BackendView::Pending => BackendKind::Pending,
        }
    }
}

/// How many lines leave when `added` lines join `have` lines in a store for `capacity`.
pub open spec fn overflow_count(have: int, added: int, capacity: int) -> int {
    if have + added > capacity {
        have + added - capacity
    } else {
        0
    }
}

/// Where the lines of a batch stand once it has joined a store: the first line of the batch that
/// stays, and the row that this line gets. `lines` is how many lines the store had.
pub open spec fn fresh_place(lines: int, added: int, capacity: int) -> (int, int) {
    let evicted = overflow_count(lines, added, capacity);
    if evicted > lines {
        (evicted - lines, 0)
    } else {
        (0, lines - evicted)
    }
}

/// Where the lines of a batch will stand once it has joined a store.
pub fn fresh_span(lines: usize, added: usize, capacity: usize) -> (r: (usize, usize))
    ensures
        (r.0 as int, r.1 as int) == fresh_place(lines as int, added as int, capacity as int),
        r.0 <= added,
        r.1 <= lines,
{
    if added > capacity {
        (added - capacity, 0)
    } else if lines > capacity - added {
        (0, capacity - added)
    } else {
        (0, lines)
    }
}

/// Law: the lines of a batch that stay in a store stand, in order, from the row that was told
/// to the end.
pub proof fn law_fresh_lines_stand_at_their_rows(
    before: Seq<Seq<char>>,
    batch: Seq<Seq<char>>,
    capacity: int,
)
    requires
        0 <= capacity,
    ensures
        ({
            let p = fresh_place(before.len() as int, batch.len() as int, capacity);
            let after = (before + batch).skip(
                overflow_count(before.len() as int, batch.len() as int, capacity),
            );
            &&& p.1 + (batch.len() - p.0) == after.len()
            &&& forall|i: int|
                0 <= i < batch.len() - p.0 ==> after[p.1 + i] == #[trigger] batch[p.0 + i]
        }),
{
}

impl LiveLogStore {
    pub fn new(capacity: usize) -> (r: Self)
        ensures
            r.capacity == capacity,
            r.lines@ == Seq::<String>::empty(),
    {
        LiveLogStore { lines: Vec::new(), capacity }
    }

    /// Adds lines at the end; the oldest ones leave so that `capacity` remain. Returns how
    /// many left.
    pub fn append_lines(&mut self, lines: Vec<String>) -> (evicted: usize)
        ensures
            final(self).capacity == old(self).capacity,
            evicted == overflow_count(
                old(self).lines@.len() as int,
                lines@.len() as int,
                old(self).capacity as int,
            ),
            final(self).lines@ == (old(self).lines@ + lines@).skip(evicted as int),
    {
        let mut added = lines;
        let ghost before = self.lines@;
        let ghost fresh = added@;
        self.lines.append(&mut added);
        assert(self.lines@ =~= before + fresh);
        if self.lines.len() > self.capacity {
            let evicted: usize = self.lines.len() - self.capacity;
            let kept = self.lines.split_off(evicted);
            assert(kept@ =~= (before + fresh).skip(evicted as int));
            self.lines = kept;
            evicted
        } else {
            assert((before + fresh).skip(0) =~= before + fresh);
            0
        }
    }
}

/// Law: a live capture never holds more than its capacity, and a line that stays is found at
/// its old row less the number of lines that left.
pub proof fn law_live_lines_keep_their_text(
    before: Seq<Seq<char>>,
    added: Seq<Seq<char>>,
    capacity: int,
    row: int,
)
    requires
        0 <= capacity,
        0 <= row < before.len(),
    ensures
        ({
            let e = overflow_count(before.len() as int, added.len() as int, capacity);
            let after = (before + added).skip(e);
            &&& after.len() <= capacity || e == 0
            &&& after.len() <= capacity || before.len() + added.len() <= capacity
            &&& row >= e ==> after[row - e] == before[row]
        }),
{
}

impl TabBackend {
    /// How many lines can be shown.
    pub fn line_count(&self) -> (r: usize)
        ensures
            r == self@.lines().len(),
    {
        match self {
            TabBackend::Live(store) => store.lines.len(),
            TabBackend::File(lines) => lines.len(),
            TabBackend::Pending => 0,
        }
    }

    /// The text of a line.
    pub fn line_at(&self, index: usize) -> (r: Option<String>)
        ensures
            match r {
                Some(line) => index < self@.lines().len() && line@ == self@.lines()[index as int],
                None => index >= self@.lines().len(),
            },
    {
        match self {
            TabBackend::Live(store) => if index < store.lines.len() {
                Some(store.lines[index].clone())
            } else {
                None
            },
            TabBackend::File(lines) => if index < lines.len() {
                Some(lines[index].clone())
            } else {
                None
            },
            TabBackend::Pending => None,
        }
    }

    pub fn kind(&self) -> (r: BackendKind)
        ensures
            r == self@.kind(),
    {
        match self {
            TabBackend::Live(_) => BackendKind::Live,
            TabBackend::File(_) => BackendKind::File,
            TabBackend::Pending => BackendKind::Pending,
        }
    }
}

// ---------------------------------------------------------------------------
// The page
// ---------------------------------------------------------------------------

/// Settings of a tab that hold for all of its panes.
#[derive(Debug, Clone, Copy, PartialEq, Eq, Structural)]
pub struct ViewOptions {
    pub split_enabled: bool,
    pub pane_count: usize,
    pub same_page: bool,
    pub case_sensitive: bool,
    pub selected_pane: usize,
    pub auto_scroll: bool,
    /// Matches are stale: lines were appended while the tab was hidden.
    pub filter_dirty: bool,
    /// The largest number of matches that a pane keeps.
    pub match_limit: usize,
}

/// The go-to-line dialog.
pub struct GotoDialog {
    pub open: bool,
    pub focus_requested: bool,
    pub draft: String,
}

/// Model of [`GotoDialog`].
pub struct GotoView {
    pub open: bool,
    pub focus_requested: bool,
    pub draft: Seq<char>,
}

impl View for GotoDialog {
    type V = GotoView;

    open spec fn view(&self) -> GotoView {
        GotoView { open: self.open, focus_requested: self.focus_requested, draft: self.draft@ }
    }
}

/// Editing state of a tab.
pub struct EditState {
    pub mode: bool,
    pub session: LineEditorSession,
    pub dirty: bool,
    pub status: String,
    pub find: String,
    pub replace: String,
    pub show_find: bool,
    pub match_status: MatchStatus,
    pub exit_confirm_open: bool,
}

/// Model of [`EditState`].
pub struct EditStateView {
    pub mode: bool,
    pub session: EditorView,
    pub dirty: bool,
    pub status: Seq<char>,
    pub find: Seq<char>,
    pub replace: Seq<char>,
    pub show_find: bool,
    pub match_status: MatchStatus,
    pub exit_confirm_open: bool,
}

impl View for EditState {
    type V = EditStateView;

    open spec fn view(&self) -> EditStateView {
        EditStateView {
            mode: self.mode,
            session: self.session@,
            dirty: self.dirty,
            status: self.status@,
            find: self.find@,
            replace: self.replace@,
            show_find: self.show_find,
            match_status: self.match_status,
            exit_confirm_open: self.exit_confirm_open,
        }
    }
}

/// A log tab.
pub struct LogTabPage {
    pub view_id: u64,
    pub live: bool,
    pub filepath: Option<String>,
    pub title: String,
    pub loading: bool,
    /// Lines indexed so far while a file is being loaded.
    pub index_progress: usize,
    pub backend: TabBackend,
    pub panes: Vec<PaneState>,
    pub options: ViewOptions,
    pub goto: GotoDialog,
    pub edit: EditState,
    /// A file reload is under way.
    pub reload_active: bool,
}

/// Model of [`LogTabPage`].
pub struct PageView {
    pub view_id: u64,
    pub live: bool,
    pub filepath: Option<Seq<char>>,
    pub title: Seq<char>,
    pub loading: bool,
    pub index_progress: usize,
    pub backend: BackendView,
    pub panes: Seq<PaneView>,
    pub options: ViewOptions,
    pub goto: GotoView,
    pub edit: EditStateView,
    pub reload_active: bool,
}

/// The models of a list of panes.
pub open spec fn pane_views(panes: Seq<PaneState>) -> Seq<PaneView> {
    Seq::new(panes.len(), |i: int| panes[i]@)
}

/// The text of an optional string.
pub open spec fn opt_text(s: Option<String>) -> Option<Seq<char>> {
    match s {
        Some(v) => Some(v@),
        None => None,
    }
}

/// The model of a tab.
#[verifier::opaque]
pub open spec fn page_view(page: LogTabPage) -> PageView {
    PageView {
        view_id: page.view_id,
        live: page.live,
        filepath: opt_text(page.filepath),
        title: page.title@,
        loading: page.loading,
        index_progress: page.index_progress,
        backend: page.backend@,
        panes: pane_views(page.panes@),
        options: page.options,
        goto: page.goto@,
        edit: page.edit@,
        reload_active: page.reload_active,
    }
}

impl View for LogTabPage {
    type V = PageView;

    open spec fn view(&self) -> PageView {
        page_view(*self)
    }
}

/// The options of a new tab.
pub open spec fn fresh_options(match_limit: usize) -> ViewOptions {
    ViewOptions {
        split_enabled: false,
        pane_count: 2,
        same_page: false,
        case_sensitive: false,
        selected_pane: 0,
        auto_scroll: true,
        filter_dirty: false,
        match_limit,
    }
}

/// The editing state of a new tab.
pub open spec fn fresh_edit() -> EditStateView {
    EditStateView {
        mode: false,
        session: editor::fresh_editor(Seq::empty()),
        dirty: false,
        status: Seq::empty(),
        find: Seq::empty(),
        replace: Seq::empty(),
        show_find: false,
        match_status: MatchStatus::Blank,
        exit_confirm_open: false,
    }
}

/// A new tab with one pane.
pub open spec fn fresh_page(
    view_id: u64,
    live: bool,
    filepath: Option<Seq<char>>,
    title: Seq<char>,
    backend: BackendView,
    loading: bool,
    match_limit: usize,
) -> PageView {
    PageView {
        view_id,
        live,
        filepath,
        title,
        loading,
        index_progress: 0,
        backend,
        panes: seq![pane::fresh_pane()],
        options: fresh_options(match_limit),
        goto: GotoView { open: false, focus_requested: false, draft: Seq::empty() },
        edit: fresh_edit(),
        reload_active: false,
    }
}

proof fn lemma_update_pane(panes: Seq<PaneState>, i: int, p: PaneState)
    requires
        0 <= i < panes.len(),
    ensures
        pane_views(panes.update(i, p)) == pane_views(panes).update(i, p@),
{
    assert(pane_views(panes.update(i, p)) =~= pane_views(panes).update(i, p@));
}

impl LogTabPage {
    fn assemble(
        view_id: u64,
        live: bool,
        filepath: Option<String>,
        title: String,
        backend: TabBackend,
        loading: bool,
        match_limit: usize,
    ) -> (r: Self)
        ensures
            r@ == fresh_page(
                view_id,
                live,
                opt_text(filepath),
                title@,
                backend@,
                loading,
                match_limit,
            ),
    {
        proof {
            reveal(page_view);
        }
        let mut panes: Vec<PaneState> = Vec::new();
        panes.push(PaneState::new());
        assert(pane_views(panes@) =~= seq![pane::fresh_pane()]);
        LogTabPage {
            view_id,
            live,
            filepath,
            title,
            loading,
            index_progress: 0,
            backend,
            panes,
            options: ViewOptions {
                split_enabled: false,
                pane_count: 2,
                same_page: false,
                case_sensitive: false,
                selected_pane: 0,
                auto_scroll: true,
                filter_dirty: false,
                match_limit,
            },
            goto: GotoDialog { open: false, focus_requested: false, draft: String::new() },
            edit: EditState {
                mode: false,
                session: LineEditorSession::new(),
                dirty: false,
                status: String::new(),
                find: String::new(),
                replace: String::new(),
                show_find: false,
                match_status: MatchStatus::Blank,
                exit_confirm_open: false,
            },
            reload_active: false,
        }
    }

    /// The tab of the running capture.
    pub fn live_tab(
        ids: &mut ViewIds,
        title: String,
        capacity: usize,
        match_limit: usize,
    ) -> (r: Self)
        requires
            old(ids).next < u64::MAX,
        ensures
            final(ids).next == old(ids).next + 1,
            r@ == fresh_page(
                old(ids).next,
                true,
                None,
                title@,
                (BackendView::Live { lines: Seq::empty(), capacity }),
                false,
                match_limit,
            ),
    {
        let view_id: u64 = ids.allocate();
        let store = LiveLogStore::new(capacity);
        assert(search::views(store.lines@) =~= Seq::empty());
        LogTabPage::assemble(view_id, true, None, title, TabBackend::Live(store), false, match_limit)
    }

    /// The tab of a file that is still to be loaded. `stem` is the file name without its
    /// extension, where the path has one; the title is that name or else the path.
    pub fn file_tab_empty(
        ids: &mut ViewIds,
        path: String,
        stem: Option<String>,
        match_limit: usize,
    ) -> (r: Self)
        requires
            old(ids).next < u64::MAX,
        ensures
            final(ids).next == old(ids).next + 1,
            r@ == fresh_page(
                old(ids).next,
                false,
                Some(path@),
                match stem {
                    Some(s) => s@,
                    None => path@,
                },
                BackendView::Pending,
                true,
                match_limit,
            ),
    {
        let view_id: u64 = ids.allocate();
        let title = match stem {
            Some(s) => s,
            None => path.clone(),
        };
        LogTabPage::assemble(
            view_id,
            false,
            Some(path),
            title,
            TabBackend::Pending,
            true,
            match_limit,
        )
    }

    /// Changes the title.
    pub fn set_title(&mut self, title: String)
        ensures
            final(self)@ == (PageView { title: title@, ..old(self)@ }),
    {
        proof {
            reveal(page_view);
        }
        self.title = title;
    }

    /// The title.
    pub fn title_text(&self) -> (r: String)
        ensures
            r@ == self@.title,
    {
        proof {
            reveal(page_view);
        }
        self.title.clone()
    }

    /// The title with a mark for unsaved edits.
    pub fn display_title(&self) -> (r: String)
        ensures
            r@ == title_shown(self@),
    {
        proof {
            reveal(page_view);
        }
        if self.edit.dirty {
            text::join2(self.title.as_str(), " *")
        } else {
            self.title.clone()
        }
    }
}

// ---------------------------------------------------------------------------
// Panes and filters
// ---------------------------------------------------------------------------

/// A number of panes that a tab can have.
pub open spec fn clamp_panes(n: int) -> int {
    if n < 1 {
        1
    } else if n > MAX_PANES {
        MAX_PANES as int
    } else {
        n
    }
}

/// The panes brought to the number asked for: new ones at the end, surplus ones dropped.
pub open spec fn resized_panes(panes: Seq<PaneView>, n: int) -> Seq<PaneView> {
    Seq::new(
        clamp_panes(n) as nat,
        |i: int|
            if i < panes.len() {
                panes[i]
            } else {
                pane::fresh_pane()
            },
    )
}

/// Whether the filter of pane `idx` is out of use: only the first pane of an undivided tab has
/// one.
pub open spec fn filter_hidden(options: ViewOptions, idx: int) -> bool {
    !options.split_enabled && idx > 0
}

/// Whether there is nothing to look for.
pub open spec fn nothing_to_find(
    options: ViewOptions,
    idx: int,
    filter: Seq<char>,
    no_needles: bool,
) -> bool {
    filter_hidden(options, idx) || filter.len() == 0 || no_needles
}

/// The tab after the typed filter of pane `idx` was committed.
pub open spec fn page_after_apply(s: PageView, idx: int, scan: FilterScan) -> PageView {
    if 0 <= idx < s.panes.len() {
        PageView {
            panes: s.panes.update(
                idx,
                pane::after_apply(
                    s.panes[idx],
                    s.backend.kind(),
                    nothing_to_find(
                        s.options,
                        idx,
                        s.panes[idx].filter_draft,
                        scan.no_needles,
                    ),
                    scan.hits@,
                    scan.truncated,
                ),
            ),
            ..s
        }
    } else {
        s
    }
}

/// A pane whose matches are looked for anew after its lines changed; without a pending jump
/// the find position is dropped first.
pub open spec fn refreshed_pane(s: PageView, idx: int, scan: FilterScan) -> PaneView {
    let p = s.panes[idx];
    pane::after_rebuild(
        PaneView {
            find_current: if p.find_jump is None {
                None
            } else {
                p.find_current
            },
            ..p
        },
        s.backend.kind(),
        nothing_to_find(s.options, idx, p.filter_applied, scan.no_needles),
        scan.hits@,
        scan.truncated,
    )
}

/// The tab after the matches of all panes were looked for anew.
pub open spec fn page_refreshed(s: PageView, scans: Seq<FilterScan>) -> PageView {
    PageView {
        panes: Seq::new(s.panes.len(), |i: int| refreshed_pane(s, i, scans[i])),
        ..s
    }
}

/// The tab with a jump queued in pane `idx`, carried out unless a search is under way.
pub open spec fn page_after_jump(s: PageView, idx: int, jump: FindJump) -> PageView {
    if 0 <= idx < s.panes.len() {
        let p = PaneView { find_jump: Some(jump), ..s.panes[idx] };
        PageView {
            panes: s.panes.update(
                idx,
                if p.filter_busy {
                    p
                } else {
                    pane::after_jump(p)
                },
            ),
            ..s
        }
    } else {
        s
    }
}

/// The tab after the result list of pane `idx` was asked for.
pub open spec fn page_after_list_all(s: PageView, idx: int, scan: FilterScan) -> PageView {
    let t = page_after_apply(s, idx, scan);
    if 0 <= idx < s.panes.len() {
        PageView {
            panes: t.panes.update(
                idx,
                PaneView {
                    show_search: t.panes[idx].filter_applied.len() > 0,
                    ..t.panes[idx]
                },
            ),
            ..t
        }
    } else {
        t
    }
}

/// The tab after the typed filter of pane `idx` was committed if it is not in use yet.
pub open spec fn page_ensured(s: PageView, idx: int, scan: FilterScan) -> PageView {
    if 0 <= idx < s.panes.len() && s.panes[idx].filter_draft != s.panes[idx].filter_applied {
        page_after_apply(s, idx, scan)
    } else {
        s
    }
}

impl LogTabPage {
    /// Brings the tab to `n` panes, between one and the largest number.
    pub fn ensure_panes(&mut self, n: usize)
        ensures
            final(self)@ == (PageView {
                panes: resized_panes(old(self)@.panes, n as int),
                ..old(self)@
            }),
    {
        proof {
            reveal(page_view);
        }
        let m: usize = if n < 1 {
            1
        } else if n > MAX_PANES {
            MAX_PANES
        } else {
            n
        };
        resize_panes(&mut self.panes, m);
    }

    /// How many lines can be shown.
    pub fn line_count(&self) -> (r: usize)
        ensures
            r == self@.backend.lines().len(),
    {
        proof {
            reveal(page_view);
        }
        self.backend.line_count()
    }

    fn backend_kind(&self) -> (r: BackendKind)
        ensures
            r == self@.backend.kind(),
    {
        proof {
            reveal(page_view);
        }
        self.backend.kind()
    }

    pub(crate) fn pane_total(&self) -> (r: usize)
        ensures
            r == self@.panes.len(),
    {
        proof {
            reveal(page_view);
        }
        self.panes.len()
    }

    fn draft_finds_nothing(&self, idx: usize, no_needles: bool) -> (r: bool)
        requires
            idx < self@.panes.len(),
        ensures
            r == nothing_to_find(
                self@.options,
                idx as int,
                self@.panes[idx as int].filter_draft,
                no_needles,
            ),
    {
        proof {
            reveal(page_view);
            reveal(pane::pane_view);
        }
        (!self.options.split_enabled && idx > 0) || self.panes[idx].filter_draft.as_str().is_empty()
            || no_needles
    }

    fn applied_finds_nothing(&self, idx: usize, no_needles: bool) -> (r: bool)
        requires
            idx < self@.panes.len(),
        ensures
            r == nothing_to_find(
                self@.options,
                idx as int,
                self@.panes[idx as int].filter_applied,
                no_needles,
            ),
    {
        proof {
            reveal(page_view);
            reveal(pane::pane_view);
        }
        (!self.options.split_enabled && idx > 0)
            || self.panes[idx].filter_applied.as_str().is_empty() || no_needles
    }

    /// Commits the typed filter of pane `idx`. `scan` is what a search of the lines for it
    /// finds.
    pub fn apply_filter(&mut self, idx: usize, scan: FilterScan)
        ensures
            final(self)@ == page_after_apply(old(self)@, idx as int, scan),
    {
        if idx >= self.pane_total() {
            return;
        }
        let kind = self.backend_kind();
        let nothing: bool = self.draft_finds_nothing(idx, scan.no_needles);
        proof {
            reveal(page_view);
        }
        let ghost before = self.panes@;
        self.panes[idx].apply_draft(kind, nothing, scan);
        proof {
            lemma_update_pane(before, idx as int, self.panes@[idx as int]);
            assert(self.panes@ =~= before.update(idx as int, self.panes@[idx as int]));
        }
    }
}

fn resize_panes(panes: &mut Vec<PaneState>, m: usize)
    requires
        1 <= m <= MAX_PANES,
    ensures
        pane_views(final(panes)@) == resized_panes(pane_views(old(panes)@), m as int),
{
    let ghost before = panes@;
    while panes.len() < m
        invariant
            panes@.len() <= m || panes@.len() == before.len(),
            before.len() <= panes@.len(),
            forall|i: int| 0 <= i < before.len() ==> #[trigger] panes@[i] == before[i],
            forall|i: int|
                before.len() <= i < panes@.len() ==> (#[trigger] panes@[i])@ == pane::fresh_pane(),
        decreases m - panes@.len(),
    {
        panes.push(PaneState::new());
    }
    panes.truncate(m);
    assert(pane_views(panes@) =~= resized_panes(pane_views(before), m as int));
}

impl LogTabPage {
    /// Queues a jump in pane `idx`.
    pub fn queue_find_jump(&mut self, idx: usize, jump: FindJump)
        ensures
            final(self)@ == page_after_jump(old(self)@, idx as int, jump),
    {
        if idx >= self.pane_total() {
            return;
        }
        proof {
            reveal(page_view);
        }
        let ghost before = self.panes@;
        self.panes[idx].queue_jump(jump);
        proof {
            lemma_update_pane(before, idx as int, self.panes@[idx as int]);
            assert(self.panes@ =~= before.update(idx as int, self.panes@[idx as int]));
        }
    }

    fn open_list(&mut self, idx: usize)
        requires
            idx < old(self)@.panes.len(),
        ensures
            final(self)@ == (PageView {
                panes: old(self)@.panes.update(
                    idx as int,
                    PaneView {
                        show_search: old(self)@.panes[idx as int].filter_applied.len() > 0,
                        ..old(self)@.panes[idx as int]
                    },
                ),
                ..old(self)@
            }),
    {
        proof {
            reveal(page_view);
        }
        let ghost before = self.panes@;
        let shown: bool = self.panes[idx].has_filter();
        self.panes[idx].set_show_search(shown);
        proof {
            lemma_update_pane(before, idx as int, self.panes@[idx as int]);
            assert(self.panes@ =~= before.update(idx as int, self.panes@[idx as int]));
        }
    }

    /// Commits the filter of pane `idx` and opens its result list if there is a filter.
    pub fn list_all_matches(&mut self, idx: usize, scan: FilterScan)
        ensures
            final(self)@ == page_after_list_all(old(self)@, idx as int, scan),
    {
        self.apply_filter(idx, scan);
        if idx < self.pane_total() {
            self.open_list(idx);
        }
    }

    fn draft_pending(&self, idx: usize) -> (r: bool)
        ensures
            r == (idx < self@.panes.len() && self@.panes[idx as int].filter_draft
                != self@.panes[idx as int].filter_applied),
    {
        proof {
            reveal(page_view);
        }
        idx < self.panes.len() && !self.panes[idx].draft_is_applied()
    }

    /// Commits the filter of pane `idx` if it is not in use yet.
    pub fn ensure_filter_applied(&mut self, idx: usize, scan: FilterScan)
        ensures
            final(self)@ == page_ensured(old(self)@, idx as int, scan),
    {
        if self.draft_pending(idx) {
            self.apply_filter(idx, scan);
        }
    }

    fn write_draft(&mut self, idx: usize, draft: String)
        requires
            idx < old(self)@.panes.len(),
        ensures
            final(self)@ == (PageView {
                panes: old(self)@.panes.update(
                    idx as int,
                    PaneView { filter_draft: draft@, ..old(self)@.panes[idx as int] },
                ),
                ..old(self)@
            }),
    {
        proof {
            reveal(page_view);
        }
        let ghost before = self.panes@;
        self.panes[idx].set_draft(draft);
        proof {
            lemma_update_pane(before, idx as int, self.panes@[idx as int]);
            assert(self.panes@ =~= before.update(idx as int, self.panes@[idx as int]));
        }
    }

    /// Sets and commits the filter of a pane.
    pub fn set_pane_filter(&mut self, idx: usize, query: &str, scan: FilterScan) -> (r: Result<
        (),
        String,
    >)
        ensures
            match r {
                Ok(()) => idx < old(self)@.panes.len() && final(self)@ == page_after_apply(
                    PageView {
                        panes: old(self)@.panes.update(
                            idx as int,
                            PaneView { filter_draft: query@, ..old(self)@.panes[idx as int] },
                        ),
                        ..old(self)@
                    },
                    idx as int,
                    scan,
                ),
                Err(message) => idx >= old(self)@.panes.len() && final(self)@ == old(self)@
                    && message@ == "pane not found"@,
            },
    {
        if idx >= self.pane_total() {
            return Err("pane not found".to_owned());
        }
        self.write_draft(idx, query.to_owned());
        self.apply_filter(idx, scan);
        Ok(())
    }

    /// Whether a pane waits for a background search.
    pub fn has_background_filter(&self) -> (r: bool)
        ensures
            r == exists|i: int| 0 <= i < self@.panes.len() && (#[trigger] self@.panes[i]).filter_busy,
    {
        proof {
            reveal(page_view);
        }
        let mut i: usize = 0;
        while i < self.panes.len()
            invariant
                i <= self.panes@.len(),
                forall|k: int| 0 <= k < i ==> !(#[trigger] self.panes@[k])@.filter_busy,
            decreases self.panes@.len() - i,
        {
            if self.panes[i].is_busy() {
                proof {
                    reveal(page_view);
                    assert(self@.panes[i as int].filter_busy);
                }
                return true;
            }
            i = i + 1;
        }
        assert forall|k: int| 0 <= k < self@.panes.len() implies !(
        #[trigger] self@.panes[k]).filter_busy by {
            assert(self@.panes[k] == self.panes@[k]@);
        }
        false
    }

    fn refresh_pane(&mut self, idx: usize, scan: FilterScan)
        requires
            idx < old(self)@.panes.len(),
        ensures
            final(self)@ == (PageView {
                panes: old(self)@.panes.update(
                    idx as int,
                    refreshed_pane(old(self)@, idx as int, scan),
                ),
                ..old(self)@
            }),
    {
        let kind = self.backend_kind();
        let nothing: bool = self.applied_finds_nothing(idx, scan.no_needles);
        proof {
            reveal(page_view);
        }
        let ghost before = self.panes@;
        self.panes[idx].forget_place();
        self.panes[idx].rebuild_matches(kind, nothing, scan);
        proof {
            lemma_update_pane(before, idx as int, self.panes@[idx as int]);
            assert(self.panes@ =~= before.update(idx as int, self.panes@[idx as int]));
        }
    }

    /// Looks for the matches of all panes anew; `scans` holds what a search finds for each.
    pub fn refresh_all_views(&mut self, scans: Vec<FilterScan>)
        requires
            scans@.len() >= old(self)@.panes.len(),
        ensures
            final(self)@ == page_refreshed(old(self)@, scans@),
    {
        let ghost before = self@;
        let ghost all = scans@;
        let mut rest = scans;
        let n: usize = self.pane_total();
        let mut i: usize = 0;
        assert(all.skip(0) =~= all);
        while i < n
            invariant
                i <= n == before.panes.len(),
                all.len() >= n,
                rest@ == all.skip(i as int),
                self@.panes.len() == n,
                self@ == (PageView { panes: self@.panes, ..before }),
                forall|k: int| i <= k < n ==> #[trigger] self@.panes[k] == before.panes[k],
                forall|k: int|
                    0 <= k < i ==> #[trigger] self@.panes[k] == refreshed_pane(before, k, all[k]),
            decreases n - i,
        {
            let scan = rest.remove(0);
            assert(scan == all[i as int]);
            assert(rest@ =~= all.skip(i + 1));
            assert(refreshed_pane(self@, i as int, scan) == refreshed_pane(
                before,
                i as int,
                all[i as int],
            ));
            self.refresh_pane(i, scan);
            i = i + 1;
        }
        assert(self@.panes =~= page_refreshed(before, all).panes);
    }
}

// ---------------------------------------------------------------------------
// Lines come and go
// ---------------------------------------------------------------------------

/// All panes with everything dropped that points into the log.
pub open spec fn unfocused_panes(panes: Seq<PaneView>) -> Seq<PaneView> {
    Seq::new(panes.len(), |i: int| pane::without_navigation(panes[i]))
}

/// The tab with the lines of a loaded file.
pub open spec fn page_with_file(
    s: PageView,
    lines: Seq<Seq<char>>,
    scans: Seq<FilterScan>,
) -> PageView {
    page_refreshed(
        PageView {
            backend: BackendView::File { lines },
            loading: false,
            index_progress: lines.len() as usize,
            panes: unfocused_panes(s.panes),
            ..s
        },
        scans,
    )
}

/// The backend without its captured lines; other backends keep theirs.
pub open spec fn cleared_backend(b: BackendView) -> BackendView {
    match b {
        BackendView::Live { lines, capacity } => BackendView::Live {
            lines: Seq::empty(),
            capacity,
        },
        other => other,
    }
}

/// The tab after its display was cleared.
pub open spec fn page_cleared(s: PageView, scans: Seq<FilterScan>) -> PageView {
    page_refreshed(
        PageView {
            backend: cleared_backend(s.backend),
            options: ViewOptions { filter_dirty: false, ..s.options },
            panes: unfocused_panes(s.panes),
            ..s
        },
        scans,
    )
}

/// The first of the lines that were just appended.
pub open spec fn first_new_row(line_count: int, added: int) -> usize {
    if line_count >= added {
        (line_count - added) as usize
    } else {
        0
    }
}

/// A pane of a live tab after lines were appended: it follows the lines that left, and takes
/// over the hits in the new ones if its filter is kept up to date.
pub open spec fn pane_after_append(
    s: PageView,
    i: int,
    evicted: usize,
    update_filters: bool,
    first_row: usize,
    fresh: FilterScan,
) -> PaneView {
    let p = pane::after_front_eviction(s.panes[i], evicted);
    if update_filters {
        pane::after_append(
            p,
            nothing_to_find(s.options, i, p.filter_applied, fresh.no_needles),
            fresh.hits@,
            first_row,
            s.options.match_limit as int,
        )
    } else {
        p
    }
}

/// The tab after lines were appended. Only a live tab takes lines; `fresh` holds what a search
/// of the new lines finds for each pane.
pub open spec fn page_after_append(
    s: PageView,
    lines: Seq<Seq<char>>,
    update_filters: bool,
    fresh: Seq<FilterScan>,
) -> PageView {
    match s.backend {
        BackendView::Live { lines: have, capacity } => if lines.len() == 0 {
            s
        } else {
            let evicted = overflow_count(have.len() as int, lines.len() as int, capacity as int);
            let now = (have + lines).skip(evicted);
            PageView {
                backend: BackendView::Live { lines: now, capacity },
                options: ViewOptions { filter_dirty: !update_filters, ..s.options },
                panes: Seq::new(
                    s.panes.len(),
                    |i: int|
                        pane_after_append(
                            s,
                            i,
                            evicted as usize,
                            update_filters,
                            first_new_row(now.len() as int, lines.len() as int),
                            fresh[i],
                        ),
                ),
                ..s
            }
        },
        _ => s,
    }
}

impl LogTabPage {
    fn unfocus_panes(&mut self)
        ensures
            final(self)@ == (PageView {
                panes: unfocused_panes(old(self)@.panes),
                ..old(self)@
            }),
    {
        proof {
            reveal(page_view);
        }
        reset_panes(&mut self.panes);
    }

    fn put_file(&mut self, lines: Vec<String>)
        ensures
            final(self)@ == (PageView {
                backend: BackendView::File { lines: search::views(lines@) },
                loading: false,
                index_progress: lines@.len() as usize,
                ..old(self)@
            }),
    {
        proof {
            reveal(page_view);
        }
        self.index_progress = lines.len();
        self.backend = TabBackend::File(lines);
        self.loading = false;
    }

    /// Shows the lines of a loaded file.
    pub fn set_file_store(&mut self, lines: Vec<String>, scans: Vec<FilterScan>)
        requires
            scans@.len() >= old(self)@.panes.len(),
        ensures
            final(self)@ == page_with_file(old(self)@, search::views(lines@), scans@),
    {
        self.put_file(lines);
        self.unfocus_panes();
        self.refresh_all_views(scans);
    }

    fn empty_live(&mut self)
        ensures
            final(self)@ == (PageView {
                backend: cleared_backend(old(self)@.backend),
                options: ViewOptions { filter_dirty: false, ..old(self)@.options },
                ..old(self)@
            }),
    {
        proof {
            reveal(page_view);
        }
        match &self.backend {
            TabBackend::Live(store) => {
                let capacity: usize = store.capacity;
                let empty = LiveLogStore::new(capacity);
                assert(search::views(empty.lines@) =~= Seq::empty());
                self.backend = TabBackend::Live(empty);
            },
            _ => {},
        }
        self.options.filter_dirty = false;
    }

    /// Clears the display: the captured lines go, and with them all selections and positions.
    pub fn clear_display(&mut self, scans: Vec<FilterScan>)
        requires
            scans@.len() >= old(self)@.panes.len(),
        ensures
            final(self)@ == page_cleared(old(self)@, scans@),
    {
        self.empty_live();
        self.unfocus_panes();
        self.refresh_all_views(scans);
    }

    fn store_lines(&mut self, lines: Vec<String>) -> (evicted: usize)
        requires
            old(self).backend is Live,
        ensures
            old(self)@.backend matches BackendView::Live { lines: have, capacity } && ({
                let all = have + search::views(lines@);
                &&& evicted == overflow_count(
                    have.len() as int,
                    lines@.len() as int,
                    capacity as int,
                )
                &&& final(self)@ == (PageView {
                    backend: BackendView::Live { lines: all.skip(evicted as int), capacity },
                    ..old(self)@
                })
            }),
    {
        proof {
            reveal(page_view);
        }
        let ghost fresh = lines@;
        match &mut self.backend {
            TabBackend::Live(store) => {
                let ghost have = store.lines@;
                let evicted: usize = store.append_lines(lines);
                assert(search::views(store.lines@) =~= (search::views(have) + search::views(
                    fresh,
                )).skip(evicted as int));
                evicted
            },
            _ => 0,
        }
    }

    /// Appends captured lines to a live tab. `fresh` holds, for each pane, the hits that a
    /// search finds in the new lines, at their new rows.
    pub fn append_lines(
        &mut self,
        lines: Vec<String>,
        update_filters: bool,
        fresh: Vec<FilterScan>,
    )
        requires
            fresh@.len() >= old(self)@.panes.len(),
        ensures
            final(self)@ == page_after_append(
                old(self)@,
                search::views(lines@),
                update_filters,
                fresh@,
            ),
    {
        let live: bool = match &self.backend {
            TabBackend::Live(_) => true,
            _ => false,
        };
        proof {
            reveal(page_view);
        }
        if !live || lines.len() == 0 {
            return;
        }
        let ghost before = self@;
        let ghost texts = search::views(lines@);
        let added: usize = lines.len();
        let evicted: usize = self.store_lines(lines);
        let total: usize = self.line_count();
        let first_row: usize = if total >= added {
            total - added
        } else {
            0
        };
        let options = self.options;
        shift_panes(&mut self.panes, evicted);
        if update_filters {
            extend_panes(&mut self.panes, options, first_row, &fresh);
        }
        self.options.filter_dirty = !update_filters;
        assert(self@.panes =~= page_after_append(before, texts, update_filters, fresh@).panes);
    }
}

fn reset_panes(panes: &mut Vec<PaneState>)
    ensures
        pane_views(final(panes)@) == unfocused_panes(pane_views(old(panes)@)),
{
    let ghost before = panes@;
    let mut i: usize = 0;
    while i < panes.len()
        invariant
            i <= panes@.len() == before.len(),
            forall|k: int| i <= k < before.len() ==> #[trigger] panes@[k] == before[k],
            forall|k: int|
                0 <= k < i ==> (#[trigger] panes@[k])@ == pane::without_navigation(before[k]@),
        decreases before.len() - i,
    {
        panes[i].reset_navigation();
        i = i + 1;
    }
    assert(pane_views(panes@) =~= unfocused_panes(pane_views(before)));
}

fn shift_panes(panes: &mut Vec<PaneState>, evicted: usize)
    ensures
        final(panes)@.len() == old(panes)@.len(),
        forall|k: int|
            0 <= k < old(panes)@.len() ==> (#[trigger] final(panes)@[k])@
                == pane::after_front_eviction(old(panes)@[k]@, evicted),
{
    let ghost before = panes@;
    let mut i: usize = 0;
    while i < panes.len()
        invariant
            i <= panes@.len() == before.len(),
            forall|k: int| i <= k < before.len() ==> #[trigger] panes@[k] == before[k],
            forall|k: int|
                0 <= k < i ==> (#[trigger] panes@[k])@ == pane::after_front_eviction(
                    before[k]@,
                    evicted,
                ),
        decreases before.len() - i,
    {
        panes[i].shift_after_front_eviction(evicted);
        i = i + 1;
    }
}

fn extend_panes(
    panes: &mut Vec<PaneState>,
    options: ViewOptions,
    first_row: usize,
    fresh: &Vec<FilterScan>,
)
    requires
        fresh@.len() >= old(panes)@.len(),
    ensures
        final(panes)@.len() == old(panes)@.len(),
        forall|k: int|
            0 <= k < old(panes)@.len() ==> (#[trigger] final(panes)@[k])@ == pane::after_append(
                old(panes)@[k]@,
                nothing_to_find(
                    options,
                    k,
                    old(panes)@[k]@.filter_applied,
                    fresh@[k].no_needles,
                ),
                fresh@[k].hits@,
                first_row,
                options.match_limit as int,
            ),
{
    let ghost before = panes@;
    let mut i: usize = 0;
    while i < panes.len()
        invariant
            i <= panes@.len() == before.len(),
            fresh@.len() >= before.len(),
            forall|k: int| i <= k < before.len() ==> #[trigger] panes@[k] == before[k],
            forall|k: int|
                0 <= k < i ==> (#[trigger] panes@[k])@ == pane::after_append(
                    before[k]@,
                    nothing_to_find(
                        options,
                        k,
                        before[k]@.filter_applied,
                        fresh@[k].no_needles,
                    ),
                    fresh@[k].hits@,
                    first_row,
                    options.match_limit as int,
                ),
        decreases before.len() - i,
    {
        let nothing: bool = (!options.split_enabled && i > 0) || !panes[i].has_filter()
            || fresh[i].no_needles;
        panes[i].append_matches(nothing, &fresh[i].hits, first_row, options.match_limit);
        i = i + 1;
    }
}

// ---------------------------------------------------------------------------
// Loading and reading
// ---------------------------------------------------------------------------

/// What a file reload has to say when it is polled.
pub enum ReloadPoll {
    Empty,
    Disconnected,
    Progress { lines: usize },
    Done(Vec<String>),
    Failed(String),
}

/// The tab after loading ended without new lines.
pub open spec fn page_load_ended(s: PageView) -> PageView {
    PageView { loading: false, index_progress: s.backend.lines().len() as usize, ..s }
}

/// The tab after its reload was polled. While the user edits, nothing that was read replaces
/// the lines.
pub open spec fn page_after_reload(s: PageView, poll: ReloadPoll, scans: Seq<FilterScan>) -> PageView {
    let done = PageView { reload_active: false, ..s };
    if !s.reload_active {
        s
    } else {
        match poll {
            ReloadPoll::Empty => s,
            ReloadPoll::Progress { lines } => if s.edit.mode {
                s
            } else {
                PageView { index_progress: lines, loading: true, ..s }
            },
            ReloadPoll::Done(lines) => if s.edit.mode {
                done
            } else {
                page_with_file(done, search::views(lines@), scans)
            },
            ReloadPoll::Failed(message) => {
                let told = PageView {
                    edit: EditStateView { status: message@, ..s.edit },
                    ..done
                };
                if s.edit.mode {
                    told
                } else {
                    page_load_ended(told)
                }
            },
            ReloadPoll::Disconnected => if s.edit.mode {
                done
            } else {
                page_load_ended(done)
            },
        }
    }
}

/// The tab after the background searches of its panes were polled.
pub open spec fn page_after_polls(s: PageView, polls: Seq<ScanPoll>) -> PageView {
    PageView {
        panes: Seq::new(s.panes.len(), |i: int| pane::after_poll(s.panes[i], polls[i])),
        ..s
    }
}

/// The lines to read ahead around `anchor`: some before it, more after it, at least one.
pub open spec fn prefetch_range(anchor: usize, line_count: int) -> (usize, usize) {
    let start: int = if anchor >= PREFETCH_BEFORE {
        anchor - PREFETCH_BEFORE
    } else {
        0
    };
    let last: int = if line_count == 0 {
        1
    } else {
        line_count
    };
    let wanted: int = if anchor + PREFETCH_AFTER > usize::MAX {
        usize::MAX as int
    } else {
        anchor + PREFETCH_AFTER
    };
    let end = search::lesser(wanted, last);
    let least: int = if start + 1 > usize::MAX {
        usize::MAX as int
    } else {
        start + 1
    };
    (
        start as usize,
        (if end >= least {
            end
        } else {
            least
        }) as usize,
    )
}

/// The line around which the tab is shown.
pub open spec fn page_anchor(s: PageView) -> usize {
    if s.panes.len() > 0 {
        pane::pane_anchor_row(s.panes[0])
    } else {
        0
    }
}

impl LogTabPage {
    /// Notes how many lines of a file were indexed so far.
    pub fn set_index_progress(&mut self, lines: usize)
        ensures
            final(self)@ == (PageView { index_progress: lines, loading: true, ..old(self)@ }),
    {
        proof {
            reveal(page_view);
        }
        self.index_progress = lines;
        self.loading = true;
    }

    /// Notes that loading ended.
    pub fn finish_loading(&mut self)
        ensures
            final(self)@ == page_load_ended(old(self)@),
    {
        proof {
            reveal(page_view);
        }
        self.loading = false;
        self.index_progress = self.backend.line_count();
    }

    /// Up to `limit` lines from line `from` on.
    pub fn lines_slice(&self, from: usize, limit: usize) -> (r: Vec<String>)
        ensures
            ({
                let lines = self@.backend.lines();
                let start = search::lesser(from as int, lines.len() as int);
                search::views(r@) == lines.subrange(
                    start,
                    search::lesser(start + limit, lines.len() as int),
                )
            }),
    {
        proof {
            reveal(page_view);
        }
        let ghost lines = self@.backend.lines();
        let total: usize = self.line_count();
        let start: usize = if from < total {
            from
        } else {
            total
        };
        let end: usize = if limit < total - start {
            start + limit
        } else {
            total
        };
        let mut r: Vec<String> = Vec::new();
        let mut i: usize = start;
        assert(search::views(r@) =~= lines.subrange(start as int, start as int));
        while i < end
            invariant
                start <= i <= end <= lines.len(),
                lines == self.backend@.lines(),
                search::views(r@) == lines.subrange(start as int, i as int),
            decreases end - i,
        {
            match self.backend.line_at(i) {
                Some(line) => {
                    let ghost before = search::views(r@);
                    r.push(line);
                    assert(search::views(r@) =~= before.push(line@));
                    assert(lines.subrange(start as int, i + 1) =~= lines.subrange(
                        start as int,
                        i as int,
                    ).push(lines[i as int]));
                },
                None => {},
            }
            i = i + 1;
        }
        r
    }

    /// The last `limit` lines.
    pub fn recent_lines(&self, limit: usize) -> (r: Vec<String>)
        ensures
            ({
                let lines = self@.backend.lines();
                search::views(r@) == lines.skip(
                    lines.len() - search::lesser(limit as int, lines.len() as int),
                )
            }),
    {
        let total: usize = self.line_count();
        let start: usize = if total > limit {
            total - limit
        } else {
            0
        };
        let ghost lines = self@.backend.lines();
        assert(lines.subrange(start as int, lines.len() as int) =~= lines.skip(start as int));
        self.lines_slice(start, limit)
    }

    /// Drops the selections of all panes.
    pub fn release_display_buffers(&mut self)
        ensures
            final(self)@ == (PageView {
                panes: Seq::new(
                    old(self)@.panes.len(),
                    |i: int| pane::without_selection(old(self)@.panes[i]),
                ),
                ..old(self)@
            }),
    {
        proof {
            reveal(page_view);
        }
        let ghost before = self.panes@;
        let ghost whole = self@;
        let mut i: usize = 0;
        while i < self.panes.len()
            invariant
                i <= self.panes@.len() == before.len(),
                page_view(*self) == (PageView { panes: pane_views(self.panes@), ..whole }),
                forall|k: int| i <= k < before.len() ==> #[trigger] self.panes@[k] == before[k],
                forall|k: int|
                    0 <= k < i ==> (#[trigger] self.panes@[k])@ == pane::without_selection(
                        before[k]@,
                    ),
            decreases before.len() - i,
        {
            proof {
                reveal(page_view);
            }
            self.panes[i].clear_sel();
            i = i + 1;
        }
        assert(self@.panes =~= Seq::new(
            whole.panes.len(),
            |i: int| pane::without_selection(whole.panes[i]),
        ));
    }

    fn is_dirty(&self) -> (r: bool)
        ensures
            r == self@.options.filter_dirty,
    {
        proof {
            reveal(page_view);
        }
        self.options.filter_dirty
    }

    fn set_dirty(&mut self, dirty: bool)
        ensures
            final(self)@ == (PageView {
                options: ViewOptions { filter_dirty: dirty, ..old(self)@.options },
                ..old(self)@
            }),
    {
        proof {
            reveal(page_view);
        }
        self.options.filter_dirty = dirty;
    }

    fn anchor_line(&self) -> (r: usize)
        ensures
            r == page_anchor(self@),
    {
        proof {
            reveal(page_view);
        }
        if self.panes.len() > 0 {
            self.panes[0].anchor_row()
        } else {
            0
        }
    }

    /// Brings stale matches up to date when the tab comes to the front. For a file the result
    /// names the lines to read ahead, as a half-open range.
    pub fn on_activated(&mut self, scans: Vec<FilterScan>) -> (r: Option<(usize, usize)>)
        requires
            scans@.len() >= old(self)@.panes.len(),
        ensures
            final(self)@ == if old(self)@.options.filter_dirty {
                let t = page_refreshed(old(self)@, scans@);
                PageView { options: ViewOptions { filter_dirty: false, ..t.options }, ..t }
            } else {
                old(self)@
            },
            r == if old(self)@.backend is File {
                Some(
                    prefetch_range(
                        page_anchor(final(self)@),
                        old(self)@.backend.lines().len() as int,
                    ),
                )
            } else {
                None
            },
    {
        if self.is_dirty() {
            self.refresh_all_views(scans);
            self.set_dirty(false);
        }
        match self.backend_kind() {
            BackendKind::File => {
                let anchor: usize = self.anchor_line();
                let start: usize = anchor.saturating_sub(PREFETCH_BEFORE);
                let last: usize = self.line_count().saturating_sub(1).saturating_add(1);
                let wanted: usize = anchor.saturating_add(PREFETCH_AFTER);
                let end: usize = if wanted < last {
                    wanted
                } else {
                    last
                };
                let least: usize = start.saturating_add(1);
                Some(
                    (
                        start,
                        if end >= least {
                            end
                        } else {
                            least
                        },
                    ),
                )
            },
            _ => None,
        }
    }

    fn is_reloading(&self) -> (r: bool)
        ensures
            r == self@.reload_active,
    {
        proof {
            reveal(page_view);
        }
        self.reload_active
    }

    pub(crate) fn set_reloading(&mut self, active: bool)
        ensures
            final(self)@ == (PageView { reload_active: active, ..old(self)@ }),
    {
        proof {
            reveal(page_view);
        }
        self.reload_active = active;
    }

    /// Whether the tab is being edited.
    pub fn is_editing(&self) -> (r: bool)
        ensures
            r == self@.edit.mode,
    {
        proof {
            reveal(page_view);
        }
        self.edit.mode
    }

    pub(crate) fn set_edit_status(&mut self, message: String)
        ensures
            final(self)@ == (PageView {
                edit: EditStateView { status: message@, ..old(self)@.edit },
                ..old(self)@
            }),
    {
        proof {
            reveal(page_view);
        }
        self.edit.status = message;
    }

    /// Takes over what the file reload has to say.
    pub fn poll_file_reload(&mut self, poll: ReloadPoll, scans: Vec<FilterScan>)
        requires
            scans@.len() >= old(self)@.panes.len(),
        ensures
            final(self)@ == page_after_reload(old(self)@, poll, scans@),
    {
        if !self.is_reloading() {
            return;
        }
        match poll {
            ReloadPoll::Empty => {},
            ReloadPoll::Progress { lines } => {
                if !self.is_editing() {
                    self.set_index_progress(lines);
                }
            },
            ReloadPoll::Done(lines) => {
                self.set_reloading(false);
                if !self.is_editing() {
                    self.set_file_store(lines, scans);
                }
            },
            ReloadPoll::Failed(message) => {
                self.set_reloading(false);
                self.set_edit_status(message);
                if !self.is_editing() {
                    self.finish_loading();
                }
            },
            ReloadPoll::Disconnected => {
                self.set_reloading(false);
                if !self.is_editing() {
                    self.finish_loading();
                }
            },
        }
    }

    fn poll_panes(&mut self, polls: Vec<ScanPoll>)
        requires
            polls@.len() >= old(self)@.panes.len(),
        ensures
            final(self)@ == page_after_polls(old(self)@, polls@),
    {
        let ghost before = self@;
        let ghost all = polls@;
        let mut rest = polls;
        let n: usize = self.pane_total();
        let mut i: usize = 0;
        assert(all.skip(0) =~= all);
        while i < n
            invariant
                i <= n == before.panes.len(),
                all.len() >= n,
                rest@ == all.skip(i as int),
                self@.panes.len() == n,
                self@ == (PageView { panes: self@.panes, ..before }),
                forall|k: int| i <= k < n ==> #[trigger] self@.panes[k] == before.panes[k],
                forall|k: int|
                    0 <= k < i ==> #[trigger] self@.panes[k] == pane::after_poll(
                        before.panes[k],
                        all[k],
                    ),
            decreases n - i,
        {
            let poll = rest.remove(0);
            assert(poll == all[i as int]);
            assert(rest@ =~= all.skip(i + 1));
            self.poll_pane(i, poll);
            i = i + 1;
        }
        assert(self@.panes =~= page_after_polls(before, all).panes);
    }

    fn poll_pane(&mut self, idx: usize, poll: ScanPoll)
        requires
            idx < old(self)@.panes.len(),
        ensures
            final(self)@ == (PageView {
                panes: old(self)@.panes.update(
                    idx as int,
                    pane::after_poll(old(self)@.panes[idx as int], poll),
                ),
                ..old(self)@
            }),
    {
        proof {
            reveal(page_view);
        }
        let ghost before = self.panes@;
        self.panes[idx].poll_scan(poll);
        proof {
            lemma_update_pane(before, idx as int, self.panes@[idx as int]);
            assert(self.panes@ =~= before.update(idx as int, self.panes@[idx as int]));
        }
    }

    /// Takes over what the reload and the background searches have to say, the reload first.
    pub fn poll_background_tasks(
        &mut self,
        reload: ReloadPoll,
        scans: Vec<FilterScan>,
        polls: Vec<ScanPoll>,
    )
        requires
            scans@.len() >= old(self)@.panes.len(),
            polls@.len() >= old(self)@.panes.len(),
        ensures
            final(self)@ == page_after_polls(
                page_after_reload(old(self)@, reload, scans@),
                polls@,
            ),
    {
        self.poll_file_reload(reload, scans);
        self.poll_panes(polls);
    }
}

// ---------------------------------------------------------------------------
// Navigation
// ---------------------------------------------------------------------------

/// The pane that keys and dialogs work on: the selected one, or the last.
pub open spec fn active_pane(s: PageView) -> int {
    if s.panes.len() == 0 {
        0
    } else {
        search::lesser(s.options.selected_pane as int, s.panes.len() - 1)
    }
}

/// The line that the go-to dialog starts with, from one.
pub open spec fn current_line(s: PageView) -> int {
    if s.panes.len() > 0 {
        pane::pane_focus_row(s.panes[active_pane(s)]) + 1
    } else {
        1
    }
}

/// The tab with the go-to dialog open on the current line.
pub open spec fn page_goto_opened(s: PageView) -> PageView {
    PageView {
        goto: GotoView {
            open: true,
            focus_requested: true,
            draft: text::decimal(current_line(s) as nat),
        },
        ..s
    }
}

/// The tab with line `line` (from one) shown in the active pane; a line past the end stands
/// for the last one.
pub open spec fn page_at_line(s: PageView, line: usize) -> PageView {
    let total = s.backend.lines().len() as int;
    if total == 0 || s.panes.len() == 0 {
        s
    } else {
        let row = search::lesser(
            if line == 0 {
                0
            } else {
                line - 1
            },
            total - 1,
        );
        PageView {
            panes: s.panes.update(
                active_pane(s),
                pane::shown_at(s.panes[active_pane(s)], row as usize),
            ),
            ..s
        }
    }
}

/// The title of a tab as it is shown.
pub open spec fn title_shown(s: PageView) -> Seq<char> {
    if s.edit.dirty {
        s.title + " *"@
    } else {
        s.title
    }
}

/// The tab after a frame of the go-to dialog: `go` shows the typed line if it is a positive
/// number; `go`, `dismiss` and a closed window close the dialog.
pub open spec fn page_goto_finished(
    s: PageView,
    go: bool,
    dismiss: bool,
    window_open: bool,
) -> PageView {
    let typed = text::number_of(text::trimmed(s.goto.draft), usize::MAX as nat);
    let t = if go && typed is Some && typed->0 > 0 {
        page_at_line(s, typed->0 as usize)
    } else {
        s
    };
    if go || dismiss || !window_open {
        PageView { goto: GotoView { open: false, focus_requested: false, ..t.goto }, ..t }
    } else {
        t
    }
}

/// The byte position of a caret in its line; 0 when there is no such line.
pub open spec fn caret_offset(s: PageView, caret: TextCaret) -> nat {
    if caret.row < s.backend.lines().len() {
        search::byte_offset(s.backend.lines()[caret.row as int], caret.col as int)
    } else {
        0
    }
}

/// The place of a caret, or the start of the log.
pub open spec fn caret_place(s: PageView, caret: Option<TextCaret>) -> (usize, nat) {
    match caret {
        Some(c) => (c.row, caret_offset(s, c)),
        None => (0, 0),
    }
}

/// The tab after Find was asked for in pane `idx`: the filter box gets the focus and the
/// selected text; with `jump` the first match from the selection on is shown.
pub open spec fn page_find_focused(s: PageView, idx: int, jump: bool, scan: FilterScan) -> PageView {
    if 0 <= idx < s.panes.len() {
        let p = pane::prefilled(s.panes[idx]);
        if jump {
            let place = caret_place(s, s.panes[idx].sel_anchor);
            let q = PaneView {
                find_jump: Some(FindJump::FirstAt { row: place.0, start: place.1 as usize }),
                ..p
            };
            page_after_apply(PageView { panes: s.panes.update(idx, q), ..s }, idx, scan)
        } else {
            PageView { panes: s.panes.update(idx, p), ..s }
        }
    } else {
        s
    }
}

/// The tab after the next match of the selected text, or else of the filter, was asked for.
pub open spec fn page_find_selection(s: PageView, idx: int, scan: FilterScan) -> PageView {
    if 0 <= idx < s.panes.len() && pane::selection_usable(s.panes[idx]) {
        let place = caret_place(s, s.panes[idx].sel_focus);
        let start = if place.1 + 1 > usize::MAX {
            usize::MAX
        } else {
            (place.1 + 1) as usize
        };
        let q = PaneView {
            filter_draft: s.panes[idx].last_selected_text,
            find_jump: Some(FindJump::FirstAt { row: place.0, start }),
            ..s.panes[idx]
        };
        page_after_apply(PageView { panes: s.panes.update(idx, q), ..s }, idx, scan)
    } else {
        page_after_jump(page_ensured(s, idx, scan), idx, FindJump::Next)
    }
}

/// The keys that a tab reacts to.
#[derive(Debug, Clone, Copy, PartialEq, Eq, Structural)]
pub struct ViewKeys {
    pub ctrl: bool,
    pub shift: bool,
    pub f: bool,
    pub f3: bool,
    pub g: bool,
    pub escape: bool,
}

/// The tab without the selections of its active pane.
pub open spec fn page_deselected(s: PageView) -> PageView {
    if s.panes.len() > 0 {
        let i = active_pane(s);
        PageView {
            panes: s.panes.update(
                i,
                PaneView {
                    search_selection: pane::no_search_selection(),
                    ..pane::without_selection(s.panes[i])
                },
            ),
            ..s
        }
    } else {
        s
    }
}

/// The tab after a frame's keys. While editing only the find bar reacts, and an open dialog
/// takes all keys; of several shortcuts the first in the order go-to, find, find selection,
/// step counts.
pub open spec fn page_after_keys(s: PageView, keys: ViewKeys, scan: FilterScan) -> PageView {
    if s.edit.mode {
        PageView {
            edit: EditStateView {
                show_find: s.edit.show_find || (keys.ctrl && keys.f),
                ..s.edit
            },
            ..s
        }
    } else if s.goto.open || s.edit.exit_confirm_open {
        s
    } else {
        let i = active_pane(s);
        let t = if keys.escape {
            page_deselected(s)
        } else {
            s
        };
        if keys.ctrl && keys.g {
            page_goto_opened(t)
        } else if keys.ctrl && keys.f {
            page_find_focused(
                t,
                i,
                t.panes.len() > 0 && pane::selection_usable(t.panes[i]),
                scan,
            )
        } else if keys.f3 && keys.ctrl {
            page_find_selection(t, i, scan)
        } else if keys.f3 {
            page_after_jump(
                page_ensured(t, i, scan),
                i,
                if keys.shift {
                    FindJump::Prev
                } else {
                    FindJump::Next
                },
            )
        } else {
            t
        }
    }
}

/// The last pane below index `n` that asked for Find.
pub open spec fn last_find_request(panes: Seq<PaneView>, n: int) -> Option<int>
    decreases n,
{
    if n <= 0 {
        None
    } else if panes[n - 1].request_find {
        Some(n - 1)
    } else {
        last_find_request(panes, n - 1)
    }
}

/// The tab with the requests of its panes cleared.
pub open spec fn page_requests_taken(s: PageView) -> PageView {
    PageView {
        panes: Seq::new(
            s.panes.len(),
            |i: int| PaneView { request_find: false, request_goto: false, ..s.panes[i] },
        ),
        ..s
    }
}

/// The tab after the requests of its panes were served.
pub open spec fn page_after_requests(s: PageView, scans: Seq<FilterScan>) -> PageView {
    let found = page_after_find_request(s, scans);
    if exists|i: int| 0 <= i < s.panes.len() && (#[trigger] s.panes[i]).request_goto {
        page_goto_opened(found)
    } else {
        found
    }
}

/// A pane after the time for its typed filter was looked at.
pub open spec fn pane_debounced(s: PageView, i: int, now: u64, scan: FilterScan) -> PaneView {
    if s.panes[i].filter_apply_at matches Some(at) && now >= at {
        page_after_apply(s, i, scan).panes[i]
    } else {
        s.panes[i]
    }
}

impl LogTabPage {
    fn active_index(&self) -> (r: usize)
        ensures
            r == active_pane(self@),
    {
        proof {
            reveal(page_view);
        }
        let last: usize = self.panes.len().saturating_sub(1);
        if self.options.selected_pane < last {
            self.options.selected_pane
        } else {
            last
        }
    }

    fn focus_line(&self) -> (r: usize)
        requires
            current_line(self@) <= usize::MAX,
        ensures
            r == current_line(self@),
    {
        let i: usize = self.active_index();
        proof {
            reveal(page_view);
            reveal(pane::pane_view);
        }
        if self.panes.len() > 0 {
            self.panes[i].focus_row() + 1
        } else {
            1
        }
    }

    fn show_goto(&mut self, draft: String)
        ensures
            final(self)@ == (PageView {
                goto: GotoView { open: true, focus_requested: true, draft: draft@ },
                ..old(self)@
            }),
    {
        proof {
            reveal(page_view);
        }
        self.goto.draft = draft;
        self.goto.open = true;
        self.goto.focus_requested = true;
    }

    /// Opens the go-to dialog on the current line.
    pub fn open_goto_dialog(&mut self)
        requires
            current_line(old(self)@) <= usize::MAX,
        ensures
            final(self)@ == page_goto_opened(old(self)@),
    {
        let line: usize = self.focus_line();
        self.show_goto(text::decimal_text(line as u64));
    }

    fn show_row(&mut self, idx: usize, row: usize)
        requires
            idx < old(self)@.panes.len(),
        ensures
            final(self)@ == (PageView {
                panes: old(self)@.panes.update(
                    idx as int,
                    pane::shown_at(old(self)@.panes[idx as int], row),
                ),
                ..old(self)@
            }),
    {
        proof {
            reveal(page_view);
        }
        let ghost before = self.panes@;
        self.panes[idx].show_at(row);
        proof {
            lemma_update_pane(before, idx as int, self.panes@[idx as int]);
            assert(self.panes@ =~= before.update(idx as int, self.panes@[idx as int]));
        }
    }

    /// Shows a line, counted from one, in the active pane.
    pub fn goto_line(&mut self, line_1based: usize)
        ensures
            final(self)@ == page_at_line(old(self)@, line_1based),
    {
        let total: usize = self.line_count();
        if total == 0 || self.pane_total() == 0 {
            return;
        }
        let wanted: usize = line_1based.saturating_sub(1);
        let row: usize = if wanted < total - 1 {
            wanted
        } else {
            total - 1
        };
        let i: usize = self.active_index();
        self.show_row(i, row);
    }

    fn typed_line(&self) -> (r: Option<usize>)
        ensures
            match r {
                Some(line) => text::number_of(
                    text::trimmed(self@.goto.draft),
                    usize::MAX as nat,
                ) == Some(line as nat),
                None => text::number_of(
                    text::trimmed(self@.goto.draft),
                    usize::MAX as nat,
                ) is None,
            },
    {
        proof {
            reveal(page_view);
        }
        let t = text::trim(self.goto.draft.as_str());
        match text::parse_number(t.as_str(), usize::MAX as u64) {
            Some(n) => Some(n as usize),
            None => None,
        }
    }

    fn close_goto(&mut self)
        ensures
            final(self)@ == (PageView {
                goto: GotoView {
                    open: false,
                    focus_requested: false,
                    draft: old(self)@.goto.draft,
                },
                ..old(self)@
            }),
    {
        proof {
            reveal(page_view);
        }
        self.goto.open = false;
        self.goto.focus_requested = false;
    }

    /// Ends a frame of the go-to dialog: `go` shows the typed line if it is a positive number;
    /// `go`, `dismiss` and a closed window close the dialog.
    pub fn finish_goto(&mut self, go: bool, dismiss: bool, window_open: bool)
        ensures
            final(self)@ == page_goto_finished(old(self)@, go, dismiss, window_open),
    {
        if go {
            match self.typed_line() {
                Some(line) => if line > 0 {
                    self.goto_line(line);
                },
                None => {},
            }
        }
        if go || dismiss || !window_open {
            self.close_goto();
        }
    }

    /// The byte position of a caret in its line.
    pub fn caret_byte(&self, caret: TextCaret) -> (r: usize)
        ensures
            r == caret_offset(self@, caret),
    {
        proof {
            reveal(page_view);
        }
        match self.backend.line_at(caret.row) {
            Some(line) => search::char_to_byte(line.as_str(), caret.col),
            None => 0,
        }
    }

    fn place_of(&self, caret: Option<TextCaret>) -> (r: (usize, usize))
        ensures
            (r.0, r.1 as nat) == caret_place(self@, caret),
    {
        match caret {
            Some(c) => (c.row, self.caret_byte(c)),
            None => (0, 0),
        }
    }

    fn pane_anchor(&self, idx: usize) -> (r: Option<TextCaret>)
        requires
            idx < self@.panes.len(),
        ensures
            r == self@.panes[idx as int].sel_anchor,
    {
        proof {
            reveal(page_view);
        }
        self.panes[idx].anchor()
    }

    fn pane_focus(&self, idx: usize) -> (r: Option<TextCaret>)
        requires
            idx < self@.panes.len(),
        ensures
            r == self@.panes[idx as int].sel_focus,
    {
        proof {
            reveal(page_view);
        }
        self.panes[idx].focus()
    }

    fn pane_has_selection(&self, idx: usize) -> (r: bool)
        ensures
            r == (idx < self@.panes.len() && pane::selection_usable(self@.panes[idx as int])),
    {
        proof {
            reveal(page_view);
        }
        idx < self.panes.len() && self.panes[idx].has_selected_text()
    }

    fn prefill(&mut self, idx: usize)
        requires
            idx < old(self)@.panes.len(),
        ensures
            final(self)@ == (PageView {
                panes: old(self)@.panes.update(
                    idx as int,
                    pane::prefilled(old(self)@.panes[idx as int]),
                ),
                ..old(self)@
            }),
    {
        proof {
            reveal(page_view);
        }
        let ghost before = self.panes@;
        self.panes[idx].prefill_find();
        proof {
            lemma_update_pane(before, idx as int, self.panes@[idx as int]);
            assert(self.panes@ =~= before.update(idx as int, self.panes@[idx as int]));
        }
    }

    fn set_pane_jump(&mut self, idx: usize, jump: FindJump)
        requires
            idx < old(self)@.panes.len(),
        ensures
            final(self)@ == (PageView {
                panes: old(self)@.panes.update(
                    idx as int,
                    PaneView { find_jump: Some(jump), ..old(self)@.panes[idx as int] },
                ),
                ..old(self)@
            }),
    {
        proof {
            reveal(page_view);
        }
        let ghost before = self.panes@;
        self.panes[idx].set_jump(jump);
        proof {
            lemma_update_pane(before, idx as int, self.panes@[idx as int]);
            assert(self.panes@ =~= before.update(idx as int, self.panes@[idx as int]));
        }
    }

    fn seek_selection(&mut self, idx: usize, jump: FindJump)
        requires
            idx < old(self)@.panes.len(),
        ensures
            final(self)@ == (PageView {
                panes: old(self)@.panes.update(
                    idx as int,
                    PaneView {
                        filter_draft: old(self)@.panes[idx as int].last_selected_text,
                        find_jump: Some(jump),
                        ..old(self)@.panes[idx as int]
                    },
                ),
                ..old(self)@
            }),
    {
        proof {
            reveal(page_view);
        }
        let ghost before = self.panes@;
        self.panes[idx].draft_from_selection();
        self.panes[idx].set_jump(jump);
        proof {
            lemma_update_pane(before, idx as int, self.panes@[idx as int]);
            assert(self.panes@ =~= before.update(idx as int, self.panes@[idx as int]));
        }
    }

    /// Moves to the filter box of pane `idx` with the selected text in it; with `jump` shows
    /// the first match from the selection on.
    pub fn focus_find(&mut self, idx: usize, jump: bool, scan: FilterScan)
        ensures
            final(self)@ == page_find_focused(old(self)@, idx as int, jump, scan),
    {
        if idx >= self.pane_total() {
            return;
        }
        let ghost before = self@;
        let place = self.place_of(self.pane_anchor(idx));
        self.prefill(idx);
        if jump {
            self.set_pane_jump(idx, FindJump::FirstAt { row: place.0, start: place.1 });
            assert(self@.panes =~= before.panes.update(idx as int, self@.panes[idx as int]));
            self.apply_filter(idx, scan);
        }
    }

    /// Shows the next match of the selected text, or of the filter when nothing is selected.
    pub fn find_selection_or_next(&mut self, idx: usize, scan: FilterScan)
        ensures
            final(self)@ == page_find_selection(old(self)@, idx as int, scan),
    {
        if !self.pane_has_selection(idx) {
            self.ensure_filter_applied(idx, scan);
            self.queue_find_jump(idx, FindJump::Next);
            return;
        }
        let place = self.place_of(self.pane_focus(idx));
        self.seek_selection(
            idx,
            FindJump::FirstAt { row: place.0, start: place.1.saturating_add(1) },
        );
        self.apply_filter(idx, scan);
    }

    fn deselect(&mut self)
        ensures
            final(self)@ == page_deselected(old(self)@),
    {
        let i: usize = self.active_index();
        if self.pane_total() == 0 {
            return;
        }
        proof {
            reveal(page_view);
        }
        let ghost before = self.panes@;
        self.panes[i].clear_sel();
        self.panes[i].clear_search_sel();
        proof {
            lemma_update_pane(before, i as int, self.panes@[i as int]);
            assert(self.panes@ =~= before.update(i as int, self.panes@[i as int]));
        }
    }

    fn show_edit_find(&mut self)
        ensures
            final(self)@ == (PageView {
                edit: EditStateView { show_find: true, ..old(self)@.edit },
                ..old(self)@
            }),
    {
        proof {
            reveal(page_view);
        }
        self.edit.show_find = true;
    }

    fn dialog_open(&self) -> (r: bool)
        ensures
            r == (self@.goto.open || self@.edit.exit_confirm_open),
    {
        proof {
            reveal(page_view);
        }
        self.goto.open || self.edit.exit_confirm_open
    }

    /// Reacts to the keys of a frame. `scan` is what a search finds for the filter text that
    /// the keys lead to.
    pub fn handle_view_shortcuts(&mut self, keys: ViewKeys, scan: FilterScan)
        requires
            current_line(old(self)@) <= usize::MAX,
            current_line(page_deselected(old(self)@)) <= usize::MAX,
        ensures
            final(self)@ == page_after_keys(old(self)@, keys, scan),
    {
        if self.is_editing() {
            if keys.ctrl && keys.f {
                self.show_edit_find();
            }
            return;
        }
        if self.dialog_open() {
            return;
        }
        let i: usize = self.active_index();
        if keys.escape {
            self.deselect();
        }
        if keys.ctrl && keys.g {
            self.open_goto_dialog();
            return;
        }
        if keys.ctrl && keys.f {
            let jump: bool = self.pane_has_selection(i);
            self.focus_find(i, jump, scan);
            return;
        }
        if keys.f3 && keys.ctrl {
            self.find_selection_or_next(i, scan);
            return;
        }
        if keys.f3 {
            self.ensure_filter_applied(i, scan);
            if keys.shift {
                self.queue_find_jump(i, FindJump::Prev);
            } else {
                self.queue_find_jump(i, FindJump::Next);
            }
        }
    }

    fn take_pane_requests(&mut self) -> (r: (Option<usize>, bool))
        ensures
            final(self)@ == page_requests_taken(old(self)@),
            match r.0 {
                Some(i) => last_find_request(old(self)@.panes, old(self)@.panes.len() as int)
                    == Some(i as int) && i < old(self)@.panes.len(),
                None => last_find_request(
                    old(self)@.panes,
                    old(self)@.panes.len() as int,
                ) is None,
            },
            r.1 == exists|i: int|
                0 <= i < old(self)@.panes.len() && (#[trigger] old(self)@.panes[i]).request_goto,
    {
        proof {
            reveal(page_view);
        }
        let ghost before = self.panes@;
        let ghost whole = self@;
        let mut find: Option<usize> = None;
        let mut goto: bool = false;
        let mut i: usize = 0;
        while i < self.panes.len()
            invariant
                i <= self.panes@.len() == before.len(),
                whole.panes == pane_views(before),
                page_view(*self) == (PageView { panes: pane_views(self.panes@), ..whole }),
                forall|k: int| i <= k < before.len() ==> #[trigger] self.panes@[k] == before[k],
                forall|k: int|
                    0 <= k < i ==> (#[trigger] self.panes@[k])@ == (PaneView {
                        request_find: false,
                        request_goto: false,
                        ..before[k]@
                    }),
                match find {
                    Some(k) => last_find_request(whole.panes, i as int) == Some(k as int) && k < i,
                    None => last_find_request(whole.panes, i as int) is None,
                },
                goto == exists|k: int| 0 <= k < i && (#[trigger] whole.panes[k]).request_goto,
            decreases before.len() - i,
        {
            proof {
                reveal(page_view);
            }
            let asked = self.panes[i].take_requests();
            if asked.0 {
                find = Some(i);
            }
            if asked.1 {
                goto = true;
            }
            assert(whole.panes[i as int] == before[i as int]@);
            i = i + 1;
        }
        assert(self@.panes =~= page_requests_taken(whole).panes);
        (find, goto)
    }

    /// Serves the requests that panes left: Find in the last pane that asked for it, then the
    /// go-to dialog.
    pub fn handle_pane_requests(&mut self, scans: Vec<FilterScan>)
        requires
            scans@.len() >= old(self)@.panes.len(),
            current_line(page_after_find_request(old(self)@, scans@)) <= usize::MAX,
        ensures
            final(self)@ == page_after_requests(old(self)@, scans@),
    {
        let asked = self.take_pane_requests();
        match asked.0 {
            Some(i) => {
                let mut rest = scans;
                let scan = rest.swap_remove(i);
                self.focus_find(i, true, scan);
            },
            None => {},
        }
        if asked.1 {
            self.open_goto_dialog();
        }
    }

    fn pane_due(&self, idx: usize, now: u64) -> (r: bool)
        requires
            idx < self@.panes.len(),
        ensures
            r == (self@.panes[idx as int].filter_apply_at matches Some(at) && now >= at),
    {
        proof {
            reveal(page_view);
        }
        self.panes[idx].filter_due(now)
    }

    /// Commits the typed filters whose time has come.
    pub fn poll_filter_debounce(&mut self, now: u64, scans: Vec<FilterScan>)
        requires
            scans@.len() >= old(self)@.panes.len(),
        ensures
            final(self)@ == (PageView {
                panes: Seq::new(
                    old(self)@.panes.len(),
                    |i: int| pane_debounced(old(self)@, i, now, scans@[i]),
                ),
                ..old(self)@
            }),
    {
        let ghost before = self@;
        let ghost all = scans@;
        let mut rest = scans;
        let n: usize = self.pane_total();
        let mut i: usize = 0;
        assert(all.skip(0) =~= all);
        while i < n
            invariant
                i <= n == before.panes.len(),
                all.len() >= n,
                rest@ == all.skip(i as int),
                self@.panes.len() == n,
                self@ == (PageView { panes: self@.panes, ..before }),
                forall|k: int| i <= k < n ==> #[trigger] self@.panes[k] == before.panes[k],
                forall|k: int|
                    0 <= k < i ==> #[trigger] self@.panes[k] == pane_debounced(
                        before,
                        k,
                        now,
                        all[k],
                    ),
            decreases n - i,
        {
            let scan = rest.remove(0);
            assert(scan == all[i as int]);
            assert(rest@ =~= all.skip(i + 1));
            if self.pane_due(i, now) {
                self.apply_filter(i, scan);
            }
            i = i + 1;
        }
        assert(self@.panes =~= Seq::new(
            before.panes.len(),
            |i: int| pane_debounced(before, i, now, all[i]),
        ));
    }
}

/// The tab after the Find request of its panes was served.
pub open spec fn page_after_find_request(s: PageView, scans: Seq<FilterScan>) -> PageView {
    match last_find_request(s.panes, s.panes.len() as int) {
        Some(i) => page_find_focused(page_requests_taken(s), i, true, scans[i]),
        None => page_requests_taken(s),
    }
}

} // verus!
