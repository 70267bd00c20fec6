//! Editing the file of a log tab, and the toolbar of the tab.
use vstd::prelude::*;
use vstd::string::*;

use crate::editor::{FindAction, LineEditorSession, MatchStatus};
use crate::log_tab::{
    BackendView, EditStateView, LogTabPage, PageView, TabBackend, ViewOptions, MAX_PANES,
};
use crate::pane::{FilterScan, FindJump, PaneState, PaneView};
use crate::{editor, log_tab, pane, search};

verus! {

// ---------------------------------------------------------------------------
// Entering and leaving edit mode
// ---------------------------------------------------------------------------

/// Why edit mode cannot be entered, or that the file is to be read for it.
#[derive(Debug, Clone, Copy, PartialEq, Eq, Structural)]
pub enum EditEntry {
    /// A live tab, or one that is still loading.
    Refused,
    /// A background search still reads the file.
    Busy,
    /// The tab has no file.
    NoFile,
    Ready,
}

/// Whether some pane waits for a background search.
pub open spec fn searching(s: PageView) -> bool {
    exists|i: int| 0 <= i < s.panes.len() && (#[trigger] s.panes[i]).filter_busy
}

/// What entering edit mode meets.
pub open spec fn edit_entry(s: PageView) -> EditEntry {
    if s.live || s.loading {
        EditEntry::Refused
    } else if searching(s) {
        EditEntry::Busy
    } else if s.filepath is None {
        EditEntry::NoFile
    } else {
        EditEntry::Ready
    }
}

/// The note on a search that has to end first.
pub open spec fn busy_note() -> Seq<char> {
    "Wait for the active filter task to finish."@
}

/// The editing state with the text, the notes and the find position dropped.
pub open spec fn edit_ui_cleared(e: EditStateView) -> EditStateView {
    EditStateView {
        session: editor::fresh_editor(Seq::empty()),
        status: Seq::empty(),
        match_status: MatchStatus::Blank,
        ..e
    }
}

/// The tab with its file let go, so that it can be written.
pub open spec fn page_unmapped(s: PageView) -> PageView {
    PageView { backend: BackendView::Pending, reload_active: false, ..s }
}

/// The tab in edit mode on `lines`. Searches and selections end.
pub open spec fn page_editing(s: PageView, lines: Seq<Seq<char>>) -> PageView {
    PageView {
        panes: Seq::new(
            s.panes.len(),
            |i: int|
                pane::without_selection(
                    PaneView { scan_attached: false, filter_busy: false, ..s.panes[i] },
                ),
        ),
        edit: EditStateView {
            mode: true,
            session: editor::fresh_editor(lines),
            dirty: false,
            status: Seq::empty(),
            match_status: MatchStatus::Blank,
            ..s.edit
        },
        ..page_unmapped(s)
    }
}

/// The tab while its file is read again. In edit mode the lines on screen stay.
pub open spec fn page_reloading(s: PageView) -> PageView {
    if s.edit.mode {
        PageView { reload_active: true, ..s }
    } else {
        PageView {
            backend: BackendView::Pending,
            loading: true,
            index_progress: 0,
            reload_active: true,
            ..s
        }
    }
}

/// The tab with its file, if it has one, being read again.
pub open spec fn page_restarted(s: PageView) -> PageView {
    if s.filepath is Some {
        page_reloading(s)
    } else {
        s
    }
}

/// The tab out of edit mode, all edits dropped.
pub open spec fn page_edit_left(s: PageView) -> PageView {
    page_restarted(
        PageView {
            edit: EditStateView {
                mode: false,
                dirty: false,
                exit_confirm_open: false,
                ..edit_ui_cleared(s.edit)
            },
            ..s
        },
    )
}

/// The tab after leaving edit mode was asked for: unsaved edits bring up a question first.
pub open spec fn page_exit_requested(s: PageView) -> PageView {
    if s.edit.dirty {
        PageView { edit: EditStateView { exit_confirm_open: true, ..s.edit }, ..s }
    } else {
        page_edit_left(s)
    }
}

/// The tab after its edits were written, or could not be.
pub open spec fn page_after_save(s: PageView, write: Result<(), String>) -> PageView {
    if s.filepath is None {
        s
    } else {
        let t = page_unmapped(s);
        match write {
            Ok(_) => PageView {
                edit: EditStateView { dirty: false, status: Seq::empty(), ..t.edit },
                ..t
            },
            Err(message) => PageView {
                edit: EditStateView { status: message@, ..t.edit },
                ..t
            },
        }
    }
}

/// The tab after edit mode was asked for; `read` is what the file holds.
pub open spec fn page_after_entry(s: PageView, read: Result<Vec<String>, String>) -> PageView {
    match edit_entry(s) {
        EditEntry::Refused => s,
        EditEntry::NoFile => s,
        EditEntry::Busy => PageView {
            edit: EditStateView { status: busy_note(), ..s.edit },
            ..s
        },
        EditEntry::Ready => match read {
            Ok(lines) => page_editing(s, search::views(lines@)),
            Err(message) => PageView {
                edit: EditStateView { status: message@, ..s.edit },
                ..s
            },
        },
    }
}

/// The tab after its edits were written and edit mode was left; it stays where the write failed.
pub open spec fn page_saved_and_left(s: PageView, write: Result<(), String>) -> PageView {
    let t = page_after_save(s, write);
    if saved(s, write) {
        page_restarted(
            PageView {
                edit: EditStateView {
                    mode: false,
                    exit_confirm_open: false,
                    ..edit_ui_cleared(t.edit)
                },
                ..t
            },
        )
    } else {
        t
    }
}

/// The tab with what the file holds put back.
pub open spec fn page_discarded(s: PageView, read: Option<Vec<String>>) -> PageView {
    PageView {
        edit: EditStateView {
            session: match (s.filepath, read) {
                (Some(_), Some(lines)) => editor::fresh_editor(search::views(lines@)),
                _ => s.edit.session,
            },
            dirty: false,
            status: Seq::empty(),
            match_status: MatchStatus::Blank,
            ..s.edit
        },
        ..s
    }
}

/// The tab after its edits were written to another file, or could not be.
pub open spec fn page_saved_as(
    s: PageView,
    path: Seq<char>,
    stem: Option<Seq<char>>,
    write: Result<(), String>,
) -> PageView {
    match write {
        Ok(_) => PageView {
            filepath: Some(path),
            title: match stem {
                Some(name) => name,
                None => path,
            },
            edit: EditStateView { dirty: false, status: Seq::empty(), ..s.edit },
            ..s
        },
        Err(message) => PageView {
            edit: EditStateView { status: message@, ..s.edit },
            ..s
        },
    }
}

/// The tab after a frame of the question about unsaved edits.
pub open spec fn page_exit_answered(s: PageView, dismiss: bool, window_open: bool) -> PageView {
    if dismiss || !window_open {
        PageView { edit: EditStateView { exit_confirm_open: false, ..s.edit }, ..s }
    } else {
        s
    }
}

/// The tab with its split switch turned.
pub open spec fn page_split(s: PageView, enabled: bool) -> PageView {
    if enabled == s.options.split_enabled {
        s
    } else if enabled {
        PageView {
            options: ViewOptions { split_enabled: true, ..s.options },
            panes: log_tab::resized_panes(
                s.panes,
                if s.options.pane_count < 2 {
                    2
                } else {
                    s.options.pane_count as int
                },
            ),
            ..s
        }
    } else {
        PageView {
            options: ViewOptions { split_enabled: false, same_page: false, ..s.options },
            panes: log_tab::resized_panes(s.panes, 1),
            ..s
        }
    }
}

/// The tab with its follow-tail switch turned.
pub open spec fn page_following(s: PageView, on: bool) -> PageView {
    PageView {
        options: ViewOptions { auto_scroll: on, ..s.options },
        panes: if on {
            pinned_panes(s.panes)
        } else {
            s.panes
        },
        ..s
    }
}

/// Whether a save succeeded.
pub open spec fn saved(s: PageView, write: Result<(), String>) -> bool {
    s.filepath is Some && write is Ok
}

impl LogTabPage {
    /// What entering edit mode meets.
    pub fn edit_entry_state(&self) -> (r: EditEntry)
        ensures
            r == edit_entry(self@),
    {
        let busy: bool = self.has_background_filter();
        proof {
            reveal(log_tab::page_view);
        }
        if self.live || self.loading {
            EditEntry::Refused
        } else if busy {
            EditEntry::Busy
        } else if self.filepath.is_none() {
            EditEntry::NoFile
        } else {
            EditEntry::Ready
        }
    }

    /// Lets the file go so that it can be written.
    pub fn release_mapped_file(&mut self)
        ensures
            final(self)@ == page_unmapped(old(self)@),
    {
        proof {
            reveal(log_tab::page_view);
        }
        self.backend = TabBackend::Pending;
        self.reload_active = false;
    }

    fn detach_panes(&mut self)
        ensures
            final(self)@ == (PageView {
                panes: Seq::new(
                    old(self)@.panes.len(),
                    |i: int|
                        pane::without_selection(
                            PaneView {
                                scan_attached: false,
                                filter_busy: false,
                                ..old(self)@.panes[i]
                            },
                        ),
                ),
                ..old(self)@
            }),
    {
        proof {
            reveal(log_tab::page_view);
        }
        let ghost before = self.panes@;
        let ghost whole = self@;
        let mut i: usize = 0;
        while i < self.panes.len()
            invariant
                i <= self.panes@.len() == before.len(),
                log_tab::page_view(*self) == (PageView {
                    panes: log_tab::pane_views(self.panes@),
                    ..whole
                }),
                forall|k: int| i <= k < before.len() ==> #[trigger] self.panes@[k] == before[k],
                forall|k: int|
                    0 <= k < i ==> (#[trigger] self.panes@[k])@ == pane::without_selection(
                        PaneView { scan_attached: false, filter_busy: false, ..before[k]@ },
                    ),
            decreases before.len() - i,
        {
            proof {
                reveal(log_tab::page_view);
            }
            self.panes[i].detach_for_edit();
            i = i + 1;
        }
        assert(self@.panes =~= Seq::new(
            whole.panes.len(),
            |i: int|
                pane::without_selection(
                    PaneView { scan_attached: false, filter_busy: false, ..whole.panes[i] },
                ),
        ));
    }

    fn open_editor(&mut self, lines: Vec<String>)
        ensures
            final(self)@ == (PageView {
                edit: EditStateView {
                    mode: true,
                    session: editor::fresh_editor(search::views(lines@)),
                    dirty: false,
                    status: Seq::empty(),
                    match_status: MatchStatus::Blank,
                    ..old(self)@.edit
                },
                ..old(self)@
            }),
    {
        proof {
            reveal(log_tab::page_view);
        }
        self.edit.session = LineEditorSession::from_lines(lines);
        self.edit.dirty = false;
        self.edit.status = String::new();
        self.edit.match_status = MatchStatus::Blank;
        self.edit.mode = true;
    }

    /// Enters edit mode with the lines that were read from the file, or notes why not. `read`
    /// counts only when [`Self::edit_entry_state`] is `Ready`.
    pub fn enter_edit_mode(&mut self, read: Result<Vec<String>, String>) -> (entered: bool)
        ensures
            entered == (edit_entry(old(self)@) == EditEntry::Ready && read is Ok),
            final(self)@ == page_after_entry(old(self)@, read),
    {
        match self.edit_entry_state() {
            EditEntry::Refused => false,
            EditEntry::NoFile => false,
            EditEntry::Busy => {
                self.set_edit_status("Wait for the active filter task to finish.".to_owned());
                false
            },
            EditEntry::Ready => match read {
                Ok(lines) => {
                    self.release_mapped_file();
                    self.detach_panes();
                    self.open_editor(lines);
                    true
                },
                Err(message) => {
                    self.set_edit_status(message);
                    false
                },
            },
        }
    }

    fn mark_reloading(&mut self)
        ensures
            final(self)@ == page_reloading(old(self)@),
    {
        proof {
            reveal(log_tab::page_view);
        }
        if !self.edit.mode {
            self.backend = TabBackend::Pending;
            self.loading = true;
            self.index_progress = 0;
        }
        self.reload_active = true;
    }

    /// Notes that the file is to be read again, if there is one; the result is its path.
    fn restart(&mut self) -> (r: Option<String>)
        ensures
            final(self)@ == page_restarted(old(self)@),
            log_tab::opt_text(r) == old(self)@.filepath,
    {
        let path = self.path_text();
        if path.is_some() {
            self.mark_reloading();
        }
        path
    }

    /// The path of the file.
    pub fn path_text(&self) -> (r: Option<String>)
        ensures
            log_tab::opt_text(r) == self@.filepath,
    {
        proof {
            reveal(log_tab::page_view);
        }
        match &self.filepath {
            Some(path) => Some(path.clone()),
            None => None,
        }
    }

    fn close_editor(&mut self)
        ensures
            final(self)@ == (PageView {
                edit: EditStateView {
                    mode: false,
                    dirty: false,
                    exit_confirm_open: false,
                    ..edit_ui_cleared(old(self)@.edit)
                },
                ..old(self)@
            }),
    {
        proof {
            reveal(log_tab::page_view);
        }
        self.edit.mode = false;
        self.edit.dirty = false;
        self.edit.exit_confirm_open = false;
        self.edit.session = LineEditorSession::new();
        self.edit.status = String::new();
        self.edit.match_status = MatchStatus::Blank;
    }

    /// Leaves edit mode and drops the edits. The result is the path to read again.
    pub fn exit_edit_mode(&mut self) -> (r: Option<String>)
        ensures
            final(self)@ == page_edit_left(old(self)@),
            log_tab::opt_text(r) == old(self)@.filepath,
    {
        self.close_editor();
        self.restart()
    }

    fn ask_exit(&mut self)
        ensures
            final(self)@ == (PageView {
                edit: EditStateView { exit_confirm_open: true, ..old(self)@.edit },
                ..old(self)@
            }),
    {
        proof {
            reveal(log_tab::page_view);
        }
        self.edit.exit_confirm_open = true;
    }

    fn has_edits(&self) -> (r: bool)
        ensures
            r == self@.edit.dirty,
    {
        proof {
            reveal(log_tab::page_view);
        }
        self.edit.dirty
    }

    /// Leaves edit mode at once when nothing was edited, else asks first. The result is the
    /// path to read again.
    pub fn request_exit_edit_mode(&mut self) -> (r: Option<String>)
        ensures
            final(self)@ == page_exit_requested(old(self)@),
            old(self)@.edit.dirty ==> r is None,
            !old(self)@.edit.dirty ==> log_tab::opt_text(r) == old(self)@.filepath,
    {
        if self.has_edits() {
            self.ask_exit();
            None
        } else {
            self.exit_edit_mode()
        }
    }

    fn mark_saved(&mut self)
        ensures
            final(self)@ == (PageView {
                edit: EditStateView { dirty: false, status: Seq::empty(), ..old(self)@.edit },
                ..old(self)@
            }),
    {
        proof {
            reveal(log_tab::page_view);
        }
        self.edit.dirty = false;
        self.edit.status = String::new();
    }

    fn has_path(&self) -> (r: bool)
        ensures
            r == (self@.filepath is Some),
    {
        proof {
            reveal(log_tab::page_view);
        }
        self.filepath.is_some()
    }

    /// Takes over how writing the edits to the file went. Whether it succeeded is returned.
    pub fn save_edit(&mut self, write: Result<(), String>) -> (done: bool)
        ensures
            final(self)@ == page_after_save(old(self)@, write),
            done == saved(old(self)@, write),
    {
        if !self.has_path() {
            return false;
        }
        self.release_mapped_file();
        match write {
            Ok(_) => {
                self.mark_saved();
                true
            },
            Err(message) => {
                self.set_edit_status(message);
                false
            },
        }
    }

    fn leave_saved(&mut self)
        ensures
            final(self)@ == (PageView {
                edit: EditStateView {
                    mode: false,
                    exit_confirm_open: false,
                    ..edit_ui_cleared(old(self)@.edit)
                },
                ..old(self)@
            }),
    {
        proof {
            reveal(log_tab::page_view);
        }
        self.edit.mode = false;
        self.edit.exit_confirm_open = false;
        self.edit.session = LineEditorSession::new();
        self.edit.status = String::new();
        self.edit.match_status = MatchStatus::Blank;
    }

    /// Leaves edit mode once the edits were written; a failed write keeps it.
    pub fn save_and_exit_edit_mode(&mut self, write: Result<(), String>) -> (r: Option<String>)
        ensures
            final(self)@ == page_saved_and_left(old(self)@, write),
            saved(old(self)@, write) ==> log_tab::opt_text(r) == old(self)@.filepath,
            !saved(old(self)@, write) ==> r is None,
    {
        if !self.save_edit(write) {
            return None;
        }
        self.leave_saved();
        self.restart()
    }

    /// Puts back what the file holds; `read` is its lines, if it could be read.
    pub fn discard_edit(&mut self, read: Option<Vec<String>>)
        ensures
            final(self)@ == page_discarded(old(self)@, read),
    {
        proof {
            reveal(log_tab::page_view);
        }
        if self.filepath.is_some() {
            match read {
                Some(lines) => {
                    self.edit.session = LineEditorSession::from_lines(lines);
                },
                None => {},
            }
        }
        self.edit.dirty = false;
        self.edit.status = String::new();
        self.edit.match_status = MatchStatus::Blank;
    }

    /// Takes over how writing the edits to another file went; on success the tab is about that
    /// file. `stem` is its name without the extension, where it has one.
    pub fn save_edit_as(
        &mut self,
        path: String,
        stem: Option<String>,
        write: Result<(), String>,
    ) -> (done: bool)
        ensures
            done == write is Ok,
            final(self)@ == page_saved_as(old(self)@, path@, log_tab::opt_text(stem), write),
    {
        match write {
            Ok(_) => {
                self.mark_saved();
                self.rename(path, stem);
                true
            },
            Err(message) => {
                self.set_edit_status(message);
                false
            },
        }
    }

    fn rename(&mut self, path: String, stem: Option<String>)
        ensures
            final(self)@ == (PageView {
                filepath: Some(path@),
                title: match stem {
                    Some(s) => s@,
                    None => path@,
                },
                ..old(self)@
            }),
    {
        proof {
            reveal(log_tab::page_view);
        }
        let title = match stem {
            Some(s) => s,
            None => path.clone(),
        };
        self.title = title;
        self.filepath = Some(path);
    }

    /// The edit-mode switch was turned. On enters edit mode if that is possible, off asks to
    /// leave it. The result is the path to read again.
    pub fn toggle_edit_mode(&mut self, read: Result<Vec<String>, String>) -> (r: Option<String>)
        ensures
            !old(self)@.edit.mode && edit_entry(old(self)@) == EditEntry::Ready && read is Ok ==> r
                is None && final(self)@ == page_editing(old(self)@, search::views(read->Ok_0@)),
            old(self)@.edit.mode ==> final(self)@ == page_exit_requested(old(self)@),
            old(self)@.edit.mode && old(self)@.edit.dirty ==> r is None,
            old(self)@.edit.mode && !old(self)@.edit.dirty ==> log_tab::opt_text(r)
                == old(self)@.filepath,
            !old(self)@.edit.mode && !(edit_entry(old(self)@) == EditEntry::Ready && read is Ok)
                ==> r is None && !final(self)@.edit.mode && final(self)@ == (PageView {
                edit: EditStateView { status: final(self)@.edit.status, ..old(self)@.edit },
                ..old(self)@
            }) && final(self)@.edit.status == match edit_entry(old(self)@) {
                EditEntry::Busy => busy_note(),
                EditEntry::Ready => read->Err_0@,
                _ => old(self)@.edit.status,
            },
    {
        if self.is_editing() {
            self.request_exit_edit_mode()
        } else {
            self.enter_edit_mode(read);
            None
        }
    }

    /// Ends a frame of the question about unsaved edits.
    pub fn finish_exit_question(&mut self, dismiss: bool, window_open: bool)
        ensures
            final(self)@ == page_exit_answered(old(self)@, dismiss, window_open),
    {
        proof {
            reveal(log_tab::page_view);
        }
        if dismiss || !window_open {
            self.edit.exit_confirm_open = false;
        }
    }
}

// ---------------------------------------------------------------------------
// Find and replace in the editor
// ---------------------------------------------------------------------------

/// Whether an action of the find bar can be carried out. Stepping always can. A replacement
/// needs a line for the caret, which must not outgrow the machine; replacing everywhere needs
/// matches that can be counted.
pub open spec fn can_run(s: PageView, action: FindAction) -> bool {
    let e = s.edit.session;
    match action {
        FindAction::Next | FindAction::Prev => true,
        FindAction::Replace => e.lines.len() > 0 && e.lines[editor::caret_line(e)].len()
            + s.edit.replace.len() <= usize::MAX,
        FindAction::ReplaceAll => search::match_total(
            e.lines,
            s.edit.find,
            s.options.case_sensitive,
            e.lines.len() as int,
        ) <= usize::MAX,
    }
}

/// The editing state after a step to another match.
pub open spec fn edit_stepped(
    e: EditStateView,
    h: Seq<(int, int, int)>,
    k: int,
) -> EditStateView {
    if h.len() == 0 {
        EditStateView { match_status: MatchStatus::NoMatches, ..e }
    } else {
        EditStateView {
            session: editor::at_hit(
                e.session,
                h[k].0 as usize,
                h[k].1 as usize,
                h[k].2 as usize,
            ),
            match_status: MatchStatus::At { ordinal: (k + 1) as usize, total: h.len() as usize },
            ..e
        }
    }
}

/// The editing state after an action of the find bar.
pub open spec fn edit_after_action(
    e: EditStateView,
    case_sensitive: bool,
    action: FindAction,
) -> EditStateView {
    let h = search::all_line_hits(e.session.lines, e.find, case_sensitive);
    match action {
        FindAction::Next => edit_stepped(
            e,
            h,
            search::next_hit_index(h, e.session.row as int, e.session.col as int, 0),
        ),
        FindAction::Prev => edit_stepped(
            e,
            h,
            search::prev_hit_index(
                h,
                e.session.row as int,
                e.session.col as int,
                h.len() as int,
            ),
        ),
        FindAction::Replace => match editor::replace_target(e.session, e.find, case_sensitive) {
            Some(m) => EditStateView {
                session: editor::after_replace(e.session, m.0, m.1, e.replace),
                dirty: true,
                ..e
            },
            None => EditStateView { match_status: MatchStatus::SelectMatch, ..e },
        },
        FindAction::ReplaceAll => {
            let count = search::match_total(
                e.session.lines,
                e.find,
                case_sensitive,
                e.session.lines.len() as int,
            );
            EditStateView {
                session: editor::after_replace_all(e.session, e.find, e.replace, case_sensitive),
                dirty: e.dirty || count > 0,
                match_status: MatchStatus::Replaced { count: count as usize },
                ..e
            }
        },
    }
}

impl LogTabPage {
    /// Carries out an action of the find bar on the edited text.
    pub fn run_find_action(&mut self, action: FindAction)
        requires
            can_run(old(self)@, action),
        ensures
            final(self)@ == (PageView {
                edit: edit_after_action(
                    old(self)@.edit,
                    old(self)@.options.case_sensitive,
                    action,
                ),
                ..old(self)@
            }),
    {
        proof {
            reveal(log_tab::page_view);
        }
        let case_sensitive: bool = self.options.case_sensitive;
        let ghost lines = self.edit.session.lines@;
        assert(search::views(lines) == old(self)@.edit.session.lines);
        match action {
            FindAction::Next => {
                self.edit.match_status = self.edit.session.find_next(
                    self.edit.find.as_str(),
                    case_sensitive,
                );
            },
            FindAction::Prev => {
                self.edit.match_status = self.edit.session.find_prev(
                    self.edit.find.as_str(),
                    case_sensitive,
                );
            },
            FindAction::Replace => {
                if self.edit.session.replace_current(
                    self.edit.find.as_str(),
                    self.edit.replace.as_str(),
                    case_sensitive,
                ) {
                    self.edit.dirty = true;
                } else {
                    self.edit.match_status = MatchStatus::SelectMatch;
                }
            },
            FindAction::ReplaceAll => {
                let count: usize = self.edit.session.replace_everywhere(
                    self.edit.find.as_str(),
                    self.edit.replace.as_str(),
                    case_sensitive,
                );
                if count > 0 {
                    self.edit.dirty = true;
                }
                self.edit.match_status = MatchStatus::Replaced { count };
            },
        }
    }
}

/// Law: stepping through the edited text changes neither a line nor the unsaved mark.
pub proof fn law_stepping_edits_nothing(e: EditStateView, case_sensitive: bool)
    ensures
        edit_after_action(e, case_sensitive, FindAction::Next).session.lines == e.session.lines,
        edit_after_action(e, case_sensitive, FindAction::Prev).session.lines == e.session.lines,
        edit_after_action(e, case_sensitive, FindAction::Next).dirty == e.dirty,
        edit_after_action(e, case_sensitive, FindAction::Prev).dirty == e.dirty,
{
}

/// Law: a replacement without a match leaves the text and the unsaved mark as they are.
pub proof fn law_replacing_nothing_edits_nothing(e: EditStateView, case_sensitive: bool)
    requires
        forall|i: int|
            0 <= i < e.session.lines.len() ==> search::occurrences(
                #[trigger] e.session.lines[i],
                e.find,
                case_sensitive,
            ).len() == 0,
    ensures
        e.session.lines.len() > 0 ==> edit_after_action(
            e,
            case_sensitive,
            FindAction::Replace,
        ).session == e.session,
        e.session.lines.len() > 0 ==> edit_after_action(
            e,
            case_sensitive,
            FindAction::Replace,
        ).dirty == e.dirty,
        edit_after_action(e, case_sensitive, FindAction::ReplaceAll).session.lines
            == e.session.lines,
        edit_after_action(e, case_sensitive, FindAction::ReplaceAll).dirty == e.dirty,
{
    let r = edit_after_action(e, case_sensitive, FindAction::ReplaceAll).session.lines;
    assert forall|i: int| 0 <= i < e.session.lines.len() implies #[trigger] r[i]
        == e.session.lines[i] by {
        search::law_replace_without_match_is_identity(
            e.session.lines[i],
            e.find,
            e.replace,
            case_sensitive,
        );
    }
    assert(r =~= e.session.lines);
    lemma_no_matches_total(e.session.lines, e.find, case_sensitive, e.session.lines.len() as int);
}

proof fn lemma_no_matches_total(
    lines: Seq<Seq<char>>,
    needle: Seq<char>,
    case_sensitive: bool,
    n: int,
)
    requires
        n <= lines.len(),
        forall|i: int|
            0 <= i < lines.len() ==> search::occurrences(
                #[trigger] lines[i],
                needle,
                case_sensitive,
            ).len() == 0,
    ensures
        search::match_total(lines, needle, case_sensitive, n) == 0,
    decreases n,
{
    if n > 0 {
        lemma_no_matches_total(lines, needle, case_sensitive, n - 1);
    }
}

/// Law: edits that were not saved are not lost by asking to leave: the tab stays in edit mode
/// with its text and only opens the question.
pub proof fn law_leaving_keeps_unsaved_edits(s: PageView)
    requires
        s.edit.mode,
        s.edit.dirty,
    ensures
        ({
            let t = page_exit_requested(s);
            t.edit.mode && t.edit.dirty && t.edit.session == s.edit.session && t.backend
                == s.backend && t.edit.exit_confirm_open
        }),
{
}

/// Law: a failed save keeps the edits, the unsaved mark and edit mode; a successful one clears
/// the mark and keeps the text.
pub proof fn law_save_keeps_text(s: PageView, write: Result<(), String>)
    ensures
        page_after_save(s, write).edit.session == s.edit.session,
        page_after_save(s, write).edit.mode == s.edit.mode,
        !saved(s, write) ==> page_after_save(s, write).edit.dirty == s.edit.dirty,
        saved(s, write) ==> !page_after_save(s, write).edit.dirty,
{
}

/// Law: while a tab is edited, no reload puts lines back under the editor.
pub proof fn law_reload_leaves_edited_file_unmapped(
    s: PageView,
    poll: log_tab::ReloadPoll,
    scans: Seq<FilterScan>,
)
    requires
        s.edit.mode,
    ensures
        ({
            let t = log_tab::page_after_reload(s, poll, scans);
            &&& t.backend == s.backend
            &&& t.edit.session == s.edit.session
            &&& t.edit.mode
            &&& t.edit.dirty == s.edit.dirty
        }),
{
}

// ---------------------------------------------------------------------------
// Toolbar
// ---------------------------------------------------------------------------

/// What the find toolbar was asked to do in a frame.
#[derive(Debug, Clone, Copy, PartialEq, Eq, Structural)]
pub struct FindToolbar {
    /// The pane whose result list was asked for.
    pub list: Option<usize>,
    /// The pane whose filter box was left with Enter.
    pub enter: Option<usize>,
    /// The case switch was turned.
    pub case_changed: bool,
    pub next: Option<usize>,
    pub prev: Option<usize>,
}

/// The first step of a toolbar frame: the result list, else the entered filter, else the case.
pub open spec fn toolbar_first(s: PageView, bar: FindToolbar, scans: Seq<FilterScan>) -> PageView {
    match bar.list {
        Some(i) => log_tab::page_after_list_all(s, i as int, scans[i as int]),
        None => match bar.enter {
            Some(i) => log_tab::page_after_apply(s, i as int, scans[i as int]),
            None => if bar.case_changed {
                log_tab::page_refreshed(s, scans)
            } else {
                s
            },
        },
    }
}

/// A step to another match in pane `idx`, with its filter committed first.
pub open spec fn toolbar_step(
    s: PageView,
    idx: Option<usize>,
    jump: FindJump,
    scan: FilterScan,
) -> PageView {
    match idx {
        Some(i) => log_tab::page_after_jump(
            log_tab::page_ensured(s, i as int, scan),
            i as int,
            jump,
        ),
        None => s,
    }
}

/// The pane to step forward in: the one whose Next was pressed, or that was left with Enter.
pub open spec fn next_pane(bar: FindToolbar) -> Option<usize> {
    match bar.next {
        Some(i) => Some(i),
        None => bar.enter,
    }
}

/// The number of filter boxes on the toolbar with given options.
pub open spec fn boxes_shown(options: ViewOptions) -> usize {
    if options.split_enabled {
        options.pane_count
    } else {
        1
    }
}

/// All panes with the live tail followed again.
pub open spec fn pinned_panes(panes: Seq<PaneView>) -> Seq<PaneView> {
    Seq::new(panes.len(), |i: int| pane::pinned(panes[i]))
}

fn pin_all(panes: &mut Vec<PaneState>)
    ensures
        log_tab::pane_views(final(panes)@) == pinned_panes(log_tab::pane_views(old(panes)@)),
{
    let ghost before = panes@;
    let mut i: usize = 0;
    while i < panes.len()
        invariant
            i <= panes@.len() == before.len(),
            forall|k: int| i <= k < before.len() ==> #[trigger] panes@[k] == before[k],
            forall|k: int| 0 <= k < i ==> (#[trigger] panes@[k])@ == pane::pinned(before[k]@),
        decreases before.len() - i,
    {
        panes[i].pin();
        i = i + 1;
    }
    assert(log_tab::pane_views(panes@) =~= pinned_panes(log_tab::pane_views(before)));
}

impl LogTabPage {
    /// The number of filter boxes on the toolbar.
    pub fn filter_boxes(&self) -> (r: usize)
        ensures
            r == boxes_shown(self@.options),
    {
        proof {
            reveal(log_tab::page_view);
        }
        if self.options.split_enabled {
            self.options.pane_count
        } else {
            1
        }
    }

    fn first_toolbar_step(&mut self, bar: FindToolbar, scans: Vec<FilterScan>)
        requires
            scans@.len() >= old(self)@.panes.len(),
            bar.list matches Some(i) ==> i < scans@.len(),
            bar.enter matches Some(i) ==> i < scans@.len(),
        ensures
            final(self)@ == toolbar_first(old(self)@, bar, scans@),
    {
        let mut rest = scans;
        match bar.list {
            Some(i) => {
                let scan = rest.swap_remove(i);
                self.list_all_matches(i, scan);
            },
            None => match bar.enter {
                Some(i) => {
                    let scan = rest.swap_remove(i);
                    self.apply_filter(i, scan);
                },
                None => if bar.case_changed {
                    self.refresh_all_views(rest);
                },
            },
        }
    }

    fn toolbar_jump(&mut self, idx: Option<usize>, jump: FindJump, scan: FilterScan)
        ensures
            final(self)@ == toolbar_step(old(self)@, idx, jump, scan),
    {
        match idx {
            Some(i) => {
                self.ensure_filter_applied(i, scan);
                self.queue_find_jump(i, jump);
            },
            None => {},
        }
    }

    /// Carries out what the find toolbar was asked in a frame: the list, filter or case first,
    /// then the step forward, then the step back. `next_scan` and `prev_scan` are what a
    /// search finds for the typed filter of the panes stepped in.
    pub fn run_find_toolbar(
        &mut self,
        bar: FindToolbar,
        scans: Vec<FilterScan>,
        next_scan: FilterScan,
        prev_scan: FilterScan,
    )
        requires
            scans@.len() >= old(self)@.panes.len(),
            bar.list matches Some(i) ==> i < scans@.len(),
            bar.enter matches Some(i) ==> i < scans@.len(),
        ensures
            final(self)@ == toolbar_step(
                toolbar_step(
                    toolbar_first(old(self)@, bar, scans@),
                    next_pane(bar),
                    FindJump::Next,
                    next_scan,
                ),
                bar.prev,
                FindJump::Prev,
                prev_scan,
            ),
    {
        self.first_toolbar_step(bar, scans);
        let next = match bar.next {
            Some(i) => Some(i),
            None => bar.enter,
        };
        self.toolbar_jump(next, FindJump::Next, next_scan);
        self.toolbar_jump(bar.prev, FindJump::Prev, prev_scan);
    }

    fn store_options(&mut self, options: ViewOptions)
        ensures
            final(self)@ == (PageView { options, ..old(self)@ }),
    {
        proof {
            reveal(log_tab::page_view);
        }
        self.options = options;
    }

    fn read_options(&self) -> (r: ViewOptions)
        ensures
            r == self@.options,
    {
        proof {
            reveal(log_tab::page_view);
        }
        self.options
    }

    /// The split switch was turned: on brings at least two panes, off leaves one.
    pub fn set_split(&mut self, enabled: bool)
        ensures
            final(self)@ == page_split(old(self)@, enabled),
    {
        let options = self.read_options();
        if options.split_enabled == enabled {
            return;
        }
        if enabled {
            let n: usize = if options.pane_count < 2 {
                2
            } else {
                options.pane_count
            };
            self.store_options(ViewOptions { split_enabled: true, ..options });
            self.ensure_panes(n);
        } else {
            self.store_options(ViewOptions { split_enabled: false, same_page: false, ..options });
            self.ensure_panes(1);
        }
    }

    /// The number of panes was set.
    pub fn set_pane_count(&mut self, count: usize)
        requires
            1 <= count <= MAX_PANES,
        ensures
            final(self)@ == (PageView {
                options: ViewOptions { pane_count: count, ..old(self)@.options },
                panes: log_tab::resized_panes(old(self)@.panes, count as int),
                ..old(self)@
            }),
    {
        let options = self.read_options();
        self.store_options(ViewOptions { pane_count: count, ..options });
        self.ensure_panes(count);
    }

    fn pin_panes(&mut self)
        ensures
            final(self)@ == (PageView { panes: pinned_panes(old(self)@.panes), ..old(self)@ }),
    {
        proof {
            reveal(log_tab::page_view);
        }
        pin_all(&mut self.panes);
    }

    /// The follow-tail switch was turned: on pins all panes to the end again.
    pub fn set_auto_scroll(&mut self, on: bool)
        ensures
            final(self)@ == page_following(old(self)@, on),
    {
        let options = self.read_options();
        self.store_options(ViewOptions { auto_scroll: on, ..options });
        if on {
            self.pin_panes();
        }
    }
}

/// Law: Next visits all matches in turn. Where it selected a match, running it again selects
/// the one that follows, and after the last one the first; the note counts them along.
pub proof fn law_next_visits_every_match(e: EditStateView, case_sensitive: bool)
    requires
        editor::fits_memory(e.session.lines),
    ensures
        ({
            let h = search::all_line_hits(e.session.lines, e.find, case_sensitive);
            let first = edit_after_action(e, case_sensitive, FindAction::Next);
            let second = edit_after_action(first, case_sensitive, FindAction::Next);
            if h.len() == 0 {
                first.match_status is NoMatches && first.session == e.session
            } else {
                exists|k: int|
                    {
                        &&& #[trigger] editor::selects(first.session, h, k)
                        &&& h.len() <= usize::MAX ==> first.match_status == (MatchStatus::At {
                            ordinal: (k + 1) as usize,
                            total: h.len() as usize,
                        })
                        &&& forall|j: int|
                            0 <= j < k ==> search::starts_before(
                                #[trigger] h[j],
                                e.session.row as int,
                                e.session.col as int,
                            )
                        &&& k > 0 ==> !search::starts_before(
                            h[k],
                            e.session.row as int,
                            e.session.col as int,
                        )
                        &&& editor::selects(
                            second.session,
                            h,
                            if k + 1 < h.len() {
                                k + 1
                            } else {
                                0
                            },
                        )
                    }
            }
        }),
{
    let s = e.session;
    let h = search::all_line_hits(s.lines, e.find, case_sensitive);
    if h.len() > 0 {
        let k = search::next_hit_index(h, s.row as int, s.col as int, 0);
        search::law_line_steps_go_to_the_nearest_hit(h, s.row as int, s.col as int);
        editor::law_caret_on_a_match_leads_to_the_following_one(s, e.find, case_sensitive, k);
        let first = edit_after_action(e, case_sensitive, FindAction::Next);
        let next = if k + 1 < h.len() {
            k + 1
        } else {
            0
        };
        editor::law_caret_on_a_match_leads_to_the_following_one(
            first.session,
            e.find,
            case_sensitive,
            next,
        );
        assert(editor::selects(first.session, h, k));
    }
}

/// Law: Prev selects the last match that starts before the caret, and the last of all where
/// none does.
pub proof fn law_prev_selects_the_match_before_the_caret(e: EditStateView, case_sensitive: bool)
    requires
        editor::fits_memory(e.session.lines),
    ensures
        ({
            let h = search::all_line_hits(e.session.lines, e.find, case_sensitive);
            let t = edit_after_action(e, case_sensitive, FindAction::Prev);
            let (row, col) = (e.session.row as int, e.session.col as int);
            if h.len() == 0 {
                t.match_status is NoMatches && t.session == e.session
            } else {
                exists|k: int|
                    {
                        &&& #[trigger] editor::selects(t.session, h, k)
                        &&& h.len() <= usize::MAX ==> t.match_status == (MatchStatus::At {
                            ordinal: (k + 1) as usize,
                            total: h.len() as usize,
                        })
                        &&& forall|j: int|
                            k < j < h.len() ==> !search::starts_before(#[trigger] h[j], row, col)
                        &&& k < h.len() - 1 ==> search::starts_before(h[k], row, col)
                    }
            }
        }),
{
    let s = e.session;
    let h = search::all_line_hits(s.lines, e.find, case_sensitive);
    if h.len() > 0 {
        let k = search::prev_hit_index(h, s.row as int, s.col as int, h.len() as int);
        search::law_line_steps_go_to_the_nearest_hit(h, s.row as int, s.col as int);
        editor::law_caret_on_a_match_leads_to_the_following_one(s, e.find, case_sensitive, k);
        assert(editor::selects(
            edit_after_action(e, case_sensitive, FindAction::Prev).session,
            h,
            k,
        ));
    }
}

/// Law: only a file can be edited, and only once it is loaded and no search reads it. Then the
/// editor starts with the lines that were read, unchanged, with the caret at the start.
pub proof fn law_editing_starts_with_the_lines_of_the_file(
    s: PageView,
    read: Result<Vec<String>, String>,
)
    requires
        !s.edit.mode,
    ensures
        ({
            let t = page_after_entry(s, read);
            let idle = forall|i: int|
                0 <= i < s.panes.len() ==> !(#[trigger] s.panes[i]).filter_busy;
            &&& t.edit.mode == (!s.live && !s.loading && idle && s.filepath is Some && read is Ok)
            &&& t.edit.mode ==> t.edit.session.lines == search::views(read->Ok_0@)
                && t.edit.session.row == 0 && t.edit.session.col == 0 && !t.edit.dirty
                && t.edit.status.len() == 0 && t.backend is Pending && (forall|i: int|
                0 <= i < t.panes.len() ==> (#[trigger] t.panes[i]).sel_anchor is None
                    && t.panes[i].filter_applied == s.panes[i].filter_applied)
            &&& !t.edit.mode ==> t.backend == s.backend && t.panes == s.panes && t.edit.session
                == s.edit.session
            &&& !t.edit.mode && !s.live && !s.loading && idle && s.filepath is Some
                ==> t.edit.status == read->Err_0@
            &&& !t.edit.mode && !s.live && !s.loading && !idle ==> t.edit.status
                == "Wait for the active filter task to finish."@
            &&& s.live || s.loading ==> t == s
            &&& t.filepath == s.filepath && t.title == s.title && t.panes.len() == s.panes.len()
        }),
{
}

/// Law: leaving drops the editor, at once where nothing was edited, and the file is read again;
/// answering the question about unsaved edits with neither choice keeps everything.
pub proof fn law_leaving_reads_the_file_again(s: PageView)
    ensures
        s.edit.dirty ==> page_exit_requested(s).backend == s.backend
            && page_exit_requested(s).edit.session == s.edit.session
            && page_exit_requested(s).edit.exit_confirm_open,
        !s.edit.dirty ==> page_exit_requested(s) == page_edit_left(s),
        ({
            let t = page_edit_left(s);
            &&& !t.edit.mode && !t.edit.dirty && !t.edit.exit_confirm_open
            &&& t.edit.session.lines.len() == 0 && t.edit.status.len() == 0
            &&& s.filepath is Some ==> t.reload_active && t.loading && t.index_progress == 0
                && t.backend is Pending
            &&& s.filepath is None ==> t.reload_active == s.reload_active && t.backend == s.backend
            &&& t.filepath == s.filepath && t.panes == s.panes && t.edit.find == s.edit.find
        }),
        forall|dismiss: bool, window_open: bool|
            ({
                let t = #[trigger] page_exit_answered(s, dismiss, window_open);
                &&& t.edit.exit_confirm_open == (s.edit.exit_confirm_open && !dismiss
                    && window_open)
                &&& t.edit.session == s.edit.session && t.edit.mode == s.edit.mode && t.edit.dirty
                    == s.edit.dirty && t.backend == s.backend
            }),
{
}

/// Law: saving and leaving leaves edit mode only where the edits were written; a failed write
/// keeps the edits, tells what went wrong and reads nothing again.
pub proof fn law_leaving_after_a_save(s: PageView, write: Result<(), String>)
    requires
        s.edit.mode,
    ensures
        ({
            let t = page_saved_and_left(s, write);
            &&& !t.edit.mode == (s.filepath is Some && write is Ok)
            &&& !t.edit.mode ==> !t.edit.dirty && t.reload_active && t.loading
                && !t.edit.exit_confirm_open && t.edit.session.lines.len() == 0
            &&& t.edit.mode ==> t.edit.dirty == s.edit.dirty && t.edit.session == s.edit.session
                && t.edit.exit_confirm_open == s.edit.exit_confirm_open
            &&& s.filepath is Some && write is Err ==> t.edit.status == write->Err_0@
            &&& t.filepath == s.filepath && t.title == s.title
        }),
{
}

/// Law: saving under another name makes the tab one of that file, named by it without its
/// extension; a failed write keeps the tab's file and name and the unsaved mark. The text stays
/// either way.
pub proof fn law_saving_as_renames_the_tab(
    s: PageView,
    path: Seq<char>,
    stem: Option<Seq<char>>,
    write: Result<(), String>,
)
    ensures
        ({
            let t = page_saved_as(s, path, stem, write);
            &&& t.edit.session == s.edit.session && t.edit.mode == s.edit.mode && t.backend
                == s.backend && t.panes == s.panes
            &&& write is Ok ==> t.filepath == Some(path) && !t.edit.dirty && t.edit.status.len()
                == 0 && (stem is Some ==> t.title == stem->0) && (stem is None ==> t.title == path)
            &&& write is Err ==> t.filepath == s.filepath && t.title == s.title && t.edit.dirty
                == s.edit.dirty && t.edit.status == write->Err_0@
        }),
{
}

/// Law: discarding the edits puts the lines of the file back and stays in edit mode.
pub proof fn law_discarding_puts_the_file_back(s: PageView, lines: Vec<String>)
    ensures
        s.filepath is Some ==> page_discarded(s, Some(lines)).edit.session.lines == search::views(
            lines@,
        ),
        !page_discarded(s, Some(lines)).edit.dirty,
        page_discarded(s, Some(lines)).edit.mode == s.edit.mode,
        page_discarded(s, Some(lines)).filepath == s.filepath,
        page_discarded(s, None).edit.session == s.edit.session,
{
}

/// Law: a written file holds the edits, so they are no longer unsaved and the text stays; the
/// lines on screen are let go until they are read again. A failed write is told.
pub proof fn law_saving_clears_the_unsaved_mark(s: PageView, write: Result<(), String>)
    requires
        s.filepath is Some,
    ensures
        ({
            let t = page_after_save(s, write);
            &&& t.edit.dirty == (s.edit.dirty && write is Err)
            &&& write is Ok ==> t.edit.status.len() == 0
            &&& write is Err ==> t.edit.status == write->Err_0@
            &&& t.backend is Pending && !t.reload_active
            &&& t.filepath == s.filepath && t.title == s.title && t.edit.session == s.edit.session
                && t.edit.mode == s.edit.mode
        }),
{
}

/// Law: splitting shows at least two panes, and ending the split shows one; the first pane keeps
/// what it shows, and turning the switch to where it stands changes nothing.
pub proof fn law_splitting_keeps_the_first_pane(s: PageView)
    requires
        s.panes.len() > 0,
    ensures
        ({
            let t = page_split(s, true);
            let u = page_split(s, false);
            &&& t.options.split_enabled && !u.options.split_enabled
            &&& !s.options.split_enabled ==> 2 <= t.panes.len() <= 16 && t.panes[0] == s.panes[0]
                && (2 <= s.options.pane_count <= 16 ==> t.panes.len() == s.options.pane_count)
                && u == s
            &&& s.options.split_enabled ==> u.panes.len() == 1 && u.panes[0] == s.panes[0]
                && !u.options.same_page && t == s
            &&& t.backend == s.backend && u.backend == s.backend
        }),
{
}

/// Law: following the tail brings every pane back to the end of the log; ceasing to follow it
/// moves no pane.
pub proof fn law_following_pins_all_panes(s: PageView)
    ensures
        page_following(s, true).options.auto_scroll,
        !page_following(s, false).options.auto_scroll,
        page_following(s, false).panes == s.panes,
        forall|i: int|
            0 <= i < s.panes.len() ==> (#[trigger] page_following(s, true).panes[i]).scroll_pinned
                && page_following(s, true).panes[i].filter_applied == s.panes[i].filter_applied
                && page_following(s, true).panes[i].find_hits == s.panes[i].find_hits,
        page_following(s, true).panes.len() == s.panes.len(),
        page_following(s, true).backend == s.backend,
{
}

/// Law: replacing marks the text unsaved just where something was replaced, and tells how many
/// matches were; without a match at the caret it asks for one to be selected.
pub proof fn law_replacing_marks_the_text_unsaved(e: EditStateView, case_sensitive: bool)
    requires
        e.session.lines.len() > 0,
        search::match_total(
            e.session.lines,
            e.find,
            case_sensitive,
            e.session.lines.len() as int,
        ) <= usize::MAX,
    ensures
        ({
            let t = edit_after_action(e, case_sensitive, FindAction::Replace);
            let target = editor::replace_target(e.session, e.find, case_sensitive);
            &&& t.dirty == (e.dirty || target is Some)
            &&& target is None ==> t.match_status is SelectMatch && t.session == e.session
        }),
        ({
            let t = edit_after_action(e, case_sensitive, FindAction::ReplaceAll);
            let total = search::match_total(
                e.session.lines,
                e.find,
                case_sensitive,
                e.session.lines.len() as int,
            );
            &&& t.dirty == (e.dirty || total > 0)
            &&& t.match_status == (MatchStatus::Replaced { count: total as usize })
            &&& t.session.lines.len() == e.session.lines.len()
        }),
{
}

/// Law: Enter in a filter box commits the filter and goes to the next match, as the Next button
/// does; the Prev button goes back; the list button lists the matches; and a toolbar that was
/// not touched changes nothing.
pub proof fn law_toolbar_without_a_click_does_nothing(s: PageView, scans: Seq<FilterScan>, i: usize)
    requires
        i < scans.len(),
    ensures
        ({
            let idle = FindToolbar {
                list: None,
                enter: None,
                case_changed: false,
                next: None,
                prev: None,
            };
            let enter = FindToolbar { enter: Some(i), ..idle };
            &&& toolbar_first(s, idle, scans) == s
            &&& next_pane(idle) is None
            &&& next_pane(enter) == Some(i)
            &&& next_pane(FindToolbar { next: Some(i), ..idle }) == Some(i)
            &&& toolbar_first(s, enter, scans) == log_tab::page_after_apply(
                s,
                i as int,
                scans[i as int],
            )
            &&& toolbar_step(s, None, FindJump::Next, scans[0]) == s
        }),
{
}

/// Law: a split tab has a filter box for each pane, any other has one.
pub proof fn law_every_pane_has_a_filter_box(options: ViewOptions)
    ensures
        options.split_enabled ==> boxes_shown(options) == options.pane_count,
        !options.split_enabled ==> boxes_shown(options) == 1,
{
}

} // verus!
