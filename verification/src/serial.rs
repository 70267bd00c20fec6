//! The serial tool: capture control, the live log file and the row of log tabs.
use vstd::prelude::*;
use vstd::string::*;

use crate::capture::{PortError, PortSettings, PortView, SerialEvent};
use crate::log_tab::{LogTabPage, PageView, ViewIds};
use crate::pane::FilterScan;
use crate::tabs::{LoadEvent, LoadStatus, TabBar, TabInfo};
use crate::{capture, files, log_tab, search, tabs, text};

verus! {

// ---------------------------------------------------------------------------
// The live file
// ---------------------------------------------------------------------------

/// A log file: its folder and its name in it.
pub struct LogPath {
    pub dir: String,
    pub file: String,
}

/// Model of [`LogPath`].
pub struct PathView {
    pub dir: Seq<char>,
    pub file: Seq<char>,
}

impl View for LogPath {
    type V = PathView;

    open spec fn view(&self) -> PathView {
        PathView { dir: self.dir@, file: self.file@ }
    }
}

/// The model of an optional path.
pub open spec fn opt_path(p: Option<LogPath>) -> Option<PathView> {
    match p {
        Some(v) => Some(v@),
        None => None,
    }
}

/// The file that a capture is written to.
pub struct CaptureFile {
    /// The name in the box, which may still be typed.
    pub name: String,
    /// The name in use.
    pub committed: String,
    pub dir: String,
    pub file: Option<LogPath>,
    pub writer_open: bool,
}

/// Model of [`CaptureFile`].
pub struct CaptureView {
    pub name: Seq<char>,
    pub committed: Seq<char>,
    pub dir: Seq<char>,
    pub file: Option<PathView>,
    pub writer_open: bool,
}

impl View for CaptureFile {
    type V = CaptureView;

    open spec fn view(&self) -> CaptureView {
        CaptureView {
            name: self.name@,
            committed: self.committed@,
            dir: self.dir@,
            file: opt_path(self.file),
            writer_open: self.writer_open,
        }
    }
}

/// The folder of the captures.
pub open spec fn capture_dir(dir: Seq<char>) -> Seq<char> {
    if dir.len() == 0 {
        "log"@
    } else {
        dir
    }
}

/// The path of a capture under `name`; an empty name stands for the usual one.
pub open spec fn capture_path(dir: Seq<char>, name: Seq<char>) -> PathView {
    PathView {
        dir: capture_dir(dir),
        file: (if name.len() == 0 {
            "Live Packet Log"@
        } else {
            name
        }) + ".txt"@,
    }
}

/// The path that the capture in use has by its name.
pub open spec fn committed_path(c: CaptureView) -> PathView {
    PathView { dir: capture_dir(c.dir), file: c.committed + ".txt"@ }
}

/// What the file system says before a capture is renamed.
pub struct NameFacts {
    /// The file by the name in use exists.
    pub committed_exists: bool,
    /// The file by the new name exists.
    pub new_exists: bool,
    /// The old file exists.
    pub old_exists: bool,
    /// What the old file holds, its opening bytes at least, where there is such a file.
    pub old_content: Option<Vec<u8>>,
}

/// What committing the name in the box comes to.
pub enum CommitPlan {
    Invalid,
    Unchanged,
    TargetExists,
    /// Nothing was captured yet: the file, if there is one, gets the new name.
    InPlace { move_from: Option<LogPath> },
    /// The old file stays, a fresh one is started.
    Fresh,
}

/// The new name.
pub open spec fn new_name(c: CaptureView) -> Seq<char> {
    text::trimmed(c.name)
}

/// The file that holds the capture so far.
pub open spec fn old_file(c: CaptureView, facts: NameFacts) -> Option<PathView> {
    match c.file {
        Some(p) => Some(p),
        None => if facts.committed_exists {
            Some(committed_path(c))
        } else {
            None
        },
    }
}

/// Whether nothing was captured yet.
pub open spec fn capture_empty(
    c: CaptureView,
    facts: NameFacts,
    live_lines: usize,
) -> bool {
    live_lines == 0 && (old_file(c, facts) is Some ==> (facts.old_content matches Some(bytes)
        ==> files::without_text(bytes@)))
}

/// Whether `plan` is what committing the name comes to.
pub open spec fn plan_is(
    plan: CommitPlan,
    c: CaptureView,
    facts: NameFacts,
    live_lines: usize,
) -> bool {
    if !files::valid_log_name(new_name(c)) {
        plan is Invalid
    } else if new_name(c) == c.committed {
        plan is Unchanged
    } else if facts.new_exists {
        plan is TargetExists
    } else if capture_empty(c, facts, live_lines) {
        plan matches CommitPlan::InPlace { move_from } && opt_path(move_from) == match old_file(
            c,
            facts,
        ) {
            Some(p) => if p != capture_path(c.dir, new_name(c)) && facts.old_exists {
                Some(p)
            } else {
                None
            },
            None => None,
        }
    } else {
        plan is Fresh
    }
}

/// Whether the writer has to be opened for `path`.
pub open spec fn writer_missing(c: CaptureView, path: PathView) -> bool {
    !c.writer_open || c.file != Some(path)
}

/// The capture with the writer open on its path.
pub open spec fn with_writer(c: CaptureView) -> CaptureView {
    CaptureView { file: Some(capture_path(c.dir, c.name)), writer_open: true, ..c }
}

/// The capture after lines were written; `opened` tells whether a closed writer was opened.
pub open spec fn after_write(c: CaptureView, opened: bool) -> CaptureView {
    if !c.writer_open && opened {
        with_writer(c)
    } else {
        c
    }
}

fn clone_path(p: &LogPath) -> (r: LogPath)
    ensures
        r@ == p@,
{
    LogPath { dir: p.dir.clone(), file: p.file.clone() }
}

fn same_path(a: &LogPath, b: &LogPath) -> (r: bool)
    ensures
        r == (a@ == b@),
{
    text::same_text(a.dir.as_str(), b.dir.as_str()) && text::same_text(
        a.file.as_str(),
        b.file.as_str(),
    )
}

fn folder_of(dir: &str) -> (r: String)
    ensures
        r@ == capture_dir(dir@),
{
    if dir.is_empty() {
        "log".to_owned()
    } else {
        dir.to_owned()
    }
}

/// The path of a capture under `name`.
pub fn capture_path_of(dir: &str, name: &str) -> (r: LogPath)
    ensures
        r@ == capture_path(dir@, name@),
{
    let file = if name.is_empty() {
        text::join2("Live Packet Log", ".txt")
    } else {
        text::join2(name, ".txt")
    };
    LogPath { dir: folder_of(dir), file }
}

impl CaptureFile {
    /// The path that the capture is written to.
    pub fn live_path(&self) -> (r: LogPath)
        ensures
            r@ == capture_path(self@.dir, self@.name),
    {
        capture_path_of(self.dir.as_str(), self.name.as_str())
    }

    fn old_path(&self, facts: &NameFacts) -> (r: Option<LogPath>)
        ensures
            opt_path(r) == old_file(self@, *facts),
    {
        match &self.file {
            Some(p) => Some(clone_path(p)),
            None => if facts.committed_exists {
                Some(
                    LogPath {
                        dir: folder_of(self.dir.as_str()),
                        file: text::join2(self.committed.as_str(), ".txt"),
                    },
                )
            } else {
                None
            },
        }
    }

    /// What committing the name in the box comes to.
    pub fn plan_commit(&self, facts: &NameFacts, live_lines: usize) -> (r: CommitPlan)
        ensures
            plan_is(r, self@, *facts, live_lines),
    {
        let name = match files::normalized_log_name(self.name.as_str()) {
            Ok(name) => name,
            Err(_) => {
                return CommitPlan::Invalid;
            },
        };
        if text::same_text(name.as_str(), self.committed.as_str()) {
            return CommitPlan::Unchanged;
        }
        if facts.new_exists {
            return CommitPlan::TargetExists;
        }
        let old = self.old_path(facts);
        let content = if old.is_some() {
            facts.old_content.as_ref()
        } else {
            None
        };
        if !files::live_capture_is_empty(live_lines, content) {
            return CommitPlan::Fresh;
        }
        let target = capture_path_of(self.dir.as_str(), name.as_str());
        let move_from = match old {
            Some(p) => if !same_path(&p, &target) && facts.old_exists {
                Some(p)
            } else {
                None
            },
            None => None,
        };
        CommitPlan::InPlace { move_from }
    }

    /// Whether the writer has to be opened for `path`: it is closed, or is open on another
    /// file.
    pub fn needs_writer(&self, path: &LogPath) -> (r: bool)
        ensures
            r == writer_missing(self@, path@),
    {
        if !self.writer_open {
            return true;
        }
        match &self.file {
            Some(p) => !same_path(p, path),
            None => true,
        }
    }

    /// Notes that the writer is open on the path of the capture.
    pub fn writer_ready(&mut self)
        ensures
            final(self)@ == with_writer(old(self)@),
    {
        self.file = Some(self.live_path());
        self.writer_open = true;
    }

    /// Notes that the writer was closed.
    pub fn writer_closed(&mut self)
        ensures
            final(self)@ == (CaptureView { writer_open: false, ..old(self)@ }),
    {
        self.writer_open = false;
    }
}

// ---------------------------------------------------------------------------
// The panel
// ---------------------------------------------------------------------------

/// What the status line says.
pub enum SerialStatus {
    Ready,
    /// A text of the serial worker.
    Text(String),
    RenameInvalid,
    RenameExists,
    RenameFailed(String),
    CreateFailed(String),
    RenameOk(String),
    RenameSplit { old: String, new: String },
    NoPort,
    PortCount(usize),
    BadBaud,
    Monitoring { port: String, baud: u32 },
    Stopped,
    Loading(String),
    Load(LoadStatus),
    NewLive(String),
}

/// Why a log file could not be moved.
pub enum MoveError {
    AlreadyExists,
    Other(String),
}

/// The serial tool.
pub struct SerialToolPanel {
    pub port: PortSettings,
    pub monitoring: bool,
    pub capture: CaptureFile,
    pub status: SerialStatus,
    pub bar: TabBar,
    pub pending_lines: Vec<String>,
    pub open_dir: String,
}

/// Whether the status line says a given text of the worker.
pub open spec fn says(status: SerialStatus, s: Seq<char>) -> bool {
    status matches SerialStatus::Text(t) && t@ == s
}

/// The tabs `after` are the tabs `before` with another title on the live tab.
pub open spec fn retitled(before: TabBar, after: TabBar, title: Seq<char>) -> bool {
    &&& after.active == before.active
    &&& after.loads@ == before.loads@
    &&& after.tabs@.len() == before.tabs@.len()
    &&& forall|k: int|
        1 <= k < before.tabs@.len() ==> #[trigger] after.tabs@[k] == before.tabs@[k]
    &&& before.tabs@.len() > 0 ==> after.tabs@[0]@ == (PageView { title, ..before.tabs@[0]@ })
}

/// The tabs `after` are the tabs `before` with the live tab cleared and retitled.
pub open spec fn live_cleared(
    before: TabBar,
    after: TabBar,
    scans: Seq<FilterScan>,
    title: Option<Seq<char>>,
) -> bool {
    &&& after.active == before.active
    &&& after.loads@ == before.loads@
    &&& after.tabs@.len() == before.tabs@.len()
    &&& forall|k: int|
        1 <= k < before.tabs@.len() ==> #[trigger] after.tabs@[k] == before.tabs@[k]
    &&& before.tabs@.len() > 0 ==> after.tabs@[0]@ == ({
        let t = log_tab::page_cleared(before.tabs@[0]@, scans);
        match title {
            Some(s) => PageView { title: s, ..t },
            None => t,
        }
    })
}

fn retitle_live(bar: &mut TabBar, title: String)
    ensures
        retitled(*old(bar), *final(bar), title@),
{
    if bar.tabs.len() > 0 {
        bar.tabs[0].set_title(title);
    }
}

fn clear_live(bar: &mut TabBar, scans: Vec<FilterScan>)
    requires
        old(bar).tabs@.len() > 0 ==> scans@.len() >= old(bar).tabs@[0]@.panes.len(),
    ensures
        live_cleared(*old(bar), *final(bar), scans@, None),
{
    if bar.tabs.len() > 0 {
        bar.tabs[0].clear_display(scans);
    }
}

/// The lines on the live tab.
pub open spec fn live_line_count(bar: TabBar) -> nat {
    if bar.tabs@.len() > 0 {
        bar.tabs@[0]@.backend.lines().len()
    } else {
        0
    }
}

impl SerialToolPanel {
    /// The tool at start.
    pub fn new(
        port: PortSettings,
        name: String,
        dir: String,
        open_dir: String,
        live: LogTabPage,
    ) -> (r: Self)
        ensures
            r.port == port,
            !r.monitoring,
            r.capture@ == (CaptureView {
                name: name@,
                committed: name@,
                dir: dir@,
                file: None,
                writer_open: false,
            }),
            r.status is Ready,
            r.bar.tabs@.len() == 1,
            r.bar.tabs@[0]@ == (PageView { title: name@, ..live@ }),
            r.bar.active == 0,
            r.bar.loads@.len() == 0,
            r.pending_lines@.len() == 0,
            r.open_dir == open_dir,
    {
        let mut bar = TabBar::new(live);
        retitle_live(&mut bar, name.clone());
        SerialToolPanel {
            port,
            monitoring: false,
            capture: CaptureFile {
                name: name.clone(),
                committed: name,
                dir,
                file: None,
                writer_open: false,
            },
            status: SerialStatus::Ready,
            bar,
            pending_lines: Vec::new(),
            open_dir,
        }
    }

    fn live_lines(&self) -> (r: usize)
        ensures
            r == live_line_count(self.bar),
    {
        if self.bar.tabs.len() > 0 {
            self.bar.tabs[0].line_count()
        } else {
            0
        }
    }

    /// Commits the name in the box. `facts` is what the file system says beforehand, `moved`
    /// how moving the old file went, `reopened` how opening the writer on the new file went;
    /// the last two count only where the plan asks for them.
    pub fn commit_live_name(
        &mut self,
        facts: NameFacts,
        moved: Result<(), MoveError>,
        reopened: Result<(), String>,
        scans: Vec<FilterScan>,
    ) -> (done: bool)
        requires
            old(self).bar.tabs@.len() > 0 ==> scans@.len() >= old(self).bar.tabs@[0]@.panes.len(),
        ensures
            final(self).port == old(self).port,
            final(self).monitoring == old(self).monitoring,
            final(self).open_dir == old(self).open_dir,
            exists|plan: CommitPlan|
                {
                    &&& plan_is(
                        plan,
                        old(self).capture@,
                        facts,
                        live_line_count(old(self).bar) as usize,
                    )
                    &&& #[trigger] committed_by(
                        plan,
                        *old(self),
                        *final(self),
                        facts,
                        moved,
                        reopened,
                        scans@,
                        done,
                    )
                },
    {
        let lines: usize = self.live_lines();
        let plan = self.capture.plan_commit(&facts, lines);
        match &plan {
            CommitPlan::Invalid => {
                self.revert_name();
                self.status = SerialStatus::RenameInvalid;
                assert(committed_by(
                    plan,
                    *old(self),
                    *self,
                    facts,
                    moved,
                    reopened,
                    scans@,
                    false,
                ));
                false
            },
            CommitPlan::Unchanged => {
                self.trim_name();
                assert(committed_by(
                    plan,
                    *old(self),
                    *self,
                    facts,
                    moved,
                    reopened,
                    scans@,
                    true,
                ));
                true
            },
            CommitPlan::TargetExists => {
                self.revert_name();
                self.status = SerialStatus::RenameExists;
                assert(committed_by(
                    plan,
                    *old(self),
                    *self,
                    facts,
                    moved,
                    reopened,
                    scans@,
                    false,
                ));
                false
            },
            CommitPlan::InPlace { move_from } => {
                let moving: bool = move_from.is_some();
                let done: bool = self.rename_in_place(moving, &moved, &reopened);
                assert(committed_by(
                    plan,
                    *old(self),
                    *self,
                    facts,
                    moved,
                    reopened,
                    scans@,
                    done,
                ));
                done
            },
            CommitPlan::Fresh => {
                let done: bool = self.start_fresh(&facts, &reopened, scans);
                assert(committed_by(
                    plan,
                    *old(self),
                    *self,
                    facts,
                    moved,
                    reopened,
                    scans@,
                    done,
                ));
                done
            },
        }
    }

    fn revert_name(&mut self)
        ensures
            final(self).capture@ == (CaptureView {
                name: old(self).capture@.committed,
                ..old(self).capture@
            }),
            final(self).port == old(self).port,
            final(self).monitoring == old(self).monitoring,
            final(self).status == old(self).status,
            final(self).bar == old(self).bar,
            final(self).pending_lines == old(self).pending_lines,
            final(self).open_dir == old(self).open_dir,
    {
        self.capture.name = self.capture.committed.clone();
    }

    fn trim_name(&mut self)
        ensures
            final(self).capture@ == (CaptureView {
                name: new_name(old(self).capture@),
                ..old(self).capture@
            }),
            final(self).port == old(self).port,
            final(self).monitoring == old(self).monitoring,
            final(self).status == old(self).status,
            final(self).bar == old(self).bar,
            final(self).pending_lines == old(self).pending_lines,
            final(self).open_dir == old(self).open_dir,
    {
        self.capture.name = text::trim(self.capture.name.as_str());
    }

    fn rename_in_place(
        &mut self,
        moving: bool,
        moved: &Result<(), MoveError>,
        reopened: &Result<(), String>,
    ) -> (done: bool)
        ensures
            final(self).port == old(self).port,
            final(self).monitoring == old(self).monitoring,
            final(self).open_dir == old(self).open_dir,
            renamed_in_place(moving, *old(self), *final(self), *moved, *reopened, done),
    {
        if moving {
            self.capture.writer_closed();
            match moved {
                Ok(_) => {},
                Err(MoveError::AlreadyExists) => {
                    self.revert_name();
                    self.status = SerialStatus::RenameExists;
                    return false;
                },
                Err(MoveError::Other(message)) => {
                    self.revert_name();
                    self.status = SerialStatus::RenameFailed(message.clone());
                    return false;
                },
            }
        }
        self.trim_name();
        self.capture.writer_ready();
        self.capture.writer_closed();
        if self.monitoring {
            match reopened {
                Ok(_) => {
                    self.capture.writer_ready();
                },
                Err(message) => {
                    self.status = SerialStatus::CreateFailed(message.clone());
                    return false;
                },
            }
        }
        self.capture.committed = self.capture.name.clone();
        retitle_live(&mut self.bar, self.capture.committed.clone());
        self.status = SerialStatus::RenameOk(self.capture.committed.clone());
        true
    }

    fn start_fresh(
        &mut self,
        facts: &NameFacts,
        reopened: &Result<(), String>,
        scans: Vec<FilterScan>,
    ) -> (done: bool)
        requires
            old(self).bar.tabs@.len() > 0 ==> scans@.len() >= old(self).bar.tabs@[0]@.panes.len(),
        ensures
            final(self).port == old(self).port,
            final(self).monitoring == old(self).monitoring,
            final(self).open_dir == old(self).open_dir,
            started_fresh(*old(self), *final(self), *facts, *reopened, scans@, done),
    {
        let old_path = self.capture.old_path(facts);
        self.capture.writer_closed();
        self.pending_lines = Vec::new();
        clear_live(&mut self.bar, scans);
        match reopened {
            Ok(_) => {
                let old_name = self.capture.committed.clone();
                self.trim_name();
                self.capture.writer_ready();
                self.capture.committed = self.capture.name.clone();
                retitle_live(&mut self.bar, self.capture.committed.clone());
                self.status = SerialStatus::RenameSplit {
                    old: old_name,
                    new: self.capture.committed.clone(),
                };
                true
            },
            Err(message) => {
                self.revert_name();
                self.capture.file = old_path;
                self.status = SerialStatus::CreateFailed(message.clone());
                false
            },
        }
    }
}

/// The rename of an empty capture: the old file is moved where there is one, the writer follows
/// a running capture. A failed move leaves the old name in use.
pub open spec fn renamed_in_place(
    moving: bool,
    before: SerialToolPanel,
    after: SerialToolPanel,
    moved: Result<(), MoveError>,
    reopened: Result<(), String>,
    done: bool,
) -> bool {
    let c = before.capture@;
    let target = capture_path(c.dir, new_name(c));
    &&& after.pending_lines == before.pending_lines
    &&& if moving && moved is Err {
        &&& !done
        &&& after.bar == before.bar
        &&& after.capture@ == (CaptureView { name: c.committed, writer_open: false, ..c })
        &&& match moved->Err_0 {
            MoveError::AlreadyExists => after.status is RenameExists,
            MoveError::Other(message) => after.status == SerialStatus::RenameFailed(message),
        }
    } else if before.monitoring && reopened is Err {
        &&& !done
        &&& after.bar == before.bar
        &&& after.capture@ == (CaptureView {
            name: new_name(c),
            file: Some(target),
            writer_open: false,
            ..c
        })
        &&& after.status == SerialStatus::CreateFailed(reopened->Err_0)
    } else {
        &&& done
        &&& retitled(before.bar, after.bar, new_name(c))
        &&& after.capture@ == (CaptureView {
            name: new_name(c),
            committed: new_name(c),
            file: Some(target),
            writer_open: before.monitoring,
            ..c
        })
        &&& after.status matches SerialStatus::RenameOk(s) && s@ == new_name(c)
    }
}

/// The rename of a capture with content: the old file keeps its name, a fresh one is started
/// with an empty display.
pub open spec fn started_fresh(
    before: SerialToolPanel,
    after: SerialToolPanel,
    facts: NameFacts,
    reopened: Result<(), String>,
    scans: Seq<FilterScan>,
    done: bool,
) -> bool {
    let c = before.capture@;
    &&& after.pending_lines@.len() == 0
    &&& match reopened {
        Ok(_) => {
            &&& done
            &&& live_cleared(before.bar, after.bar, scans, Some(new_name(c)))
            &&& after.capture@ == (CaptureView {
                name: new_name(c),
                committed: new_name(c),
                file: Some(capture_path(c.dir, new_name(c))),
                writer_open: true,
                ..c
            })
            &&& after.status matches SerialStatus::RenameSplit { old, new } && old@ == c.committed
                && new@ == new_name(c)
        },
        Err(message) => {
            &&& !done
            &&& live_cleared(before.bar, after.bar, scans, None)
            &&& after.capture@ == (CaptureView {
                name: c.committed,
                file: old_file(c, facts),
                writer_open: false,
                ..c
            })
            &&& after.status == SerialStatus::CreateFailed(message)
        },
    }
}

/// What committing a name by a plan does.
pub open spec fn committed_by(
    plan: CommitPlan,
    before: SerialToolPanel,
    after: SerialToolPanel,
    facts: NameFacts,
    moved: Result<(), MoveError>,
    reopened: Result<(), String>,
    scans: Seq<FilterScan>,
    done: bool,
) -> bool {
    let c = before.capture@;
    match plan {
        CommitPlan::Invalid => !done && after.bar == before.bar && after.pending_lines
            == before.pending_lines && after.status is RenameInvalid && after.capture@ == (
        CaptureView { name: c.committed, ..c }),
        CommitPlan::Unchanged => done && after.bar == before.bar && after.pending_lines
            == before.pending_lines && after.status == before.status && after.capture@ == (
        CaptureView { name: new_name(c), ..c }),
        CommitPlan::TargetExists => !done && after.bar == before.bar && after.pending_lines
            == before.pending_lines && after.status is RenameExists && after.capture@ == (
        CaptureView { name: c.committed, ..c }),
        CommitPlan::InPlace { move_from } => renamed_in_place(
            move_from is Some,
            before,
            after,
            moved,
            reopened,
            done,
        ),
        CommitPlan::Fresh => started_fresh(before, after, facts, reopened, scans, done),
    }
}

// ---------------------------------------------------------------------------
// Starting and stopping
// ---------------------------------------------------------------------------

/// Why a capture did not start.
pub enum StartError {
    /// The name in the box could not be committed.
    Name,
    NoPort,
    BadBaud,
    /// The log file could not be opened.
    File(String),
}

/// The port settings with what was asked for from outside.
pub open spec fn with_overrides(s: PortView, port: Option<Seq<char>>, baud: Option<u32>) -> PortView {
    let t = match port {
        Some(p) => capture::with_port(s, p),
        None => s,
    };
    match baud {
        Some(b) => capture::with_baud(t, b as nat),
        None => t,
    }
}

/// What the status line says about the ports.
pub open spec fn ports_status(status: SerialStatus, monitoring: bool, s: PortView) -> bool {
    if monitoring {
        status matches SerialStatus::Monitoring { port, baud } && port@ == (if s.selected_port
            < s.ports.len() {
            s.ports[s.selected_port as int]
        } else {
            "?"@
        }) && baud == match text::number_of(s.baud, u32::MAX as nat) {
            Some(n) => n,
            None => 0,
        }
    } else if s.ports.len() == 0 {
        status is NoPort
    } else {
        status matches SerialStatus::PortCount(n) && n == s.ports.len()
    }
}

impl SerialToolPanel {
    /// Takes over a new list of ports and says so.
    pub fn refresh_ports(&mut self, ports: Vec<String>)
        ensures
            final(self).port@ == (PortView {
                ports: search::views(ports@),
                selected_port: if old(self).port@.selected_port >= ports@.len() {
                    0
                } else {
                    old(self).port@.selected_port
                },
                ..old(self).port@
            }),
            ports_status(final(self).status, old(self).monitoring, final(self).port@),
            final(self).monitoring == old(self).monitoring,
            final(self).capture == old(self).capture,
            final(self).bar == old(self).bar,
            final(self).pending_lines == old(self).pending_lines,
            final(self).open_dir == old(self).open_dir,
    {
        self.port.refresh_ports(ports);
        let total: usize = self.port.ports.len();
        self.status = if self.monitoring {
            let (shown, baud) = self.port.shown();
            let port = if self.port.selected_port < total {
                shown
            } else {
                "?".to_owned()
            };
            SerialStatus::Monitoring { port, baud }
        } else if total == 0 {
            SerialStatus::NoPort
        } else {
            SerialStatus::PortCount(total)
        };
    }

    /// Whether the name in the box is another than the one in use, so that it has to be
    /// committed before a capture starts.
    pub fn name_pending(&self) -> (r: bool)
        ensures
            r == (new_name(self.capture@) != self.capture@.committed),
    {
        let name = text::trim(self.capture.name.as_str());
        !text::same_text(name.as_str(), self.capture.committed.as_str())
    }

    /// Whether a start that is asked for comes to opening the log file: no capture runs, and
    /// the name, the port and the speed are in order.
    pub fn start_opens_log(
        &self,
        name_ok: bool,
        port_override: &Option<String>,
        baud_override: Option<u32>,
    ) -> (r: bool)
        ensures
            r == opens_log(*self, name_ok, files::opt_text(*port_override), baud_override),
    {
        if self.monitoring || (!name_ok && self.name_pending()) {
            return false;
        }
        let listed: usize = self.port.ports.len();
        let port: bool = match port_override {
            Some(p) => {
                proof {
                    capture::law_port_override_selects_it(self.port@, p@);
                }
                true
            },
            None => self.port.selected_port < listed,
        };
        let baud = match baud_override {
            Some(b) => text::decimal_text(b as u64),
            None => self.port.baud.clone(),
        };
        port && match text::parse_number(baud.as_str(), u32::MAX as u64) {
            Some(n) => n > 0,
            None => false,
        }
    }

    /// Starts a capture, or tells which one runs. `name_ok` tells whether a name that had to
    /// be committed was; `opened` how opening the log file went.
    pub fn api_start_monitor(
        &mut self,
        name_ok: bool,
        port_override: Option<String>,
        baud_override: Option<u32>,
        opened: Result<(), String>,
    ) -> (r: Result<(String, u32), StartError>)
        ensures
            final(self).pending_lines == old(self).pending_lines,
            final(self).open_dir == old(self).open_dir,
            started(
                *old(self),
                *final(self),
                name_ok,
                files::opt_text(port_override),
                baud_override,
                opened,
                r,
            ),
    {
        if self.monitoring {
            return Ok(self.port.shown());
        }
        if !name_ok && self.name_pending() {
            return Err(StartError::Name);
        }
        match &port_override {
            Some(port) => {
                self.port.override_port(port.as_str());
            },
            None => {},
        }
        match baud_override {
            Some(baud) => {
                self.port.override_baud(baud);
            },
            None => {},
        }
        match self.port.chosen() {
            Err(PortError::NoPort) => {
                self.status = SerialStatus::NoPort;
                Err(StartError::NoPort)
            },
            Err(PortError::BadBaud) => {
                self.status = SerialStatus::BadBaud;
                Err(StartError::BadBaud)
            },
            Ok((port, baud)) => match opened {
                Err(message) => {
                    self.status = SerialStatus::CreateFailed(message.clone());
                    Err(StartError::File(message))
                },
                Ok(_) => {
                    self.capture.writer_ready();
                    self.monitoring = true;
                    self.status = SerialStatus::Monitoring { port: port.clone(), baud };
                    retitle_live(&mut self.bar, self.capture.name.clone());
                    self.bar.active = 0;
                    Ok((port, baud))
                },
            },
        }
    }

    /// Stops the capture.
    pub fn api_stop_monitor(&mut self)
        ensures
            halted(*old(self), *final(self)),
            final(self).pending_lines == old(self).pending_lines,
    {
        self.monitoring = false;
        self.capture.writer_closed();
        self.status = SerialStatus::Stopped;
    }

    /// Stops the capture when the program ends.
    pub fn on_exit(&mut self)
        ensures
            halted(*old(self), *final(self)),
            final(self).pending_lines == old(self).pending_lines,
    {
        self.api_stop_monitor();
    }
}

/// The panel after a capture ended.
pub open spec fn halted(before: SerialToolPanel, after: SerialToolPanel) -> bool {
    &&& !after.monitoring
    &&& after.capture@ == (CaptureView { writer_open: false, ..before.capture@ })
    &&& after.status is Stopped
    &&& after.port == before.port
    &&& after.bar == before.bar
    &&& after.open_dir == before.open_dir
}

/// Whether starting a capture comes to opening the log file.
pub open spec fn opens_log(
    panel: SerialToolPanel,
    name_ok: bool,
    port: Option<Seq<char>>,
    baud: Option<u32>,
) -> bool {
    let s = with_overrides(panel.port@, port, baud);
    &&& !panel.monitoring
    &&& name_ok || new_name(panel.capture@) == panel.capture@.committed
    &&& s.selected_port < s.ports.len()
    &&& capture::baud_rate(s.baud) is Some
}

/// What starting a capture does.
pub open spec fn started(
    before: SerialToolPanel,
    after: SerialToolPanel,
    name_ok: bool,
    port: Option<Seq<char>>,
    baud: Option<u32>,
    opened: Result<(), String>,
    r: Result<(String, u32), StartError>,
) -> bool {
    let s = with_overrides(before.port@, port, baud);
    if before.monitoring {
        &&& after == before
        &&& r matches Ok(c) && c.0@ == (if before.port@.selected_port < before.port@.ports.len() {
            before.port@.ports[before.port@.selected_port as int]
        } else {
            Seq::empty()
        }) && c.1 == match text::number_of(before.port@.baud, u32::MAX as nat) {
            Some(n) => n,
            None => 0,
        }
    } else if !name_ok && new_name(before.capture@) != before.capture@.committed {
        &&& after == before
        &&& r matches Err(StartError::Name)
    } else if s.selected_port >= s.ports.len() {
        &&& not_started(before, after, s)
        &&& after.status is NoPort
        &&& r matches Err(StartError::NoPort)
    } else if capture::baud_rate(s.baud) is None {
        &&& not_started(before, after, s)
        &&& after.status is BadBaud
        &&& r matches Err(StartError::BadBaud)
    } else {
        match opened {
            Err(message) => {
                &&& not_started(before, after, s)
                &&& after.status == SerialStatus::CreateFailed(message)
                &&& r matches Err(StartError::File(m)) && m@ == message@
            },
            Ok(_) => {
                &&& after.monitoring
                &&& after.port@ == s
                &&& after.capture@ == (CaptureView {
                    file: Some(capture_path(before.capture@.dir, before.capture@.name)),
                    writer_open: true,
                    ..before.capture@
                })
                &&& after.bar.active == 0
                &&& retitled(
                    (TabBar { active: 0, ..before.bar }),
                    after.bar,
                    before.capture@.name,
                )
                &&& r matches Ok(c) && c.0@ == s.ports[s.selected_port as int]
                    && capture::baud_rate(s.baud) == Some(c.1 as nat)
                &&& after.status matches SerialStatus::Monitoring { port: p, baud: b } && p@
                    == r->Ok_0.0@ && b == r->Ok_0.1
            },
        }
    }
}

/// The panel after a capture that was asked for could not start: the settings asked for stay.
pub open spec fn not_started(before: SerialToolPanel, after: SerialToolPanel, s: PortView) -> bool {
    &&& !after.monitoring
    &&& after.port@ == s
    &&& after.capture == before.capture
    &&& after.bar == before.bar
}

// ---------------------------------------------------------------------------
// A new capture
// ---------------------------------------------------------------------------

/// The file that the old capture was written to.
pub struct ArchivedLog {
    pub path: String,
    pub stem: Option<String>,
}

/// The name of a new capture.
pub open spec fn stamped_name(title: Seq<char>, stamp: Seq<char>) -> Seq<char> {
    title + " "@ + stamp
}

/// The file after a new capture got its name.
pub open spec fn renewed_capture(c: CaptureView, name: Seq<char>, opened: bool) -> CaptureView {
    CaptureView {
        name,
        committed: name,
        dir: c.dir,
        file: if opened {
            Some(capture_path(c.dir, name))
        } else {
            None
        },
        writer_open: opened,
    }
}

impl SerialToolPanel {
    /// Starts a new log: the capture so far becomes a file tab, a fresh live tab takes its
    /// place. `flushed` tells how opening the old file went, `opened` how opening the new one
    /// went. The result tells whether the open files are to be noted.
    pub fn new_live_log(
        &mut self,
        ids: &mut ViewIds,
        title: &str,
        stamp: &str,
        archived: ArchivedLog,
        limits: (usize, usize),
        flushed: Result<(), String>,
        opened: Result<(), String>,
    ) -> (done: bool)
        requires
            old(self).bar.tabs@.len() >= 1,
            old(ids).next < u64::MAX - 1,
            forall|k: int|
                0 <= k < old(self).bar.loads@.len() ==> (#[trigger] old(self).bar.loads@[k])
                    < usize::MAX,
        ensures
            new_log_started(
                *old(self),
                *final(self),
                old(ids).next,
                stamped_name(title@, stamp@),
                archived,
                limits,
                flushed,
                opened,
                done,
            ),
            final(ids).next == old(ids).next + if flushed is Ok {
                2int
            } else {
                0int
            },
    {
        match flushed {
            Err(message) => {
                self.status = SerialStatus::CreateFailed(message);
                return false;
            },
            Ok(_) => {},
        }
        let name = text::join3(title, " ", stamp);
        self.capture.name = name.clone();
        self.capture.committed = name.clone();
        self.capture.file = None;
        self.capture.writer_open = false;
        self.bar.start_new_live(
            ids,
            name.clone(),
            limits.0,
            limits.1,
            archived.path,
            archived.stem,
        );
        match opened {
            Err(message) => {
                self.status = SerialStatus::CreateFailed(message);
                false
            },
            Ok(_) => {
                self.capture.writer_ready();
                proof {
                    reveal_strlit(" ");
                }
                assert(name@.len() > 0);
                self.bar.active = 0;
                self.status = SerialStatus::NewLive(name);
                true
            },
        }
    }
}

/// The panel after a new log was asked for.
pub open spec fn new_log_started(
    before: SerialToolPanel,
    after: SerialToolPanel,
    id: u64,
    name: Seq<char>,
    archived: ArchivedLog,
    limits: (usize, usize),
    flushed: Result<(), String>,
    opened: Result<(), String>,
    done: bool,
) -> bool {
    &&& after.port == before.port
    &&& after.monitoring == before.monitoring
    &&& after.open_dir == before.open_dir
    &&& after.pending_lines == before.pending_lines
    &&& done == (flushed is Ok && opened is Ok)
    &&& match flushed {
        Err(message) => {
            &&& after.capture == before.capture
            &&& after.bar == before.bar
            &&& after.status == SerialStatus::CreateFailed(message)
        },
        Ok(_) => {
            &&& after.capture@ == renewed_capture(before.capture@, name, opened is Ok)
            &&& new_live_bar(
                before.bar,
                after.bar,
                id,
                name,
                archived,
                limits,
                opened is Ok,
            )
            &&& match opened {
                Err(message) => after.status == SerialStatus::CreateFailed(message),
                Ok(_) => after.status matches SerialStatus::NewLive(n) && n@ == name,
            }
        },
    }
}

/// The tabs after a new log was started.
pub open spec fn new_live_bar(
    before: TabBar,
    after: TabBar,
    id: u64,
    name: Seq<char>,
    archived: ArchivedLog,
    limits: (usize, usize),
    opened: bool,
) -> bool {
    &&& after.tabs@.len() == before.tabs@.len() + 1
    &&& after.tabs@[0]@ == log_tab::fresh_page(
        id,
        true,
        None,
        name,
        (log_tab::BackendView::Live { lines: Seq::empty(), capacity: limits.0 }),
        false,
        limits.1,
    )
    &&& after.tabs@[1]@ == tabs::loading_page(
        (id + 1) as u64,
        archived.path@,
        files::opt_text(archived.stem),
        limits.1,
    )
    &&& forall|k: int|
        2 <= k < after.tabs@.len() ==> #[trigger] after.tabs@[k] == before.tabs@[k - 1]
    &&& after.loads@ == tabs::loads_shifted(before.loads@).push(1)
    &&& after.active == if opened {
        0
    } else {
        before.active
    }
}

// ---------------------------------------------------------------------------
// Opening files
// ---------------------------------------------------------------------------

/// A file to open, as the file system describes it.
pub struct LogFile {
    pub exists: bool,
    /// The extension, empty when there is none.
    pub extension: String,
    pub parent: Option<String>,
    /// The normalized path.
    pub path: String,
    pub stem: Option<String>,
}

/// What opening a file does to the panel, when `same` tells which tabs show that file already.
pub open spec fn file_opened_by(
    before: SerialToolPanel,
    after: SerialToolPanel,
    id: u64,
    file: LogFile,
    match_limit: usize,
    same: Seq<bool>,
    index: Option<usize>,
) -> bool {
    &&& after.port == before.port
    &&& after.monitoring == before.monitoring
    &&& after.capture == before.capture
    &&& after.pending_lines == before.pending_lines
    &&& after.open_dir == before.open_dir
    &&& match index {
        None => !file.exists && after.bar == before.bar && after.status == before.status,
        Some(i) => file.exists && (if after.bar.tabs@.len() > before.bar.tabs@.len() {
            after.status matches SerialStatus::Loading(p) && p@ == file.path@
        } else {
            after.status == before.status
        }) && tabs::opened(
            before.bar,
            after.bar,
            id,
            file.path@,
            files::opt_text(file.stem),
            match_limit,
            same,
            i as int,
        ),
    }
}

/// What opening a file does to the panel, by what the file system says about which paths are
/// one.
pub open spec fn file_opened(
    before: SerialToolPanel,
    after: SerialToolPanel,
    id: u64,
    file: LogFile,
    match_limit: usize,
    index: Option<usize>,
) -> bool {
    exists|same: Seq<bool>|
        {
            &&& tabs::verdicts(before.bar.tabs@, file.path@, same)
            &&& #[trigger] file_opened_by(before, after, id, file, match_limit, same, index)
        }
}

impl SerialToolPanel {
    /// The tab for a file: one that shows it already, or a new one that loads it. None where
    /// there is no such file. `same` tells for each tab whether it shows the file.
    pub fn open_file(
        &mut self,
        ids: &mut ViewIds,
        file: &LogFile,
        match_limit: usize,
        same: &Vec<bool>,
    ) -> (index: Option<usize>)
        requires
            same@.len() == old(self).bar.tabs@.len(),
            old(ids).next < u64::MAX,
        ensures
            file_opened_by(
                *old(self),
                *final(self),
                old(ids).next,
                *file,
                match_limit,
                same@,
                index,
            ),
            final(ids).next == old(ids).next + (final(self).bar.tabs@.len() - old(
                self,
            ).bar.tabs@.len()),
    {
        if !file.exists {
            return None;
        }
        let before: usize = self.bar.tabs.len();
        let stem = match &file.stem {
            Some(s) => Some(s.clone()),
            None => None,
        };
        assert(files::opt_text(stem) == files::opt_text(file.stem));
        let index: usize = self.bar.open_tab(ids, file.path.clone(), stem, match_limit, same);
        if self.bar.tabs.len() > before {
            self.status = SerialStatus::Loading(file.path.clone());
        }
        Some(index)
    }

    /// The tab for a file: one that shows it already, or a new one that loads it. None where
    /// there is no such file. The file system decides which tabs show the file.
    pub fn open_path(&mut self, ids: &mut ViewIds, file: &LogFile, match_limit: usize) -> (index:
        Option<usize>)
        requires
            old(ids).next < u64::MAX,
        ensures
            file_opened(*old(self), *final(self), old(ids).next, *file, match_limit, index),
            index is Some == file.exists,
            final(ids).next == old(ids).next + (final(self).bar.tabs@.len() - old(
                self,
            ).bar.tabs@.len()),
    {
        let same = self.bar.tabs_showing(file.path.as_str());
        let index = self.open_file(ids, file, match_limit, &same);
        assert(file_opened_by(
            *old(self),
            *self,
            old(ids).next,
            *file,
            match_limit,
            same@,
            index,
        ));
        index
    }

    /// Opens a file that was dropped on the window, where it is a log by its extension. The
    /// folder of such a file is remembered even when the file cannot be opened.
    pub fn open_dropped(&mut self, ids: &mut ViewIds, file: &LogFile, match_limit: usize) -> (index:
        Option<usize>)
        requires
            old(ids).next < u64::MAX,
        ensures
            final(ids).next == old(ids).next + (final(self).bar.tabs@.len() - old(
                self,
            ).bar.tabs@.len()),
            !files::log_extension(file.extension@) ==> index is None && *final(self) == *old(self),
            files::log_extension(file.extension@) ==> file_opened(
                *old(self),
                (SerialToolPanel { open_dir: old(self).open_dir, ..*final(self) }),
                old(ids).next,
                *file,
                match_limit,
                index,
            ) && final(self).open_dir@ == match file.parent {
                Some(parent) => parent@,
                None => old(self).open_dir@,
            },
    {
        if !files::is_log_extension(file.extension.as_str()) {
            return None;
        }
        let index = self.open_path(ids, file, match_limit);
        match &file.parent {
            Some(parent) => {
                self.open_dir = parent.clone();
            },
            None => {},
        }
        index
    }

    /// Takes over a report of a worker that loads a file. Tells whether the load is finished.
    pub fn apply_load_event(&mut self, tab_idx: usize, event: LoadEvent) -> (finished: bool)
        requires
            tab_idx < old(self).bar.tabs@.len() ==> (event matches LoadEvent::Done { lines, scans }
                ==> scans@.len() >= old(self).bar.tabs@[tab_idx as int]@.panes.len()),
        ensures
            finished == !(event is Progress),
            final(self).port == old(self).port,
            final(self).monitoring == old(self).monitoring,
            final(self).capture == old(self).capture,
            final(self).pending_lines == old(self).pending_lines,
            final(self).open_dir == old(self).open_dir,
            final(self).bar.active == old(self).bar.active,
            final(self).bar.loads@ == old(self).bar.loads@,
            final(self).bar.tabs@.len() == old(self).bar.tabs@.len(),
            forall|k: int|
                0 <= k < old(self).bar.tabs@.len() && k != tab_idx ==> #[trigger] final(self).bar.tabs@[k] == old(self).bar.tabs@[k],
            tab_idx < old(self).bar.tabs@.len() ==> final(self).bar.tabs@[tab_idx as int]@
                == tabs::after_load_event(old(self).bar.tabs@[tab_idx as int]@, event),
            ({
                let tab = if tab_idx < old(self).bar.tabs@.len() {
                    Some(old(self).bar.tabs@[tab_idx as int]@)
                } else {
                    None
                };
                if event is Failed || tab is Some {
                    final(self).status matches SerialStatus::Load(l) && tabs::load_status_is(
                        Some(l),
                        tab,
                        event,
                    )
                } else {
                    final(self).status == old(self).status
                }
            }),
    {
        let (status, finished) = self.bar.apply_load_event(tab_idx, event);
        match status {
            Some(l) => {
                self.status = SerialStatus::Load(l);
            },
            None => {},
        }
        finished
    }
}

// ---------------------------------------------------------------------------
// Incoming lines
// ---------------------------------------------------------------------------

/// What a frame took from the serial worker.
pub struct SerialFrame {
    /// The lines to write to the file and to show.
    pub batch: Vec<String>,
    /// What is to be published, in order.
    pub notices: Vec<String>,
    /// The capture ended.
    pub stopped: bool,
}

/// The panel after the events of a frame were read.
pub open spec fn drained(
    before: SerialToolPanel,
    after: SerialToolPanel,
    events: Seq<SerialEvent>,
    frame: SerialFrame,
) -> bool {
    let n = capture::read_count(events, 0);
    let all = search::views(before.pending_lines@) + capture::lines_in(events, n);
    let told = capture::notices_in(events, n);
    &&& frame.stopped == (n < events.len())
    &&& search::views(frame.batch@) == capture::frame_batch(all)
    &&& search::views(after.pending_lines@) == capture::frame_backlog(all)
    &&& search::views(frame.notices@) == if frame.stopped {
        told.push("stopped"@)
    } else {
        told
    }
    &&& after.port == before.port
    &&& after.bar == before.bar
    &&& after.open_dir == before.open_dir
    &&& if frame.stopped {
        halted(before, after)
    } else {
        &&& after.monitoring == before.monitoring
        &&& after.capture == before.capture
        &&& match capture::last_status(events, n) {
            Some(s) => says(after.status, s),
            None => after.status == before.status,
        }
    }
}

/// The tabs `after` are the tabs `before` with captured lines on the live tab.
pub open spec fn lines_shown(
    before: TabBar,
    after: TabBar,
    batch: Seq<Seq<char>>,
    update_filters: bool,
    fresh: Seq<FilterScan>,
) -> bool {
    &&& after.active == before.active
    &&& after.loads@ == before.loads@
    &&& after.tabs@.len() == before.tabs@.len()
    &&& forall|k: int|
        1 <= k < before.tabs@.len() ==> #[trigger] after.tabs@[k] == before.tabs@[k]
    &&& before.tabs@.len() > 0 ==> after.tabs@[0]@ == if batch.len() == 0 {
        before.tabs@[0]@
    } else {
        log_tab::page_after_append(before.tabs@[0]@, batch, update_filters, fresh)
    }
}

impl SerialToolPanel {
    /// Reads the events of a frame. A capture that ended stops the monitor.
    pub fn drain_events(&mut self, events: Vec<SerialEvent>) -> (frame: SerialFrame)
        ensures
            drained(*old(self), *final(self), events@, frame),
    {
        let pending = clone_lines(&self.pending_lines);
        let d = capture::drain_events(pending, events);
        self.pending_lines = d.pending;
        match d.status {
            Some(s) => {
                self.status = SerialStatus::Text(s);
            },
            None => {},
        }
        let mut notices = d.notices;
        if d.stopped {
            self.api_stop_monitor();
            let ghost told = search::views(notices@);
            notices.push("stopped".to_owned());
            assert(search::views(notices@) =~= told.push("stopped"@));
        }
        SerialFrame { batch: d.batch, notices, stopped: d.stopped }
    }

    /// Notes how writing lines went: a closed writer was opened for them, or could not be.
    pub fn lines_written(&mut self, opened: bool)
        ensures
            final(self).capture@ == after_write(old(self).capture@, opened),
            final(self).port == old(self).port,
            final(self).monitoring == old(self).monitoring,
            final(self).status == old(self).status,
            final(self).bar == old(self).bar,
            final(self).pending_lines == old(self).pending_lines,
            final(self).open_dir == old(self).open_dir,
    {
        if opened && !self.capture.writer_open {
            self.capture.writer_ready();
        }
    }

    /// Shows captured lines on the live tab. `fresh` holds what a search finds in them for
    /// each pane.
    pub fn show_lines(&mut self, batch: Vec<String>, update_filters: bool, fresh: Vec<FilterScan>)
        requires
            old(self).bar.tabs@.len() > 0 ==> fresh@.len() >= old(self).bar.tabs@[0]@.panes.len(),
        ensures
            final(self).port == old(self).port,
            final(self).monitoring == old(self).monitoring,
            final(self).capture == old(self).capture,
            final(self).status == old(self).status,
            final(self).pending_lines == old(self).pending_lines,
            final(self).open_dir == old(self).open_dir,
            lines_shown(
                old(self).bar,
                final(self).bar,
                search::views(batch@),
                update_filters,
                fresh@,
            ),
    {
        if batch.len() > 0 && self.bar.tabs.len() > 0 {
            self.bar.tabs[0].append_lines(batch, update_filters, fresh);
        }
    }

    /// Clears the live tab.
    pub fn clear_live_display(&mut self, scans: Vec<FilterScan>)
        requires
            old(self).bar.tabs@.len() > 0 ==> scans@.len() >= old(self).bar.tabs@[0]@.panes.len(),
        ensures
            live_cleared(old(self).bar, final(self).bar, scans@, None),
            final(self).port == old(self).port,
            final(self).monitoring == old(self).monitoring,
            final(self).capture == old(self).capture,
            final(self).status == old(self).status,
            final(self).pending_lines == old(self).pending_lines,
            final(self).open_dir == old(self).open_dir,
    {
        clear_live(&mut self.bar, scans);
    }

    /// Brings the filters of a live tab that is in front up to date.
    pub fn sync_visible_live_filters(&mut self, scans: Vec<FilterScan>)
        requires
            old(self).bar.tabs@.len() > 0 ==> scans@.len() >= old(self).bar.tabs@[0]@.panes.len(),
        ensures
            final(self).port == old(self).port,
            final(self).monitoring == old(self).monitoring,
            final(self).capture == old(self).capture,
            final(self).status == old(self).status,
            final(self).pending_lines == old(self).pending_lines,
            final(self).open_dir == old(self).open_dir,
            final(self).bar.active == old(self).bar.active,
            final(self).bar.loads@ == old(self).bar.loads@,
            final(self).bar.tabs@.len() == old(self).bar.tabs@.len(),
            forall|k: int|
                1 <= k < old(self).bar.tabs@.len() ==> #[trigger] final(self).bar.tabs@[k] == old(self).bar.tabs@[k],
            old(self).bar.tabs@.len() > 0 ==> final(self).bar.tabs@[0]@ == if old(self).bar.active
                == 0 {
                tabs::activated(old(self).bar.tabs@[0]@, scans@)
            } else {
                old(self).bar.tabs@[0]@
            },
    {
        if self.bar.active == 0 && self.bar.tabs.len() > 0 {
            let _ahead = self.bar.tabs[0].on_activated(scans);
        }
    }
}

fn clone_lines(lines: &Vec<String>) -> (r: Vec<String>)
    ensures
        search::views(r@) == search::views(lines@),
{
    let mut r: Vec<String> = Vec::new();
    let mut i: usize = 0;
    while i < lines.len()
        invariant
            i <= lines@.len(),
            r@.len() == i,
            forall|k: int| 0 <= k < i ==> (#[trigger] r@[k])@ == lines@[k]@,
        decreases lines@.len() - i,
    {
        r.push(lines[i].clone());
        i = i + 1;
    }
    assert(search::views(r@) =~= search::views(lines@));
    r
}

// ---------------------------------------------------------------------------
// Questions
// ---------------------------------------------------------------------------

/// Whether a tab waits for a background search.
pub open spec fn tab_busy(s: PageView) -> bool {
    exists|i: int| 0 <= i < s.panes.len() && (#[trigger] s.panes[i]).filter_busy
}

/// Whether files are loaded, lines wait or a search runs.
pub open spec fn background_io(panel: SerialToolPanel) -> bool {
    ||| panel.bar.loads@.len() > 0
    ||| panel.pending_lines@.len() > 0
    ||| exists|k: int| 0 <= k < panel.bar.tabs@.len() && tab_busy(#[trigger] panel.bar.tabs@[k]@)
}

/// A request for lines of a tab.
pub struct LinesRequest {
    pub tab_id: Option<u64>,
    pub from_row: Option<u64>,
    pub limit: Option<u64>,
}

/// Lines of a tab.
pub struct LinesReply {
    pub tab_id: usize,
    pub from_row: usize,
    pub lines: Vec<String>,
}

/// The number asked for, or the usual one.
pub open spec fn asked(n: Option<u64>, usual: u64) -> usize {
    match n {
        Some(v) => v as usize,
        None => usual as usize,
    }
}

fn asked_number(n: Option<u64>, usual: u64) -> (r: usize)
    ensures
        r == asked(n, usual),
{
    match n {
        Some(v) =>
        #[verifier::truncate]
        (v as usize),
        None =>
        #[verifier::truncate]
        (usual as usize),
    }
}

/// The lines from `from` on, at most `limit` of them.
pub open spec fn slice_of(lines: Seq<Seq<char>>, from: int, limit: int) -> Seq<Seq<char>> {
    let start = search::lesser(from, lines.len() as int);
    lines.subrange(start, start + search::lesser(limit, lines.len() - start))
}

/// The last lines, at most `limit` of them.
pub open spec fn last_of(lines: Seq<Seq<char>>, limit: int) -> Seq<Seq<char>> {
    lines.skip(lines.len() - search::lesser(limit, lines.len() as int))
}

impl SerialToolPanel {
    /// Whether the window is to be painted again.
    pub fn needs_repaint(&self) -> (r: bool)
        ensures
            r == (self.monitoring || background_io(*self)),
    {
        self.monitoring || self.has_background_io()
    }

    /// Whether files are loaded, lines wait or a search runs.
    pub fn has_background_io(&self) -> (r: bool)
        ensures
            r == background_io(*self),
    {
        if self.bar.loads.len() > 0 || self.pending_lines.len() > 0 {
            return true;
        }
        let mut i: usize = 0;
        while i < self.bar.tabs.len()
            invariant
                i <= self.bar.tabs@.len(),
                forall|k: int| 0 <= k < i ==> !tab_busy(#[trigger] self.bar.tabs@[k]@),
            decreases self.bar.tabs@.len() - i,
        {
            let busy: bool = self.bar.tabs[i].has_background_filter();
            assert(busy == tab_busy(self.bar.tabs@[i as int]@));
            if busy {
                return true;
            }
            i = i + 1;
        }
        false
    }

    /// Whether a capture runs.
    pub fn is_monitoring(&self) -> (r: bool)
        ensures
            r == self.monitoring,
    {
        self.monitoring
    }

    /// Whether the live tab is in front.
    pub fn active_live_visible(&self) -> (r: bool)
        ensures
            r == (self.bar.active == 0),
    {
        self.bar.active == 0
    }

    /// What each tab is about, and which one is in front.
    pub fn api_tabs_list(&self) -> (r: (Vec<TabInfo>, usize))
        ensures
            r.0@.len() == self.bar.tabs@.len(),
            forall|i: int|
                0 <= i < r.0@.len() ==> tabs::describes(#[trigger] r.0@[i], self.bar.tabs@, i),
            r.1 == self.bar.active,
    {
        (self.bar.tab_list(), self.bar.active)
    }

    /// Lines of a tab; none where there is no such tab. Without numbers: the first hundred of
    /// the live tab.
    pub fn api_lines_get(&self, request: LinesRequest) -> (r: Option<LinesReply>)
        ensures
            r is Some <==> asked(request.tab_id, 0) < self.bar.tabs@.len(),
            r matches Some(reply) ==> reply.tab_id == asked(request.tab_id, 0) && reply.from_row
                == asked(request.from_row, 0) && search::views(reply.lines@) == slice_of(
                self.bar.tabs@[reply.tab_id as int]@.backend.lines(),
                asked(request.from_row, 0) as int,
                asked(request.limit, 100) as int,
            ),
    {
        let tab_id: usize = asked_number(request.tab_id, 0);
        let from_row: usize = asked_number(request.from_row, 0);
        let limit: usize = asked_number(request.limit, 100);
        if tab_id >= self.bar.tabs.len() {
            return None;
        }
        let lines = self.bar.tabs[tab_id].lines_slice(from_row, limit);
        Some(LinesReply { tab_id, from_row, lines })
    }

    /// The last lines of the live tab.
    pub fn api_recent_live_lines(&self, limit: usize) -> (r: Vec<String>)
        ensures
            self.bar.tabs@.len() == 0 ==> r@.len() == 0,
            self.bar.tabs@.len() > 0 ==> search::views(r@) == last_of(
                self.bar.tabs@[0]@.backend.lines(),
                limit as int,
            ),
    {
        if self.bar.tabs.len() == 0 {
            return Vec::new();
        }
        self.bar.tabs[0].recent_lines(limit)
    }
}

/// What is remembered of the tool between two runs.
pub struct LogSettings {
    pub default_filename: String,
    pub save_dir: String,
    pub open_log_files: Vec<String>,
    pub last_open_dir: String,
    pub log_browser_dir: String,
}

impl SerialToolPanel {
    /// What is remembered of the tool: the name in use, the folders and the open files.
    pub fn log_settings(&self, browser_dir: &str) -> (r: LogSettings)
        ensures
            r.default_filename@ == self.capture@.committed,
            r.save_dir@ == self.capture@.dir,
            tabs::open_paths(self.bar.tabs@, search::views(r.open_log_files@)),
            r.last_open_dir@ == self.open_dir@,
            r.log_browser_dir@ == browser_dir@,
    {
        LogSettings {
            default_filename: self.capture.committed.clone(),
            save_dir: self.capture.dir.clone(),
            open_log_files: self.bar.collect_open_log_paths(),
            last_open_dir: self.open_dir.clone(),
            log_browser_dir: browser_dir.to_owned(),
        }
    }
}

// ---------------------------------------------------------------------------
// Laws
// ---------------------------------------------------------------------------

/// Law: a rename that fails before a file changed leaves the name in use, the file and the
/// tabs as they were.
pub proof fn law_refused_rename_keeps_capture(
    plan: CommitPlan,
    before: SerialToolPanel,
    after: SerialToolPanel,
    facts: NameFacts,
    moved: Result<(), MoveError>,
    reopened: Result<(), String>,
    scans: Seq<FilterScan>,
)
    requires
        plan is Invalid || plan is TargetExists || (plan matches CommitPlan::InPlace { move_from }
            && move_from is Some && moved is Err),
        committed_by(plan, before, after, facts, moved, reopened, scans, false),
    ensures
        after.capture@.committed == before.capture@.committed,
        after.capture@.name == before.capture@.committed,
        after.capture@.file == before.capture@.file,
        after.bar == before.bar,
        after.pending_lines == before.pending_lines,
{
}

/// Law: a rename of a capture with content leaves the old file alone: nothing is moved, and
/// the writer is on a file of another name.
pub proof fn law_content_keeps_its_file(
    c: CaptureView,
    facts: NameFacts,
    live_lines: usize,
    plan: CommitPlan,
)
    requires
        plan_is(plan, c, facts, live_lines),
        !capture_empty(c, facts, live_lines),
    ensures
        !(plan is InPlace),
        plan is Fresh ==> new_name(c) != c.committed && !facts.new_exists,
{
}

/// Law: a rename never takes over a file that exists.
pub proof fn law_rename_overwrites_nothing(
    c: CaptureView,
    facts: NameFacts,
    live_lines: usize,
    plan: CommitPlan,
)
    requires
        plan_is(plan, c, facts, live_lines),
        facts.new_exists,
    ensures
        plan is Invalid || plan is Unchanged || plan is TargetExists,
{
}

/// Law: a committed name is settled: committing again changes nothing.
pub proof fn law_commit_is_settled(
    c: CaptureView,
    facts: NameFacts,
    live_lines: usize,
    plan: CommitPlan,
)
    requires
        files::valid_log_name(new_name(c)),
        c.committed == new_name(c),
        c.name == new_name(c),
        plan_is(plan, c, facts, live_lines),
    ensures
        plan is Unchanged,
{
}

/// Law: how opening the log file went matters only where starting a capture comes to it;
/// otherwise the panel and the answer are the same.
pub proof fn law_log_opens_last(
    before: SerialToolPanel,
    after: SerialToolPanel,
    name_ok: bool,
    port: Option<Seq<char>>,
    baud: Option<u32>,
    opened: Result<(), String>,
    other: Result<(), String>,
    r: Result<(String, u32), StartError>,
)
    requires
        !opens_log(before, name_ok, port, baud),
        started(before, after, name_ok, port, baud, opened, r),
    ensures
        started(before, after, name_ok, port, baud, other, r),
        !(r matches Err(StartError::File(_))),
{
}

/// Law: starting a capture twice answers the second time with the port and the speed that the
/// first time chose.
pub proof fn law_start_twice_reports_running_capture(
    before: SerialToolPanel,
    running: SerialToolPanel,
    after: SerialToolPanel,
    name_ok: bool,
    port: Option<Seq<char>>,
    baud: Option<u32>,
    opened: Result<(), String>,
    again_ok: bool,
    again_port: Option<Seq<char>>,
    again_baud: Option<u32>,
    again_opened: Result<(), String>,
    first: (String, u32),
    second: Result<(String, u32), StartError>,
)
    requires
        !before.monitoring,
        started(before, running, name_ok, port, baud, opened, Ok(first)),
        started(running, after, again_ok, again_port, again_baud, again_opened, second),
    ensures
        after == running,
        second is Ok,
        second->Ok_0.0@ == first.0@,
        second->Ok_0.1 == first.1,
{
}

/// One opening of a file by the panel: what was asked, what the file system answered for each
/// tab, and the tab that came of it.
pub struct FileRequest {
    pub id: u64,
    pub file: LogFile,
    pub match_limit: usize,
    pub same: Seq<bool>,
    pub index: Option<usize>,
}

/// Whether the panel `after` is the panel `before` with a request carried out.
pub open spec fn carried_out(
    before: SerialToolPanel,
    after: SerialToolPanel,
    request: FileRequest,
) -> bool {
    &&& request.same.len() == before.bar.tabs@.len()
    &&& file_opened_by(
        before,
        after,
        request.id,
        request.file,
        request.match_limit,
        request.same,
        request.index,
    )
}

/// Law: a path that is no file opens nothing. Any other gets a tab: a new one at the end, which
/// shows that file, exactly if no open tab shows the file already.
pub proof fn law_opening_a_file(
    before: SerialToolPanel,
    after: SerialToolPanel,
    request: FileRequest,
)
    requires
        carried_out(before, after, request),
    ensures
        request.index is None == !request.file.exists,
        request.index is None ==> after == before,
        request.index matches Some(i) ==> {
            let n = before.bar.tabs@.len();
            &&& i < after.bar.tabs@.len()
            &&& forall|k: int| 0 <= k < n ==> #[trigger] after.bar.tabs@[k] == before.bar.tabs@[k]
            &&& if forall|k: int| 0 <= k < n ==> !#[trigger] request.same[k] {
                &&& after.bar.tabs@.len() == n + 1
                &&& i == n
                &&& after.bar.tabs@[n as int]@.filepath == Some(request.file.path@)
            } else {
                &&& after == before
                &&& request.same[i as int]
            }
        },
{
    tabs::lemma_first_set(request.same, 0);
    if request.index is Some {
        let n = before.bar.tabs@.len() as int;
        assert forall|k: int| 0 <= k < n implies #[trigger] after.bar.tabs@[k]
            == before.bar.tabs@[k] by {
            if after.bar.tabs@.len() > n {
                assert(after.bar.tabs@.take(n)[k] == after.bar.tabs@[k]);
            }
        }
    }
}

/// Law: opening a file again, under the same path or another spelling of it, gives the same tab
/// and changes nothing. The file system's answers are the premise: for the old tabs they are
/// what they were, and the tab that the first opening gave shows the file.
pub proof fn law_opening_a_file_twice(
    before: SerialToolPanel,
    once: SerialToolPanel,
    twice: SerialToolPanel,
    first: FileRequest,
    second: FileRequest,
)
    requires
        carried_out(before, once, first),
        carried_out(once, twice, second),
        second.file.exists == first.file.exists,
        forall|k: int|
            0 <= k < first.same.len() ==> #[trigger] second.same[k] == first.same[k],
        first.index matches Some(i) ==> second.same[i as int],
    ensures
        twice == once,
        second.index == first.index,
{
    if first.index is Some {
        let (i, j) = (first.index->0, second.index->0);
        tabs::law_opening_twice_shares_a_tab(
            before.bar,
            once.bar,
            twice.bar,
            tabs::OpenRequest {
                view_id: first.id,
                path: first.file.path@,
                stem: files::opt_text(first.file.stem),
                match_limit: first.match_limit,
                same: first.same,
                index: i as int,
            },
            tabs::OpenRequest {
                view_id: second.id,
                path: second.file.path@,
                stem: files::opt_text(second.file.stem),
                match_limit: second.match_limit,
                same: second.same,
                index: j as int,
            },
        );
    }
}

/// Law: the file of a capture with a name is that name followed by `.txt`, in the folder of the
/// captures, so captures with different names have different files, and the name can be read
/// off the file. Without a name the usual one stands in, and without a folder the usual folder.
pub proof fn law_captures_have_their_own_files(dir: Seq<char>, name: Seq<char>, other: Seq<char>)
    ensures
        name.len() > 0 ==> capture_path(dir, name).file == name + ".txt"@,
        name.len() > 0 && other.len() > 0 && name != other ==> capture_path(dir, name).file
            != capture_path(dir, other).file,
        name.len() > 0 ==> files::stem_of(capture_path(dir, name).file) == name,
        name.len() == 0 ==> capture_path(dir, name).file == "Live Packet Log.txt"@,
        dir.len() > 0 ==> capture_path(dir, name).dir == dir,
        dir.len() == 0 ==> capture_path(dir, name).dir == "log"@,
{
    reveal_strlit(".txt");
    reveal_strlit("Live Packet Log");
    reveal_strlit("Live Packet Log.txt");
    if name.len() == 0 {
        assert("Live Packet Log"@ + ".txt"@ =~= "Live Packet Log.txt"@);
    } else {
        let file = name + ".txt"@;
        assert(file.take(name.len() as int) =~= name);
        files::lemma_last_dot_is(file, name.len() as int, file.len() as int);
        if other.len() > 0 {
            let second = other + ".txt"@;
            assert(second.take(second.len() - 4) =~= other);
            assert(file.take(file.len() - 4) =~= name);
        }
    }
}

/// Law: the capture in use is looked for where a capture by its name is written, whatever is
/// being typed for a new one.
pub proof fn law_capture_in_use_is_where_it_was_written(c: CaptureView)
    requires
        c.committed.len() > 0,
    ensures
        committed_path(c) == capture_path(c.dir, c.committed),
        committed_path(c).file == c.committed + ".txt"@,
        committed_path(c).dir == capture_path(c.dir, c.name).dir,
{
}

/// Law: a name can be committed where it is a plain file name and no other file has it. An empty
/// capture is renamed, with its file where there is one; a capture with content is left under
/// its name.
pub proof fn law_name_is_committed_by_what_was_captured(
    plan: CommitPlan,
    c: CaptureView,
    facts: NameFacts,
    live_lines: usize,
)
    requires
        plan_is(plan, c, facts, live_lines),
        files::valid_log_name(text::trimmed(c.name)),
        text::trimmed(c.name) != c.committed,
    ensures
        plan is TargetExists <==> facts.new_exists,
        !facts.new_exists && live_lines > 0 ==> plan is Fresh,
        !facts.new_exists && live_lines == 0 && c.file is None && !facts.committed_exists
            ==> plan is InPlace && plan->move_from is None,
        !facts.new_exists && live_lines == 0 && facts.old_content is None ==> plan is InPlace,
        !facts.new_exists && (c.file is Some || facts.committed_exists) && facts.old_content is Some
            && !files::without_text(facts.old_content->0@) ==> plan is Fresh,
        plan is InPlace && plan->move_from is Some ==> facts.old_exists && (c.file is Some
            ==> plan->move_from->0@ == c.file->0) && (c.file is None ==> plan->move_from->0@.file
            == c.committed + ".txt"@),
{
}

/// Law: an empty name or one that names a folder is refused, and the name in use comes back.
pub proof fn law_bad_name_is_refused(
    plan: CommitPlan,
    before: SerialToolPanel,
    after: SerialToolPanel,
    facts: NameFacts,
    moved: Result<(), MoveError>,
    reopened: Result<(), String>,
    scans: Seq<FilterScan>,
    done: bool,
)
    requires
        !files::valid_log_name(text::trimmed(before.capture@.name)),
        plan_is(plan, before.capture@, facts, live_line_count(before.bar) as usize),
        committed_by(plan, before, after, facts, moved, reopened, scans, done),
    ensures
        !done,
        after.status is RenameInvalid,
        after.capture@.name == before.capture@.committed,
        after.capture@.committed == before.capture@.committed,
        after.bar == before.bar,
{
}

/// Law: a name that was committed is the name of the capture, of its file and of the live tab,
/// without the white space that was typed around it; no line on screen is lost by renaming an
/// empty capture, and a capture with content starts over with an empty display and its old file
/// left behind.
pub proof fn law_committed_name_is_in_use(
    plan: CommitPlan,
    before: SerialToolPanel,
    after: SerialToolPanel,
    facts: NameFacts,
    moved: Result<(), MoveError>,
    reopened: Result<(), String>,
    scans: Seq<FilterScan>,
)
    requires
        plan is InPlace || plan is Fresh,
        committed_by(plan, before, after, facts, moved, reopened, scans, true),
        before.bar.tabs@.len() > 0,
        text::trimmed(before.capture@.name).len() > 0,
    ensures
        ({
            let name = text::trimmed(before.capture@.name);
            let live = after.bar.tabs@[0]@;
            &&& after.capture@.name == name && after.capture@.committed == name
            &&& after.capture@.file is Some && after.capture@.file->0.file == name + ".txt"@
            &&& after.capture@.dir == before.capture@.dir
            &&& live.title == name
            &&& after.bar.tabs@.len() == before.bar.tabs@.len() && after.bar.active
                == before.bar.active
            &&& forall|k: int|
                1 <= k < before.bar.tabs@.len() ==> #[trigger] after.bar.tabs@[k]
                    == before.bar.tabs@[k]
            &&& plan is InPlace ==> live.backend == before.bar.tabs@[0]@.backend
                && after.pending_lines == before.pending_lines && after.capture@.writer_open
                == before.monitoring
            &&& plan is Fresh ==> (before.bar.tabs@[0]@.backend is Live ==> live.backend.lines().len()
                == 0) && after.pending_lines@.len() == 0 && after.capture@.writer_open
        }),
{
}

/// Law: a rename that could not open its new file is not done, says why, and closes the writer;
/// a capture with content then keeps its name and its file.
pub proof fn law_rename_without_a_file_is_not_done(
    plan: CommitPlan,
    before: SerialToolPanel,
    after: SerialToolPanel,
    facts: NameFacts,
    moved: Result<(), MoveError>,
    message: String,
    scans: Seq<FilterScan>,
    done: bool,
)
    requires
        plan is Fresh || (plan is InPlace && before.monitoring && moved is Ok),
        committed_by(plan, before, after, facts, moved, Err(message), scans, done),
    ensures
        !done,
        after.status == SerialStatus::CreateFailed(message),
        !after.capture@.writer_open,
        after.capture@.committed == before.capture@.committed,
        plan is Fresh ==> after.capture@.name == before.capture@.committed
            && (before.capture@.file is Some ==> after.capture@.file == before.capture@.file),
{
}

/// Law: lines are written to the file of the capture: the writer is opened for another file, or
/// where it is closed, and is not opened twice for one.
pub proof fn law_writer_follows_the_capture(c: CaptureView)
    requires
        c.name.len() > 0,
    ensures
        ({
            let path = capture_path(c.dir, c.name);
            let t = with_writer(c);
            &&& t.writer_open && t.file == Some(path) && path.file == c.name + ".txt"@
            &&& t.name == c.name && t.committed == c.committed && t.dir == c.dir
            &&& !writer_missing(t, path)
            &&& !c.writer_open ==> writer_missing(c, path)
            &&& forall|other: PathView|
                other != path ==> #[trigger] writer_missing(t, other)
            &&& after_write(c, false) == c
            &&& c.writer_open ==> after_write(c, true) == c
            &&& !c.writer_open ==> after_write(c, true) == t
        }),
{
}

/// Law: a capture that starts runs on the port and at the speed that were asked for, or else on
/// the selected ones; the live tab comes to the front under the name of the capture and keeps
/// its lines, and the writer is open on the file of that name.
pub proof fn law_capture_starts_as_asked(
    before: SerialToolPanel,
    after: SerialToolPanel,
    name_ok: bool,
    port: Option<Seq<char>>,
    baud: Option<u32>,
    first: (String, u32),
)
    requires
        !before.monitoring,
        before.bar.tabs@.len() > 0,
        before.capture@.name.len() > 0,
        before.port@.ports.len() <= usize::MAX,
        started(before, after, name_ok, port, baud, Ok(()), Ok(first)),
    ensures
        after.monitoring,
        port is Some ==> first.0@ == port->0,
        port is None ==> first.0@ == before.port@.ports[before.port@.selected_port as int],
        baud is Some ==> first.1 == baud->0,
        baud is None ==> text::number_of(before.port@.baud, u32::MAX as nat) == Some(
            first.1 as nat,
        ),
        first.1 > 0,
        after.bar.active == 0,
        after.bar.tabs@[0]@.title == before.capture@.name,
        after.bar.tabs@[0]@.backend == before.bar.tabs@[0]@.backend,
        after.bar.tabs@.len() == before.bar.tabs@.len(),
        after.capture@.writer_open,
        after.capture@.file is Some && after.capture@.file->0.file == before.capture@.name
            + ".txt"@,
        name_ok || text::trimmed(before.capture@.name) == before.capture@.committed,
{
    let s = before.port@;
    let t = match port {
        Some(p) => capture::with_port(s, p),
        None => s,
    };
    if port is Some {
        capture::law_port_override_selects_it(s, port->0);
        capture::law_port_override_keeps_the_others(s, port->0);
    }
    if baud is Some {
        capture::law_baud_override_is_used(t, baud->0);
    }
}

/// Law: a capture does not start without a port, nor at a speed of zero, nor while a name is
/// pending that could not be committed; what is missing first is told, and nothing is opened.
pub proof fn law_capture_needs_a_port_and_a_speed(
    before: SerialToolPanel,
    after: SerialToolPanel,
    name_ok: bool,
    baud: Option<u32>,
    opened: Result<(), String>,
    r: Result<(String, u32), StartError>,
)
    requires
        !before.monitoring,
        started(before, after, name_ok, None, baud, opened, r),
    ensures
        !name_ok && text::trimmed(before.capture@.name) != before.capture@.committed ==> after
            == before && r == Err::<(String, u32), StartError>(StartError::Name),
        name_ok && before.port@.ports.len() == 0 ==> r == Err::<(String, u32), StartError>(
            StartError::NoPort,
        ) && after.status is NoPort && !after.monitoring && after.bar == before.bar
            && after.capture == before.capture,
        name_ok && before.port@.selected_port < before.port@.ports.len() && baud == Some(0u32)
            ==> r == Err::<(String, u32), StartError>(StartError::BadBaud) && after.status
            is BadBaud && !after.monitoring && after.bar == before.bar && after.capture
            == before.capture,
        opened is Err ==> r is Err && !after.monitoring && after.bar == before.bar
            && after.capture == before.capture,
{
    if baud is Some {
        capture::law_baud_override_is_used(before.port@, baud->0);
    }
}

/// Law: a capture that stops closes its file and keeps its name, its lines and its tabs.
pub proof fn law_stopping_keeps_the_log(before: SerialToolPanel, after: SerialToolPanel)
    requires
        halted(before, after),
    ensures
        !after.monitoring,
        !after.capture@.writer_open,
        after.capture@.name == before.capture@.name,
        after.capture@.committed == before.capture@.committed,
        after.capture@.file == before.capture@.file,
        after.capture@.dir == before.capture@.dir,
        after.bar == before.bar,
        after.port == before.port,
        after.status is Stopped,
{
}

/// Law: the status line tells the port and speed of a capture that runs, or else how many ports
/// there are.
pub proof fn law_ports_are_told(status: SerialStatus, s: PortView)
    ensures
        ports_status(status, false, s) && s.ports.len() > 0 ==> status == SerialStatus::PortCount(
            s.ports.len() as usize,
        ) || s.ports.len() > usize::MAX,
        ports_status(status, false, s) && s.ports.len() == 0 ==> status is NoPort,
        ports_status(status, true, s) && s.selected_port < s.ports.len() ==> status is Monitoring
            && status->Monitoring_port@ == s.ports[s.selected_port as int],
        ports_status(status, true, s) && s.selected_port >= s.ports.len() ==> status is Monitoring
            && status->Monitoring_port@ == "?"@,
        ports_status(status, true, s) && text::number_of(s.baud, u32::MAX as nat) is Some
            ==> status->Monitoring_baud == text::number_of(s.baud, u32::MAX as nat)->0,
{
}

/// Law: a new log takes the title and the time for its name; the capture so far becomes the
/// first file tab, which loads the file that it was written to, and a fresh live tab stands in
/// front of it. The other tabs move up by one, and so do their loads.
pub proof fn law_new_log_keeps_the_old_one(
    before: SerialToolPanel,
    after: SerialToolPanel,
    id: u64,
    title: Seq<char>,
    stamp: Seq<char>,
    archived: ArchivedLog,
    limits: (usize, usize),
)
    requires
        before.bar.tabs@.len() >= 1,
        id < u64::MAX,
        forall|k: int|
            0 <= k < before.bar.loads@.len() ==> (#[trigger] before.bar.loads@[k]) < usize::MAX,
        new_log_started(
            before,
            after,
            id,
            stamped_name(title, stamp),
            archived,
            limits,
            Ok(()),
            Ok(()),
            true,
        ),
    ensures
        ({
            let name = after.capture@.name;
            let (live, old_log) = (after.bar.tabs@[0]@, after.bar.tabs@[1]@);
            let loads = before.bar.loads@;
            &&& title.is_prefix_of(name) && stamp.is_suffix_of(name)
            &&& name.len() == title.len() + 1 + stamp.len() && name[title.len() as int] == ' '
            &&& after.capture@.committed == name && after.capture@.file == Some(
                capture_path(before.capture@.dir, name),
            ) && after.capture@.writer_open
            &&& after.monitoring == before.monitoring
            &&& live.live && live.title == name && live.backend.lines().len() == 0
                && live.backend is Live && live.filepath is None
            &&& old_log.filepath == Some(archived.path@) && old_log.loading && !old_log.live
            &&& live.view_id != old_log.view_id
            &&& after.bar.tabs@.len() == before.bar.tabs@.len() + 1
            &&& forall|k: int|
                2 <= k < after.bar.tabs@.len() ==> #[trigger] after.bar.tabs@[k]
                    == before.bar.tabs@[k - 1]
            &&& after.bar.loads@.len() == loads.len() + 1
            &&& after.bar.loads@[loads.len() as int] == 1
            &&& forall|k: int|
                0 <= k < loads.len() ==> #[trigger] after.bar.loads@[k] == loads[k] + 1
            &&& after.bar.active == 0
        }),
{
    reveal_strlit(" ");
}

/// Law: a new log is not begun where the old one could not be written out; one whose own file
/// could not be opened stays closed, with the tab that was in front still at its index.
pub proof fn law_new_log_needs_its_files(
    before: SerialToolPanel,
    after: SerialToolPanel,
    id: u64,
    name: Seq<char>,
    archived: ArchivedLog,
    limits: (usize, usize),
    flushed: Result<(), String>,
    opened: Result<(), String>,
    done: bool,
)
    requires
        flushed is Err || opened is Err,
        new_log_started(before, after, id, name, archived, limits, flushed, opened, done),
    ensures
        !done,
        flushed is Err ==> after.bar == before.bar && after.capture == before.capture
            && after.status == SerialStatus::CreateFailed(flushed->Err_0),
        flushed is Ok ==> !after.capture@.writer_open && after.capture@.file is None
            && after.status == SerialStatus::CreateFailed(opened->Err_0) && after.bar.active
            == before.bar.active,
        after.monitoring == before.monitoring,
{
}

/// Law: a frame of a capture shows and keeps the lines that waited and those that came, in this
/// order, with none lost while they are no more than fit; the worker's last word is on the
/// status line; and the end of the capture closes it and is told last.
pub proof fn law_frame_loses_no_line(
    before: SerialToolPanel,
    after: SerialToolPanel,
    events: Seq<SerialEvent>,
    frame: SerialFrame,
)
    requires
        drained(before, after, events, frame),
        before.pending_lines@.len() + events.len() <= capture::DRAIN_LINES_PER_FRAME,
    ensures
        ({
            let n = capture::read_count(events, 0);
            &&& search::views(frame.batch@) + search::views(after.pending_lines@)
                == search::views(before.pending_lines@) + capture::lines_in(events, n)
            &&& after.bar == before.bar && after.port == before.port
            &&& frame.stopped ==> !after.monitoring && !after.capture@.writer_open
                && frame.notices@.len() > 0 && frame.notices@.last()@ == "stopped"@
            &&& !frame.stopped ==> after.monitoring == before.monitoring && after.capture
                == before.capture
        }),
{
    let n = capture::read_count(events, 0);
    let all = search::views(before.pending_lines@) + capture::lines_in(events, n);
    capture::law_drain_loses_only_old_backlog(all);
    capture::lemma_read_count_is_bounded(events, 0);
    capture::lemma_no_more_lines_than_events(events, n);
    if frame.stopped {
        let told = capture::notices_in(events, n).push("stopped"@);
        let said = search::views(frame.notices@);
        assert(said.len() == frame.notices@.len());
        assert(said[said.len() - 1] == told.last());
        assert(said[said.len() - 1] == frame.notices@[said.len() - 1]@);
    }
}

/// Law: captured lines go to the live tab alone, and nothing else moves.
pub proof fn law_lines_go_to_the_live_tab(
    before: TabBar,
    after: TabBar,
    batch: Seq<Seq<char>>,
    update_filters: bool,
    fresh: Seq<FilterScan>,
)
    requires
        lines_shown(before, after, batch, update_filters, fresh),
        before.tabs@.len() > 0,
        before.tabs@[0]@.backend is Live,
        before.tabs@[0]@.backend.lines().len() + batch.len()
            <= before.tabs@[0]@.backend->Live_capacity,
    ensures
        after.tabs@[0]@.backend.lines() == before.tabs@[0]@.backend.lines() + batch,
        after.tabs@[0]@.title == before.tabs@[0]@.title,
        after.tabs@.len() == before.tabs@.len(),
        after.active == before.active,
        forall|k: int|
            1 <= k < before.tabs@.len() ==> #[trigger] after.tabs@[k] == before.tabs@[k],
{
    let old_lines = before.tabs@[0]@.backend.lines();
    if batch.len() == 0 {
        assert(old_lines + batch =~= old_lines);
    } else {
        assert(after.tabs@[0]@.backend.lines() =~= old_lines + batch);
    }
}

/// Law: clearing the display drops the lines of the live tab and changes no other tab.
pub proof fn law_clearing_leaves_the_file_tabs(
    before: TabBar,
    after: TabBar,
    scans: Seq<FilterScan>,
)
    requires
        live_cleared(before, after, scans, None),
        before.tabs@.len() > 0,
        before.tabs@[0]@.backend is Live,
    ensures
        after.tabs@[0]@.backend.lines().len() == 0,
        after.tabs@[0]@.title == before.tabs@[0]@.title,
        after.tabs@.len() == before.tabs@.len(),
        after.active == before.active,
        forall|k: int|
            1 <= k < before.tabs@.len() ==> #[trigger] after.tabs@[k] == before.tabs@[k],
{
}

/// Law: lines asked for come from the row asked for on, in their order, up to the limit or the
/// end of the log; without numbers they are the first hundred of the first tab. The last lines
/// are those at the end of the log.
pub proof fn law_lines_asked_for(lines: Seq<Seq<char>>, from: int, limit: int, n: u64)
    requires
        0 <= from,
        0 <= limit,
    ensures
        ({
            let r = slice_of(lines, from, limit);
            &&& r.len() <= limit
            &&& forall|i: int|
                0 <= i < r.len() ==> from + i < lines.len() && #[trigger] r[i] == lines[from + i]
            &&& from < lines.len() ==> (r.len() == limit || from + r.len() == lines.len())
            &&& from >= lines.len() ==> r.len() == 0
        }),
        ({
            let r = last_of(lines, limit);
            r.is_suffix_of(lines) && (r.len() == limit || (r.len() < limit && r == lines))
        }),
        n <= usize::MAX ==> asked(Some(n), 100) == n,
        asked(None, 0) == 0 && asked(None, 100) == 100,
{
    let r = last_of(lines, limit);
    if limit >= lines.len() {
        assert(r =~= lines);
    }
    assert(r =~= lines.subrange(lines.len() - r.len(), lines.len() as int));
}

/// Law: the tool works in the background while a file is loaded, lines wait or a pane is
/// searched, and not otherwise.
pub proof fn law_background_work(panel: SerialToolPanel, k: int, i: int)
    ensures
        panel.bar.loads@.len() > 0 || panel.pending_lines@.len() > 0 ==> background_io(panel),
        0 <= k < panel.bar.tabs@.len() && 0 <= i < panel.bar.tabs@[k]@.panes.len()
            && panel.bar.tabs@[k]@.panes[i].filter_busy ==> background_io(panel),
        background_io(panel) && panel.bar.loads@.len() == 0 && panel.pending_lines@.len() == 0
            ==> panel.bar.tabs@.len() > 0,
{
    if 0 <= k < panel.bar.tabs@.len() && 0 <= i < panel.bar.tabs@[k]@.panes.len()
        && panel.bar.tabs@[k]@.panes[i].filter_busy {
        assert(tab_busy(panel.bar.tabs@[k]@));
    }
}

/// Law: a file that does not exist opens no tab and changes nothing; one that exists has a tab
/// afterwards, and the capture is left alone.
pub proof fn law_only_existing_files_are_opened(
    before: SerialToolPanel,
    after: SerialToolPanel,
    id: u64,
    file: LogFile,
    match_limit: usize,
    index: Option<usize>,
)
    requires
        file_opened(before, after, id, file, match_limit, index),
    ensures
        index is Some <==> file.exists,
        index is None ==> after == before,
        index is Some ==> index->0 < after.bar.tabs@.len(),
        after.capture == before.capture && after.monitoring == before.monitoring && after.port
            == before.port && after.pending_lines == before.pending_lines,
        after.bar.tabs@.len() > before.bar.tabs@.len() ==> after.status is Loading
            && after.status->Loading_0@ == file.path@,
{
    let same = choose|same: Seq<bool>|
        {
            &&& tabs::verdicts(before.bar.tabs@, file.path@, same)
            &&& #[trigger] file_opened_by(before, after, id, file, match_limit, same, index)
        };
    law_opening_a_file(before, after, FileRequest { id, file, match_limit, same, index });
}

} // verus!
