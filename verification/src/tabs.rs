//! The row of log tabs: the live tab first, then one tab per open file.
use vstd::prelude::*;
use vstd::string::*;

use crate::log_tab::{LogTabPage, ViewIds};
use crate::pane::FilterScan;
use crate::{files, log_tab, search, text};

verus! {

/// The tabs, the one in front, and for each file being loaded the index of its tab.
pub struct TabBar {
    /// Index 0 is the live tab.
    pub tabs: Vec<LogTabPage>,
    pub active: usize,
    pub loads: Vec<usize>,
}

/// Milliseconds are too coarse for frames: microseconds between two tab switches by the wheel.
pub const TAB_WHEEL_COOLDOWN_US: u64 = 240_000;

/// The index next to tab `current` of `count` in a direction, at most the last one.
pub open spec fn adjacent_tab(current: int, count: int, direction: i8) -> int {
    let c = search::lesser(current, count - 1);
    if count == 0 {
        0
    } else if direction < 0 {
        if c == 0 {
            0
        } else {
            c - 1
        }
    } else if direction > 0 {
        search::lesser(c + 1, count - 1)
    } else {
        c
    }
}

/// Whether the wheel may switch tabs again.
pub open spec fn wheel_rested(last_switch: Option<u64>, now: u64) -> bool {
    last_switch matches Some(last) ==> now - last >= TAB_WHEEL_COOLDOWN_US
}

/// Law: a turn of the wheel moves to the tab beside the current one, forward or back by its
/// direction, and stops at the ends of the row; turning back undoes it everywhere else.
pub proof fn law_wheel_moves_to_the_next_tab(current: int, count: int, direction: i8)
    requires
        0 <= current < count,
    ensures
        ({
            let r = adjacent_tab(current, count, direction);
            &&& 0 <= r < count
            &&& direction == 0 ==> r == current
            &&& direction > 0 ==> (r == current + 1 || (r == current && current == count - 1))
            &&& direction < 0 ==> (r == current - 1 || (r == current && current == 0))
            &&& r != current ==> adjacent_tab(
                r,
                count,
                if direction > 0 {
                    -1i8
                } else {
                    1i8
                },
            ) == current
        }),
        forall|past: int|
            past >= count ==> #[trigger] adjacent_tab(past, count, direction) == adjacent_tab(
                count - 1,
                count,
                direction,
            ),
{
}

/// Law: between two switches by the wheel lies almost a quarter of a second.
pub proof fn law_wheel_rests_between_switches(last: u64, now: u64)
    ensures
        wheel_rested(None, now),
        wheel_rested(Some(last), now) == (now >= last + 240_000),
{
}

/// The next tab in a direction, without wrapping; an index past the end counts as the last.
pub fn adjacent_tab_index(current: usize, count: usize, direction: i8) -> (r: usize)
    ensures
        r == adjacent_tab(current as int, count as int, direction),
{
    if count == 0 {
        return 0;
    }
    let last: usize = count - 1;
    let c: usize = if current < last {
        current
    } else {
        last
    };
    if direction < 0 {
        c.saturating_sub(1)
    } else if direction > 0 && c < last {
        c + 1
    } else {
        c
    }
}

/// Whether enough time has passed since the wheel last switched tabs. Times are microseconds of
/// the frame clock.
pub fn tab_wheel_switch_allowed(last_switch: Option<u64>, now: u64) -> (r: bool)
    ensures
        r == wheel_rested(last_switch, now),
{
    match last_switch {
        Some(last) => now >= last && now - last >= TAB_WHEEL_COOLDOWN_US,
        None => true,
    }
}

/// What the context menu of tab `i` offers.
#[derive(Debug, Clone, Copy, PartialEq, Eq, Structural)]
pub struct TabMenu {
    pub close_current: bool,
    pub close_left: bool,
    pub close_right: bool,
    pub close_all: bool,
}

/// The entries of the context menu of tab `i` of `count` that can be chosen.
pub open spec fn menu_of(i: int, count: int) -> TabMenu {
    TabMenu {
        close_current: i > 0,
        close_left: i > 1,
        close_right: i + 1 < count,
        close_all: count > 1,
    }
}

/// Law: the menu of a tab offers to close it unless it is the live tab, to close the left or
/// right tabs where there is a file tab on that side, and to close all where there is a file
/// tab.
pub proof fn law_menu_offers_what_can_be_closed(i: int, count: int)
    requires
        0 <= i < count,
    ensures
        menu_of(i, count).close_current <==> i != 0,
        menu_of(i, count).close_left <==> i >= 2,
        menu_of(i, count).close_right <==> i <= count - 2,
        menu_of(i, count).close_all <==> count >= 2,
{
}

/// What the context menu of tab `i` of `count` offers: the live tab is never closed.
pub fn tab_menu(i: usize, count: usize) -> (r: TabMenu)
    requires
        i < count,
    ensures
        r == menu_of(i as int, count as int),
{
    TabMenu {
        close_current: i > 0,
        close_left: i > 1,
        close_right: i < count - 1,
        close_all: count > 1,
    }
}

/// An entry of the context menu.
#[derive(Debug, Clone, Copy, PartialEq, Eq, Structural)]
pub enum TabMenuAction {
    CloseCurrent(usize),
    CloseLeft(usize),
    CloseRight(usize),
    CloseAll,
}

/// What one tab of the list is about.
pub struct TabInfo {
    pub tab_id: usize,
    pub title: String,
    pub live: bool,
    pub path: Option<String>,
    pub lines: usize,
}

/// Whether `info` describes tab `i` of `tabs`.
pub open spec fn describes(info: TabInfo, tabs: Seq<LogTabPage>, i: int) -> bool {
    &&& info.tab_id == i
    &&& info.title@ == tabs[i]@.title
    &&& info.live == tabs[i]@.live
    &&& files::opt_text(info.path) == tabs[i]@.filepath
    &&& info.lines == tabs[i]@.backend.lines().len()
}

// ---------------------------------------------------------------------------
// Indices
// ---------------------------------------------------------------------------

/// The loads without those of tab `idx`, following the tabs that move up.
pub open spec fn loads_without(loads: Seq<usize>, idx: usize) -> Seq<usize>
    decreases loads.len(),
{
    if loads.len() == 0 {
        Seq::empty()
    } else {
        let front = loads_without(loads.drop_last(), idx);
        let l = loads.last();
        if l == idx {
            front
        } else if l > idx {
            front.push((l - 1) as usize)
        } else {
            front.push(l)
        }
    }
}

/// The loads without those of tabs `1..idx`, following the tabs that move up.
pub open spec fn loads_from(loads: Seq<usize>, idx: usize) -> Seq<usize>
    decreases loads.len(),
{
    if loads.len() == 0 {
        Seq::empty()
    } else {
        let front = loads_from(loads.drop_last(), idx);
        let l = loads.last();
        if 0 < l && l < idx {
            front
        } else if l >= idx {
            front.push((l - (idx - 1)) as usize)
        } else {
            front.push(l)
        }
    }
}

/// The loads of tabs up to `idx`.
pub open spec fn loads_up_to(loads: Seq<usize>, idx: usize) -> Seq<usize>
    decreases loads.len(),
{
    if loads.len() == 0 {
        Seq::empty()
    } else {
        let front = loads_up_to(loads.drop_last(), idx);
        if loads.last() <= idx {
            front.push(loads.last())
        } else {
            front
        }
    }
}

/// The loads after a tab was put in front of all others.
pub open spec fn loads_shifted(loads: Seq<usize>) -> Seq<usize> {
    Seq::new(loads.len(), |i: int| (loads[i] + 1) as usize)
}

fn drop_loads_of(loads: &Vec<usize>, idx: usize) -> (r: Vec<usize>)
    ensures
        r@ == loads_without(loads@, idx),
{
    let mut r: Vec<usize> = Vec::new();
    let mut i: usize = 0;
    assert(loads@.take(0) =~= Seq::<usize>::empty());
    while i < loads.len()
        invariant
            i <= loads@.len(),
            r@ == loads_without(loads@.take(i as int), idx),
        decreases loads@.len() - i,
    {
        assert(loads@.take(i + 1).drop_last() =~= loads@.take(i as int));
        let l: usize = loads[i];
        if l > idx {
            r.push(l - 1);
        } else if l < idx {
            r.push(l);
        }
        i = i + 1;
    }
    assert(loads@.take(i as int) =~= loads@);
    r
}

fn keep_loads_from(loads: &Vec<usize>, idx: usize) -> (r: Vec<usize>)
    requires
        idx >= 1,
    ensures
        r@ == loads_from(loads@, idx),
{
    let mut r: Vec<usize> = Vec::new();
    let mut i: usize = 0;
    assert(loads@.take(0) =~= Seq::<usize>::empty());
    while i < loads.len()
        invariant
            idx >= 1,
            i <= loads@.len(),
            r@ == loads_from(loads@.take(i as int), idx),
        decreases loads@.len() - i,
    {
        assert(loads@.take(i + 1).drop_last() =~= loads@.take(i as int));
        let l: usize = loads[i];
        if l >= idx {
            r.push(l - (idx - 1));
        } else if l == 0 {
            r.push(l);
        }
        i = i + 1;
    }
    assert(loads@.take(i as int) =~= loads@);
    r
}

fn keep_loads_up_to(loads: &Vec<usize>, idx: usize) -> (r: Vec<usize>)
    ensures
        r@ == loads_up_to(loads@, idx),
{
    let mut r: Vec<usize> = Vec::new();
    let mut i: usize = 0;
    assert(loads@.take(0) =~= Seq::<usize>::empty());
    while i < loads.len()
        invariant
            i <= loads@.len(),
            r@ == loads_up_to(loads@.take(i as int), idx),
        decreases loads@.len() - i,
    {
        assert(loads@.take(i + 1).drop_last() =~= loads@.take(i as int));
        if loads[i] <= idx {
            r.push(loads[i]);
        }
        i = i + 1;
    }
    assert(loads@.take(i as int) =~= loads@);
    r
}

// ---------------------------------------------------------------------------
// Closing
// ---------------------------------------------------------------------------

/// The active index after tab `idx` of a row was closed, `left` tabs remaining.
pub open spec fn active_after_close(active: usize, idx: usize, left: int) -> usize {
    if active >= left {
        if left == 0 {
            0
        } else {
            (left - 1) as usize
        }
    } else if active > idx {
        (active - 1) as usize
    } else {
        active
    }
}

/// The tabs without `1..idx`.
pub open spec fn without_left(tabs: Seq<LogTabPage>, idx: int) -> Seq<LogTabPage> {
    tabs.take(1) + tabs.skip(idx)
}

/// Whether `after` is the row `before` without tab `idx`.
pub open spec fn one_closed(before: TabBar, after: TabBar, idx: usize) -> bool {
    &&& after.tabs@ == before.tabs@.remove(idx as int)
    &&& after.loads@ == loads_without(before.loads@, idx)
    &&& after.active == active_after_close(before.active, idx, before.tabs@.len() - 1)
}

/// Whether `after` is the row `before` without the file tabs to the left of `idx`.
pub open spec fn left_closed(before: TabBar, after: TabBar, idx: usize) -> bool {
    &&& after.tabs@ == without_left(before.tabs@, idx as int)
    &&& after.loads@ == loads_from(before.loads@, idx)
    &&& after.active == if before.active >= idx {
        before.active - (idx - 1)
    } else {
        before.active as int
    }
}

/// Whether `after` is the row `before` without the tabs to the right of `idx`.
pub open spec fn right_closed(before: TabBar, after: TabBar, idx: usize) -> bool {
    &&& after.tabs@ == before.tabs@.take(idx + 1)
    &&& after.loads@ == loads_up_to(before.loads@, idx)
    &&& after.active == search::lesser(before.active as int, idx as int)
}

/// Whether `after` is the row `before` without its file tabs.
pub open spec fn all_closed(before: TabBar, after: TabBar) -> bool {
    &&& after.tabs@ == before.tabs@.take(search::lesser(1, before.tabs@.len() as int))
    &&& after.loads@ == Seq::<usize>::empty()
    &&& after.active == 0
}

/// Whether `after` is the row `before` once an entry of the context menu was carried out, and
/// whether that changed it.
pub open spec fn menu_outcome(
    before: TabBar,
    after: TabBar,
    action: TabMenuAction,
    changed: bool,
) -> bool {
    match action {
        TabMenuAction::CloseCurrent(i) => changed == (0 < i < before.tabs@.len()) && (changed
            ==> one_closed(before, after, i)),
        TabMenuAction::CloseLeft(i) => changed == (i > 1) && (changed ==> left_closed(
            before,
            after,
            i,
        )),
        TabMenuAction::CloseRight(i) => changed == (i + 1 < before.tabs@.len()) && (changed
            ==> right_closed(before, after, i)),
        TabMenuAction::CloseAll => changed && all_closed(before, after),
    }
}

impl TabBar {
    /// Closes tab `idx`; the live tab stays. Tells whether a tab was closed.
    pub fn close_tab(&mut self, idx: usize) -> (closed: bool)
        ensures
            closed == (0 < idx < old(self).tabs@.len()),
            !closed ==> *final(self) == *old(self),
            closed ==> one_closed(*old(self), *final(self), idx),
    {
        if idx == 0 || idx >= self.tabs.len() {
            return false;
        }
        let _closed = self.tabs.remove(idx);
        self.loads = drop_loads_of(&self.loads, idx);
        if self.active >= self.tabs.len() {
            self.active = self.tabs.len().saturating_sub(1);
        } else if self.active > idx {
            self.active = self.active - 1;
        }
        true
    }

    /// Closes the file tabs to the left of `idx`. Tells whether there was one to close.
    pub fn close_tabs_left_of(&mut self, idx: usize) -> (closed: bool)
        requires
            idx <= old(self).tabs@.len(),
        ensures
            closed == (idx > 1),
            !closed ==> *final(self) == *old(self),
            closed ==> left_closed(*old(self), *final(self), idx),
    {
        if idx <= 1 {
            return false;
        }
        let ghost before = self.tabs@;
        let mut right = self.tabs.split_off(idx);
        self.tabs.truncate(1);
        self.tabs.append(&mut right);
        assert(self.tabs@ =~= without_left(before, idx as int));
        self.loads = keep_loads_from(&self.loads, idx);
        if self.active >= idx {
            self.active = self.active - (idx - 1);
        }
        true
    }

    /// Closes the tabs to the right of `idx`. Tells whether there was one to close.
    pub fn close_tabs_right_of(&mut self, idx: usize) -> (closed: bool)
        ensures
            closed == (idx + 1 < old(self).tabs@.len()),
            !closed ==> *final(self) == *old(self),
            closed ==> right_closed(*old(self), *final(self), idx),
    {
        if self.tabs.len() == 0 || idx >= self.tabs.len() - 1 {
            return false;
        }
        let ghost before = self.tabs@;
        self.tabs.truncate(idx + 1);
        assert(self.tabs@ =~= before.take(idx + 1));
        self.loads = keep_loads_up_to(&self.loads, idx);
        if self.active > idx {
            self.active = idx;
        }
        true
    }

    /// Closes all file tabs.
    pub fn close_all_file_tabs(&mut self)
        ensures
            all_closed(*old(self), *final(self)),
    {
        let ghost before = self.tabs@;
        if self.tabs.len() > 1 {
            self.tabs.truncate(1);
        }
        assert(self.tabs@ =~= before.take(search::lesser(1, before.len() as int)));
        self.loads = Vec::new();
        self.active = 0;
    }

    /// Carries out an entry of the context menu. Tells whether the open files are to be noted.
    pub fn run_menu(&mut self, action: TabMenuAction) -> (changed: bool)
        requires
            action matches TabMenuAction::CloseLeft(i) ==> i <= old(self).tabs@.len(),
        ensures
            menu_outcome(*old(self), *final(self), action, changed),
            !changed ==> *final(self) == *old(self),
    {
        match action {
            TabMenuAction::CloseCurrent(i) => self.close_tab(i),
            TabMenuAction::CloseLeft(i) => self.close_tabs_left_of(i),
            TabMenuAction::CloseRight(i) => self.close_tabs_right_of(i),
            TabMenuAction::CloseAll => {
                self.close_all_file_tabs();
                true
            },
        }
    }
}

/// Law: closing a tab leaves the tab in front in front, unless it is the one that was closed.
pub proof fn law_close_keeps_front_tab(tabs: Seq<LogTabPage>, active: usize, idx: usize)
    requires
        active < tabs.len() <= usize::MAX,
        0 < idx < tabs.len(),
        active != idx,
    ensures
        active_after_close(active, idx, tabs.len() - 1) < tabs.len() - 1,
        tabs.remove(idx as int)[active_after_close(active, idx, tabs.len() - 1) as int]
            == tabs[active as int],
{
}

/// Law: closing tabs never closes the live tab.
pub proof fn law_close_keeps_live_tab(tabs: Seq<LogTabPage>, idx: int)
    requires
        0 < idx < tabs.len(),
    ensures
        tabs.remove(idx)[0] == tabs[0],
        without_left(tabs, idx)[0] == tabs[0],
        tabs.take(idx + 1)[0] == tabs[0],
        tabs.take(1)[0] == tabs[0],
{
}

/// Whether load `b` of tabs `after` is for the tab that load `a` of tabs `before` is for.
pub open spec fn same_load(
    before: Seq<LogTabPage>,
    a: usize,
    after: Seq<LogTabPage>,
    b: usize,
) -> bool {
    b < after.len() && after[b as int] == before[a as int]
}

proof fn lemma_loads_without(
    loads: Seq<usize>,
    idx: usize,
    tabs: Seq<LogTabPage>,
)
    requires
        0 < idx < tabs.len(),
        forall|k: int| 0 <= k < loads.len() ==> (#[trigger] loads[k]) < tabs.len(),
    ensures
        forall|k: int|
            0 <= k < loads_without(loads, idx).len() ==> exists|j: int|
                0 <= j < loads.len() && loads[j] != idx && same_load(
                    tabs,
                    #[trigger] loads[j],
                    tabs.remove(idx as int),
                    #[trigger] loads_without(loads, idx)[k],
                ),
    decreases loads.len(),
{
    if loads.len() > 0 {
        let front = loads.drop_last();
        assert forall|k: int| 0 <= k < front.len() implies (#[trigger] front[k]) < tabs.len() by {
            assert(front[k] == loads[k]);
        }
        lemma_loads_without(front, idx, tabs);
        let r = loads_without(loads, idx);
        let rf = loads_without(front, idx);
        assert forall|k: int| 0 <= k < r.len() implies exists|j: int|
            0 <= j < loads.len() && loads[j] != idx && same_load(
                tabs,
                #[trigger] loads[j],
                tabs.remove(idx as int),
                #[trigger] r[k],
            ) by {
            if k < rf.len() {
                assert(r[k] == rf[k]);
                let j = choose|j: int|
                    0 <= j < front.len() && front[j] != idx && same_load(
                        tabs,
                        #[trigger] front[j],
                        tabs.remove(idx as int),
                        rf[k],
                    );
                assert(loads[j] == front[j]);
            } else {
                let j = loads.len() - 1;
                assert(loads[j] < tabs.len());
                assert(same_load(tabs, loads[j], tabs.remove(idx as int), r[k]));
            }
        }
    }
}

/// Law: after a tab is closed, every load that goes on is for the tab that it was for.
pub proof fn law_close_keeps_loads_on_their_tabs(
    loads: Seq<usize>,
    idx: usize,
    tabs: Seq<LogTabPage>,
    k: int,
)
    requires
        0 < idx < tabs.len(),
        forall|i: int| 0 <= i < loads.len() ==> (#[trigger] loads[i]) < tabs.len(),
        0 <= k < loads_without(loads, idx).len(),
    ensures
        exists|j: int|
            0 <= j < loads.len() && loads[j] != idx && same_load(
                tabs,
                #[trigger] loads[j],
                tabs.remove(idx as int),
                loads_without(loads, idx)[k],
            ),
{
    lemma_loads_without(loads, idx, tabs);
    let r = loads_without(loads, idx)[k];
}

// ---------------------------------------------------------------------------
// Opening
// ---------------------------------------------------------------------------

/// The first index from `i` on at which `same` is set.
pub open spec fn first_set(same: Seq<bool>, i: int) -> Option<int>
    decreases same.len() - i,
{
    if i < 0 || i >= same.len() {
        None
    } else if same[i] {
        Some(i)
    } else {
        first_set(same, i + 1)
    }
}

/// The model of a tab for a file that is still to be loaded.
pub open spec fn loading_page(
    view_id: u64,
    path: Seq<char>,
    stem: Option<Seq<char>>,
    match_limit: usize,
) -> log_tab::PageView {
    log_tab::fresh_page(
        view_id,
        false,
        Some(path),
        match stem {
            Some(s) => s,
            None => path,
        },
        log_tab::BackendView::Pending,
        true,
        match_limit,
    )
}

/// Whether the row `after` is the row `before` with a tab for `path` in it: the tab that is
/// already open, or a new one at the end that is being loaded.
pub open spec fn opened(
    before: TabBar,
    after: TabBar,
    view_id: u64,
    path: Seq<char>,
    stem: Option<Seq<char>>,
    match_limit: usize,
    same: Seq<bool>,
    index: int,
) -> bool {
    match first_set(same, 0) {
        Some(i) => after == before && index == i,
        None => {
            let n = before.tabs@.len() as int;
            &&& after.tabs@.len() == n + 1
            &&& after.tabs@.take(n) == before.tabs@
            &&& after.tabs@[n]@ == loading_page(view_id, path, stem, match_limit)
            &&& after.active == before.active
            &&& after.loads@ == before.loads@.push(n as usize)
            &&& index == n
        },
    }
}

/// Whether `same` is what comparing two paths can give, as the file system resolves them.
pub open spec fn compared(left: Seq<char>, right: Seq<char>, same: bool) -> bool {
    exists|a: Option<Seq<char>>, b: Option<Seq<char>>|
        files::resolvable(a) && files::resolvable(b) && same == files::same_file(
            #[trigger] files::kept_path(a, left),
            #[trigger] files::kept_path(b, right),
        )
}

/// Whether `same` is what comparing the file of a tab with `path` can give; a tab without a
/// file shows none.
pub open spec fn verdict(open: Option<Seq<char>>, path: Seq<char>, same: bool) -> bool {
    match open {
        Some(p) => compared(p, path, same),
        None => !same,
    }
}

/// The verdicts for all tabs of a row.
pub open spec fn verdicts(tabs: Seq<LogTabPage>, path: Seq<char>, same: Seq<bool>) -> bool {
    &&& same.len() == tabs.len()
    &&& forall|i: int|
        0 <= i < same.len() ==> verdict(tabs[i]@.filepath, path, #[trigger] same[i])
}

/// Whether `kept` is what normalizing a path can give.
pub open spec fn normalized(path: Seq<char>, kept: Seq<char>) -> bool {
    kept == text::swap_char(path, '/', '\\') || files::absolute_text(kept)
}

/// Whether `kept` is the normalized path of a file tab; other tabs have none.
pub open spec fn kept_for(tab: log_tab::PageView, kept: Option<String>) -> bool {
    if !tab.live && tab.filepath is Some {
        kept is Some && normalized(tab.filepath->0, kept->0@)
    } else {
        kept is None
    }
}

impl TabBar {
    /// A row with only a live tab.
    pub fn new(live: LogTabPage) -> (r: Self)
        ensures
            r.tabs@ == seq![live],
            r.active == 0,
            r.loads@ == Seq::<usize>::empty(),
    {
        let mut tabs: Vec<LogTabPage> = Vec::new();
        tabs.push(live);
        assert(tabs@ =~= seq![live]);
        TabBar { tabs, active: 0, loads: Vec::new() }
    }

    /// For each tab, whether it shows the file at `path`. The file system decides which paths
    /// are one; a tab without a file shows none.
    pub fn tabs_showing(&self, path: &str) -> (same: Vec<bool>)
        ensures
            verdicts(self.tabs@, path@, same@),
    {
        let mut same: Vec<bool> = Vec::new();
        let mut i: usize = 0;
        while i < self.tabs.len()
            invariant
                i <= self.tabs@.len(),
                same@.len() == i,
                forall|k: int|
                    0 <= k < i ==> verdict(self.tabs@[k]@.filepath, path@, #[trigger] same@[k]),
            decreases self.tabs@.len() - i,
        {
            let one: bool = match self.tabs[i].path_text() {
                Some(open) => {
                    let one: bool = files::same_log_path(open.as_str(), path);
                    assert(compared(open@, path@, one));
                    one
                },
                None => false,
            };
            assert(verdict(self.tabs@[i as int]@.filepath, path@, one));
            same.push(one);
            i = i + 1;
        }
        same
    }

    /// Finds or makes the tab for `path`; `same` tells for each tab whether it shows that file.
    /// The result is the index of the tab.
    pub fn open_tab(
        &mut self,
        ids: &mut ViewIds,
        path: String,
        stem: Option<String>,
        match_limit: usize,
        same: &Vec<bool>,
    ) -> (index: usize)
        requires
            same@.len() == old(self).tabs@.len(),
            old(ids).next < u64::MAX,
        ensures
            opened(
                *old(self),
                *final(self),
                old(ids).next,
                path@,
                files::opt_text(stem),
                match_limit,
                same@,
                index as int,
            ),
            final(ids).next == old(ids).next + if first_set(same@, 0) is None {
                1int
            } else {
                0int
            },
    {
        let mut i: usize = 0;
        while i < same.len()
            invariant
                i <= same@.len(),
                *self == *old(self),
                *ids == *old(ids),
                first_set(same@, 0) == first_set(same@, i as int),
            decreases same@.len() - i,
        {
            if same[i] {
                return i;
            }
            i = i + 1;
        }
        let index: usize = self.tabs.len();
        let page = LogTabPage::file_tab_empty(ids, path, stem, match_limit);
        self.tabs.push(page);
        self.loads.push(index);
        assert(self.tabs@.take(index as int) =~= old(self).tabs@);
        index
    }

    /// Starts a new capture: a fresh live tab in front, the old one turned into a tab for the
    /// file that it was written to, which is then loaded. Which tab is in front is left alone.
    pub fn start_new_live(
        &mut self,
        ids: &mut ViewIds,
        title: String,
        capacity: usize,
        match_limit: usize,
        archived_path: String,
        archived_stem: Option<String>,
    )
        requires
            old(self).tabs@.len() >= 1,
            old(ids).next < u64::MAX - 1,
            forall|k: int|
                0 <= k < old(self).loads@.len() ==> (#[trigger] old(self).loads@[k]) < usize::MAX,
        ensures
            final(self).tabs@.len() == old(self).tabs@.len() + 1,
            final(self).tabs@[0]@ == log_tab::fresh_page(
                old(ids).next,
                true,
                None,
                title@,
                (log_tab::BackendView::Live { lines: Seq::empty(), capacity }),
                false,
                match_limit,
            ),
            final(self).tabs@[1]@ == loading_page(
                (old(ids).next + 1) as u64,
                archived_path@,
                files::opt_text(archived_stem),
                match_limit,
            ),
            forall|k: int|
                2 <= k < final(self).tabs@.len() ==> #[trigger] final(self).tabs@[k] == old(
                    self,
                ).tabs@[k - 1],
            final(self).loads@ == loads_shifted(old(self).loads@).push(1),
            final(self).active == old(self).active,
            final(ids).next == old(ids).next + 2,
    {
        let ghost before = self.tabs@;
        let live = LogTabPage::live_tab(ids, title, capacity, match_limit);
        let archived = LogTabPage::file_tab_empty(ids, archived_path, archived_stem, match_limit);
        self.tabs.set(0, archived);
        self.tabs.insert(0, live);
        self.loads = shift_loads(&self.loads);
        self.loads.push(1);
    }

    /// The paths of the open files, each once, in the order of the tabs. `kept` holds the
    /// normalized path of each tab.
    pub fn distinct_paths(kept: &Vec<Option<String>>) -> (r: Vec<String>)
        ensures
            search::views(r@) == distinct(kept@, kept@.len() as int),
    {
        let mut r: Vec<String> = Vec::new();
        let mut i: usize = 0;
        assert(search::views(r@) =~= Seq::<Seq<char>>::empty());
        while i < kept.len()
            invariant
                i <= kept@.len(),
                search::views(r@) == distinct(kept@, i as int),
            decreases kept@.len() - i,
        {
            match &kept[i] {
                Some(path) => if !list_contains(&r, path.as_str()) {
                    let ghost before = search::views(r@);
                    r.push(path.clone());
                    assert(search::views(r@) =~= before.push(path@));
                },
                None => {},
            }
            i = i + 1;
        }
        r
    }

    /// The normalized paths of the open files, each once.
    pub fn collect_open_log_paths(&self) -> (r: Vec<String>)
        ensures
            open_paths(self.tabs@, search::views(r@)),
    {
        let mut kept: Vec<Option<String>> = Vec::new();
        let mut i: usize = 0;
        while i < self.tabs.len()
            invariant
                i <= self.tabs@.len(),
                kept@.len() == i,
                forall|k: int| 0 <= k < i ==> kept_for(self.tabs@[k]@, #[trigger] kept@[k]),
            decreases self.tabs@.len() - i,
        {
            proof {
                reveal(log_tab::page_view);
            }
            let path = if self.tabs[i].live {
                None
            } else {
                self.tabs[i].path_text()
            };
            let norm = match path {
                Some(p) => {
                    let norm = files::normalize_path(p.as_str());
                    assert(normalized(p@, norm@));
                    Some(norm)
                },
                None => None,
            };
            assert(kept_for(self.tabs@[i as int]@, norm));
            kept.push(norm);
            i = i + 1;
        }
        TabBar::distinct_paths(&kept)
    }

    /// What each tab is about.
    pub fn tab_list(&self) -> (r: Vec<TabInfo>)
        ensures
            r@.len() == self.tabs@.len(),
            forall|i: int| 0 <= i < r@.len() ==> describes(#[trigger] r@[i], self.tabs@, i),
    {
        let mut r: Vec<TabInfo> = Vec::new();
        let mut i: usize = 0;
        while i < self.tabs.len()
            invariant
                i <= self.tabs@.len(),
                r@.len() == i,
                forall|k: int| 0 <= k < i ==> describes(#[trigger] r@[k], self.tabs@, k),
            decreases self.tabs@.len() - i,
        {
            proof {
                reveal(log_tab::page_view);
            }
            let info = TabInfo {
                tab_id: i,
                title: self.tabs[i].title.clone(),
                live: self.tabs[i].live,
                path: self.tabs[i].path_text(),
                lines: self.tabs[i].line_count(),
            };
            r.push(info);
            i = i + 1;
        }
        r
    }

    /// Brings tab `idx` to the front; for a file the result names the lines to read ahead.
    pub fn activate_tab(&mut self, idx: usize, scans: Vec<FilterScan>) -> (r: Option<
        (usize, usize),
    >)
        requires
            idx < old(self).tabs@.len() ==> scans@.len() >= old(
                self,
            ).tabs@[idx as int]@.panes.len(),
        ensures
            final(self).loads@ == old(self).loads@,
            final(self).tabs@.len() == old(self).tabs@.len(),
            forall|k: int|
                0 <= k < old(self).tabs@.len() && k != idx ==> #[trigger] final(self).tabs@[k]
                    == old(self).tabs@[k],
            idx >= old(self).tabs@.len() ==> *final(self) == *old(self) && r is None,
            idx < old(self).tabs@.len() ==> ({
                let before = old(self).tabs@[idx as int]@;
                let after = final(self).tabs@[idx as int]@;
                &&& final(self).active == idx
                &&& after == activated(before, scans@)
                &&& r == read_ahead(after)
            }),
    {
        if idx >= self.tabs.len() {
            return None;
        }
        self.active = idx;
        self.tabs[idx].on_activated(scans)
    }
}

/// The tab that turning the wheel over the tabs brings to the front; none while the last
/// switch is too recent.
pub open spec fn wheel_target(
    bar: TabBar,
    direction: i8,
    last_switch: Option<u64>,
    now: u64,
) -> Option<int> {
    let last = bar.tabs@.len() - 1;
    let c = search::lesser(bar.active as int, last);
    if direction == 0 || bar.tabs@.len() == 0 || (last_switch matches Some(t) && now - t
        < TAB_WHEEL_COOLDOWN_US) {
        None
    } else if direction < 0 {
        Some(if c == 0 {
            0
        } else {
            c - 1
        })
    } else {
        Some(search::lesser(c + 1, last))
    }
}

impl TabBar {
    /// The tab that turning the wheel over the tabs brings to the front.
    pub fn wheel_switch(&self, direction: i8, last_switch: Option<u64>, now: u64) -> (r: Option<
        usize,
    >)
        ensures
            r matches Some(i) ==> wheel_target(*self, direction, last_switch, now) == Some(
                i as int,
            ),
            r is None ==> wheel_target(*self, direction, last_switch, now) is None,
    {
        if direction == 0 || self.tabs.len() == 0 || !tab_wheel_switch_allowed(last_switch, now) {
            return None;
        }
        Some(adjacent_tab_index(self.active, self.tabs.len(), direction))
    }

    /// The tab to show: the one in front, or the last one where that is gone.
    pub fn shown_tab(&self) -> (r: Option<usize>)
        ensures
            r is None <==> self.tabs@.len() == 0,
            r matches Some(i) ==> i == search::lesser(self.active as int, self.tabs@.len() - 1),
    {
        if self.tabs.len() == 0 {
            return None;
        }
        let last: usize = self.tabs.len() - 1;
        Some(if self.active < last {
            self.active
        } else {
            last
        })
    }
}

/// Whether `paths` are the normalized paths of the files on the tabs, each once.
pub open spec fn open_paths(tabs: Seq<LogTabPage>, paths: Seq<Seq<char>>) -> bool {
    exists|kept: Seq<Option<String>>|
        {
            &&& kept.len() == tabs.len()
            &&& forall|i: int| 0 <= i < kept.len() ==> kept_for(tabs[i]@, #[trigger] kept[i])
            &&& paths == #[trigger] distinct(kept, kept.len() as int)
        }
}

/// A tab after it came to the front.
pub open spec fn activated(s: log_tab::PageView, scans: Seq<FilterScan>) -> log_tab::PageView {
    if s.options.filter_dirty {
        let t = log_tab::page_refreshed(s, scans);
        log_tab::PageView {
            options: log_tab::ViewOptions { filter_dirty: false, ..t.options },
            ..t
        }
    } else {
        s
    }
}

/// The lines of a file to read ahead.
pub open spec fn read_ahead(s: log_tab::PageView) -> Option<(usize, usize)> {
    if s.backend is File {
        Some(log_tab::prefetch_range(log_tab::page_anchor(s), s.backend.lines().len() as int))
    } else {
        None
    }
}

/// The paths among the first `n` entries, each once, in order.
pub open spec fn distinct(kept: Seq<Option<String>>, n: int) -> Seq<Seq<char>>
    decreases n,
{
    if n <= 0 {
        Seq::empty()
    } else {
        let front = distinct(kept, n - 1);
        match kept[n - 1] {
            Some(path) => if front.contains(path@) {
                front
            } else {
                front.push(path@)
            },
            None => front,
        }
    }
}

/// The index of the first set verdict, or none where no verdict is set.
pub proof fn lemma_first_set(same: Seq<bool>, from: int)
    requires
        0 <= from <= same.len(),
    ensures
        match first_set(same, from) {
            Some(i) => from <= i < same.len() && same[i],
            None => forall|k: int| from <= k < same.len() ==> !#[trigger] same[k],
        },
    decreases same.len() - from,
{
    if from < same.len() && !same[from] {
        lemma_first_set(same, from + 1);
    }
}

proof fn lemma_first_set_in_longer(short: Seq<bool>, long: Seq<bool>, i: int, from: int)
    requires
        0 <= from <= short.len() <= long.len(),
        forall|k: int| 0 <= k < short.len() ==> #[trigger] long[k] == short[k],
        first_set(short, from) == Some(i) || (first_set(short, from) is None && i == short.len()
            && i < long.len() && long[i]),
    ensures
        first_set(long, from) == Some(i),
    decreases short.len() - from,
{
    if from < short.len() && !short[from] {
        lemma_first_set_in_longer(short, long, i, from + 1);
    }
}

/// Law: opening a file again, under the same path or another spelling of it, makes no second
/// tab and leaves the row as it is. The file system's answers are the premise: for the old tabs
/// they are what they were, and the tab that the first opening gave shows the file.
pub proof fn law_opening_twice_shares_a_tab(
    before: TabBar,
    once: TabBar,
    twice: TabBar,
    first: OpenRequest,
    second: OpenRequest,
)
    requires
        opened(
            before,
            once,
            first.view_id,
            first.path,
            first.stem,
            first.match_limit,
            first.same,
            first.index,
        ),
        opened(
            once,
            twice,
            second.view_id,
            second.path,
            second.stem,
            second.match_limit,
            second.same,
            second.index,
        ),
        first.same.len() == before.tabs@.len(),
        second.same.len() == once.tabs@.len(),
        forall|k: int|
            0 <= k < first.same.len() ==> #[trigger] second.same[k] == first.same[k],
        second.same[first.index],
    ensures
        twice == once,
        second.index == first.index,
        once.tabs@.len() <= before.tabs@.len() + 1,
{
    lemma_first_set_in_longer(first.same, second.same, first.index, 0);
}

/// One opening of a file: what was asked, what the file system answered for each tab, and the
/// tab that came of it.
pub struct OpenRequest {
    pub view_id: u64,
    pub path: Seq<char>,
    pub stem: Option<Seq<char>>,
    pub match_limit: usize,
    pub same: Seq<bool>,
    pub index: int,
}

/// Law: the list of open files names no file twice and misses none.
pub proof fn law_open_paths_are_distinct(kept: Seq<Option<String>>, n: int)
    requires
        0 <= n <= kept.len(),
    ensures
        distinct(kept, n).no_duplicates(),
        forall|i: int|
            0 <= i < n ==> (#[trigger] kept[i] matches Some(p) ==> distinct(kept, n).contains(p@)),
    decreases n,
{
    if n > 0 {
        law_open_paths_are_distinct(kept, n - 1);
        let front = distinct(kept, n - 1);
        let all = distinct(kept, n);
        assert forall|i: int| 0 <= i < n implies (#[trigger] kept[i] matches Some(p)
            ==> all.contains(p@)) by {
            if kept[i] is Some {
                let p = kept[i]->0;
                if i < n - 1 {
                    assert(front.contains(p@));
                    let j = choose|j: int| 0 <= j < front.len() && front[j] == p@;
                    assert(all[j] == p@);
                } else if !front.contains(p@) {
                    assert(all[all.len() - 1] == p@);
                }
            }
        }
    }
}

fn list_contains(list: &Vec<String>, s: &str) -> (r: bool)
    ensures
        r == search::views(list@).contains(s@),
{
    let mut i: usize = 0;
    while i < list.len()
        invariant
            i <= list@.len(),
            forall|k: int| 0 <= k < i ==> (#[trigger] list@[k])@ != s@,
        decreases list@.len() - i,
    {
        if text::same_text(list[i].as_str(), s) {
            assert(search::views(list@)[i as int] == s@);
            return true;
        }
        i = i + 1;
    }
    assert forall|k: int| 0 <= k < search::views(list@).len() implies search::views(list@)[k]
        != s@ by {
        assert(list@[k]@ != s@);
    }
    false
}

fn shift_loads(loads: &Vec<usize>) -> (r: Vec<usize>)
    requires
        forall|k: int| 0 <= k < loads@.len() ==> (#[trigger] loads@[k]) < usize::MAX,
    ensures
        r@ == loads_shifted(loads@),
{
    let mut r: Vec<usize> = Vec::new();
    let mut i: usize = 0;
    while i < loads.len()
        invariant
            i <= loads@.len(),
            forall|k: int| 0 <= k < loads@.len() ==> (#[trigger] loads@[k]) < usize::MAX,
            r@.len() == i,
            forall|k: int| 0 <= k < i ==> #[trigger] r@[k] == loads@[k] + 1,
        decreases loads@.len() - i,
    {
        r.push(loads[i] + 1);
        i = i + 1;
    }
    assert(r@ =~= loads_shifted(loads@));
    r
}

// ---------------------------------------------------------------------------
// Loading files
// ---------------------------------------------------------------------------

/// What the worker that loads a file reports.
pub enum LoadEvent {
    Progress { indexed: usize },
    /// The lines, and what a search of them finds for each pane of the tab.
    Done { lines: Vec<String>, scans: Vec<FilterScan> },
    Failed(String),
}

/// What the status line says about a load.
pub enum LoadStatus {
    Indexing { title: String, lines: usize },
    Opened { title: String, total: usize },
    Failed(String),
}

/// A tab after its worker reported.
pub open spec fn after_load_event(s: log_tab::PageView, event: LoadEvent) -> log_tab::PageView {
    match event {
        LoadEvent::Progress { indexed } => log_tab::PageView {
            index_progress: indexed,
            loading: true,
            ..s
        },
        LoadEvent::Done { lines, scans } => log_tab::page_with_file(
            s,
            search::views(lines@),
            scans@,
        ),
        LoadEvent::Failed(_) => log_tab::page_load_ended(s),
    }
}

/// Whether `status` is what the status line says after a report for tab `tab`.
pub open spec fn load_status_is(
    status: Option<LoadStatus>,
    tab: Option<log_tab::PageView>,
    event: LoadEvent,
) -> bool {
    match (event, tab) {
        (LoadEvent::Progress { indexed }, Some(t)) => status matches Some(
            LoadStatus::Indexing { title, lines: n },
        ) && title@ == t.title && n == indexed,
        (LoadEvent::Done { lines, scans }, Some(t)) => status matches Some(
            LoadStatus::Opened { title, total },
        ) && title@ == t.title && total == lines@.len(),
        (LoadEvent::Failed(message), _) => status == Some(LoadStatus::Failed(message)),
        _ => status is None,
    }
}

/// The loads that are not finished, in order.
pub open spec fn unfinished(loads: Seq<usize>, finished: Seq<bool>, n: int) -> Seq<usize>
    decreases n,
{
    if n <= 0 {
        Seq::empty()
    } else {
        let front = unfinished(loads, finished, n - 1);
        if finished[n - 1] {
            front
        } else {
            front.push(loads[n - 1])
        }
    }
}

impl TabBar {
    /// Takes over a report for the tab at `tab_idx`. The result is what the status line says
    /// and whether the load is finished.
    pub fn apply_load_event(&mut self, tab_idx: usize, event: LoadEvent) -> (r: (
        Option<LoadStatus>,
        bool,
    ))
        requires
            tab_idx < old(self).tabs@.len() ==> (event matches LoadEvent::Done { lines, scans }
                ==> scans@.len() >= old(self).tabs@[tab_idx as int]@.panes.len()),
        ensures
            r.1 == !(event is Progress),
            final(self).active == old(self).active,
            final(self).loads@ == old(self).loads@,
            final(self).tabs@.len() == old(self).tabs@.len(),
            forall|k: int|
                0 <= k < old(self).tabs@.len() && k != tab_idx ==> #[trigger] final(self).tabs@[k]
                    == old(self).tabs@[k],
            tab_idx < old(self).tabs@.len() ==> final(self).tabs@[tab_idx as int]@
                == after_load_event(old(self).tabs@[tab_idx as int]@, event),
            load_status_is(
                r.0,
                if tab_idx < old(self).tabs@.len() {
                    Some(old(self).tabs@[tab_idx as int]@)
                } else {
                    None
                },
                event,
            ),
    {
        let here: bool = tab_idx < self.tabs.len();
        let title = if here {
            self.tabs[tab_idx].title_text()
        } else {
            String::new()
        };
        match event {
            LoadEvent::Progress { indexed } => {
                if here {
                    self.tabs[tab_idx].set_index_progress(indexed);
                    (Some(LoadStatus::Indexing { title, lines: indexed }), false)
                } else {
                    (None, false)
                }
            },
            LoadEvent::Done { lines, scans } => {
                if here {
                    let total: usize = lines.len();
                    self.tabs[tab_idx].set_file_store(lines, scans);
                    (Some(LoadStatus::Opened { title, total }), true)
                } else {
                    (None, true)
                }
            },
            LoadEvent::Failed(message) => {
                if here {
                    self.tabs[tab_idx].finish_loading();
                }
                (Some(LoadStatus::Failed(message)), true)
            },
        }
    }

    /// Forgets the loads that are finished.
    pub fn settle_loads(&mut self, finished: &Vec<bool>)
        requires
            finished@.len() == old(self).loads@.len(),
        ensures
            final(self).tabs@ == old(self).tabs@,
            final(self).active == old(self).active,
            final(self).loads@ == unfinished(
                old(self).loads@,
                finished@,
                old(self).loads@.len() as int,
            ),
    {
        let mut rest: Vec<usize> = Vec::new();
        let mut i: usize = 0;
        while i < self.loads.len()
            invariant
                i <= self.loads@.len() == finished@.len(),
                *self == *old(self),
                rest@ == unfinished(self.loads@, finished@, i as int),
            decreases self.loads@.len() - i,
        {
            if !finished[i] {
                rest.push(self.loads[i]);
            }
            i = i + 1;
        }
        self.loads = rest;
    }
}

// ---------------------------------------------------------------------------
// Rows of tabs across operations
// ---------------------------------------------------------------------------

/// Law: closing a tab takes out that tab and no other, and keeps the order of the rest. The
/// loads of other tabs go on, each on its tab. Where the closed tab was in front, the one that
/// followed it comes to the front, or the last.
pub proof fn law_closing_takes_out_one_tab(before: TabBar, after: TabBar, idx: usize)
    requires
        0 < idx < before.tabs@.len() <= usize::MAX,
        before.active < before.tabs@.len(),
        one_closed(before, after, idx),
    ensures
        after.tabs@.len() == before.tabs@.len() - 1,
        forall|k: int|
            0 <= k < after.tabs@.len() ==> #[trigger] after.tabs@[k] == before.tabs@[if k < idx {
                k
            } else {
                k + 1
            }],
        after.loads@ == before.loads@.filter(|l: usize| l != idx).map_values(
            |l: usize|
                if l > idx {
                    (l - 1) as usize
                } else {
                    l
                },
        ),
        before.active == idx && idx < before.tabs@.len() - 1 ==> after.active == idx,
        before.active == idx && idx == before.tabs@.len() - 1 ==> after.active == idx - 1,
        before.active != idx ==> after.tabs@[after.active as int]
            == before.tabs@[before.active as int],
        before.active < idx ==> after.active == before.active,
{
    lemma_loads_are_filtered(before.loads@, idx);
}

proof fn lemma_loads_are_filtered(loads: Seq<usize>, idx: usize)
    ensures
        loads_without(loads, idx) == loads.filter(|l: usize| l != idx).map_values(
            |l: usize|
                if l > idx {
                    (l - 1) as usize
                } else {
                    l
                },
        ),
        idx >= 1 ==> loads_from(loads, idx) == loads.filter(
            |l: usize| l == 0 || l >= idx,
        ).map_values(
            |l: usize|
                if l >= idx {
                    (l - (idx - 1)) as usize
                } else {
                    l
                },
        ),
        loads_up_to(loads, idx) == loads.filter(|l: usize| l <= idx),
    decreases loads.len(),
{
    reveal(Seq::filter);
    if loads.len() > 0 {
        lemma_loads_are_filtered(loads.drop_last(), idx);
    }
}

/// Law: closing the left tabs keeps the live tab and the tabs from the given one on, in their
/// order, and their loads; a tab among those that was in front stays there.
pub proof fn law_closing_left_keeps_the_right(before: TabBar, after: TabBar, idx: usize)
    requires
        1 < idx <= before.tabs@.len() <= usize::MAX,
        before.active < before.tabs@.len(),
        left_closed(before, after, idx),
    ensures
        after.tabs@.len() == before.tabs@.len() - idx + 1,
        after.tabs@[0] == before.tabs@[0],
        forall|k: int|
            1 <= k < after.tabs@.len() ==> #[trigger] after.tabs@[k] == before.tabs@[k + idx - 1],
        after.loads@ == before.loads@.filter(|l: usize| l == 0 || l >= idx).map_values(
            |l: usize|
                if l >= idx {
                    (l - (idx - 1)) as usize
                } else {
                    l
                },
        ),
        before.active == 0 || before.active >= idx ==> after.tabs@[after.active as int]
            == before.tabs@[before.active as int],
{
    lemma_loads_are_filtered(before.loads@, idx);
}

/// Law: closing the right tabs keeps the tabs up to the given one, and their loads. A tab among
/// those that was in front stays there; else the given one comes to the front.
pub proof fn law_closing_right_keeps_the_left(before: TabBar, after: TabBar, idx: usize)
    requires
        idx + 1 < before.tabs@.len() <= usize::MAX,
        before.active < before.tabs@.len(),
        right_closed(before, after, idx),
    ensures
        after.tabs@.len() == idx + 1,
        forall|k: int| 0 <= k <= idx ==> #[trigger] after.tabs@[k] == before.tabs@[k],
        after.loads@ == before.loads@.filter(|l: usize| l <= idx),
        before.active <= idx ==> after.active == before.active,
        before.active > idx ==> after.active == idx,
{
    lemma_loads_are_filtered(before.loads@, idx);
}

/// Law: closing all file tabs leaves the live tab alone in the row, in front, and no loads.
pub proof fn law_closing_all_leaves_the_live_tab(before: TabBar, after: TabBar)
    requires
        before.tabs@.len() > 0,
        all_closed(before, after),
    ensures
        after.tabs@ == seq![before.tabs@[0]],
        after.loads@.len() == 0,
        after.active == 0,
{
    assert(before.tabs@.take(1) =~= seq![before.tabs@[0]]);
}

/// Law: an entry of the context menu closes the tabs that it names, and none else: the tab
/// itself, those to its left, those to its right, or all file tabs.
pub proof fn law_menu_closes_what_it_names(
    before: TabBar,
    after: TabBar,
    i: usize,
    changed: bool,
)
    requires
        0 < i < before.tabs@.len() <= usize::MAX,
        before.active < before.tabs@.len(),
    ensures
        menu_outcome(before, after, TabMenuAction::CloseCurrent(i), changed) ==> changed
            && after.tabs@ == before.tabs@.remove(i as int),
        menu_outcome(before, after, TabMenuAction::CloseLeft(i), changed) ==> changed == (i > 1)
            && (changed ==> after.tabs@ == before.tabs@.take(1) + before.tabs@.skip(i as int)),
        menu_outcome(before, after, TabMenuAction::CloseRight(i), changed) ==> changed == (i
            < before.tabs@.len() - 1) && (changed ==> after.tabs@ == before.tabs@.take(i + 1)),
        menu_outcome(before, after, TabMenuAction::CloseAll, changed) ==> changed && after.tabs@
            == before.tabs@.take(1),
{
}

/// Law: a file that a tab shows is shown there again, and the row stays; a file that no tab
/// shows gets a tab of its own at the end, which is loading and named after the file. The tab in
/// front stays in front.
pub proof fn law_opening_a_file_finds_or_adds_its_tab(
    before: TabBar,
    after: TabBar,
    request: OpenRequest,
)
    requires
        request.same.len() == before.tabs@.len(),
        before.tabs@.len() < usize::MAX,
        opened(
            before,
            after,
            request.view_id,
            request.path,
            request.stem,
            request.match_limit,
            request.same,
            request.index,
        ),
    ensures
        after.active == before.active,
        request.same.contains(true) ==> after == before && 0 <= request.index < request.same.len()
            && request.same[request.index] && (forall|k: int|
            0 <= k < request.index ==> !#[trigger] request.same[k]),
        !request.same.contains(true) ==> ({
            let n = before.tabs@.len() as int;
            let tab = after.tabs@[n]@;
            &&& request.index == n
            &&& after.tabs@.len() == n + 1
            &&& forall|k: int| 0 <= k < n ==> #[trigger] after.tabs@[k] == before.tabs@[k]
            &&& after.loads@ == before.loads@.push(n as usize)
            &&& tab.filepath == Some(request.path) && tab.loading && !tab.live && tab.view_id
                == request.view_id && tab.backend is Pending
            &&& request.stem is Some ==> tab.title == request.stem->0
            &&& request.stem is None ==> tab.title == request.path
        }),
{
    lemma_first_set(request.same, 0);
    lemma_first_set_is_first(request.same, 0);
    if first_set(request.same, 0) is None {
        assert(!request.same.contains(true));
        assert forall|k: int| 0 <= k < before.tabs@.len() implies #[trigger] after.tabs@[k]
            == before.tabs@[k] by {
            assert(after.tabs@.take(before.tabs@.len() as int)[k] == before.tabs@[k]);
        }
    }
}

proof fn lemma_first_set_is_first(same: Seq<bool>, from: int)
    requires
        0 <= from <= same.len(),
    ensures
        first_set(same, from) matches Some(i) ==> forall|k: int|
            from <= k < i ==> !#[trigger] same[k],
    decreases same.len() - from,
{
    if from < same.len() && !same[from] {
        lemma_first_set_is_first(same, from + 1);
    }
}

/// Law: while a file is indexed its tab counts along and shows what it showed; when the load
/// ends the tab shows the lines, or what it showed where the load failed, and is no longer
/// loading.
pub proof fn law_load_reports_reach_the_tab(
    s: log_tab::PageView,
    indexed: usize,
    lines: Vec<String>,
    scans: Vec<FilterScan>,
    message: String,
)
    ensures
        ({
            let t = after_load_event(s, LoadEvent::Progress { indexed });
            &&& t.index_progress == indexed && t.loading
            &&& t.backend == s.backend && t.panes == s.panes && t.title == s.title
        }),
        ({
            let t = after_load_event(s, LoadEvent::Done { lines, scans });
            &&& t.backend.lines() == search::views(lines@) && t.backend is File && !t.loading
            &&& t.title == s.title && t.filepath == s.filepath
        }),
        ({
            let t = after_load_event(s, LoadEvent::Failed(message));
            !t.loading && t.title == s.title && t.filepath == s.filepath && t.panes == s.panes
        }),
{
}

/// Law: the loads that go on are those that are not finished, in their order.
pub proof fn law_finished_loads_are_forgotten(loads: Seq<usize>, finished: Seq<bool>)
    requires
        finished.len() == loads.len(),
    ensures
        (forall|i: int| 0 <= i < finished.len() ==> !#[trigger] finished[i]) ==> unfinished(
            loads,
            finished,
            loads.len() as int,
        ) == loads,
        (forall|i: int| 0 <= i < finished.len() ==> #[trigger] finished[i]) ==> unfinished(
            loads,
            finished,
            loads.len() as int,
        ).len() == 0,
        forall|i: int|
            0 <= i < loads.len() && !#[trigger] finished[i] ==> unfinished(
                loads,
                finished,
                loads.len() as int,
            ).contains(loads[i]),
        forall|l: usize|
            unfinished(loads, finished, loads.len() as int).contains(l) ==> exists|i: int|
                0 <= i < loads.len() && !finished[i] && #[trigger] loads[i] == l,
{
    lemma_unfinished(loads, finished, loads.len() as int);
    assert(loads.take(loads.len() as int) =~= loads);
}

proof fn lemma_unfinished(loads: Seq<usize>, finished: Seq<bool>, n: int)
    requires
        finished.len() == loads.len(),
        0 <= n <= loads.len(),
    ensures
        (forall|i: int| 0 <= i < n ==> !#[trigger] finished[i]) ==> unfinished(loads, finished, n)
            == loads.take(n),
        (forall|i: int| 0 <= i < n ==> #[trigger] finished[i]) ==> unfinished(
            loads,
            finished,
            n,
        ).len() == 0,
        forall|i: int|
            0 <= i < n && !#[trigger] finished[i] ==> unfinished(loads, finished, n).contains(
                loads[i],
            ),
        forall|l: usize|
            unfinished(loads, finished, n).contains(l) ==> exists|i: int|
                0 <= i < n && !finished[i] && #[trigger] loads[i] == l,
    decreases n,
{
    if n > 0 {
        lemma_unfinished(loads, finished, n - 1);
        let front = unfinished(loads, finished, n - 1);
        let all = unfinished(loads, finished, n);
        assert(loads.take(n) =~= loads.take(n - 1).push(loads[n - 1]));
        if !finished[n - 1] {
            assert(all == front.push(loads[n - 1]));
            assert(all[front.len() as int] == loads[n - 1]);
            assert forall|l: usize| front.contains(l) implies all.contains(l) by {
                let k = choose|k: int| 0 <= k < front.len() && front[k] == l;
                assert(all[k] == l);
            }
            assert forall|l: usize| all.contains(l) implies exists|i: int|
                0 <= i < n && !finished[i] && #[trigger] loads[i] == l by {
                let k = choose|k: int| 0 <= k < all.len() && all[k] == l;
                if k < front.len() {
                    assert(front[k] == l);
                    assert(front.contains(l));
                } else {
                    assert(loads[n - 1] == l);
                }
            }
        }
    }
}

/// Law: a tab that comes to the front with its filters out of date has them searched for anew
/// and is up to date then; any other stays as it is. Its lines stay.
pub proof fn law_tab_in_front_is_up_to_date(s: log_tab::PageView, scans: Seq<FilterScan>)
    ensures
        ({
            let t = activated(s, scans);
            &&& !t.options.filter_dirty
            &&& !s.options.filter_dirty ==> t == s
            &&& s.options.filter_dirty ==> t.panes == log_tab::page_refreshed(s, scans).panes
            &&& t.backend == s.backend && t.title == s.title && t.filepath == s.filepath
        }),
{
}

/// Law: the wheel brings a tab of the row to the front, the next in its direction, and none
/// before it has rested.
pub proof fn law_wheel_brings_the_next_tab(
    bar: TabBar,
    direction: i8,
    last_switch: Option<u64>,
    now: u64,
)
    requires
        bar.active < bar.tabs@.len(),
    ensures
        ({
            let r = wheel_target(bar, direction, last_switch, now);
            let n = bar.tabs@.len() as int;
            &&& r is Some <==> direction != 0 && (last_switch is Some ==> now >= last_switch->0
                + 240_000)
            &&& r is Some && direction > 0 ==> r->0 == if bar.active + 1 < n {
                bar.active + 1
            } else {
                bar.active as int
            }
            &&& r is Some && direction < 0 ==> r->0 == if bar.active > 0 {
                bar.active - 1
            } else {
                0
            }
        }),
{
}

/// Law: the list of tabs tells of each tab its own index, title, file and number of lines, and
/// whether it is the live one.
pub proof fn law_tab_list_describes_the_tabs(info: TabInfo, tabs: Seq<LogTabPage>, i: int)
    requires
        describes(info, tabs, i),
    ensures
        info.tab_id == i,
        info.title@ == tabs[i]@.title,
        info.live == tabs[i]@.live,
        info.lines == tabs[i]@.backend.lines().len(),
        tabs[i]@.filepath is Some ==> info.path is Some && info.path->0@ == tabs[i]@.filepath->0,
        tabs[i]@.filepath is None ==> info.path is None,
{
}

/// Law: a tab without a file shows no file. A path is the file of a tab where both resolve to
/// paths that are the same but for letters of either case and separators of either kind.
pub proof fn law_tab_without_a_file_shows_none(path: Seq<char>, open: Seq<char>, same: bool)
    ensures
        verdict(None, path, same) ==> !same,
        verdict(Some(open), path, same) ==> exists|a: Option<Seq<char>>, b: Option<Seq<char>>|
            same == files::same_file(
                #[trigger] files::kept_path(a, open),
                #[trigger] files::kept_path(b, path),
            ),
{
    if verdict(Some(open), path, same) {
        let (a, b) = choose|a: Option<Seq<char>>, b: Option<Seq<char>>|
            files::resolvable(a) && files::resolvable(b) && same == files::same_file(
                #[trigger] files::kept_path(a, open),
                #[trigger] files::kept_path(b, path),
            );
        assert(same == files::same_file(files::kept_path(a, open), files::kept_path(b, path)));
    }
}

/// Law: the open files are named each once, and only files are: neither the live tab nor a tab
/// without a file.
pub proof fn law_open_files_are_named(tabs: Seq<LogTabPage>, paths: Seq<Seq<char>>)
    requires
        open_paths(tabs, paths),
    ensures
        paths.no_duplicates(),
        (forall|i: int|
            0 <= i < tabs.len() ==> (#[trigger] tabs[i])@.live || tabs[i]@.filepath is None)
            ==> paths.len() == 0,
        paths.len() <= tabs.len(),
        (exists|i: int|
            0 <= i < tabs.len() && !(#[trigger] tabs[i])@.live && tabs[i]@.filepath is Some)
            ==> paths.len() > 0,
{
    let kept = choose|kept: Seq<Option<String>>|
        {
            &&& kept.len() == tabs.len()
            &&& forall|i: int| 0 <= i < kept.len() ==> kept_for(tabs[i]@, #[trigger] kept[i])
            &&& paths == #[trigger] distinct(kept, kept.len() as int)
        };
    law_open_paths_are_distinct(kept, kept.len() as int);
    lemma_distinct_count(kept, kept.len() as int);
    if exists|i: int|
        0 <= i < tabs.len() && !(#[trigger] tabs[i])@.live && tabs[i]@.filepath is Some {
        let i = choose|i: int|
            0 <= i < tabs.len() && !(#[trigger] tabs[i])@.live && tabs[i]@.filepath is Some;
        assert(kept_for(tabs[i]@, kept[i]));
        assert(paths.contains(kept[i]->0@));
    }
    if forall|i: int|
        0 <= i < tabs.len() ==> (#[trigger] tabs[i])@.live || tabs[i]@.filepath is None {
        assert forall|i: int| 0 <= i < kept.len() implies (#[trigger] kept[i]) is None by {
            assert(kept_for(tabs[i]@, kept[i]));
        }
    }
}

proof fn lemma_distinct_count(kept: Seq<Option<String>>, n: int)
    requires
        0 <= n <= kept.len(),
    ensures
        distinct(kept, n).len() <= n,
        (forall|i: int| 0 <= i < n ==> (#[trigger] kept[i]) is None) ==> distinct(kept, n).len()
            == 0,
    decreases n,
{
    if n > 0 {
        lemma_distinct_count(kept, n - 1);
    }
}

/// Law: a path that cannot be resolved is kept with one kind of separator.
pub proof fn law_kept_path_has_one_separator(path: Seq<char>, kept: Seq<char>)
    requires
        normalized(path, kept),
    ensures
        !files::absolute_text(kept) ==> kept.len() == path.len() && !kept.contains('/'),
{
    text::law_swapped_char_is_gone(path, '/', '\\');
}

/// Law: the status line tells of a load the title of its tab and how far it is, or how many lines
/// there are, or the error. Of a tab that is gone only the error is told.
pub proof fn law_load_is_told_by_its_tab(
    status: Option<LoadStatus>,
    tab: log_tab::PageView,
    event: LoadEvent,
)
    ensures
        load_status_is(status, Some(tab), event) ==> {
            &&& event is Progress ==> status is Some && status->0 is Indexing
                && status->0->Indexing_title@ == tab.title && status->0->Indexing_lines
                == event->indexed
            &&& event is Done ==> status is Some && status->0 is Opened
                && status->0->Opened_title@ == tab.title && status->0->total
                == event->Done_lines@.len()
            &&& event is Failed ==> status == Some(LoadStatus::Failed(event->Failed_0))
        },
        load_status_is(status, None, event) ==> {
            &&& event is Failed ==> status == Some(LoadStatus::Failed(event->Failed_0))
            &&& !(event is Failed) ==> status is None
        },
{
}

/// Law: only a loaded file is read ahead, around where its tab stands.
pub proof fn law_files_are_read_ahead(s: log_tab::PageView)
    ensures
        read_ahead(s) is Some <==> s.backend is File,
        s.backend is File && log_tab::page_anchor(s) < s.backend.lines().len() <= usize::MAX ==> ({
            let r = read_ahead(s)->0;
            r.0 <= log_tab::page_anchor(s) < r.1 <= s.backend.lines().len()
        }),
{
}

} // verus!
