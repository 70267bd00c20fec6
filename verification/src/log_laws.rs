//! What holds of log tabs across operations.
use vstd::prelude::*;

use crate::log_tab::PageView;
use crate::pane::{FilterScan, FindJump, PaneView, TextHit};
use crate::{log_tab, pane, pane_laws, search, tabs, text};

verus! {

/// Whether hit `k` of pane `i` of tab `t` is hit `j` of that pane in tab `s`, on a line with the
/// same text.
pub open spec fn same_match(s: PageView, t: PageView, i: int, j: int, k: int) -> bool {
    let old_hit = s.panes[i].find_hits[j];
    let new_hit = t.panes[i].find_hits[k];
    &&& 0 <= k < t.panes[i].find_hits.len()
    &&& new_hit.start == old_hit.start
    &&& new_hit.end == old_hit.end
    &&& new_hit.row < t.backend.lines().len()
    &&& t.backend.lines()[new_hit.row as int] == s.backend.lines()[old_hit.row as int]
}

/// Law: a match stays on its line while a capture grows. After lines are appended and old ones
/// leave, every match whose line is still there is found at the row that now holds the same
/// text.
pub proof fn law_matches_stay_on_their_lines(
    s: PageView,
    lines: Seq<Seq<char>>,
    update_filters: bool,
    fresh: Seq<FilterScan>,
    i: int,
    j: int,
)
    requires
        s.backend is Live,
        s.backend.lines().len() + lines.len() <= usize::MAX,
        lines.len() > 0,
        0 <= i < s.panes.len(),
        pane_laws::in_line_order(s.panes[i].find_hits),
        0 <= j < s.panes[i].find_hits.len(),
        s.panes[i].find_hits[j].row < s.backend.lines().len(),
        s.panes[i].find_hits[j].row >= log_tab::overflow_count(
            s.backend.lines().len() as int,
            lines.len() as int,
            s.backend->Live_capacity as int,
        ),
        update_filters ==> !log_tab::nothing_to_find(
            s.options,
            i,
            s.panes[i].filter_applied,
            fresh[i].no_needles,
        ),
    ensures
        exists|k: int|
            #[trigger] same_match(
                s,
                log_tab::page_after_append(s, lines, update_filters, fresh),
                i,
                j,
                k,
            ),
{
    let have = s.backend.lines();
    let capacity = s.backend->Live_capacity as int;
    let e = log_tab::overflow_count(have.len() as int, lines.len() as int, capacity);
    let evicted = e as usize;
    let t = log_tab::page_after_append(s, lines, update_filters, fresh);
    let p = s.panes[i];
    let q = pane::after_front_eviction(p, evicted);
    pane_laws::law_eviction_keeps_hits(p, evicted);
    let d = choose|d: int|
        {
            let q = #[trigger] pane_laws::dropped_hits(p, evicted, d);
            &&& 0 <= d <= p.find_hits.len()
            &&& forall|k: int| 0 <= k < d ==> (#[trigger] p.find_hits[k]).row < evicted
            &&& q.len() == p.find_hits.len() - d
            &&& forall|k: int|
                0 <= k < q.len() ==> #[trigger] q[k] == pane::moved_hit(
                    p.find_hits[k + d],
                    evicted,
                )
        };
    assert(pane_laws::dropped_hits(p, evicted, d) == q.find_hits);
    assert(j >= d);
    let k = j - d;
    assert(q.find_hits[k] == pane::moved_hit(p.find_hits[j], evicted));
    let limit = s.options.match_limit as int;
    let first = log_tab::first_new_row(
        (have + lines).skip(e).len() as int,
        lines.len() as int,
    );
    assert(t.panes[i] == log_tab::pane_after_append(
        s,
        i,
        evicted,
        update_filters,
        first,
        fresh[i],
    ));
    if update_filters {
        assert(q.filter_applied == p.filter_applied);
        pane_laws::lemma_run_on_row(fresh[i].hits@, first, 0);
        assert(t.panes[i].find_hits[k] == q.find_hits[k]);
    }
    assert(same_match(s, t, i, j, k));
}

/// Law: clearing the display drops every selection, mark and find position, whatever a search
/// of the emptied log reports.
pub proof fn law_clear_display_forgets_positions(s: PageView, scans: Seq<FilterScan>, i: int)
    requires
        0 <= i < s.panes.len(),
    ensures
        ({
            let q = log_tab::page_cleared(s, scans).panes[i];
            &&& q.sel_anchor is None
            &&& q.sel_focus is None
            &&& q.find_current is None
            &&& q.highlight_master is None
            &&& q.scroll_to_master is None
            &&& q.parse_row is None
        }),
        s.backend is Live ==> log_tab::page_cleared(s, scans).backend.lines().len() == 0,
{
    reveal(pane::after_jump);
    reveal(pane::after_rebuild);
}

/// Law: committing a filter while the file is still loading remembers the text and opens
/// nothing.
pub proof fn law_pending_tab_keeps_filter(s: PageView, idx: int, scan: FilterScan)
    requires
        s.backend is Pending,
        0 <= idx < s.panes.len(),
        s.panes[idx].filter_draft != s.panes[idx].filter_applied,
    ensures
        ({
            let q = log_tab::page_after_apply(s, idx, scan).panes[idx];
            &&& q.filter_applied == s.panes[idx].filter_draft
            &&& !q.filter_busy
            &&& q.find_hits.len() == 0
            &&& !s.panes[idx].show_search ==> !q.show_search
        }),
{
    reveal(pane::after_rebuild);
    reveal(pane::committed);
}

/// Law: work on one pane leaves the other panes and the lines alone.
pub proof fn law_panes_are_independent(
    s: PageView,
    idx: int,
    other: int,
    jump: FindJump,
    scan: FilterScan,
)
    requires
        0 <= other < s.panes.len(),
        other != idx,
    ensures
        log_tab::page_after_apply(s, idx, scan).panes[other] == s.panes[other],
        log_tab::page_after_jump(s, idx, jump).panes[other] == s.panes[other],
        log_tab::page_after_list_all(s, idx, scan).panes[other] == s.panes[other],
        log_tab::page_after_apply(s, idx, scan).backend == s.backend,
        log_tab::page_after_jump(s, idx, jump).backend == s.backend,
{
}

/// Law: asking for the result list opens it exactly when there is a filter; merely applying
/// the filter does not open it.
pub proof fn law_list_opens_on_request(s: PageView, idx: int, scan: FilterScan)
    requires
        0 <= idx < s.panes.len(),
    ensures
        log_tab::page_after_list_all(s, idx, scan).panes[idx].show_search == (
        log_tab::page_after_apply(s, idx, scan).panes[idx].filter_applied.len() > 0),
        !s.panes[idx].show_search ==> !log_tab::page_after_apply(
            s,
            idx,
            scan,
        ).panes[idx].show_search,
{
    reveal(pane::after_jump);
    reveal(pane::after_rebuild);
    reveal(pane::committed);
}

/// Law: going to a line shows an existing line and marks it, whatever number was typed.
pub proof fn law_goto_shows_existing_line(s: PageView, line: usize)
    requires
        s.backend.lines().len() > 0,
        s.backend.lines().len() <= usize::MAX,
        s.panes.len() > 0,
    ensures
        ({
            let q = log_tab::page_at_line(s, line).panes[log_tab::active_pane(s)];
            &&& q.scroll_to_master is Some
            &&& q.scroll_to_master->0 < s.backend.lines().len()
            &&& q.highlight_master == q.scroll_to_master
            &&& !q.scroll_pinned
            &&& 1 <= line <= s.backend.lines().len() ==> q.scroll_to_master->0 == line - 1
        }),
{
}

// ---------------------------------------------------------------------------
// Deferred filters
// ---------------------------------------------------------------------------

/// The matches of one line, at a row. `find` tells where a line has matches.
pub open spec fn hits_on_line(
    find: spec_fn(Seq<char>) -> Seq<(usize, usize)>,
    line: Seq<char>,
    row: int,
) -> Seq<TextHit> {
    let ranges = find(line);
    Seq::new(
        ranges.len(),
        |k: int| TextHit { row: row as usize, start: ranges[k].0, end: ranges[k].1 },
    )
}

/// The matches of lines that stand from row `first` on, line by line.
pub open spec fn hits_in(
    find: spec_fn(Seq<char>) -> Seq<(usize, usize)>,
    lines: Seq<Seq<char>>,
    first: int,
) -> Seq<TextHit>
    decreases lines.len(),
{
    if lines.len() == 0 {
        Seq::empty()
    } else {
        hits_in(find, lines.drop_last(), first) + hits_on_line(
            find,
            lines.last(),
            first + lines.len() - 1,
        )
    }
}

/// Whether pane `i` of a tab holds all matches of its lines, with the list of their rows.
pub open spec fn fully_searched(
    s: PageView,
    i: int,
    find: spec_fn(Seq<char>) -> Seq<(usize, usize)>,
) -> bool {
    &&& s.panes[i].find_hits == hits_in(find, s.backend.lines(), 0)
    &&& s.panes[i].search_map == pane::match_rows(s.panes[i].find_hits)
}

/// Whether `fresh` holds what a search of the appended lines finds for pane `i`: the matches of
/// those lines that stay, at the rows that they get.
pub open spec fn finds_fresh_lines(
    s: PageView,
    lines: Seq<Seq<char>>,
    fresh: FilterScan,
    find: spec_fn(Seq<char>) -> Seq<(usize, usize)>,
) -> bool {
    let place = log_tab::fresh_place(
        s.backend.lines().len() as int,
        lines.len() as int,
        s.backend->Live_capacity as int,
    );
    fresh.hits@ == hits_in(find, lines.skip(place.0), place.1)
}

proof fn lemma_hits_in_joined(
    find: spec_fn(Seq<char>) -> Seq<(usize, usize)>,
    a: Seq<Seq<char>>,
    b: Seq<Seq<char>>,
    first: int,
)
    ensures
        hits_in(find, a + b, first) == hits_in(find, a, first) + hits_in(
            find,
            b,
            first + a.len(),
        ),
    decreases b.len(),
{
    if b.len() == 0 {
        assert(a + b =~= a);
        assert(hits_in(find, a, first) + Seq::<TextHit>::empty() =~= hits_in(find, a, first));
    } else {
        assert((a + b).drop_last() =~= a + b.drop_last());
        lemma_hits_in_joined(find, a, b.drop_last(), first);
        let line = hits_on_line(find, b.last(), first + a.len() + b.len() - 1);
        assert((hits_in(find, a, first) + hits_in(find, b.drop_last(), first + a.len())) + line
            =~= hits_in(find, a, first) + (hits_in(find, b.drop_last(), first + a.len()) + line));
    }
}

proof fn lemma_kept_hits_joined(a: Seq<TextHit>, b: Seq<TextHit>, evicted: usize)
    ensures
        pane::kept_hits(a + b, evicted) == pane::kept_hits(a, evicted) + pane::kept_hits(
            b,
            evicted,
        ),
    decreases b.len(),
{
    if b.len() == 0 {
        assert(a + b =~= a);
        assert(pane::kept_hits(a, evicted) + Seq::<TextHit>::empty() =~= pane::kept_hits(
            a,
            evicted,
        ));
    } else {
        assert((a + b).drop_last() =~= a + b.drop_last());
        lemma_kept_hits_joined(a, b.drop_last(), evicted);
        let front = pane::kept_hits(a, evicted);
        let tail = pane::kept_hits(b.drop_last(), evicted);
        let hit = pane::moved_hit(b.last(), evicted);
        assert((front + tail).push(hit) =~= front + tail.push(hit));
    }
}

proof fn lemma_kept_hits_on_row(hits: Seq<TextHit>, row: int, evicted: usize)
    requires
        0 <= row <= usize::MAX,
        forall|k: int| 0 <= k < hits.len() ==> (#[trigger] hits[k]).row == row,
    ensures
        row < evicted ==> pane::kept_hits(hits, evicted).len() == 0,
        row >= evicted ==> pane::kept_hits(hits, evicted) == Seq::new(
            hits.len(),
            |k: int| pane::moved_hit(hits[k], evicted),
        ),
    decreases hits.len(),
{
    if hits.len() > 0 {
        lemma_kept_hits_on_row(hits.drop_last(), row, evicted);
    }
    if row >= evicted {
        assert(pane::kept_hits(hits, evicted) =~= Seq::new(
            hits.len(),
            |k: int| pane::moved_hit(hits[k], evicted),
        ));
    }
}

/// The matches that stay when lines leave at the front are the matches of the lines that stay.
proof fn lemma_hits_after_eviction(
    find: spec_fn(Seq<char>) -> Seq<(usize, usize)>,
    lines: Seq<Seq<char>>,
    evicted: usize,
)
    requires
        lines.len() <= usize::MAX,
    ensures
        pane::kept_hits(hits_in(find, lines, 0), evicted) == hits_in(
            find,
            lines.skip(
                if evicted <= lines.len() {
                    evicted as int
                } else {
                    lines.len() as int
                },
            ),
            0,
        ),
    decreases lines.len(),
{
    let cut = if evicted <= lines.len() {
        evicted as int
    } else {
        lines.len() as int
    };
    if lines.len() == 0 {
        assert(lines.skip(cut) =~= lines);
    } else {
        let n = lines.len() - 1;
        let front = lines.drop_last();
        let line = hits_on_line(find, lines.last(), n);
        lemma_hits_after_eviction(find, front, evicted);
        lemma_kept_hits_joined(hits_in(find, front, 0), line, evicted);
        lemma_kept_hits_on_row(line, n, evicted);
        if n < evicted {
            assert(front.skip(front.len() as int) =~= Seq::empty());
            assert(lines.skip(cut) =~= Seq::empty());
            assert(pane::kept_hits(hits_in(find, lines, 0), evicted) =~= Seq::empty());
        } else {
            let rest = lines.skip(cut);
            assert(rest.drop_last() =~= front.skip(cut));
            assert(rest.last() == lines.last());
            assert(pane::kept_hits(line, evicted) =~= hits_on_line(
                find,
                lines.last(),
                rest.len() - 1,
            ));
        }
    }
}

/// Law: a pane that holds all matches of a live log still holds all of them after lines are
/// appended while its filter is kept up to date, as long as they stay within the limit.
pub proof fn law_shown_filter_stays_complete(
    s: PageView,
    lines: Seq<Seq<char>>,
    fresh: Seq<FilterScan>,
    i: int,
    find: spec_fn(Seq<char>) -> Seq<(usize, usize)>,
)
    requires
        s.backend is Live,
        lines.len() > 0,
        s.backend.lines().len() + lines.len() <= usize::MAX,
        0 <= i < s.panes.len(),
        fully_searched(s, i, find),
        !s.panes[i].find_truncated,
        !log_tab::nothing_to_find(s.options, i, s.panes[i].filter_applied, fresh[i].no_needles),
        finds_fresh_lines(s, lines, fresh[i], find),
        hits_in(find, log_tab::page_after_append(s, lines, true, fresh).backend.lines(), 0).len()
            <= s.options.match_limit,
    ensures
        fully_searched(log_tab::page_after_append(s, lines, true, fresh), i, find),
{
    let have = s.backend.lines();
    let capacity = s.backend->Live_capacity as int;
    let e = log_tab::overflow_count(have.len() as int, lines.len() as int, capacity);
    let evicted = e as usize;
    let place = log_tab::fresh_place(have.len() as int, lines.len() as int, capacity);
    let t = log_tab::page_after_append(s, lines, true, fresh);
    let now = (have + lines).skip(e);
    let p = pane::after_front_eviction(s.panes[i], evicted);
    let cut = if evicted <= have.len() {
        e
    } else {
        have.len() as int
    };
    lemma_hits_after_eviction(find, have, evicted);
    assert(have.skip(0) =~= have);
    assert(p.find_hits == hits_in(find, have.skip(cut), 0));
    assert(now =~= have.skip(cut) + lines.skip(place.0));
    lemma_hits_in_joined(find, have.skip(cut), lines.skip(place.0), 0);
    let fresh_hits = fresh[i].hits@;
    assert(hits_in(find, now, 0) == p.find_hits + fresh_hits);
    assert(fresh_hits.take(fresh_hits.len() as int) =~= fresh_hits);
    if p.find_hits.len() == s.options.match_limit {
        assert(p.find_hits + fresh_hits =~= p.find_hits);
    }
    assert(t.panes[i] == log_tab::pane_after_append(
        s,
        i,
        evicted,
        true,
        log_tab::first_new_row(now.len() as int, lines.len() as int),
        fresh[i],
    ));
}

/// Law: a live tab whose filters were left behind holds all matches of its lines once it is
/// shown again.
pub proof fn law_deferred_filter_catches_up(
    s: PageView,
    scans: Seq<FilterScan>,
    i: int,
    find: spec_fn(Seq<char>) -> Seq<(usize, usize)>,
)
    requires
        s.backend is Live,
        s.options.filter_dirty,
        0 <= i < s.panes.len(),
        !log_tab::nothing_to_find(s.options, i, s.panes[i].filter_applied, scans[i].no_needles),
        scans[i].hits@ == hits_in(find, s.backend.lines(), 0),
    ensures
        fully_searched(tabs::activated(s, scans), i, find),
        tabs::activated(s, scans).panes[i].find_truncated == scans[i].truncated,
{
    reveal(pane::after_rebuild);
    reveal(pane::after_jump);
    assert(log_tab::page_refreshed(s, scans).panes[i] == log_tab::refreshed_pane(s, i, scans[i]));
}

/// Law: filter updates that were put off end where immediate ones do. Lines appended to a live
/// tab in the background leave its filters for later; when the tab is shown again, its lines,
/// matches and result list are those of a tab that was kept up to date all along.
pub proof fn law_deferred_filters_end_alike(
    s: PageView,
    lines: Seq<Seq<char>>,
    fresh: Seq<FilterScan>,
    unused: Seq<FilterScan>,
    scans: Seq<FilterScan>,
    i: int,
    find: spec_fn(Seq<char>) -> Seq<(usize, usize)>,
)
    requires
        s.backend is Live,
        lines.len() > 0,
        s.backend.lines().len() + lines.len() <= usize::MAX,
        0 <= i < s.panes.len(),
        fully_searched(s, i, find),
        !s.panes[i].find_truncated,
        scans[i].no_needles == fresh[i].no_needles,
        finds_fresh_lines(s, lines, fresh[i], find),
        scans[i].hits@ == hits_in(
            find,
            log_tab::page_after_append(s, lines, false, unused).backend.lines(),
            0,
        ),
        scans[i].hits@.len() <= s.options.match_limit,
    ensures
        ({
            let kept_up = log_tab::page_after_append(s, lines, true, fresh);
            let caught_up = tabs::activated(
                log_tab::page_after_append(s, lines, false, unused),
                scans,
            );
            &&& caught_up.backend == kept_up.backend
            &&& caught_up.options == kept_up.options
            &&& caught_up.panes[i].find_hits == kept_up.panes[i].find_hits
            &&& caught_up.panes[i].search_map == kept_up.panes[i].search_map
        }),
{
    let waiting = log_tab::page_after_append(s, lines, false, unused);
    let kept_up = log_tab::page_after_append(s, lines, true, fresh);
    let filter = s.panes[i].filter_applied;
    assert(waiting.panes[i].filter_applied == filter);
    assert(waiting.backend == kept_up.backend);
    if log_tab::nothing_to_find(s.options, i, filter, fresh[i].no_needles) {
        reveal(pane::after_rebuild);
        assert(log_tab::page_refreshed(waiting, scans).panes[i] == log_tab::refreshed_pane(
            waiting,
            i,
            scans[i],
        ));
    } else {
        law_shown_filter_stays_complete(s, lines, fresh, i, find);
        law_deferred_filter_catches_up(waiting, scans, i, find);
    }
}

/// Law: filter updates that were put off are applied once. Showing a tab a second time changes
/// nothing.
pub proof fn law_deferred_filters_apply_once(
    s: PageView,
    scans: Seq<FilterScan>,
    later: Seq<FilterScan>,
)
    ensures
        !tabs::activated(s, scans).options.filter_dirty,
        tabs::activated(tabs::activated(s, scans), later) == tabs::activated(s, scans),
{
}

// ---------------------------------------------------------------------------
// Lines, filters, keys and dialogs
// ---------------------------------------------------------------------------

/// Law: lines that arrive join a live log at its end, in their order; once it is full the
/// oldest leave, so that it holds the newest lines and never more than its capacity. A log that
/// is not live takes no lines.
pub proof fn law_live_log_holds_the_newest_lines(
    s: PageView,
    lines: Seq<Seq<char>>,
    update_filters: bool,
    fresh: Seq<FilterScan>,
)
    ensures
        ({
            let t = log_tab::page_after_append(s, lines, update_filters, fresh);
            let have = s.backend.lines();
            let now = t.backend.lines();
            &&& !(s.backend is Live) ==> t == s
            &&& s.backend is Live && lines.len() > 0 ==> {
                let capacity = s.backend->Live_capacity as int;
                &&& now.len() == if have.len() + lines.len() <= capacity {
                    have.len() + lines.len()
                } else {
                    capacity as nat
                }
                &&& forall|i: int|
                    0 <= i < now.len() ==> #[trigger] now[now.len() - 1 - i] == if i < lines.len() {
                        lines[lines.len() - 1 - i]
                    } else {
                        have[have.len() - 1 - (i - lines.len())]
                    }
                &&& t.backend is Live && t.backend->Live_capacity == capacity
                &&& t.options.filter_dirty == !update_filters
            }
            &&& t.panes.len() == s.panes.len()
            &&& t.title == s.title && t.filepath == s.filepath && t.edit == s.edit && t.view_id
                == s.view_id
        }),
{
}

/// Law: a filter that was typed into a pane and committed is the filter of that pane, and live
/// lines show what a search for it found; an empty filter shows no matches. The lines of the log
/// stay.
pub proof fn law_committed_filter_belongs_to_its_pane(s: PageView, idx: int, scan: FilterScan)
    requires
        0 <= idx < s.panes.len(),
        s.panes[idx].filter_draft != s.panes[idx].filter_applied,
    ensures
        ({
            let t = log_tab::page_after_apply(s, idx, scan);
            let q = t.panes[idx];
            &&& t.backend == s.backend
            &&& t.panes.len() == s.panes.len()
            &&& q.filter_applied == s.panes[idx].filter_draft
            &&& s.panes[idx].filter_draft.len() == 0 ==> q.find_hits.len() == 0
                && q.search_map.len() == 0 && !q.filter_busy
            &&& s.panes[idx].filter_draft.len() > 0 && !scan.no_needles && (idx == 0
                || s.options.split_enabled) && s.backend is Live ==> q.find_hits == scan.hits@
                && q.find_truncated == scan.truncated
            &&& idx > 0 && !s.options.split_enabled ==> q.find_hits.len() == 0
        }),
{
    let nothing = log_tab::nothing_to_find(
        s.options,
        idx,
        s.panes[idx].filter_draft,
        scan.no_needles,
    );
    pane_laws::law_committed_filter_is_searched(
        s.panes[idx],
        s.backend.kind(),
        nothing,
        scan.hits@,
        scan.truncated,
    );
}

/// Law: F3 goes to the next match of the active pane and Shift+F3 to the one before, around the
/// ends, and brings its line into view.
pub proof fn law_f3_steps_through_the_matches(
    s: PageView,
    keys: log_tab::ViewKeys,
    scan: FilterScan,
    i: int,
)
    requires
        !s.edit.mode,
        !s.goto.open,
        !s.edit.exit_confirm_open,
        s.panes.len() > 0,
        keys.f3,
        !keys.ctrl,
        !keys.escape,
        ({
            let p = s.panes[log_tab::active_pane(s)];
            &&& p.filter_draft == p.filter_applied
            &&& !p.filter_busy
            &&& pane_laws::standing_on(p, i)
        }),
    ensures
        ({
            let a = log_tab::active_pane(s);
            let n = s.panes[a].find_hits.len() as int;
            let q = log_tab::page_after_keys(s, keys, scan).panes[a];
            let k = if keys.shift {
                if i > 0 {
                    i - 1
                } else {
                    n - 1
                }
            } else {
                if i + 1 < n {
                    i + 1
                } else {
                    0
                }
            };
            &&& pane_laws::standing_on(q, k)
            &&& q.find_hits == s.panes[a].find_hits
            &&& q.highlight_master == Some(q.find_hits[k].row)
            &&& q.scroll_to_master == Some(q.find_hits[k].row)
        }),
{
    reveal(pane::after_jump);
}

/// Law: Ctrl+G opens the go-to dialog on the line at which the active pane stands, Ctrl+F asks
/// for the filter box of the active pane, and Escape drops its selection. While text is being
/// edited the keys leave the panes alone, and while a dialog is open they do nothing.
pub proof fn law_keys_of_a_log(s: PageView, keys: log_tab::ViewKeys, scan: FilterScan)
    requires
        s.panes.len() > 0,
    ensures
        ({
            let a = log_tab::active_pane(s);
            let t = log_tab::page_after_keys(s, keys, scan);
            &&& s.edit.mode ==> t.panes == s.panes && t.edit.session == s.edit.session && (
            keys.ctrl && keys.f ==> t.edit.show_find)
            &&& !s.edit.mode && (s.goto.open || s.edit.exit_confirm_open) ==> t == s
            &&& !s.edit.mode && !s.goto.open && !s.edit.exit_confirm_open ==> {
                &&& keys.ctrl && keys.g ==> t.goto.open
                &&& keys.ctrl && keys.g && !keys.escape ==> text::number_of(
                    t.goto.draft,
                    usize::MAX as nat + 1,
                ) == Some((pane::pane_focus_row(s.panes[a]) + 1) as nat)
                &&& keys.ctrl && keys.f && !keys.g ==> t.panes[a].focus_filter_requested
                &&& keys.escape && !keys.ctrl && !keys.f3 ==> t.panes[a].sel_anchor is None
                    && t.panes[a].sel_focus is None
                &&& !keys.escape && !keys.f3 && !(keys.ctrl && (keys.g || keys.f)) ==> t == s
            }
        }),
{
    reveal(pane::after_jump);
    reveal(pane::after_rebuild);
    reveal(pane::committed);
    text::law_decimal_reads_back(log_tab::current_line(s) as nat, usize::MAX as nat + 1);
}

/// Law: the active pane is the selected one, as long as there are so many panes.
pub proof fn law_active_pane_is_the_selected_one(s: PageView)
    requires
        s.panes.len() > 0,
    ensures
        0 <= log_tab::active_pane(s) < s.panes.len(),
        s.options.selected_pane < s.panes.len() ==> log_tab::active_pane(s)
            == s.options.selected_pane,
{
}

/// Law: the go-to dialog shows the line whose number was typed, with white space around it or
/// not, and closes; anything that is no positive number shows no line. Opening the dialog and
/// confirming it at once shows the line at which the pane stands.
pub proof fn law_goto_shows_the_typed_line(s: PageView, line: nat)
    requires
        1 <= line <= s.backend.lines().len() <= usize::MAX,
        s.panes.len() > 0,
        text::trimmed(s.goto.draft) == text::decimal(line),
    ensures
        ({
            let t = log_tab::page_goto_finished(s, true, false, true);
            let q = t.panes[log_tab::active_pane(s)];
            &&& !t.goto.open
            &&& q.highlight_master == Some((line - 1) as usize)
            &&& q.scroll_to_master == Some((line - 1) as usize)
            &&& t.backend == s.backend
        }),
{
    text::law_decimal_reads_back(line, usize::MAX as nat);
}

/// Law: a go-to dialog that is dismissed or closed, or in which no number was typed, shows no
/// line; one that is left open stays.
pub proof fn law_goto_without_a_number_shows_nothing(
    s: PageView,
    go: bool,
    dismiss: bool,
    window_open: bool,
)
    ensures
        ({
            let t = log_tab::page_goto_finished(s, go, dismiss, window_open);
            &&& !go ==> t.panes == s.panes
            &&& text::number_of(text::trimmed(s.goto.draft), usize::MAX as nat) is None
                ==> t.panes == s.panes
            &&& go || dismiss || !window_open ==> !t.goto.open
            &&& !go && !dismiss && window_open ==> t == s
        }),
{
}

/// Law: a file that was loaded shows its lines, in place of whatever was shown, and is no longer
/// loading; its filters stay and are searched for anew, and positions in the old lines are
/// forgotten.
pub proof fn law_loaded_file_shows_its_lines(
    s: PageView,
    lines: Seq<Seq<char>>,
    scans: Seq<FilterScan>,
    i: int,
)
    requires
        0 <= i < s.panes.len(),
        lines.len() <= usize::MAX,
    ensures
        ({
            let t = log_tab::page_with_file(s, lines, scans);
            let q = t.panes[i];
            &&& t.backend is File && t.backend.lines() == lines
            &&& !t.loading
            &&& t.index_progress == lines.len()
            &&& t.title == s.title && t.filepath == s.filepath && t.view_id == s.view_id
            &&& q.filter_applied == s.panes[i].filter_applied
            &&& q.sel_anchor is None && q.highlight_master is None && q.find_current is None
            &&& s.panes[i].filter_applied.len() > 0 && !scans[i].no_needles && (i == 0
                || s.options.split_enabled) ==> q.filter_busy
            &&& s.panes[i].filter_applied.len() == 0 ==> !q.filter_busy && q.find_hits.len() == 0
        }),
{
    reveal(pane::after_rebuild);
}

/// Law: a file that was read again shows what was read, unless the text is being edited, when
/// nothing on screen changes; a failure is told. Without a reload under way nothing happens.
pub proof fn law_reload_shows_what_was_read(
    s: PageView,
    lines: Vec<String>,
    scans: Seq<FilterScan>,
)
    ensures
        ({
            let t = log_tab::page_after_reload(s, log_tab::ReloadPoll::Done(lines), scans);
            &&& s.reload_active && !s.edit.mode ==> t.backend.lines() == search::views(lines@)
                && !t.loading && !t.reload_active
            &&& s.reload_active && s.edit.mode ==> t.backend == s.backend && t.edit == s.edit
            &&& !s.reload_active ==> t == s
        }),
        forall|message: String|
            s.reload_active ==> (#[trigger] log_tab::page_after_reload(
                s,
                log_tab::ReloadPoll::Failed(message),
                scans,
            )).edit.status == message@,
{
}

/// Law: clearing the display of a live log drops its lines and nothing of its settings: the
/// filters stay, and so does the capacity.
pub proof fn law_clearing_keeps_filters(s: PageView, scans: Seq<FilterScan>, i: int)
    requires
        0 <= i < s.panes.len(),
    ensures
        ({
            let t = log_tab::page_cleared(s, scans);
            &&& s.backend is Live ==> t.backend is Live && t.backend.lines().len() == 0
                && t.backend->Live_capacity == s.backend->Live_capacity
            &&& !(s.backend is Live) ==> t.backend == s.backend
            &&& t.panes[i].filter_applied == s.panes[i].filter_applied
            &&& t.panes[i].filter_draft == s.panes[i].filter_draft
            &&& t.title == s.title && t.filepath == s.filepath
        }),
{
    reveal(pane::after_jump);
    reveal(pane::after_rebuild);
}

/// Law: a tab has at least one pane and at most sixteen; panes that stay keep what they show, and
/// new ones start empty.
pub proof fn law_panes_stay_when_their_number_changes(panes: Seq<pane::PaneView>, n: int)
    ensures
        ({
            let r = log_tab::resized_panes(panes, n);
            &&& 1 <= r.len() <= 16
            &&& 1 <= n <= 16 ==> r.len() == n
            &&& n > 16 ==> r.len() == 16
            &&& forall|i: int| 0 <= i < r.len() && i < panes.len() ==> #[trigger] r[i] == panes[i]
            &&& forall|i: int|
                panes.len() <= i < r.len() ==> (#[trigger] r[i]).filter_applied.len() == 0
                    && r[i].find_hits.len() == 0 && r[i].scroll_pinned
        }),
{
}

/// Law: asking for the next match of the selection makes the selected text the filter and, in
/// live lines, goes to the first match that starts behind the caret.
pub proof fn law_selection_is_found(s: PageView, idx: int, scan: FilterScan, caret: pane::TextCaret)
    requires
        0 <= idx < s.panes.len(),
        s.panes[idx].sel_anchor is Some,
        s.panes[idx].sel_focus == Some(caret),
        s.panes[idx].sel_anchor != s.panes[idx].sel_focus,
        s.panes[idx].last_selected_text.len() > 0,
        caret.row < s.backend.lines().len(),
        search::byte_offset(s.backend.lines()[caret.row as int], caret.col as int) < usize::MAX,
    ensures
        ({
            let q = log_tab::page_find_selection(s, idx, scan).panes[idx];
            let offset = search::byte_offset(
                s.backend.lines()[caret.row as int],
                caret.col as int,
            );
            &&& q.filter_applied == s.panes[idx].last_selected_text
            &&& q.filter_draft == s.panes[idx].last_selected_text
            &&& s.backend is Live && !scan.no_needles && (idx == 0 || s.options.split_enabled)
                && !s.panes[idx].filter_busy && 0 < q.find_hits.len() <= usize::MAX
                ==> pane_laws::is_first_from(
                q.find_hits,
                q.find_current,
                caret.row,
                (offset + 1) as usize,
            )
        }),
{
    let p = s.panes[idx];
    let found = log_tab::caret_place(s, p.sel_focus);
    let start = (found.1 + 1) as usize;
    let behind = PaneView {
        filter_draft: p.last_selected_text,
        find_jump: Some(FindJump::FirstAt { row: found.0, start }),
        ..p
    };
    let nothing = log_tab::nothing_to_find(
        s.options,
        idx,
        p.last_selected_text,
        scan.no_needles,
    );
    assert(log_tab::page_find_selection(s, idx, scan).panes[idx] == pane::after_apply(
        behind,
        s.backend.kind(),
        nothing,
        scan.hits@,
        scan.truncated,
    ));
    pane_laws::lemma_applied_filter_was_typed(
        behind,
        s.backend.kind(),
        nothing,
        scan.hits@,
        scan.truncated,
    );
    if !p.filter_busy {
        pane_laws::lemma_applied_filter_jumps(
            behind,
            scan.hits@,
            scan.truncated,
            caret.row,
            start,
        );
    }
}

/// Law: Find puts the selected text into the filter box and asks for the focus there. With a
/// jump the text is committed and, in live lines, the first match from the start of the
/// selection on is gone to; without one the filter in force stays.
pub proof fn law_find_takes_the_selection(
    s: PageView,
    idx: int,
    scan: FilterScan,
    caret: pane::TextCaret,
)
    requires
        0 <= idx < s.panes.len(),
        s.panes[idx].sel_anchor == Some(caret),
        s.panes[idx].sel_focus is Some,
        s.panes[idx].sel_anchor != s.panes[idx].sel_focus,
        s.panes[idx].last_selected_text.len() > 0,
        caret.row < s.backend.lines().len(),
        search::byte_offset(s.backend.lines()[caret.row as int], caret.col as int) <= usize::MAX,
    ensures
        ({
            let t = log_tab::page_find_focused(s, idx, true, scan).panes[idx];
            let u = log_tab::page_find_focused(s, idx, false, scan).panes[idx];
            let offset = search::byte_offset(
                s.backend.lines()[caret.row as int],
                caret.col as int,
            );
            &&& t.filter_applied == s.panes[idx].last_selected_text && t.focus_filter_requested
            &&& s.backend is Live && !scan.no_needles && (idx == 0 || s.options.split_enabled)
                && !s.panes[idx].filter_busy && 0 < t.find_hits.len() <= usize::MAX
                ==> pane_laws::is_first_from(
                t.find_hits,
                t.find_current,
                caret.row,
                offset as usize,
            )
            &&& u.filter_draft == s.panes[idx].last_selected_text && u.focus_filter_requested
            &&& u.filter_applied == s.panes[idx].filter_applied
        }),
{
    let p = s.panes[idx];
    let place = log_tab::caret_place(s, p.sel_anchor);
    let from = PaneView {
        find_jump: Some(FindJump::FirstAt { row: place.0, start: place.1 as usize }),
        ..pane::prefilled(p)
    };
    let nothing = log_tab::nothing_to_find(
        s.options,
        idx,
        p.last_selected_text,
        scan.no_needles,
    );
    assert(log_tab::page_find_focused(s, idx, true, scan).panes[idx] == pane::after_apply(
        from,
        s.backend.kind(),
        nothing,
        scan.hits@,
        scan.truncated,
    ));
    pane_laws::lemma_applied_filter_was_typed(
        from,
        s.backend.kind(),
        nothing,
        scan.hits@,
        scan.truncated,
    );
    if !p.filter_busy {
        pane_laws::lemma_applied_filter_jumps(
            from,
            scan.hits@,
            scan.truncated,
            caret.row,
            place.1 as usize,
        );
    }
}

/// Law: a typed filter is committed once it is due and not before.
pub proof fn law_filter_is_committed_when_due(s: PageView, i: int, now: u64, scan: FilterScan)
    requires
        0 <= i < s.panes.len(),
    ensures
        ({
            let q = log_tab::pane_debounced(s, i, now, scan);
            &&& s.panes[i].filter_apply_at is None ==> q == s.panes[i]
            &&& s.panes[i].filter_apply_at matches Some(at) ==> if now >= at {
                q.filter_applied == s.panes[i].filter_draft && q.filter_apply_at is None
            } else {
                q == s.panes[i]
            }
        }),
{
    pane_laws::lemma_applied_filter_was_typed(
        s.panes[i],
        s.backend.kind(),
        log_tab::nothing_to_find(
            s.options,
            i,
            s.panes[i].filter_draft,
            scan.no_needles,
        ),
        scan.hits@,
        scan.truncated,
    );
}

/// Law: lines are read ahead around the line at which a tab stands, within the file.
pub proof fn law_lines_are_read_ahead(anchor: usize, line_count: int)
    requires
        0 <= anchor < line_count <= usize::MAX,
    ensures
        ({
            let r = log_tab::prefetch_range(anchor, line_count);
            r.0 <= anchor < r.1 <= line_count
        }),
{
}

/// Law: a new tab shows nothing yet: one pane without a filter, not split, with the end of the
/// log followed and case not respected, neither edited nor being read again.
pub proof fn law_new_tab_is_plain(
    view_id: u64,
    live: bool,
    filepath: Option<Seq<char>>,
    title: Seq<char>,
    backend: log_tab::BackendView,
    loading: bool,
    match_limit: usize,
)
    ensures
        ({
            let s = log_tab::fresh_page(
                view_id,
                live,
                filepath,
                title,
                backend,
                loading,
                match_limit,
            );
            let p = s.panes[0];
            &&& s.view_id == view_id && s.live == live && s.filepath == filepath && s.title
                == title && s.backend == backend && s.loading == loading
            &&& s.panes.len() == 1
            &&& p.filter_applied.len() == 0 && p.filter_draft.len() == 0 && p.find_hits.len() == 0
                && p.search_map.len() == 0 && !p.show_search && p.find_current is None
                && p.sel_anchor is None && p.highlight_master is None && p.scroll_pinned
                && !p.filter_busy
            &&& !s.options.split_enabled && s.options.auto_scroll && !s.options.case_sensitive
                && !s.options.filter_dirty && s.options.match_limit == match_limit
            &&& !s.edit.mode && !s.edit.dirty && !s.reload_active && !s.goto.open
        }),
{
}

/// Law: a tab with unsaved edits is marked by a star behind its title, and no other is.
pub proof fn law_unsaved_tab_is_marked(s: PageView)
    ensures
        s.edit.dirty ==> log_tab::title_shown(s).len() == s.title.len() + 2
            && s.title.is_prefix_of(log_tab::title_shown(s)) && log_tab::title_shown(s).last()
            == '*',
        !s.edit.dirty ==> log_tab::title_shown(s) == s.title,
{
    reveal_strlit(" *");
}

/// Law: what a pane asked for is done once: no pane asks any more afterwards. The last pane that
/// asked to find its selection does so, and the dialog for a line opens where a pane asked.
pub proof fn law_requests_of_panes_are_done_once(
    s: PageView,
    scans: Seq<FilterScan>,
    i: int,
)
    requires
        0 <= i < s.panes.len(),
    ensures
        ({
            let t = log_tab::page_requests_taken(s);
            &&& t.panes.len() == s.panes.len() && t.backend == s.backend
            &&& !t.panes[i].request_find && !t.panes[i].request_goto
            &&& t.panes[i].filter_draft == s.panes[i].filter_draft && t.panes[i].find_hits
                == s.panes[i].find_hits && t.panes[i].sel_anchor == s.panes[i].sel_anchor
        }),
        s.panes[i].request_find && (forall|k: int|
            i < k < s.panes.len() ==> !(#[trigger] s.panes[k]).request_find)
            ==> log_tab::page_after_find_request(s, scans) == log_tab::page_find_focused(
            log_tab::page_requests_taken(s),
            i,
            true,
            scans[i],
        ),
        (forall|k: int| 0 <= k < s.panes.len() ==> !(#[trigger] s.panes[k]).request_find)
            ==> log_tab::page_after_find_request(s, scans) == log_tab::page_requests_taken(s),
        s.panes[i].request_goto ==> log_tab::page_after_requests(s, scans).goto.open,
        (forall|k: int| 0 <= k < s.panes.len() ==> !(#[trigger] s.panes[k]).request_goto)
            ==> log_tab::page_after_requests(s, scans) == log_tab::page_after_find_request(
            s,
            scans,
        ),
{
    lemma_last_find_request(s.panes, i, s.panes.len() as int);
}

proof fn lemma_last_find_request(panes: Seq<PaneView>, i: int, n: int)
    requires
        0 <= n <= panes.len(),
    ensures
        0 <= i < n && panes[i].request_find && (forall|k: int|
            i < k < n ==> !(#[trigger] panes[k]).request_find) ==> log_tab::last_find_request(
            panes,
            n,
        ) == Some(i),
        (forall|k: int| 0 <= k < n ==> !(#[trigger] panes[k]).request_find)
            ==> log_tab::last_find_request(panes, n) is None,
    decreases n,
{
    if n > 0 && !panes[n - 1].request_find {
        lemma_last_find_request(panes, i, n - 1);
    }
}

/// Law: what background searches have to say reaches the panes that they search for, each its
/// own; the log itself stays.
pub proof fn law_searches_report_to_their_panes(s: PageView, polls: Seq<pane::ScanPoll>, i: int)
    requires
        0 <= i < s.panes.len(),
    ensures
        log_tab::page_after_polls(s, polls).panes.len() == s.panes.len(),
        log_tab::page_after_polls(s, polls).panes[i] == pane::after_poll(s.panes[i], polls[i]),
        log_tab::page_after_polls(s, polls).backend == s.backend,
        log_tab::page_after_polls(s, polls).options == s.options,
{
}

/// Law: lines are read ahead from where the first pane goes to, or else from its marked line, or
/// else from where it was seen last; and a pane is spoken of by the line of its caret, its marked
/// line, or the one seen last.
pub proof fn law_place_of_a_tab(s: PageView, p: PaneView)
    ensures
        s.panes.len() > 0 ==> log_tab::page_anchor(s) == pane::pane_anchor_row(s.panes[0]),
        s.panes.len() == 0 ==> log_tab::page_anchor(s) == 0,
        p.scroll_to_master is Some ==> pane::pane_anchor_row(p) == p.scroll_to_master->0,
        p.scroll_to_master is None && p.highlight_master is Some ==> pane::pane_anchor_row(p)
            == p.highlight_master->0,
        p.scroll_to_master is None && p.highlight_master is None && p.last_view_row is Some
            ==> pane::pane_anchor_row(p) == p.last_view_row->0,
        p.scroll_to_master is None && p.highlight_master is None && p.last_view_row is None
            ==> pane::pane_anchor_row(p) == 0,
        p.sel_focus is Some ==> pane::pane_focus_row(p) == p.sel_focus->0.row,
        p.sel_focus is None && p.highlight_master is Some ==> pane::pane_focus_row(p)
            == p.highlight_master->0,
        p.sel_focus is None && p.highlight_master is None && p.last_view_row is Some
            ==> pane::pane_focus_row(p) == p.last_view_row->0,
        p.sel_focus is None && p.highlight_master is None && p.last_view_row is None
            ==> pane::pane_focus_row(p) == 0,
{
}

/// Law: panes that are searched anew show in live lines what a search finds for the filter in
/// force; the place among the matches is kept only for a jump that waits. Typed filters are not
/// committed by it.
pub proof fn law_refreshed_panes_show_what_is_found(
    s: PageView,
    scans: Seq<FilterScan>,
    i: int,
)
    requires
        0 <= i < s.panes.len(),
    ensures
        ({
            let t = log_tab::page_refreshed(s, scans);
            let q = t.panes[i];
            let searched = s.panes[i].filter_applied.len() > 0 && !scans[i].no_needles && (i == 0
                || s.options.split_enabled);
            &&& t.panes.len() == s.panes.len() && t.backend == s.backend && t.options == s.options
            &&& q.filter_applied == s.panes[i].filter_applied && q.filter_draft
                == s.panes[i].filter_draft
            &&& searched && s.backend is Live ==> q.find_hits == scans[i].hits@ && q.find_truncated
                == scans[i].truncated && !q.filter_busy
            &&& searched && s.backend is File ==> q.filter_busy && q.find_hits.len() == 0
            &&& !searched ==> q.find_hits.len() == 0 && q.search_map.len() == 0 && !q.filter_busy
            &&& searched && s.backend is Live && s.panes[i].find_jump is None ==> q.find_current
                is None
        }),
{
    reveal(pane::after_rebuild);
    reveal(pane::after_jump);
}

/// Law: a new tab would split into two panes, selects its first pane, respects no case and keeps
/// nothing edited, found or replaced.
pub proof fn law_new_tab_has_usual_options(match_limit: usize)
    ensures
        ({
            let o = log_tab::fresh_options(match_limit);
            let e = log_tab::fresh_edit();
            &&& o.pane_count == 2 && o.selected_pane == 0 && !o.same_page && !o.split_enabled
                && !o.case_sensitive && o.auto_scroll && !o.filter_dirty && o.match_limit
                == match_limit
            &&& !e.mode && !e.dirty && e.status.len() == 0 && e.find.len() == 0 && e.replace.len()
                == 0 && !e.show_find && !e.exit_confirm_open && e.session.lines.len() == 0
        }),
{
}

} // verus!
