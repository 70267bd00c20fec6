//! What holds of panes across operations.
use vstd::prelude::*;

use crate::pane::{FindJump, ScanPoll, TextHit};
use crate::pane::{
    after_append, after_apply, after_front_eviction, after_jump, after_poll, after_rebuild,
    after_frame, after_result_click, after_typing, find_count_of, frame_plan, hit_on_row, is_due,
    parses, prefilled, row_position, search_visible, shown_at, FilterScanResult, FindCount,
    committed, first_hit_from, hit_at_or_after, kept_hits, kept_rows,
    leading_evicted, match_rows, moved_hit, BackendKind, PaneView, SCROLL_HOLD_FRAMES,
};
use crate::text;

verus! {

/// Hits in the order of their lines.
pub open spec fn in_line_order(hits: Seq<TextHit>) -> bool {
    forall|i: int, j: int| 0 <= i <= j < hits.len() ==> (#[trigger] hits[i]).row <= (
    #[trigger] hits[j]).row
}

/// Rows in strictly rising order.
pub open spec fn strictly_rising(rows: Seq<usize>) -> bool {
    forall|i: int, j: int| 0 <= i < j < rows.len() ==> (#[trigger] rows[i]) < (#[trigger] rows[j])
}

/// A pane that stands on match `i`.
pub open spec fn standing_on(p: PaneView, i: int) -> bool {
    0 <= i < p.find_hits.len() && p.find_hits.len() <= usize::MAX && p.find_current == Some(
        i as usize,
    )
}

/// The pane after a jump was queued and carried out.
pub open spec fn jumped(p: PaneView, jump: FindJump) -> PaneView {
    after_jump(PaneView { find_jump: Some(jump), ..p })
}

/// Law: going to the next match and back to the previous one ends on the same match, wherever
/// the pane stands.
pub proof fn law_prev_undoes_next(p: PaneView, i: int)
    requires
        standing_on(p, i),
    ensures
        standing_on(jumped(jumped(p, FindJump::Next), FindJump::Prev), i),
{
    lemma_step_lands(p, i);
    let k = if i + 1 < p.find_hits.len() {
        i + 1
    } else {
        0
    };
    let q = jumped(p, FindJump::Next);
    assert(standing_on(q, k));
    lemma_step_lands(q, k);
}

/// Where a step from match `i` ends.
proof fn lemma_step_lands(p: PaneView, i: int)
    requires
        standing_on(p, i),
    ensures
        ({
            let n = p.find_hits.len() as int;
            let next = jumped(p, FindJump::Next);
            let prev = jumped(p, FindJump::Prev);
            &&& next.find_hits == p.find_hits && prev.find_hits == p.find_hits
            &&& standing_on(
                next,
                if i + 1 < n {
                    i + 1
                } else {
                    0
                },
            )
            &&& standing_on(
                prev,
                if i > 0 {
                    i - 1
                } else {
                    n - 1
                },
            )
        }),
{
    reveal(after_jump);
}

/// Law: going to the previous match and on to the next one ends on the same match.
pub proof fn law_next_undoes_prev(p: PaneView, i: int)
    requires
        standing_on(p, i),
    ensures
        standing_on(jumped(jumped(p, FindJump::Prev), FindJump::Next), i),
{
    lemma_step_lands(p, i);
    let k = if i == 0 {
        p.find_hits.len() - 1
    } else {
        i - 1
    };
    let q = jumped(p, FindJump::Prev);
    assert(standing_on(q, k));
    lemma_step_lands(q, k);
}

/// Law: the next match of match `i` is match `i + 1`, and the first one after the last; the
/// line of that match is brought into view, held there and marked.
pub proof fn law_next_wraps(p: PaneView, i: int)
    requires
        standing_on(p, i),
    ensures
        ({
            let q = jumped(p, FindJump::Next);
            let k = (i + 1) % (p.find_hits.len() as int);
            &&& standing_on(q, k)
            &&& q.find_hits == p.find_hits
            &&& q.scroll_to_master == Some(p.find_hits[k].row)
            &&& q.highlight_master == Some(p.find_hits[k].row)
            &&& q.scroll_hold_frames == SCROLL_HOLD_FRAMES
            &&& !q.scroll_pinned
            &&& q.find_jump is None
        }),
{
    reveal(after_jump);
    let n = p.find_hits.len() as int;
    if i + 1 == n {
        assert((i + 1) % n == 0) by (nonlinear_arith)
            requires
                i + 1 == n,
                n > 0,
        ;
    } else {
        assert((i + 1) % n == i + 1) by (nonlinear_arith)
            requires
                0 <= i + 1 < n,
        ;
    }
}

proof fn lemma_first_hit_from(hits: Seq<TextHit>, row: usize, start: usize, i: int)
    requires
        0 <= i <= hits.len(),
        forall|k: int| 0 <= k < i ==> !hit_at_or_after(#[trigger] hits[k], row, start),
        exists|k: int| 0 <= k < hits.len() && hit_at_or_after(#[trigger] hits[k], row, start),
    ensures
        ({
            let f = first_hit_from(hits, row, start, i);
            &&& 0 <= f < hits.len()
            &&& hit_at_or_after(hits[f], row, start)
            &&& forall|k: int| 0 <= k < f ==> !hit_at_or_after(#[trigger] hits[k], row, start)
        }),
    decreases hits.len() - i,
{
    if i < hits.len() && !hit_at_or_after(hits[i], row, start) {
        lemma_first_hit_from(hits, row, start, i + 1);
    }
}

/// Law: a jump to a place ends on the first match at or after it.
pub proof fn law_jump_to_place(p: PaneView, row: usize, start: usize)
    requires
        p.find_hits.len() <= usize::MAX,
        exists|k: int|
            0 <= k < p.find_hits.len() && hit_at_or_after(#[trigger] p.find_hits[k], row, start),
    ensures
        exists|f: int|
            {
                &&& standing_on(jumped(p, FindJump::FirstAt { row, start }), f)
                &&& hit_at_or_after(p.find_hits[f], row, start)
                &&& forall|k: int|
                    0 <= k < f ==> !hit_at_or_after(#[trigger] p.find_hits[k], row, start)
            },
{
    reveal(after_jump);
    lemma_first_hit_from(p.find_hits, row, start, 0);
    let f = first_hit_from(p.find_hits, row, start, 0);
    assert(standing_on(jumped(p, FindJump::FirstAt { row, start }), f));
}

// ---------------------------------------------------------------------------
// Eviction
// ---------------------------------------------------------------------------

proof fn lemma_leading_evicted(hits: Seq<TextHit>, evicted: usize, i: int)
    requires
        in_line_order(hits),
        0 <= i <= hits.len(),
        forall|k: int| 0 <= k < i ==> (#[trigger] hits[k]).row < evicted,
    ensures
        ({
            let d = leading_evicted(hits, evicted, i);
            &&& i <= d <= hits.len()
            &&& forall|k: int| 0 <= k < d ==> (#[trigger] hits[k]).row < evicted
            &&& forall|k: int| d <= k < hits.len() ==> (#[trigger] hits[k]).row >= evicted
        }),
    decreases hits.len() - i,
{
    if i < hits.len() && hits[i].row < evicted {
        lemma_leading_evicted(hits, evicted, i + 1);
    }
}

proof fn lemma_kept_hits(hits: Seq<TextHit>, evicted: usize, d: int)
    requires
        0 <= d <= hits.len(),
        forall|k: int| 0 <= k < d ==> (#[trigger] hits[k]).row < evicted,
        forall|k: int| d <= k < hits.len() ==> (#[trigger] hits[k]).row >= evicted,
    ensures
        kept_hits(hits, evicted).len() == hits.len() - d,
        forall|k: int|
            0 <= k < hits.len() - d ==> #[trigger] kept_hits(hits, evicted)[k] == moved_hit(
                hits[k + d],
                evicted,
            ),
    decreases hits.len(),
{
    if hits.len() > 0 {
        let front = hits.drop_last();
        if d == hits.len() {
            lemma_kept_hits(front, evicted, d - 1);
        } else {
            lemma_kept_hits(front, evicted, d);
        }
    }
}

/// Law: after lines leave at the front, the remaining hits are the old ones, moved up, in the
/// old order.
pub proof fn law_eviction_keeps_hits(p: PaneView, evicted: usize)
    requires
        in_line_order(p.find_hits),
    ensures
        exists|d: int|
            {
                let q = #[trigger] dropped_hits(p, evicted, d);
                &&& 0 <= d <= p.find_hits.len()
                &&& forall|k: int| 0 <= k < d ==> (#[trigger] p.find_hits[k]).row < evicted
                &&& q.len() == p.find_hits.len() - d
                &&& forall|k: int|
                    0 <= k < q.len() ==> #[trigger] q[k] == moved_hit(p.find_hits[k + d], evicted)
            },
{
    if evicted == 0 {
        let q = dropped_hits(p, evicted, 0);
        assert forall|k: int| 0 <= k < q.len() implies #[trigger] q[k] == moved_hit(
            p.find_hits[k + 0],
            evicted,
        ) by {};
    } else {
        lemma_leading_evicted(p.find_hits, evicted, 0);
        let d = leading_evicted(p.find_hits, evicted, 0);
        lemma_kept_hits(p.find_hits, evicted, d);
        let q = dropped_hits(p, evicted, d);
        assert(q == kept_hits(p.find_hits, evicted));
    }
}

/// The hits of a pane after `evicted` lines left; `d` names how many hits went with them.
pub open spec fn dropped_hits(p: PaneView, evicted: usize, d: int) -> Seq<TextHit> {
    after_front_eviction(p, evicted).find_hits
}

/// Law: the current match stays the current match when lines leave at the front, as long as
/// its own line stays.
pub proof fn law_eviction_keeps_current_match(p: PaneView, i: int, evicted: usize)
    requires
        in_line_order(p.find_hits),
        standing_on(p, i),
        p.find_hits[i].row >= evicted,
    ensures
        ({
            let q = after_front_eviction(p, evicted);
            &&& q.find_current is Some
            &&& q.find_current->0 < q.find_hits.len()
            &&& q.find_hits[q.find_current->0 as int] == moved_hit(p.find_hits[i], evicted)
        }),
{
    if evicted > 0 {
        lemma_leading_evicted(p.find_hits, evicted, 0);
        let d = leading_evicted(p.find_hits, evicted, 0);
        lemma_kept_hits(p.find_hits, evicted, d);
        assert(i >= d);
        assert(kept_hits(p.find_hits, evicted)[i - d] == moved_hit(p.find_hits[i], evicted));
    }
}

proof fn lemma_kept_rows_is_match_rows(hits: Seq<TextHit>, evicted: usize)
    ensures
        in_line_order(hits) ==> kept_rows(match_rows(hits), evicted) == match_rows(
            kept_hits(hits, evicted),
        ),
        in_line_order(hits) ==> (kept_hits(hits, evicted).len() > 0 ==> kept_hits(
            hits,
            evicted,
        ).last().row + evicted <= hits.last().row),
    decreases hits.len(),
{
    if hits.len() > 0 && in_line_order(hits) {
        let front = hits.drop_last();
        assert(in_line_order(front)) by {
            assert forall|i: int, j: int| 0 <= i <= j < front.len() implies (
            #[trigger] front[i]).row <= (#[trigger] front[j]).row by {
                assert(front[i] == hits[i] && front[j] == hits[j]);
            }
        }
        lemma_kept_rows_is_match_rows(front, evicted);
        law_match_rows(front);
        let rows = match_rows(front);
        let kept = kept_hits(front, evicted);
        law_match_rows_last(front);
        law_match_rows_last(kept);
        let row = hits.last().row;
        if front.len() > 0 {
            assert(front.last() == hits[hits.len() - 2]);
            assert(front.last().row <= row);
        }
        if rows.len() > 0 && rows.last() == row {
            if row >= evicted {
                let all = kept_hits(hits, evicted);
                assert(all == kept.push(moved_hit(hits.last(), evicted)));
                assert(all.drop_last() =~= kept);
                assert(all.last() == moved_hit(hits.last(), evicted));
                assert(front.len() > 0);
                lemma_kept_rows_last(rows, evicted);
                lemma_kept_last(front, evicted);
            }
        } else {
            assert(match_rows(hits) == rows.push(row));
            assert(rows.push(row).drop_last() =~= rows);
            assert(rows.push(row).last() == row);
            if row >= evicted {
                let all = kept_hits(hits, evicted);
                assert(all == kept.push(moved_hit(hits.last(), evicted)));
                assert(all.drop_last() =~= kept);
                assert(all.last() == moved_hit(hits.last(), evicted));
                if kept.len() > 0 {
                    assert(front.len() > 0);
                    assert(kept.last().row + evicted <= front.last().row);
                    assert(rows.last() == front.last().row);
                    assert(front.last().row < row);
                }
            }
        }
    }
}

proof fn lemma_kept_rows_last(rows: Seq<usize>, evicted: usize)
    requires
        rows.len() > 0,
        rows.last() >= evicted,
    ensures
        kept_rows(rows, evicted).len() > 0,
        kept_rows(rows, evicted).last() == rows.last() - evicted,
{
}

proof fn lemma_kept_last(hits: Seq<TextHit>, evicted: usize)
    requires
        hits.len() > 0,
        hits.last().row >= evicted,
    ensures
        kept_hits(hits, evicted).len() > 0,
        kept_hits(hits, evicted).last() == moved_hit(hits.last(), evicted),
{
}

/// Law: the list of lines with a match follows an eviction exactly as the matches do.
pub proof fn law_eviction_keeps_result_list(p: PaneView, evicted: usize)
    requires
        in_line_order(p.find_hits),
        p.search_map == match_rows(p.find_hits),
    ensures
        after_front_eviction(p, evicted).search_map == match_rows(
            after_front_eviction(p, evicted).find_hits,
        ),
{
    lemma_kept_rows_is_match_rows(p.find_hits, evicted);
}

// ---------------------------------------------------------------------------
// The result list
// ---------------------------------------------------------------------------

/// The last line in the list is the line of the last hit.
proof fn law_match_rows_last(hits: Seq<TextHit>)
    ensures
        match_rows(hits).len() == 0 <==> hits.len() == 0,
        hits.len() > 0 ==> match_rows(hits).last() == hits.last().row,
    decreases hits.len(),
{
    if hits.len() > 0 {
        law_match_rows_last(hits.drop_last());
    }
}

/// Law: the result list names each line with a match once, in order, and no other line.
pub proof fn law_match_rows(hits: Seq<TextHit>)
    ensures
        in_line_order(hits) ==> strictly_rising(match_rows(hits)),
        forall|i: int| 0 <= i < hits.len() ==> match_rows(hits).contains((#[trigger] hits[i]).row),
        forall|k: int|
            0 <= k < match_rows(hits).len() ==> exists|i: int|
                0 <= i < hits.len() && (#[trigger] hits[i]).row == #[trigger] match_rows(hits)[k],
    decreases hits.len(),
{
    if hits.len() > 0 {
        let front = hits.drop_last();
        let rows = match_rows(front);
        let all = match_rows(hits);
        law_match_rows(front);
        law_match_rows_last(front);
        law_match_rows_last(hits);
        assert(all == rows || all == rows.push(hits.last().row));
        assert forall|i: int| 0 <= i < hits.len() implies all.contains(
            (#[trigger] hits[i]).row,
        ) by {
            if i < front.len() {
                assert(rows.contains(front[i].row));
                let k = choose|k: int| 0 <= k < rows.len() && rows[k] == front[i].row;
                assert(all[k] == hits[i].row);
            } else {
                assert(all[all.len() - 1] == hits[i].row);
            }
        }
        assert forall|k: int| 0 <= k < all.len() implies exists|i: int|
            0 <= i < hits.len() && (#[trigger] hits[i]).row == #[trigger] all[k] by {
            if k < rows.len() {
                assert(rows[k] == all[k]);
                let i = choose|i: int| 0 <= i < front.len() && (#[trigger] front[i]).row == rows[k];
                assert(hits[i].row == all[k]);
            } else {
                assert(hits[hits.len() - 1].row == all[k]);
            }
        }
        if in_line_order(hits) {
            assert(in_line_order(front)) by {
                assert forall|i: int, j: int| 0 <= i <= j < front.len() implies (
                #[trigger] front[i]).row <= (#[trigger] front[j]).row by {
                    assert(front[i] == hits[i] && front[j] == hits[j]);
                }
            }
            assert forall|i: int, j: int| 0 <= i < j < all.len() implies (#[trigger] all[i]) < (
            #[trigger] all[j]) by {
                if j < rows.len() {
                    assert(rows[i] < rows[j]);
                } else {
                    assert(rows.len() > 0);
                    assert(rows[rows.len() - 1] == front.last().row);
                    assert(front.last() == hits[hits.len() - 2]);
                    assert(hits[hits.len() - 2].row <= hits[hits.len() - 1].row);
                    assert(i < rows.len() - 1 ==> rows[i] < rows[rows.len() - 1]);
                }
            }
        }
    }
}

// ---------------------------------------------------------------------------
// Filters
// ---------------------------------------------------------------------------

/// Law: the result of a search for an older filter changes neither the matches nor the list.
pub proof fn law_stale_scan_is_discarded(p: PaneView, poll: ScanPoll)
    requires
        poll matches ScanPoll::Ready(r) && r.generation != p.filter_generation,
    ensures
        after_poll(p, poll) == (PaneView {
            scan_attached: false,
            filter_busy: if p.scan_attached {
                false
            } else {
                p.filter_busy
            },
            ..p
        }),
{
}

/// Law: a closed result list stays closed while filters are applied, searches end and lines
/// are appended or leave.
pub proof fn law_closed_list_stays_closed(
    p: PaneView,
    kind: BackendKind,
    no_needles: bool,
    hits: Seq<TextHit>,
    truncated: bool,
    poll: ScanPoll,
    row: usize,
    limit: int,
    evicted: usize,
)
    requires
        !p.show_search,
    ensures
        !after_apply(p, kind, no_needles, hits, truncated).show_search,
        !after_rebuild(p, kind, no_needles, hits, truncated).show_search,
        !after_poll(p, poll).show_search,
        !after_append(p, no_needles, hits, row, limit).show_search,
        !after_front_eviction(p, evicted).show_search,
{
    reveal(after_jump);
    reveal(after_rebuild);
    reveal(committed);
}

/// Law: committing an unchanged filter without a pending jump only clears its due time.
pub proof fn law_unchanged_filter_keeps_place(
    p: PaneView,
    kind: BackendKind,
    no_needles: bool,
    hits: Seq<TextHit>,
    truncated: bool,
)
    requires
        p.filter_draft == p.filter_applied,
        p.find_jump is None,
    ensures
        after_apply(p, kind, no_needles, hits, truncated) == (PaneView {
            filter_apply_at: None,
            ..p
        }),
{
    reveal(after_jump);
}

/// Law: a changed filter starts without a current match unless a place was asked for.
pub proof fn law_changed_filter_forgets_place(
    p: PaneView,
    kind: BackendKind,
    hits: Seq<TextHit>,
    truncated: bool,
)
    requires
        p.filter_draft != p.filter_applied,
        p.find_jump is None,
    ensures
        after_apply(p, kind, false, hits, truncated).find_current is None,
        kind == BackendKind::Live ==> after_apply(p, kind, false, hits, truncated).find_hits
            == hits,
        after_apply(p, kind, false, hits, truncated).filter_applied == p.filter_draft,
{
    reveal(after_jump);
    reveal(after_rebuild);
    reveal(committed);
}

/// Law: a pane never holds more hits than the limit by appending, and none of its old hits is
/// lost.
pub proof fn law_append_respects_limit(
    p: PaneView,
    fresh: Seq<TextHit>,
    first_row: usize,
    limit: int,
)
    requires
        p.find_hits.len() <= limit,
    ensures
        ({
            let q = after_append(p, false, fresh, first_row, limit);
            &&& q.find_hits.len() <= limit
            &&& p.find_hits.len() <= q.find_hits.len()
            &&& q.find_hits.take(p.find_hits.len() as int) == p.find_hits
            &&& p.find_truncated ==> q.find_truncated
        }),
{
    lemma_run_on_row(fresh, first_row, 0);
    let q = after_append(p, false, fresh, first_row, limit);
    assert(q.find_hits.take(p.find_hits.len() as int) =~= p.find_hits);
}

pub proof fn lemma_run_on_row(hits: Seq<TextHit>, row: usize, i: int)
    requires
        0 <= i <= hits.len(),
    ensures
        i <= crate::pane::run_on_row(hits, row, i) <= hits.len(),
    decreases hits.len() - i,
{
    if i < hits.len() && hits[i].row == row {
        lemma_run_on_row(hits, row, i + 1);
    }
}

/// Law: after an entry of the result list is clicked, the marked line and the line scrolled to
/// are the one which that entry stands for, it is held in view, and the current match is the
/// first one on that line; only where no match lies on it is none current. The matches and the
/// list stay, and a click below the list does nothing.
pub proof fn law_result_click_goes_to_its_line(p: PaneView, search_row: usize)
    requires
        p.find_hits.len() <= usize::MAX,
    ensures
        ({
            let t = after_result_click(p, search_row);
            if search_row < p.search_map.len() {
                let row = p.search_map[search_row as int];
                &&& t.highlight_master == Some(row)
                &&& t.scroll_to_master == Some(row)
                &&& t.scroll_hold_frames > 0
                &&& !t.scroll_pinned
                &&& t.parse_row is None
                &&& match t.find_current {
                    Some(i) => i < p.find_hits.len() && p.find_hits[i as int].row == row && forall|
                        k: int,
                    | 0 <= k < i ==> (#[trigger] p.find_hits[k]).row != row,
                    None => forall|k: int|
                        0 <= k < p.find_hits.len() ==> (#[trigger] p.find_hits[k]).row != row,
                }
                &&& t.find_hits == p.find_hits
                &&& t.search_map == p.search_map
                &&& t.filter_applied == p.filter_applied
                &&& t.show_search == p.show_search
            } else {
                t == p
            }
        }),
{
    if search_row < p.search_map.len() {
        lemma_hit_on_row(p.find_hits, p.search_map[search_row as int], 0);
    }
}

proof fn lemma_hit_on_row(hits: Seq<TextHit>, row: usize, i: int)
    requires
        0 <= i <= hits.len() <= usize::MAX,
        forall|k: int| 0 <= k < i ==> (#[trigger] hits[k]).row != row,
    ensures
        match hit_on_row(hits, row, i) {
            Some(f) => f < hits.len() && hits[f as int].row == row && forall|k: int|
                0 <= k < f ==> (#[trigger] hits[k]).row != row,
            None => forall|k: int| 0 <= k < hits.len() ==> (#[trigger] hits[k]).row != row,
        },
    decreases hits.len() - i,
{
    if i < hits.len() && hits[i].row != row {
        lemma_hit_on_row(hits, row, i + 1);
    }
}

/// Law: where the list holds the rows of the matches, every entry that can be clicked leads to
/// a line that holds a match, that match becomes current, and the clicked entry is the one that
/// stands for the marked line.
pub proof fn law_result_click_makes_a_match_current(p: PaneView, search_row: usize)
    requires
        p.find_hits.len() <= usize::MAX,
        p.search_map == match_rows(p.find_hits),
        in_line_order(p.find_hits),
        search_row < p.search_map.len(),
    ensures
        ({
            let t = after_result_click(p, search_row);
            &&& t.find_current matches Some(i) && i < p.find_hits.len()
                && t.highlight_master == Some(p.find_hits[i as int].row)
            &&& t.highlight_master matches Some(row) && row_position(t.search_map, row, 0)
                == Some(search_row as int)
        }),
{
    let row = p.search_map[search_row as int];
    law_result_click_goes_to_its_line(p, search_row);
    law_match_rows(p.find_hits);
    assert(p.search_map.contains(row));
    lemma_row_position(p.search_map, row, 0, search_row as int);
}

proof fn lemma_row_position(rows: Seq<usize>, row: usize, i: int, k: int)
    requires
        0 <= i <= k < rows.len(),
        rows[k] == row,
        forall|j: int| i <= j < k ==> #[trigger] rows[j] != row,
    ensures
        row_position(rows, row, i) == Some(k),
    decreases k - i,
{
    if i < k {
        lemma_row_position(rows, row, i + 1, k);
    }
}

/// Law: a jump to a place ends on a match at or behind that place, compared by line and then by
/// where it starts, and every match before it starts before the place; where no match follows,
/// the jump wraps to the first one.
pub proof fn law_jump_compares_lines_before_columns(p: PaneView, row: usize, start: usize)
    requires
        0 < p.find_hits.len() <= usize::MAX,
    ensures
        ({
            let q = jumped(p, FindJump::FirstAt { row, start });
            let h = p.find_hits;
            &&& q.find_hits == h
            &&& q.find_current matches Some(f) && f < h.len() && q.highlight_master == Some(
                h[f as int].row,
            ) && (forall|k: int|
                0 <= k < f ==> (#[trigger] h[k]).row < row || (h[k].row == row && h[k].start
                    < start)) && (f > 0 ==> h[f as int].row > row || (h[f as int].row == row
                && h[f as int].start >= start))
        }),
{
    reveal(after_jump);
    lemma_first_hit_is(p.find_hits, row, start, 0);
}

proof fn lemma_first_hit_is(h: Seq<TextHit>, row: usize, start: usize, i: int)
    requires
        0 <= i <= h.len(),
        h.len() > 0,
        forall|k: int|
            0 <= k < i ==> (#[trigger] h[k]).row < row || (h[k].row == row && h[k].start < start),
    ensures
        ({
            let f = first_hit_from(h, row, start, i);
            &&& 0 <= f < h.len()
            &&& forall|k: int|
                0 <= k < f ==> (#[trigger] h[k]).row < row || (h[k].row == row && h[k].start
                    < start)
            &&& f > 0 ==> h[f].row > row || (h[f].row == row && h[f].start >= start)
        }),
    decreases h.len() - i,
{
    if i < h.len() && (h[i].row < row || (h[i].row == row && h[i].start < start)) {
        lemma_first_hit_is(h, row, start, i + 1);
    }
}

/// Law: without a match a jump ends nowhere and is used up.
pub proof fn law_jump_without_matches(p: PaneView, jump: FindJump)
    requires
        p.find_hits.len() == 0,
    ensures
        jumped(p, jump).find_current is None,
        jumped(p, jump).find_jump is None,
        jumped(p, jump).highlight_master == p.highlight_master,
        jumped(p, jump).scroll_to_master == p.scroll_to_master,
{
    reveal(after_jump);
}

/// Law: a filter that was typed and committed is applied. Live lines then show at once what was
/// found, and the result list names the lines of those matches; a file is searched in the
/// background, with no matches until then; a filter that looks for nothing has no matches and
/// closes the list. A search that was begun for the old filter is out of date.
pub proof fn law_committed_filter_is_searched(
    p: PaneView,
    kind: BackendKind,
    no_needles: bool,
    hits: Seq<TextHit>,
    truncated: bool,
)
    requires
        p.filter_draft != p.filter_applied,
    ensures
        ({
            let t = after_apply(p, kind, no_needles, hits, truncated);
            &&& t.filter_applied == p.filter_draft
            &&& t.filter_draft == p.filter_draft
            &&& t.filter_apply_at is None
            &&& t.filter_generation != p.filter_generation
            &&& no_needles ==> t.find_hits.len() == 0 && t.search_map.len() == 0
                && t.find_current is None && !t.show_search && !t.filter_busy && !t.scan_attached
            &&& !no_needles && kind is Live ==> t.find_hits == hits && t.find_truncated
                == truncated && t.search_map == match_rows(hits) && !t.filter_busy
            &&& !no_needles && kind is File ==> t.find_hits.len() == 0 && t.search_map.len() == 0
                && t.filter_busy && t.scan_attached
            &&& !no_needles && kind is Pending ==> t.find_hits.len() == 0 && !t.filter_busy
            &&& !no_needles ==> t.show_search == p.show_search
        }),
{
    reveal(after_jump);
    reveal(after_rebuild);
    reveal(committed);
}

/// A pane whose filter was committed holds the filter that was typed, and nothing is due in it.
pub proof fn lemma_applied_filter_was_typed(
    p: PaneView,
    kind: BackendKind,
    no_needles: bool,
    hits: Seq<TextHit>,
    truncated: bool,
)
    ensures
        ({
            let t = after_apply(p, kind, no_needles, hits, truncated);
            &&& t.filter_applied == p.filter_draft
            &&& t.filter_draft == p.filter_draft
            &&& t.filter_apply_at is None
            &&& t.focus_filter_requested == p.focus_filter_requested
        }),
{
    let q = PaneView { filter_apply_at: None, ..p };
    if p.filter_applied == p.filter_draft {
        lemma_jump_keeps_the_search(q);
    } else {
        reveal(after_rebuild);
        reveal(committed);
        let c = committed(q);
        lemma_jump_keeps_the_search(
            crate::pane::with_matches(
                PaneView {
                    filter_generation: c.filter_generation.wrapping_add(1),
                    scan_attached: false,
                    filter_busy: false,
                    ..c
                },
                hits,
                truncated,
            ),
        );
    }
}

/// Whether `found` is the first of the hits from a place on, or the first of all where none
/// lies there.
pub open spec fn is_first_from(
    hits: Seq<TextHit>,
    found: Option<usize>,
    row: usize,
    start: usize,
) -> bool {
    &&& found matches Some(f) && f < hits.len()
    &&& forall|k: int|
        0 <= k < found->0 ==> (#[trigger] hits[k]).row < row || (hits[k].row == row
            && hits[k].start < start)
    &&& found->0 > 0 ==> hits[found->0 as int].row > row || (hits[found->0 as int].row == row
        && hits[found->0 as int].start >= start)
}

/// A filter committed in live lines with a jump to a place ends on the first match from there
/// on.
pub proof fn lemma_applied_filter_jumps(
    p: PaneView,
    hits: Seq<TextHit>,
    truncated: bool,
    row: usize,
    start: usize,
)
    requires
        p.find_jump == Some(FindJump::FirstAt { row, start }),
        !p.filter_busy,
    ensures
        ({
            let t = after_apply(p, BackendKind::Live, false, hits, truncated);
            &&& t.find_hits == if p.filter_applied == p.filter_draft {
                p.find_hits
            } else {
                hits
            }
            &&& 0 < t.find_hits.len() <= usize::MAX ==> is_first_from(
                t.find_hits,
                t.find_current,
                row,
                start,
            )
        }),
{
    reveal(after_rebuild);
    reveal(committed);
    let q = PaneView { filter_apply_at: None, ..p };
    let u = if p.filter_applied == p.filter_draft {
        q
    } else {
        let c = committed(q);
        crate::pane::with_matches(
            PaneView {
                filter_generation: c.filter_generation.wrapping_add(1),
                scan_attached: false,
                filter_busy: false,
                ..c
            },
            hits,
            truncated,
        )
    };
    assert(u.find_jump == p.find_jump);
    assert(PaneView { find_jump: Some(FindJump::FirstAt { row, start }), ..u } == u);
    lemma_jump_keeps_the_search(u);
    if 0 < u.find_hits.len() <= usize::MAX {
        law_jump_compares_lines_before_columns(u, row, start);
    }
}

/// Law: what a background search found is taken over where it was made for the filter that is
/// applied: its matches become those of the pane and the list names their lines. A search that
/// is still running changes nothing.
pub proof fn law_search_result_is_taken_over(p: PaneView, r: FilterScanResult)
    requires
        p.scan_attached,
        r.generation == p.filter_generation,
    ensures
        ({
            let t = after_poll(p, ScanPoll::Ready(r));
            &&& t.find_hits == r.hits@
            &&& t.find_truncated == r.truncated
            &&& t.search_map == match_rows(r.hits@)
            &&& !t.filter_busy
            &&& !t.scan_attached
            &&& t.filter_applied == p.filter_applied
            &&& p.show_search && p.filter_applied.len() > 0 ==> t.show_search
        }),
        after_poll(p, ScanPoll::Empty) == p,
        !after_poll(p, ScanPoll::Disconnected).filter_busy,
        after_poll(p, ScanPoll::Disconnected).find_hits == p.find_hits,
{
    let q = PaneView { scan_attached: false, filter_busy: false, ..p };
    lemma_jump_keeps_the_search(
        PaneView {
            show_search: p.show_search && (match_rows(r.hits@).len() > 0
                || p.filter_applied.len() > 0),
            ..crate::pane::with_matches(q, r.hits@, r.truncated)
        },
    );
}

proof fn lemma_jump_keeps_the_search(p: PaneView)
    ensures
        ({
            let q = after_jump(p);
            &&& q.find_hits == p.find_hits
            &&& q.find_truncated == p.find_truncated
            &&& q.search_map == p.search_map
            &&& q.filter_busy == p.filter_busy
            &&& q.scan_attached == p.scan_attached
            &&& q.filter_applied == p.filter_applied
            &&& q.show_search == p.show_search
            &&& q.filter_draft == p.filter_draft
            &&& q.filter_apply_at == p.filter_apply_at
            &&& q.focus_filter_requested == p.focus_filter_requested
        }),
{
    reveal(after_jump);
}

/// Law: matches in appended lines join behind those that are there, all of them while there is
/// room; that some are missing is noted as soon as the limit is passed.
pub proof fn law_appended_matches_join_behind(
    p: PaneView,
    fresh: Seq<TextHit>,
    first_row: usize,
    limit: int,
)
    ensures
        ({
            let q = after_append(p, false, fresh, first_row, limit);
            &&& !p.find_truncated && p.find_hits.len() < limit && p.find_hits.len() + fresh.len()
                <= limit ==> q.find_hits == p.find_hits + fresh && !q.find_truncated
            &&& p.find_hits.len() + fresh.len() > limit ==> q.find_truncated
            &&& p.find_truncated ==> q.find_truncated
            &&& q.search_map == match_rows(q.find_hits)
            &&& q.find_current == p.find_current
            &&& after_append(p, true, fresh, first_row, limit).find_hits.len() == 0
        }),
{
    assert(fresh.take(fresh.len() as int) =~= fresh);
}

/// A line number moved up by the number of lines that left, or none where its line left.
pub open spec fn row_follows(before: Option<usize>, after: Option<usize>, evicted: usize) -> bool {
    match before {
        Some(r) => if r < evicted {
            after is None
        } else {
            after matches Some(s) && s + evicted == r
        },
        None => after is None,
    }
}

/// Law: when lines leave at the front, every position of a pane stays on its line: the marked
/// line, the line scrolled to, the parsed and the first visible one, a jump under way, and the
/// selection, which goes when one of its ends does.
pub proof fn law_positions_follow_their_lines(p: PaneView, evicted: usize)
    ensures
        ({
            let q = after_front_eviction(p, evicted);
            &&& row_follows(p.highlight_master, q.highlight_master, evicted)
            &&& row_follows(p.scroll_to_master, q.scroll_to_master, evicted)
            &&& row_follows(p.parse_row, q.parse_row, evicted)
            &&& row_follows(p.last_view_row, q.last_view_row, evicted)
            &&& p.find_jump matches Some(FindJump::FirstAt { row, start }) ==> if row < evicted {
                q.find_jump is None
            } else {
                q.find_jump matches Some(FindJump::FirstAt { row: r, start: s }) && r + evicted
                    == row && s == start
            }
            &&& p.sel_anchor matches Some(a) ==> (p.sel_focus matches Some(f) ==> if a.row
                >= evicted && f.row >= evicted {
                &&& q.sel_anchor matches Some(b) && b.row + evicted == a.row && b.col == a.col
                &&& q.sel_focus matches Some(g) && g.row + evicted == f.row && g.col == f.col
                &&& q.last_selected_text == p.last_selected_text
            } else {
                q.sel_anchor is None && q.sel_focus is None && q.last_selected_text.len() == 0
            })
            &&& q.filter_applied == p.filter_applied && q.filter_draft == p.filter_draft
                && q.show_search == p.show_search && q.scroll_pinned == p.scroll_pinned
        }),
{
}

/// Law: a hit whose line left is gone, and every other one stands on its line, moved up, with
/// the range that it had.
pub proof fn law_hits_follow_their_lines(hits: Seq<TextHit>, evicted: usize, hit: TextHit)
    ensures
        hits.contains(hit) && hit.row >= evicted ==> kept_hits(hits, evicted).contains(
            TextHit { row: (hit.row - evicted) as usize, start: hit.start, end: hit.end },
        ),
        kept_hits(hits, evicted).contains(hit) ==> exists|i: int|
            0 <= i < hits.len() && (#[trigger] hits[i]).row == hit.row + evicted && hits[i].start
                == hit.start && hits[i].end == hit.end,
    decreases hits.len(),
{
    if hits.len() > 0 {
        let front = hits.drop_last();
        let last = hits.last();
        law_hits_follow_their_lines(front, evicted, hit);
        let before = kept_hits(front, evicted);
        let all = kept_hits(hits, evicted);
        let moved = TextHit {
            row: (hit.row - evicted) as usize,
            start: hit.start,
            end: hit.end,
        };
        if hits.contains(hit) && hit.row >= evicted {
            let i = choose|i: int| 0 <= i < hits.len() && hits[i] == hit;
            if i < front.len() {
                assert(front[i] == hit);
                assert(before.contains(moved));
                let k = choose|k: int| 0 <= k < before.len() && before[k] == moved;
                assert(all[k] == moved);
            } else {
                assert(all[all.len() - 1] == moved);
            }
        }
        if all.contains(hit) {
            let k = choose|k: int| 0 <= k < all.len() && all[k] == hit;
            if k < before.len() {
                assert(before[k] == hit);
                assert(before.contains(hit));
                let i = choose|i: int|
                    0 <= i < front.len() && (#[trigger] front[i]).row == hit.row + evicted
                        && front[i].start == hit.start && front[i].end == hit.end;
                assert(hits[i] == front[i]);
            } else {
                assert(hits[hits.len() - 1].row == hit.row + evicted);
            }
        }
    }
}

/// Law: a line that is to be shown is scrolled to and marked, and it is scrolled to in each of
/// the frames for which it is held and in one more; then the target is used up, while the mark
/// stays.
pub proof fn law_shown_line_is_held(p: PaneView, row: usize, kind: BackendKind, auto_scroll: bool)
    ensures
        ({
            let q = shown_at(p, row);
            let plan = frame_plan(q, kind, auto_scroll);
            &&& plan.scroll_to == Some(row)
            &&& plan.highlight == Some(row)
            &&& !plan.stick_to_bottom
            &&& q.scroll_hold_frames == 16
        }),
        p.scroll_hold_frames > 0 ==> after_frame(p).scroll_to_master == p.scroll_to_master
            && after_frame(p).scroll_hold_frames + 1 == p.scroll_hold_frames,
        p.scroll_hold_frames == 0 ==> after_frame(p).scroll_to_master is None,
        after_frame(p).highlight_master == p.highlight_master,
{
}

/// Law: the end of a log is kept in view only in a live log whose end is to be followed, and
/// not while a line is being shown.
pub proof fn law_tail_is_followed_in_live_logs(p: PaneView, kind: BackendKind, auto_scroll: bool)
    ensures
        frame_plan(p, kind, auto_scroll).stick_to_bottom ==> kind is Live && auto_scroll
            && p.scroll_to_master is None,
        kind is Live && auto_scroll && p.scroll_to_master is None && p.highlight_master is None
            && p.parse_row is None && p.scroll_hold_frames == 0 ==> frame_plan(
            p,
            kind,
            auto_scroll,
        ).stick_to_bottom,
        frame_plan(p, kind, auto_scroll).scroll_to == p.scroll_to_master,
        frame_plan(p, kind, auto_scroll).highlight == p.highlight_master,
{
}

/// Law: the result list is in view only after it was asked for, and only while there is
/// something to list: matches, a search under way, or a filter.
pub proof fn law_list_is_shown_on_request(p: PaneView)
    ensures
        search_visible(p) ==> p.show_search,
        p.show_search && p.filter_applied.len() > 0 ==> search_visible(p),
        p.show_search && p.search_map.len() > 0 ==> search_visible(p),
        p.filter_applied.len() == 0 && p.search_map.len() == 0 && !p.filter_busy
            ==> !search_visible(p),
{
}

/// Law: the note beside the find box counts the current match from one, of as many as there
/// are.
pub proof fn law_find_note_counts_from_one(p: PaneView, i: int)
    requires
        standing_on(p, i),
        !p.filter_busy,
        p.filter_applied.len() > 0,
    ensures
        find_count_of(p) matches FindCount::At { current, total, truncated } && current == i + 1
            && total == p.find_hits.len() && truncated == p.find_truncated,
{
}

/// Law: the note says that a search is under way, that no filter is set, or that nothing
/// matches, in this order.
pub proof fn law_find_note_without_matches(p: PaneView)
    ensures
        p.filter_busy <==> find_count_of(p) is Scanning,
        !p.filter_busy && p.filter_applied.len() == 0 <==> find_count_of(p) is Blank,
        !p.filter_busy && p.filter_applied.len() > 0 && p.find_hits.len() == 0
            <==> find_count_of(p) is NoMatches,
{
}

/// Law: a filter that was typed is due once the typing has paused for 150 milliseconds, and an
/// emptied one at once; a further keystroke puts it off again.
pub proof fn law_typed_filter_waits(p: PaneView, now: u64, later: u64)
    requires
        now <= later <= u64::MAX - 150_000,
    ensures
        p.filter_draft.len() > 0 ==> (is_due(after_typing(p, now), later) <==> later >= now
            + 150_000),
        p.filter_draft.len() == 0 ==> is_due(after_typing(p, now), now),
        after_typing(after_typing(p, now), later) == after_typing(p, later),
        p.filter_apply_at is None ==> !is_due(p, now),
{
}

/// Law: searching from a selection searches for the selected text; without a selection that
/// stands for a text, the draft stays.
pub proof fn law_selected_text_is_searched_for(p: PaneView)
    ensures
        p.sel_anchor is Some && p.sel_focus is Some && p.sel_anchor != p.sel_focus
            && p.last_selected_text.len() > 0 ==> prefilled(p).filter_draft
            == p.last_selected_text,
        p.sel_anchor is None || p.sel_focus is None || p.sel_anchor == p.sel_focus
            || p.last_selected_text.len() == 0 ==> prefilled(p).filter_draft == p.filter_draft,
        prefilled(p).focus_filter_requested,
        prefilled(p).filter_applied == p.filter_applied,
{
}

/// Law: a line is decoded where it names a message of either kind, `ASK` or `FSK`, followed by
/// a blank, and no other line is.
pub proof fn law_message_lines_are_decoded(before: Seq<char>, after: Seq<char>)
    ensures
        parses(before + "ASK "@ + after),
        parses(before + "FSK "@ + after),
        parses(before) ==> before.contains('K') && before.contains(' '),
{
    reveal_strlit("ASK ");
    reveal_strlit("FSK ");
    let (a, f) = (before + "ASK "@ + after, before + "FSK "@ + after);
    let n = before.len() as int;
    assert(a.subrange(n, n + 4) =~= "ASK "@);
    assert(text::matches_at(a, "ASK "@, n));
    assert(f.subrange(n, n + 4) =~= "FSK "@);
    assert(text::matches_at(f, "FSK "@, n));
    if parses(before) {
        let tag = if text::has_text(before, "ASK "@) {
            "ASK "@
        } else {
            "FSK "@
        };
        let at = choose|at: int| text::matches_at(before, tag, at);
        assert(before.subrange(at, at + 4)[2] == tag[2]);
        assert(before.subrange(at, at + 4)[3] == tag[3]);
        assert(before[at + 2] == 'K' && before[at + 3] == ' ');
    }
}

/// Law: a new pane shows the end of its log, without a filter, a match, a selection, a mark or
/// anything that waits.
pub proof fn law_new_pane_is_empty()
    ensures
        ({
            let p = crate::pane::fresh_pane();
            &&& p.filter_draft.len() == 0 && p.filter_applied.len() == 0 && p.find_hits.len() == 0
                && p.search_map.len() == 0 && !p.find_truncated && p.find_current is None
                && p.find_jump is None && !p.show_search
            &&& p.sel_anchor is None && p.sel_focus is None && !p.selecting && !p.select_dragged
                && p.last_selected_text.len() == 0
            &&& p.parse_tip is None && p.parse_hint.len() == 0 && p.parse_row is None
                && !p.auto_parse
            &&& p.scroll_to_master is None && p.scroll_hold_frames == 0 && p.highlight_master
                is None && p.scroll_pinned && p.reset_horizontal_scroll && p.last_view_row is None
            &&& !p.focus_filter_requested && p.filter_apply_at is None && !p.request_find
                && !p.request_goto && !p.scan_attached && !p.filter_busy && p.filter_generation
                == 0
            &&& p.search_selection.anchor is None && p.search_selection.focus is None
                && !p.search_selection.selecting
        }),
{
}

/// Law: the match at which a pane stands is the one with its number, and there is none without a
/// number or beyond the last match.
pub proof fn law_current_match_is_the_numbered_one(i: usize, hits: Seq<TextHit>)
    ensures
        i < hits.len() ==> crate::pane::hit_in_force(Some(i), hits) == Some(hits[i as int]),
        i >= hits.len() ==> crate::pane::hit_in_force(Some(i), hits) is None,
        crate::pane::hit_in_force(None, hits) is None,
{
}

} // verus!
