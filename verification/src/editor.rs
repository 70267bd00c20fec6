//! The line editor of a log tab: caret, find and replace.
use vstd::prelude::*;
use vstd::string::*;

use crate::search;

verus! {

/// What the find bar of the editor says.
pub enum MatchStatus {
    Blank,
    At { ordinal: usize, total: usize },
    NoMatches,
    SelectMatch,
    Replaced { count: usize },
}

/// What the find bar asks for.
#[derive(Debug, Clone, Copy, PartialEq, Eq, Structural)]
pub enum FindAction {
    Next,
    Prev,
    Replace,
    ReplaceAll,
}

/// The text being edited, line by line, with the caret.
pub struct LineEditorSession {
    pub lines: Vec<String>,
    pub row: usize,
    pub col: usize,
    /// Character range of the caret line to select.
    pub pending_cursor: Option<(usize, usize)>,
    pub scroll_to: Option<usize>,
    pub want_focus: bool,
    pub has_focus: bool,
}

/// Model of [`LineEditorSession`].
pub struct EditorView {
    pub lines: Seq<Seq<char>>,
    pub row: usize,
    pub col: usize,
    pub pending_cursor: Option<(usize, usize)>,
    pub scroll_to: Option<usize>,
    pub want_focus: bool,
    pub has_focus: bool,
}

impl View for LineEditorSession {
    type V = EditorView;

    open spec fn view(&self) -> EditorView {
        EditorView {
            lines: search::views(self.lines@),
            row: self.row,
            col: self.col,
            pending_cursor: self.pending_cursor,
            scroll_to: self.scroll_to,
            want_focus: self.want_focus,
            has_focus: self.has_focus,
        }
    }
}

/// An editor at the start of `lines`.
pub open spec fn fresh_editor(lines: Seq<Seq<char>>) -> EditorView {
    EditorView {
        lines,
        row: 0,
        col: 0,
        pending_cursor: None,
        scroll_to: None,
        want_focus: false,
        has_focus: false,
    }
}

/// The editor with a match selected, the caret at its end.
pub open spec fn at_hit(e: EditorView, row: usize, start: usize, end: usize) -> EditorView {
    EditorView {
        row,
        col: end,
        pending_cursor: Some((start, end)),
        scroll_to: Some(row),
        want_focus: true,
        ..e
    }
}

/// Puts the caret on a match.
pub fn apply_edit_find_hit(edit: &mut LineEditorSession, row: usize, start: usize, end: usize)
    ensures
        final(edit)@ == at_hit(old(edit)@, row, start, end),
{
    edit.row = row;
    edit.col = end;
    edit.pending_cursor = Some((start, end));
    edit.scroll_to = Some(row);
    edit.want_focus = true;
}

/// The line that a replacement works on: the caret line, or the last one.
pub open spec fn caret_line(e: EditorView) -> int {
    if e.row < e.lines.len() {
        e.row as int
    } else {
        e.lines.len() - 1
    }
}

/// The match that a replacement works on, if the line has one.
pub open spec fn replace_target(e: EditorView, needle: Seq<char>, case_sensitive: bool) -> Option<
    (int, int),
> {
    let m = search::occurrences(e.lines[caret_line(e)], needle, case_sensitive);
    if m.len() == 0 {
        None
    } else {
        match search::touching_index(m, e.col as int, 0) {
            Some(i) => Some(m[i]),
            None => Some(m[0]),
        }
    }
}

/// The editor after `start..end` of its caret line was replaced: the new text is selected.
pub open spec fn after_replace(
    e: EditorView,
    start: int,
    end: int,
    replacement: Seq<char>,
) -> EditorView {
    EditorView {
        lines: e.lines.update(
            caret_line(e),
            search::spliced(e.lines[caret_line(e)], start, end, replacement),
        ),
        col: (start + replacement.len()) as usize,
        pending_cursor: Some((start as usize, (start + replacement.len()) as usize)),
        want_focus: true,
        ..e
    }
}

/// The editor after every match in every line was replaced.
pub open spec fn after_replace_all(
    e: EditorView,
    needle: Seq<char>,
    replacement: Seq<char>,
    case_sensitive: bool,
) -> EditorView {
    EditorView {
        lines: Seq::new(
            e.lines.len(),
            |i: int| search::replaced(e.lines[i], needle, replacement, case_sensitive),
        ),
        ..e
    }
}

impl LineEditorSession {
    /// An editor at the start of `lines`.
    pub fn from_lines(lines: Vec<String>) -> (r: Self)
        ensures
            r@ == fresh_editor(search::views(lines@)),
    {
        LineEditorSession {
            lines,
            row: 0,
            col: 0,
            pending_cursor: None,
            scroll_to: None,
            want_focus: false,
            has_focus: false,
        }
    }

    /// An editor without lines.
    pub fn new() -> (r: Self)
        ensures
            r@ == fresh_editor(Seq::empty()),
    {
        let lines: Vec<String> = Vec::new();
        assert(search::views(lines@) =~= Seq::empty());
        LineEditorSession::from_lines(lines)
    }

    /// Selects the next match after the caret; says where it is, or that there is none.
    pub fn find_next(&mut self, needle: &str, case_sensitive: bool) -> (status: MatchStatus)
        ensures
            ({
                let e = old(self)@;
                let h = search::all_line_hits(e.lines, needle@, case_sensitive);
                if h.len() == 0 {
                    final(self)@ == e && status is NoMatches
                } else {
                    let k = search::next_hit_index(h, e.row as int, e.col as int, 0);
                    final(self)@ == at_hit(
                        e,
                        h[k].0 as usize,
                        h[k].1 as usize,
                        h[k].2 as usize,
                    ) && (status matches MatchStatus::At { ordinal, total } && ordinal == k + 1
                        && total == h.len())
                }
            }),
    {
        match search::find_next_in_lines(
            self.lines.as_slice(),
            needle,
            self.row,
            self.col,
            case_sensitive,
        ) {
            Some(f) => {
                apply_edit_find_hit(self, f.0, f.1, f.2);
                MatchStatus::At { ordinal: f.3, total: f.4 }
            },
            None => MatchStatus::NoMatches,
        }
    }

    /// Selects the match before the caret; says where it is, or that there is none.
    pub fn find_prev(&mut self, needle: &str, case_sensitive: bool) -> (status: MatchStatus)
        ensures
            ({
                let e = old(self)@;
                let h = search::all_line_hits(e.lines, needle@, case_sensitive);
                if h.len() == 0 {
                    final(self)@ == e && status is NoMatches
                } else {
                    let k = search::prev_hit_index(
                        h,
                        e.row as int,
                        e.col as int,
                        h.len() as int,
                    );
                    final(self)@ == at_hit(
                        e,
                        h[k].0 as usize,
                        h[k].1 as usize,
                        h[k].2 as usize,
                    ) && (status matches MatchStatus::At { ordinal, total } && ordinal == k + 1
                        && total == h.len())
                }
            }),
    {
        match search::find_prev_in_lines(
            self.lines.as_slice(),
            needle,
            self.row,
            self.col,
            case_sensitive,
        ) {
            Some(f) => {
                apply_edit_find_hit(self, f.0, f.1, f.2);
                MatchStatus::At { ordinal: f.3, total: f.4 }
            },
            None => MatchStatus::NoMatches,
        }
    }

    /// Replaces the match at the caret, or else the first one of its line. The result tells
    /// whether there was one.
    pub fn replace_current(
        &mut self,
        needle: &str,
        replacement: &str,
        case_sensitive: bool,
    ) -> (done: bool)
        requires
            old(self).lines@.len() > 0,
            old(self)@.lines[caret_line(old(self)@)].len() + replacement@.len() <= usize::MAX,
        ensures
            match replace_target(old(self)@, needle@, case_sensitive) {
                Some(m) => done && final(self)@ == after_replace(
                    old(self)@,
                    m.0,
                    m.1,
                    replacement@,
                ),
                None => !done && final(self)@ == old(self)@,
            },
    {
        let last: usize = self.lines.len() - 1;
        let row: usize = if self.row < last {
            self.row
        } else {
            last
        };
        let ghost before = self@;
        assert(row == caret_line(before));
        assert(before.lines[row as int] == self.lines@[row as int]@);
        match search::current_line_match(
            self.lines[row].as_str(),
            needle,
            self.col,
            case_sensitive,
        ) {
            Some(m) => {
                proof {
                    lemma_match_in_text(before.lines[row as int], needle@, case_sensitive);
                    lemma_touching_index(
                        search::occurrences(before.lines[row as int], needle@, case_sensitive),
                        before.col as int,
                        0,
                    );
                }
                let mut line = self.lines[row].clone();
                search::replace_char_range(&mut line, m.0, m.1, replacement);
                let end: usize = m.0 + replacement.unicode_len();
                self.lines.set(row, line);
                self.col = end;
                self.pending_cursor = Some((m.0, end));
                self.want_focus = true;
                assert(search::views(self.lines@) =~= before.lines.update(row as int, line@));
                true
            },
            None => false,
        }
    }

    /// Replaces every match in every line and returns how many there were.
    pub fn replace_everywhere(
        &mut self,
        needle: &str,
        replacement: &str,
        case_sensitive: bool,
    ) -> (count: usize)
        requires
            search::match_total(
                old(self)@.lines,
                needle@,
                case_sensitive,
                old(self)@.lines.len() as int,
            ) <= usize::MAX,
        ensures
            count == search::match_total(
                old(self)@.lines,
                needle@,
                case_sensitive,
                old(self)@.lines.len() as int,
            ),
            final(self)@ == after_replace_all(
                old(self)@,
                needle@,
                replacement@,
                case_sensitive,
            ),
    {
        let ghost before = self@;
        let count: usize = search::replace_all_in_lines(
            &mut self.lines,
            needle,
            replacement,
            case_sensitive,
        );
        assert(search::views(self.lines@) =~= after_replace_all(
            before,
            needle@,
            replacement@,
            case_sensitive,
        ).lines);
        count
    }
}

proof fn lemma_touching_index(r: Seq<(int, int)>, col: int, i: int)
    requires
        0 <= i,
    ensures
        search::touching_index(r, col, i) matches Some(k) ==> i <= k < r.len(),
    decreases r.len() - i,
{
    if i < r.len() && !(r[i].0 <= col <= r[i].1) {
        lemma_touching_index(r, col, i + 1);
    }
}

proof fn lemma_match_in_text(text: Seq<char>, needle: Seq<char>, case_sensitive: bool)
    ensures
        forall|i: int|
            0 <= i < search::occurrences(text, needle, case_sensitive).len() ==> 0 <= (
            #[trigger] search::occurrences(text, needle, case_sensitive)[i]).0
                <= search::occurrences(text, needle, case_sensitive)[i].1 <= text.len(),
{
    if needle.len() > 0 {
        search::law_matches_are_complete(text, needle, case_sensitive);
    }
}

/// Whether match `k` of the text is selected: the caret stands on its line behind its last
/// character, and its characters are marked.
pub open spec fn selects(e: EditorView, h: Seq<(int, int, int)>, k: int) -> bool {
    &&& 0 <= k < h.len()
    &&& e.row == h[k].0
    &&& e.col == h[k].2
    &&& e.pending_cursor matches Some(range) && range.0 == h[k].1 && range.1 == h[k].2
    &&& e.scroll_to == Some(e.row)
    &&& e.want_focus
}

/// Whether a text can stand in memory.
pub open spec fn fits_memory(lines: Seq<Seq<char>>) -> bool {
    &&& lines.len() <= usize::MAX
    &&& forall|i: int| 0 <= i < lines.len() ==> (#[trigger] lines[i]).len() <= usize::MAX
}

/// Law: putting the caret on a match of the text selects that match, changes no line, and the
/// search for the next match then goes to the one that follows, from the last one to the
/// first. So stepping on again and again visits all matches in turn.
pub proof fn law_caret_on_a_match_leads_to_the_following_one(
    e: EditorView,
    needle: Seq<char>,
    case_sensitive: bool,
    k: int,
)
    requires
        fits_memory(e.lines),
        0 <= k < search::all_line_hits(e.lines, needle, case_sensitive).len(),
    ensures
        ({
            let h = search::all_line_hits(e.lines, needle, case_sensitive);
            let t = at_hit(e, h[k].0 as usize, h[k].1 as usize, h[k].2 as usize);
            &&& selects(t, h, k)
            &&& t.lines == e.lines
            &&& t.has_focus == e.has_focus
            &&& search::next_hit_index(h, t.row as int, t.col as int, 0) == if k + 1 < h.len() {
                k + 1
            } else {
                0
            }
        }),
{
    let h = search::all_line_hits(e.lines, needle, case_sensitive);
    search::law_line_hits_are_the_matches(e.lines, needle, case_sensitive);
    search::law_find_next_in_lines_visits_hits_in_turn(e.lines, needle, case_sensitive, k);
    assert(h[k].0 < e.lines.len() && h[k].2 <= e.lines[h[k].0].len());
}

/// Law: a replacement works on a match of the caret line that touches the caret, or on the
/// first one of the line where none does; without a match there is nothing to replace.
pub proof fn law_replacement_takes_the_match_at_the_caret(
    e: EditorView,
    needle: Seq<char>,
    case_sensitive: bool,
)
    requires
        e.lines.len() > 0,
    ensures
        ({
            let line = if e.row < e.lines.len() {
                e.lines[e.row as int]
            } else {
                e.lines[e.lines.len() - 1]
            };
            let m = search::occurrences(line, needle, case_sensitive);
            match replace_target(e, needle, case_sensitive) {
                Some(t) => {
                    &&& m.contains(t)
                    &&& t.0 <= e.col <= t.1 || (t == m[0] && forall|k: int|
                        0 <= k < m.len() ==> e.col < (#[trigger] m[k]).0 || m[k].1 < e.col)
                },
                None => m.len() == 0,
            }
        }),
{
    let m = search::occurrences(e.lines[caret_line(e)], needle, case_sensitive);
    search::law_touching_match_is_the_first(m, e.col as int);
}

/// Law: a replacement changes the caret line alone, there the replaced range alone, and then
/// the new text is selected with the caret behind it.
pub proof fn law_replacement_is_selected(
    e: EditorView,
    start: int,
    end: int,
    replacement: Seq<char>,
)
    requires
        e.row < e.lines.len(),
        0 <= start <= end <= e.lines[e.row as int].len(),
        e.lines[e.row as int].len() + replacement.len() <= usize::MAX,
    ensures
        ({
            let t = after_replace(e, start, end, replacement);
            let before = e.lines[e.row as int];
            let line = t.lines[e.row as int];
            let stop = start + replacement.len();
            &&& t.lines.len() == e.lines.len()
            &&& forall|i: int|
                0 <= i < e.lines.len() && i != e.row ==> #[trigger] t.lines[i] == e.lines[i]
            &&& line == before.subrange(0, start) + replacement + before.subrange(
                end,
                before.len() as int,
            )
            &&& t.row == e.row
            &&& t.col == stop
            &&& t.pending_cursor matches Some(range) && line.subrange(
                range.0 as int,
                range.1 as int,
            ) == replacement
            &&& t.want_focus
        }),
{
    let t = after_replace(e, start, end, replacement);
    let before = e.lines[e.row as int];
    let line = t.lines[e.row as int];
    let stop = start + replacement.len();
    assert(line =~= before.subrange(0, start) + replacement + before.subrange(
        end,
        before.len() as int,
    ));
    assert(line.subrange(start, stop) =~= replacement);
}

/// Law: replacing everywhere replaces the matches of each line in that line, keeps the number
/// of lines and leaves the caret where it is.
pub proof fn law_replacing_everywhere_goes_line_by_line(
    e: EditorView,
    needle: Seq<char>,
    replacement: Seq<char>,
    case_sensitive: bool,
)
    ensures
        ({
            let t = after_replace_all(e, needle, replacement, case_sensitive);
            &&& t.lines.len() == e.lines.len()
            &&& forall|i: int|
                0 <= i < e.lines.len() ==> #[trigger] t.lines[i] == search::replaced(
                    e.lines[i],
                    needle,
                    replacement,
                    case_sensitive,
                )
            &&& t.row == e.row && t.col == e.col && t.pending_cursor == e.pending_cursor
        }),
{
}

/// Law: an editor starts with the lines that it is given and the caret before the first
/// character; it asks neither for the focus nor to scroll.
pub proof fn law_editor_starts_at_the_first_character(lines: Seq<Seq<char>>)
    ensures
        ({
            let e = fresh_editor(lines);
            &&& e.lines == lines && e.row == 0 && e.col == 0
            &&& e.pending_cursor is None && e.scroll_to is None && !e.want_focus && !e.has_focus
        }),
{
}

} // verus!
