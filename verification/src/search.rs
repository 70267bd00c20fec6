//! Find and replace inside a document, in character positions.
use vstd::prelude::*;
use vstd::string::*;

use crate::text::{byte_len, byte_length, chars_match_at, chars_of, char_width, lower_chars};
use crate::text::{
    ascii_lower, ascii_lower_seq, lemma_byte_len_add, lemma_byte_len_take, matches_at, utf8_width,
};

verus! {

/// The smaller of two integers.
pub open spec fn lesser(a: int, b: int) -> int {
    if a <= b {
        a
    } else {
        b
    }
}

// ---------------------------------------------------------------------------
// Character and byte positions
// ---------------------------------------------------------------------------

/// The byte offset of character `i`, or the byte length when `i` is past the end.
pub open spec fn byte_offset(s: Seq<char>, i: int) -> nat {
    byte_len(s.take(lesser(i, s.len() as int)))
}

/// Whether byte offset `b`, cut to the end of `s`, falls between two characters.
pub open spec fn on_char_boundary(s: Seq<char>, b: int) -> bool {
    b >= byte_len(s) || exists|k: int| 0 <= k <= s.len() && byte_offset(s, k) == b
}

/// The byte offset of character `char_index`.
pub fn char_to_byte(text: &str, char_index: usize) -> (r: usize)
    ensures
        r == byte_offset(text@, char_index as int),
{
    let v = chars_of(text);
    let total: usize = byte_length(text);
    let mut i: usize = 0;
    let mut b: usize = 0;
    assert(v@.take(0) =~= Seq::<char>::empty());
    while i < v.len() && i < char_index
        invariant
            i <= v@.len(),
            i <= char_index,
            b == byte_len(v@.take(i as int)),
            total == byte_len(v@),
        decreases v@.len() - i,
    {
        proof {
            lemma_byte_len_take(v@, i as int);
        }
        b = b + char_width(v[i]);
        i = i + 1;
    }
    b
}

/// The number of characters before byte offset `byte_index`.
pub fn byte_to_char(text: &str, byte_index: usize) -> (r: usize)
    requires
        on_char_boundary(text@, byte_index as int),
    ensures
        r <= text@.len(),
        byte_offset(text@, r as int) == lesser(byte_index as int, byte_len(text@) as int),
{
    let v = chars_of(text);
    let total: usize = byte_length(text);
    let stop: usize = if byte_index < total {
        byte_index
    } else {
        total
    };
    let mut i: usize = 0;
    let mut b: usize = 0;
    assert(v@.take(0) =~= Seq::<char>::empty());
    assert(v@.take(v@.len() as int) =~= v@);
    let ghost k: int = if byte_index < total {
        choose|k: int| 0 <= k <= v@.len() && byte_offset(v@, k) == byte_index
    } else {
        v@.len() as int
    };
    while b < stop
        invariant
            i <= k <= v@.len(),
            b == byte_len(v@.take(i as int)),
            stop == byte_len(v@.take(k)),
            total == byte_len(v@),
        decreases v@.len() - i,
    {
        assert(i < k && i < v.len());
        proof {
            lemma_byte_len_take(v@, i as int);
        }
        b = b + char_width(v[i]);
        i = i + 1;
        proof {
            lemma_offset_monotone(v@, i as int, k);
        }
    }
    proof {
        lemma_offset_monotone(v@, i as int, k);
    }
    i
}

/// Byte offsets grow with character positions, strictly between distinct ones.
pub proof fn lemma_offset_monotone(s: Seq<char>, i: int, j: int)
    requires
        0 <= i <= j <= s.len(),
    ensures
        byte_len(s.take(i)) <= byte_len(s.take(j)),
        i < j ==> byte_len(s.take(i)) < byte_len(s.take(j)),
{
    assert(s.take(j) =~= s.take(i) + s.subrange(i, j));
    lemma_byte_len_add(s.take(i), s.subrange(i, j));
    if i < j {
        let t = s.subrange(i, j);
        assert(byte_len(t) == byte_len(t.drop_last()) + utf8_width(t.last()));
    }
}

/// Law: turning a character position into bytes and back gives the position, cut to the end.
pub proof fn law_char_byte_round_trip(s: Seq<char>, i: int, r: int)
    requires
        0 <= i,
        0 <= r <= s.len(),
        byte_offset(s, r) == byte_offset(s, i),
    ensures
        on_char_boundary(s, byte_offset(s, i) as int),
        r == lesser(i, s.len() as int),
{
    let k = lesser(i, s.len() as int);
    assert(byte_offset(s, k) == byte_offset(s, i));
    if r < k {
        lemma_offset_monotone(s, r, k);
    } else {
        lemma_offset_monotone(s, k, r);
    }
}

/// The characters from `start` to `end`, both cut to the end of the text.
pub fn char_slice(text: &str, start: usize, end: usize) -> (r: &str)
    requires
        start <= end || text@.len() <= end,
    ensures
        r@ == text@.subrange(
            lesser(start as int, text@.len() as int),
            lesser(end as int, text@.len() as int),
        ),
{
    let n: usize = text.unicode_len();
    let a: usize = if start < n {
        start
    } else {
        n
    };
    let b: usize = if end < n {
        end
    } else {
        n
    };
    text.substring_char(a, b)
}

/// The text that results from putting `replacement` in place of `start..end`.
pub open spec fn spliced(s: Seq<char>, start: int, end: int, replacement: Seq<char>) -> Seq<char> {
    s.take(lesser(start, s.len() as int)) + replacement + s.skip(lesser(end, s.len() as int))
}

/// Puts `replacement` in place of the characters `start..end`.
pub fn replace_char_range(text: &mut String, start: usize, end: usize, replacement: &str)
    requires
        start <= end || old(text)@.len() <= end,
    ensures
        final(text)@ == spliced(old(text)@, start as int, end as int, replacement@),
{
    let ghost s = text@;
    let n: usize = text.as_str().unicode_len();
    let a: usize = if start < n {
        start
    } else {
        n
    };
    let b: usize = if end < n {
        end
    } else {
        n
    };
    let mut r = text.as_str().substring_char(0, a).to_owned();
    r.append(replacement);
    r.append(text.as_str().substring_char(b, n));
    assert(s.subrange(0, a as int) =~= s.take(a as int));
    assert(s.subrange(b as int, n as int) =~= s.skip(b as int));
    *text = r;
}

// ---------------------------------------------------------------------------
// Matches in one text
// ---------------------------------------------------------------------------

/// The text as it is compared: itself, or its ASCII lower case.
pub open spec fn folded(s: Seq<char>, case_sensitive: bool) -> Seq<char> {
    if case_sensitive {
        s
    } else {
        ascii_lower_seq(s)
    }
}

/// The leftmost, non-overlapping occurrences of `needle` in `hay` from `from` on,
/// as `(start, end)` character ranges. An empty needle occurs nowhere.
pub open spec fn match_ranges(hay: Seq<char>, needle: Seq<char>, from: int) -> Seq<(int, int)>
    decreases hay.len() - from,
{
    if needle.len() == 0 || from < 0 || from + needle.len() > hay.len() {
        Seq::empty()
    } else if matches_at(hay, needle, from) {
        seq![(from, from + needle.len() as int)] + match_ranges(hay, needle, from + needle.len())
    } else {
        match_ranges(hay, needle, from + 1)
    }
}

/// All occurrences of `needle` in `text` under the given case rule.
pub open spec fn occurrences(text: Seq<char>, needle: Seq<char>, case_sensitive: bool) -> Seq<
    (int, int),
> {
    match_ranges(folded(text, case_sensitive), folded(needle, case_sensitive), 0)
}

/// Machine ranges as mathematical ones.
pub open spec fn as_int_ranges(v: Seq<(usize, usize)>) -> Seq<(int, int)> {
    Seq::new(v.len(), |i: int| (v[i].0 as int, v[i].1 as int))
}

/// The characters of `s` as they are compared.
fn folded_chars(s: &str, case_sensitive: bool) -> (r: Vec<char>)
    ensures
        r@ == folded(s@, case_sensitive),
{
    let v = chars_of(s);
    if case_sensitive {
        v
    } else {
        lower_chars(&v)
    }
}

/// All occurrences of `needle` in `text`, in order.
pub fn find_match_ranges(text: &str, needle: &str, case_sensitive: bool) -> (r: Vec<
    (usize, usize),
>)
    ensures
        as_int_ranges(r@) == occurrences(text@, needle@, case_sensitive),
{
    let mut out: Vec<(usize, usize)> = Vec::new();
    let h = folded_chars(text, case_sensitive);
    let n = folded_chars(needle, case_sensitive);
    if n.len() == 0 || n.len() > h.len() {
        assert(as_int_ranges(out@) =~= Seq::<(int, int)>::empty());
        return out;
    }
    let last: usize = h.len() - n.len();
    let mut at: usize = 0;
    assert(as_int_ranges(out@) + match_ranges(h@, n@, 0) =~= match_ranges(h@, n@, 0));
    while at <= last
        invariant
            n@.len() > 0,
            last + n.len() == h.len(),
            at <= h@.len(),
            as_int_ranges(out@) + match_ranges(h@, n@, at as int) == match_ranges(h@, n@, 0),
        decreases h@.len() - at,
    {
        if chars_match_at(&h, &n, at) {
            let ghost before = as_int_ranges(out@);
            let ghost rest = match_ranges(h@, n@, at + n@.len());
            out.push((at, at + n.len()));
            proof {
                assert(as_int_ranges(out@) =~= before.push((at as int, at + n@.len())));
                assert(as_int_ranges(out@) + rest =~= before + (seq![(at as int, at + n@.len())]
                    + rest));
            }
            at = at + n.len();
        } else {
            at = at + 1;
        }
    }
    assert(match_ranges(h@, n@, at as int) =~= Seq::<(int, int)>::empty());
    assert(as_int_ranges(out@) + match_ranges(h@, n@, at as int) =~= as_int_ranges(out@));
    out
}

/// The same as [`matches_at`], named apart so that quantifiers over occurrences stay in check.
pub open spec fn occurs_at(hay: Seq<char>, needle: Seq<char>, at: int) -> bool {
    matches_at(hay, needle, at)
}

/// Whether some range of `r` holds position `p`.
pub open spec fn covered(r: Seq<(int, int)>, p: int) -> bool {
    exists|i: int| 0 <= i < r.len() && (#[trigger] r[i]).0 <= p < r[i].1
}

/// What the list of matches from `from` on looks like.
pub open spec fn well_placed(r: Seq<(int, int)>, hay: Seq<char>, needle: Seq<char>, from: int) -> bool {
    &&& forall|i: int|
        0 <= i < r.len() ==> from <= (#[trigger] r[i]).0 && r[i].1 == r[i].0 + needle.len()
            && matches_at(hay, needle, r[i].0)
    &&& forall|i: int, j: int| 0 <= i < j < r.len() ==> (#[trigger] r[i]).1 <= (#[trigger] r[j]).0
    &&& forall|p: int| from <= p && #[trigger] occurs_at(hay, needle, p) ==> covered(r, p)
}

proof fn lemma_match_ranges_well_placed(hay: Seq<char>, needle: Seq<char>, from: int)
    requires
        needle.len() > 0,
        0 <= from,
    ensures
        well_placed(match_ranges(hay, needle, from), hay, needle, from),
    decreases hay.len() - from,
{
    let r = match_ranges(hay, needle, from);
    if from + needle.len() > hay.len() {
    } else if matches_at(hay, needle, from) {
        let tail = match_ranges(hay, needle, from + needle.len());
        lemma_match_ranges_well_placed(hay, needle, from + needle.len());
        assert(r[0] == (from, from + needle.len() as int));
        assert(forall|i: int| 0 < i < r.len() ==> #[trigger] r[i] == tail[i - 1]);
        assert forall|p: int| from <= p && #[trigger] occurs_at(hay, needle, p) implies covered(
            r,
            p,
        ) by {
            if p < from + needle.len() {
                assert(r[0].0 <= p < r[0].1);
            } else {
                let i = choose|i: int| 0 <= i < tail.len() && (#[trigger] tail[i]).0 <= p < tail[i].1;
                assert(r[i + 1] == tail[i]);
            }
        }
    } else {
        lemma_match_ranges_well_placed(hay, needle, from + 1);
        assert forall|p: int| from <= p && #[trigger] occurs_at(hay, needle, p) implies covered(
            r,
            p,
        ) by {
            assert(p != from);
        }
    }
}

/// Law: the reported ranges are occurrences, they are sorted and do not overlap, and every
/// occurrence starts inside one of them.
pub proof fn law_matches_are_complete(text: Seq<char>, needle: Seq<char>, case_sensitive: bool)
    requires
        needle.len() > 0,
    ensures
        well_placed(
            occurrences(text, needle, case_sensitive),
            folded(text, case_sensitive),
            folded(needle, case_sensitive),
            0,
        ),
{
    lemma_match_ranges_well_placed(
        folded(text, case_sensitive),
        folded(needle, case_sensitive),
        0,
    );
}

proof fn lemma_well_placed_unique(
    a: Seq<(int, int)>,
    b: Seq<(int, int)>,
    hay: Seq<char>,
    needle: Seq<char>,
    from: int,
)
    requires
        needle.len() > 0,
        well_placed(a, hay, needle, from),
        well_placed(b, hay, needle, from),
    ensures
        a == b,
    decreases a.len() + b.len(),
{
    if a.len() == 0 {
        if b.len() > 0 {
            assert(occurs_at(hay, needle, b[0].0));
        }
        assert(a =~= b);
    } else if b.len() == 0 {
        assert(occurs_at(hay, needle, a[0].0));
        assert(a =~= b);
    } else {
        assert(occurs_at(hay, needle, b[0].0));
        assert(occurs_at(hay, needle, a[0].0));
        let i = choose|i: int| 0 <= i < a.len() && (#[trigger] a[i]).0 <= b[0].0 < a[i].1;
        let j = choose|j: int| 0 <= j < b.len() && (#[trigger] b[j]).0 <= a[0].0 < b[j].1;
        assert(i > 0 ==> a[0].1 <= a[i].0);
        assert(j > 0 ==> b[0].1 <= b[j].0);
        assert(a[0] == b[0]);
        let ta = a.drop_first();
        let tb = b.drop_first();
        let next = a[0].1;
        assert forall|p: int| next <= p && #[trigger] occurs_at(hay, needle, p) implies covered(
            ta,
            p,
        ) by {
            let i = choose|i: int| 0 <= i < a.len() && (#[trigger] a[i]).0 <= p < a[i].1;
            assert(ta[i - 1] == a[i]);
        }
        assert forall|p: int| next <= p && #[trigger] occurs_at(hay, needle, p) implies covered(
            tb,
            p,
        ) by {
            let i = choose|i: int| 0 <= i < b.len() && (#[trigger] b[i]).0 <= p < b[i].1;
            assert(tb[i - 1] == b[i]);
        }
        assert(forall|i: int| 0 <= i < ta.len() ==> #[trigger] ta[i] == a[i + 1]);
        assert(forall|i: int| 0 <= i < tb.len() ==> #[trigger] tb[i] == b[i + 1]);
        lemma_well_placed_unique(ta, tb, hay, needle, next);
        assert(a =~= seq![a[0]] + ta);
        assert(b =~= seq![b[0]] + tb);
    }
}

/// Law: sorted, non-overlapping ranges that cover every occurrence are the reported matches;
/// there is no other way to choose them.
pub proof fn law_matches_are_unique(
    r: Seq<(int, int)>,
    text: Seq<char>,
    needle: Seq<char>,
    case_sensitive: bool,
)
    requires
        needle.len() > 0,
        well_placed(r, folded(text, case_sensitive), folded(needle, case_sensitive), 0),
    ensures
        r == occurrences(text, needle, case_sensitive),
{
    law_matches_are_complete(text, needle, case_sensitive);
    lemma_well_placed_unique(
        r,
        occurrences(text, needle, case_sensitive),
        folded(text, case_sensitive),
        folded(needle, case_sensitive),
        0,
    );
}

// ---------------------------------------------------------------------------
// Stepping through matches
// ---------------------------------------------------------------------------

/// The first range at index `i` or later that starts at `after` or later; the first range of
/// all when there is none.
pub open spec fn next_index(r: Seq<(int, int)>, after: int, i: int) -> int
    decreases r.len() - i,
{
    if i < 0 || i >= r.len() {
        0
    } else if r[i].0 >= after {
        i
    } else {
        next_index(r, after, i + 1)
    }
}

/// The last range below index `n` that starts before `before`; the last range of all when
/// there is none.
pub open spec fn prev_index(r: Seq<(int, int)>, before: int, n: int) -> int
    decreases n,
{
    if n <= 0 {
        r.len() - 1
    } else if r[n - 1].0 < before {
        n - 1
    } else {
        prev_index(r, before, n - 1)
    }
}

/// What stepping to range `index` of `r` reports: its bounds, its ordinal and the total.
pub open spec fn reported(r: Seq<(int, int)>, index: int) -> (int, int, int, int) {
    (r[index].0, r[index].1, index + 1, r.len() as int)
}

/// Finds the first match that starts at `after` or later, wrapping to the first match.
/// The result holds the start, the end, the ordinal from one and the number of matches.
pub fn find_next_range(text: &str, needle: &str, after: usize, case_sensitive: bool) -> (r: Option<
    (usize, usize, usize, usize),
>)
    ensures
        ({
            let m = occurrences(text@, needle@, case_sensitive);
            match r {
                Some(f) => m.len() > 0 && (f.0 as int, f.1 as int, f.2 as int, f.3 as int)
                    == reported(m, next_index(m, after as int, 0)),
                None => m.len() == 0,
            }
        }),
{
    let ranges = find_match_ranges(text, needle, case_sensitive);
    let ghost m = as_int_ranges(ranges@);
    let total: usize = ranges.len();
    if total == 0 {
        return None;
    }
    let mut index: usize = 0;
    while index < total && ranges[index].0 < after
        invariant
            index <= total == ranges@.len(),
            m == as_int_ranges(ranges@),
            next_index(m, after as int, 0) == next_index(m, after as int, index as int),
        decreases total - index,
    {
        index = index + 1;
    }
    if index == total {
        index = 0;
    }
    Some((ranges[index].0, ranges[index].1, index + 1, total))
}

/// Finds the last match that starts before `before`, wrapping to the last match.
pub fn find_prev_range(text: &str, needle: &str, before: usize, case_sensitive: bool) -> (r: Option<
    (usize, usize, usize, usize),
>)
    ensures
        ({
            let m = occurrences(text@, needle@, case_sensitive);
            match r {
                Some(f) => m.len() > 0 && (f.0 as int, f.1 as int, f.2 as int, f.3 as int)
                    == reported(m, prev_index(m, before as int, m.len() as int)),
                None => m.len() == 0,
            }
        }),
{
    let ranges = find_match_ranges(text, needle, case_sensitive);
    let ghost m = as_int_ranges(ranges@);
    let total: usize = ranges.len();
    if total == 0 {
        return None;
    }
    let mut n: usize = total;
    while n > 0 && ranges[n - 1].0 >= before
        invariant
            n <= total == ranges@.len(),
            m == as_int_ranges(ranges@),
            prev_index(m, before as int, total as int) == prev_index(m, before as int, n as int),
        decreases n,
    {
        n = n - 1;
    }
    let index: usize = if n > 0 {
        n - 1
    } else {
        total - 1
    };
    Some((ranges[index].0, ranges[index].1, index + 1, total))
}

proof fn lemma_next_index_after(r: Seq<(int, int)>, i: int, k: int)
    requires
        0 <= k <= i + 1,
        0 <= i < r.len(),
        forall|a: int, b: int| 0 <= a < b < r.len() ==> (#[trigger] r[a]).1 <= (#[trigger] r[b]).0,
        forall|a: int| 0 <= a < r.len() ==> (#[trigger] r[a]).0 < r[a].1,
    ensures
        next_index(r, r[i].1, k) == if i + 1 < r.len() {
            i + 1
        } else {
            0
        },
    decreases i + 1 - k,
{
    if k <= i {
        assert(r[k].0 < r[i].1);
        lemma_next_index_after(r, i, k + 1);
    } else if i + 1 < r.len() {
        assert(r[i].1 <= r[i + 1].0);
    }
}

proof fn lemma_prev_index_before(r: Seq<(int, int)>, i: int, n: int)
    requires
        i <= n <= r.len(),
        0 <= i < r.len(),
        forall|a: int, b: int| 0 <= a < b < r.len() ==> (#[trigger] r[a]).1 <= (#[trigger] r[b]).0,
        forall|a: int| 0 <= a < r.len() ==> (#[trigger] r[a]).0 < r[a].1,
    ensures
        prev_index(r, r[i].0, n) == if i > 0 {
            i - 1
        } else {
            r.len() - 1
        },
    decreases n - i,
{
    if n > i {
        assert(r[n - 1].0 >= r[i].0);
        lemma_prev_index_before(r, i, n - 1);
    } else if i > 0 {
        assert(r[i - 1].1 <= r[i].0);
    }
}

/// Law: searching on from the end of match `i` reaches match `i + 1`, and from the last match
/// the first one.
pub proof fn law_find_next_visits_matches_in_turn(
    text: Seq<char>,
    needle: Seq<char>,
    case_sensitive: bool,
    i: int,
)
    requires
        0 <= i < occurrences(text, needle, case_sensitive).len(),
    ensures
        ({
            let m = occurrences(text, needle, case_sensitive);
            next_index(m, m[i].1, 0) == if i + 1 < m.len() {
                i + 1
            } else {
                0
            }
        }),
{
    law_matches_are_complete(text, needle, case_sensitive);
    lemma_next_index_after(occurrences(text, needle, case_sensitive), i, 0);
}

/// Law: searching back from the start of match `i` reaches match `i - 1`, and from the first
/// match the last one.
pub proof fn law_find_prev_visits_matches_in_turn(
    text: Seq<char>,
    needle: Seq<char>,
    case_sensitive: bool,
    i: int,
)
    requires
        0 <= i < occurrences(text, needle, case_sensitive).len(),
    ensures
        ({
            let m = occurrences(text, needle, case_sensitive);
            prev_index(m, m[i].0, m.len() as int) == if i > 0 {
                i - 1
            } else {
                m.len() - 1
            }
        }),
{
    law_matches_are_complete(text, needle, case_sensitive);
    let m = occurrences(text, needle, case_sensitive);
    lemma_prev_index_before(m, i, m.len() as int);
}

// ---------------------------------------------------------------------------
// Matches over lines
// ---------------------------------------------------------------------------

/// The texts of a list of strings.
pub open spec fn views(lines: Seq<String>) -> Seq<Seq<char>> {
    Seq::new(lines.len(), |i: int| lines[i]@)
}

/// The matches of one line, tagged with its row.
pub open spec fn row_hits(row: int, r: Seq<(int, int)>) -> Seq<(int, int, int)> {
    Seq::new(r.len(), |i: int| (row, r[i].0, r[i].1))
}

/// The matches of the first `n` lines, row by row.
pub open spec fn line_hits(
    lines: Seq<Seq<char>>,
    needle: Seq<char>,
    case_sensitive: bool,
    n: int,
) -> Seq<(int, int, int)>
    decreases n,
{
    if n <= 0 {
        Seq::empty()
    } else {
        line_hits(lines, needle, case_sensitive, n - 1) + row_hits(
            n - 1,
            occurrences(lines[n - 1], needle, case_sensitive),
        )
    }
}

/// All matches of a list of lines.
pub open spec fn all_line_hits(
    lines: Seq<Seq<char>>,
    needle: Seq<char>,
    case_sensitive: bool,
) -> Seq<(int, int, int)> {
    line_hits(lines, needle, case_sensitive, lines.len() as int)
}

/// Machine hits as mathematical ones.
pub open spec fn as_int_hits(v: Seq<(usize, usize, usize)>) -> Seq<(int, int, int)> {
    Seq::new(v.len(), |i: int| (v[i].0 as int, v[i].1 as int, v[i].2 as int))
}

/// All matches of a list of lines, as row, start and end.
pub fn collect_line_hits(lines: &[String], needle: &str, case_sensitive: bool) -> (r: Vec<
    (usize, usize, usize),
>)
    ensures
        as_int_hits(r@) == all_line_hits(views(lines@), needle@, case_sensitive),
{
    let mut hits: Vec<(usize, usize, usize)> = Vec::new();
    let ghost texts = views(lines@);
    let mut row: usize = 0;
    assert(as_int_hits(hits@) =~= Seq::<(int, int, int)>::empty());
    while row < lines.len()
        invariant
            row <= lines@.len(),
            texts == views(lines@),
            as_int_hits(hits@) == line_hits(texts, needle@, case_sensitive, row as int),
        decreases lines@.len() - row,
    {
        let ranges = find_match_ranges(lines[row].as_str(), needle, case_sensitive);
        let ghost before = as_int_hits(hits@);
        let ghost m = as_int_ranges(ranges@);
        let mut i: usize = 0;
        assert(before + row_hits(row as int, m.take(0)) =~= before);
        while i < ranges.len()
            invariant
                i <= ranges@.len(),
                m == as_int_ranges(ranges@),
                as_int_hits(hits@) == before + row_hits(row as int, m.take(i as int)),
            decreases ranges@.len() - i,
        {
            let ghost prev = as_int_hits(hits@);
            hits.push((row, ranges[i].0, ranges[i].1));
            proof {
                let hit = (row as int, m[i as int].0, m[i as int].1);
                assert(as_int_hits(hits@) =~= prev.push(hit));
                assert(row_hits(row as int, m.take(i + 1)) =~= row_hits(
                    row as int,
                    m.take(i as int),
                ).push(hit));
            }
            i = i + 1;
        }
        assert(m.take(i as int) =~= m);
        row = row + 1;
    }
    hits
}

/// Whether a hit lies at or after row `row`, column `col`.
pub open spec fn hit_from(hit: (int, int, int), row: int, col: int) -> bool {
    hit.0 > row || (hit.0 == row && hit.1 >= col)
}

/// The first hit at index `i` or later that lies at or after the position; the first hit of
/// all when there is none.
pub open spec fn next_hit_index(h: Seq<(int, int, int)>, row: int, col: int, i: int) -> int
    decreases h.len() - i,
{
    if i < 0 || i >= h.len() {
        0
    } else if hit_from(h[i], row, col) {
        i
    } else {
        next_hit_index(h, row, col, i + 1)
    }
}

/// The last hit below index `n` that lies before the position; the last hit of all when
/// there is none.
pub open spec fn prev_hit_index(h: Seq<(int, int, int)>, row: int, col: int, n: int) -> int
    decreases n,
{
    if n <= 0 {
        h.len() - 1
    } else if !hit_from(h[n - 1], row, col) {
        n - 1
    } else {
        prev_hit_index(h, row, col, n - 1)
    }
}

/// What stepping to hit `index` reports: row, start, end, ordinal and total.
pub open spec fn reported_hit(h: Seq<(int, int, int)>, index: int) -> (int, int, int, int, int) {
    (h[index].0, h[index].1, h[index].2, index + 1, h.len() as int)
}

/// A machine report as a mathematical one.
pub open spec fn as_int_report(f: (usize, usize, usize, usize, usize)) -> (
    int,
    int,
    int,
    int,
    int,
) {
    (f.0 as int, f.1 as int, f.2 as int, f.3 as int, f.4 as int)
}

/// Finds the first match at or after a row and column, wrapping to the first match.
pub fn find_next_in_lines(
    lines: &[String],
    needle: &str,
    after_row: usize,
    after_col: usize,
    case_sensitive: bool,
) -> (r: Option<(usize, usize, usize, usize, usize)>)
    ensures
        ({
            let h = all_line_hits(views(lines@), needle@, case_sensitive);
            match r {
                Some(f) => h.len() > 0 && as_int_report(f) == reported_hit(
                    h,
                    next_hit_index(h, after_row as int, after_col as int, 0),
                ),
                None => h.len() == 0,
            }
        }),
{
    let hits = collect_line_hits(lines, needle, case_sensitive);
    let ghost h = as_int_hits(hits@);
    let total: usize = hits.len();
    if total == 0 {
        return None;
    }
    let mut index: usize = 0;
    while index < total && !(hits[index].0 > after_row || (hits[index].0 == after_row
        && hits[index].1 >= after_col))
        invariant
            index <= total == hits@.len(),
            h == as_int_hits(hits@),
            next_hit_index(h, after_row as int, after_col as int, 0) == next_hit_index(
                h,
                after_row as int,
                after_col as int,
                index as int,
            ),
        decreases total - index,
    {
        index = index + 1;
    }
    if index == total {
        index = 0;
    }
    Some((hits[index].0, hits[index].1, hits[index].2, index + 1, total))
}

/// Finds the last match before a row and column, wrapping to the last match.
pub fn find_prev_in_lines(
    lines: &[String],
    needle: &str,
    before_row: usize,
    before_col: usize,
    case_sensitive: bool,
) -> (r: Option<(usize, usize, usize, usize, usize)>)
    ensures
        ({
            let h = all_line_hits(views(lines@), needle@, case_sensitive);
            match r {
                Some(f) => h.len() > 0 && as_int_report(f) == reported_hit(
                    h,
                    prev_hit_index(h, before_row as int, before_col as int, h.len() as int),
                ),
                None => h.len() == 0,
            }
        }),
{
    let hits = collect_line_hits(lines, needle, case_sensitive);
    let ghost h = as_int_hits(hits@);
    let total: usize = hits.len();
    if total == 0 {
        return None;
    }
    let mut n: usize = total;
    while n > 0 && (hits[n - 1].0 > before_row || (hits[n - 1].0 == before_row && hits[n - 1].1
        >= before_col))
        invariant
            n <= total == hits@.len(),
            h == as_int_hits(hits@),
            prev_hit_index(h, before_row as int, before_col as int, total as int)
                == prev_hit_index(h, before_row as int, before_col as int, n as int),
        decreases n,
    {
        n = n - 1;
    }
    let index: usize = if n > 0 {
        n - 1
    } else {
        total - 1
    };
    Some((hits[index].0, hits[index].1, hits[index].2, index + 1, total))
}

/// Each hit of the first `n` lines lies on one of them and ends before the hits behind it start.
pub open spec fn hits_in_order(h: Seq<(int, int, int)>, n: int) -> bool {
    &&& forall|i: int|
        0 <= i < h.len() ==> 0 <= (#[trigger] h[i]).0 < n && h[i].1 < h[i].2
    &&& forall|i: int, j: int|
        0 <= i < j < h.len() ==> hit_from(#[trigger] h[j], (#[trigger] h[i]).0, h[i].2)
}

proof fn lemma_line_hits_in_order(
    lines: Seq<Seq<char>>,
    needle: Seq<char>,
    case_sensitive: bool,
    n: int,
)
    ensures
        hits_in_order(line_hits(lines, needle, case_sensitive, n), n),
    decreases n,
{
    if n > 0 {
        lemma_line_hits_in_order(lines, needle, case_sensitive, n - 1);
        let front = line_hits(lines, needle, case_sensitive, n - 1);
        let m = occurrences(lines[n - 1], needle, case_sensitive);
        let tail = row_hits(n - 1, m);
        let h = front + tail;
        if needle.len() > 0 {
            law_matches_are_complete(lines[n - 1], needle, case_sensitive);
        }
        assert forall|i: int| 0 <= i < h.len() implies 0 <= (#[trigger] h[i]).0 < n && h[i].1
            < h[i].2 by {
            if i < front.len() {
                assert(h[i] == front[i]);
            } else {
                assert(h[i] == tail[i - front.len()]);
                assert(m[i - front.len()].0 < m[i - front.len()].1);
            }
        }
        assert forall|i: int, j: int| 0 <= i < j < h.len() implies hit_from(
            #[trigger] h[j],
            (#[trigger] h[i]).0,
            h[i].2,
        ) by {
            if j < front.len() {
                assert(h[i] == front[i] && h[j] == front[j]);
            } else if i < front.len() {
                assert(h[i] == front[i] && h[j] == tail[j - front.len()]);
            } else {
                assert(h[i] == tail[i - front.len()] && h[j] == tail[j - front.len()]);
                assert(m[i - front.len()].1 <= m[j - front.len()].0);
            }
        }
    }
}

proof fn lemma_next_hit_after(h: Seq<(int, int, int)>, n: int, i: int, k: int)
    requires
        hits_in_order(h, n),
        0 <= i < h.len(),
        0 <= k <= i + 1,
    ensures
        next_hit_index(h, h[i].0, h[i].2, k) == if i + 1 < h.len() {
            i + 1
        } else {
            0
        },
    decreases i + 1 - k,
{
    if k <= i {
        if k < i {
            assert(hit_from(h[i], h[k].0, h[k].2));
        }
        assert(!hit_from(h[k], h[i].0, h[i].2));
        lemma_next_hit_after(h, n, i, k + 1);
    } else if i + 1 < h.len() {
        assert(hit_from(h[i + 1], h[i].0, h[i].2));
    }
}

/// Law: searching on from the end of hit `i` of a list of lines reaches hit `i + 1`, and from
/// the last hit the first one.
pub proof fn law_find_next_in_lines_visits_hits_in_turn(
    lines: Seq<Seq<char>>,
    needle: Seq<char>,
    case_sensitive: bool,
    i: int,
)
    requires
        0 <= i < all_line_hits(lines, needle, case_sensitive).len(),
    ensures
        ({
            let h = all_line_hits(lines, needle, case_sensitive);
            next_hit_index(h, h[i].0, h[i].2, 0) == if i + 1 < h.len() {
                i + 1
            } else {
                0
            }
        }),
{
    lemma_line_hits_in_order(lines, needle, case_sensitive, lines.len() as int);
    lemma_next_hit_after(
        all_line_hits(lines, needle, case_sensitive),
        lines.len() as int,
        i,
        0,
    );
}

proof fn lemma_prev_hit_before(h: Seq<(int, int, int)>, n: int, i: int, k: int)
    requires
        hits_in_order(h, n),
        0 <= i < h.len(),
        i <= k <= h.len(),
    ensures
        prev_hit_index(h, h[i].0, h[i].1, k) == if i > 0 {
            i - 1
        } else {
            h.len() - 1
        },
    decreases k - i,
{
    if k > i {
        if k - 1 > i {
            assert(hit_from(h[k - 1], h[i].0, h[i].2));
        }
        assert(hit_from(h[k - 1], h[i].0, h[i].1));
        lemma_prev_hit_before(h, n, i, k - 1);
    } else if i > 0 {
        assert(hit_from(h[i], h[i - 1].0, h[i - 1].2));
        assert(!hit_from(h[i - 1], h[i].0, h[i].1));
    }
}

/// Law: searching back from the start of hit `i` of a list of lines reaches hit `i - 1`, and
/// from the first hit the last one.
pub proof fn law_find_prev_in_lines_visits_hits_in_turn(
    lines: Seq<Seq<char>>,
    needle: Seq<char>,
    case_sensitive: bool,
    i: int,
)
    requires
        0 <= i < all_line_hits(lines, needle, case_sensitive).len(),
    ensures
        ({
            let h = all_line_hits(lines, needle, case_sensitive);
            prev_hit_index(h, h[i].0, h[i].1, h.len() as int) == if i > 0 {
                i - 1
            } else {
                h.len() - 1
            }
        }),
{
    let h = all_line_hits(lines, needle, case_sensitive);
    lemma_line_hits_in_order(lines, needle, case_sensitive, lines.len() as int);
    lemma_prev_hit_before(h, lines.len() as int, i, h.len() as int);
}

/// The first range at index `i` or later that touches column `col`.
pub open spec fn touching_index(r: Seq<(int, int)>, col: int, i: int) -> Option<int>
    decreases r.len() - i,
{
    if i < 0 || i >= r.len() {
        None
    } else if r[i].0 <= col <= r[i].1 {
        Some(i)
    } else {
        touching_index(r, col, i + 1)
    }
}

/// The match that touches column `col`, or else the first match of the line.
pub fn current_line_match(line: &str, needle: &str, col: usize, case_sensitive: bool) -> (r: Option<
    (usize, usize),
>)
    ensures
        ({
            let m = occurrences(line@, needle@, case_sensitive);
            match r {
                Some(f) => m.len() > 0 && (f.0 as int, f.1 as int) == match touching_index(
                    m,
                    col as int,
                    0,
                ) {
                    Some(i) => m[i],
                    None => m[0],
                },
                None => m.len() == 0,
            }
        }),
{
    let ranges = find_match_ranges(line, needle, case_sensitive);
    let ghost m = as_int_ranges(ranges@);
    if ranges.len() == 0 {
        return None;
    }
    let mut i: usize = 0;
    while i < ranges.len()
        invariant
            i <= ranges@.len(),
            ranges@.len() > 0,
            m == as_int_ranges(ranges@),
            m == occurrences(line@, needle@, case_sensitive),
            touching_index(m, col as int, 0) == touching_index(m, col as int, i as int),
        decreases ranges@.len() - i,
    {
        if ranges[i].0 <= col && col <= ranges[i].1 {
            return Some(ranges[i]);
        }
        i = i + 1;
    }
    Some(ranges[0])
}

// ---------------------------------------------------------------------------
// Replacing
// ---------------------------------------------------------------------------

/// `text` from `from` on, with `replacement` in place of every match of `needle` in `hay`.
pub open spec fn replaced_from(
    text: Seq<char>,
    hay: Seq<char>,
    needle: Seq<char>,
    replacement: Seq<char>,
    from: int,
) -> Seq<char>
    decreases hay.len() - from,
{
    if needle.len() == 0 || from < 0 || from + needle.len() > hay.len() {
        text.skip(from)
    } else if matches_at(hay, needle, from) {
        replacement + replaced_from(text, hay, needle, replacement, from + needle.len())
    } else {
        seq![text[from]] + replaced_from(text, hay, needle, replacement, from + 1)
    }
}

/// `text` with every occurrence of `needle` replaced.
pub open spec fn replaced(
    text: Seq<char>,
    needle: Seq<char>,
    replacement: Seq<char>,
    case_sensitive: bool,
) -> Seq<char> {
    replaced_from(
        text,
        folded(text, case_sensitive),
        folded(needle, case_sensitive),
        replacement,
        0,
    )
}

/// Replaces every occurrence of `needle` and returns how many there were.
pub fn replace_all_matches(
    text: &mut String,
    needle: &str,
    replacement: &str,
    case_sensitive: bool,
) -> (count: usize)
    ensures
        final(text)@ == replaced(old(text)@, needle@, replacement@, case_sensitive),
        count == occurrences(old(text)@, needle@, case_sensitive).len(),
{
    let ghost s = text@;
    let t = chars_of(text.as_str());
    let h = folded_chars(text.as_str(), case_sensitive);
    let n = folded_chars(needle, case_sensitive);
    if n.len() == 0 || n.len() > h.len() {
        assert(s.skip(0) =~= s);
        return 0;
    }
    let last: usize = h.len() - n.len();
    let mut out = String::new();
    let mut at: usize = 0;
    let mut count: usize = 0;
    assert(out@ + replaced_from(t@, h@, n@, replacement@, 0) =~= replaced_from(
        t@,
        h@,
        n@,
        replacement@,
        0,
    ));
    while at <= last
        invariant
            n@.len() > 0,
            t@.len() == h@.len(),
            last + n.len() == h.len(),
            at <= h@.len(),
            count <= at,
            count + match_ranges(h@, n@, at as int).len() == match_ranges(h@, n@, 0).len(),
            out@ + replaced_from(t@, h@, n@, replacement@, at as int) == replaced_from(
                t@,
                h@,
                n@,
                replacement@,
                0,
            ),
        decreases h@.len() - at,
    {
        let ghost before = out@;
        if chars_match_at(&h, &n, at) {
            let ghost rest = replaced_from(t@, h@, n@, replacement@, at + n@.len());
            out.append(replacement);
            assert(out@ + rest =~= before + (replacement@ + rest));
            count = count + 1;
            at = at + n.len();
        } else {
            let ghost rest = replaced_from(t@, h@, n@, replacement@, at + 1);
            out.push(t[at]);
            assert(out@ + rest =~= before + (seq![t@[at as int]] + rest));
            at = at + 1;
        }
    }
    let tail = string_of_chars_from(&t, at);
    out.append(tail.as_str());
    *text = out;
    count
}

/// The text of `v` from index `from` on.
fn string_of_chars_from(v: &Vec<char>, from: usize) -> (r: String)
    requires
        from <= v@.len(),
    ensures
        r@ == v@.skip(from as int),
{
    assert(v@.subrange(from as int, v@.len() as int) =~= v@.skip(from as int));
    crate::text::string_of_range(v, from, v.len())
}

/// How many matches the first `n` lines hold.
pub open spec fn match_total(
    lines: Seq<Seq<char>>,
    needle: Seq<char>,
    case_sensitive: bool,
    n: int,
) -> nat
    decreases n,
{
    if n <= 0 {
        0
    } else {
        match_total(lines, needle, case_sensitive, n - 1) + occurrences(
            lines[n - 1],
            needle,
            case_sensitive,
        ).len()
    }
}

proof fn lemma_match_total_monotone(
    lines: Seq<Seq<char>>,
    needle: Seq<char>,
    case_sensitive: bool,
    a: int,
    b: int,
)
    requires
        a <= b,
    ensures
        match_total(lines, needle, case_sensitive, a) <= match_total(
            lines,
            needle,
            case_sensitive,
            b,
        ),
    decreases b - a,
{
    if a < b && b > 0 {
        lemma_match_total_monotone(lines, needle, case_sensitive, a, b - 1);
    }
}

/// Replaces every occurrence in every line and returns how many there were.
pub fn replace_all_in_lines(
    lines: &mut Vec<String>,
    needle: &str,
    replacement: &str,
    case_sensitive: bool,
) -> (count: usize)
    requires
        match_total(views(old(lines)@), needle@, case_sensitive, old(lines)@.len() as int)
            <= usize::MAX,
    ensures
        final(lines)@.len() == old(lines)@.len(),
        forall|i: int|
            0 <= i < old(lines)@.len() ==> (#[trigger] final(lines)@[i])@ == replaced(
                old(lines)@[i]@,
                needle@,
                replacement@,
                case_sensitive,
            ),
        count == match_total(
            views(old(lines)@),
            needle@,
            case_sensitive,
            old(lines)@.len() as int,
        ),
{
    let ghost before = lines@;
    let ghost texts = views(before);
    let mut count: usize = 0;
    let mut i: usize = 0;
    while i < lines.len()
        invariant
            i <= lines@.len() == before.len(),
            texts == views(before),
            match_total(texts, needle@, case_sensitive, before.len() as int) <= usize::MAX,
            count == match_total(texts, needle@, case_sensitive, i as int),
            forall|j: int| i <= j < before.len() ==> #[trigger] lines@[j] == before[j],
            forall|j: int|
                0 <= j < i ==> (#[trigger] lines@[j])@ == replaced(
                    before[j]@,
                    needle@,
                    replacement@,
                    case_sensitive,
                ),
        decreases before.len() - i,
    {
        let mut line = lines[i].clone();
        let found: usize = replace_all_matches(&mut line, needle, replacement, case_sensitive);
        proof {
            lemma_match_total_monotone(
                texts,
                needle@,
                case_sensitive,
                i + 1,
                before.len() as int,
            );
        }
        count = count + found;
        lines.set(i, line);
        i = i + 1;
    }
    count
}

proof fn lemma_replace_by_itself(text: Seq<char>, needle: Seq<char>, from: int)
    requires
        0 <= from <= text.len(),
    ensures
        replaced_from(text, text, needle, needle, from) == text.skip(from),
    decreases text.len() - from,
{
    if needle.len() == 0 || from + needle.len() > text.len() {
    } else if matches_at(text, needle, from) {
        lemma_replace_by_itself(text, needle, from + needle.len());
        assert(text.skip(from) =~= needle + text.skip(from + needle.len()));
    } else {
        lemma_replace_by_itself(text, needle, from + 1);
        assert(text.skip(from) =~= seq![text[from]] + text.skip(from + 1));
    }
}

/// Law: replacing a text by itself, with case respected, changes nothing.
pub proof fn law_replace_by_itself_is_identity(text: Seq<char>, needle: Seq<char>)
    ensures
        replaced(text, needle, needle, true) == text,
{
    lemma_replace_by_itself(text, needle, 0);
    assert(text.skip(0) =~= text);
}

proof fn lemma_replaced_len(
    text: Seq<char>,
    hay: Seq<char>,
    needle: Seq<char>,
    replacement: Seq<char>,
    from: int,
)
    requires
        text.len() == hay.len(),
        0 <= from <= text.len(),
    ensures
        replaced_from(text, hay, needle, replacement, from).len() == text.len() - from
            + match_ranges(hay, needle, from).len() * (replacement.len() - needle.len()),
    decreases hay.len() - from,
{
    let d = replacement.len() - needle.len();
    if needle.len() == 0 || from + needle.len() > hay.len() {
        assert(0 * d == 0) by (nonlinear_arith);
    } else if matches_at(hay, needle, from) {
        lemma_replaced_len(text, hay, needle, replacement, from + needle.len());
        let k = match_ranges(hay, needle, from + needle.len()).len() as int;
        assert((k + 1) * d == k * d + d) by (nonlinear_arith);
    } else {
        lemma_replaced_len(text, hay, needle, replacement, from + 1);
    }
}

/// Law: each replacement changes the length by the difference of the two texts.
pub proof fn law_replace_changes_length_per_match(
    text: Seq<char>,
    needle: Seq<char>,
    replacement: Seq<char>,
    case_sensitive: bool,
)
    ensures
        replaced(text, needle, replacement, case_sensitive).len() == text.len() + occurrences(
            text,
            needle,
            case_sensitive,
        ).len() * (replacement.len() - needle.len()),
{
    lemma_replaced_len(
        text,
        folded(text, case_sensitive),
        folded(needle, case_sensitive),
        replacement,
        0,
    );
}

proof fn lemma_no_match_unchanged(
    text: Seq<char>,
    hay: Seq<char>,
    needle: Seq<char>,
    replacement: Seq<char>,
    from: int,
)
    requires
        text.len() == hay.len(),
        0 <= from <= text.len(),
        match_ranges(hay, needle, from).len() == 0,
    ensures
        replaced_from(text, hay, needle, replacement, from) == text.skip(from),
    decreases hay.len() - from,
{
    if needle.len() == 0 || from + needle.len() > hay.len() {
    } else {
        assert(!matches_at(hay, needle, from));
        lemma_no_match_unchanged(text, hay, needle, replacement, from + 1);
        assert(text.skip(from) =~= seq![text[from]] + text.skip(from + 1));
    }
}

/// Law: without a match the text stays as it is.
pub proof fn law_replace_without_match_is_identity(
    text: Seq<char>,
    needle: Seq<char>,
    replacement: Seq<char>,
    case_sensitive: bool,
)
    requires
        occurrences(text, needle, case_sensitive).len() == 0,
    ensures
        replaced(text, needle, replacement, case_sensitive) == text,
{
    lemma_no_match_unchanged(
        text,
        folded(text, case_sensitive),
        folded(needle, case_sensitive),
        replacement,
        0,
    );
    assert(text.skip(0) =~= text);
}

// ---------------------------------------------------------------------------
// Caret position
// ---------------------------------------------------------------------------

/// How many of `c` stand in `s`.
pub open spec fn count_char(s: Seq<char>, c: char) -> nat
    decreases s.len(),
{
    if s.len() == 0 {
        0
    } else {
        count_char(s.drop_last(), c) + if s.last() == c {
            1nat
        } else {
            0nat
        }
    }
}

/// How many characters follow the last `c` of `s`; all of them when there is none.
pub open spec fn tail_after(s: Seq<char>, c: char) -> nat
    decreases s.len(),
{
    if s.len() == 0 || s.last() == c {
        0
    } else {
        tail_after(s.drop_last(), c) + 1
    }
}

/// The line and the column, both from one, of character position `char_index`.
pub fn line_column_at(text: &str, char_index: usize) -> (r: (usize, usize))
    requires
        text@.len() < usize::MAX,
    ensures
        ({
            let prefix = text@.take(lesser(char_index as int, text@.len() as int));
            r.0 == count_char(prefix, '\n') + 1 && r.1 == tail_after(prefix, '\n') + 1
        }),
{
    let v = chars_of(text);
    let mut line: usize = 0;
    let mut column: usize = 0;
    let mut i: usize = 0;
    assert(v@.take(0) =~= Seq::<char>::empty());
    while i < v.len() && i < char_index
        invariant
            i <= v@.len() < usize::MAX,
            i <= char_index,
            line <= i,
            column <= i,
            line == count_char(v@.take(i as int), '\n'),
            column == tail_after(v@.take(i as int), '\n'),
        decreases v@.len() - i,
    {
        assert(v@.take(i + 1).drop_last() =~= v@.take(i as int));
        if v[i] == '\n' {
            line = line + 1;
            column = 0;
        } else {
            column = column + 1;
        }
        i = i + 1;
    }
    (line + 1, column + 1)
}

// ---------------------------------------------------------------------------
// What holds of searches and replacements
// ---------------------------------------------------------------------------

/// Whether the needle stands at position `p` of a text: its characters are there one by one,
/// up to ASCII case where case does not count.
pub open spec fn stands_at(
    text: Seq<char>,
    needle: Seq<char>,
    case_sensitive: bool,
    p: int,
) -> bool {
    &&& 0 <= p
    &&& p + needle.len() <= text.len()
    &&& forall|k: int|
        0 <= k < needle.len() ==> if case_sensitive {
            text[p + k] == #[trigger] needle[k]
        } else {
            ascii_lower(text[p + k]) == ascii_lower(needle[k])
        }
}

proof fn lemma_stands_at(text: Seq<char>, needle: Seq<char>, case_sensitive: bool, p: int)
    ensures
        stands_at(text, needle, case_sensitive, p) == matches_at(
            folded(text, case_sensitive),
            folded(needle, case_sensitive),
            p,
        ),
{
    let hay = folded(text, case_sensitive);
    let n = folded(needle, case_sensitive);
    if 0 <= p && p + needle.len() <= text.len() {
        let part = hay.subrange(p, p + n.len());
        if stands_at(text, needle, case_sensitive, p) {
            assert forall|k: int| 0 <= k < n.len() implies part[k] == #[trigger] n[k] by {
                assert(needle[k] == needle[k]);
            }
            assert(part =~= n);
        } else if part == n {
            assert forall|k: int| 0 <= k < needle.len() implies if case_sensitive {
                text[p + k] == #[trigger] needle[k]
            } else {
                ascii_lower(text[p + k]) == ascii_lower(needle[k])
            } by {
                assert(part[k] == n[k]);
            }
        }
    }
}

/// Law: the matches are the places where the needle stands, from left to right: each has the
/// length of the needle and lies behind the end of the one before it, and wherever the needle
/// stands a match begins there or covers that place. An empty needle stands nowhere.
pub proof fn law_matches_hold_the_needle(
    text: Seq<char>,
    needle: Seq<char>,
    case_sensitive: bool,
)
    ensures
        ({
            let m = occurrences(text, needle, case_sensitive);
            &&& needle.len() == 0 ==> m.len() == 0
            &&& forall|i: int|
                0 <= i < m.len() ==> stands_at(text, needle, case_sensitive, (#[trigger] m[i]).0)
                    && m[i].1 == m[i].0 + needle.len()
            &&& forall|i: int, j: int|
                0 <= i < j < m.len() ==> (#[trigger] m[i]).1 <= (#[trigger] m[j]).0
            &&& forall|p: int|
                needle.len() > 0 && #[trigger] stands_at(text, needle, case_sensitive, p)
                    ==> exists|i: int| 0 <= i < m.len() && (#[trigger] m[i]).0 <= p < m[i].1
        }),
{
    let m = occurrences(text, needle, case_sensitive);
    if needle.len() > 0 {
        law_matches_are_complete(text, needle, case_sensitive);
        assert forall|i: int| 0 <= i < m.len() implies stands_at(
            text,
            needle,
            case_sensitive,
            (#[trigger] m[i]).0,
        ) && m[i].1 == m[i].0 + needle.len() by {
            lemma_stands_at(text, needle, case_sensitive, m[i].0);
        }
        assert forall|p: int| #[trigger] stands_at(text, needle, case_sensitive, p) implies exists|
            i: int,
        | 0 <= i < m.len() && (#[trigger] m[i]).0 <= p < m[i].1 by {
            lemma_stands_at(text, needle, case_sensitive, p);
            assert(occurs_at(
                folded(text, case_sensitive),
                folded(needle, case_sensitive),
                p,
            ));
            assert(covered(m, p));
        }
    }
}

/// Law: the next match from a position is the first one that starts there or later, and the
/// first of all where none does; the previous one is the last that starts before it, and the
/// last of all where none does.
pub proof fn law_steps_go_to_the_nearest_match(r: Seq<(int, int)>, at: int)
    requires
        r.len() > 0,
    ensures
        ({
            let n = next_index(r, at, 0);
            &&& 0 <= n < r.len()
            &&& r[n].0 >= at ==> forall|k: int| 0 <= k < n ==> (#[trigger] r[k]).0 < at
            &&& r[n].0 < at ==> n == 0 && forall|k: int|
                0 <= k < r.len() ==> (#[trigger] r[k]).0 < at
        }),
        ({
            let p = prev_index(r, at, r.len() as int);
            &&& 0 <= p < r.len()
            &&& r[p].0 < at ==> forall|k: int| p < k < r.len() ==> (#[trigger] r[k]).0 >= at
            &&& r[p].0 >= at ==> p == r.len() - 1 && forall|k: int|
                0 <= k < r.len() ==> (#[trigger] r[k]).0 >= at
        }),
{
    lemma_next_index_is(r, at, 0);
    lemma_prev_index_is(r, at, r.len() as int);
}

proof fn lemma_next_index_is(r: Seq<(int, int)>, at: int, i: int)
    requires
        0 <= i <= r.len(),
        r.len() > 0,
        forall|k: int| 0 <= k < i ==> (#[trigger] r[k]).0 < at,
    ensures
        ({
            let n = next_index(r, at, i);
            &&& 0 <= n < r.len()
            &&& r[n].0 >= at ==> forall|k: int| 0 <= k < n ==> (#[trigger] r[k]).0 < at
            &&& r[n].0 < at ==> n == 0 && forall|k: int|
                0 <= k < r.len() ==> (#[trigger] r[k]).0 < at
        }),
    decreases r.len() - i,
{
    if i < r.len() && r[i].0 < at {
        lemma_next_index_is(r, at, i + 1);
    }
}

proof fn lemma_prev_index_is(r: Seq<(int, int)>, at: int, n: int)
    requires
        0 <= n <= r.len(),
        r.len() > 0,
        forall|k: int| n <= k < r.len() ==> (#[trigger] r[k]).0 >= at,
    ensures
        ({
            let p = prev_index(r, at, n);
            &&& 0 <= p < r.len()
            &&& r[p].0 < at ==> forall|k: int| p < k < r.len() ==> (#[trigger] r[k]).0 >= at
            &&& r[p].0 >= at ==> p == r.len() - 1 && forall|k: int|
                0 <= k < r.len() ==> (#[trigger] r[k]).0 >= at
        }),
    decreases n,
{
    if n > 0 && r[n - 1].0 >= at {
        lemma_prev_index_is(r, at, n - 1);
    }
}

/// Whether a hit starts before a row and column.
pub open spec fn starts_before(hit: (int, int, int), row: int, col: int) -> bool {
    hit.0 < row || (hit.0 == row && hit.1 < col)
}

/// Law: over lines, the next hit from a row and column is the first one that does not start
/// before it, and the first of all where every hit does; the previous one is the last that
/// starts before it, and the last of all where none does.
pub proof fn law_line_steps_go_to_the_nearest_hit(h: Seq<(int, int, int)>, row: int, col: int)
    requires
        h.len() > 0,
    ensures
        ({
            let n = next_hit_index(h, row, col, 0);
            &&& 0 <= n < h.len()
            &&& !starts_before(h[n], row, col) ==> forall|k: int|
                0 <= k < n ==> starts_before(#[trigger] h[k], row, col)
            &&& starts_before(h[n], row, col) ==> n == 0 && forall|k: int|
                0 <= k < h.len() ==> starts_before(#[trigger] h[k], row, col)
        }),
        ({
            let p = prev_hit_index(h, row, col, h.len() as int);
            &&& 0 <= p < h.len()
            &&& starts_before(h[p], row, col) ==> forall|k: int|
                p < k < h.len() ==> !starts_before(#[trigger] h[k], row, col)
            &&& !starts_before(h[p], row, col) ==> p == h.len() - 1 && forall|k: int|
                0 <= k < h.len() ==> !starts_before(#[trigger] h[k], row, col)
        }),
{
    lemma_next_hit_is(h, row, col, 0);
    lemma_prev_hit_is(h, row, col, h.len() as int);
}

proof fn lemma_next_hit_is(h: Seq<(int, int, int)>, row: int, col: int, i: int)
    requires
        0 <= i <= h.len(),
        h.len() > 0,
        forall|k: int| 0 <= k < i ==> starts_before(#[trigger] h[k], row, col),
    ensures
        ({
            let n = next_hit_index(h, row, col, i);
            &&& 0 <= n < h.len()
            &&& !starts_before(h[n], row, col) ==> forall|k: int|
                0 <= k < n ==> starts_before(#[trigger] h[k], row, col)
            &&& starts_before(h[n], row, col) ==> n == 0 && forall|k: int|
                0 <= k < h.len() ==> starts_before(#[trigger] h[k], row, col)
        }),
    decreases h.len() - i,
{
    if i < h.len() && starts_before(h[i], row, col) {
        lemma_next_hit_is(h, row, col, i + 1);
    }
}

proof fn lemma_prev_hit_is(h: Seq<(int, int, int)>, row: int, col: int, n: int)
    requires
        0 <= n <= h.len(),
        h.len() > 0,
        forall|k: int| n <= k < h.len() ==> !starts_before(#[trigger] h[k], row, col),
    ensures
        ({
            let p = prev_hit_index(h, row, col, n);
            &&& 0 <= p < h.len()
            &&& starts_before(h[p], row, col) ==> forall|k: int|
                p < k < h.len() ==> !starts_before(#[trigger] h[k], row, col)
            &&& !starts_before(h[p], row, col) ==> p == h.len() - 1 && forall|k: int|
                0 <= k < h.len() ==> !starts_before(#[trigger] h[k], row, col)
        }),
    decreases n,
{
    if n > 0 && !starts_before(h[n - 1], row, col) {
        lemma_prev_hit_is(h, row, col, n - 1);
    }
}

/// Law: the hits of a list of lines are the matches of its lines, from the first line to the
/// last and from left to right: every hit is a match of the line that it names, every match of
/// a line is a hit, and the hits of one line or of two stand in order. There are as many hits
/// as the lines have matches in all.
pub proof fn law_line_hits_are_the_matches(
    lines: Seq<Seq<char>>,
    needle: Seq<char>,
    case_sensitive: bool,
)
    ensures
        ({
            let h = all_line_hits(lines, needle, case_sensitive);
            &&& forall|i: int|
                0 <= i < h.len() ==> 0 <= (#[trigger] h[i]).0 < lines.len() && stands_at(
                    lines[h[i].0],
                    needle,
                    case_sensitive,
                    h[i].1,
                ) && h[i].2 == h[i].1 + needle.len()
            &&& forall|row: int, k: int|
                0 <= row < lines.len() && 0 <= k < occurrences(
                    lines[row],
                    needle,
                    case_sensitive,
                ).len() ==> h.contains(
                    (
                        row,
                        #[trigger] occurrences(lines[row], needle, case_sensitive)[k].0,
                        occurrences(lines[row], needle, case_sensitive)[k].1,
                    ),
                )
            &&& forall|i: int, j: int|
                0 <= i < j < h.len() ==> (#[trigger] h[i]).0 < (#[trigger] h[j]).0 || (h[i].0
                    == h[j].0 && h[i].2 <= h[j].1)
            &&& h.len() == match_total(lines, needle, case_sensitive, lines.len() as int)
        }),
{
    let n = lines.len() as int;
    let h = all_line_hits(lines, needle, case_sensitive);
    lemma_line_hits_in_order(lines, needle, case_sensitive, n);
    lemma_hits_are_matches(lines, needle, case_sensitive, n);
    assert forall|i: int, j: int| 0 <= i < j < h.len() implies (#[trigger] h[i]).0 < (
    #[trigger] h[j]).0 || (h[i].0 == h[j].0 && h[i].2 <= h[j].1) by {
        assert(hit_from(h[j], h[i].0, h[i].2));
    }
}

proof fn lemma_hits_are_matches(
    lines: Seq<Seq<char>>,
    needle: Seq<char>,
    case_sensitive: bool,
    n: int,
)
    requires
        0 <= n <= lines.len(),
    ensures
        ({
            let h = line_hits(lines, needle, case_sensitive, n);
            &&& forall|i: int|
                0 <= i < h.len() ==> 0 <= (#[trigger] h[i]).0 < n && stands_at(
                    lines[h[i].0],
                    needle,
                    case_sensitive,
                    h[i].1,
                ) && h[i].2 == h[i].1 + needle.len()
            &&& forall|row: int, k: int|
                0 <= row < n && 0 <= k < occurrences(lines[row], needle, case_sensitive).len()
                    ==> h.contains(
                    (
                        row,
                        #[trigger] occurrences(lines[row], needle, case_sensitive)[k].0,
                        occurrences(lines[row], needle, case_sensitive)[k].1,
                    ),
                )
            &&& h.len() == match_total(lines, needle, case_sensitive, n)
        }),
    decreases n,
{
    if n > 0 {
        lemma_hits_are_matches(lines, needle, case_sensitive, n - 1);
        law_matches_hold_the_needle(lines[n - 1], needle, case_sensitive);
        let front = line_hits(lines, needle, case_sensitive, n - 1);
        let m = occurrences(lines[n - 1], needle, case_sensitive);
        let tail = row_hits(n - 1, m);
        let h = front + tail;
        assert forall|i: int| 0 <= i < h.len() implies 0 <= (#[trigger] h[i]).0 < n && stands_at(
            lines[h[i].0],
            needle,
            case_sensitive,
            h[i].1,
        ) && h[i].2 == h[i].1 + needle.len() by {
            if i < front.len() {
                assert(h[i] == front[i]);
            } else {
                assert(h[i] == (n - 1, m[i - front.len()].0, m[i - front.len()].1));
            }
        }
        assert forall|row: int, k: int|
            0 <= row < n && 0 <= k < occurrences(
                lines[row],
                needle,
                case_sensitive,
            ).len() implies h.contains(
            (
                row,
                #[trigger] occurrences(lines[row], needle, case_sensitive)[k].0,
                occurrences(lines[row], needle, case_sensitive)[k].1,
            ),
        ) by {
            let o = occurrences(lines[row], needle, case_sensitive)[k];
            if row < n - 1 {
                assert(front.contains((row, o.0, o.1)));
                let i = choose|i: int| 0 <= i < front.len() && front[i] == (row, o.0, o.1);
                assert(h[i] == (row, o.0, o.1));
            } else {
                assert(h[front.len() + k] == (row, o.0, o.1));
            }
        }
    }
}

/// Law: replacing all matches keeps the text before the first one, puts the replacement in its
/// place and goes on behind it in the same way. The replacement itself is not searched.
pub proof fn law_replace_goes_from_match_to_match(
    text: Seq<char>,
    needle: Seq<char>,
    replacement: Seq<char>,
    case_sensitive: bool,
)
    ensures
        ({
            let m = occurrences(text, needle, case_sensitive);
            let r = replaced(text, needle, replacement, case_sensitive);
            if m.len() == 0 {
                r == text
            } else {
                r == text.take(m[0].0) + replacement + replaced(
                    text.skip(m[0].1),
                    needle,
                    replacement,
                    case_sensitive,
                )
            }
        }),
{
    let m = occurrences(text, needle, case_sensitive);
    let hay = folded(text, case_sensitive);
    let n = folded(needle, case_sensitive);
    if m.len() == 0 {
        law_replace_without_match_is_identity(text, needle, replacement, case_sensitive);
    } else {
        lemma_replaced_start(text, hay, n, replacement, 0);
        lemma_replaced_from_there(text, hay, n, replacement, m[0].1, 0);
        assert(folded(text.skip(m[0].1), case_sensitive) =~= hay.skip(m[0].1));
        assert(text.subrange(0, m[0].0) =~= text.take(m[0].0));
    }
}

proof fn lemma_replaced_start(
    text: Seq<char>,
    hay: Seq<char>,
    needle: Seq<char>,
    replacement: Seq<char>,
    from: int,
)
    requires
        0 <= from,
        text.len() == hay.len(),
        match_ranges(hay, needle, from).len() > 0,
    ensures
        ({
            let m = match_ranges(hay, needle, from)[0];
            &&& from <= m.0 < m.1 <= text.len()
            &&& replaced_from(text, hay, needle, replacement, from) == text.subrange(from, m.0)
                + replacement + replaced_from(text, hay, needle, replacement, m.1)
        }),
    decreases hay.len() - from,
{
    if matches_at(hay, needle, from) {
        assert(text.subrange(from, from) + replacement =~= replacement);
    } else {
        lemma_replaced_start(text, hay, needle, replacement, from + 1);
        let m = match_ranges(hay, needle, from)[0];
        let rest = replacement + replaced_from(text, hay, needle, replacement, m.1);
        assert(seq![text[from]] + (text.subrange(from + 1, m.0) + replacement + replaced_from(
            text,
            hay,
            needle,
            replacement,
            m.1,
        )) =~= text.subrange(from, m.0) + replacement + replaced_from(
            text,
            hay,
            needle,
            replacement,
            m.1,
        ));
    }
}

proof fn lemma_replaced_from_there(
    text: Seq<char>,
    hay: Seq<char>,
    needle: Seq<char>,
    replacement: Seq<char>,
    cut: int,
    from: int,
)
    requires
        0 <= from,
        0 <= cut,
        cut + from <= text.len(),
        text.len() == hay.len(),
    ensures
        replaced_from(text, hay, needle, replacement, cut + from) == replaced_from(
            text.skip(cut),
            hay.skip(cut),
            needle,
            replacement,
            from,
        ),
    decreases hay.len() - from,
{
    let (t, h) = (text.skip(cut), hay.skip(cut));
    if needle.len() == 0 || from + needle.len() > h.len() {
        assert(text.skip(cut + from) =~= t.skip(from));
    } else {
        assert(hay.subrange(cut + from, cut + from + needle.len()) =~= h.subrange(
            from,
            from + needle.len(),
        ));
        if matches_at(h, needle, from) {
            lemma_replaced_from_there(text, hay, needle, replacement, cut, from + needle.len());
        } else {
            lemma_replaced_from_there(text, hay, needle, replacement, cut, from + 1);
        }
    }
}

/// Law: replacing a range leaves what stands before it and behind it, with the replacement in
/// between.
pub proof fn law_splice_keeps_both_ends(
    s: Seq<char>,
    start: int,
    end: int,
    replacement: Seq<char>,
)
    requires
        0 <= start <= end <= s.len(),
    ensures
        ({
            let r = spliced(s, start, end, replacement);
            let stop = start + replacement.len();
            &&& r.len() == s.len() - (end - start) + replacement.len()
            &&& r.subrange(0, start) == s.subrange(0, start)
            &&& r.subrange(start, stop) == replacement
            &&& r.subrange(stop, r.len() as int) == s.subrange(end, s.len() as int)
        }),
{
    let r = spliced(s, start, end, replacement);
    let stop = start + replacement.len();
    assert(r.subrange(0, start) =~= s.subrange(0, start));
    assert(r.subrange(start, stop) =~= replacement);
    assert(r.subrange(stop, r.len() as int) =~= s.subrange(end, s.len() as int));
}

/// Law: the match that a replacement works on touches the caret, where a match of the line
/// does, and no match before it does.
pub proof fn law_touching_match_is_the_first(r: Seq<(int, int)>, col: int)
    ensures
        match touching_index(r, col, 0) {
            Some(i) => 0 <= i < r.len() && r[i].0 <= col <= r[i].1 && forall|k: int|
                0 <= k < i ==> col < (#[trigger] r[k]).0 || r[k].1 < col,
            None => forall|k: int|
                0 <= k < r.len() ==> col < (#[trigger] r[k]).0 || r[k].1 < col,
        },
{
    lemma_touching_is(r, col, 0);
}

proof fn lemma_touching_is(r: Seq<(int, int)>, col: int, i: int)
    requires
        0 <= i <= r.len(),
        forall|k: int| 0 <= k < i ==> col < (#[trigger] r[k]).0 || r[k].1 < col,
    ensures
        match touching_index(r, col, i) {
            Some(j) => i <= j < r.len() && r[j].0 <= col <= r[j].1 && forall|k: int|
                0 <= k < j ==> col < (#[trigger] r[k]).0 || r[k].1 < col,
            None => forall|k: int|
                0 <= k < r.len() ==> col < (#[trigger] r[k]).0 || r[k].1 < col,
        },
    decreases r.len() - i,
{
    if i < r.len() && !(r[i].0 <= col <= r[i].1) {
        lemma_touching_is(r, col, i + 1);
    }
}

/// Law: the caret's line is one more than the line ends before it, and its column counts from
/// the last of them: a character moves the caret one column on, a line end to the first column
/// of the next line.
pub proof fn law_caret_moves_with_the_text(s: Seq<char>, c: char)
    ensures
        count_char(Seq::empty(), '\n') == 0,
        tail_after(Seq::empty(), '\n') == 0,
        c == '\n' ==> count_char(s.push(c), '\n') == count_char(s, '\n') + 1 && tail_after(
            s.push(c),
            '\n',
        ) == 0,
        c != '\n' ==> count_char(s.push(c), '\n') == count_char(s, '\n') && tail_after(
            s.push(c),
            '\n',
        ) == tail_after(s, '\n') + 1,
{
    assert(s.push(c).drop_last() =~= s);
}

/// Law: byte offsets count one byte for ASCII characters, and a character further on is at
/// least one and at most four bytes further on.
pub proof fn law_byte_offsets_grow_by_characters(s: Seq<char>, i: int)
    requires
        0 <= i < s.len(),
    ensures
        byte_offset(s, 0) == 0,
        byte_offset(s, i) < byte_offset(s, i + 1) <= byte_offset(s, i) + 4,
        (s[i] as u32) <= 0x7f ==> byte_offset(s, i + 1) == byte_offset(s, i) + 1,
{
    assert(s.take(0) =~= Seq::<char>::empty());
    assert(s.take(i + 1).drop_last() =~= s.take(i));
}

/// Law: a match is reported with its place, its number among the matches counted from one, and
/// how many there are.
pub proof fn law_matches_are_counted_from_one(
    r: Seq<(int, int)>,
    h: Seq<(int, int, int)>,
    index: int,
)
    ensures
        0 <= index < r.len() ==> ({
            let m = reported(r, index);
            m.0 == r[index].0 && m.1 == r[index].1 && 1 <= m.2 <= m.3 && m.2 == index + 1 && m.3
                == r.len()
        }),
        0 <= index < h.len() ==> ({
            let m = reported_hit(h, index);
            m.0 == h[index].0 && m.1 == h[index].1 && m.2 == h[index].2 && 1 <= m.3 <= m.4 && m.3
                == index + 1 && m.4 == h.len()
        }),
{
}

} // verus!
