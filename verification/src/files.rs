//! Log files: names, paths, write retries and the folder browser.
use vstd::prelude::*;
use vstd::string::*;

use crate::text;

verus! {

broadcast use vstd::string::group_string_axioms;

// ---------------------------------------------------------------------------
// Names
// ---------------------------------------------------------------------------

/// Characters that a file name cannot hold.
pub open spec fn reserved_char(c: char) -> bool {
    c == '<' || c == '>' || c == ':' || c == '"' || c == '/' || c == '\\' || c == '|' || c == '?'
        || c == '*'
}

/// Tests for a character that a file name cannot hold.
pub fn is_reserved_char(c: char) -> (r: bool)
    ensures
        r == reserved_char(c),
{
    c == '<' || c == '>' || c == ':' || c == '"' || c == '/' || c == '\\' || c == '|' || c == '?'
        || c == '*'
}

/// Whether `name` can name a log: it is not empty, neither ends in a dot nor in a blank, and
/// holds neither control nor reserved characters.
pub open spec fn valid_log_name(name: Seq<char>) -> bool {
    &&& name.len() > 0
    &&& name.last() != '.'
    &&& name.last() != ' '
    &&& forall|i: int|
        0 <= i < name.len() ==> !text::control_char(#[trigger] name[i]) && !reserved_char(name[i])
}

/// The trimmed name, if it can name a log.
pub fn normalized_log_name(raw: &str) -> (r: Result<String, ()>)
    ensures
        match r {
            Ok(name) => name@ == text::trimmed(raw@) && valid_log_name(name@),
            Err(_) => !valid_log_name(text::trimmed(raw@)),
        },
{
    let name = text::trim(raw);
    let v = text::chars_of(name.as_str());
    if v.len() == 0 || v[v.len() - 1] == '.' || v[v.len() - 1] == ' ' {
        return Err(());
    }
    let mut i: usize = 0;
    while i < v.len()
        invariant
            i <= v@.len(),
            v@ == name@,
            name@ == text::trimmed(raw@),
            forall|k: int|
                0 <= k < i ==> !text::control_char(#[trigger] v@[k]) && !reserved_char(v@[k]),
        decreases v@.len() - i,
    {
        if text::is_control_char(v[i]) || is_reserved_char(v[i]) {
            assert(!valid_log_name(name@)) by {
                assert(text::control_char(name@[i as int]) || reserved_char(name@[i as int]));
            }
            return Err(());
        }
        i = i + 1;
    }
    Ok(name)
}

/// Law: a name that was accepted is accepted again and stays the same.
pub proof fn law_accepted_name_is_stable(raw: Seq<char>)
    requires
        valid_log_name(text::trimmed(raw)),
    ensures
        text::trimmed(text::trimmed(raw)) == text::trimmed(raw),
{
    text::lemma_trimmed_twice(raw);
}

/// The photo file stem for a device name: trimmed, with reserved and control characters
/// replaced by underscores.
pub open spec fn photo_stem(raw: Seq<char>) -> Seq<char> {
    let t = text::trimmed(raw);
    Seq::new(
        t.len(),
        |i: int|
            if reserved_char(t[i]) || text::control_char(t[i]) {
                '_'
            } else {
                t[i]
            },
    )
}

/// The photo file stem for a device name.
pub fn sanitize_photo_stem(raw: &str) -> (r: String)
    ensures
        r@ == photo_stem(raw@),
{
    let t = text::trim(raw);
    let v = text::chars_of(t.as_str());
    let mut r = String::new();
    let mut i: usize = 0;
    while i < v.len()
        invariant
            i <= v@.len(),
            v@ == text::trimmed(raw@),
            r@ == photo_stem(raw@).take(i as int),
        decreases v@.len() - i,
    {
        let c = v[i];
        let d = if is_reserved_char(c) || text::is_control_char(c) {
            '_'
        } else {
            c
        };
        r.push(d);
        i = i + 1;
        assert(photo_stem(raw@).take(i as int) =~= photo_stem(raw@).take(i - 1).push(d));
    }
    assert(photo_stem(raw@).take(i as int) =~= photo_stem(raw@));
    r
}

/// Law: making a photo file stem of one changes nothing.
pub proof fn law_photo_stem_twice(raw: Seq<char>)
    ensures
        photo_stem(photo_stem(raw)) == photo_stem(raw),
{
    text::lemma_trimmed_ends(raw);
    let s = photo_stem(raw);
    assert(text::trimmed(s) == s);
    assert(photo_stem(s) =~= s);
}

// ---------------------------------------------------------------------------
// Stem and extension
// ---------------------------------------------------------------------------

/// The place of the last dot among the first `n` characters.
pub open spec fn last_dot(name: Seq<char>, n: int) -> Option<int>
    decreases n,
{
    if n <= 0 {
        None
    } else if name[n - 1] == '.' {
        Some(n - 1)
    } else {
        last_dot(name, n - 1)
    }
}

/// The place of the dot that parts a file name into stem and extension: the last one, unless
/// nothing stands before it.
pub open spec fn parting_dot(name: Seq<char>) -> Option<int> {
    match last_dot(name, name.len() as int) {
        Some(i) => if i > 0 && name != seq!['.', '.'] {
            Some(i)
        } else {
            None
        },
        None => None,
    }
}

/// A file name without its extension.
pub open spec fn stem_of(name: Seq<char>) -> Seq<char> {
    match parting_dot(name) {
        Some(i) => name.take(i),
        None => name,
    }
}

/// The extension of a file name.
pub open spec fn extension_of(name: Seq<char>) -> Option<Seq<char>> {
    match parting_dot(name) {
        Some(i) => Some(name.skip(i + 1)),
        None => None,
    }
}

fn find_parting_dot(v: &Vec<char>) -> (r: Option<usize>)
    ensures
        match r {
            Some(i) => parting_dot(v@) == Some(i as int) && i < v@.len(),
            None => parting_dot(v@) is None,
        },
{
    if v.len() == 2 && v[0] == '.' && v[1] == '.' {
        assert(v@ =~= seq!['.', '.']);
        return None;
    }
    let mut n: usize = v.len();
    while n > 0
        invariant
            n <= v@.len(),
            v@ != seq!['.', '.'],
            last_dot(v@, v@.len() as int) == last_dot(v@, n as int),
        decreases n,
    {
        if v[n - 1] == '.' {
            return if n > 1 {
                Some(n - 1)
            } else {
                None
            };
        }
        n = n - 1;
    }
    None
}

/// A file name without its extension. `name` is the last part of a path.
pub fn name_stem(name: &str) -> (r: String)
    ensures
        r@ == stem_of(name@),
{
    let v = text::chars_of(name);
    match find_parting_dot(&v) {
        Some(i) => {
            assert(v@.subrange(0, i as int) =~= name@.take(i as int));
            text::string_of_range(&v, 0, i)
        },
        None => name.to_owned(),
    }
}

/// The extension of a file name, which is the last part of a path.
pub fn name_extension(name: &str) -> (r: Option<String>)
    ensures
        opt_text(r) == extension_of(name@),
{
    let v = text::chars_of(name);
    match find_parting_dot(&v) {
        Some(i) => {
            let end: usize = v.len();
            assert(v@.subrange(i + 1, end as int) =~= name@.skip(i + 1));
            Some(text::string_of_range(&v, i + 1, end))
        },
        None => None,
    }
}

proof fn lemma_last_dot(name: Seq<char>, n: int)
    requires
        0 <= n <= name.len(),
    ensures
        last_dot(name, n) matches Some(i) ==> 0 <= i < n && name[i] == '.' && forall|k: int|
            i < k < n ==> #[trigger] name[k] != '.',
    decreases n,
{
    if n > 0 && name[n - 1] != '.' {
        lemma_last_dot(name, n - 1);
    }
}

/// Law: a file name with an extension is its stem, a dot and the extension, which holds no dot;
/// one without an extension is its stem.
pub proof fn law_name_parts(name: Seq<char>)
    ensures
        match extension_of(name) {
            Some(e) => name == stem_of(name) + seq!['.'] + e && stem_of(name).len() > 0
                && !e.contains('.'),
            None => name == stem_of(name),
        },
{
    lemma_last_dot(name, name.len() as int);
    if parting_dot(name) is Some {
        let i = parting_dot(name)->0;
        let e = name.skip(i + 1);
        assert(name =~= name.take(i) + seq!['.'] + e);
        if e.contains('.') {
            let k = e.index_of('.');
            assert(name[i + 1 + k] == '.');
        }
    }
}

// ---------------------------------------------------------------------------
// Shortened texts
// ---------------------------------------------------------------------------

/// `s` cut to `max` characters, the last of which is then an ellipsis.
pub open spec fn elided(s: Seq<char>, max: int) -> Seq<char> {
    if s.len() <= max {
        s
    } else {
        s.take(
            if max <= 0 {
                0
            } else {
                max - 1
            },
        ) + "…"@
    }
}

/// Cuts `s` to `max` characters.
pub fn truncate_chars(s: &str, max: usize) -> (r: String)
    ensures
        r@ == elided(s@, max as int),
{
    let n: usize = s.unicode_len();
    if n <= max {
        return s.to_owned();
    }
    let keep: usize = if max == 0 {
        0
    } else {
        max - 1
    };
    assert(s@.subrange(0, keep as int) =~= s@.take(keep as int));
    text::join2(s.substring_char(0, keep), "…")
}

/// A tab title cut to `max_chars` characters.
pub fn elide_tab_title(title: &str, max_chars: usize) -> (r: String)
    ensures
        r@ == elided(title@, max_chars as int),
{
    truncate_chars(title, max_chars)
}

/// Characters of a resource address that are shown.
pub const SHORT_RESOURCE_CHARS: usize = 34;

/// A resource address cut to its first characters.
pub fn short_resource(resource: &str) -> (r: String)
    ensures
        r@ == elided(resource@, SHORT_RESOURCE_CHARS as int),
{
    truncate_chars(resource, SHORT_RESOURCE_CHARS)
}

/// Whether the first `k` characters and an ellipsis are known to fit.
pub open spec fn prefix_fits(fits: Seq<bool>, k: int) -> bool {
    0 <= k < fits.len() && fits[k]
}

/// The most characters, `n` at most, that fit with an ellipsis; none where not even one does.
pub open spec fn longest_prefix(fits: Seq<bool>, n: int) -> int
    decreases n,
{
    if n <= 0 {
        0
    } else if prefix_fits(fits, n) {
        n
    } else {
        longest_prefix(fits, n - 1)
    }
}

/// The number of characters that halving the range from `lo` to `hi` ends at: the upper half is
/// taken where its least number of characters fits.
pub open spec fn halved_prefix(fits: Seq<bool>, lo: int, hi: int) -> int
    decreases hi - lo,
{
    if lo < hi {
        let mid = (lo + hi + 1) / 2;
        if prefix_fits(fits, mid) {
            halved_prefix(fits, mid, hi)
        } else {
            halved_prefix(fits, lo, mid - 1)
        }
    } else {
        lo
    }
}

/// A tab title as far as it fits. `whole` tells whether all of it does, and `fits` at `k`
/// whether its first `k` characters do with an ellipsis behind them.
pub fn elide_tab_title_to_width(title: &str, whole: bool, fits: &Vec<bool>) -> (r: String)
    ensures
        r@ == if whole {
            title@
        } else {
            title@.take(longest_prefix(fits@, title@.len() as int)) + "…"@
        },
{
    if whole {
        return title.to_owned();
    }
    let mut k: usize = title.unicode_len();
    while k > 0 && !(k < fits.len() && fits[k])
        invariant
            k <= title@.len(),
            longest_prefix(fits@, title@.len() as int) == longest_prefix(fits@, k as int),
        decreases k,
    {
        k -= 1;
    }
    assert(title@.subrange(0, k as int) =~= title@.take(k as int));
    text::join2(title.substring_char(0, k), "…")
}

/// A text as far as it fits, by halving; `whole` and `fits` tell what does, as for a title.
pub fn ellipsize_to_width(shown: &str, whole: bool, fits: &Vec<bool>) -> (r: String)
    ensures
        r@ == if whole {
            shown@
        } else {
            shown@.take(halved_prefix(fits@, 0, shown@.len() as int)) + "…"@
        },
{
    if whole {
        return shown.to_owned();
    }
    let mut lo: usize = 0;
    let mut hi: usize = shown.unicode_len();
    while lo < hi
        invariant
            lo <= hi <= shown@.len(),
            halved_prefix(fits@, 0, shown@.len() as int) == halved_prefix(
                fits@,
                lo as int,
                hi as int,
            ),
        decreases hi - lo,
    {
        let mid: usize = lo + ((hi - lo) - (hi - lo) / 2);
        assert(mid == (lo + hi + 1) / 2);
        if mid < fits.len() && fits[mid] {
            lo = mid;
        } else {
            hi = mid - 1;
        }
    }
    assert(shown@.subrange(0, lo as int) =~= shown@.take(lo as int));
    text::join2(shown.substring_char(0, lo), "…")
}

/// Law: no more characters than are kept of a title would fit, and what is kept does, unless
/// nothing is.
pub proof fn law_longest_prefix_fits(fits: Seq<bool>, n: int)
    requires
        n >= 0,
    ensures
        0 <= longest_prefix(fits, n) <= n,
        longest_prefix(fits, n) > 0 ==> prefix_fits(fits, longest_prefix(fits, n)),
        forall|k: int|
            longest_prefix(fits, n) < k <= n ==> !#[trigger] prefix_fits(fits, k),
    decreases n,
{
    if n > 0 && !prefix_fits(fits, n) {
        law_longest_prefix_fits(fits, n - 1);
    }
}

/// What halving ends at is the border between what fits and what does not.
proof fn lemma_halving_finds_border(fits: Seq<bool>, n: int, lo: int, hi: int)
    requires
        0 <= lo <= hi <= n,
        forall|j: int, k: int|
            0 < j <= k <= n && #[trigger] prefix_fits(fits, k) ==> #[trigger] prefix_fits(fits, j),
        lo > 0 ==> prefix_fits(fits, lo),
        forall|k: int| hi < k <= n ==> !#[trigger] prefix_fits(fits, k),
    ensures
        halved_prefix(fits, lo, hi) == longest_prefix(fits, n),
    decreases hi - lo,
{
    if lo < hi {
        let mid = (lo + hi + 1) / 2;
        if prefix_fits(fits, mid) {
            lemma_halving_finds_border(fits, n, mid, hi);
        } else {
            lemma_halving_finds_border(fits, n, lo, mid - 1);
        }
    } else {
        law_longest_prefix_fits(fits, n);
    }
}

/// Law: where every shorter prefix of one that fits also fits, halving finds the longest prefix
/// that does.
pub proof fn law_halving_finds_longest_prefix(fits: Seq<bool>, n: int)
    requires
        n >= 0,
        forall|j: int, k: int|
            0 < j <= k <= n && #[trigger] prefix_fits(fits, k) ==> #[trigger] prefix_fits(fits, j),
    ensures
        halved_prefix(fits, 0, n) == longest_prefix(fits, n),
{
    lemma_halving_finds_border(fits, n, 0, n);
}

/// Law: a shortened text has at most the number of characters asked for, and a text that fits
/// is kept.
pub proof fn law_elided_fits(s: Seq<char>, max: int)
    requires
        max >= 1,
    ensures
        elided(s, max).len() <= max,
        s.len() <= max ==> elided(s, max) == s,
        s.len() > max ==> elided(s, max).take(max - 1) == s.take(max - 1),
{
    reveal_strlit("…");
    if s.len() > max {
        assert(elided(s, max).take(max - 1) =~= s.take(max - 1));
    }
}

// ---------------------------------------------------------------------------
// Paths
// ---------------------------------------------------------------------------

/// The path as it is kept: the one that the file system resolved it to, or else the path with
/// back slashes.
pub open spec fn kept_path(canonical: Option<Seq<char>>, path: Seq<char>) -> Seq<char> {
    match canonical {
        Some(p) => p,
        None => text::swap_char(path, '/', '\\'),
    }
}

/// The text of an optional string.
pub open spec fn opt_text(s: Option<String>) -> Option<Seq<char>> {
    match s {
        Some(v) => Some(v@),
        None => None,
    }
}

/// The path as it is kept, given what the file system resolved it to.
pub fn normalize_resolved(canonical: Option<String>, path: &str) -> (r: String)
    ensures
        r@ == kept_path(opt_text(canonical), path@),
{
    match canonical {
        Some(p) => p,
        None => text::replace_char(path, '/', '\\'),
    }
}

/// Whether a path is absolute as the file system spells resolved paths: it begins with a slash,
/// or with a back slash where the machine writes extended paths.
pub open spec fn absolute_text(path: Seq<char>) -> bool {
    path.len() > 0 && (path[0] == '/' || path[0] == '\\')
}

/// Whether `canonical` is an answer that the file system can give: nothing, or an absolute path.
pub open spec fn resolvable(canonical: Option<Seq<char>>) -> bool {
    canonical matches Some(p) ==> absolute_text(p)
}

/// Asks `std::path::Path::canonicalize` for the absolute form of `path`. Whether there is one and
/// what it is depends on the disk; claimed is only that it is absolute.
#[verifier::external_body]
fn canonical_path(path: &str) -> (r: Option<String>)
    ensures
        r matches Some(p) ==> absolute_text(p@),
{
    std::path::Path::new(path).canonicalize().ok().map(|p| p.to_string_lossy().into_owned())
}

/// The path as it is kept: the path with back slashes, or the absolute path that the file system
/// resolves it to. Which of them, and which absolute path, is up to the disk.
pub fn normalize_path(path: &str) -> (r: String)
    ensures
        r@ == text::swap_char(path@, '/', '\\') || absolute_text(r@),
{
    let canonical = canonical_path(path);
    normalize_resolved(canonical, path)
}

/// Whether two kept paths name the same log file: up to ASCII case.
pub open spec fn same_file(left: Seq<char>, right: Seq<char>) -> bool {
    text::ascii_lower_seq(left) == text::ascii_lower_seq(right)
}

/// Whether two paths are one file, given what the file system resolved each of them to.
pub fn same_resolved_path(
    left_canonical: Option<String>,
    left: &str,
    right_canonical: Option<String>,
    right: &str,
) -> (r: bool)
    ensures
        r == same_file(
            kept_path(opt_text(left_canonical), left@),
            kept_path(opt_text(right_canonical), right@),
        ),
{
    let a = normalize_resolved(left_canonical, left);
    let b = normalize_resolved(right_canonical, right);
    text::same_ignoring_ascii_case(a.as_str(), b.as_str())
}

/// Whether two paths name the same log file once normalized. The disk decides what each path
/// resolves to, and nothing more than that can be said of the answer; given what the paths
/// resolve to, [`same_resolved_path`] decides.
pub fn same_log_path(left: &str, right: &str) -> (r: bool)
    ensures
        exists|a: Option<Seq<char>>, b: Option<Seq<char>>|
            resolvable(a) && resolvable(b) && r == same_file(
                #[trigger] kept_path(a, left@),
                #[trigger] kept_path(b, right@),
            ),
{
    let a = canonical_path(left);
    let b = canonical_path(right);
    let ghost ca = opt_text(a);
    let ghost cb = opt_text(b);
    let r: bool = same_resolved_path(a, left, b, right);
    assert(r == same_file(kept_path(ca, left@), kept_path(cb, right@)));
    r
}

/// Law: for paths that the file system cannot resolve, slashes and ASCII case do not matter.
pub proof fn law_unresolved_paths_ignore_slashes(left: Seq<char>, right: Seq<char>)
    requires
        text::ascii_lower_seq(text::swap_char(left, '/', '\\')) == text::ascii_lower_seq(
            text::swap_char(right, '/', '\\'),
        ),
    ensures
        same_file(kept_path(None, left), kept_path(None, right)),
{
}

/// Law: being the same file is an equivalence.
pub proof fn law_same_file_is_equivalence(a: Seq<char>, b: Seq<char>, c: Seq<char>)
    ensures
        same_file(a, a),
        same_file(a, b) == same_file(b, a),
        same_file(a, b) && same_file(b, c) ==> same_file(a, c),
{
}

/// Whether a file extension, whatever its case, is one of a text log.
pub open spec fn log_extension(ext: Seq<char>) -> bool {
    text::ascii_lower_seq(ext) == "txt"@ || text::ascii_lower_seq(ext) == "log"@
}

/// Whether a dropped file with extension `ext` is opened.
pub fn is_log_extension(ext: &str) -> (r: bool)
    ensures
        r == log_extension(ext@),
{
    let e = text::to_ascii_lower(ext);
    text::same_text(e.as_str(), "txt") || text::same_text(e.as_str(), "log")
}

// ---------------------------------------------------------------------------
// Writing
// ---------------------------------------------------------------------------

/// How often a locked log file is tried.
pub const WRITE_ATTEMPTS: u32 = 12;

/// Milliseconds between two tries.
pub const WRITE_PAUSE_MS: u64 = 25;

/// Whether a write failed because another process holds the file: access denied (5), sharing
/// violation (32), or a permission error.
pub fn is_file_lock_error(raw_os_error: Option<i32>, permission_denied: bool) -> (r: bool)
    ensures
        r == (raw_os_error == Some(5i32) || raw_os_error == Some(32i32) || permission_denied),
{
    match raw_os_error {
        Some(code) => code == 5 || code == 32 || permission_denied,
        None => permission_denied,
    }
}

/// What to do after a try to write a log file.
#[derive(Debug, Clone, Copy, PartialEq, Eq, Structural)]
pub enum WriteStep {
    Done,
    /// Wait and try again.
    Retry,
    /// Give up with the error of this try.
    Fail,
}

/// What follows a try to write a log file.
pub open spec fn write_step(attempt: u32, ok: bool, locked: bool) -> WriteStep {
    if ok {
        WriteStep::Done
    } else if locked && attempt < WRITE_ATTEMPTS {
        WriteStep::Retry
    } else {
        WriteStep::Fail
    }
}

/// What follows try number `attempt` (from one): success ends, a locked file is tried again as
/// long as tries are left, any other error ends.
pub fn next_write_step(attempt: u32, ok: bool, locked: bool) -> (r: WriteStep)
    ensures
        r == write_step(attempt, ok, locked),
{
    if ok {
        WriteStep::Done
    } else if locked && attempt < WRITE_ATTEMPTS {
        WriteStep::Retry
    } else {
        WriteStep::Fail
    }
}

/// What renaming a log file comes to.
#[derive(Debug, Clone, Copy, PartialEq, Eq, Structural)]
pub enum RenameStep {
    Nothing,
    /// The target exists.
    Refuse,
    Move,
}

/// What renaming a log file comes to.
pub open spec fn rename_step(same_path: bool, old_exists: bool, new_exists: bool) -> RenameStep {
    if same_path || !old_exists {
        RenameStep::Nothing
    } else if new_exists {
        RenameStep::Refuse
    } else {
        RenameStep::Move
    }
}

/// What renaming a log file comes to: nothing when both names are one or the file is missing,
/// a refusal when the target exists.
pub fn rename_log_path(same_path: bool, old_exists: bool, new_exists: bool) -> (r: RenameStep)
    ensures
        r == rename_step(same_path, old_exists, new_exists),
{
    if same_path || !old_exists {
        RenameStep::Nothing
    } else if new_exists {
        RenameStep::Refuse
    } else {
        RenameStep::Move
    }
}

/// The byte order mark that opens a live log.
pub open spec fn byte_order_mark() -> Seq<u8> {
    seq![0xEFu8, 0xBBu8, 0xBFu8]
}

/// Whether a log file with this content holds no text: no byte at all, or only a byte order
/// mark.
pub open spec fn without_text(content: Seq<u8>) -> bool {
    content.len() == 0 || content == byte_order_mark()
}

/// How many bytes of a file tell whether it holds no text.
pub const OPENING_BYTES: usize = 4;

/// Whether a file, given by its bytes, holds nothing but a byte order mark.
pub fn is_without_text(content: &Vec<u8>) -> (r: bool)
    ensures
        r == without_text(content@),
{
    if content.len() == 0 {
        return true;
    }
    let r: bool = content.len() == 3 && content[0] == 0xEF && content[1] == 0xBB && content[2]
        == 0xBF;
    assert(r ==> content@ =~= byte_order_mark());
    r
}

/// Law: the opening bytes of a file tell whether it holds no text.
pub proof fn law_opening_tells_the_content(content: Seq<u8>)
    ensures
        without_text(content.take(opening_length(content))) == without_text(content),
{
    let opening = content.take(opening_length(content));
    if opening == byte_order_mark() {
        assert(content =~= opening);
    } else if content == byte_order_mark() {
        assert(opening =~= content);
    }
}

/// The number of opening bytes that a file has.
pub open spec fn opening_length(content: Seq<u8>) -> int {
    if content.len() < OPENING_BYTES {
        content.len() as int
    } else {
        OPENING_BYTES as int
    }
}

/// Whether a capture holds nothing: no line on screen, and no file or one with nothing but a
/// byte order mark in it. `content` is what the file holds, where there is one; its opening
/// bytes are enough.
pub fn live_capture_is_empty(live_line_count: usize, content: Option<&Vec<u8>>) -> (r: bool)
    ensures
        r == (live_line_count == 0 && (content matches Some(c) ==> without_text(c@))),
{
    if live_line_count > 0 {
        return false;
    }
    match content {
        None => true,
        Some(c) => is_without_text(c),
    }
}

/// The last dot of a name is where a dot stands and none behind it.
pub proof fn lemma_last_dot_is(name: Seq<char>, i: int, n: int)
    requires
        0 <= i < n <= name.len(),
        name[i] == '.',
        forall|k: int| i < k < n ==> #[trigger] name[k] != '.',
    ensures
        last_dot(name, n) == Some(i),
    decreases n,
{
    if n - 1 > i {
        lemma_last_dot_is(name, i, n - 1);
    }
}

// ---------------------------------------------------------------------------
// What holds of names, paths and files
// ---------------------------------------------------------------------------

/// Law: a name that is accepted for a log is not empty, leads into no other folder or drive,
/// holds no line end and does not end in a dot or a blank.
pub proof fn law_accepted_name_stays_in_its_folder(name: Seq<char>)
    requires
        valid_log_name(name),
    ensures
        name.len() > 0,
        !name.contains('/') && !name.contains('\\') && !name.contains(':'),
        !name.contains('<') && !name.contains('>') && !name.contains('"') && !name.contains('|')
            && !name.contains('?') && !name.contains('*'),
        !name.contains('\n') && !name.contains('\r') && !name.contains('\t'),
        name.last() != '.' && name.last() != ' ',
        name != seq!['.', '.'],
{
    assert forall|c: char| reserved_char(c) || text::control_char(c) implies !name.contains(c) by {
        if name.contains(c) {
            let i = choose|i: int| 0 <= i < name.len() && name[i] == c;
            assert(!text::control_char(name[i]) && !reserved_char(name[i]));
        }
    }
    assert(reserved_char('/') && reserved_char('\\') && reserved_char(':'));
    assert(text::control_char('\n') && text::control_char('\r') && text::control_char('\t'));
    assert(reserved_char('<') && reserved_char('>') && reserved_char('"') && reserved_char('|')
        && reserved_char('?') && reserved_char('*'));
}

/// Law: a name of letters, digits, blanks, dots, underscores and dashes is accepted, as long as
/// it ends in none of the blanks and dots; so is one in another script.
pub proof fn law_plain_name_is_accepted(name: Seq<char>)
    requires
        name.len() > 0,
        name.last() != '.',
        name.last() != ' ',
        forall|i: int|
            0 <= i < name.len() ==> {
                ||| 'a' <= #[trigger] name[i] && name[i] <= 'z'
                ||| 'A' <= name[i] && name[i] <= 'Z'
                ||| '0' <= name[i] && name[i] <= '9'
                ||| name[i] == ' ' || name[i] == '.' || name[i] == '_' || name[i] == '-'
                ||| (name[i] as u32) >= 0x100
            },
    ensures
        valid_log_name(name),
{
    assert forall|i: int| 0 <= i < name.len() implies !text::control_char(#[trigger] name[i])
        && !reserved_char(name[i]) by {}
}

/// Law: the stem for a photo is the trimmed name, character by character, with an underscore
/// for each character that a file name cannot hold.
pub proof fn law_photo_stem_is_a_file_name(raw: Seq<char>)
    ensures
        ({
            let t = text::trimmed(raw);
            let s = photo_stem(raw);
            &&& s.len() == t.len()
            &&& !s.contains('/') && !s.contains('\\') && !s.contains(':') && !s.contains('*')
                && !s.contains('?') && !s.contains('"') && !s.contains('<') && !s.contains('>')
                && !s.contains('|')
            &&& forall|i: int|
                0 <= i < s.len() ==> #[trigger] s[i] == t[i] || s[i] == '_'
            &&& forall|i: int|
                0 <= i < s.len() && ('a' <= #[trigger] t[i] && t[i] <= 'z' || 'A' <= t[i] && t[i]
                    <= 'Z' || '0' <= t[i] && t[i] <= '9' || t[i] == '-' || t[i] == '.' || t[i]
                    == ' ') ==> s[i] == t[i]
        }),
{
    let s = photo_stem(raw);
    assert forall|c: char| reserved_char(c) implies !s.contains(c) by {
        if s.contains(c) {
            let i = choose|i: int| 0 <= i < s.len() && s[i] == c;
            assert(s[i] == '_' || !reserved_char(s[i]));
        }
    }
    assert(reserved_char('/') && reserved_char('\\') && reserved_char(':'));
    assert(reserved_char('<') && reserved_char('>') && reserved_char('"') && reserved_char('|')
        && reserved_char('?') && reserved_char('*'));
}

/// Law: a text that was shortened is a beginning of the text and an ellipsis, of exactly the
/// length asked for.
pub proof fn law_shortened_text_ends_in_an_ellipsis(s: Seq<char>, max: int)
    requires
        max >= 1,
        s.len() > max,
    ensures
        elided(s, max).len() == max,
        elided(s, max) == s.subrange(0, max - 1) + "…"@,
{
    reveal_strlit("…");
    assert(elided(s, max) =~= s.subrange(0, max - 1) + "…"@);
}

/// Law: a path that the file system resolved is kept as it resolved it; of another one only the
/// slashes are turned round.
pub proof fn law_kept_path(canonical: Option<Seq<char>>, path: Seq<char>)
    ensures
        canonical matches Some(p) ==> kept_path(canonical, path) == p,
        canonical is None ==> kept_path(canonical, path).len() == path.len()
            && !kept_path(canonical, path).contains('/') && forall|i: int|
            0 <= i < path.len() && #[trigger] path[i] != '/' ==> kept_path(canonical, path)[i]
                == path[i],
        canonical is None ==> forall|i: int|
            0 <= i < path.len() && #[trigger] path[i] == '/' ==> kept_path(canonical, path)[i]
                == '\\',
{
}

/// Law: two kept paths are one file exactly if they have the same characters up to the case of
/// ASCII letters.
pub proof fn law_same_file_means_same_letters(a: Seq<char>, b: Seq<char>)
    ensures
        same_file(a, b) <==> a.len() == b.len() && forall|i: int|
            0 <= i < a.len() ==> text::ascii_lower(#[trigger] a[i]) == text::ascii_lower(b[i]),
{
    let (x, y) = (text::ascii_lower_seq(a), text::ascii_lower_seq(b));
    if a.len() == b.len() && forall|i: int|
        0 <= i < a.len() ==> text::ascii_lower(#[trigger] a[i]) == text::ascii_lower(b[i]) {
        assert forall|i: int| 0 <= i < x.len() implies x[i] == y[i] by {
            assert(text::ascii_lower(a[i]) == text::ascii_lower(b[i]));
        }
        assert(x =~= y);
    }
    if x == y {
        assert(x.len() == y.len());
        assert forall|i: int| 0 <= i < a.len() implies text::ascii_lower(#[trigger] a[i])
            == text::ascii_lower(b[i]) by {
            assert(x[i] == y[i]);
        }
    }
}

/// Law: the files that are opened as logs are those with the extension `txt` or `log`, in small
/// or capital letters, and no others.
pub proof fn law_logs_are_known_by_extension(ext: Seq<char>)
    ensures
        log_extension(ext) <==> ext.len() == 3 && ((text::ascii_lower(ext[0]) == 't'
            && text::ascii_lower(ext[1]) == 'x' && text::ascii_lower(ext[2]) == 't') || (
        text::ascii_lower(ext[0]) == 'l' && text::ascii_lower(ext[1]) == 'o' && text::ascii_lower(
            ext[2],
        ) == 'g')),
{
    reveal_strlit("txt");
    reveal_strlit("log");
    let low = text::ascii_lower_seq(ext);
    assert(low.len() == ext.len());
    assert("txt"@.len() == 3 && "txt"@[0] == 't' && "txt"@[1] == 'x' && "txt"@[2] == 't');
    assert("log"@.len() == 3 && "log"@[0] == 'l' && "log"@[1] == 'o' && "log"@[2] == 'g');
    if ext.len() == 3 {
        assert(low[0] == text::ascii_lower(ext[0]) && low[1] == text::ascii_lower(ext[1])
            && low[2] == text::ascii_lower(ext[2]));
        if low[0] == 't' && low[1] == 'x' && low[2] == 't' {
            assert(low =~= "txt"@);
        }
        if low[0] == 'l' && low[1] == 'o' && low[2] == 'g' {
            assert(low =~= "log"@);
        }
    }
}

/// Law: a write that succeeded ends, an error other than a locked file is not tried again, and
/// a locked file is tried until the tries are used up; so no write goes on for ever.
pub proof fn law_writing_ends(attempt: u32, ok: bool, locked: bool)
    ensures
        ok <==> write_step(attempt, ok, locked) is Done,
        !ok && !locked ==> write_step(attempt, ok, locked) is Fail,
        !ok && locked && attempt < 12 ==> write_step(attempt, ok, locked) is Retry,
        attempt >= 12 ==> !(write_step(attempt, ok, locked) is Retry),
{
}

/// Law: renaming a log never writes over a file: it is refused where the new name is taken. A
/// log that is missing, or has the name already, is left alone, and any other is moved.
pub proof fn law_renaming_overwrites_nothing(same_path: bool, old_exists: bool, new_exists: bool)
    ensures
        ({
            let step = rename_step(same_path, old_exists, new_exists);
            &&& new_exists ==> !(step is Move)
            &&& same_path || !old_exists <==> step is Nothing
            &&& !same_path && old_exists && new_exists ==> step is Refuse
            &&& !same_path && old_exists && !new_exists ==> step is Move
        }),
{
}

/// Law: a log file without a byte, or with the byte order mark alone, holds no text; as soon as
/// anything follows the mark, or something else stands there, it does.
pub proof fn law_anything_but_the_mark_is_text(content: Seq<u8>)
    ensures
        without_text(content) <==> content.len() == 0 || (content.len() == 3 && content[0] == 0xEF
            && content[1] == 0xBB && content[2] == 0xBF),
{
    if content.len() == 3 && content[0] == 0xEF && content[1] == 0xBB && content[2] == 0xBF {
        assert(content =~= byte_order_mark());
    }
}

/// Law: a path is absolute where it begins with a separator of either kind.
pub proof fn law_absolute_paths_begin_with_a_separator(path: Seq<char>)
    ensures
        absolute_text("/"@ + path),
        absolute_text("\\"@ + path),
        absolute_text(path) ==> path[0] == '/' || path[0] == '\\',
        !absolute_text(Seq::empty()),
        resolvable(None),
        resolvable(Some(path)) == absolute_text(path),
{
    reveal_strlit("/");
    reveal_strlit("\\");
}

} // verus!
