//! The folder browser: the text logs in the folders below a root, sorted by name.
use vstd::prelude::*;

use crate::text;

verus! {

/// A file in a folder, as the file system lists it.
pub struct ScannedFile {
    pub name: String,
    pub is_file: bool,
    /// The extension, empty when there is none.
    pub extension: String,
    pub path: String,
}

/// An entry below the root, as the file system lists it.
pub struct ScannedFolder {
    pub name: String,
    pub is_dir: bool,
    /// What is in it, where that could be read.
    pub files: Option<Vec<ScannedFile>>,
}

/// A log in a folder.
pub struct BrowserFile {
    pub name: String,
    pub path: String,
}

/// A folder with logs.
pub struct LogBrowserFolder {
    pub name: String,
    pub files: Vec<BrowserFile>,
}

// ---------------------------------------------------------------------------
// Order
// ---------------------------------------------------------------------------

/// Whether `a` comes before `b` in the order of a dictionary.
pub open spec fn text_before(a: Seq<char>, b: Seq<char>) -> bool
    decreases a.len(),
{
    if b.len() == 0 {
        false
    } else if a.len() == 0 {
        true
    } else if a[0] != b[0] {
        a[0] < b[0]
    } else {
        text_before(a.skip(1), b.skip(1))
    }
}

pub proof fn lemma_text_before_skip(a: Seq<char>, b: Seq<char>, n: int)
    requires
        0 <= n <= a.len(),
        n <= b.len(),
        forall|k: int| 0 <= k < n ==> a[k] == b[k],
    ensures
        text_before(a, b) == text_before(a.skip(n), b.skip(n)),
        text_before(b, a) == text_before(b.skip(n), a.skip(n)),
        (a == b) == (a.skip(n) == b.skip(n)),
    decreases n,
{
    if n == 0 {
        assert(a.skip(0) =~= a);
        assert(b.skip(0) =~= b);
    } else {
        let p = a.skip(1);
        let q = b.skip(1);
        assert forall|k: int| 0 <= k < n - 1 implies p[k] == q[k] by {
            assert(p[k] == a[k + 1]);
        }
        lemma_text_before_skip(p, q, n - 1);
        assert(p.skip(n - 1) =~= a.skip(n));
        assert(q.skip(n - 1) =~= b.skip(n));
        if a.skip(n) == b.skip(n) {
            assert(a =~= b) by {
                assert(a.len() == b.len());
                assert forall|k: int| 0 <= k < a.len() implies a[k] == b[k] by {
                    if k >= n {
                        assert(a[k] == a.skip(n)[k - n]);
                        assert(b[k] == b.skip(n)[k - n]);
                    }
                }
            }
        }
    }
}

proof fn lemma_text_before_total(a: Seq<char>, b: Seq<char>)
    ensures
        text_before(a, b) || text_before(b, a) || a == b,
        !(text_before(a, b) && text_before(b, a)),
        a == b ==> !text_before(a, b),
    decreases a.len(),
{
    if a.len() == 0 || b.len() == 0 {
        assert(a.len() == 0 && b.len() == 0 ==> a =~= b);
    } else if a[0] == b[0] {
        lemma_text_before_total(a.skip(1), b.skip(1));
        lemma_text_before_skip(a, b, 1);
    }
}

proof fn lemma_text_before_transitive(a: Seq<char>, b: Seq<char>, c: Seq<char>)
    requires
        text_before(a, b),
        text_before(b, c),
    ensures
        text_before(a, c),
    decreases a.len(),
{
    if a.len() > 0 && b.len() > 0 && c.len() > 0 && a[0] == b[0] && b[0] == c[0] {
        lemma_text_before_transitive(a.skip(1), b.skip(1), c.skip(1));
    }
}

fn comes_before(a: &Vec<char>, b: &Vec<char>) -> (r: bool)
    ensures
        r == text_before(a@, b@),
{
    let mut i: usize = 0;
    while i < a.len() && i < b.len() && a[i] == b[i]
        invariant
            i <= a@.len(),
            i <= b@.len(),
            forall|k: int| 0 <= k < i ==> a@[k] == b@[k],
        decreases a@.len() - i,
    {
        i = i + 1;
    }
    proof {
        lemma_text_before_skip(a@, b@, i as int);
    }
    if i >= b.len() {
        false
    } else if i >= a.len() {
        true
    } else {
        a[i] < b[i]
    }
}

/// Whether entry `i` is listed before entry `j`: by the key, and by the position among equal
/// keys.
pub open spec fn listed_before(keys: Seq<Seq<char>>, i: int, j: int) -> bool {
    text_before(keys[i], keys[j]) || (keys[i] == keys[j] && i < j)
}

/// Whether `order` lists the first `n` entries, sorted.
pub open spec fn is_order(order: Seq<usize>, keys: Seq<Seq<char>>, n: int) -> bool {
    &&& order.len() == n
    &&& forall|k: int| 0 <= k < n ==> (#[trigger] order[k]) < n
    &&& forall|i: int, j: int|
        0 <= i < j < n ==> listed_before(keys, #[trigger] order[i] as int, #[trigger] order[j] as int)
}

/// The names by which entries are sorted: the case of ASCII letters does not count.
pub open spec fn sort_keys(names: Seq<Seq<char>>) -> Seq<Seq<char>> {
    names.map_values(|s: Seq<char>| text::ascii_lower_seq(s))
}

proof fn lemma_listed_before(keys: Seq<Seq<char>>, i: int, j: int, k: int)
    ensures
        i != j ==> listed_before(keys, i, j) || listed_before(keys, j, i),
        listed_before(keys, i, j) && listed_before(keys, j, k) ==> listed_before(keys, i, k),
{
    lemma_text_before_total(keys[i], keys[j]);
    if text_before(keys[i], keys[j]) && text_before(keys[j], keys[k]) {
        lemma_text_before_transitive(keys[i], keys[j], keys[k]);
    }
}

fn insert_sorted(order: &mut Vec<usize>, keys: &Vec<Vec<char>>, n: usize, Ghost(texts): Ghost<
    Seq<Seq<char>>,
>)
    requires
        n < keys@.len(),
        texts.len() == keys@.len(),
        forall|k: int| 0 <= k < keys@.len() ==> (#[trigger] keys@[k])@ == texts[k],
        is_order(old(order)@, texts, n as int),
    ensures
        is_order(final(order)@, texts, n + 1),
{
    let ghost before = order@;
    let mut at: usize = order.len();
    while at > 0 && comes_before(&keys[n], &keys[order[at - 1]])
        invariant
            n < keys@.len(),
            texts.len() == keys@.len(),
            forall|k: int| 0 <= k < keys@.len() ==> (#[trigger] keys@[k])@ == texts[k],
            order@ == before,
            is_order(before, texts, n as int),
            at <= order@.len(),
            forall|k: int|
                at <= k < order@.len() ==> listed_before(
                    texts,
                    n as int,
                    #[trigger] order@[k] as int,
                ),
        decreases at,
    {
        at = at - 1;
    }
    assert forall|k: int| 0 <= k < at implies listed_before(
        texts,
        #[trigger] order@[k] as int,
        n as int,
    ) by {
        let last = order@[at - 1] as int;
        assert(!text_before(texts[n as int], texts[last]));
        lemma_text_before_total(texts[n as int], texts[last]);
        assert(listed_before(texts, last, n as int));
        if k < at - 1 {
            assert(listed_before(texts, order@[k] as int, last));
            lemma_listed_before(texts, order@[k] as int, last, n as int);
        }
    }
    order.insert(at, n);
    assert forall|i: int, j: int| 0 <= i < j < n + 1 implies listed_before(
        texts,
        #[trigger] order@[i] as int,
        #[trigger] order@[j] as int,
    ) by {
        let a = if i < at {
            i
        } else {
            i - 1
        };
        let b = if j < at {
            j
        } else {
            j - 1
        };
        if i != at {
            assert(order@[i] == before[a]);
        }
        if j != at {
            assert(order@[j] == before[b]);
        }
    }
}

/// The order in which entries with the given keys are listed.
pub fn order_by_key(names: &Vec<String>) -> (order: Vec<usize>)
    ensures
        is_order(order@, crate::search::views(names@), names@.len() as int),
{
    let ghost texts = crate::search::views(names@);
    let mut keys: Vec<Vec<char>> = Vec::new();
    let mut i: usize = 0;
    while i < names.len()
        invariant
            i <= names@.len(),
            texts == crate::search::views(names@),
            keys@.len() == i,
            forall|k: int| 0 <= k < i ==> (#[trigger] keys@[k])@ == texts[k],
        decreases names@.len() - i,
    {
        keys.push(text::chars_of(names[i].as_str()));
        i = i + 1;
    }
    let mut order: Vec<usize> = Vec::new();
    let mut n: usize = 0;
    while n < names.len()
        invariant
            n <= names@.len(),
            keys@.len() == names@.len(),
            texts.len() == names@.len(),
            forall|k: int| 0 <= k < keys@.len() ==> (#[trigger] keys@[k])@ == texts[k],
            is_order(order@, texts, n as int),
        decreases names@.len() - n,
    {
        insert_sorted(&mut order, &keys, n, Ghost(texts));
        n = n + 1;
    }
    order
}

/// The order in which entries with the given names are listed.
pub fn sort_order(names: &Vec<String>) -> (order: Vec<usize>)
    ensures
        is_order(order@, sort_keys(crate::search::views(names@)), names@.len() as int),
{
    let mut keys: Vec<String> = Vec::new();
    let mut i: usize = 0;
    while i < names.len()
        invariant
            i <= names@.len(),
            keys@.len() == i,
            forall|k: int|
                0 <= k < i ==> (#[trigger] keys@[k])@ == text::ascii_lower_seq(names@[k]@),
        decreases names@.len() - i,
    {
        keys.push(text::to_ascii_lower(names[i].as_str()));
        i = i + 1;
    }
    assert(crate::search::views(keys@) =~= sort_keys(crate::search::views(names@)));
    order_by_key(&keys)
}

/// Law: a sorted listing shows every entry exactly once.
pub proof fn law_listing_is_complete(order: Seq<usize>, keys: Seq<Seq<char>>, n: int, e: int)
    requires
        is_order(order, keys, n),
        0 <= e < n,
    ensures
        exists|k: int| 0 <= k < n && #[trigger] order[k] == e,
        forall|i: int, j: int| 0 <= i < j < n ==> #[trigger] order[i] != #[trigger] order[j],
{
    assert forall|i: int, j: int| 0 <= i < j < n implies #[trigger] order[i] != #[trigger] order[j] by {
        assert(listed_before(keys, order[i] as int, order[j] as int));
        lemma_text_before_total(keys[order[i] as int], keys[order[j] as int]);
    }
    lemma_pigeonhole(order, n, e);
}

proof fn lemma_pigeonhole(order: Seq<usize>, n: int, e: int)
    requires
        order.len() == n,
        forall|k: int| 0 <= k < n ==> (#[trigger] order[k]) < n,
        forall|i: int, j: int| 0 <= i < j < n ==> #[trigger] order[i] != #[trigger] order[j],
        0 <= e < n,
    ensures
        exists|k: int| 0 <= k < n && #[trigger] order[k] == e,
{
    if forall|k: int| 0 <= k < n ==> #[trigger] order[k] != e {
        let all = vstd::set_lib::set_int_range(0, n);
        let ints = order.map_values(|u: usize| u as int);
        assert(ints.no_duplicates());
        ints.unique_seq_to_set();
        vstd::set_lib::lemma_int_range(0, n);
        assert(ints.to_set().subset_of(all.remove(e))) by {
            assert forall|x: int| ints.to_set().contains(x) implies all.remove(e).contains(x) by {
                let k = choose|k: int| 0 <= k < ints.len() && ints[k] == x;
                assert(order[k] == x);
            }
        }
        vstd::set_lib::lemma_len_subset(ints.to_set(), all.remove(e));
        assert(false);
    }
}

// ---------------------------------------------------------------------------
// Listing
// ---------------------------------------------------------------------------

/// Whether a file is a log that the browser lists.
pub open spec fn is_listed(file: ScannedFile) -> bool {
    file.is_file && text::ascii_lower_seq(file.extension@) == "txt"@
}

/// The logs among files, in the order in which they are found.
pub open spec fn listed_files(files: Seq<ScannedFile>) -> Seq<ScannedFile> {
    files.filter(|f: ScannedFile| is_listed(f))
}

/// The names of files.
pub open spec fn file_names(files: Seq<ScannedFile>) -> Seq<Seq<char>> {
    files.map_values(|f: ScannedFile| f.name@)
}

/// Whether `shown` is what the browser shows of a folder's files.
pub open spec fn shows_files(shown: Seq<BrowserFile>, files: Seq<ScannedFile>) -> bool {
    exists|order: Seq<usize>|
        {
            &&& #[trigger] is_order(
                order,
                sort_keys(file_names(listed_files(files))),
                listed_files(files).len() as int,
            )
            &&& shown.len() == listed_files(files).len()
            &&& forall|k: int|
                0 <= k < shown.len() ==> (#[trigger] shown[k]).name@ == listed_files(
                    files,
                )[order[k] as int].name@ && shown[k].path@ == listed_files(
                    files,
                )[order[k] as int].path@
        }
}

/// Whether the browser shows an entry below the root: a folder that can be read and holds a
/// log.
pub open spec fn folder_shown(entry: ScannedFolder) -> bool {
    entry.is_dir && (entry.files matches Some(files) && listed_files(files@).len() > 0)
}

/// The entries that the browser shows, in the order in which they are found.
pub open spec fn shown_entries(entries: Seq<ScannedFolder>) -> Seq<ScannedFolder> {
    entries.filter(|e: ScannedFolder| folder_shown(e))
}

/// The names of entries.
pub open spec fn folder_names(entries: Seq<ScannedFolder>) -> Seq<Seq<char>> {
    entries.map_values(|e: ScannedFolder| e.name@)
}

/// Whether `shown` is what the browser shows of the entries below the root.
pub open spec fn shows_folders(shown: Seq<LogBrowserFolder>, entries: Seq<ScannedFolder>) -> bool {
    let kept = shown_entries(entries);
    exists|order: Seq<usize>|
        {
            &&& #[trigger] is_order(
                order,
                sort_keys(folder_names(kept)),
                kept.len() as int,
            )
            &&& shown.len() == kept.len()
            &&& forall|k: int|
                0 <= k < shown.len() ==> (#[trigger] shown[k]).name@ == kept[order[k] as int].name@
                    && shows_files(shown[k].files@, kept[order[k] as int].files->Some_0@)
        }
}

fn file_is_listed(file: &ScannedFile) -> (r: bool)
    ensures
        r == is_listed(*file),
{
    let ext = text::to_ascii_lower(file.extension.as_str());
    file.is_file && text::same_text(ext.as_str(), "txt")
}

/// What the browser shows of a folder's files.
pub fn browser_files(files: &Vec<ScannedFile>) -> (shown: Vec<BrowserFile>)
    ensures
        shows_files(shown@, files@),
{
    let ghost pick = |f: ScannedFile| is_listed(f);
    let mut kept: Vec<usize> = Vec::new();
    let mut names: Vec<String> = Vec::new();
    let mut i: usize = 0;
    proof {
        assert(files@.take(0) =~= Seq::<ScannedFile>::empty());
        reveal(Seq::filter);
    }
    while i < files.len()
        invariant
            i <= files@.len(),
            pick == (|f: ScannedFile| is_listed(f)),
            kept@.len() == names@.len() == files@.take(i as int).filter(pick).len(),
            forall|k: int|
                0 <= k < kept@.len() ==> (#[trigger] kept@[k]) < files@.len()
                    && files@[kept@[k] as int] == files@.take(i as int).filter(pick)[k]
                    && names@[k]@ == files@[kept@[k] as int].name@,
        decreases files@.len() - i,
    {
        proof {
            assert(files@.take(i + 1).drop_last() =~= files@.take(i as int));
            reveal(Seq::filter);
        }
        if file_is_listed(&files[i]) {
            kept.push(i);
            names.push(files[i].name.clone());
        }
        i = i + 1;
    }
    assert(files@.take(i as int) =~= files@);
    let ghost list = listed_files(files@);
    assert forall|k: int| 0 <= k < names@.len() implies (#[trigger] names@[k])@ == list[k].name@ by {
        assert(kept@[k] < files@.len());
    }
    assert(crate::search::views(names@) =~= file_names(list));
    let order = sort_order(&names);
    let mut shown: Vec<BrowserFile> = Vec::new();
    let mut k: usize = 0;
    while k < order.len()
        invariant
            k <= order@.len() == list.len() == kept@.len(),
            is_order(order@, sort_keys(file_names(list)), list.len() as int),
            forall|j: int|
                0 <= j < kept@.len() ==> (#[trigger] kept@[j]) < files@.len()
                    && files@[kept@[j] as int] == list[j],
            shown@.len() == k,
            forall|j: int|
                0 <= j < k ==> (#[trigger] shown@[j]).name@ == list[order@[j] as int].name@
                    && shown@[j].path@ == list[order@[j] as int].path@,
        decreases order@.len() - k,
    {
        let at: usize = kept[order[k]];
        shown.push(BrowserFile { name: files[at].name.clone(), path: files[at].path.clone() });
        k = k + 1;
    }
    shown
}

/// What the browser shows of the entries below the root.
pub fn browser_folders(entries: &Vec<ScannedFolder>) -> (shown: Vec<LogBrowserFolder>)
    ensures
        shows_folders(shown@, entries@),
{
    let ghost pick = |e: ScannedFolder| folder_shown(e);
    let mut kept: Vec<usize> = Vec::new();
    let mut names: Vec<String> = Vec::new();
    let mut i: usize = 0;
    proof {
        assert(entries@.take(0) =~= Seq::<ScannedFolder>::empty());
        reveal(Seq::filter);
    }
    while i < entries.len()
        invariant
            i <= entries@.len(),
            pick == (|e: ScannedFolder| folder_shown(e)),
            kept@.len() == names@.len() == entries@.take(i as int).filter(pick).len(),
            forall|k: int|
                0 <= k < kept@.len() ==> (#[trigger] kept@[k]) < entries@.len()
                    && entries@[kept@[k] as int] == entries@.take(i as int).filter(pick)[k]
                    && names@[k]@ == entries@[kept@[k] as int].name@ && folder_shown(
                    entries@[kept@[k] as int],
                ),
        decreases entries@.len() - i,
    {
        proof {
            assert(entries@.take(i + 1).drop_last() =~= entries@.take(i as int));
            reveal(Seq::filter);
        }
        if folder_is_shown(&entries[i]) {
            kept.push(i);
            names.push(entries[i].name.clone());
        }
        i = i + 1;
    }
    assert(entries@.take(i as int) =~= entries@);
    let ghost list = shown_entries(entries@);
    assert forall|k: int| 0 <= k < names@.len() implies (#[trigger] names@[k])@ == list[k].name@ by {
        assert(kept@[k] < entries@.len());
    }
    assert(crate::search::views(names@) =~= folder_names(list));
    let order = sort_order(&names);
    let mut shown: Vec<LogBrowserFolder> = Vec::new();
    let mut k: usize = 0;
    while k < order.len()
        invariant
            k <= order@.len() == list.len() == kept@.len(),
            is_order(
                order@,
                sort_keys(folder_names(list)),
                list.len() as int,
            ),
            forall|j: int|
                0 <= j < kept@.len() ==> (#[trigger] kept@[j]) < entries@.len()
                    && entries@[kept@[j] as int] == list[j] && folder_shown(
                    entries@[kept@[j] as int],
                ),
            shown@.len() == k,
            forall|j: int|
                0 <= j < k ==> (#[trigger] shown@[j]).name@ == list[order@[j] as int].name@
                    && shows_files(shown@[j].files@, list[order@[j] as int].files->Some_0@),
        decreases order@.len() - k,
    {
        let at: usize = kept[order[k]];
        let files = match &entries[at].files {
            Some(files) => browser_files(files),
            None => Vec::new(),
        };
        shown.push(LogBrowserFolder { name: entries[at].name.clone(), files });
        k = k + 1;
    }
    shown
}

fn folder_is_shown(entry: &ScannedFolder) -> (r: bool)
    ensures
        r == folder_shown(*entry),
{
    if !entry.is_dir {
        return false;
    }
    match &entry.files {
        Some(files) => any_listed(files),
        None => false,
    }
}

fn any_listed(files: &Vec<ScannedFile>) -> (r: bool)
    ensures
        r == (listed_files(files@).len() > 0),
{
    let ghost pick = |f: ScannedFile| is_listed(f);
    let mut i: usize = 0;
    proof {
        assert(files@.take(0) =~= Seq::<ScannedFile>::empty());
        reveal(Seq::filter);
    }
    while i < files.len()
        invariant
            i <= files@.len(),
            pick == (|f: ScannedFile| is_listed(f)),
            files@.take(i as int).filter(pick).len() == 0,
        decreases files@.len() - i,
    {
        proof {
            assert(files@.take(i + 1).drop_last() =~= files@.take(i as int));
            reveal(Seq::filter);
        }
        if file_is_listed(&files[i]) {
            proof {
                lemma_filter_grows(files@, pick, i + 1);
            }
            return true;
        }
        i = i + 1;
    }
    assert(files@.take(i as int) =~= files@);
    false
}

proof fn lemma_filter_grows(s: Seq<ScannedFile>, pick: spec_fn(ScannedFile) -> bool, n: int)
    requires
        0 <= n <= s.len(),
    ensures
        s.take(n).filter(pick).len() <= s.filter(pick).len(),
    decreases s.len(),
{
    reveal(Seq::filter);
    if n < s.len() {
        assert(s.drop_last().take(n) =~= s.take(n));
        lemma_filter_grows(s.drop_last(), pick, n);
    } else {
        assert(s.take(n) =~= s);
    }
}

// ---------------------------------------------------------------------------
// Freshness
// ---------------------------------------------------------------------------

/// Whether the folder in the box is another than the one that was read.
pub fn browser_stale(dir: &str, scanned: &str) -> (r: bool)
    ensures
        r == (text::trimmed(dir@) != text::trimmed(scanned@)),
{
    let a = text::trim(dir);
    let b = text::trim(scanned);
    !text::same_text(a.as_str(), b.as_str())
}

/// The folder to read, without blanks around it; none when the box is blank.
pub fn browser_root(dir: &str) -> (r: Option<String>)
    ensures
        r is None <==> text::trimmed(dir@).len() == 0,
        r matches Some(root) ==> root@ == text::trimmed(dir@),
{
    let root = text::trim(dir);
    if root.as_str().is_empty() {
        None
    } else {
        Some(root)
    }
}

/// The folder in which a dialog starts: the browser's, or else that of the captures.
pub fn browse_start(browser_dir: &str, capture_dir: &str) -> (r: String)
    ensures
        r@ == if text::trimmed(browser_dir@).len() > 0 {
            browser_dir@
        } else if text::trimmed(capture_dir@).len() > 0 {
            capture_dir@
        } else {
            Seq::empty()
        },
{
    if !text::is_blank(browser_dir) {
        browser_dir.to_owned()
    } else if !text::is_blank(capture_dir) {
        capture_dir.to_owned()
    } else {
        String::new()
    }
}

// ---------------------------------------------------------------------------
// What holds of listings
// ---------------------------------------------------------------------------

/// Whether two texts agree up to place `k`, where the first one ends or has the lesser
/// character.
pub open spec fn first_difference(a: Seq<char>, b: Seq<char>, k: int) -> bool {
    &&& 0 <= k <= a.len()
    &&& k < b.len()
    &&& forall|i: int| 0 <= i < k ==> #[trigger] a[i] == b[i]
    &&& k == a.len() || a[k] < b[k]
}

/// Law: a text comes before another exactly if, at the first place where they differ, it has
/// the lesser character or has ended. Of two different texts one comes before the other.
pub proof fn law_dictionary_order(a: Seq<char>, b: Seq<char>)
    ensures
        text_before(a, b) <==> exists|k: int| first_difference(a, b, k),
        a != b ==> text_before(a, b) || text_before(b, a),
        !(text_before(a, b) && text_before(b, a)),
{
    lemma_text_before_total(a, b);
    if text_before(a, b) {
        lemma_difference_of(a, b);
    }
    if exists|k: int| first_difference(a, b, k) {
        let k = choose|k: int| first_difference(a, b, k);
        lemma_text_before_skip(a, b, k);
        let (x, y) = (a.skip(k), b.skip(k));
        if x.len() > 0 {
            assert(x[0] == a[k] && y[0] == b[k]);
        }
        assert(text_before(x, y));
    }
}

proof fn lemma_difference_of(a: Seq<char>, b: Seq<char>)
    requires
        text_before(a, b),
    ensures
        exists|k: int| first_difference(a, b, k),
    decreases a.len(),
{
    if a.len() == 0 || a[0] != b[0] {
        assert(first_difference(a, b, 0));
    } else {
        let (x, y) = (a.skip(1), b.skip(1));
        lemma_difference_of(x, y);
        let k = choose|k: int| first_difference(x, y, k);
        assert forall|i: int| 0 <= i < k + 1 implies #[trigger] a[i] == b[i] by {
            if i > 0 {
                assert(x[i - 1] == y[i - 1]);
            }
        }
        assert(first_difference(a, b, k + 1));
    }
}

/// Whether a file has the extension of a log, in small or capital letters.
pub open spec fn is_text_file(file: ScannedFile) -> bool {
    file.is_file && text::ascii_lower_seq(file.extension@) == "txt"@
}

/// Whether an entry has the name and the path of one of the files with the extension of a log.
pub open spec fn stands_for_a_text_file(entry: BrowserFile, files: Seq<ScannedFile>) -> bool {
    exists|i: int|
        0 <= i < files.len() && is_text_file(#[trigger] files[i]) && files[i].name@ == entry.name@
            && files[i].path@ == entry.path@
}

/// Law: the browser shows of a folder exactly the files with the extension `txt`, each by its
/// name and path, sorted by their names without regard to case.
pub proof fn law_browser_shows_the_text_files(shown: Seq<BrowserFile>, files: Seq<ScannedFile>)
    requires
        shows_files(shown, files),
    ensures
        forall|k: int| 0 <= k < shown.len() ==> stands_for_a_text_file(#[trigger] shown[k], files),
        forall|i: int|
            0 <= i < files.len() && is_text_file(#[trigger] files[i]) ==> exists|k: int|
                0 <= k < shown.len() && (#[trigger] shown[k]).name@ == files[i].name@
                    && shown[k].path@ == files[i].path@,
        forall|j: int, k: int|
            0 <= j < k < shown.len() ==> !text_before(
                text::ascii_lower_seq((#[trigger] shown[k]).name@),
                text::ascii_lower_seq((#[trigger] shown[j]).name@),
            ),
{
    let kept = listed_files(files);
    let keys = sort_keys(file_names(kept));
    let n = kept.len() as int;
    let order = choose|order: Seq<usize>|
        {
            &&& #[trigger] is_order(order, keys, n)
            &&& shown.len() == n
            &&& forall|k: int|
                0 <= k < shown.len() ==> (#[trigger] shown[k]).name@ == kept[order[k] as int].name@
                    && shown[k].path@ == kept[order[k] as int].path@
        };
    let pick = |f: ScannedFile| is_listed(f);
    files.filter_lemma(pick);
    assert forall|k: int| 0 <= k < shown.len() implies stands_for_a_text_file(
        #[trigger] shown[k],
        files,
    ) by {
        let f = kept[order[k] as int];
        assert(pick(f));
        assert(kept.contains(f));
        assert(files.contains(f)) by {
            lemma_filter_from(files, pick, f);
        }
        let i = choose|i: int| 0 <= i < files.len() && files[i] == f;
        assert(is_text_file(files[i]));
    }
    assert forall|i: int| 0 <= i < files.len() && is_text_file(#[trigger] files[i]) implies exists|
        k: int,
    | 0 <= k < shown.len() && (#[trigger] shown[k]).name@ == files[i].name@ && shown[k].path@
        == files[i].path@ by {
        assert(pick(files[i]));
        assert(kept.contains(files[i]));
        let e = choose|e: int| 0 <= e < kept.len() && kept[e] == files[i];
        law_listing_is_complete(order, keys, n, e);
        let k = choose|k: int| 0 <= k < n && #[trigger] order[k] == e;
        assert(shown[k].name@ == kept[e].name@);
    }
    assert forall|j: int, k: int| 0 <= j < k < shown.len() implies !text_before(
        text::ascii_lower_seq((#[trigger] shown[k]).name@),
        text::ascii_lower_seq((#[trigger] shown[j]).name@),
    ) by {
        let (a, b) = (order[j] as int, order[k] as int);
        assert(listed_before(keys, a, b));
        assert(keys[a] == text::ascii_lower_seq(shown[j].name@));
        assert(keys[b] == text::ascii_lower_seq(shown[k].name@));
        lemma_text_before_total(keys[a], keys[b]);
    }
}

proof fn lemma_filter_from<T>(s: Seq<T>, pick: spec_fn(T) -> bool, x: T)
    requires
        s.filter(pick).contains(x),
    ensures
        s.contains(x),
    decreases s.len(),
{
    reveal(Seq::filter);
    if s.len() > 0 {
        let front = s.drop_last();
        let kept = front.filter(pick);
        if kept.contains(x) {
            lemma_filter_from(front, pick, x);
            let i = choose|i: int| 0 <= i < front.len() && front[i] == x;
            assert(s[i] == x);
        } else {
            let k = choose|k: int| 0 <= k < s.filter(pick).len() && s.filter(pick)[k] == x;
            if k < kept.len() {
                assert(kept[k] == x);
            }
            assert(s[s.len() - 1] == x);
        }
    }
}

/// Law: the browser shows exactly the folders that can be read and hold a file with the
/// extension `txt`, sorted by their names without regard to case, each with its files; so no
/// folder that is shown is empty.
pub proof fn law_browser_shows_no_empty_folder(
    shown: Seq<LogBrowserFolder>,
    entries: Seq<ScannedFolder>,
)
    requires
        shows_folders(shown, entries),
    ensures
        forall|k: int|
            0 <= k < shown.len() ==> (#[trigger] shown[k]).files@.len() > 0 && exists|i: int|
                0 <= i < entries.len() && (#[trigger] entries[i]).is_dir && entries[i].name@
                    == shown[k].name@ && entries[i].files is Some && shows_files(
                    shown[k].files@,
                    entries[i].files->Some_0@,
                ),
        forall|i: int|
            0 <= i < entries.len() && (#[trigger] entries[i]).is_dir && entries[i].files is Some
                && (exists|f: int|
                0 <= f < entries[i].files->Some_0@.len() && is_text_file(
                    #[trigger] entries[i].files->Some_0@[f],
                )) ==> exists|k: int|
                0 <= k < shown.len() && (#[trigger] shown[k]).name@ == entries[i].name@,
        forall|j: int, k: int|
            0 <= j < k < shown.len() ==> !text_before(
                text::ascii_lower_seq((#[trigger] shown[k]).name@),
                text::ascii_lower_seq((#[trigger] shown[j]).name@),
            ),
{
    let kept = shown_entries(entries);
    let keys = sort_keys(folder_names(kept));
    let n = kept.len() as int;
    let order = choose|order: Seq<usize>|
        {
            &&& #[trigger] is_order(order, keys, n)
            &&& shown.len() == n
            &&& forall|k: int|
                0 <= k < shown.len() ==> (#[trigger] shown[k]).name@ == kept[order[k] as int].name@
                    && shows_files(shown[k].files@, kept[order[k] as int].files->Some_0@)
        };
    let pick = |e: ScannedFolder| folder_shown(e);
    entries.filter_lemma(pick);
    assert forall|k: int| 0 <= k < shown.len() implies (#[trigger] shown[k]).files@.len() > 0
        && exists|i: int|
        0 <= i < entries.len() && (#[trigger] entries[i]).is_dir && entries[i].name@
            == shown[k].name@ && entries[i].files is Some && shows_files(
            shown[k].files@,
            entries[i].files->Some_0@,
        ) by {
        let e = kept[order[k] as int];
        assert(pick(e));
        assert(kept.contains(e));
        lemma_filter_from(entries, pick, e);
        let i = choose|i: int| 0 <= i < entries.len() && entries[i] == e;
        assert(entries[i].is_dir);
    }
    assert forall|i: int|
        0 <= i < entries.len() && (#[trigger] entries[i]).is_dir && entries[i].files is Some && (
        exists|f: int|
            0 <= f < entries[i].files->Some_0@.len() && is_text_file(
                #[trigger] entries[i].files->Some_0@[f],
            )) implies exists|k: int|
        0 <= k < shown.len() && (#[trigger] shown[k]).name@ == entries[i].name@ by {
        let files = entries[i].files->Some_0@;
        let f = choose|f: int| 0 <= f < files.len() && is_text_file(#[trigger] files[f]);
        let listed = |f: ScannedFile| is_listed(f);
        files.filter_lemma(listed);
        assert(listed(files[f]));
        assert(listed_files(files).contains(files[f]));
        assert(pick(entries[i]));
        assert(kept.contains(entries[i]));
        let e = choose|e: int| 0 <= e < kept.len() && kept[e] == entries[i];
        law_listing_is_complete(order, keys, n, e);
        let k = choose|k: int| 0 <= k < n && #[trigger] order[k] == e;
        assert(shown[k].name@ == kept[e].name@);
    }
    assert forall|j: int, k: int| 0 <= j < k < shown.len() implies !text_before(
        text::ascii_lower_seq((#[trigger] shown[k]).name@),
        text::ascii_lower_seq((#[trigger] shown[j]).name@),
    ) by {
        let (a, b) = (order[j] as int, order[k] as int);
        assert(listed_before(keys, a, b));
        assert(keys[a] == text::ascii_lower_seq(shown[j].name@));
        assert(keys[b] == text::ascii_lower_seq(shown[k].name@));
        lemma_text_before_total(keys[a], keys[b]);
    }
}

} // verus!
