//! Waveforms of oscilloscopes: labels, file names and how they are saved.
use vstd::prelude::*;
use vstd::string::*;

use crate::lang::{chosen, Lang};
use crate::{lang, text};

verus! {

broadcast use vstd::string::group_string_axioms;

// ---------------------------------------------------------------------------
// Cells and labels
// ---------------------------------------------------------------------------

/// A text with every quotation mark doubled.
pub open spec fn doubled_quotes(s: Seq<char>) -> Seq<char>
    decreases s.len(),
{
    if s.len() == 0 {
        Seq::empty()
    } else if s.last() == '"' {
        doubled_quotes(s.drop_last()).push('"').push('"')
    } else {
        doubled_quotes(s.drop_last()).push(s.last())
    }
}

/// Whether a cell has to be quoted.
pub open spec fn needs_quotes(s: Seq<char>) -> bool {
    s.contains(',') || s.contains('"') || s.contains('\n') || s.contains('\r')
}

/// A cell of a table with commas between its columns.
pub open spec fn csv_cell(s: Seq<char>) -> Seq<char> {
    if needs_quotes(s) {
        seq!['"'] + doubled_quotes(s) + seq!['"']
    } else {
        s
    }
}

fn double_quotes(v: &Vec<char>) -> (r: Vec<char>)
    ensures
        r@ == doubled_quotes(v@),
{
    let mut r: Vec<char> = Vec::new();
    let mut i: usize = 0;
    assert(v@.take(0) =~= Seq::<char>::empty());
    while i < v.len()
        invariant
            i <= v@.len(),
            r@ == doubled_quotes(v@.take(i as int)),
        decreases v@.len() - i,
    {
        assert(v@.take(i + 1).drop_last() =~= v@.take(i as int));
        if v[i] == '"' {
            r.push('"');
        }
        r.push(v[i]);
        i = i + 1;
    }
    assert(v@.take(i as int) =~= v@);
    r
}

/// A cell of a table with commas between its columns: quoted where it has to be.
pub fn waveform_csv_cell(value: &str) -> (r: String)
    ensures
        r@ == csv_cell(value@),
{
    if text::contains_char(value, ',') || text::contains_char(value, '"') || text::contains_char(
        value,
        '\n',
    ) || text::contains_char(value, '\r') {
        let v = text::chars_of(value);
        let inner = text::string_of(&double_quotes(&v));
        let mut r = String::new();
        r.push('"');
        r.append(inner.as_str());
        r.push('"');
        assert(r@ =~= csv_cell(value@));
        r
    } else {
        value.to_owned()
    }
}

/// What a reader takes a quoted text for: pairs of quotation marks count once.
pub open spec fn undoubled_quotes(s: Seq<char>) -> Seq<char>
    decreases s.len(),
{
    if s.len() == 0 {
        Seq::empty()
    } else if s.last() == '"' && s.len() >= 2 {
        undoubled_quotes(s.drop_last().drop_last()).push('"')
    } else {
        undoubled_quotes(s.drop_last()).push(s.last())
    }
}

/// Whether the quotation marks of a text stand in pairs, side by side.
pub open spec fn quotes_are_paired(s: Seq<char>) -> bool
    decreases s.len(),
{
    if s.len() == 0 {
        true
    } else if s.last() == '"' {
        s.len() >= 2 && s[s.len() - 2] == '"' && quotes_are_paired(s.drop_last().drop_last())
    } else {
        quotes_are_paired(s.drop_last())
    }
}

/// Law: a quoted cell reads back as the text that was written, and no quotation mark inside
/// it stands alone: they stand in pairs.
pub proof fn law_quoted_cell_reads_back(s: Seq<char>)
    ensures
        undoubled_quotes(doubled_quotes(s)) == s,
        quotes_are_paired(doubled_quotes(s)),
    decreases s.len(),
{
    if s.len() > 0 {
        let front = doubled_quotes(s.drop_last());
        law_quoted_cell_reads_back(s.drop_last());
        if s.last() == '"' {
            let two = front.push('"').push('"');
            assert(two.drop_last() =~= front.push('"'));
            assert(two.drop_last().drop_last() =~= front);
        } else {
            assert(front.push(s.last()).drop_last() =~= front);
        }
        assert(s.drop_last().push(s.last()) =~= s);
    } else {
        assert(s =~= Seq::<char>::empty());
    }
}

/// The text before the first comma, without blanks around it.
pub open spec fn head_field(s: Seq<char>) -> Seq<char> {
    match text::index_of_char(s, ',', 0) {
        Some(at) => text::trimmed(s.take(at)),
        None => text::trimmed(s),
    }
}

/// A text in upper case without spaces.
pub open spec fn compact_upper(s: Seq<char>) -> Seq<char> {
    text::ascii_upper_seq(s).filter(|c: char| c != ' ')
}

/// The digits that a text begins with.
pub open spec fn leading_digits(s: Seq<char>) -> Seq<char>
    decreases s.len(),
{
    if s.len() > 0 && '0' <= s[0] && s[0] <= '9' {
        seq![s[0]] + leading_digits(s.skip(1))
    } else {
        Seq::empty()
    }
}

/// Whether `digits` are the digits behind the first `CH` of a text, in whatever case.
pub open spec fn channel_digits(s: Seq<char>, digits: Seq<char>) -> bool {
    exists|at: int|
        {
            &&& #[trigger] text::matches_at(text::ascii_upper_seq(s), "CH"@, at)
            &&& forall|k: int|
                0 <= k < at ==> !text::matches_at(text::ascii_upper_seq(s), "CH"@, k)
            &&& digits == leading_digits(s.skip(at + 2))
        }
}

/// At most `n` characters of a text.
pub open spec fn first_chars(s: Seq<char>, n: int) -> Seq<char> {
    if s.len() <= n {
        s
    } else {
        s.take(n)
    }
}

/// Whether `r` is the short label of a channel: the first field where it is short and names a
/// channel, or else the number behind `CH` in the whole text, or else the first field cut off.
pub open spec fn channel_label(s: Seq<char>, r: Seq<char>) -> bool {
    let head = head_field(s);
    let upper = compact_upper(head);
    if text::has_prefix(upper, "CH"@) && text::byte_len(upper) <= 6 {
        r == upper
    } else if text::has_text(text::ascii_upper_seq(s), "CH"@) {
        exists|digits: Seq<char>|
            #[trigger] channel_digits(s, digits) && r == if digits.len() > 0 {
                "CH"@ + digits
            } else {
                first_chars(head, 24)
            }
    } else {
        r == first_chars(head, 24)
    }
}

fn without_spaces(v: &Vec<char>) -> (r: Vec<char>)
    ensures
        r@ == v@.filter(|c: char| c != ' '),
{
    let ghost pick = |c: char| c != ' ';
    let mut r: Vec<char> = Vec::new();
    let mut i: usize = 0;
    proof {
        assert(v@.take(0) =~= Seq::<char>::empty());
        reveal(Seq::filter);
    }
    while i < v.len()
        invariant
            i <= v@.len(),
            pick == (|c: char| c != ' '),
            r@ == v@.take(i as int).filter(pick),
        decreases v@.len() - i,
    {
        proof {
            assert(v@.take(i + 1).drop_last() =~= v@.take(i as int));
            reveal(Seq::filter);
        }
        if v[i] != ' ' {
            r.push(v[i]);
        }
        i = i + 1;
    }
    assert(v@.take(i as int) =~= v@);
    r
}

proof fn lemma_leading_digits(s: Seq<char>, n: int)
    requires
        0 <= n <= s.len(),
        forall|k: int| 0 <= k < n ==> '0' <= (#[trigger] s[k]) && s[k] <= '9',
        n < s.len() ==> !('0' <= s[n] && s[n] <= '9'),
    ensures
        leading_digits(s) == s.take(n),
    decreases n,
{
    if n == 0 {
        assert(s.take(0) =~= Seq::<char>::empty());
    } else {
        let t = s.skip(1);
        assert forall|k: int| 0 <= k < n - 1 implies '0' <= (#[trigger] t[k]) && t[k] <= '9' by {
            assert(t[k] == s[k + 1]);
        }
        lemma_leading_digits(t, n - 1);
        assert(seq![s[0]] + t.take(n - 1) =~= s.take(n));
    }
}

fn digits_at(v: &Vec<char>, from: usize) -> (r: String)
    requires
        from <= v.len(),
    ensures
        r@ == leading_digits(v@.skip(from as int)),
{
    let mut to: usize = from;
    while to < v.len() && '0' <= v[to] && v[to] <= '9'
        invariant
            from <= to <= v.len(),
            forall|k: int| from <= k < to ==> '0' <= (#[trigger] v@[k]) && v@[k] <= '9',
        decreases v.len() - to,
    {
        to = to + 1;
    }
    proof {
        let s = v@.skip(from as int);
        assert forall|k: int| 0 <= k < to - from implies '0' <= (#[trigger] s[k]) && s[k] <= '9' by {
            assert(s[k] == v@[k + from]);
        }
        lemma_leading_digits(s, to - from);
        assert(s.take(to - from) =~= v@.subrange(from as int, to as int));
    }
    text::string_of_range(v, from, to)
}

fn cut_chars(s: &str, n: usize) -> (r: String)
    ensures
        r@ == first_chars(s@, n as int),
{
    let v = text::chars_of(s);
    if v.len() <= n {
        return s.to_owned();
    }
    let r = text::string_of_range(&v, 0, n);
    assert(r@ =~= s@.take(n as int));
    r
}

fn short_bytes(v: &Vec<char>) -> (r: bool)
    ensures
        r == (text::byte_len(v@) <= 6),
{
    let mut total: usize = 0;
    let mut i: usize = 0;
    assert(v@.take(0) =~= Seq::<char>::empty());
    while i < v.len()
        invariant
            i <= v@.len(),
            total == text::byte_len(v@.take(i as int)),
            total <= 6,
        decreases v@.len() - i,
    {
        assert(v@.take(i + 1).drop_last() =~= v@.take(i as int));
        total = total + text::char_width(v[i]);
        assert(text::byte_len(v@.take(i + 1)) == total);
        if total > 6 {
            proof {
                assert(v@ =~= v@.take(i + 1) + v@.skip(i + 1));
                text::lemma_byte_len_add(v@.take(i + 1), v@.skip(i + 1));
            }
            return false;
        }
        i = i + 1;
    }
    assert(v@.take(i as int) =~= v@);
    true
}

/// The short label of a channel.
pub fn short_wave_channel_label(channel: &str) -> (r: String)
    ensures
        channel_label(channel@, r@),
{
    let v = text::chars_of(channel);
    let head = match text::find_char(&v, ',', 0) {
        Some(at) => {
            let field = text::string_of_range(&v, 0, at);
            assert(field@ =~= channel@.take(at as int));
            text::trim(field.as_str())
        },
        None => text::trim(channel),
    };
    let h = text::chars_of(head.as_str());
    let compact = without_spaces(&text::upper_chars(&h));
    let upper = text::string_of(&compact);
    if text::starts_with(upper.as_str(), "CH") && short_bytes(&compact) {
        return upper;
    }
    let big = text::upper_chars(&v);
    let needle = text::chars_of("CH");
    proof {
        reveal_strlit("CH");
    }
    match text::find_chars(&big, &needle, 0) {
        Some(at) => {
            assert(at + 2 <= v.len());
            let digits = digits_at(&v, at + 2);
            assert(text::matches_at(text::ascii_upper_seq(channel@), "CH"@, at as int));
            assert(channel_digits(channel@, digits@));
            if digits.as_str().is_empty() {
                cut_chars(head.as_str(), 24)
            } else {
                text::join2("CH", digits.as_str())
            }
        },
        None => {
            assert forall|k: int| !text::matches_at(text::ascii_upper_seq(channel@), "CH"@, k) by {
                if k >= 0 {
                    assert(!text::matches_at(big@, needle@, k));
                }
            }
            cut_chars(head.as_str(), 24)
        },
    }
}

// ---------------------------------------------------------------------------
// Makers
// ---------------------------------------------------------------------------

/// What `str::to_uppercase` makes of a text.
pub uninterp spec fn uppercase_text(s: Seq<char>) -> Seq<char>;

/// Calls `str::to_uppercase`. The result is the one that the text determines; for a text in
/// ASCII it is the text with its small letters made capital.
#[verifier::external_body]
fn to_uppercase(s: &str) -> (r: String)
    ensures
        r@ == uppercase_text(s@),
        (forall|i: int| 0 <= i < s@.len() ==> (#[trigger] s@[i]) as u32 <= 0x7f) ==> r@
            == text::ascii_upper_seq(s@),
{
    s.to_uppercase()
}

/// Whether the name of a maker holds `needle`, whatever its case.
pub fn manufacturer_is(manufacturer: &str, needle: &str) -> (r: bool)
    ensures
        r == text::has_text(uppercase_text(manufacturer@), needle@),
{
    let upper = to_uppercase(manufacturer);
    text::contains_text(upper.as_str(), needle)
}

/// The makers that are told apart.
#[derive(Debug, Clone, Copy, PartialEq, Eq, Structural)]
pub enum Vendor {
    Tektronix,
    Rigol,
    Keysight,
    Other,
}

/// The maker by the upper-case name.
pub open spec fn vendor_by_name(upper: Seq<char>) -> Vendor {
    if text::has_text(upper, "TEKTRONIX"@) {
        Vendor::Tektronix
    } else if text::has_text(upper, "RIGOL"@) || text::has_text(upper, "SIGLENT"@) {
        Vendor::Rigol
    } else if text::has_text(upper, "KEYSIGHT"@) || text::has_text(upper, "AGILENT"@) {
        Vendor::Keysight
    } else {
        Vendor::Other
    }
}

/// The maker by the upper-case name.
pub fn vendor_named(upper: &str) -> (r: Vendor)
    ensures
        r == vendor_by_name(upper@),
{
    if text::contains_text(upper, "TEKTRONIX") {
        Vendor::Tektronix
    } else if text::contains_text(upper, "RIGOL") || text::contains_text(upper, "SIGLENT") {
        Vendor::Rigol
    } else if text::contains_text(upper, "KEYSIGHT") || text::contains_text(upper, "AGILENT") {
        Vendor::Keysight
    } else {
        Vendor::Other
    }
}

/// The maker by its name, whatever its case.
pub fn vendor_of(manufacturer: &str) -> (r: Vendor)
    ensures
        r == vendor_by_name(uppercase_text(manufacturer@)),
{
    let upper = to_uppercase(manufacturer);
    vendor_named(upper.as_str())
}

/// What reading the waveform of a maker's scope does, in both languages.
pub open spec fn source_tips(vendor: Vendor) -> (Seq<char>, Seq<char>) {
    match vendor {
        Vendor::Tektronix => (
            "读取已打开通道的屏幕时间窗波形（采样全密度，软件不砍点数，上限=示波器 Record Length；多通道同一 ISF）"@,
            "Read displayed channels over the screen time span (full sample density; no software point cap, limited by scope record length; multi-ch → one ISF)"@,
        ),
        Vendor::Rigol => (
            "读取已打开的全部通道屏幕波形→CSV（不受下方通道选择影响）；另存可转泰克 ISF/WFM"@,
            "Read all displayed channels via screen export→CSV (ignores selector); Save As→Tek ISF/WFM"@,
        ),
        Vendor::Keysight => (
            "读取已打开的全部通道屏幕波形→CSV（不受下方通道选择影响）；另存可转泰克 ISF/WFM"@,
            "Read all displayed channels→CSV (ignores selector); Save As→Tek ISF/WFM"@,
        ),
        Vendor::Other => (
            "自动尝试 Keysight/Rigol/Tek 命令读取屏幕波形；另存可转换格式"@,
            "Auto-try Keysight/Rigol/Tek screen waveform; Save As converts formats"@,
        ),
    }
}

/// What reading the waveform of a maker's scope does.
pub fn scope_waveform_source_tip(lang: Lang, vendor: Vendor) -> (r: &'static str)
    ensures
        r@ == chosen(lang, source_tips(vendor)),
{
    match vendor {
        Vendor::Tektronix => lang::text(
            lang,
            "读取已打开通道的屏幕时间窗波形（采样全密度，软件不砍点数，上限=示波器 Record Length；多通道同一 ISF）",
            "Read displayed channels over the screen time span (full sample density; no software point cap, limited by scope record length; multi-ch → one ISF)",
        ),
        Vendor::Rigol => lang::text(
            lang,
            "读取已打开的全部通道屏幕波形→CSV（不受下方通道选择影响）；另存可转泰克 ISF/WFM",
            "Read all displayed channels via screen export→CSV (ignores selector); Save As→Tek ISF/WFM",
        ),
        Vendor::Keysight => lang::text(
            lang,
            "读取已打开的全部通道屏幕波形→CSV（不受下方通道选择影响）；另存可转泰克 ISF/WFM",
            "Read all displayed channels→CSV (ignores selector); Save As→Tek ISF/WFM",
        ),
        Vendor::Other => lang::text(
            lang,
            "自动尝试 Keysight/Rigol/Tek 命令读取屏幕波形；另存可转换格式",
            "Auto-try Keysight/Rigol/Tek screen waveform; Save As converts formats",
        ),
    }
}

/// A file format that a dialog offers.
#[derive(Debug, Clone, Copy, PartialEq, Eq, Structural)]
pub enum SaveFormat {
    TekWfm,
    TekIsf,
    Csv,
    CsvNative,
    RigolWfm,
    IsfConverted,
    WfmConverted,
    All,
}

/// The name and the extension of a format.
pub open spec fn format_texts(f: SaveFormat) -> (Seq<char>, Seq<char>) {
    match f {
        SaveFormat::TekWfm => ("Tektronix WFM"@, "wfm"@),
        SaveFormat::TekIsf => ("Tektronix ISF"@, "isf"@),
        SaveFormat::Csv => ("CSV"@, "csv"@),
        SaveFormat::CsvNative => ("CSV (native)"@, "csv"@),
        SaveFormat::RigolWfm => ("Rigol WFM"@, "wfm"@),
        SaveFormat::IsfConverted => ("Tektronix ISF (converted)"@, "isf"@),
        SaveFormat::WfmConverted => ("Tektronix WFM (converted)"@, "wfm"@),
        SaveFormat::All => ("All"@, "*"@),
    }
}

impl SaveFormat {
    /// The name and the extension of the format.
    pub fn texts(self) -> (r: (&'static str, &'static str))
        ensures
            (r.0@, r.1@) == format_texts(self),
    {
        match self {
            SaveFormat::TekWfm => ("Tektronix WFM", "wfm"),
            SaveFormat::TekIsf => ("Tektronix ISF", "isf"),
            SaveFormat::Csv => ("CSV", "csv"),
            SaveFormat::CsvNative => ("CSV (native)", "csv"),
            SaveFormat::RigolWfm => ("Rigol WFM", "wfm"),
            SaveFormat::IsfConverted => ("Tektronix ISF (converted)", "isf"),
            SaveFormat::WfmConverted => ("Tektronix WFM (converted)", "wfm"),
            SaveFormat::All => ("All", "*"),
        }
    }
}

/// The formats that a dialog offers, the maker's own ones first.
pub open spec fn offered_formats(vendor: Vendor, preferred: Seq<char>) -> Seq<SaveFormat> {
    match vendor {
        Vendor::Tektronix => if preferred == "wfm"@ {
            seq![SaveFormat::TekWfm, SaveFormat::TekIsf, SaveFormat::Csv, SaveFormat::All]
        } else if preferred == "csv"@ {
            seq![SaveFormat::Csv, SaveFormat::TekIsf, SaveFormat::TekWfm, SaveFormat::All]
        } else {
            seq![SaveFormat::TekIsf, SaveFormat::TekWfm, SaveFormat::Csv, SaveFormat::All]
        },
        Vendor::Rigol => if preferred == "wfm"@ {
            seq![
                SaveFormat::RigolWfm,
                SaveFormat::Csv,
                SaveFormat::IsfConverted,
                SaveFormat::WfmConverted,
                SaveFormat::All,
            ]
        } else {
            seq![
                SaveFormat::CsvNative,
                SaveFormat::IsfConverted,
                SaveFormat::WfmConverted,
                SaveFormat::All,
            ]
        },
        _ => seq![
            SaveFormat::Csv,
            SaveFormat::IsfConverted,
            SaveFormat::WfmConverted,
            SaveFormat::All,
        ],
    }
}

/// The formats that a dialog offers.
pub fn save_formats(vendor: Vendor, preferred: &str) -> (r: Vec<SaveFormat>)
    ensures
        r@ == offered_formats(vendor, preferred@),
{
    let wfm: bool = text::same_text(preferred, "wfm");
    let csv: bool = text::same_text(preferred, "csv");
    let mut r: Vec<SaveFormat> = Vec::new();
    match vendor {
        Vendor::Tektronix => {
            if wfm {
                r.push(SaveFormat::TekWfm);
                r.push(SaveFormat::TekIsf);
                r.push(SaveFormat::Csv);
            } else if csv {
                r.push(SaveFormat::Csv);
                r.push(SaveFormat::TekIsf);
                r.push(SaveFormat::TekWfm);
            } else {
                r.push(SaveFormat::TekIsf);
                r.push(SaveFormat::TekWfm);
                r.push(SaveFormat::Csv);
            }
        },
        Vendor::Rigol => {
            if wfm {
                r.push(SaveFormat::RigolWfm);
                r.push(SaveFormat::Csv);
            } else {
                r.push(SaveFormat::CsvNative);
            }
            r.push(SaveFormat::IsfConverted);
            r.push(SaveFormat::WfmConverted);
        },
        _ => {
            r.push(SaveFormat::Csv);
            r.push(SaveFormat::IsfConverted);
            r.push(SaveFormat::WfmConverted);
        },
    }
    r.push(SaveFormat::All);
    assert(r@ =~= offered_formats(vendor, preferred@));
    r
}

/// The extension under which a waveform of a maker's scope is exported, as a text.
pub open spec fn export_ext(vendor: Vendor) -> Seq<char> {
    if vendor is Tektronix {
        "isf"@
    } else {
        "csv"@
    }
}

/// The extension under which a waveform of a maker's scope is exported.
pub fn export_extension(vendor: Vendor) -> (r: &'static str)
    ensures
        r@ == export_ext(vendor),
{
    match vendor {
        Vendor::Tektronix => "isf",
        _ => "csv",
    }
}

/// A channel name as part of a file name.
pub open spec fn safe_channel(s: Seq<char>) -> Seq<char> {
    text::swap_char(text::swap_char(text::swap_char(s, '/', '_'), '\\', '_'), ':', '_')
}

/// The name under which a waveform is exported, as a text.
pub open spec fn exported_as(channel: Seq<char>, stamp: Seq<char>, ext: Seq<char>) -> Seq<char> {
    "waveform_"@ + safe_channel(channel) + "_"@ + stamp + "."@ + ext
}

/// The name under which a waveform is exported.
pub fn export_name(channel: &str, stamp: &str, ext: &str) -> (r: String)
    ensures
        r@ == exported_as(channel@, stamp@, ext@),
{
    let a = text::replace_char(channel, '/', '_');
    let b = text::replace_char(a.as_str(), '\\', '_');
    let c = text::replace_char(b.as_str(), ':', '_');
    let mut r = text::join3("waveform_", c.as_str(), "_");
    r.append(stamp);
    r.append(".");
    r.append(ext);
    r
}

// ---------------------------------------------------------------------------
// Reading the channels of a scope
// ---------------------------------------------------------------------------

/// The data of one channel: its number and the kind of file that it is.
pub struct ChannelFile {
    pub channel: u8,
    pub ext: String,
}

/// The name of a channel by its number.
pub open spec fn channel_name(n: u8) -> Seq<char> {
    "CH"@ + text::decimal(n as nat)
}

/// The name of a channel by its number.
pub fn channel_text(n: u8) -> (r: String)
    ensures
        r@ == channel_name(n),
{
    let d = text::decimal_text(n as u64);
    text::join2("CH", d.as_str())
}

/// The names of the first `n` channels with a sign between them.
pub open spec fn joined_channels(files: Seq<ChannelFile>, sign: Seq<char>, n: int) -> Seq<char>
    decreases n,
{
    if n <= 0 {
        Seq::empty()
    } else if n == 1 {
        channel_name(files[0].channel)
    } else {
        joined_channels(files, sign, n - 1) + sign + channel_name(files[n - 1].channel)
    }
}

/// The names of the channels with a sign between them.
pub fn join_channels(files: &Vec<ChannelFile>, sign: &str) -> (r: String)
    ensures
        r@ == joined_channels(files@, sign@, files@.len() as int),
{
    let mut r = String::new();
    assert(r@ =~= Seq::<char>::empty());
    let mut i: usize = 0;
    while i < files.len()
        invariant
            i <= files@.len(),
            r@ == joined_channels(files@, sign@, i as int),
        decreases files@.len() - i,
    {
        if i > 0 {
            r.append(sign);
        }
        let name = channel_text(files[i].channel);
        let ghost before = r@;
        r.append(name.as_str());
        assert(i == 0 ==> r@ =~= channel_name(files@[0].channel));
        i = i + 1;
    }
    r
}

/// Whether all channels are ISF files.
pub open spec fn all_isf(files: Seq<ChannelFile>) -> bool {
    forall|i: int| 0 <= i < files.len() ==> (#[trigger] files[i]).ext@ == "isf"@
}

fn are_all_isf(files: &Vec<ChannelFile>) -> (r: bool)
    ensures
        r == all_isf(files@),
{
    let mut i: usize = 0;
    while i < files.len()
        invariant
            i <= files@.len(),
            forall|k: int| 0 <= k < i ==> (#[trigger] files@[k]).ext@ == "isf"@,
        decreases files@.len() - i,
    {
        if !text::same_text(files[i].ext.as_str(), "isf") {
            assert(files@[i as int].ext@ != "isf"@);
            return false;
        }
        i = i + 1;
    }
    true
}

/// How the data of the channels is put together.
#[derive(Debug, Clone, Copy, PartialEq, Eq, Structural)]
pub enum SourceShape {
    /// No channel gave data.
    Nothing,
    /// One channel: its file as it is.
    Single,
    /// Several ISF files, joined into one.
    JoinedIsf,
    /// Several files, put into one table.
    Sheet,
}

/// How the data of the channels is put together.
pub open spec fn shape_of(files: Seq<ChannelFile>) -> SourceShape {
    if files.len() == 0 {
        SourceShape::Nothing
    } else if files.len() == 1 {
        SourceShape::Single
    } else if all_isf(files) {
        SourceShape::JoinedIsf
    } else {
        SourceShape::Sheet
    }
}

/// How the data of the channels is put together.
pub fn source_shape(files: &Vec<ChannelFile>) -> (r: SourceShape)
    ensures
        r == shape_of(files@),
{
    if files.len() == 0 {
        SourceShape::Nothing
    } else if files.len() == 1 {
        SourceShape::Single
    } else if are_all_isf(files) {
        SourceShape::JoinedIsf
    } else {
        SourceShape::Sheet
    }
}

/// The name that is suggested for the data of the channels.
pub open spec fn suggested(files: Seq<ChannelFile>) -> Seq<char> {
    let tag = joined_channels(files, "_"@, files.len() as int);
    match shape_of(files) {
        SourceShape::Nothing => Seq::empty(),
        SourceShape::Single => "waveform_"@ + tag + "."@ + files[0].ext@,
        SourceShape::JoinedIsf => "waveform_"@ + tag + ".isf"@,
        SourceShape::Sheet => "waveform_"@ + tag + ".csv"@,
    }
}

/// The name that is suggested for the data of the channels.
pub fn suggested_name(files: &Vec<ChannelFile>) -> (r: String)
    ensures
        r@ == suggested(files@),
{
    let tag = join_channels(files, "_");
    match source_shape(files) {
        SourceShape::Nothing => {
            let r = String::new();
            assert(r@ =~= Seq::<char>::empty());
            r
        },
        SourceShape::Single => {
            let mut r = text::join3("waveform_", tag.as_str(), ".");
            r.append(files[0].ext.as_str());
            r
        },
        SourceShape::JoinedIsf => text::join3("waveform_", tag.as_str(), ".isf"),
        SourceShape::Sheet => text::join3("waveform_", tag.as_str(), ".csv"),
    }
}

/// Law: several channels are joined as an ISF file if and only if every one of them is an ISF
/// file; as soon as one has another extension they go into a table.
pub proof fn law_channels_join_only_as_isf(files: Seq<ChannelFile>)
    ensures
        shape_of(files) is Nothing <==> files.len() == 0,
        shape_of(files) is Single <==> files.len() == 1,
        shape_of(files) is JoinedIsf <==> files.len() >= 2 && forall|i: int|
            0 <= i < files.len() ==> (#[trigger] files[i]).ext@ == "isf"@,
        shape_of(files) is Sheet <==> files.len() >= 2 && exists|i: int|
            0 <= i < files.len() && (#[trigger] files[i]).ext@ != "isf"@,
{
}

/// Law: the suggested name ends in the extension of the one channel, in `.isf` for several
/// channels that all are ISF files, and in `.csv` as soon as one of several has another
/// extension. It starts in `waveform_`, and nothing is suggested where no channel gave data.
pub proof fn law_suggested_name_fits_the_data(files: Seq<ChannelFile>)
    ensures
        ({
            let name = suggested(files);
            &&& files.len() == 0 <==> name.len() == 0
            &&& files.len() > 0 ==> "waveform_CH"@.is_prefix_of(name)
            &&& files.len() == 1 ==> ("."@ + files[0].ext@).is_suffix_of(name)
            &&& files.len() >= 2 && (forall|i: int|
                0 <= i < files.len() ==> (#[trigger] files[i]).ext@ == "isf"@)
                ==> ".isf"@.is_suffix_of(name)
            &&& files.len() >= 2 && (exists|i: int|
                0 <= i < files.len() && (#[trigger] files[i]).ext@ != "isf"@)
                ==> ".csv"@.is_suffix_of(name)
        }),
{
    let n = files.len() as int;
    let tag = joined_channels(files, "_"@, n);
    reveal_strlit("waveform_");
    reveal_strlit("waveform_CH");
    reveal_strlit("CH");
    if n > 0 {
        lemma_joined_start(files, "_"@, n);
        assert(suggested(files).take(11) =~= "waveform_CH"@);
    }
    if n == 1 {
        let end = "."@ + files[0].ext@;
        let name = suggested(files);
        assert(name.skip(name.len() - end.len()) =~= end);
    } else if n > 1 {
        let name = suggested(files);
        let end = if all_isf(files) {
            ".isf"@
        } else {
            ".csv"@
        };
        assert(name.skip(name.len() - end.len()) =~= end);
    }
}

proof fn lemma_joined_start(files: Seq<ChannelFile>, sign: Seq<char>, n: int)
    requires
        0 < n,
    ensures
        joined_channels(files, sign, n).len() >= 2,
        joined_channels(files, sign, n)[0] == 'C',
        joined_channels(files, sign, n)[1] == 'H',
    decreases n,
{
    reveal_strlit("CH");
    if n > 1 {
        lemma_joined_start(files, sign, n - 1);
    }
}

/// Law: the names of the channels stand in their order, each as `CH` and its number, with the
/// sign between one and the next and none at the ends.
pub proof fn law_channel_names_are_joined(
    files: Seq<ChannelFile>,
    last: ChannelFile,
    sign: Seq<char>,
)
    requires
        files.len() > 0,
    ensures
        ({
            let all = files.push(last);
            joined_channels(all, sign, all.len() as int) == joined_channels(
                files,
                sign,
                files.len() as int,
            ) + sign + "CH"@ + text::decimal(last.channel as nat)
        }),
        joined_channels(seq![last], sign, 1) == "CH"@ + text::decimal(last.channel as nat),
{
    let all = files.push(last);
    lemma_joined_same(files, all, sign, files.len() as int);
    let front = joined_channels(files, sign, files.len() as int) + sign;
    assert(front + ("CH"@ + text::decimal(last.channel as nat)) =~= front + "CH"@
        + text::decimal(last.channel as nat));
}

proof fn lemma_joined_same(
    a: Seq<ChannelFile>,
    b: Seq<ChannelFile>,
    sign: Seq<char>,
    n: int,
)
    requires
        n <= a.len(),
        n <= b.len(),
        forall|i: int| 0 <= i < n ==> (#[trigger] a[i]).channel == b[i].channel,
    ensures
        joined_channels(a, sign, n) == joined_channels(b, sign, n),
    decreases n,
{
    if n > 1 {
        lemma_joined_same(a, b, sign, n - 1);
    }
}

/// Whether `r` is the extension to try second.
pub open spec fn tries_second(
    ext: Seq<char>,
    sniffed: Option<String>,
    r: Option<String>,
) -> bool {
    match sniffed {
        Some(s) => if s@ != ext {
            r == Some(s)
        } else {
            r is None
        },
        None => r is None,
    }
}

/// The extension to try after reading a file by its own one failed: the one that its bytes
/// look like, where that is another.
pub fn second_extension(ext: &str, sniffed: Option<String>) -> (r: Option<String>)
    ensures
        tries_second(ext@, sniffed, r),
{
    match sniffed {
        Some(s) => if text::same_text(s.as_str(), ext) {
            None
        } else {
            Some(s)
        },
        None => None,
    }
}

/// Texts with a sign between them, the first `n` of them.
pub open spec fn joined_texts(texts: Seq<String>, sign: Seq<char>, n: int) -> Seq<char>
    decreases n,
{
    if n <= 0 {
        Seq::empty()
    } else if n == 1 {
        texts[0]@
    } else {
        joined_texts(texts, sign, n - 1) + sign + texts[n - 1]@
    }
}

fn join_texts(texts: &Vec<String>, sign: &str) -> (r: String)
    ensures
        r@ == joined_texts(texts@, sign@, texts@.len() as int),
{
    let mut r = String::new();
    assert(r@ =~= Seq::<char>::empty());
    let mut i: usize = 0;
    while i < texts.len()
        invariant
            i <= texts@.len(),
            r@ == joined_texts(texts@, sign@, i as int),
        decreases texts@.len() - i,
    {
        if i > 0 {
            r.append(sign);
        }
        r.append(texts[i].as_str());
        assert(i == 0 ==> r@ =~= texts@[0]@);
        i = i + 1;
    }
    r
}

/// Whether `r` is what is reported of the channels that could not be read.
pub open spec fn reports(r: Option<Seq<char>>, trace_count: int, errors: Seq<String>) -> bool {
    match r {
        Some(message) => if trace_count == 0 {
            message == joined_texts(errors, "; "@, errors.len() as int)
        } else {
            errors.len() > 0 && message == "partial: "@ + joined_texts(
                errors,
                "; "@,
                errors.len() as int,
            )
        },
        None => trace_count > 0 && errors.len() == 0,
    }
}

/// What is reported of the channels that could not be read: all errors where no channel could
/// be, a partial failure where some could.
pub fn parse_report(trace_count: usize, errors: &Vec<String>) -> (r: Option<String>)
    ensures
        reports(crate::files::opt_text(r), trace_count as int, errors@),
{
    if trace_count == 0 {
        return Some(join_texts(errors, "; "));
    }
    if errors.len() > 0 {
        let all = join_texts(errors, "; ");
        return Some(text::join2("partial: ", all.as_str()));
    }
    None
}

/// Whether the bytes that are handed on are a table made of the traces.
pub fn hands_on_sheet(files: &Vec<ChannelFile>, trace_count: usize) -> (r: bool)
    ensures
        r == (shape_of(files@) is Sheet && trace_count > 0),
{
    match source_shape(files) {
        SourceShape::Sheet => trace_count > 0,
        _ => false,
    }
}

/// Whether the files of the channels are handed on beside the bytes: only a single one is.
pub fn keeps_parts(files: &Vec<ChannelFile>) -> (r: bool)
    ensures
        r == (files@.len() <= 1),
{
    files.len() <= 1
}

// ---------------------------------------------------------------------------
// Saving
// ---------------------------------------------------------------------------

/// The kind of file that received bytes are: what they look like, or else what the first
/// channel says, or else what the suggested name says.
pub open spec fn effective_ext(
    name_ext: Option<Seq<char>>,
    sniffed: Option<Seq<char>>,
    first_ext: Option<Seq<char>>,
) -> Seq<char> {
    match sniffed {
        Some(s) => s,
        None => match first_ext {
            Some(e) => e,
            None => match name_ext {
                Some(n) => text::ascii_lower_seq(n),
                None => "isf"@,
            },
        },
    }
}

/// The kind of file that received bytes are.
pub fn effective_extension(
    name_ext: Option<String>,
    sniffed: Option<String>,
    first_ext: Option<String>,
) -> (r: String)
    ensures
        r@ == effective_ext(
            crate::files::opt_text(name_ext),
            crate::files::opt_text(sniffed),
            crate::files::opt_text(first_ext),
        ),
{
    match sniffed {
        Some(s) => s,
        None => match first_ext {
            Some(e) => e,
            None => match name_ext {
                Some(n) => text::to_ascii_lower(n.as_str()),
                None => "isf".to_owned(),
            },
        },
    }
}

/// How received waveforms are saved.
#[derive(Debug, Clone, Copy, PartialEq, Eq, Structural)]
pub enum SavePlan {
    /// The bytes of the one channel, converted where the name asks for another format.
    Native,
    /// A table made of the traces, under the name.
    Sheet,
    /// The received bytes, which are a table, under the name.
    SheetBytes,
    /// The received bytes, which are joined ISF files; `renamed` where the name gets the
    /// extension of an ISF file.
    IsfBytes { renamed: bool },
    /// The files of the channels, joined into an ISF file.
    IsfJoined { renamed: bool },
    /// A table made of the traces, under the name with the extension of a table.
    SheetBeside,
}

/// How received waveforms are saved: several channels always go into one file.
pub open spec fn plan_for(
    ext: Seq<char>,
    effective: Seq<char>,
    files: Seq<ChannelFile>,
    trace_count: int,
    byte_count: int,
) -> SavePlan {
    if files.len() <= 1 {
        SavePlan::Native
    } else if ext == "csv"@ || ext == "txt"@ {
        if trace_count > 1 {
            SavePlan::Sheet
        } else {
            SavePlan::SheetBytes
        }
    } else if (effective == "isf"@ || all_isf(files)) && (ext == "isf"@ || ext == "wfm"@) {
        if byte_count > 0 {
            SavePlan::IsfBytes { renamed: ext == "wfm"@ }
        } else {
            SavePlan::IsfJoined { renamed: ext == "wfm"@ }
        }
    } else {
        SavePlan::SheetBeside
    }
}

/// The kind of file that a name asks for: its extension in small letters, or else what the
/// bytes are.
pub open spec fn saved_ext(path_ext: Option<Seq<char>>, effective: Seq<char>) -> Seq<char> {
    text::ascii_lower_seq(
        match path_ext {
            Some(e) => e,
            None => effective,
        },
    )
}

/// The name under which waveforms are saved, as a text.
pub open spec fn saved_as(stem: Seq<char>, stamp: Seq<char>, ext: Seq<char>) -> Seq<char> {
    stem + "_"@ + stamp + "."@ + ext
}

/// The name under which waveforms are saved unasked, as a text.
pub open spec fn auto_saved_as(
    filename: Option<Seq<char>>,
    stem: Seq<char>,
    ext: Seq<char>,
) -> Seq<char> {
    match filename {
        Some(name) => name,
        None => stem + "."@ + ext,
    }
}

/// How received waveforms are saved under a name with the extension `path_ext`.
pub fn save_plan(
    path_ext: Option<String>,
    effective: &str,
    files: &Vec<ChannelFile>,
    trace_count: usize,
    byte_count: usize,
) -> (r: SavePlan)
    ensures
        r == plan_for(
            saved_ext(crate::files::opt_text(path_ext), effective@),
            effective@,
            files@,
            trace_count as int,
            byte_count as int,
        ),
{
    let ext = match path_ext {
        Some(e) => text::to_ascii_lower(e.as_str()),
        None => text::to_ascii_lower(effective),
    };
    if files.len() <= 1 {
        return SavePlan::Native;
    }
    let e = ext.as_str();
    if text::same_text(e, "csv") || text::same_text(e, "txt") {
        return if trace_count > 1 {
            SavePlan::Sheet
        } else {
            SavePlan::SheetBytes
        };
    }
    let isf: bool = text::same_text(effective, "isf") || are_all_isf(files);
    let renamed: bool = text::same_text(e, "wfm");
    proof {
        reveal_strlit("isf");
        reveal_strlit("wfm");
    }
    if isf && (renamed || text::same_text(e, "isf")) {
        if byte_count > 0 {
            SavePlan::IsfBytes { renamed }
        } else {
            SavePlan::IsfJoined { renamed }
        }
    } else {
        SavePlan::SheetBeside
    }
}

/// The name under which waveforms are saved.
pub fn saved_name(stem: &str, stamp: &str, ext: &str) -> (r: String)
    ensures
        r@ == saved_as(stem@, stamp@, ext@),
{
    let mut r = text::join3(stem, "_", stamp);
    r.append(".");
    r.append(ext);
    r
}

/// The name under which waveforms are saved unasked.
pub fn auto_saved_name(filename: Option<String>, stem: &str, ext: &str) -> (r: String)
    ensures
        r@ == auto_saved_as(crate::files::opt_text(filename), stem@, ext@),
{
    match filename {
        Some(name) => name,
        None => text::join3(stem, ".", ext),
    }
}

// ---------------------------------------------------------------------------
// What holds of cells, names and formats
// ---------------------------------------------------------------------------

/// Law: a cell that holds a comma, a quotation mark or the end of a line stands between
/// quotation marks, so that it stays one cell; any other is written as it is.
pub proof fn law_cell_is_quoted_where_it_has_to_be(s: Seq<char>)
    ensures
        (exists|i: int|
            0 <= i < s.len() && ((#[trigger] s[i]) == ',' || s[i] == '"' || s[i] == '\n' || s[i]
                == '\r')) ==> ({
            let r = csv_cell(s);
            &&& r.len() >= 2 && r[0] == '"' && r.last() == '"'
            &&& undoubled_quotes(r.subrange(1, r.len() - 1)) == s
            &&& quotes_are_paired(r.subrange(1, r.len() - 1))
        }),
        !s.contains(',') && !s.contains('"') && !s.contains('\n') && !s.contains('\r')
            ==> csv_cell(s) == s,
{
    let r = csv_cell(s);
    if needs_quotes(s) {
        assert(r.subrange(1, r.len() - 1) =~= doubled_quotes(s));
        law_quoted_cell_reads_back(s);
    } else {
        assert forall|i: int| 0 <= i < s.len() implies !((#[trigger] s[i]) == ',' || s[i] == '"'
            || s[i] == '\n' || s[i] == '\r') by {
            assert(s.contains(s[i]));
        }
    }
}

/// Law: the first field of a text is what stands before its first comma, without the white space
/// around it.
pub proof fn law_first_field_ends_at_the_comma(head: Seq<char>, rest: Seq<char>)
    requires
        !head.contains(','),
    ensures
        head_field(head + ","@ + rest) == text::trimmed(head),
        head_field(head) == text::trimmed(head),
{
    reveal_strlit(",");
    let s = head + ","@ + rest;
    assert forall|k: int| 0 <= k < head.len() implies #[trigger] s[k] != ',' by {
        assert(head.contains(head[k]));
    }
    assert forall|k: int| 0 <= k < head.len() implies #[trigger] head[k] != ',' by {
        assert(head.contains(head[k]));
    }
    text::law_first_char_is_found(s, ',', 0, head.len() as int);
    text::law_first_char_is_found(head, ',', 0, 0);
    assert(s.take(head.len() as int) =~= head);
}

/// Law: the label of a channel is short: it names the channel by `CH`, or else is no longer than
/// 24 characters and the beginning of the first field.
pub proof fn law_channel_label_is_short(s: Seq<char>, r: Seq<char>)
    requires
        channel_label(s, r),
    ensures
        "CH"@.is_prefix_of(r) || (r.len() <= 24 && r.is_prefix_of(head_field(s))),
        !text::has_text(text::ascii_upper_seq(s), "CH"@) && !text::has_prefix(
            compact_upper(head_field(s)),
            "CH"@,
        ) ==> r.is_prefix_of(head_field(s)),
{
    reveal_strlit("CH");
    let head = head_field(s);
    assert(first_chars(head, 24).is_prefix_of(head));
    let upper = compact_upper(head);
    if text::has_prefix(upper, "CH"@) && text::byte_len(upper) <= 6 {
        assert(upper.take(2) =~= "CH"@);
        assert(upper.subrange(0, 2) =~= upper.take(2));
    }
}

/// Law: a maker is told by its name within the text, Tektronix before the others; a text that
/// names none of the known makers is another's.
pub proof fn law_maker_is_told_by_its_name(a: Seq<char>, b: Seq<char>)
    ensures
        vendor_by_name(a + "TEKTRONIX"@ + b) is Tektronix,
        !text::has_text(a + "RIGOL"@ + b, "TEKTRONIX"@) ==> vendor_by_name(a + "RIGOL"@ + b)
            is Rigol,
        !text::has_text(a + "SIGLENT"@ + b, "TEKTRONIX"@) ==> vendor_by_name(a + "SIGLENT"@ + b)
            is Rigol,
        ({
            let s = a + "KEYSIGHT"@ + b;
            !text::has_text(s, "TEKTRONIX"@) && !text::has_text(s, "RIGOL"@) && !text::has_text(
                s,
                "SIGLENT"@,
            ) ==> vendor_by_name(s) is Keysight
        }),
        ({
            let s = a + "AGILENT"@ + b;
            !text::has_text(s, "TEKTRONIX"@) && !text::has_text(s, "RIGOL"@) && !text::has_text(
                s,
                "SIGLENT"@,
            ) ==> vendor_by_name(s) is Keysight
        }),
        !text::has_text(a, "TEKTRONIX"@) && !text::has_text(a, "RIGOL"@) && !text::has_text(
            a,
            "SIGLENT"@,
        ) && !text::has_text(a, "KEYSIGHT"@) && !text::has_text(a, "AGILENT"@)
            ==> vendor_by_name(a) is Other,
{
    lemma_text_in_the_middle(a, "TEKTRONIX"@, b);
    lemma_text_in_the_middle(a, "RIGOL"@, b);
    lemma_text_in_the_middle(a, "SIGLENT"@, b);
    lemma_text_in_the_middle(a, "KEYSIGHT"@, b);
    lemma_text_in_the_middle(a, "AGILENT"@, b);
}

proof fn lemma_text_in_the_middle(a: Seq<char>, middle: Seq<char>, b: Seq<char>)
    ensures
        text::has_text(a + middle + b, middle),
{
    let s = a + middle + b;
    assert(s.subrange(a.len() as int, a.len() + middle.len() as int) =~= middle);
    assert(text::matches_at(s, middle, a.len() as int));
}

/// Law: a dialog offers every format once and all files last. For a Tektronix scope the format
/// asked for comes first, an ISF file where none is; for a Rigol scope its own format where that
/// is asked for; for all others a table.
pub proof fn law_own_format_is_offered_first(vendor: Vendor, preferred: Seq<char>)
    ensures
        ({
            let f = offered_formats(vendor, preferred);
            &&& f.len() >= 4 && f.last() is All
            &&& f.no_duplicates()
            &&& vendor is Tektronix && preferred == "wfm"@ ==> f[0] is TekWfm
            &&& vendor is Tektronix && preferred == "csv"@ ==> f[0] is Csv
            &&& vendor is Tektronix && preferred != "wfm"@ && preferred != "csv"@ ==> f[0] is TekIsf
            &&& vendor is Tektronix ==> f.contains(SaveFormat::TekIsf) && f.contains(
                SaveFormat::TekWfm,
            ) && f.contains(SaveFormat::Csv)
            &&& vendor is Rigol && preferred == "wfm"@ ==> f[0] is RigolWfm
            &&& vendor is Rigol && preferred != "wfm"@ ==> f[0] is CsvNative
            &&& vendor is Keysight || vendor is Other ==> f[0] is Csv
            &&& !(vendor is Tektronix) ==> f.contains(SaveFormat::IsfConverted) && f.contains(
                SaveFormat::WfmConverted,
            )
        }),
        export_ext(Vendor::Tektronix) == "isf"@,
        !(vendor is Tektronix) ==> export_ext(vendor) == "csv"@,
{
    reveal_strlit("wfm");
    reveal_strlit("csv");
    assert("wfm"@[0] != "csv"@[0]);
    let f = offered_formats(vendor, preferred);
    assert(f[0] == f[0] && f[1] == f[1] && f[2] == f[2] && f[3] == f[3]);
}

/// Law: a format is saved under the extension of its kind of file.
pub proof fn law_format_has_its_extension(f: SaveFormat)
    ensures
        f is TekWfm || f is RigolWfm || f is WfmConverted <==> format_texts(f).1 == "wfm"@,
        f is TekIsf || f is IsfConverted <==> format_texts(f).1 == "isf"@,
        f is Csv || f is CsvNative <==> format_texts(f).1 == "csv"@,
        f is All <==> format_texts(f).1 == "*"@,
{
    reveal_strlit("wfm");
    reveal_strlit("isf");
    reveal_strlit("csv");
    reveal_strlit("*");
    assert("wfm"@[0] == 'w' && "isf"@[0] == 'i' && "csv"@[0] == 'c' && "*"@[0] == '*');
}

/// Law: a waveform is exported under a plain file name: it names the channel and the time and
/// ends in the extension, and no character of the channel name leads into another folder.
pub proof fn law_exported_name_is_a_file_name(
    channel: Seq<char>,
    stamp: Seq<char>,
    ext: Seq<char>,
)
    ensures
        ({
            let r = exported_as(channel, stamp, ext);
            let n = channel.len() as int;
            &&& "waveform_"@.is_prefix_of(r)
            &&& ("_"@ + stamp + "."@ + ext).is_suffix_of(r)
            &&& r.len() == 9 + n + 1 + stamp.len() + 1 + ext.len()
            &&& forall|i: int|
                0 <= i < n ==> {
                    let c = #[trigger] r[9 + i];
                    &&& c != '/' && c != '\\' && c != ':'
                    &&& channel[i] != '/' && channel[i] != '\\' && channel[i] != ':' ==> c
                        == channel[i]
                    &&& channel[i] == '/' || channel[i] == '\\' || channel[i] == ':' ==> c == '_'
                }
        }),
{
    reveal_strlit("waveform_");
    reveal_strlit("_");
    reveal_strlit(".");
    let r = exported_as(channel, stamp, ext);
    let tail = "_"@ + stamp + "."@ + ext;
    assert(r =~= "waveform_"@ + safe_channel(channel) + tail);
}

/// Law: saved waveforms are named by their stem, the time and the kind of file; a name that was
/// given is used as it is.
pub proof fn law_saved_name_has_the_extension(
    stem: Seq<char>,
    stamp: Seq<char>,
    ext: Seq<char>,
    name: Seq<char>,
)
    ensures
        stem.is_prefix_of(saved_as(stem, stamp, ext)),
        ("."@ + ext).is_suffix_of(saved_as(stem, stamp, ext)),
        saved_as(stem, stamp, ext).len() == stem.len() + 1 + stamp.len() + 1 + ext.len(),
        saved_as(stem, stamp, ext).subrange(
            stem.len() + 1 as int,
            stem.len() + 1 + stamp.len() as int,
        ) == stamp,
        auto_saved_as(Some(name), stem, ext) == name,
        stem.is_prefix_of(auto_saved_as(None, stem, ext)),
        ("."@ + ext).is_suffix_of(auto_saved_as(None, stem, ext)),
        auto_saved_as(None, stem, ext).len() == stem.len() + 1 + ext.len(),
{
    reveal_strlit("_");
    reveal_strlit(".");
    let r = saved_as(stem, stamp, ext);
    assert(r =~= stem + "_"@ + stamp + ("."@ + ext));
    assert(r.subrange(stem.len() + 1 as int, stem.len() + 1 + stamp.len() as int) =~= stamp);
    assert(auto_saved_as(None, stem, ext) =~= stem + ("."@ + ext));
}

/// Law: what received bytes look like decides over what they are; where that is open the channel
/// decides, then the name, and without any of these they count as an ISF file.
pub proof fn law_bytes_decide_over_their_name(
    name_ext: Option<Seq<char>>,
    first_ext: Option<Seq<char>>,
    e: Seq<char>,
)
    ensures
        effective_ext(name_ext, Some(e), first_ext) == e,
        effective_ext(name_ext, None, Some(e)) == e,
        effective_ext(Some(e), None, None).len() == e.len(),
        (forall|i: int| 0 <= i < e.len() ==> !('A' <= (#[trigger] e[i]) && e[i] <= 'Z'))
            ==> effective_ext(Some(e), None, None) == e,
        effective_ext(None, None, None) == "isf"@,
{
    if forall|i: int| 0 <= i < e.len() ==> !('A' <= (#[trigger] e[i]) && e[i] <= 'Z') {
        assert(text::ascii_lower_seq(e) =~= e);
    }
}

/// Law: a single channel is saved as it was read. Several go into one file: a table where the
/// name asks for one, joined ISF data where the name asks for it and all channels are such data,
/// under a name that then ends in `isf`, and a table beside the name otherwise.
pub proof fn law_several_channels_go_into_one_file(
    path_ext: Option<Seq<char>>,
    effective: Seq<char>,
    files: Seq<ChannelFile>,
    traces: int,
    bytes: int,
)
    ensures
        ({
            let plan = plan_for(saved_ext(path_ext, effective), effective, files, traces, bytes);
            let ext = saved_ext(path_ext, effective);
            let isf = effective == "isf"@ || forall|i: int|
                0 <= i < files.len() ==> (#[trigger] files[i]).ext@ == "isf"@;
            &&& plan is Native <==> files.len() <= 1
            &&& files.len() > 1 && (ext == "csv"@ || ext == "txt"@) ==> (traces > 1 ==> plan
                is Sheet) && (traces <= 1 ==> plan is SheetBytes)
            &&& files.len() > 1 && ext == "isf"@ && isf ==> plan == if bytes > 0 {
                SavePlan::IsfBytes { renamed: false }
            } else {
                SavePlan::IsfJoined { renamed: false }
            }
            &&& files.len() > 1 && ext == "wfm"@ && isf ==> plan == if bytes > 0 {
                SavePlan::IsfBytes { renamed: true }
            } else {
                SavePlan::IsfJoined { renamed: true }
            }
            &&& files.len() > 1 && ext != "csv"@ && ext != "txt"@ && !(isf && (ext == "isf"@ || ext
                == "wfm"@)) ==> plan is SheetBeside
        }),
        path_ext is Some ==> saved_ext(path_ext, effective).len() == path_ext->0.len(),
        forall|e: Seq<char>, i: int|
            0 <= i < e.len() ==> #[trigger] saved_ext(Some(e), effective)[i] == text::ascii_lower(
                e[i],
            ),
        path_ext is None ==> saved_ext(path_ext, effective) == text::ascii_lower_seq(effective),
{
    reveal_strlit("csv");
    reveal_strlit("txt");
    reveal_strlit("isf");
    reveal_strlit("wfm");
    assert("csv"@[0] == 'c' && "txt"@[0] == 't' && "isf"@[0] == 'i' && "wfm"@[0] == 'w');
}

/// Law: reading a file again is tried only as another kind of file than before.
pub proof fn law_second_try_is_another_kind(
    ext: Seq<char>,
    sniffed: Option<String>,
    r: Option<String>,
)
    requires
        tries_second(ext, sniffed, r),
    ensures
        r is Some ==> r == sniffed && r->0@ != ext,
        r is None <==> sniffed is None || sniffed->0@ == ext,
{
}

/// Law: channels that could not be read are reported whenever there are some, as a partial
/// failure where others could be read; without errors only the lack of any channel is.
pub proof fn law_unread_channels_are_reported(
    r: Option<Seq<char>>,
    traces: int,
    errors: Seq<String>,
)
    requires
        0 <= traces,
        reports(r, traces, errors),
    ensures
        r is None <==> traces > 0 && errors.len() == 0,
        traces > 0 && errors.len() > 0 ==> "partial: "@.is_prefix_of(r->0),
        errors.len() == 1 && traces == 0 ==> r->0 == errors[0]@,
        errors.len() == 1 && traces > 0 ==> errors[0]@.is_suffix_of(r->0),
        errors.len() == 2 && traces == 0 ==> r->0 == errors[0]@ + "; "@ + errors[1]@,
{
    reveal_with_fuel(joined_texts, 3);
}

} // verus!
