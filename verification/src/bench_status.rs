//! What the status line of the bench says.
use vstd::prelude::*;
use vstd::string::*;

use crate::lang::Lang;
use crate::text;

verus! {

/// What the status line says.
pub enum BenchStatus {
    Ready,
    DebugOn,
    DebugOff,
    Scanning,
    Connecting,
    NoResource,
    AlreadyConnected,
    NothingNew,
    ConnectingAll { count: usize },
    Found { total: usize, identified: usize, failed: usize },
    FoundUnknown { total: usize },
    Connected { identity: String },
    Disconnected,
    Message { message: String },
    CommandCompleted,
    Updated { stamp: String },
    ShotCopied,
    ShotSaved { path: String },
    ShotSaveFailed { message: String },
    WavePoints { channel: String, points: usize },
    WaveRead { summary: String, channels: usize, points: usize, kilobytes: usize },
    WaveUnparsed { kilobytes: usize, message: String },
    WaveEmpty { kilobytes: usize },
    WaveSaved { path: String },
    WaveSavedMany { count: usize, folder: String },
    WaveShownOnly { points: usize },
    WaveRawKept { kilobytes: usize },
    WaveFolderFailed { message: String },
    Busy { label: String, seconds: usize },
    CapturingScreen,
    ReadingSource,
    ReadingScreen,
    Saved { path: String },
    WaveExported { path: String },
    CsvExported,
}

/// The text of a status in a language; most texts are the same in both.
pub open spec fn status_text(status: BenchStatus, lang: Lang) -> Seq<char> {
    match status {
        BenchStatus::Ready => match lang {
            Lang::Zh => "就绪"@,
            Lang::En => "Ready"@,
        },
        BenchStatus::DebugOn => match lang {
            Lang::Zh => "调试模式：已显示全部仪表卡片（演示连接）"@,
            Lang::En => "Debug mode: all instrument cards shown (demo sessions)"@,
        },
        BenchStatus::DebugOff => match lang {
            Lang::Zh => "调试模式已关闭"@,
            Lang::En => "Debug mode off"@,
        },
        BenchStatus::Scanning => match lang {
            Lang::Zh => "正在扫描并识别设备…"@,
            Lang::En => "Scanning and identifying…"@,
        },
        BenchStatus::Connecting => match lang {
            Lang::Zh => "正在连接…"@,
            Lang::En => "Connecting…"@,
        },
        BenchStatus::NoResource => match lang {
            Lang::Zh => "无可用资源，请先扫描或手动输入地址"@,
            Lang::En => "No resource available. Scan or enter an address first."@,
        },
        BenchStatus::AlreadyConnected => match lang {
            Lang::Zh => "该地址已连接"@,
            Lang::En => "Already connected"@,
        },
        BenchStatus::NothingNew => match lang {
            Lang::Zh => "没有可连接的新设备"@,
            Lang::En => "Nothing new to connect"@,
        },
        BenchStatus::ConnectingAll { count } => match lang {
            Lang::Zh => "正在连接全部 "@ + text::decimal(count as nat),
            Lang::En => "Connecting all "@ + text::decimal(count as nat),
        },
        BenchStatus::Found { total, identified, failed } => text::decimal(total as nat) + " resource(s), "@ + text::decimal(identified as nat) + " identified, "@ + text::decimal(failed as nat) + " probe failed"@,
        BenchStatus::FoundUnknown { total } => text::decimal(total as nat) + " resource(s) — select address in card, then Connect"@,
        BenchStatus::Connected { identity } => "Connected: "@ + identity@,
        BenchStatus::Disconnected => "Disconnected"@,
        BenchStatus::Message { message } => message@,
        BenchStatus::CommandCompleted => "Command completed"@,
        BenchStatus::Updated { stamp } => "Updated "@ + stamp@,
        BenchStatus::ShotCopied => "截图已显示并复制到剪贴板 / Screenshot copied to clipboard"@,
        BenchStatus::ShotSaved { path } => "截图已保存 / Screenshot saved: "@ + path@,
        BenchStatus::ShotSaveFailed { message } => "screenshot save failed: "@ + message@,
        BenchStatus::WavePoints { channel, points } => channel@ + ": "@ + text::decimal(points as nat) + " points"@,
        BenchStatus::WaveRead { summary, channels, points, kilobytes } => "已读取 "@ + summary@ + "（"@ + text::decimal(channels as nat) + " 通道, "@ + text::decimal(points as nat) + " 点/通道, "@ + text::decimal(kilobytes as nat) + " KB；预览仅作显示抽稀，测量/导出用全量数据）/ Read "@ + summary@ + " ("@ + text::decimal(channels as nat) + " ch, "@ + text::decimal(points as nat) + " pts/ch, "@ + text::decimal(kilobytes as nat) + " KB; plot is display-only decimation, measure/export use full data)"@,
        BenchStatus::WaveUnparsed { kilobytes, message } => "已收到 "@ + text::decimal(kilobytes as nat) + " KB 但解析失败: "@ + message@ + " / Got "@ + text::decimal(kilobytes as nat) + " KB but parse failed: "@ + message@,
        BenchStatus::WaveEmpty { kilobytes } => "已收到 "@ + text::decimal(kilobytes as nat) + " KB，无波形点 / Got "@ + text::decimal(kilobytes as nat) + " KB, no trace"@,
        BenchStatus::WaveSaved { path } => "已保存波形源 / Waveform source saved: "@ + path@,
        BenchStatus::WaveSavedMany { count, folder } => "已保存 "@ + text::decimal(count as nat) + " 个通道波形源 / Saved "@ + text::decimal(count as nat) + " channel sources → "@ + folder@,
        BenchStatus::WaveShownOnly { points } => "波形已显示（"@ + text::decimal(points as nat) + " 点），另存为已取消 / Waveform shown ("@ + text::decimal(points as nat) + " pts), Save As cancelled"@,
        BenchStatus::WaveRawKept { kilobytes } => "另存为已取消（已收到 "@ + text::decimal(kilobytes as nat) + " KB 原始数据）/ Save As cancelled ("@ + text::decimal(kilobytes as nat) + " KB raw kept)"@,
        BenchStatus::WaveFolderFailed { message } => "waveform_source dir: "@ + message@,
        BenchStatus::Busy { label, seconds } => label@ + "… "@ + text::decimal(seconds as nat) + "s"@,
        BenchStatus::CapturingScreen => match lang {
            Lang::Zh => "正在截取屏幕…"@,
            Lang::En => "Capturing screen…"@,
        },
        BenchStatus::ReadingSource => match lang {
            Lang::Zh => "正在读取示波器上已打开的全部通道（不受下方通道选择影响）…"@,
            Lang::En => "Reading all channels displayed on the scope (ignores the channel selector below)…"@,
        },
        BenchStatus::ReadingScreen => match lang {
            Lang::Zh => "正在读取屏幕波形…"@,
            Lang::En => "Reading on-screen waveform…"@,
        },
        BenchStatus::Saved { path } => match lang {
            Lang::Zh => "已保存 "@ + path@,
            Lang::En => "Saved "@ + path@,
        },
        BenchStatus::WaveExported { path } => match lang {
            Lang::Zh => "波形已导出 "@ + path@,
            Lang::En => "Waveform exported "@ + path@,
        },
        BenchStatus::CsvExported => match lang {
            Lang::Zh => "CSV 已导出"@,
            Lang::En => "CSV exported"@,
        },
    }
}

impl BenchStatus {
    /// The text of the status in a language.
    pub fn line(&self, lang: Lang) -> (r: String)
        ensures
            r@ == status_text(*self, lang),
    {
        match self {
            BenchStatus::Ready => match lang {
                Lang::Zh => "就绪".to_owned(),
                Lang::En => "Ready".to_owned(),
            },
            BenchStatus::DebugOn => match lang {
                Lang::Zh => "调试模式：已显示全部仪表卡片（演示连接）".to_owned(),
                Lang::En => "Debug mode: all instrument cards shown (demo sessions)".to_owned(),
            },
            BenchStatus::DebugOff => match lang {
                Lang::Zh => "调试模式已关闭".to_owned(),
                Lang::En => "Debug mode off".to_owned(),
            },
            BenchStatus::Scanning => match lang {
                Lang::Zh => "正在扫描并识别设备…".to_owned(),
                Lang::En => "Scanning and identifying…".to_owned(),
            },
            BenchStatus::Connecting => match lang {
                Lang::Zh => "正在连接…".to_owned(),
                Lang::En => "Connecting…".to_owned(),
            },
            BenchStatus::NoResource => match lang {
                Lang::Zh => "无可用资源，请先扫描或手动输入地址".to_owned(),
                Lang::En => "No resource available. Scan or enter an address first.".to_owned(),
            },
            BenchStatus::AlreadyConnected => match lang {
                Lang::Zh => "该地址已连接".to_owned(),
                Lang::En => "Already connected".to_owned(),
            },
            BenchStatus::NothingNew => match lang {
                Lang::Zh => "没有可连接的新设备".to_owned(),
                Lang::En => "Nothing new to connect".to_owned(),
            },
            BenchStatus::ConnectingAll { count } => match lang {
                Lang::Zh => {
                    let count_text = text::decimal_text(*count as u64);
                    let mut r = "正在连接全部 ".to_owned();
                    r.append(count_text.as_str());
                    r
                },
                Lang::En => {
                    let count_text = text::decimal_text(*count as u64);
                    let mut r = "Connecting all ".to_owned();
                    r.append(count_text.as_str());
                    r
                },
            },
            BenchStatus::Found { total, identified, failed } => {
                let total_text = text::decimal_text(*total as u64);
                let identified_text = text::decimal_text(*identified as u64);
                let failed_text = text::decimal_text(*failed as u64);
                let mut r = total_text.clone();
                r.append(" resource(s), ");
                r.append(identified_text.as_str());
                r.append(" identified, ");
                r.append(failed_text.as_str());
                r.append(" probe failed");
                r
            },
            BenchStatus::FoundUnknown { total } => {
                let total_text = text::decimal_text(*total as u64);
                let mut r = total_text.clone();
                r.append(" resource(s) — select address in card, then Connect");
                r
            },
            BenchStatus::Connected { identity } => {
                let mut r = "Connected: ".to_owned();
                r.append(identity.as_str());
                r
            },
            BenchStatus::Disconnected => "Disconnected".to_owned(),
            BenchStatus::Message { message } => message.clone(),
            BenchStatus::CommandCompleted => "Command completed".to_owned(),
            BenchStatus::Updated { stamp } => {
                let mut r = "Updated ".to_owned();
                r.append(stamp.as_str());
                r
            },
            BenchStatus::ShotCopied => "截图已显示并复制到剪贴板 / Screenshot copied to clipboard".to_owned(),
            BenchStatus::ShotSaved { path } => {
                let mut r = "截图已保存 / Screenshot saved: ".to_owned();
                r.append(path.as_str());
                r
            },
            BenchStatus::ShotSaveFailed { message } => {
                let mut r = "screenshot save failed: ".to_owned();
                r.append(message.as_str());
                r
            },
            BenchStatus::WavePoints { channel, points } => {
                let points_text = text::decimal_text(*points as u64);
                let mut r = channel.clone();
                r.append(": ");
                r.append(points_text.as_str());
                r.append(" points");
                r
            },
            BenchStatus::WaveRead { summary, channels, points, kilobytes } => {
                let channels_text = text::decimal_text(*channels as u64);
                let points_text = text::decimal_text(*points as u64);
                let kilobytes_text = text::decimal_text(*kilobytes as u64);
                let mut r = "已读取 ".to_owned();
                r.append(summary.as_str());
                r.append("（");
                r.append(channels_text.as_str());
                r.append(" 通道, ");
                r.append(points_text.as_str());
                r.append(" 点/通道, ");
                r.append(kilobytes_text.as_str());
                r.append(" KB；预览仅作显示抽稀，测量/导出用全量数据）/ Read ");
                r.append(summary.as_str());
                r.append(" (");
                r.append(channels_text.as_str());
                r.append(" ch, ");
                r.append(points_text.as_str());
                r.append(" pts/ch, ");
                r.append(kilobytes_text.as_str());
                r.append(" KB; plot is display-only decimation, measure/export use full data)");
                r
            },
            BenchStatus::WaveUnparsed { kilobytes, message } => {
                let kilobytes_text = text::decimal_text(*kilobytes as u64);
                let mut r = "已收到 ".to_owned();
                r.append(kilobytes_text.as_str());
                r.append(" KB 但解析失败: ");
                r.append(message.as_str());
                r.append(" / Got ");
                r.append(kilobytes_text.as_str());
                r.append(" KB but parse failed: ");
                r.append(message.as_str());
                r
            },
            BenchStatus::WaveEmpty { kilobytes } => {
                let kilobytes_text = text::decimal_text(*kilobytes as u64);
                let mut r = "已收到 ".to_owned();
                r.append(kilobytes_text.as_str());
                r.append(" KB，无波形点 / Got ");
                r.append(kilobytes_text.as_str());
                r.append(" KB, no trace");
                r
            },
            BenchStatus::WaveSaved { path } => {
                let mut r = "已保存波形源 / Waveform source saved: ".to_owned();
                r.append(path.as_str());
                r
            },
            BenchStatus::WaveSavedMany { count, folder } => {
                let count_text = text::decimal_text(*count as u64);
                let mut r = "已保存 ".to_owned();
                r.append(count_text.as_str());
                r.append(" 个通道波形源 / Saved ");
                r.append(count_text.as_str());
                r.append(" channel sources → ");
                r.append(folder.as_str());
                r
            },
            BenchStatus::WaveShownOnly { points } => {
                let points_text = text::decimal_text(*points as u64);
                let mut r = "波形已显示（".to_owned();
                r.append(points_text.as_str());
                r.append(" 点），另存为已取消 / Waveform shown (");
                r.append(points_text.as_str());
                r.append(" pts), Save As cancelled");
                r
            },
            BenchStatus::WaveRawKept { kilobytes } => {
                let kilobytes_text = text::decimal_text(*kilobytes as u64);
                let mut r = "另存为已取消（已收到 ".to_owned();
                r.append(kilobytes_text.as_str());
                r.append(" KB 原始数据）/ Save As cancelled (");
                r.append(kilobytes_text.as_str());
                r.append(" KB raw kept)");
                r
            },
            BenchStatus::WaveFolderFailed { message } => {
                let mut r = "waveform_source dir: ".to_owned();
                r.append(message.as_str());
                r
            },
            BenchStatus::Busy { label, seconds } => {
                let seconds_text = text::decimal_text(*seconds as u64);
                let mut r = label.clone();
                r.append("… ");
                r.append(seconds_text.as_str());
                r.append("s");
                r
            },
            BenchStatus::CapturingScreen => match lang {
                Lang::Zh => "正在截取屏幕…".to_owned(),
                Lang::En => "Capturing screen…".to_owned(),
            },
            BenchStatus::ReadingSource => match lang {
                Lang::Zh => "正在读取示波器上已打开的全部通道（不受下方通道选择影响）…".to_owned(),
                Lang::En => "Reading all channels displayed on the scope (ignores the channel selector below)…".to_owned(),
            },
            BenchStatus::ReadingScreen => match lang {
                Lang::Zh => "正在读取屏幕波形…".to_owned(),
                Lang::En => "Reading on-screen waveform…".to_owned(),
            },
            BenchStatus::Saved { path } => match lang {
                Lang::Zh => {
                    let mut r = "已保存 ".to_owned();
                    r.append(path.as_str());
                    r
                },
                Lang::En => {
                    let mut r = "Saved ".to_owned();
                    r.append(path.as_str());
                    r
                },
            },
            BenchStatus::WaveExported { path } => match lang {
                Lang::Zh => {
                    let mut r = "波形已导出 ".to_owned();
                    r.append(path.as_str());
                    r
                },
                Lang::En => {
                    let mut r = "Waveform exported ".to_owned();
                    r.append(path.as_str());
                    r
                },
            },
            BenchStatus::CsvExported => match lang {
                Lang::Zh => "CSV 已导出".to_owned(),
                Lang::En => "CSV exported".to_owned(),
            },
        }
    }
}

/// Law: the status line names what it is about: the found and identified addresses in this
/// order, the file that was saved, the error that came, the work that runs and for how long.
pub proof fn law_status_names_what_it_is_about(
    s: String,
    n: usize,
    m: usize,
    k: usize,
    lang: Lang,
)
    ensures
        ({
            let r = status_text(
                BenchStatus::Found { total: n, identified: m, failed: k },
                lang,
            );
            let (a, b, c) = (
                text::decimal(n as nat),
                text::decimal(m as nat),
                text::decimal(k as nat),
            );
            &&& (a + " resource(s), "@ + b).is_prefix_of(r)
            &&& (c + " probe failed"@).is_suffix_of(r)
            &&& r.len() == a.len() + 14 + b.len() + 13 + c.len() + 13
        }),
        text::decimal(n as nat).is_prefix_of(status_text(BenchStatus::FoundUnknown { total: n }, lang)),
        status_text(BenchStatus::Message { message: s }, lang) == s@,
        s@.is_suffix_of(status_text(BenchStatus::Connected { identity: s }, lang)),
        s@.is_suffix_of(status_text(BenchStatus::Updated { stamp: s }, lang)),
        s@.is_suffix_of(status_text(BenchStatus::ShotSaved { path: s }, lang)),
        s@.is_suffix_of(status_text(BenchStatus::ShotSaveFailed { message: s }, lang)),
        s@.is_suffix_of(status_text(BenchStatus::WaveSaved { path: s }, lang)),
        s@.is_suffix_of(status_text(BenchStatus::WaveSavedMany { count: n, folder: s }, lang)),
        s@.is_suffix_of(status_text(BenchStatus::WaveFolderFailed { message: s }, lang)),
        s@.is_suffix_of(status_text(BenchStatus::WaveUnparsed { kilobytes: n, message: s }, lang)),
        s@.is_suffix_of(status_text(BenchStatus::Saved { path: s }, lang)),
        s@.is_suffix_of(status_text(BenchStatus::WaveExported { path: s }, lang)),
        ({
            let r = status_text(BenchStatus::WavePoints { channel: s, points: n }, lang);
            s@.is_prefix_of(r) && (text::decimal(n as nat) + " points"@).is_suffix_of(r)
        }),
        ({
            let r = status_text(BenchStatus::Busy { label: s, seconds: n }, lang);
            s@.is_prefix_of(r) && (text::decimal(n as nat) + "s"@).is_suffix_of(r)
        }),
        text::decimal(n as nat).is_suffix_of(
            status_text(BenchStatus::ConnectingAll { count: n }, lang),
        ),
{
    reveal_strlit(" resource(s), ");
    reveal_strlit(" identified, ");
    reveal_strlit(" probe failed");
    let (a, b, c) = (text::decimal(n as nat), text::decimal(m as nat), text::decimal(k as nat));
    let r = status_text(BenchStatus::Found { total: n, identified: m, failed: k }, lang);
    assert(r =~= (a + " resource(s), "@ + b) + " identified, "@ + (c + " probe failed"@));
    let p = status_text(BenchStatus::WavePoints { channel: s, points: n }, lang);
    assert(p =~= s@ + ": "@ + (a + " points"@));
    let q = status_text(BenchStatus::Busy { label: s, seconds: n }, lang);
    assert(q =~= s@ + "… "@ + (a + "s"@));
}

/// Law: waveforms that were read are told with their channels, their number, the points of each
/// and the size, in this order, and so again in English behind.
pub proof fn law_read_waveforms_are_told(s: String, n: usize, m: usize, k: usize, lang: Lang)
    ensures
        ({
            let r = status_text(
                BenchStatus::WaveRead { summary: s, channels: n, points: m, kilobytes: k },
                lang,
            );
            let (a, b, c) = (
                text::decimal(n as nat),
                text::decimal(m as nat),
                text::decimal(k as nat),
            );
            &&& ("已读取 "@ + s@ + "（"@ + a + " 通道, "@ + b + " 点/通道, "@ + c
                + " KB"@).is_prefix_of(r)
            &&& (s@ + " ("@ + a + " ch, "@ + b + " pts/ch, "@ + c
                + " KB; plot is display-only decimation, measure/export use full data)"@).is_suffix_of(
                r,
            )
        }),
{
    reveal_strlit(" KB；预览仅作显示抽稀，测量/导出用全量数据）/ Read ");
    reveal_strlit(" KB");
    let (a, b, c) = (text::decimal(n as nat), text::decimal(m as nat), text::decimal(k as nat));
    let r = status_text(
        BenchStatus::WaveRead { summary: s, channels: n, points: m, kilobytes: k },
        lang,
    );
    let middle = " KB；预览仅作显示抽稀，测量/导出用全量数据）/ Read "@;
    let rest = s@ + " ("@ + a + " ch, "@ + b + " pts/ch, "@ + c
        + " KB; plot is display-only decimation, measure/export use full data)"@;
    let head = "已读取 "@ + s@ + "（"@ + a + " 通道, "@ + b + " 点/通道, "@ + c;
    assert(r =~= head + middle + rest);
    assert(middle.take(3) =~= " KB"@);
    assert(r.take(head.len() as int + 3) =~= head + " KB"@);
}

} // verus!
