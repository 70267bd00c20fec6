//! Kinds of instruments: their places, names and hints.
use vstd::prelude::*;

use crate::lang::{chosen, text, Lang};

verus! {

/// What an instrument is.
#[derive(Debug, Clone, Copy, PartialEq, Eq, Structural)]
pub enum InstrumentKind {
    Oscilloscope,
    DcSource,
    ElectronicLoad,
    Multimeter,
    DebugProbe,
    UsbBridge,
    Generic,
}

/// The kinds that have a card, in the order of the cards.
pub open spec fn card_kinds() -> Seq<InstrumentKind> {
    seq![
        InstrumentKind::Oscilloscope,
        InstrumentKind::DcSource,
        InstrumentKind::ElectronicLoad,
        InstrumentKind::Multimeter,
        InstrumentKind::DebugProbe,
        InstrumentKind::UsbBridge,
    ]
}

/// The kinds that have a card.
pub fn all_card_kinds() -> (r: Vec<InstrumentKind>)
    ensures
        r@ == card_kinds(),
{
    let mut r: Vec<InstrumentKind> = Vec::new();
    r.push(InstrumentKind::Oscilloscope);
    r.push(InstrumentKind::DcSource);
    r.push(InstrumentKind::ElectronicLoad);
    r.push(InstrumentKind::Multimeter);
    r.push(InstrumentKind::DebugProbe);
    r.push(InstrumentKind::UsbBridge);
    assert(r@ =~= card_kinds());
    r
}

/// How many kinds have a card.
pub const CARD_COUNT: usize = 6;

/// The place of a kind among the cards; an instrument of no known kind shares the first one.
pub open spec fn slot_of(kind: InstrumentKind) -> int {
    match kind {
        InstrumentKind::Oscilloscope => 0,
        InstrumentKind::DcSource => 1,
        InstrumentKind::ElectronicLoad => 2,
        InstrumentKind::Multimeter => 3,
        InstrumentKind::DebugProbe => 4,
        InstrumentKind::UsbBridge => 5,
        InstrumentKind::Generic => 0,
    }
}

/// The place of a kind among the cards.
pub fn instrument_kind_slot(kind: InstrumentKind) -> (r: usize)
    ensures
        r == slot_of(kind),
        r < CARD_COUNT,
{
    match kind {
        InstrumentKind::Oscilloscope => 0,
        InstrumentKind::DcSource => 1,
        InstrumentKind::ElectronicLoad => 2,
        InstrumentKind::Multimeter => 3,
        InstrumentKind::DebugProbe => 4,
        InstrumentKind::UsbBridge => 5,
        InstrumentKind::Generic => 0,
    }
}

/// Law: the card at the place of a kind is the card of that kind.
pub proof fn law_cards_stand_at_their_slots(kind: InstrumentKind)
    requires
        kind != InstrumentKind::Generic,
    ensures
        0 <= slot_of(kind) < card_kinds().len(),
        card_kinds()[slot_of(kind)] == kind,
{
}

/// The rank of a kind in a list of resources: unknown ones come last.
pub open spec fn kind_rank(kind: Option<InstrumentKind>) -> int {
    match kind {
        Some(InstrumentKind::Generic) => 6,
        Some(k) => slot_of(k),
        None => 7,
    }
}

/// The rank of a kind in a list of resources.
pub fn kind_sort_key(kind: Option<InstrumentKind>) -> (r: u8)
    ensures
        r == kind_rank(kind),
{
    match kind {
        Some(InstrumentKind::Oscilloscope) => 0,
        Some(InstrumentKind::DcSource) => 1,
        Some(InstrumentKind::ElectronicLoad) => 2,
        Some(InstrumentKind::Multimeter) => 3,
        Some(InstrumentKind::DebugProbe) => 4,
        Some(InstrumentKind::UsbBridge) => 5,
        Some(InstrumentKind::Generic) => 6,
        None => 7,
    }
}

/// Law: only resources of one kind have one rank.
pub proof fn law_rank_tells_kinds_apart(a: Option<InstrumentKind>, b: Option<InstrumentKind>)
    requires
        kind_rank(a) == kind_rank(b),
    ensures
        a == b,
{
}

/// The name of a kind in both languages.
pub open spec fn kind_names(kind: InstrumentKind) -> (Seq<char>, Seq<char>) {
    match kind {
        InstrumentKind::Oscilloscope => (
            "示波器"@,
            "Oscilloscope"@,
        ),
        InstrumentKind::DcSource => (
            "直流电源"@,
            "DC Source"@,
        ),
        InstrumentKind::ElectronicLoad => (
            "电子负载"@,
            "Electronic Load"@,
        ),
        InstrumentKind::Multimeter => (
            "数字万用表"@,
            "Digital Multimeter"@,
        ),
        InstrumentKind::DebugProbe => (
            "调试探针"@,
            "Debug Probe"@,
        ),
        InstrumentKind::UsbBridge => (
            "USB 桥"@,
            "USB Bridge"@,
        ),
        InstrumentKind::Generic => (
            "通用 SCPI"@,
            "Generic SCPI"@,
        ),
    }
}

/// The name of a kind.
pub fn instrument_name(lang: Lang, kind: InstrumentKind) -> (r: &'static str)
    ensures
        r@ == chosen(lang, kind_names(kind)),
{
    match kind {
        InstrumentKind::Oscilloscope => text(
            lang,
            "示波器",
            "Oscilloscope",
        ),
        InstrumentKind::DcSource => text(
            lang,
            "直流电源",
            "DC Source",
        ),
        InstrumentKind::ElectronicLoad => text(
            lang,
            "电子负载",
            "Electronic Load",
        ),
        InstrumentKind::Multimeter => text(
            lang,
            "数字万用表",
            "Digital Multimeter",
        ),
        InstrumentKind::DebugProbe => text(
            lang,
            "调试探针",
            "Debug Probe",
        ),
        InstrumentKind::UsbBridge => text(
            lang,
            "USB 桥",
            "USB Bridge",
        ),
        InstrumentKind::Generic => text(
            lang,
            "通用 SCPI",
            "Generic SCPI",
        ),
    }
}

/// What the controls of a kind offer in both languages.
pub open spec fn control_hints(kind: InstrumentKind) -> (Seq<char>, Seq<char>) {
    match kind {
        InstrumentKind::Oscilloscope => (
            "运行/停止/单次/自动设置，以及通道、时基与触发控制。"@,
            "Run/stop/single/autoset plus channel, timebase and trigger controls."@,
        ),
        InstrumentKind::DcSource => (
            "设置电压、电流、OVP/OCP，并控制输出开关。"@,
            "Set voltage, current, OVP/OCP and control the output state."@,
        ),
        InstrumentKind::ElectronicLoad => (
            "选择 CC/CV/CR/CP 模式、设定电平并控制负载输入。"@,
            "Select CC/CV/CR/CP mode, set level and control load input."@,
        ),
        InstrumentKind::Multimeter => (
            "配置测量功能、量程、NPLC，并执行单次测量。"@,
            "Configure function, range, NPLC and trigger a single reading."@,
        ),
        InstrumentKind::DebugProbe => (
            "连接目标芯片，Halt/Run/复位，烧录 HEX/BIN/ELF，读写内存，打开 RTT。"@,
            "Attach a target, halt/run/reset, flash HEX/BIN/ELF, read/write memory, and stream RTT."@,
        ),
        InstrumentKind::UsbBridge => (
            "FT4222 SPI / I2C / GPIO 收发。识别不需要 DLL，事务需要 LibFT4222。"@,
            "FT4222 SPI / I2C / GPIO. Scan needs no DLL; transactions need LibFT4222."@,
        ),
        InstrumentKind::Generic => (
            "请使用下方 SCPI 控制台发送命令。"@,
            "Use the SCPI console below to send commands."@,
        ),
    }
}

/// What the controls of a kind offer.
pub fn instrument_control_hint(lang: Lang, kind: InstrumentKind) -> (r: &'static str)
    ensures
        r@ == chosen(lang, control_hints(kind)),
{
    match kind {
        InstrumentKind::Oscilloscope => text(
            lang,
            "运行/停止/单次/自动设置，以及通道、时基与触发控制。",
            "Run/stop/single/autoset plus channel, timebase and trigger controls.",
        ),
        InstrumentKind::DcSource => text(
            lang,
            "设置电压、电流、OVP/OCP，并控制输出开关。",
            "Set voltage, current, OVP/OCP and control the output state.",
        ),
        InstrumentKind::ElectronicLoad => text(
            lang,
            "选择 CC/CV/CR/CP 模式、设定电平并控制负载输入。",
            "Select CC/CV/CR/CP mode, set level and control load input.",
        ),
        InstrumentKind::Multimeter => text(
            lang,
            "配置测量功能、量程、NPLC，并执行单次测量。",
            "Configure function, range, NPLC and trigger a single reading.",
        ),
        InstrumentKind::DebugProbe => text(
            lang,
            "连接目标芯片，Halt/Run/复位，烧录 HEX/BIN/ELF，读写内存，打开 RTT。",
            "Attach a target, halt/run/reset, flash HEX/BIN/ELF, read/write memory, and stream RTT.",
        ),
        InstrumentKind::UsbBridge => text(
            lang,
            "FT4222 SPI / I2C / GPIO 收发。识别不需要 DLL，事务需要 LibFT4222。",
            "FT4222 SPI / I2C / GPIO. Scan needs no DLL; transactions need LibFT4222.",
        ),
        InstrumentKind::Generic => text(
            lang,
            "请使用下方 SCPI 控制台发送命令。",
            "Use the SCPI console below to send commands.",
        ),
    }
}

/// What sampling offers for a kind in both languages.
pub open spec fn acquisition_hints(kind: InstrumentKind) -> (Seq<char>, Seq<char>) {
    match kind {
        InstrumentKind::Oscilloscope => (
            "截图看仪器画面；波形数据（CURVe）用于统计与 CSV 导出。"@,
            "Screenshot for the scope display; CURVe samples for stats and CSV export."@,
        ),
        InstrumentKind::DcSource => (
            "连续读取电压、电流、功率并绘制实时曲线，可导出 CSV。"@,
            "Continuously read voltage, current and power with live plots and CSV export."@,
        ),
        InstrumentKind::ElectronicLoad => (
            "连续读取电压、电流、功率并绘制实时曲线，可导出 CSV。"@,
            "Continuously read voltage, current and power with live plots and CSV export."@,
        ),
        InstrumentKind::Multimeter => (
            "按设定功能连续采样读数，并绘制实时曲线与 CSV 导出。"@,
            "Continuously sample readings for the selected function with plots and CSV export."@,
        ),
        InstrumentKind::DebugProbe => (
            "RTT 文本与内存/烧录结果写入右侧日志。"@,
            "RTT text and memory/flash results go to the log panel."@,
        ),
        InstrumentKind::UsbBridge => (
            "SPI/I2C/GPIO 往返数据写入右侧日志。"@,
            "SPI/I2C/GPIO traffic is written to the log panel."@,
        ),
        InstrumentKind::Generic => (
            "可通过 READ? 或自定义 SCPI 查询进行采样。"@,
            "Sample using READ? or custom SCPI queries."@,
        ),
    }
}

/// What sampling offers for a kind.
pub fn instrument_acquisition_hint(lang: Lang, kind: InstrumentKind) -> (r: &'static str)
    ensures
        r@ == chosen(lang, acquisition_hints(kind)),
{
    match kind {
        InstrumentKind::Oscilloscope => text(
            lang,
            "截图看仪器画面；波形数据（CURVe）用于统计与 CSV 导出。",
            "Screenshot for the scope display; CURVe samples for stats and CSV export.",
        ),
        InstrumentKind::DcSource => text(
            lang,
            "连续读取电压、电流、功率并绘制实时曲线，可导出 CSV。",
            "Continuously read voltage, current and power with live plots and CSV export.",
        ),
        InstrumentKind::ElectronicLoad => text(
            lang,
            "连续读取电压、电流、功率并绘制实时曲线，可导出 CSV。",
            "Continuously read voltage, current and power with live plots and CSV export.",
        ),
        InstrumentKind::Multimeter => text(
            lang,
            "按设定功能连续采样读数，并绘制实时曲线与 CSV 导出。",
            "Continuously sample readings for the selected function with plots and CSV export.",
        ),
        InstrumentKind::DebugProbe => text(
            lang,
            "RTT 文本与内存/烧录结果写入右侧日志。",
            "RTT text and memory/flash results go to the log panel.",
        ),
        InstrumentKind::UsbBridge => text(
            lang,
            "SPI/I2C/GPIO 往返数据写入右侧日志。",
            "SPI/I2C/GPIO traffic is written to the log panel.",
        ),
        InstrumentKind::Generic => text(
            lang,
            "可通过 READ? 或自定义 SCPI 查询进行采样。",
            "Sample using READ? or custom SCPI queries.",
        ),
    }
}

/// What the settings of a kind offer in both languages.
pub open spec fn settings_hints(kind: InstrumentKind) -> (Seq<char>, Seq<char>) {
    match kind {
        InstrumentKind::Oscilloscope => (
            "查看设备信息、波形参数、通信超时与诊断命令。"@,
            "View identity, waveform parameters, timeout and diagnostics."@,
        ),
        InstrumentKind::DcSource => (
            "查看电源能力、保护参数、通信设置与诊断命令。"@,
            "View source capabilities, protection, communication and diagnostics."@,
        ),
        InstrumentKind::ElectronicLoad => (
            "查看负载模式能力、通信设置与诊断命令。"@,
            "View load-mode capabilities, communication and diagnostics."@,
        ),
        InstrumentKind::Multimeter => (
            "查看测量能力、量程/NPLC 支持、通信设置与诊断命令。"@,
            "View measurement capabilities, range/NPLC support, communication and diagnostics."@,
        ),
        InstrumentKind::DebugProbe => (
            "查看探针序列号、目标芯片与烧录/内存参数。"@,
            "View probe serial, target chip, flash and memory parameters."@,
        ),
        InstrumentKind::UsbBridge => (
            "查看 FT4222 序列号与 SPI/I2C/GPIO 参数。"@,
            "View FT4222 serial and SPI/I2C/GPIO parameters."@,
        ),
        InstrumentKind::Generic => (
            "查看设备信息与通信诊断命令。"@,
            "View device identity, communication and diagnostics."@,
        ),
    }
}

/// What the settings of a kind offer.
pub fn instrument_settings_hint(lang: Lang, kind: InstrumentKind) -> (r: &'static str)
    ensures
        r@ == chosen(lang, settings_hints(kind)),
{
    match kind {
        InstrumentKind::Oscilloscope => text(
            lang,
            "查看设备信息、波形参数、通信超时与诊断命令。",
            "View identity, waveform parameters, timeout and diagnostics.",
        ),
        InstrumentKind::DcSource => text(
            lang,
            "查看电源能力、保护参数、通信设置与诊断命令。",
            "View source capabilities, protection, communication and diagnostics.",
        ),
        InstrumentKind::ElectronicLoad => text(
            lang,
            "查看负载模式能力、通信设置与诊断命令。",
            "View load-mode capabilities, communication and diagnostics.",
        ),
        InstrumentKind::Multimeter => text(
            lang,
            "查看测量能力、量程/NPLC 支持、通信设置与诊断命令。",
            "View measurement capabilities, range/NPLC support, communication and diagnostics.",
        ),
        InstrumentKind::DebugProbe => text(
            lang,
            "查看探针序列号、目标芯片与烧录/内存参数。",
            "View probe serial, target chip, flash and memory parameters.",
        ),
        InstrumentKind::UsbBridge => text(
            lang,
            "查看 FT4222 序列号与 SPI/I2C/GPIO 参数。",
            "View FT4222 serial and SPI/I2C/GPIO parameters.",
        ),
        InstrumentKind::Generic => text(
            lang,
            "查看设备信息与通信诊断命令。",
            "View device identity, communication and diagnostics.",
        ),
    }
}

/// The summary of the controls of a kind in both languages.
pub open spec fn feature_summaries(kind: InstrumentKind) -> (Seq<char>, Seq<char>) {
    match kind {
        InstrumentKind::Oscilloscope => (
            "通道、时基、触发与运行控制"@,
            "Channels, timebase, trigger and run control"@,
        ),
        InstrumentKind::DcSource => (
            "电压、电流、保护与输出控制"@,
            "Voltage, current, protection and output control"@,
        ),
        InstrumentKind::ElectronicLoad => (
            "CC/CV/CR/CP 模式与输入控制"@,
            "CC/CV/CR/CP modes and input control"@,
        ),
        InstrumentKind::Multimeter => (
            "测量功能、量程、分辨率与 NPLC"@,
            "Functions, range, resolution and NPLC"@,
        ),
        InstrumentKind::DebugProbe => (
            "Halt/Run/复位、烧录、内存与 RTT"@,
            "Halt/run/reset, flash, memory and RTT"@,
        ),
        InstrumentKind::UsbBridge => (
            "SPI / I2C / GPIO 收发"@,
            "SPI / I2C / GPIO transfers"@,
        ),
        InstrumentKind::Generic => (
            "原始 SCPI 控制"@,
            "Raw SCPI control"@,
        ),
    }
}

/// The summary of the controls of a kind.
pub fn feature_summary(lang: Lang, kind: InstrumentKind) -> (r: &'static str)
    ensures
        r@ == chosen(lang, feature_summaries(kind)),
{
    match kind {
        InstrumentKind::Oscilloscope => text(
            lang,
            "通道、时基、触发与运行控制",
            "Channels, timebase, trigger and run control",
        ),
        InstrumentKind::DcSource => text(
            lang,
            "电压、电流、保护与输出控制",
            "Voltage, current, protection and output control",
        ),
        InstrumentKind::ElectronicLoad => text(
            lang,
            "CC/CV/CR/CP 模式与输入控制",
            "CC/CV/CR/CP modes and input control",
        ),
        InstrumentKind::Multimeter => text(
            lang,
            "测量功能、量程、分辨率与 NPLC",
            "Functions, range, resolution and NPLC",
        ),
        InstrumentKind::DebugProbe => text(
            lang,
            "Halt/Run/复位、烧录、内存与 RTT",
            "Halt/run/reset, flash, memory and RTT",
        ),
        InstrumentKind::UsbBridge => text(
            lang,
            "SPI / I2C / GPIO 收发",
            "SPI / I2C / GPIO transfers",
        ),
        InstrumentKind::Generic => text(
            lang,
            "原始 SCPI 控制",
            "Raw SCPI control",
        ),
    }
}

/// What the address box of a kind says while it is empty in both languages.
pub open spec fn empty_prompts(kind: InstrumentKind) -> (Seq<char>, Seq<char>) {
    match kind {
        InstrumentKind::Oscilloscope => (
            "选择或输入 VISA 地址"@,
            "Select or enter VISA address"@,
        ),
        InstrumentKind::DcSource => (
            "选择或输入 VISA 地址"@,
            "Select or enter VISA address"@,
        ),
        InstrumentKind::ElectronicLoad => (
            "选择或输入 VISA 地址"@,
            "Select or enter VISA address"@,
        ),
        InstrumentKind::Multimeter => (
            "选择或输入 VISA 地址"@,
            "Select or enter VISA address"@,
        ),
        InstrumentKind::DebugProbe => (
            "选择或输入探针地址"@,
            "Select or enter probe address"@,
        ),
        InstrumentKind::UsbBridge => (
            "选择或输入桥地址"@,
            "Select or enter bridge address"@,
        ),
        InstrumentKind::Generic => (
            "选择或输入 VISA 地址"@,
            "Select or enter VISA address"@,
        ),
    }
}

/// What the address box of a kind says while it is empty.
pub fn resource_empty_prompt(lang: Lang, kind: InstrumentKind) -> (r: &'static str)
    ensures
        r@ == chosen(lang, empty_prompts(kind)),
{
    match kind {
        InstrumentKind::Oscilloscope => text(
            lang,
            "选择或输入 VISA 地址",
            "Select or enter VISA address",
        ),
        InstrumentKind::DcSource => text(
            lang,
            "选择或输入 VISA 地址",
            "Select or enter VISA address",
        ),
        InstrumentKind::ElectronicLoad => text(
            lang,
            "选择或输入 VISA 地址",
            "Select or enter VISA address",
        ),
        InstrumentKind::Multimeter => text(
            lang,
            "选择或输入 VISA 地址",
            "Select or enter VISA address",
        ),
        InstrumentKind::DebugProbe => text(
            lang,
            "选择或输入探针地址",
            "Select or enter probe address",
        ),
        InstrumentKind::UsbBridge => text(
            lang,
            "选择或输入桥地址",
            "Select or enter bridge address",
        ),
        InstrumentKind::Generic => text(
            lang,
            "选择或输入 VISA 地址",
            "Select or enter VISA address",
        ),
    }
}

/// The short mark of a kind.
pub open spec fn kind_mark(kind: InstrumentKind) -> Seq<char> {
    match kind {
        InstrumentKind::Oscilloscope => "OSC"@,
        InstrumentKind::DcSource => "SRC"@,
        InstrumentKind::ElectronicLoad => "LOAD"@,
        InstrumentKind::Multimeter => "DMM"@,
        InstrumentKind::DebugProbe => "PROBE"@,
        InstrumentKind::UsbBridge => "FT42"@,
        InstrumentKind::Generic => "SCPI"@,
    }
}

/// The short mark of a kind.
pub fn kind_icon(kind: InstrumentKind) -> (r: &'static str)
    ensures
        r@ == kind_mark(kind),
{
    match kind {
        InstrumentKind::Oscilloscope => "OSC",
        InstrumentKind::DcSource => "SRC",
        InstrumentKind::ElectronicLoad => "LOAD",
        InstrumentKind::Multimeter => "DMM",
        InstrumentKind::DebugProbe => "PROBE",
        InstrumentKind::UsbBridge => "FT42",
        InstrumentKind::Generic => "SCPI",
    }
}

/// The address that is suggested for a kind, as a text.
pub open spec fn address_hint(kind: InstrumentKind) -> Seq<char> {
    match kind {
        InstrumentKind::DebugProbe => "probe://jlink/serial=..."@,
        InstrumentKind::UsbBridge => "bridge://ft4222/serial=..."@,
        _ => "USB0::0x0699::...::INSTR"@,
    }
}

/// An example of an address of a kind.
pub fn resource_address_hint(kind: InstrumentKind) -> (r: &'static str)
    ensures
        r@ == address_hint(kind),
{
    match kind {
        InstrumentKind::DebugProbe => "probe://jlink/serial=...",
        InstrumentKind::UsbBridge => "bridge://ft4222/serial=...",
        _ => "USB0::0x0699::...::INSTR",
    }
}

/// A heading and what it stands for.
pub struct Feature {
    pub heading: &'static str,
    pub detail: &'static str,
}

/// Whether `f` has the given texts in the language.
pub open spec fn feature_is(
    f: Feature,
    lang: Lang,
    heading: (Seq<char>, Seq<char>),
    detail: (Seq<char>, Seq<char>),
) -> bool {
    f.heading@ == chosen(lang, heading) && f.detail@ == chosen(lang, detail)
}

/// What the workspace of a kind offers: parameters, control, and sampling or, for the kinds
/// that talk to a chip, a log.
pub fn instrument_features(lang: Lang, kind: InstrumentKind) -> (r: Vec<Feature>)
    ensures
        r@.len() == 3,
        feature_is(
            r@[0],
            lang,
            ("参数设置"@, "Parameters"@),
            (
                "设备信息、通信参数、能力与诊断"@,
                "Identity, communication, capabilities and diagnostics"@,
            ),
        ),
        feature_is(r@[1], lang, ("控制"@, "Control"@), feature_summaries(kind)),
        if kind is DebugProbe || kind is UsbBridge {
            feature_is(r@[2], lang, ("日志"@, "Log"@), acquisition_hints(kind))
        } else {
            feature_is(
                r@[2],
                lang,
                ("数据采集"@, "Data Acquisition"@),
                (
                    "单次/连续采样、实时曲线与 CSV"@,
                    "Single/continuous sampling, live plots and CSV"@,
                ),
            )
        },
{
    let mut r: Vec<Feature> = Vec::new();
    r.push(
        Feature {
            heading: text(lang, "参数设置", "Parameters"),
            detail: text(
                lang,
                "设备信息、通信参数、能力与诊断",
                "Identity, communication, capabilities and diagnostics",
            ),
        },
    );
    r.push(
        Feature {
            heading: text(lang, "控制", "Control"),
            detail: feature_summary(lang, kind),
        },
    );
    r.push(
        match kind {
            InstrumentKind::DebugProbe | InstrumentKind::UsbBridge => Feature {
                heading: text(lang, "日志", "Log"),
                detail: instrument_acquisition_hint(lang, kind),
            },
            _ => Feature {
                heading: text(lang, "数据采集", "Data Acquisition"),
                detail: text(
                    lang,
                    "单次/连续采样、实时曲线与 CSV",
                    "Single/continuous sampling, live plots and CSV",
                ),
            },
        },
    );
    r
}

/// Law: every kind has a name and a mark of its own, in either language.
pub proof fn law_kinds_are_named_apart(a: InstrumentKind, b: InstrumentKind, lang: Lang)
    requires
        a != b,
    ensures
        chosen(lang, kind_names(a)) != chosen(lang, kind_names(b)),
        kind_mark(a) != kind_mark(b),
{
    reveal_strlit("示波器");
    reveal_strlit("直流电源");
    reveal_strlit("电子负载");
    reveal_strlit("数字万用表");
    reveal_strlit("调试探针");
    reveal_strlit("USB 桥");
    reveal_strlit("通用 SCPI");
    reveal_strlit("Oscilloscope");
    reveal_strlit("DC Source");
    reveal_strlit("Electronic Load");
    reveal_strlit("Digital Multimeter");
    reveal_strlit("Debug Probe");
    reveal_strlit("USB Bridge");
    reveal_strlit("Generic SCPI");
    reveal_strlit("OSC");
    reveal_strlit("SRC");
    reveal_strlit("LOAD");
    reveal_strlit("DMM");
    reveal_strlit("PROBE");
    reveal_strlit("FT42");
    reveal_strlit("SCPI");
    let (x, y) = (chosen(lang, kind_names(a)), chosen(lang, kind_names(b)));
    assert(x.len() != y.len() || x[0] != y[0] || x[1] != y[1]);
    let (m, n) = (kind_mark(a), kind_mark(b));
    assert(m.len() != n.len() || m[0] != n[0]);
}

/// Law: the cards stand in the order oscilloscope, source, load, multimeter, probe, bridge, and
/// two kinds with a card have different places.
pub proof fn law_cards_have_their_own_places(a: InstrumentKind, b: InstrumentKind)
    ensures
        !(a is Generic) && !(b is Generic) && a != b ==> slot_of(a) != slot_of(b),
        slot_of(InstrumentKind::Oscilloscope) < slot_of(InstrumentKind::DcSource) < slot_of(
            InstrumentKind::ElectronicLoad,
        ) < slot_of(InstrumentKind::Multimeter) < slot_of(InstrumentKind::DebugProbe) < slot_of(
            InstrumentKind::UsbBridge,
        ),
        0 <= slot_of(a) < card_kinds().len(),
        slot_of(InstrumentKind::Generic) == slot_of(InstrumentKind::Oscilloscope),
        card_kinds().len() == CARD_COUNT,
{
}

/// Law: a feature is described by its heading and its detail, both in the language asked for.
pub proof fn law_feature_is_described_in_the_language(
    f: Feature,
    heading: (Seq<char>, Seq<char>),
    detail: (Seq<char>, Seq<char>),
)
    ensures
        feature_is(f, Lang::Zh, heading, detail) <==> f.heading@ == heading.0 && f.detail@
            == detail.0,
        feature_is(f, Lang::En, heading, detail) <==> f.heading@ == heading.1 && f.detail@
            == detail.1,
{
}

/// Law: a probe is suggested an address of a probe, a bridge one of a bridge, and any other
/// instrument one of a USB instrument.
pub proof fn law_suggested_address_fits_the_kind(kind: InstrumentKind)
    ensures
        kind is DebugProbe <==> "probe://"@.is_prefix_of(address_hint(kind)),
        kind is UsbBridge <==> "bridge://"@.is_prefix_of(address_hint(kind)),
        !(kind is DebugProbe) && !(kind is UsbBridge) <==> "USB0::"@.is_prefix_of(
            address_hint(kind),
        ),
{
    reveal_strlit("probe://");
    reveal_strlit("bridge://");
    reveal_strlit("USB0::");
    reveal_strlit("probe://jlink/serial=...");
    reveal_strlit("bridge://ft4222/serial=...");
    reveal_strlit("USB0::0x0699::...::INSTR");
    let r = address_hint(kind);
    assert(r[0] == 'p' || r[0] == 'b' || r[0] == 'U');
    assert("probe://"@[0] == 'p' && "bridge://"@[0] == 'b' && "USB0::"@[0] == 'U');
    assert(kind is DebugProbe ==> r.subrange(0, 8) =~= "probe://"@);
    assert(kind is UsbBridge ==> r.subrange(0, 9) =~= "bridge://"@);
    assert(!(kind is DebugProbe) && !(kind is UsbBridge) ==> r.subrange(0, 6) =~= "USB0::"@);
    if "probe://"@.is_prefix_of(r) {
        assert(r.subrange(0, 8)[0] == r[0]);
    }
    if "bridge://"@.is_prefix_of(r) {
        assert(r.subrange(0, 9)[0] == r[0]);
    }
    if "USB0::"@.is_prefix_of(r) {
        assert(r.subrange(0, 6)[0] == r[0]);
    }
}

} // verus!
