//! The overview of the bench: what each instrument does and shows.
use vstd::prelude::*;
use vstd::string::*;

use crate::bench::{InstrumentControlPanel, LatestReading};
use crate::controls::Real;
use crate::instrument::InstrumentKind;
use crate::lang::{chosen, Lang};
use crate::rack::{DeviceUi, ResourceInfo};
use crate::{bench, bench_api, controls, files, instrument, lang, rack, text, waveform};

verus! {

// ---------------------------------------------------------------------------
// What an instrument does
// ---------------------------------------------------------------------------

/// What an instrument does right now.
pub enum RuntimeStatus {
    Busy(String),
    Hold,
    Live,
    Output,
    Sink,
    Printing,
    Standby,
}

/// Whether `s` is what an instrument does: long work counts before sampling, sampling before
/// what is switched on.
pub open spec fn does(
    s: RuntimeStatus,
    d: DeviceUi,
    busy_device: Option<u64>,
    busy_label: Seq<char>,
) -> bool {
    if busy_device == Some(d.id) {
        s matches RuntimeStatus::Busy(label) && label@ == busy_label
    } else if d.acquiring && d.paused {
        s is Hold
    } else if d.acquiring {
        s is Live
    } else if d.controls.probe.rtt_on {
        s is Printing
    } else if d.controls.source.outputs@.contains(true) {
        s is Output
    } else if d.controls.load.input {
        s is Sink
    } else {
        s is Standby
    }
}

/// What an instrument does right now.
pub fn overview_runtime_status(d: &DeviceUi, busy_device: Option<u64>, busy_label: &str) -> (r:
    RuntimeStatus)
    ensures
        does(r, *d, busy_device, busy_label@),
{
    if busy_device == Some(d.id) {
        RuntimeStatus::Busy(busy_label.to_owned())
    } else if d.acquiring && d.paused {
        RuntimeStatus::Hold
    } else if d.acquiring {
        RuntimeStatus::Live
    } else if d.controls.probe.rtt_on {
        RuntimeStatus::Printing
    } else if d.controls.source.any_output() {
        RuntimeStatus::Output
    } else if d.controls.load.input {
        RuntimeStatus::Sink
    } else {
        RuntimeStatus::Standby
    }
}

/// The text of what an instrument does.
pub open spec fn runtime_text(s: RuntimeStatus, lang: Lang) -> Seq<char> {
    match s {
        RuntimeStatus::Busy(label) => if text::trimmed(label@).len() == 0 {
            chosen(lang, ("作业中"@, "BUSY"@))
        } else {
            label@
        },
        RuntimeStatus::Hold => chosen(lang, ("保持"@, "HOLD"@)),
        RuntimeStatus::Live => chosen(lang, ("采集"@, "LIVE"@)),
        RuntimeStatus::Printing => "RTT"@,
        RuntimeStatus::Output => chosen(lang, ("输出开"@, "OUTPUT"@)),
        RuntimeStatus::Sink => chosen(lang, ("带载"@, "SINK"@)),
        RuntimeStatus::Standby => chosen(lang, ("待机"@, "STANDBY"@)),
    }
}

/// The colour of what an instrument does, as red, green and blue.
pub open spec fn runtime_color(s: RuntimeStatus) -> (u8, u8, u8) {
    match s {
        RuntimeStatus::Busy(_) => (0xffu8, 0xd6u8, 0x0au8),
        RuntimeStatus::Hold => (0xffu8, 0x9fu8, 0x0au8),
        RuntimeStatus::Live => (0x30u8, 0xd1u8, 0x58u8),
        RuntimeStatus::Printing => (0x4au8, 0xe3u8, 0xffu8),
        RuntimeStatus::Output => (0x30u8, 0xd1u8, 0x58u8),
        RuntimeStatus::Sink => (0x30u8, 0xd1u8, 0x58u8),
        RuntimeStatus::Standby => (0x7au8, 0xc8u8, 0xe0u8),
    }
}

/// The word for what an instrument does.
pub open spec fn runtime_key(s: RuntimeStatus) -> Seq<char> {
    match s {
        RuntimeStatus::Busy(_) => "busy"@,
        RuntimeStatus::Hold => "hold"@,
        RuntimeStatus::Live => "live"@,
        RuntimeStatus::Printing => "rtt"@,
        RuntimeStatus::Output => "output"@,
        RuntimeStatus::Sink => "sink"@,
        RuntimeStatus::Standby => "standby"@,
    }
}

impl RuntimeStatus {
    /// The text of what the instrument does.
    pub fn label(&self, lang: Lang) -> (r: String)
        ensures
            r@ == runtime_text(*self, lang),
    {
        match self {
            RuntimeStatus::Busy(label) => if text::is_blank(label.as_str()) {
                lang::text(lang, "作业中", "BUSY").to_owned()
            } else {
                label.clone()
            },
            RuntimeStatus::Hold => lang::text(lang, "保持", "HOLD").to_owned(),
            RuntimeStatus::Live => lang::text(lang, "采集", "LIVE").to_owned(),
            RuntimeStatus::Printing => "RTT".to_owned(),
            RuntimeStatus::Output => lang::text(lang, "输出开", "OUTPUT").to_owned(),
            RuntimeStatus::Sink => lang::text(lang, "带载", "SINK").to_owned(),
            RuntimeStatus::Standby => lang::text(lang, "待机", "STANDBY").to_owned(),
        }
    }

    /// The colour of what the instrument does.
    pub fn color(&self) -> (r: (u8, u8, u8))
        ensures
            r == runtime_color(*self),
    {
        match self {
            RuntimeStatus::Busy(_) => (0xff, 0xd6, 0x0a),
            RuntimeStatus::Hold => (0xff, 0x9f, 0x0a),
            RuntimeStatus::Live => (0x30, 0xd1, 0x58),
            RuntimeStatus::Printing => (0x4a, 0xe3, 0xff),
            RuntimeStatus::Output => (0x30, 0xd1, 0x58),
            RuntimeStatus::Sink => (0x30, 0xd1, 0x58),
            RuntimeStatus::Standby => (0x7a, 0xc8, 0xe0),
        }
    }

    /// The word for what the instrument does.
    pub fn key(&self) -> (r: &'static str)
        ensures
            r@ == runtime_key(*self),
    {
        match self {
            RuntimeStatus::Busy(_) => "busy",
            RuntimeStatus::Hold => "hold",
            RuntimeStatus::Live => "live",
            RuntimeStatus::Printing => "rtt",
            RuntimeStatus::Output => "output",
            RuntimeStatus::Sink => "sink",
            RuntimeStatus::Standby => "standby",
        }
    }
}

/// The word for what an instrument does.
pub fn overview_status_key(d: &DeviceUi, busy_device: Option<u64>) -> (r: &'static str)
    ensures
        exists|s: RuntimeStatus| #[trigger]
            does(s, *d, busy_device, Seq::empty()) && r@ == runtime_key(s),
{
    let s = overview_runtime_status(d, busy_device, "");
    proof {
        reveal_strlit("");
        assert(""@ =~= Seq::<char>::empty());
    }
    s.key()
}

// ---------------------------------------------------------------------------
// What an instrument shows
// ---------------------------------------------------------------------------

/// A value that is shown; numbers are shown with the decimals named here.
pub enum ParamValue {
    Words(String),
    /// In scientific notation, three decimals.
    Scientific(Real),
    /// Source, slope and level in volts, three decimals.
    Trigger { source: String, slope: String, level: Real },
    /// Volts and amperes, three decimals, and whether the output is on.
    Output { volts: Real, amps: Real, on: bool },
    /// Four decimals.
    Level(Real),
    /// Four decimals and the unit.
    Measured { value: Real, unit: String },
}

/// Model of [`ParamValue`].
pub enum ValueView {
    Words(Seq<char>),
    Scientific(Real),
    Trigger { source: Seq<char>, slope: Seq<char>, level: Real },
    Output { volts: Real, amps: Real, on: bool },
    Level(Real),
    Measured { value: Real, unit: Seq<char> },
}

impl View for ParamValue {
    type V = ValueView;

    open spec fn view(&self) -> ValueView {
        match *self {
            ParamValue::Words(s) => ValueView::Words(s@),
            ParamValue::Scientific(x) => ValueView::Scientific(x),
            ParamValue::Trigger { source, slope, level } => ValueView::Trigger {
                source: source@,
                slope: slope@,
                level,
            },
            ParamValue::Output { volts, amps, on } => ValueView::Output { volts, amps, on },
            ParamValue::Level(x) => ValueView::Level(x),
            ParamValue::Measured { value, unit } => ValueView::Measured { value, unit: unit@ },
        }
    }
}

/// A line of the overview.
pub struct ParamLine {
    pub key: String,
    pub value: ParamValue,
}

impl View for ParamLine {
    type V = (Seq<char>, ValueView);

    open spec fn view(&self) -> (Seq<char>, ValueView) {
        (self.key@, self.value@)
    }
}

/// The models of lines.
pub open spec fn line_views(lines: Seq<ParamLine>) -> Seq<(Seq<char>, ValueView)> {
    lines.map_values(|l: ParamLine| l@)
}

fn push_line(lines: &mut Vec<ParamLine>, key: String, value: ParamValue)
    ensures
        line_views(final(lines)@) == line_views(old(lines)@).push((key@, value@)),
{
    let ghost before = line_views(lines@);
    let line = ParamLine { key, value };
    let ghost v = line@;
    lines.push(line);
    assert(line_views(lines@) =~= before.push(v));
}

/// The channels among the first `n` that are on.
pub open spec fn on_channels(on: Seq<bool>, n: int) -> Seq<char>
    decreases n,
{
    if n <= 0 {
        Seq::empty()
    } else {
        let front = on_channels(on, n - 1);
        if !on[n - 1] {
            front
        } else if front.len() == 0 {
            waveform::channel_name(n as u8)
        } else {
            front + " "@ + waveform::channel_name(n as u8)
        }
    }
}

fn list_on_channels(on: &Vec<bool>) -> (r: String)
    requires
        on@.len() == controls::MAX_CHANNELS,
    ensures
        r@ == on_channels(on@, controls::MAX_CHANNELS as int),
{
    let mut r = String::new();
    assert(r@ =~= Seq::<char>::empty());
    let mut i: usize = 0;
    while i < controls::MAX_CHANNELS
        invariant
            i <= controls::MAX_CHANNELS == on@.len(),
            r@ == on_channels(on@, i as int),
        decreases controls::MAX_CHANNELS - i,
    {
        if on[i] {
            let name = waveform::channel_text((i + 1) as u8);
            if r.as_str().is_empty() {
                r = name;
            } else {
                r.append(" ");
                r.append(name.as_str());
            }
        }
        i = i + 1;
    }
    r
}

/// The first readout from channel `i` on.
pub open spec fn first_readout(results: Seq<Option<String>>, i: int) -> Option<Seq<char>>
    decreases results.len() - i,
{
    if i < 0 || i >= results.len() {
        None
    } else {
        match results[i] {
            Some(s) => Some(s@),
            None => first_readout(results, i + 1),
        }
    }
}

fn find_readout(results: &Vec<Option<String>>) -> (r: Option<String>)
    ensures
        files::opt_text(r) == first_readout(results@, 0),
{
    let mut i: usize = 0;
    while i < results.len()
        invariant
            i <= results@.len(),
            first_readout(results@, 0) == first_readout(results@, i as int),
        decreases results@.len() - i,
    {
        match &results[i] {
            Some(s) => {
                return Some(s.clone());
            },
            None => {},
        }
        i = i + 1;
    }
    None
}

/// The value that was measured last on a channel of an instrument.
pub open spec fn measured(latest: Seq<LatestReading>, id: u64, channel: Seq<char>) -> Option<
    (Real, Seq<char>),
> {
    match bench::reading_at(latest, id, channel, 0) {
        Some(i) => Some((latest[i].reading.value, latest[i].reading.unit@)),
        None => None,
    }
}

/// A measured value and its unit.
pub struct Measure {
    pub value: Real,
    pub unit: String,
}

/// The model of an optional measured value.
pub open spec fn measure_view(m: Option<Measure>) -> Option<(Real, Seq<char>)> {
    match m {
        Some(x) => Some((x.value, x.unit@)),
        None => None,
    }
}

/// The value that was measured last on a channel of an instrument.
pub fn latest_pair(latest: &Vec<LatestReading>, id: u64, channel: &str) -> (r: Option<Measure>)
    ensures
        measure_view(r) == measured(latest@, id, channel@),
{
    match bench::find_reading(latest, id, channel) {
        Some(i) => Some(
            Measure {
                value: latest[i].reading.value,
                unit: latest[i].reading.unit.clone(),
            },
        ),
        None => None,
    }
}

/// The place of the first value of an instrument from `i` on.
pub open spec fn first_of_device(latest: Seq<LatestReading>, id: u64, i: int) -> Option<int>
    decreases latest.len() - i,
{
    if i < 0 || i >= latest.len() {
        None
    } else if latest[i].id == id {
        Some(i)
    } else {
        first_of_device(latest, id, i + 1)
    }
}

fn find_first_of_device(latest: &Vec<LatestReading>, id: u64) -> (r: Option<usize>)
    ensures
        match r {
            Some(i) => first_of_device(latest@, id, 0) == Some(i as int) && i < latest@.len(),
            None => first_of_device(latest@, id, 0) is None,
        },
{
    let mut i: usize = 0;
    while i < latest.len()
        invariant
            i <= latest@.len(),
            first_of_device(latest@, id, 0) == first_of_device(latest@, id, i as int),
        decreases latest@.len() - i,
    {
        if latest[i].id == id {
            return Some(i);
        }
        i = i + 1;
    }
    None
}

/// The value that is shown of a quantity of a channel: the measured one, or else the set one.
pub open spec fn shown_value(
    latest: Seq<LatestReading>,
    id: u64,
    channel: int,
    quantity: Seq<char>,
    set: Real,
) -> Real {
    match measured(latest, id, waveform::channel_name((channel + 1) as u8) + quantity) {
        Some(m) => m.0,
        None => set,
    }
}

fn find_shown(
    latest: &Vec<LatestReading>,
    id: u64,
    channel: usize,
    quantity: &str,
    set: Real,
) -> (r: Real)
    requires
        channel < controls::MAX_CHANNELS,
    ensures
        r == shown_value(latest@, id, channel as int, quantity@, set),
{
    let mut name = waveform::channel_text((channel + 1) as u8);
    name.append(quantity);
    match latest_pair(latest, id, name.as_str()) {
        Some(m) => m.value,
        None => set,
    }
}

/// The lines of an oscilloscope.
pub open spec fn scope_lines(lang: Lang, d: DeviceUi) -> Seq<(Seq<char>, ValueView)> {
    let c = d.controls.scope;
    let on = on_channels(c.channel_on@, controls::MAX_CHANNELS as int);
    let base = seq![
        (
            chosen(lang, ("通道"@, "CH"@)),
            ValueView::Words(
                if on.len() == 0 {
                    "—"@
                } else {
                    on
                },
            ),
        ),
        ("s/div"@, ValueView::Scientific(c.timebase)),
        (
            chosen(lang, ("触发"@, "TRG"@)),
            ValueView::Trigger {
                source: c.trigger_source@,
                slope: c.trigger_slope@,
                level: c.trigger_level,
            },
        ),
    ];
    match first_readout(c.meas_results@, 0) {
        Some(s) => base.push((chosen(lang, ("测量"@, "MEAS"@)), ValueView::Words(s))),
        None => base,
    }
}

/// The lines of the first `n` channels of a source.
pub open spec fn source_lines(d: DeviceUi, latest: Seq<LatestReading>, n: int) -> Seq<
    (Seq<char>, ValueView),
>
    decreases n,
{
    if n <= 0 {
        Seq::empty()
    } else {
        let i = n - 1;
        source_lines(d, latest, n - 1).push(
            (
                waveform::channel_name(n as u8),
                ValueView::Output {
                    volts: shown_value(
                        latest,
                        d.id,
                        i,
                        " Voltage"@,
                        d.controls.source.voltages@[i],
                    ),
                    amps: shown_value(
                        latest,
                        d.id,
                        i,
                        " Current"@,
                        d.controls.source.currents@[i],
                    ),
                    on: d.controls.source.outputs@[i],
                },
            ),
        )
    }
}

/// The words for on and off.
pub open spec fn on_off(on: bool) -> Seq<char> {
    if on {
        "ON"@
    } else {
        "OFF"@
    }
}

/// The lines of an electronic load.
pub open spec fn load_lines(lang: Lang, d: DeviceUi) -> Seq<(Seq<char>, ValueView)> {
    seq![
        (chosen(lang, ("模式"@, "MODE"@)), ValueView::Words(d.controls.load.mode@)),
        (chosen(lang, ("电平"@, "LVL"@)), ValueView::Level(d.controls.load.level)),
        (chosen(lang, ("输入"@, "INP"@)), ValueView::Words(on_off(d.controls.load.input))),
    ]
}

/// The lines of a multimeter.
pub open spec fn meter_lines(lang: Lang, d: DeviceUi, latest: Seq<LatestReading>) -> Seq<
    (Seq<char>, ValueView),
> {
    let base = seq![
        (
            chosen(lang, ("功能"@, "FUNC"@)),
            ValueView::Words(d.controls.meter.function.label@),
        ),
    ];
    match first_of_device(latest, d.id, 0) {
        Some(i) => base.push(
            (
                chosen(lang, ("读数"@, "READ"@)),
                ValueView::Measured {
                    value: latest[i].reading.value,
                    unit: latest[i].reading.unit@,
                },
            ),
        ),
        None => base,
    }
}

/// The lines of a probe.
pub open spec fn probe_lines(lang: Lang, d: DeviceUi) -> Seq<(Seq<char>, ValueView)> {
    let c = d.controls.probe;
    let base = seq![
        (
            chosen(lang, ("目标"@, "TGT"@)),
            ValueView::Words(
                if text::trimmed(c.chip@).len() == 0 {
                    "DP / AUTO"@
                } else {
                    c.chip@
                },
            ),
        ),
        (
            "RTT"@,
            ValueView::Words(
                if c.rtt_on {
                    "CH"@ + text::decimal(c.rtt_channel as nat)
                } else {
                    "OFF"@
                },
            ),
        ),
    ];
    if c.flash_path@.len() > 0 {
        base.push((chosen(lang, ("烧录"@, "FW"@)), ValueView::Words(c.flash_path@)))
    } else {
        base
    }
}

/// The name of the bus of a bridge.
pub open spec fn bus_name(tab: u8) -> Seq<char> {
    if tab == 1 {
        "I2C"@
    } else if tab == 2 {
        "GPIO"@
    } else {
        "SPI"@
    }
}

/// The lines of a bridge.
pub open spec fn bridge_lines(lang: Lang, d: DeviceUi) -> Seq<(Seq<char>, ValueView)> {
    let c = d.controls.bridge;
    seq![
        (chosen(lang, ("总线"@, "BUS"@)), ValueView::Words(bus_name(c.tab))),
        if c.tab == 0 {
            (
                "SPI"@,
                ValueView::Words(
                    "m"@ + text::decimal(c.spi_mode as nat) + " "@ + text::decimal(c.spi_hz as nat)
                        + " Hz"@,
                ),
            )
        } else if c.tab == 1 {
            ("I2C"@, ValueView::Words("0x"@ + c.i2c_addr@))
        } else {
            ("GPIO"@, ValueView::Words("P"@ + text::decimal(c.gpio_pin as nat)))
        },
    ]
}

/// The lines that belong to the kind of an instrument.
pub open spec fn kind_lines(lang: Lang, d: DeviceUi, latest: Seq<LatestReading>) -> Seq<
    (Seq<char>, ValueView),
> {
    match d.kind {
        InstrumentKind::Oscilloscope => scope_lines(lang, d),
        InstrumentKind::DcSource => source_lines(
            d,
            latest,
            controls::channel_count(d.capabilities.channels as int),
        ),
        InstrumentKind::ElectronicLoad => load_lines(lang, d),
        InstrumentKind::Multimeter => meter_lines(lang, d, latest),
        InstrumentKind::DebugProbe => probe_lines(lang, d),
        InstrumentKind::UsbBridge => bridge_lines(lang, d),
        InstrumentKind::Generic => seq![("SCPI"@, ValueView::Words(d.controls.console@))],
    }
}

/// Whether a line has a key.
pub open spec fn has_key(lines: Seq<(Seq<char>, ValueView)>, key: Seq<char>) -> bool {
    exists|k: int| 0 <= k < lines.len() && (#[trigger] lines[k]).0 == key
}

/// How many lines an instrument has at most, but for those of its kind.
pub const PARAM_LINES: usize = 4;

/// Lines filled up with the first `n` measured values.
pub open spec fn filled_up(
    base: Seq<(Seq<char>, ValueView)>,
    id: u64,
    latest: Seq<LatestReading>,
    n: int,
) -> Seq<(Seq<char>, ValueView)>
    decreases n,
{
    if n <= 0 {
        base
    } else {
        let lines = filled_up(base, id, latest, n - 1);
        let e = latest[n - 1];
        if e.id != id || lines.len() >= PARAM_LINES || has_key(lines, e.reading.channel@) {
            lines
        } else {
            lines.push(
                (
                    e.reading.channel@,
                    ValueView::Measured { value: e.reading.value, unit: e.reading.unit@ },
                ),
            )
        }
    }
}

/// The lines of an instrument: those of its kind, filled up with measured values.
pub open spec fn param_lines(lang: Lang, d: DeviceUi, latest: Seq<LatestReading>) -> Seq<
    (Seq<char>, ValueView),
> {
    filled_up(kind_lines(lang, d, latest), d.id, latest, latest.len() as int)
}

fn words(s: &str) -> (r: ParamValue)
    ensures
        r@ == ValueView::Words(s@),
{
    ParamValue::Words(s.to_owned())
}

fn make_scope_lines(lang: Lang, d: &DeviceUi) -> (r: Vec<ParamLine>)
    requires
        d.controls.scope.wf(),
    ensures
        line_views(r@) == scope_lines(lang, *d),
{
    let c = &d.controls.scope;
    let mut r: Vec<ParamLine> = Vec::new();
    assert(line_views(r@) =~= Seq::<(Seq<char>, ValueView)>::empty());
    let on = list_on_channels(&c.channel_on);
    let shown = if on.as_str().is_empty() {
        "—".to_owned()
    } else {
        on
    };
    push_line(&mut r, lang::text(lang, "通道", "CH").to_owned(), ParamValue::Words(shown));
    push_line(&mut r, "s/div".to_owned(), ParamValue::Scientific(c.timebase));
    push_line(
        &mut r,
        lang::text(lang, "触发", "TRG").to_owned(),
        ParamValue::Trigger {
            source: c.trigger_source.clone(),
            slope: c.trigger_slope.clone(),
            level: c.trigger_level,
        },
    );
    match find_readout(&c.meas_results) {
        Some(s) => {
            push_line(&mut r, lang::text(lang, "测量", "MEAS").to_owned(), ParamValue::Words(s));
        },
        None => {},
    }
    assert(line_views(r@) =~= scope_lines(lang, *d));
    r
}

fn make_source_lines(d: &DeviceUi, latest: &Vec<LatestReading>) -> (r: Vec<ParamLine>)
    requires
        d.controls.source.wf(),
    ensures
        line_views(r@) == source_lines(
            *d,
            latest@,
            controls::channel_count(d.capabilities.channels as int),
        ),
{
    let n: usize = controls::shown_channels(d.capabilities.channels);
    let mut r: Vec<ParamLine> = Vec::new();
    assert(line_views(r@) =~= Seq::<(Seq<char>, ValueView)>::empty());
    let mut i: usize = 0;
    while i < n
        invariant
            i <= n <= controls::MAX_CHANNELS,
            d.controls.source.wf(),
            line_views(r@) == source_lines(*d, latest@, i as int),
        decreases n - i,
    {
        let volts = find_shown(latest, d.id, i, " Voltage", d.controls.source.voltages[i]);
        let amps = find_shown(latest, d.id, i, " Current", d.controls.source.currents[i]);
        let on: bool = d.controls.source.outputs[i];
        push_line(
            &mut r,
            waveform::channel_text((i + 1) as u8),
            ParamValue::Output { volts, amps, on },
        );
        i = i + 1;
    }
    r
}

fn make_load_lines(lang: Lang, d: &DeviceUi) -> (r: Vec<ParamLine>)
    ensures
        line_views(r@) == load_lines(lang, *d),
{
    let c = &d.controls.load;
    let mut r: Vec<ParamLine> = Vec::new();
    assert(line_views(r@) =~= Seq::<(Seq<char>, ValueView)>::empty());
    push_line(
        &mut r,
        lang::text(lang, "模式", "MODE").to_owned(),
        ParamValue::Words(c.mode.clone()),
    );
    push_line(&mut r, lang::text(lang, "电平", "LVL").to_owned(), ParamValue::Level(c.level));
    let input = if c.input {
        words("ON")
    } else {
        words("OFF")
    };
    push_line(&mut r, lang::text(lang, "输入", "INP").to_owned(), input);
    assert(line_views(r@) =~= load_lines(lang, *d));
    r
}

fn make_meter_lines(lang: Lang, d: &DeviceUi, latest: &Vec<LatestReading>) -> (r: Vec<ParamLine>)
    ensures
        line_views(r@) == meter_lines(lang, *d, latest@),
{
    let mut r: Vec<ParamLine> = Vec::new();
    assert(line_views(r@) =~= Seq::<(Seq<char>, ValueView)>::empty());
    push_line(
        &mut r,
        lang::text(lang, "功能", "FUNC").to_owned(),
        ParamValue::Words(d.controls.meter.function.label.clone()),
    );
    match find_first_of_device(latest, d.id) {
        Some(i) => {
            push_line(
                &mut r,
                lang::text(lang, "读数", "READ").to_owned(),
                ParamValue::Measured {
                    value: latest[i].reading.value,
                    unit: latest[i].reading.unit.clone(),
                },
            );
        },
        None => {},
    }
    assert(line_views(r@) =~= meter_lines(lang, *d, latest@));
    r
}

fn make_probe_lines(lang: Lang, d: &DeviceUi) -> (r: Vec<ParamLine>)
    ensures
        line_views(r@) == probe_lines(lang, *d),
{
    let c = &d.controls.probe;
    let mut r: Vec<ParamLine> = Vec::new();
    assert(line_views(r@) =~= Seq::<(Seq<char>, ValueView)>::empty());
    let chip = if text::is_blank(c.chip.as_str()) {
        words("DP / AUTO")
    } else {
        ParamValue::Words(c.chip.clone())
    };
    push_line(&mut r, lang::text(lang, "目标", "TGT").to_owned(), chip);
    let rtt = if c.rtt_on {
        let n = text::decimal_text(c.rtt_channel as u64);
        ParamValue::Words(text::join2("CH", n.as_str()))
    } else {
        words("OFF")
    };
    push_line(&mut r, "RTT".to_owned(), rtt);
    if !c.flash_path.as_str().is_empty() {
        push_line(
            &mut r,
            lang::text(lang, "烧录", "FW").to_owned(),
            ParamValue::Words(c.flash_path.clone()),
        );
    }
    assert(line_views(r@) =~= probe_lines(lang, *d));
    r
}

fn make_bridge_lines(lang: Lang, d: &DeviceUi) -> (r: Vec<ParamLine>)
    ensures
        line_views(r@) == bridge_lines(lang, *d),
{
    let c = &d.controls.bridge;
    let mut r: Vec<ParamLine> = Vec::new();
    assert(line_views(r@) =~= Seq::<(Seq<char>, ValueView)>::empty());
    let bus = if c.tab == 1 {
        words("I2C")
    } else if c.tab == 2 {
        words("GPIO")
    } else {
        words("SPI")
    };
    push_line(&mut r, lang::text(lang, "总线", "BUS").to_owned(), bus);
    if c.tab == 0 {
        let mode = text::decimal_text(c.spi_mode as u64);
        let hz = text::decimal_text(c.spi_hz as u64);
        let mut s = text::join3("m", mode.as_str(), " ");
        s.append(hz.as_str());
        s.append(" Hz");
        push_line(&mut r, "SPI".to_owned(), ParamValue::Words(s));
    } else if c.tab == 1 {
        push_line(
            &mut r,
            "I2C".to_owned(),
            ParamValue::Words(text::join2("0x", c.i2c_addr.as_str())),
        );
    } else {
        let pin = text::decimal_text(c.gpio_pin as u64);
        push_line(&mut r, "GPIO".to_owned(), ParamValue::Words(text::join2("P", pin.as_str())));
    }
    assert(line_views(r@) =~= bridge_lines(lang, *d));
    r
}

fn make_kind_lines(lang: Lang, d: &DeviceUi, latest: &Vec<LatestReading>) -> (r: Vec<ParamLine>)
    requires
        d.controls.scope.wf(),
        d.controls.source.wf(),
    ensures
        line_views(r@) == kind_lines(lang, *d, latest@),
{
    match d.kind {
        InstrumentKind::Oscilloscope => make_scope_lines(lang, d),
        InstrumentKind::DcSource => make_source_lines(d, latest),
        InstrumentKind::ElectronicLoad => make_load_lines(lang, d),
        InstrumentKind::Multimeter => make_meter_lines(lang, d, latest),
        InstrumentKind::DebugProbe => make_probe_lines(lang, d),
        InstrumentKind::UsbBridge => make_bridge_lines(lang, d),
        InstrumentKind::Generic => {
            let mut r: Vec<ParamLine> = Vec::new();
            assert(line_views(r@) =~= Seq::<(Seq<char>, ValueView)>::empty());
            push_line(&mut r, "SCPI".to_owned(), ParamValue::Words(d.controls.console.clone()));
            assert(line_views(r@) =~= kind_lines(lang, *d, latest@));
            r
        },
    }
}

fn key_is_shown(lines: &Vec<ParamLine>, key: &str) -> (r: bool)
    ensures
        r == has_key(line_views(lines@), key@),
{
    let mut i: usize = 0;
    while i < lines.len()
        invariant
            i <= lines@.len(),
            forall|k: int| 0 <= k < i ==> (#[trigger] line_views(lines@)[k]).0 != key@,
        decreases lines@.len() - i,
    {
        assert(line_views(lines@)[i as int].0 == lines@[i as int].key@);
        if text::same_text(lines[i].key.as_str(), key) {
            return true;
        }
        i = i + 1;
    }
    false
}

/// The lines of an instrument.
pub fn overview_param_lines(lang: Lang, d: &DeviceUi, latest: &Vec<LatestReading>) -> (r: Vec<
    ParamLine,
>)
    requires
        d.controls.scope.wf(),
        d.controls.source.wf(),
    ensures
        line_views(r@) == param_lines(lang, *d, latest@),
{
    let mut r = make_kind_lines(lang, d, latest);
    let ghost base = line_views(r@);
    let mut n: usize = 0;
    while n < latest.len()
        invariant
            n <= latest@.len(),
            line_views(r@) == filled_up(base, d.id, latest@, n as int),
        decreases latest@.len() - n,
    {
        let e = &latest[n];
        assert(line_views(r@).len() == r@.len());
        if e.id == d.id && r.len() < PARAM_LINES && !key_is_shown(&r, e.reading.channel.as_str()) {
            push_line(
                &mut r,
                e.reading.channel.clone(),
                ParamValue::Measured {
                    value: e.reading.value,
                    unit: e.reading.unit.clone(),
                },
            );
        }
        n = n + 1;
    }
    r
}

/// Law: measured values are added only up to the fourth line, and never under a key that is
/// there already.
pub proof fn law_lines_are_filled_up_to_four(
    base: Seq<(Seq<char>, ValueView)>,
    id: u64,
    latest: Seq<LatestReading>,
    n: int,
)
    requires
        0 <= n <= latest.len(),
        base.len() <= PARAM_LINES,
    ensures
        base.len() <= filled_up(base, id, latest, n).len() <= PARAM_LINES,
        forall|k: int|
            0 <= k < base.len() ==> #[trigger] filled_up(base, id, latest, n)[k] == base[k],
        forall|i: int, j: int|
            base.len() <= j && 0 <= i < j < filled_up(base, id, latest, n).len() ==> (
            #[trigger] filled_up(base, id, latest, n)[i]).0 != (#[trigger] filled_up(
                base,
                id,
                latest,
                n,
            )[j]).0,
    decreases n,
{
    if n > 0 {
        law_lines_are_filled_up_to_four(base, id, latest, n - 1);
        let before = filled_up(base, id, latest, n - 1);
        let after = filled_up(base, id, latest, n);
        if after != before {
            let key = latest[n - 1].reading.channel@;
            assert forall|i: int, j: int|
                base.len() <= j && 0 <= i < j < after.len() implies (#[trigger] after[i]).0 != (
            #[trigger] after[j]).0 by {
                assert(after[i] == before[i]);
                if j < before.len() {
                    assert(after[j] == before[j]);
                } else {
                    assert(before[i].0 != key);
                }
            }
        }
    }
}

// ---------------------------------------------------------------------------
// Names
// ---------------------------------------------------------------------------

/// The name of an instrument, as a text.
pub open spec fn name_shown(lang: Lang, d: DeviceUi) -> Seq<char> {
    if text::trimmed(d.identity.model@).len() == 0 {
        chosen(lang, instrument::kind_names(d.kind))
    } else {
        d.identity.model@
    }
}

/// What tells an instrument from others, as a text.
pub open spec fn mark_shown(d: DeviceUi) -> Seq<char> {
    if text::trimmed(d.identity.serial@).len() == 0 {
        files::elided(d.resource@, files::SHORT_RESOURCE_CHARS as int)
    } else {
        "SN "@ + d.identity.serial@
    }
}

/// The name of an instrument: its model, or else its kind.
pub fn device_name(lang: Lang, d: &DeviceUi) -> (r: String)
    ensures
        r@ == name_shown(lang, *d),
{
    if text::is_blank(d.identity.model.as_str()) {
        instrument::instrument_name(lang, d.kind).to_owned()
    } else {
        d.identity.model.clone()
    }
}

/// What tells an instrument from others: its serial number, or else its address.
pub fn device_mark(d: &DeviceUi) -> (r: String)
    ensures
        r@ == mark_shown(*d),
{
    if text::is_blank(d.identity.serial.as_str()) {
        files::short_resource(d.resource.as_str())
    } else {
        text::join2("SN ", d.identity.serial.as_str())
    }
}

// ---------------------------------------------------------------------------
// Front panels
// ---------------------------------------------------------------------------

/// A channel on the front panel of a source.
pub struct TwinSourceCh {
    pub on: bool,
    pub set_v: Real,
    pub set_i: Real,
    pub meas_v: Option<Measure>,
    pub meas_i: Option<Measure>,
    pub meas_w: Option<Measure>,
}

/// What the front panel of an instrument shows.
pub enum TwinFace {
    Scope {
        channels: usize,
        channel_on: Vec<bool>,
        timebase: Real,
        trigger: String,
        meas: Option<String>,
    },
    DcSource { rows: Vec<TwinSourceCh> },
    Load {
        mode: String,
        level: Real,
        input: bool,
        voltage: Option<Measure>,
        current: Option<Measure>,
        power: Option<Measure>,
    },
    Dmm { function: String, unit: String, autorange: bool, reading: Option<Measure> },
    Probe { chip: String, rtt: bool, rtt_ch: u32, speed_khz: u32 },
    Bridge {
        tab: u8,
        spi_hz: u32,
        spi_mode: u8,
        i2c_addr: String,
        gpio_pin: u8,
        gpio_out: bool,
        gpio_value: bool,
    },
    Generic { cmd: String },
}

/// Whether `row` is channel `i` on the front panel of a source.
pub open spec fn is_source_row(
    row: TwinSourceCh,
    d: DeviceUi,
    latest: Seq<LatestReading>,
    i: int,
) -> bool {
    let name = waveform::channel_name((i + 1) as u8);
    &&& row.on == d.controls.source.outputs@[i]
    &&& row.set_v == d.controls.source.voltages@[i]
    &&& row.set_i == d.controls.source.currents@[i]
    &&& measure_view(row.meas_v) == measured(latest, d.id, name + " Voltage"@)
    &&& measure_view(row.meas_i) == measured(latest, d.id, name + " Current"@)
    &&& measure_view(row.meas_w) == measured(latest, d.id, name + " Power"@)
}

/// What a meter shows: the value of its function, or else one named reading, or else any value
/// of it.
pub open spec fn meter_reading(d: DeviceUi, latest: Seq<LatestReading>) -> Option<(Real, Seq<char>)> {
    match measured(latest, d.id, d.controls.meter.function.scpi@) {
        Some(m) => Some(m),
        None => match measured(latest, d.id, "Reading"@) {
            Some(m) => Some(m),
            None => match first_of_device(latest, d.id, 0) {
                Some(i) => Some((latest[i].reading.value, latest[i].reading.unit@)),
                None => None,
            },
        },
    }
}

/// Whether `face` is the front panel of an instrument.
pub open spec fn is_face(face: TwinFace, d: DeviceUi, latest: Seq<LatestReading>) -> bool {
    match d.kind {
        InstrumentKind::Oscilloscope => face matches TwinFace::Scope {
            channels,
            channel_on,
            timebase,
            trigger,
            meas,
        } && channels == controls::channel_count(d.capabilities.channels as int) && channel_on@
            == d.controls.scope.channel_on@ && timebase == d.controls.scope.timebase && trigger@
            == d.controls.scope.trigger_source@ + " "@ + d.controls.scope.trigger_slope@
            && files::opt_text(meas) == first_readout(d.controls.scope.meas_results@, 0),
        InstrumentKind::DcSource => face matches TwinFace::DcSource { rows } && rows@.len()
            == controls::channel_count(d.capabilities.channels as int) && forall|i: int|
            0 <= i < rows@.len() ==> is_source_row(#[trigger] rows@[i], d, latest, i),
        InstrumentKind::ElectronicLoad => face matches TwinFace::Load {
            mode,
            level,
            input,
            voltage,
            current,
            power,
        } && mode@ == d.controls.load.mode@ && level == d.controls.load.level && input
            == d.controls.load.input && measure_view(voltage) == measured(
            latest,
            d.id,
            "Voltage"@,
        ) && measure_view(current) == measured(latest, d.id, "Current"@) && measure_view(power)
            == measured(latest, d.id, "Power"@),
        InstrumentKind::Multimeter => face matches TwinFace::Dmm {
            function,
            unit,
            autorange,
            reading,
        } && function@ == d.controls.meter.function.label@ && unit@
            == d.controls.meter.function.unit@ && autorange == d.controls.meter.autorange
            && measure_view(reading) == meter_reading(d, latest),
        InstrumentKind::DebugProbe => face matches TwinFace::Probe { chip, rtt, rtt_ch, speed_khz }
            && chip@ == (if text::trimmed(d.controls.probe.chip@).len() == 0 {
            "AUTO"@
        } else {
            d.controls.probe.chip@
        }) && rtt == d.controls.probe.rtt_on && rtt_ch == d.controls.probe.rtt_channel && speed_khz
            == d.controls.probe.speed_khz,
        InstrumentKind::UsbBridge => face matches TwinFace::Bridge {
            tab,
            spi_hz,
            spi_mode,
            i2c_addr,
            gpio_pin,
            gpio_out,
            gpio_value,
        } && tab == d.controls.bridge.tab && spi_hz == d.controls.bridge.spi_hz && spi_mode
            == d.controls.bridge.spi_mode && i2c_addr@ == d.controls.bridge.i2c_addr@ && gpio_pin
            == d.controls.bridge.gpio_pin && gpio_out == d.controls.bridge.gpio_out && gpio_value
            == d.controls.bridge.gpio_value,
        InstrumentKind::Generic => face matches TwinFace::Generic { cmd } && cmd@
            == d.controls.console@,
    }
}

fn clone_flags(v: &Vec<bool>) -> (r: Vec<bool>)
    ensures
        r@ == v@,
{
    let mut r: Vec<bool> = Vec::new();
    let mut i: usize = 0;
    while i < v.len()
        invariant
            i <= v@.len(),
            r@ == v@.take(i as int),
        decreases v@.len() - i,
    {
        r.push(v[i]);
        assert(v@.take(i + 1) =~= v@.take(i as int).push(v@[i as int]));
        i = i + 1;
    }
    assert(v@.take(i as int) =~= v@);
    r
}

fn channel_pair(latest: &Vec<LatestReading>, id: u64, channel: usize, quantity: &str) -> (r: Option<
    Measure,
>)
    requires
        channel < controls::MAX_CHANNELS,
    ensures
        measure_view(r) == measured(
            latest@,
            id,
            waveform::channel_name((channel + 1) as u8) + quantity@,
        ),
{
    let mut name = waveform::channel_text((channel + 1) as u8);
    name.append(quantity);
    latest_pair(latest, id, name.as_str())
}

fn source_rows(d: &DeviceUi, latest: &Vec<LatestReading>) -> (rows: Vec<TwinSourceCh>)
    requires
        d.controls.source.wf(),
    ensures
        rows@.len() == controls::channel_count(d.capabilities.channels as int),
        forall|i: int| 0 <= i < rows@.len() ==> is_source_row(#[trigger] rows@[i], *d, latest@, i),
{
    let n: usize = controls::shown_channels(d.capabilities.channels);
    let mut rows: Vec<TwinSourceCh> = Vec::new();
    let mut i: usize = 0;
    while i < n
        invariant
            i <= n <= controls::MAX_CHANNELS,
            d.controls.source.wf(),
            rows@.len() == i,
            forall|k: int| 0 <= k < i ==> is_source_row(#[trigger] rows@[k], *d, latest@, k),
        decreases n - i,
    {
        rows.push(
            TwinSourceCh {
                on: d.controls.source.outputs[i],
                set_v: d.controls.source.voltages[i],
                set_i: d.controls.source.currents[i],
                meas_v: channel_pair(latest, d.id, i, " Voltage"),
                meas_i: channel_pair(latest, d.id, i, " Current"),
                meas_w: channel_pair(latest, d.id, i, " Power"),
            },
        );
        i = i + 1;
    }
    rows
}

fn find_meter_reading(d: &DeviceUi, latest: &Vec<LatestReading>) -> (r: Option<Measure>)
    ensures
        measure_view(r) == meter_reading(*d, latest@),
{
    let own = latest_pair(latest, d.id, d.controls.meter.function.scpi.as_str());
    if own.is_some() {
        return own;
    }
    let named = latest_pair(latest, d.id, "Reading");
    if named.is_some() {
        return named;
    }
    match find_first_of_device(latest, d.id) {
        Some(i) => Some(
            Measure {
                value: latest[i].reading.value,
                unit: latest[i].reading.unit.clone(),
            },
        ),
        None => None,
    }
}

/// The front panel of an instrument.
pub fn twin_face_of(d: &DeviceUi, latest: &Vec<LatestReading>) -> (r: TwinFace)
    requires
        d.controls.scope.wf(),
        d.controls.source.wf(),
    ensures
        is_face(r, *d, latest@),
{
    match d.kind {
        InstrumentKind::Oscilloscope => TwinFace::Scope {
            channels: controls::shown_channels(d.capabilities.channels),
            channel_on: clone_flags(&d.controls.scope.channel_on),
            timebase: d.controls.scope.timebase,
            trigger: text::join3(
                d.controls.scope.trigger_source.as_str(),
                " ",
                d.controls.scope.trigger_slope.as_str(),
            ),
            meas: find_readout(&d.controls.scope.meas_results),
        },
        InstrumentKind::DcSource => TwinFace::DcSource { rows: source_rows(d, latest) },
        InstrumentKind::ElectronicLoad => TwinFace::Load {
            mode: d.controls.load.mode.clone(),
            level: d.controls.load.level,
            input: d.controls.load.input,
            voltage: latest_pair(latest, d.id, "Voltage"),
            current: latest_pair(latest, d.id, "Current"),
            power: latest_pair(latest, d.id, "Power"),
        },
        InstrumentKind::Multimeter => TwinFace::Dmm {
            function: d.controls.meter.function.label.clone(),
            unit: d.controls.meter.function.unit.clone(),
            autorange: d.controls.meter.autorange,
            reading: find_meter_reading(d, latest),
        },
        InstrumentKind::DebugProbe => TwinFace::Probe {
            chip: if text::is_blank(d.controls.probe.chip.as_str()) {
                "AUTO".to_owned()
            } else {
                d.controls.probe.chip.clone()
            },
            rtt: d.controls.probe.rtt_on,
            rtt_ch: d.controls.probe.rtt_channel,
            speed_khz: d.controls.probe.speed_khz,
        },
        InstrumentKind::UsbBridge => TwinFace::Bridge {
            tab: d.controls.bridge.tab,
            spi_hz: d.controls.bridge.spi_hz,
            spi_mode: d.controls.bridge.spi_mode,
            i2c_addr: d.controls.bridge.i2c_addr.clone(),
            gpio_pin: d.controls.bridge.gpio_pin,
            gpio_out: d.controls.bridge.gpio_out,
            gpio_value: d.controls.bridge.gpio_value,
        },
        InstrumentKind::Generic => TwinFace::Generic { cmd: d.controls.console.clone() },
    }
}

/// The place of the `i`th of `n` points that stand for a waveform of `len` points.
pub open spec fn spread_place(i: int, len: int, n: int) -> int {
    i * (len - 1) / (n - 1)
}

/// Law: the points that stand for a waveform run from its first to its last, in order.
pub proof fn law_spread_covers_the_waveform(i: int, j: int, len: int, n: int)
    requires
        0 <= i <= j < n,
        n >= 2,
        0 < len,
    ensures
        0 <= spread_place(i, len, n) <= spread_place(j, len, n) < len,
        spread_place(0, len, n) == 0,
        spread_place(n - 1, len, n) == len - 1,
{
    assert(0 <= i * (len - 1) <= j * (len - 1) <= (n - 1) * (len - 1)) by (nonlinear_arith)
        requires
            0 <= i <= j <= n - 1,
            0 < len,
    ;
    vstd::arithmetic::div_mod::lemma_div_is_ordered(0, i * (len - 1), n - 1);
    vstd::arithmetic::div_mod::lemma_div_is_ordered(i * (len - 1), j * (len - 1), n - 1);
    vstd::arithmetic::div_mod::lemma_div_is_ordered(j * (len - 1), (n - 1) * (len - 1), n - 1);
    assert((n - 1) * (len - 1) / (n - 1) == len - 1) by (nonlinear_arith)
        requires
            n >= 2,
    ;
    assert(0 * (len - 1) == 0);
}

/// The places of the `n` points that stand for a waveform of `len` points, evenly spread from
/// its first to its last; none for an empty waveform.
pub fn downsample_places(len: usize, n: usize) -> (r: Vec<usize>)
    requires
        n * len <= usize::MAX,
    ensures
        len == 0 || n < 2 ==> r@.len() == 0,
        len > 0 && n >= 2 ==> {
            &&& r@.len() == n
            &&& forall|i: int|
                0 <= i < n ==> (#[trigger] r@[i]) == spread_place(i, len as int, n as int)
                    && r@[i] < len
        },
{
    let mut r: Vec<usize> = Vec::new();
    if len == 0 || n < 2 {
        return r;
    }
    let mut i: usize = 0;
    while i < n
        invariant
            i <= n,
            2 <= n,
            0 < len,
            n * len <= usize::MAX,
            r@.len() == i,
            forall|k: int|
                0 <= k < i ==> (#[trigger] r@[k]) == spread_place(k, len as int, n as int)
                    && r@[k] < len,
        decreases n - i,
    {
        assert(i * (len - 1) <= n * len) by (nonlinear_arith)
            requires
                0 <= i < n,
                0 < len,
        ;
        proof {
            law_spread_covers_the_waveform(i as int, i as int, len as int, n as int);
        }
        r.push(i * (len - 1) / (n - 1));
        i = i + 1;
    }
    r
}

// ---------------------------------------------------------------------------
// The inventory
// ---------------------------------------------------------------------------

/// An address of the inventory: its place, and whether an instrument is connected there.
#[derive(Debug, Clone, Copy, PartialEq, Eq, Structural)]
pub struct ListedResource {
    pub place: usize,
    pub connected: bool,
}

/// What there is on the bench, by the places of the instruments and the addresses.
pub struct Inventory {
    pub devices: Vec<usize>,
    pub resources: Vec<ListedResource>,
    pub sessions: usize,
    pub live: usize,
}

/// Whether a kind passes a filter.
pub open spec fn passes(filter: Option<InstrumentKind>, kind: Option<InstrumentKind>) -> bool {
    filter matches Some(k) ==> kind == Some(k)
}

/// The places among the first `n` instruments that pass.
pub open spec fn passing_devices(
    devices: Seq<DeviceUi>,
    filter: Option<InstrumentKind>,
    n: int,
) -> Seq<usize>
    decreases n,
{
    if n <= 0 {
        Seq::empty()
    } else if passes(filter, Some(devices[n - 1].kind)) {
        passing_devices(devices, filter, n - 1).push((n - 1) as usize)
    } else {
        passing_devices(devices, filter, n - 1)
    }
}

/// The addresses among the first `n` that pass.
pub open spec fn passing_resources(
    resources: Seq<ResourceInfo>,
    devices: Seq<DeviceUi>,
    filter: Option<InstrumentKind>,
    n: int,
) -> Seq<ListedResource>
    decreases n,
{
    if n <= 0 {
        Seq::empty()
    } else if passes(filter, resources[n - 1].kind) {
        passing_resources(resources, devices, filter, n - 1).push(
            ListedResource {
                place: (n - 1) as usize,
                connected: rack::address_connected(devices, resources[n - 1].address@),
            },
        )
    } else {
        passing_resources(resources, devices, filter, n - 1)
    }
}

fn kind_passes(filter: Option<InstrumentKind>, kind: Option<InstrumentKind>) -> (r: bool)
    ensures
        r == passes(filter, kind),
{
    match filter {
        Some(k) => match kind {
            Some(other) => other == k,
            None => false,
        },
        None => true,
    }
}

impl InstrumentControlPanel {
    /// What there is on the bench, of one kind or of all; the totals count everything.
    pub fn api_list(&self, filter: Option<InstrumentKind>) -> (r: Inventory)
        ensures
            r.devices@ == passing_devices(
                self.rack.devices@,
                filter,
                self.rack.devices@.len() as int,
            ),
            r.resources@ == passing_resources(
                self.rack.resources@,
                self.rack.devices@,
                filter,
                self.rack.resources@.len() as int,
            ),
            r.sessions == self.rack.devices@.len(),
            r.live == bench_api::live_count(
                self.rack.devices@,
                self.rack.devices@.len() as int,
            ),
    {
        let mut devices: Vec<usize> = Vec::new();
        let mut i: usize = 0;
        while i < self.rack.devices.len()
            invariant
                i <= self.rack.devices@.len(),
                devices@ == passing_devices(self.rack.devices@, filter, i as int),
            decreases self.rack.devices@.len() - i,
        {
            if kind_passes(filter, Some(self.rack.devices[i].kind)) {
                devices.push(i);
            }
            i = i + 1;
        }
        let mut resources: Vec<ListedResource> = Vec::new();
        let mut k: usize = 0;
        while k < self.rack.resources.len()
            invariant
                k <= self.rack.resources@.len(),
                resources@ == passing_resources(
                    self.rack.resources@,
                    self.rack.devices@,
                    filter,
                    k as int,
                ),
            decreases self.rack.resources@.len() - k,
        {
            if kind_passes(filter, self.rack.resources[k].kind) {
                let connected: bool = rack::is_connected(
                    &self.rack.devices,
                    self.rack.resources[k].address.as_str(),
                );
                resources.push(ListedResource { place: k, connected });
            }
            k = k + 1;
        }
        Inventory {
            devices,
            resources,
            sessions: self.rack.devices.len(),
            live: self.live_total(),
        }
    }

    /// What there is on the bench.
    pub fn api_overview(&self) -> (r: Inventory)
        ensures
            r.devices@ == passing_devices(
                self.rack.devices@,
                None,
                self.rack.devices@.len() as int,
            ),
            r.resources@ == passing_resources(
                self.rack.resources@,
                self.rack.devices@,
                None,
                self.rack.resources@.len() as int,
            ),
            r.sessions == self.rack.devices@.len(),
            r.live == bench_api::live_count(
                self.rack.devices@,
                self.rack.devices@.len() as int,
            ),
    {
        self.api_list(None)
    }
}

/// Law: without a filter the inventory lists every instrument.
pub proof fn law_inventory_lists_everything(devices: Seq<DeviceUi>, n: int)
    requires
        0 <= n <= devices.len() <= usize::MAX,
    ensures
        passing_devices(devices, None, n).len() == n,
        forall|k: int| 0 <= k < n ==> #[trigger] passing_devices(devices, None, n)[k] == k,
    decreases n,
{
    if n > 0 {
        law_inventory_lists_everything(devices, n - 1);
    }
}

// ---------------------------------------------------------------------------
// What holds of the overview
// ---------------------------------------------------------------------------

/// Law: long work is shown before sampling, sampling before what is switched on, and standby only
/// where there is none of these. Sampling that is paused is held.
pub proof fn law_work_is_shown_first(
    s: RuntimeStatus,
    d: DeviceUi,
    busy: Option<u64>,
    label: Seq<char>,
)
    requires
        does(s, d, busy, label),
    ensures
        s is Busy <==> busy is Some && busy->0 == d.id,
        s is Busy ==> s->Busy_0@ == label,
        busy != Some(d.id) ==> {
            &&& s is Hold <==> d.acquiring && d.paused
            &&& s is Live <==> d.acquiring && !d.paused
            &&& !d.acquiring && d.controls.probe.rtt_on ==> s is Printing
            &&& !d.acquiring && !d.controls.probe.rtt_on && d.controls.source.outputs@.contains(
                true,
            ) ==> s is Output
            &&& !d.acquiring && !d.controls.probe.rtt_on && !d.controls.source.outputs@.contains(
                true,
            ) && d.controls.load.input ==> s is Sink
            &&& s is Standby <==> !d.acquiring && !d.controls.probe.rtt_on
                && !d.controls.source.outputs@.contains(true) && !d.controls.load.input
        },
{
}

/// Law: every state has its own word, and long work shows what it is, unless that is blank.
pub proof fn law_states_are_told_apart(a: RuntimeStatus, b: RuntimeStatus, label: String)
    ensures
        runtime_key(a) == runtime_key(b) ==> (a is Busy <==> b is Busy) && (a is Hold <==> b is Hold)
            && (a is Live <==> b is Live) && (a is Output <==> b is Output) && (a is Sink <==> b
            is Sink) && (a is Printing <==> b is Printing),
        runtime_key(RuntimeStatus::Live) == "live"@,
        runtime_key(RuntimeStatus::Hold) == "hold"@,
        runtime_key(RuntimeStatus::Output) == "output"@,
        runtime_key(RuntimeStatus::Sink) == "sink"@,
        runtime_key(RuntimeStatus::Printing) == "rtt"@,
        runtime_key(RuntimeStatus::Standby) == "standby"@,
        runtime_key(RuntimeStatus::Busy(label)) == "busy"@,
        forall|lang: Lang|
            text::trimmed(label@).len() > 0 ==> #[trigger] runtime_text(
                RuntimeStatus::Busy(label),
                lang,
            ) == label@,
        runtime_text(RuntimeStatus::Hold, Lang::En) == "HOLD"@,
        runtime_text(RuntimeStatus::Live, Lang::En) == "LIVE"@,
        runtime_text(RuntimeStatus::Output, Lang::En) == "OUTPUT"@,
        runtime_text(RuntimeStatus::Sink, Lang::En) == "SINK"@,
        runtime_text(RuntimeStatus::Printing, Lang::En) == "RTT"@,
        runtime_text(RuntimeStatus::Standby, Lang::En) == "STANDBY"@,
{
    reveal_strlit("busy");
    reveal_strlit("hold");
    reveal_strlit("live");
    reveal_strlit("rtt");
    reveal_strlit("output");
    reveal_strlit("sink");
    reveal_strlit("standby");
    assert("busy"@[0] == 'b' && "hold"@[0] == 'h' && "live"@[0] == 'l' && "rtt"@[0] == 'r');
    assert("output"@[0] == 'o' && "sink"@[0] == 's' && "standby"@[0] == 's');
    assert("sink"@.len() == 4 && "standby"@.len() == 7);
}

/// Law: the channels that are on are listed by their names in order, with a blank between two,
/// and no others are.
pub proof fn law_channels_that_are_on_are_listed(on: Seq<bool>, more: bool)
    requires
        on.len() < 255,
    ensures
        ({
            let n = on.len() as int;
            let front = on_channels(on, n);
            let all = on_channels(on.push(more), n + 1);
            &&& !more ==> all == front
            &&& more && front.len() == 0 ==> all == "CH"@ + text::decimal((n + 1) as nat)
            &&& more && front.len() > 0 ==> all == front + " "@ + ("CH"@ + text::decimal(
                (n + 1) as nat,
            ))
        }),
        on_channels(Seq::empty(), 0).len() == 0,
{
    lemma_on_channels_prefix(on, on.push(more), on.len() as int);
}

proof fn lemma_on_channels_prefix(a: Seq<bool>, b: Seq<bool>, n: int)
    requires
        0 <= n <= a.len(),
        n <= b.len(),
        forall|i: int| 0 <= i < n ==> #[trigger] a[i] == b[i],
    ensures
        on_channels(a, n) == on_channels(b, n),
    decreases n,
{
    if n > 0 {
        lemma_on_channels_prefix(a, b, n - 1);
        assert(a[n - 1] == b[n - 1]);
    }
}

/// Law: the readout that is shown is the first that there is.
pub proof fn law_first_readout_is_shown(results: Seq<Option<String>>, i: int)
    ensures
        0 <= i < results.len() && results[i] is Some && (forall|k: int|
            0 <= k < i ==> (#[trigger] results[k]) is None) ==> first_readout(results, 0) == Some(
            results[i]->0@,
        ),
        (forall|k: int| 0 <= k < results.len() ==> (#[trigger] results[k]) is None)
            ==> first_readout(results, 0) is None,
{
    lemma_first_readout(results, i, 0);
}

proof fn lemma_first_readout(results: Seq<Option<String>>, i: int, from: int)
    requires
        0 <= from <= results.len(),
    ensures
        from <= i < results.len() && results[i] is Some && (forall|k: int|
            from <= k < i ==> (#[trigger] results[k]) is None) ==> first_readout(results, from)
            == Some(results[i]->0@),
        (forall|k: int| from <= k < results.len() ==> (#[trigger] results[k]) is None)
            ==> first_readout(results, from) is None,
    decreases results.len() - from,
{
    if from < results.len() && results[from] is None {
        lemma_first_readout(results, i, from + 1);
    }
}

/// Law: a value is looked up by its instrument and channel; where none was measured, what is set
/// stands in.
pub proof fn law_measured_value_is_shown(
    latest: Seq<LatestReading>,
    id: u64,
    channel: int,
    quantity: Seq<char>,
    set: Real,
)
    requires
        0 <= channel < 4,
    ensures
        ({
            let name = "CH"@ + text::decimal((channel + 1) as nat) + quantity;
            let r = shown_value(latest, id, channel, quantity, set);
            &&& (forall|k: int|
                0 <= k < latest.len() ==> (#[trigger] latest[k]).id != id
                    || latest[k].reading.channel@ != name) ==> r == set
            &&& r == set || exists|k: int|
                0 <= k < latest.len() && (#[trigger] latest[k]).id == id
                    && latest[k].reading.channel@ == name && r == latest[k].reading.value
        }),
        measured(latest, id, quantity) matches Some(m) ==> exists|k: int|
            0 <= k < latest.len() && (#[trigger] latest[k]).id == id
                && latest[k].reading.channel@ == quantity && m == (
                latest[k].reading.value,
                latest[k].reading.unit@,
            ),
        measured(latest, id, quantity) is None <==> forall|k: int|
            0 <= k < latest.len() ==> (#[trigger] latest[k]).id != id
                || latest[k].reading.channel@ != quantity,
{
    let name = waveform::channel_name((channel + 1) as u8) + quantity;
    assert(name == "CH"@ + text::decimal((channel + 1) as nat) + quantity);
    lemma_reading_at(latest, id, name, 0);
    lemma_reading_at(latest, id, quantity, 0);
}

proof fn lemma_reading_at(latest: Seq<LatestReading>, id: u64, channel: Seq<char>, i: int)
    requires
        0 <= i <= latest.len(),
    ensures
        match bench::reading_at(latest, id, channel, i) {
            Some(k) => i <= k < latest.len() && latest[k].id == id
                && latest[k].reading.channel@ == channel,
            None => forall|k: int|
                i <= k < latest.len() ==> (#[trigger] latest[k]).id != id
                    || latest[k].reading.channel@ != channel,
        },
    decreases latest.len() - i,
{
    if i < latest.len() && !(latest[i].id == id && latest[i].reading.channel@ == channel) {
        lemma_reading_at(latest, id, channel, i + 1);
    }
}

/// Law: the first value of an instrument is one of its own, and there is one wherever there is a
/// value of it.
pub proof fn law_first_value_is_of_the_instrument(latest: Seq<LatestReading>, id: u64, i: int)
    requires
        0 <= i <= latest.len(),
    ensures
        match first_of_device(latest, id, i) {
            Some(k) => i <= k < latest.len() && latest[k].id == id && forall|j: int|
                i <= j < k ==> (#[trigger] latest[j]).id != id,
            None => forall|j: int| i <= j < latest.len() ==> (#[trigger] latest[j]).id != id,
        },
    decreases latest.len() - i,
{
    if i < latest.len() && latest[i].id != id {
        law_first_value_is_of_the_instrument(latest, id, i + 1);
    }
}

/// Law: a scope shows its channels, its time base and its trigger, and then a readout where there
/// is one; with no channel on it shows a dash.
pub proof fn law_scope_shows_channels_timebase_and_trigger(d: DeviceUi)
    ensures
        ({
            let c = d.controls.scope;
            let lines = scope_lines(Lang::En, d);
            let on = on_channels(c.channel_on@, 4);
            &&& lines[0] == ("CH"@, ValueView::Words(
                if on.len() == 0 {
                    "—"@
                } else {
                    on
                },
            ))
            &&& lines[1] == ("s/div"@, ValueView::Scientific(c.timebase))
            &&& lines[2] == ("TRG"@, ValueView::Trigger {
                source: c.trigger_source@,
                slope: c.trigger_slope@,
                level: c.trigger_level,
            })
            &&& first_readout(c.meas_results@, 0) is None ==> lines.len() == 3
            &&& first_readout(c.meas_results@, 0) is Some ==> lines.len() == 4 && lines[3] == (
                "MEAS"@,
                ValueView::Words(first_readout(c.meas_results@, 0)->0),
            )
        }),
{
}

/// Law: a source shows a line for each channel, in order, with its voltage, its current and
/// whether it is on; voltage and current are the measured ones where there are such.
pub proof fn law_source_shows_its_channels(d: DeviceUi, latest: Seq<LatestReading>, n: int, i: int)
    requires
        0 <= i < n <= 4,
    ensures
        source_lines(d, latest, n).len() == n,
        source_lines(d, latest, n)[i].0 == "CH"@ + text::decimal((i + 1) as nat),
        source_lines(d, latest, n)[i].1 == (ValueView::Output {
            volts: shown_value(latest, d.id, i, " Voltage"@, d.controls.source.voltages@[i]),
            amps: shown_value(latest, d.id, i, " Current"@, d.controls.source.currents@[i]),
            on: d.controls.source.outputs@[i],
        }),
    decreases n,
{
    lemma_source_line_count(d, latest, n - 1);
    if i < n - 1 {
        law_source_shows_its_channels(d, latest, n - 1, i);
    }
}

proof fn lemma_source_line_count(d: DeviceUi, latest: Seq<LatestReading>, n: int)
    requires
        0 <= n,
    ensures
        source_lines(d, latest, n).len() == n,
    decreases n,
{
    if n > 0 {
        lemma_source_line_count(d, latest, n - 1);
    }
}

/// Law: a load shows its mode, its level and whether it sinks; a meter its function, and a
/// reading of its own where there is one; a probe its target and its output; a bridge its bus and
/// what is set for it; any other instrument the command line.
pub proof fn law_instruments_show_what_is_set(d: DeviceUi, latest: Seq<LatestReading>)
    ensures
        ({
            let lines = load_lines(Lang::En, d);
            &&& lines.len() == 3
            &&& lines[0] == ("MODE"@, ValueView::Words(d.controls.load.mode@))
            &&& lines[1] == ("LVL"@, ValueView::Level(d.controls.load.level))
            &&& lines[2] == ("INP"@, ValueView::Words(
                if d.controls.load.input {
                    "ON"@
                } else {
                    "OFF"@
                },
            ))
        }),
        ({
            let lines = meter_lines(Lang::En, d, latest);
            &&& lines[0] == ("FUNC"@, ValueView::Words(d.controls.meter.function.label@))
            &&& lines.len() == 2 <==> exists|k: int|
                0 <= k < latest.len() && (#[trigger] latest[k]).id == d.id
            &&& lines.len() == 2 ==> lines[1].0 == "READ"@ && exists|k: int|
                0 <= k < latest.len() && (#[trigger] latest[k]).id == d.id && lines[1].1 == (
                ValueView::Measured {
                    value: latest[k].reading.value,
                    unit: latest[k].reading.unit@,
                })
            &&& lines.len() == 1 || lines.len() == 2
        }),
        ({
            let c = d.controls.probe;
            let lines = probe_lines(Lang::En, d);
            &&& lines[0].0 == "TGT"@ && lines[1].0 == "RTT"@
            &&& text::trimmed(c.chip@).len() > 0 ==> lines[0].1 == ValueView::Words(c.chip@)
            &&& text::trimmed(c.chip@).len() == 0 ==> lines[0].1 == ValueView::Words("DP / AUTO"@)
            &&& c.rtt_on ==> lines[1].1 == ValueView::Words(
                "CH"@ + text::decimal(c.rtt_channel as nat),
            )
            &&& !c.rtt_on ==> lines[1].1 == ValueView::Words("OFF"@)
            &&& c.flash_path@.len() == 0 ==> lines.len() == 2
            &&& c.flash_path@.len() > 0 ==> lines.len() == 3 && lines[2] == (
                "FW"@,
                ValueView::Words(c.flash_path@),
            )
        }),
        ({
            let c = d.controls.bridge;
            let lines = bridge_lines(Lang::En, d);
            &&& lines.len() == 2 && lines[0].0 == "BUS"@
            &&& c.tab == 0 ==> lines[0].1 == ValueView::Words("SPI"@) && lines[1] == (
                "SPI"@,
                ValueView::Words(
                    "m"@ + text::decimal(c.spi_mode as nat) + " "@ + text::decimal(c.spi_hz as nat)
                        + " Hz"@,
                ),
            )
            &&& c.tab == 1 ==> lines[0].1 == ValueView::Words("I2C"@) && lines[1] == (
                "I2C"@,
                ValueView::Words("0x"@ + c.i2c_addr@),
            )
            &&& c.tab == 2 ==> lines[0].1 == ValueView::Words("GPIO"@) && lines[1] == (
                "GPIO"@,
                ValueView::Words("P"@ + text::decimal(c.gpio_pin as nat)),
            )
        }),
        d.kind is Generic ==> kind_lines(Lang::En, d, latest) == seq![
            ("SCPI"@, ValueView::Words(d.controls.console@)),
        ],
        d.kind is Oscilloscope ==> kind_lines(Lang::En, d, latest) == scope_lines(Lang::En, d),
        d.kind is ElectronicLoad ==> kind_lines(Lang::En, d, latest) == load_lines(Lang::En, d),
        d.kind is Multimeter ==> kind_lines(Lang::En, d, latest) == meter_lines(
            Lang::En,
            d,
            latest,
        ),
        d.kind is DebugProbe ==> kind_lines(Lang::En, d, latest) == probe_lines(Lang::En, d),
        d.kind is UsbBridge ==> kind_lines(Lang::En, d, latest) == bridge_lines(Lang::En, d),
{
    law_first_value_is_of_the_instrument(latest, d.id, 0);
}

/// Law: a line that fills up the overview shows a value of the instrument itself.
pub proof fn law_filling_lines_show_own_values(
    base: Seq<(Seq<char>, ValueView)>,
    id: u64,
    latest: Seq<LatestReading>,
    n: int,
    j: int,
)
    requires
        0 <= n <= latest.len(),
        base.len() <= j < filled_up(base, id, latest, n).len(),
    ensures
        j < 4,
        exists|k: int|
            0 <= k < n && (#[trigger] latest[k]).id == id && filled_up(base, id, latest, n)[j] == (
                latest[k].reading.channel@,
                ValueView::Measured {
                    value: latest[k].reading.value,
                    unit: latest[k].reading.unit@,
                },
            ),
    decreases n,
{
    if n > 0 {
        let front = filled_up(base, id, latest, n - 1);
        if j < front.len() {
            law_filling_lines_show_own_values(base, id, latest, n - 1, j);
        } else {
            assert(latest[n - 1].id == id);
        }
    }
}

/// Law: an instrument is called by its model and told apart by its serial number; without a model
/// its kind is named, and without a serial number its address.
pub proof fn law_instrument_is_called_by_its_model(lang: Lang, d: DeviceUi)
    ensures
        text::trimmed(d.identity.model@).len() > 0 ==> name_shown(lang, d) == d.identity.model@,
        text::trimmed(d.identity.model@).len() == 0 ==> name_shown(lang, d) == chosen(
            lang,
            instrument::kind_names(d.kind),
        ),
        text::trimmed(d.identity.serial@).len() > 0 ==> mark_shown(d) == "SN "@
            + d.identity.serial@,
        text::trimmed(d.identity.serial@).len() == 0 ==> mark_shown(d) == files::elided(
            d.resource@,
            files::SHORT_RESOURCE_CHARS as int,
        ),
{
}

/// Law: the front panel of an instrument is that of its kind and shows its own settings; measured
/// voltage, current and power stand in their own places.
pub proof fn law_front_panel_shows_its_instrument(
    face: TwinFace,
    d: DeviceUi,
    latest: Seq<LatestReading>,
)
    requires
        is_face(face, d, latest),
    ensures
        face is Scope <==> d.kind is Oscilloscope,
        face is DcSource <==> d.kind is DcSource,
        face is Load <==> d.kind is ElectronicLoad,
        face is Dmm <==> d.kind is Multimeter,
        face is Probe <==> d.kind is DebugProbe,
        face is Bridge <==> d.kind is UsbBridge,
        face is Generic ==> face->cmd@ == d.controls.console@,
        face is Load ==> face->mode@ == d.controls.load.mode@ && face->level
            == d.controls.load.level && face->input == d.controls.load.input && measure_view(
            face->voltage,
        ) == measured(latest, d.id, "Voltage"@) && measure_view(face->current) == measured(
            latest,
            d.id,
            "Current"@,
        ) && measure_view(face->power) == measured(latest, d.id, "Power"@),
        face is Scope ==> face->channel_on@ == d.controls.scope.channel_on@ && face->timebase
            == d.controls.scope.timebase && face->trigger@ == d.controls.scope.trigger_source@
            + " "@ + d.controls.scope.trigger_slope@,
        face is Dmm ==> face->function@ == d.controls.meter.function.label@ && face->unit@
            == d.controls.meter.function.unit@ && face->autorange == d.controls.meter.autorange,
        face is DcSource ==> 1 <= face->rows@.len() <= 4 && forall|i: int|
            0 <= i < face->rows@.len() ==> {
                let row = #[trigger] face->rows@[i];
                &&& row.on == d.controls.source.outputs@[i]
                &&& row.set_v == d.controls.source.voltages@[i]
                &&& row.set_i == d.controls.source.currents@[i]
                &&& measure_view(row.meas_v) == measured(
                    latest,
                    d.id,
                    "CH"@ + text::decimal((i + 1) as nat) + " Voltage"@,
                )
                &&& measure_view(row.meas_i) == measured(
                    latest,
                    d.id,
                    "CH"@ + text::decimal((i + 1) as nat) + " Current"@,
                )
                &&& measure_view(row.meas_w) == measured(
                    latest,
                    d.id,
                    "CH"@ + text::decimal((i + 1) as nat) + " Power"@,
                )
            },
        face is Probe ==> face->rtt == d.controls.probe.rtt_on && face->rtt_ch
            == d.controls.probe.rtt_channel && face->speed_khz == d.controls.probe.speed_khz,
        face is Bridge ==> face->tab == d.controls.bridge.tab && face->spi_hz
            == d.controls.bridge.spi_hz && face->gpio_pin == d.controls.bridge.gpio_pin
            && face->gpio_out == d.controls.bridge.gpio_out && face->gpio_value
            == d.controls.bridge.gpio_value,
{
}

/// Law: a meter shows the value of its function where there is one, else its plain reading, else
/// any value of its own; and none only where there is no value of it.
pub proof fn law_meter_shows_its_function_first(d: DeviceUi, latest: Seq<LatestReading>)
    ensures
        ({
            let r = meter_reading(d, latest);
            let own = measured(latest, d.id, d.controls.meter.function.scpi@);
            let plain = measured(latest, d.id, "Reading"@);
            &&& own is Some ==> r == own
            &&& own is None && plain is Some ==> r == plain
            &&& r is None <==> forall|k: int|
                0 <= k < latest.len() ==> (#[trigger] latest[k]).id != d.id
            &&& r is Some ==> exists|k: int|
                0 <= k < latest.len() && (#[trigger] latest[k]).id == d.id && r->0 == (
                    latest[k].reading.value,
                    latest[k].reading.unit@,
                )
        }),
{
    lemma_reading_at(latest, d.id, d.controls.meter.function.scpi@, 0);
    lemma_reading_at(latest, d.id, "Reading"@, 0);
    law_first_value_is_of_the_instrument(latest, d.id, 0);
}

/// Law: the inventory of a kind lists the instruments of that kind, and the addresses known to be
/// of it, each at its place and in order; an address is marked where an instrument is connected
/// there.
pub proof fn law_inventory_lists_a_kind(
    devices: Seq<DeviceUi>,
    resources: Seq<ResourceInfo>,
    filter: Option<InstrumentKind>,
    n: int,
    m: int,
    k: int,
)
    requires
        0 <= n <= devices.len() <= usize::MAX,
        0 <= m <= resources.len() <= usize::MAX,
    ensures
        passes(None, None),
        passes(filter, Some(InstrumentKind::Generic)) <==> filter is None || filter->0 is Generic,
        0 <= k < n && (filter is None || filter->0 == devices[k].kind) ==> passing_devices(
            devices,
            filter,
            n,
        ).contains(k as usize),
        0 <= k < passing_devices(devices, filter, n).len() ==> ({
            let at = passing_devices(devices, filter, n)[k];
            at < n && (filter is Some ==> devices[at as int].kind == filter->0)
        }),
        0 <= k < m && (filter is None || resources[k].kind == filter) ==> passing_resources(
            resources,
            devices,
            filter,
            m,
        ).contains(
            ListedResource {
                place: k as usize,
                connected: exists|j: int|
                    0 <= j < devices.len() && (#[trigger] devices[j]).resource@
                        == resources[k].address@,
            },
        ),
        0 <= k < passing_resources(resources, devices, filter, m).len() ==> ({
            let at = passing_resources(resources, devices, filter, m)[k];
            at.place < m && (filter is Some ==> resources[at.place as int].kind == filter)
        }),
    decreases n + m,
{
    if n > 0 {
        law_inventory_lists_a_kind(devices, resources, filter, n - 1, m, k);
        let front = passing_devices(devices, filter, n - 1);
        let all = passing_devices(devices, filter, n);
        if front.contains(k as usize) {
            let j = choose|j: int| 0 <= j < front.len() && front[j] == k as usize;
            assert(all[j] == k as usize);
        }
        if passes(filter, Some(devices[n - 1].kind)) {
            assert(all[front.len() as int] == (n - 1) as usize);
        }
    }
    if m > 0 {
        law_inventory_lists_a_kind(devices, resources, filter, n, m - 1, k);
        let front = passing_resources(resources, devices, filter, m - 1);
        let all = passing_resources(resources, devices, filter, m);
        if 0 <= k < m && (filter is None || resources[k].kind == filter) {
            let entry = ListedResource {
                place: k as usize,
                connected: rack::address_connected(devices, resources[k].address@),
            };
            if k < m - 1 {
                let j = choose|j: int| 0 <= j < front.len() && front[j] == entry;
                assert(all[j] == entry);
            } else {
                assert(all[front.len() as int] == entry);
            }
        }
    }
}

/// Law: an instrument shows first the lines of its kind, all of them, and then values of its own
/// up to four lines.
pub proof fn law_overview_begins_with_the_kind(
    lang: Lang,
    d: DeviceUi,
    latest: Seq<LatestReading>,
    k: int,
)
    ensures
        kind_lines(lang, d, latest).len() <= param_lines(lang, d, latest).len(),
        0 <= k < kind_lines(lang, d, latest).len() ==> param_lines(lang, d, latest)[k]
            == kind_lines(lang, d, latest)[k],
        kind_lines(lang, d, latest).len() <= 4 ==> param_lines(lang, d, latest).len() <= 4,
{
    lemma_filled_up_keeps(kind_lines(lang, d, latest), d.id, latest, latest.len() as int);
}

proof fn lemma_filled_up_keeps(
    base: Seq<(Seq<char>, ValueView)>,
    id: u64,
    latest: Seq<LatestReading>,
    n: int,
)
    requires
        0 <= n <= latest.len(),
    ensures
        base.len() <= filled_up(base, id, latest, n).len(),
        base.len() <= 4 ==> filled_up(base, id, latest, n).len() <= 4,
        forall|k: int|
            0 <= k < base.len() ==> #[trigger] filled_up(base, id, latest, n)[k] == base[k],
    decreases n,
{
    if n > 0 {
        lemma_filled_up_keeps(base, id, latest, n - 1);
    }
}

/// Law: what works is green, what waits for its user is orange, long work is yellow.
pub proof fn law_states_have_their_colours(label: String)
    ensures
        runtime_color(RuntimeStatus::Live) == (0x30u8, 0xd1u8, 0x58u8),
        runtime_color(RuntimeStatus::Output) == runtime_color(RuntimeStatus::Live),
        runtime_color(RuntimeStatus::Sink) == runtime_color(RuntimeStatus::Live),
        runtime_color(RuntimeStatus::Hold) == (0xffu8, 0x9fu8, 0x0au8),
        runtime_color(RuntimeStatus::Busy(label)) == (0xffu8, 0xd6u8, 0x0au8),
        runtime_color(RuntimeStatus::Printing) == (0x4au8, 0xe3u8, 0xffu8),
        runtime_color(RuntimeStatus::Standby) == (0x7au8, 0xc8u8, 0xe0u8),
{
}

} // verus!
