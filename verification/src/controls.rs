//! The controls of the instruments: what is set, and which commands a control sends.
use vstd::prelude::*;
use vstd::string::*;

use crate::text;

verus! {

/// A real number, carried by its bits.
#[derive(Debug, Clone, Copy, PartialEq, Eq, Structural)]
pub struct Real {
    pub bits: u64,
}

/// A function of a meter: its label, its unit and its name in commands.
#[derive(Debug, Clone)]
pub struct MeterFunction {
    pub label: String,
    pub unit: String,
    pub scpi: String,
}

/// A command to an instrument.
#[derive(Debug, Clone)]
pub enum ControlCommand {
    ScopeRun,
    ScopeStop,
    ScopeSingle,
    ScopeAutoset,
    ScopeTimebase(Real),
    ScopeTrigger { source: String, level: Real, slope: String },
    ScopeChannel { channel: u8, enabled: bool },
    /// The vertical scale, by its place on the ladder of scales.
    ScopeScale { channel: u8, step: usize },
    /// The vertical position, in quarters of a division.
    ScopePosition { channel: u8, quarters: i8 },
    ScopeMeasure { channel: u8, meas_type: String },
    SourceVoltage { channel: u8, value: Real },
    SourceCurrent { channel: u8, value: Real },
    SourceOvp { channel: u8, value: Real },
    SourceOcp { channel: u8, value: Real },
    SourceOutput { channel: u8, enabled: bool },
    LoadMode(String),
    LoadLevel { mode: String, value: Real },
    LoadInput(bool),
    DmmFunction(MeterFunction),
    DmmAutoRange { function: MeterFunction, enabled: bool },
    DmmRange { function: MeterFunction, value: Real },
    DmmNplc { function: MeterFunction, value: Real },
    ProbeAttach { target: String },
    ProbeHalt,
    ProbeRun,
    ProbeReset { hardware: bool },
    ProbeStatus,
    ProbeRegs,
    ProbeErase,
    ProbeSpeed { khz: u32 },
    ProbeFlash { path: String, verify: bool },
    ProbeMemRead { address: String, len: u32 },
    ProbeMemWrite { address: String, data_hex: String },
    ProbeRttStart { up_channel: u32 },
    ProbeRttStop,
    BridgeI2c { addr: String, write_hex: String, read_len: u32, clock_hz: u32 },
    BridgeGpio { pin: u8, dir: Option<bool>, value: Option<bool> },
    BridgeSpi { mode: u8, clock_hz: u32, cs: u8, write_hex: String, read_len: u32 },
    BridgeInfo,
    Clear,
    Reset,
    RawQuery(String),
    RawWrite(String),
}

/// How many channels an instrument can have here.
pub const MAX_CHANNELS: usize = 4;

/// How many channels are shown for an instrument that reports `channels`: one to four.
pub open spec fn channel_count(channels: int) -> int {
    if channels < 1 {
        1
    } else if channels > MAX_CHANNELS {
        MAX_CHANNELS as int
    } else {
        channels
    }
}

/// How many channels are shown for an instrument.
pub fn shown_channels(channels: u8) -> (r: usize)
    ensures
        r == channel_count(channels as int),
        1 <= r <= MAX_CHANNELS,
{
    if channels < 1 {
        1
    } else if channels as usize > MAX_CHANNELS {
        MAX_CHANNELS
    } else {
        channels as usize
    }
}

// ---------------------------------------------------------------------------
// The ladder of vertical scales
// ---------------------------------------------------------------------------

/// How many vertical scales there are.
pub const SCALE_COUNT: usize = 13;

/// The place of one volt per division on the ladder.
pub const ONE_VOLT_STEP: usize = 9;

/// A vertical scale in microvolts per division: 1, 2, 5 and so on, from a millivolt up.
pub open spec fn scale_microvolts(step: int) -> int {
    let digit: int = if step % 3 == 0 {
        1
    } else if step % 3 == 1 {
        2
    } else {
        5
    };
    if step < 3 {
        digit * 1_000
    } else if step < 6 {
        digit * 10_000
    } else if step < 9 {
        digit * 100_000
    } else if step < 12 {
        digit * 1_000_000
    } else {
        digit * 10_000_000
    }
}

/// A vertical scale in microvolts per division.
pub fn scale_value(step: usize) -> (r: u64)
    requires
        step < SCALE_COUNT,
    ensures
        r == scale_microvolts(step as int),
{
    let digit: u64 = if step % 3 == 0 {
        1
    } else if step % 3 == 1 {
        2
    } else {
        5
    };
    if step < 3 {
        digit * 1_000
    } else if step < 6 {
        digit * 10_000
    } else if step < 9 {
        digit * 100_000
    } else if step < 12 {
        digit * 1_000_000
    } else {
        digit * 10_000_000
    }
}

/// Law: the ladder of scales only rises.
pub proof fn law_scales_rise(a: int, b: int)
    requires
        0 <= a < b < SCALE_COUNT,
    ensures
        scale_microvolts(a) < scale_microvolts(b),
    decreases b - a,
{
    if a + 1 < b {
        law_scales_rise(a, b - 1);
    }
    assert(scale_microvolts(b - 1) < scale_microvolts(b)) by {
        if b == 1 || b == 4 || b == 7 || b == 10 {
            assert((b - 1) % 3 == 0 && b % 3 == 1);
        } else if b == 2 || b == 5 || b == 8 || b == 11 {
            assert((b - 1) % 3 == 1 && b % 3 == 2);
        } else {
            assert((b - 1) % 3 == 2 && b % 3 == 0);
        }
    }
}

/// The next place on the ladder in a direction; the ends stay.
pub open spec fn next_step(step: int, direction: int) -> int {
    if direction > 0 {
        if step + 1 < SCALE_COUNT {
            step + 1
        } else {
            SCALE_COUNT - 1
        }
    } else if direction < 0 {
        if step > 0 {
            step - 1
        } else {
            0
        }
    } else {
        step
    }
}

/// The next place on the ladder in a direction.
pub fn nearest_scale_step(step: usize, direction: i32) -> (r: usize)
    requires
        step < SCALE_COUNT,
    ensures
        r == next_step(step as int, direction as int),
        r < SCALE_COUNT,
{
    if direction > 0 {
        if step + 1 < SCALE_COUNT {
            step + 1
        } else {
            SCALE_COUNT - 1
        }
    } else if direction < 0 {
        if step > 0 {
            step - 1
        } else {
            0
        }
    } else {
        step
    }
}

/// Law: a step up and a step down cancel, but at the end of the ladder.
pub proof fn law_scale_steps_cancel(step: int)
    requires
        0 <= step < SCALE_COUNT,
    ensures
        step + 1 < SCALE_COUNT ==> next_step(next_step(step, 1), -1) == step,
        step > 0 ==> next_step(next_step(step, -1), 1) == step,
{
}

/// A vertical scale as it is shown: whole volts, or millivolts marked by `m`.
pub open spec fn scale_label(step: int) -> Seq<char> {
    if scale_microvolts(step) >= 1_000_000 {
        text::decimal((scale_microvolts(step) / 1_000_000) as nat)
    } else {
        text::decimal((scale_microvolts(step) / 1_000) as nat) + "m"@
    }
}

/// A vertical scale as it is shown.
pub fn format_scope_scale(step: usize) -> (r: String)
    requires
        step < SCALE_COUNT,
    ensures
        r@ == scale_label(step as int),
{
    let v: u64 = scale_value(step);
    if v >= 1_000_000 {
        text::decimal_text(v / 1_000_000)
    } else {
        let n = text::decimal_text(v / 1_000);
        text::join2(n.as_str(), "m")
    }
}

/// The farthest vertical position, in quarters of a division.
pub const POSITION_LIMIT: i8 = 32;

/// A vertical position after a step of a quarter division; the ends stay.
pub open spec fn moved_position(quarters: int, direction: int) -> int {
    let next = if direction > 0 {
        quarters + 1
    } else {
        quarters - 1
    };
    if next > POSITION_LIMIT {
        POSITION_LIMIT as int
    } else if next < -POSITION_LIMIT {
        -POSITION_LIMIT
    } else {
        next
    }
}

fn move_position(quarters: i8, up: bool) -> (r: i8)
    requires
        -POSITION_LIMIT <= quarters <= POSITION_LIMIT,
    ensures
        r == moved_position(
            quarters as int,
            if up {
                1
            } else {
                -1
            },
        ),
        -POSITION_LIMIT <= r <= POSITION_LIMIT,
{
    if up {
        if quarters < POSITION_LIMIT {
            quarters + 1
        } else {
            POSITION_LIMIT
        }
    } else {
        if quarters > -POSITION_LIMIT {
            quarters - 1
        } else {
            -POSITION_LIMIT
        }
    }
}

// ---------------------------------------------------------------------------
// Oscilloscope
// ---------------------------------------------------------------------------

/// The controls of an oscilloscope.
pub struct ScopeControls {
    /// The channel whose waveform is read.
    pub channel: u8,
    pub channel_on: Vec<bool>,
    pub scale_steps: Vec<usize>,
    pub positions: Vec<i8>,
    pub meas_types: Vec<String>,
    pub meas_results: Vec<Option<String>>,
    pub timebase: Real,
    pub trigger_source: String,
    pub trigger_level: Real,
    pub trigger_slope: String,
}

/// A control of the oscilloscope that was used; channels count from 0.
#[derive(Debug, Clone, Copy, PartialEq, Eq, Structural)]
pub enum ScopeKey {
    Run,
    Stop,
    Single,
    Autoset,
    Apply,
    Channel { index: usize, on: bool },
    Scale { index: usize, direction: i32 },
    Position { index: usize, up: bool },
    Measure { index: usize },
}

/// The channel that a control belongs to.
pub open spec fn key_index(key: ScopeKey) -> int {
    match key {
        ScopeKey::Channel { index, .. } => index as int,
        ScopeKey::Scale { index, .. } => index as int,
        ScopeKey::Position { index, .. } => index as int,
        ScopeKey::Measure { index } => index as int,
        _ => 0,
    }
}

/// Whether controls of a scope stand as at start: the first channel on, one volt per division,
/// every channel measured by `meas_type`.
pub open spec fn scope_at_start(
    r: ScopeControls,
    meas_type: Seq<char>,
    timebase: Real,
    trigger_level: Real,
) -> bool {
    &&& r.wf()
    &&& r.channel == 1
    &&& r.channel_on@ == seq![true, false, false, false]
    &&& forall|i: int| 0 <= i < MAX_CHANNELS ==> #[trigger] r.scale_steps@[i] == ONE_VOLT_STEP
    &&& forall|i: int| 0 <= i < MAX_CHANNELS ==> #[trigger] r.positions@[i] == 0
    &&& forall|i: int| 0 <= i < MAX_CHANNELS ==> (#[trigger] r.meas_types@[i])@ == meas_type
    &&& forall|i: int| 0 <= i < MAX_CHANNELS ==> #[trigger] r.meas_results@[i] is None
    &&& r.timebase == timebase
    &&& r.trigger_source@ == "CH1"@
    &&& r.trigger_level == trigger_level
    &&& r.trigger_slope@ == "RISE"@
}

impl ScopeControls {
    /// Whether every channel has its settings, within their limits.
    pub open spec fn wf(self) -> bool {
        &&& self.channel_on@.len() == MAX_CHANNELS
        &&& self.scale_steps@.len() == MAX_CHANNELS
        &&& self.positions@.len() == MAX_CHANNELS
        &&& self.meas_types@.len() == MAX_CHANNELS
        &&& self.meas_results@.len() == MAX_CHANNELS
        &&& forall|i: int|
            0 <= i < MAX_CHANNELS ==> (#[trigger] self.scale_steps@[i]) < SCALE_COUNT
        &&& forall|i: int|
            0 <= i < MAX_CHANNELS ==> -POSITION_LIMIT <= (#[trigger] self.positions@[i])
                <= POSITION_LIMIT
    }

    /// The controls at start: the first channel on, one volt per division, measuring by
    /// `meas_type`.
    pub fn new(meas_type: &str, timebase: Real, trigger_level: Real) -> (r: Self)
        ensures
            scope_at_start(r, meas_type@, timebase, trigger_level),
    {
        let mut channel_on: Vec<bool> = Vec::new();
        let mut scale_steps: Vec<usize> = Vec::new();
        let mut positions: Vec<i8> = Vec::new();
        let mut meas_types: Vec<String> = Vec::new();
        let mut meas_results: Vec<Option<String>> = Vec::new();
        let mut i: usize = 0;
        while i < MAX_CHANNELS
            invariant
                i <= MAX_CHANNELS,
                channel_on@.len() == scale_steps@.len() == positions@.len() == meas_types@.len()
                    == meas_results@.len() == i,
                forall|k: int| 0 <= k < i ==> #[trigger] channel_on@[k] == (k == 0),
                forall|k: int| 0 <= k < i ==> #[trigger] scale_steps@[k] == ONE_VOLT_STEP,
                forall|k: int| 0 <= k < i ==> #[trigger] positions@[k] == 0,
                forall|k: int| 0 <= k < i ==> (#[trigger] meas_types@[k])@ == meas_type@,
                forall|k: int| 0 <= k < i ==> #[trigger] meas_results@[k] is None,
            decreases MAX_CHANNELS - i,
        {
            channel_on.push(i == 0);
            scale_steps.push(ONE_VOLT_STEP);
            positions.push(0);
            meas_types.push(meas_type.to_owned());
            meas_results.push(None);
            i = i + 1;
        }
        assert(channel_on@ =~= seq![true, false, false, false]);
        ScopeControls {
            channel: 1,
            channel_on,
            scale_steps,
            positions,
            meas_types,
            meas_results,
            timebase,
            trigger_source: "CH1".to_owned(),
            trigger_level,
            trigger_slope: "RISE".to_owned(),
        }
    }
}

/// The commands that a control sends. `s` are the controls after it was used.
pub open spec fn scope_commands(s: ScopeControls, key: ScopeKey) -> Seq<ControlCommand> {
    match key {
        ScopeKey::Run => seq![ControlCommand::ScopeRun],
        ScopeKey::Stop => seq![ControlCommand::ScopeStop],
        ScopeKey::Single => seq![ControlCommand::ScopeSingle],
        ScopeKey::Autoset => seq![ControlCommand::ScopeAutoset],
        ScopeKey::Apply => seq![
            ControlCommand::ScopeTimebase(s.timebase),
            ControlCommand::ScopeTrigger {
                source: s.trigger_source,
                level: s.trigger_level,
                slope: s.trigger_slope,
            },
        ],
        ScopeKey::Channel { index, .. } => seq![
            ControlCommand::ScopeChannel {
                channel: (index + 1) as u8,
                enabled: s.channel_on@[index as int],
            },
        ],
        ScopeKey::Scale { index, .. } => seq![
            ControlCommand::ScopeScale {
                channel: (index + 1) as u8,
                step: s.scale_steps@[index as int],
            },
        ],
        ScopeKey::Position { index, .. } => seq![
            ControlCommand::ScopePosition {
                channel: (index + 1) as u8,
                quarters: s.positions@[index as int],
            },
        ],
        ScopeKey::Measure { index } => seq![
            ControlCommand::ScopeMeasure {
                channel: (index + 1) as u8,
                meas_type: s.meas_types@[index as int],
            },
        ],
    }
}

/// Whether `after` are the controls `before` after a control was used.
pub open spec fn scope_pressed(before: ScopeControls, after: ScopeControls, key: ScopeKey) -> bool {
    &&& after.meas_types == before.meas_types
    &&& after.meas_results == before.meas_results
    &&& after.timebase == before.timebase
    &&& after.trigger_source == before.trigger_source
    &&& after.trigger_level == before.trigger_level
    &&& after.trigger_slope == before.trigger_slope
    &&& after.channel_on@ == match key {
        ScopeKey::Channel { index, on } => before.channel_on@.update(index as int, on),
        _ => before.channel_on@,
    }
    &&& after.scale_steps@ == match key {
        ScopeKey::Scale { index, direction } => before.scale_steps@.update(
            index as int,
            next_step(before.scale_steps@[index as int] as int, direction as int) as usize,
        ),
        _ => before.scale_steps@,
    }
    &&& after.positions@ == match key {
        ScopeKey::Position { index, up } => before.positions@.update(
            index as int,
            moved_position(
                before.positions@[index as int] as int,
                if up {
                    1
                } else {
                    -1
                },
            ) as i8,
        ),
        _ => before.positions@,
    }
    &&& after.channel == match key {
        ScopeKey::Scale { index, .. } => (index + 1) as u8,
        ScopeKey::Position { index, .. } => (index + 1) as u8,
        ScopeKey::Measure { index } => (index + 1) as u8,
        _ => before.channel,
    }
}

impl ScopeControls {
    /// A control was used. The result are the commands to send.
    pub fn press(&mut self, key: ScopeKey) -> (r: Vec<ControlCommand>)
        requires
            old(self).wf(),
            key_index(key) < MAX_CHANNELS,
        ensures
            final(self).wf(),
            scope_pressed(*old(self), *final(self), key),
            r@ == scope_commands(*final(self), key),
    {
        let mut r: Vec<ControlCommand> = Vec::new();
        match key {
            ScopeKey::Run => {
                r.push(ControlCommand::ScopeRun);
            },
            ScopeKey::Stop => {
                r.push(ControlCommand::ScopeStop);
            },
            ScopeKey::Single => {
                r.push(ControlCommand::ScopeSingle);
            },
            ScopeKey::Autoset => {
                r.push(ControlCommand::ScopeAutoset);
            },
            ScopeKey::Apply => {
                r.push(ControlCommand::ScopeTimebase(self.timebase));
                r.push(
                    ControlCommand::ScopeTrigger {
                        source: self.trigger_source.clone(),
                        level: self.trigger_level,
                        slope: self.trigger_slope.clone(),
                    },
                );
            },
            ScopeKey::Channel { index, on } => {
                self.channel_on.set(index, on);
                r.push(ControlCommand::ScopeChannel { channel: (index + 1) as u8, enabled: on });
            },
            ScopeKey::Scale { index, direction } => {
                let step: usize = nearest_scale_step(self.scale_steps[index], direction);
                self.scale_steps.set(index, step);
                self.channel = (index + 1) as u8;
                r.push(ControlCommand::ScopeScale { channel: (index + 1) as u8, step });
            },
            ScopeKey::Position { index, up } => {
                let quarters: i8 = move_position(self.positions[index], up);
                self.positions.set(index, quarters);
                self.channel = (index + 1) as u8;
                r.push(ControlCommand::ScopePosition { channel: (index + 1) as u8, quarters });
            },
            ScopeKey::Measure { index } => {
                self.channel = (index + 1) as u8;
                r.push(
                    ControlCommand::ScopeMeasure {
                        channel: (index + 1) as u8,
                        meas_type: self.meas_types[index].clone(),
                    },
                );
            },
        }
        assert(r@ =~= scope_commands(*self, key));
        r
    }
}

/// The channel, counted from 0, that a readout begins with: the digit behind `CH`, where 0
/// counts as 1.
pub open spec fn readout_channel(s: Seq<char>) -> Option<int> {
    if s.len() > 2 && s[0] == 'C' && s[1] == 'H' && '0' <= s[2] && s[2] <= '9' {
        Some(
            if s[2] == '0' {
                0
            } else {
                s[2] as int - '1' as int
            },
        )
    } else {
        None
    }
}

impl ScopeControls {
    /// Keeps a readout for the channel that it begins with, where there is such a channel.
    pub fn store_measure_result(&mut self, response: &str)
        requires
            old(self).wf(),
        ensures
            final(self).wf(),
            final(self).channel == old(self).channel,
            final(self).channel_on == old(self).channel_on,
            final(self).scale_steps == old(self).scale_steps,
            final(self).positions == old(self).positions,
            final(self).meas_types == old(self).meas_types,
            final(self).timebase == old(self).timebase,
            final(self).trigger_source == old(self).trigger_source,
            final(self).trigger_level == old(self).trigger_level,
            final(self).trigger_slope == old(self).trigger_slope,
            ({
                let readout = text::trimmed(response@);
                match readout_channel(readout) {
                    Some(c) => if c < MAX_CHANNELS {
                        &&& final(self).meas_results@[c] matches Some(kept) && kept@ == readout
                        &&& forall|k: int|
                            0 <= k < MAX_CHANNELS && k != c ==> #[trigger] final(self).meas_results@[k] == old(self).meas_results@[k]
                    } else {
                        final(self).meas_results == old(self).meas_results
                    },
                    None => final(self).meas_results == old(self).meas_results,
                }
            }),
    {
        let readout = text::trim(response);
        let v = text::chars_of(readout.as_str());
        if v.len() > 2 && v[0] == 'C' && v[1] == 'H' && '0' <= v[2] && v[2] <= '9' {
            let digit: usize = (v[2] as u8 - 48) as usize;
            let index: usize = if digit == 0 {
                0
            } else {
                digit - 1
            };
            if index < MAX_CHANNELS {
                self.meas_results.set(index, Some(readout));
            }
        }
    }

    /// The first readout that there is.
    pub fn first_result(&self) -> (r: Option<String>)
        ensures
            is_first_kept(self.meas_results@, r),
    {
        let mut i: usize = 0;
        while i < self.meas_results.len()
            invariant
                i <= self.meas_results@.len(),
                forall|j: int| 0 <= j < i ==> #[trigger] self.meas_results@[j] is None,
            decreases self.meas_results@.len() - i,
        {
            match &self.meas_results[i] {
                Some(kept) => {
                    let r = kept.clone();
                    assert(self.meas_results@[i as int] == Some(r));
                    return Some(r);
                },
                None => {},
            }
            i = i + 1;
        }
        None
    }
}

/// Whether `r` is the first readout that there is.
pub open spec fn is_first_kept(results: Seq<Option<String>>, r: Option<String>) -> bool {
    match r {
        Some(kept) => exists|k: int|
            0 <= k < results.len() && results[k] == Some(kept) && forall|j: int|
                0 <= j < k ==> #[trigger] results[j] is None,
        None => forall|j: int| 0 <= j < results.len() ==> #[trigger] results[j] is None,
    }
}

/// The text behind the first `": "`; the whole text where there is none.
pub open spec fn readout_payload(full: Seq<char>, r: Seq<char>) -> bool {
    if text::has_text(full, ": "@) {
        exists|at: int|
            {
                &&& #[trigger] text::matches_at(full, ": "@, at)
                &&& forall|k: int| 0 <= k < at ==> !text::matches_at(full, ": "@, k)
                &&& r == text::trimmed(full.skip(at + 2))
            }
    } else {
        r == text::trimmed(full)
    }
}

/// What a readout shows behind its channel and type; a dash where there is nothing.
pub fn scope_meas_payload(full: &str) -> (r: Option<String>)
    ensures
        match r {
            Some(payload) => readout_payload(full@, payload@) && payload@.len() > 0 && payload@
                != "—"@,
            None => readout_payload(full@, Seq::empty()) || readout_payload(full@, "—"@),
        },
{
    let v = text::chars_of(full);
    let needle = text::chars_of(": ");
    proof {
        reveal_strlit(": ");
    }
    let payload = match text::find_chars(&v, &needle, 0) {
        Some(at) => {
            assert(at + 2 <= v.len());
            let rest = text::string_of_range(&v, at + 2, v.len());
            assert(rest@ =~= full@.skip(at + 2));
            let payload = text::trim(rest.as_str());
            assert(text::matches_at(full@, ": "@, at as int));
            payload
        },
        None => {
            assert forall|k: int| !text::matches_at(full@, ": "@, k) by {
                if k >= 0 {
                    assert(!text::matches_at(v@, needle@, k));
                }
            }
            text::trim(full)
        },
    };
    assert(readout_payload(full@, payload@));
    if payload.as_str().is_empty() {
        assert(payload@ =~= Seq::<char>::empty());
        return None;
    }
    if text::same_text(payload.as_str(), "—") {
        return None;
    }
    Some(payload)
}

// ---------------------------------------------------------------------------
// DC source
// ---------------------------------------------------------------------------

/// The controls of a DC source, for each channel.
pub struct SourceControls {
    pub voltages: Vec<Real>,
    pub currents: Vec<Real>,
    pub ovps: Vec<Real>,
    pub ocps: Vec<Real>,
    pub outputs: Vec<bool>,
}

/// A control of the source that was used; channels count from 0.
#[derive(Debug, Clone, Copy, PartialEq, Eq, Structural)]
pub enum SourceKey {
    Apply { index: usize },
    ApplyProtection { index: usize },
    Output { index: usize },
}

/// The channel that a control belongs to.
pub open spec fn source_index(key: SourceKey) -> int {
    match key {
        SourceKey::Apply { index } => index as int,
        SourceKey::ApplyProtection { index } => index as int,
        SourceKey::Output { index } => index as int,
    }
}

/// The commands that a control sends. `s` are the controls after it was used.
pub open spec fn source_commands(s: SourceControls, key: SourceKey) -> Seq<ControlCommand> {
    let channel = (source_index(key) + 1) as u8;
    match key {
        SourceKey::Apply { index } => seq![
            ControlCommand::SourceVoltage { channel, value: s.voltages@[index as int] },
            ControlCommand::SourceCurrent { channel, value: s.currents@[index as int] },
        ],
        SourceKey::ApplyProtection { index } => seq![
            ControlCommand::SourceOvp { channel, value: s.ovps@[index as int] },
            ControlCommand::SourceOcp { channel, value: s.ocps@[index as int] },
        ],
        SourceKey::Output { index } => seq![
            ControlCommand::SourceOutput { channel, enabled: s.outputs@[index as int] },
        ],
    }
}

/// Whether `after` are the controls `before` after a control was used.
pub open spec fn source_pressed(
    before: SourceControls,
    after: SourceControls,
    key: SourceKey,
) -> bool {
    &&& after.voltages == before.voltages
    &&& after.currents == before.currents
    &&& after.ovps == before.ovps
    &&& after.ocps == before.ocps
    &&& after.outputs@ == match key {
        SourceKey::Output { index } => before.outputs@.update(
            index as int,
            !before.outputs@[index as int],
        ),
        _ => before.outputs@,
    }
}

fn repeated(value: Real) -> (r: Vec<Real>)
    ensures
        r@.len() == MAX_CHANNELS,
        forall|i: int| 0 <= i < MAX_CHANNELS ==> #[trigger] r@[i] == value,
{
    let mut r: Vec<Real> = Vec::new();
    r.push(value);
    r.push(value);
    r.push(value);
    r.push(value);
    r
}

/// Whether controls of a source stand as at start: all channels alike, all outputs off.
pub open spec fn source_at_start(
    r: SourceControls,
    voltage: Real,
    current: Real,
    ovp: Real,
    ocp: Real,
) -> bool {
    &&& r.wf()
    &&& forall|i: int| 0 <= i < MAX_CHANNELS ==> #[trigger] r.voltages@[i] == voltage
    &&& forall|i: int| 0 <= i < MAX_CHANNELS ==> #[trigger] r.currents@[i] == current
    &&& forall|i: int| 0 <= i < MAX_CHANNELS ==> #[trigger] r.ovps@[i] == ovp
    &&& forall|i: int| 0 <= i < MAX_CHANNELS ==> #[trigger] r.ocps@[i] == ocp
    &&& r.outputs@ == seq![false, false, false, false]
}

impl SourceControls {
    /// Whether every channel has its settings.
    pub open spec fn wf(self) -> bool {
        &&& self.voltages@.len() == MAX_CHANNELS
        &&& self.currents@.len() == MAX_CHANNELS
        &&& self.ovps@.len() == MAX_CHANNELS
        &&& self.ocps@.len() == MAX_CHANNELS
        &&& self.outputs@.len() == MAX_CHANNELS
    }

    /// The controls at start: all channels alike, all outputs off.
    pub fn new(voltage: Real, current: Real, ovp: Real, ocp: Real) -> (r: Self)
        ensures
            source_at_start(r, voltage, current, ovp, ocp),
    {
        let mut outputs: Vec<bool> = Vec::new();
        outputs.push(false);
        outputs.push(false);
        outputs.push(false);
        outputs.push(false);
        assert(outputs@ =~= seq![false, false, false, false]);
        SourceControls {
            voltages: repeated(voltage),
            currents: repeated(current),
            ovps: repeated(ovp),
            ocps: repeated(ocp),
            outputs,
        }
    }

    /// A control was used. The result are the commands to send.
    pub fn press(&mut self, key: SourceKey) -> (r: Vec<ControlCommand>)
        requires
            old(self).wf(),
            source_index(key) < MAX_CHANNELS,
        ensures
            final(self).wf(),
            source_pressed(*old(self), *final(self), key),
            r@ == source_commands(*final(self), key),
    {
        let mut r: Vec<ControlCommand> = Vec::new();
        match key {
            SourceKey::Apply { index } => {
                let channel: u8 = (index + 1) as u8;
                r.push(ControlCommand::SourceVoltage { channel, value: self.voltages[index] });
                r.push(ControlCommand::SourceCurrent { channel, value: self.currents[index] });
            },
            SourceKey::ApplyProtection { index } => {
                let channel: u8 = (index + 1) as u8;
                r.push(ControlCommand::SourceOvp { channel, value: self.ovps[index] });
                r.push(ControlCommand::SourceOcp { channel, value: self.ocps[index] });
            },
            SourceKey::Output { index } => {
                let on: bool = !self.outputs[index];
                self.outputs.set(index, on);
                r.push(ControlCommand::SourceOutput { channel: (index + 1) as u8, enabled: on });
            },
        }
        assert(r@ =~= source_commands(*self, key));
        r
    }

    /// Whether an output is on.
    pub fn any_output(&self) -> (r: bool)
        ensures
            r == self.outputs@.contains(true),
    {
        let mut i: usize = 0;
        while i < self.outputs.len()
            invariant
                i <= self.outputs@.len(),
                forall|k: int| 0 <= k < i ==> !#[trigger] self.outputs@[k],
            decreases self.outputs@.len() - i,
        {
            if self.outputs[i] {
                assert(self.outputs@[i as int] == true);
                return true;
            }
            i = i + 1;
        }
        false
    }
}

/// Law: switching an output twice restores the controls.
pub proof fn law_output_switches_back(
    before: SourceControls,
    between: SourceControls,
    after: SourceControls,
    index: int,
)
    requires
        before.wf(),
        0 <= index < MAX_CHANNELS,
        between.outputs@ == before.outputs@.update(index, !before.outputs@[index]),
        after.outputs@ == between.outputs@.update(index, !between.outputs@[index]),
    ensures
        after.outputs@ == before.outputs@,
{
    assert(after.outputs@ =~= before.outputs@);
}

// ---------------------------------------------------------------------------
// Electronic load
// ---------------------------------------------------------------------------

/// The controls of an electronic load.
pub struct LoadControls {
    pub mode: String,
    pub level: Real,
    pub input: bool,
}

/// The unit of the level in a mode.
pub open spec fn load_unit(mode: Seq<char>) -> Seq<char> {
    if mode == "CV"@ {
        " V"@
    } else if mode == "CR"@ {
        " Ω"@
    } else if mode == "CP"@ {
        " W"@
    } else {
        " A"@
    }
}

/// The commands that apply mode and level.
pub open spec fn load_commands(s: LoadControls) -> Seq<ControlCommand> {
    seq![
        ControlCommand::LoadMode(s.mode),
        ControlCommand::LoadLevel { mode: s.mode, value: s.level },
    ]
}

impl LoadControls {
    /// The controls at start: constant current, input off.
    pub fn new(level: Real) -> (r: Self)
        ensures
            r.mode@ == "CC"@,
            r.level == level,
            !r.input,
    {
        LoadControls { mode: "CC".to_owned(), level, input: false }
    }

    /// The unit of the level.
    pub fn unit(&self) -> (r: &'static str)
        ensures
            r@ == load_unit(self.mode@),
    {
        let mode = self.mode.as_str();
        if text::same_text(mode, "CV") {
            " V"
        } else if text::same_text(mode, "CR") {
            " Ω"
        } else if text::same_text(mode, "CP") {
            " W"
        } else {
            " A"
        }
    }

    /// Mode and level are applied: the mode first.
    pub fn apply(&self) -> (r: Vec<ControlCommand>)
        ensures
            r@ == load_commands(*self),
    {
        let mut r: Vec<ControlCommand> = Vec::new();
        r.push(ControlCommand::LoadMode(self.mode.clone()));
        r.push(ControlCommand::LoadLevel { mode: self.mode.clone(), value: self.level });
        r
    }

    /// The input is switched.
    pub fn switch_input(&mut self) -> (r: ControlCommand)
        ensures
            final(self).mode == old(self).mode,
            final(self).level == old(self).level,
            final(self).input == !old(self).input,
            r == ControlCommand::LoadInput(final(self).input),
    {
        self.input = !self.input;
        ControlCommand::LoadInput(self.input)
    }
}

// ---------------------------------------------------------------------------
// Multimeter
// ---------------------------------------------------------------------------

/// The controls of a multimeter.
pub struct MeterControls {
    pub function: MeterFunction,
    pub autorange: bool,
    pub range: Real,
    pub nplc: Real,
}

/// The commands that apply the settings.
pub open spec fn meter_commands(s: MeterControls) -> Seq<ControlCommand> {
    seq![
        ControlCommand::DmmFunction(s.function),
        ControlCommand::DmmAutoRange { function: s.function, enabled: s.autorange },
    ] + if s.autorange {
        Seq::empty()
    } else {
        seq![ControlCommand::DmmRange { function: s.function, value: s.range }]
    } + seq![ControlCommand::DmmNplc { function: s.function, value: s.nplc }]
}

fn clone_function(f: &MeterFunction) -> (r: MeterFunction)
    ensures
        r == *f,
{
    MeterFunction { label: f.label.clone(), unit: f.unit.clone(), scpi: f.scpi.clone() }
}

impl MeterControls {
    /// The controls at start: automatic range.
    pub fn new(function: MeterFunction, range: Real, nplc: Real) -> (r: Self)
        ensures
            r.function == function,
            r.autorange,
            r.range == range,
            r.nplc == nplc,
    {
        MeterControls { function, autorange: true, range, nplc }
    }

    /// The settings are applied: function, automatic range, the range where it is not
    /// automatic, and the integration time.
    pub fn apply(&self) -> (r: Vec<ControlCommand>)
        ensures
            r@ == meter_commands(*self),
    {
        let mut r: Vec<ControlCommand> = Vec::new();
        r.push(ControlCommand::DmmFunction(clone_function(&self.function)));
        r.push(
            ControlCommand::DmmAutoRange {
                function: clone_function(&self.function),
                enabled: self.autorange,
            },
        );
        if !self.autorange {
            r.push(
                ControlCommand::DmmRange {
                    function: clone_function(&self.function),
                    value: self.range,
                },
            );
        }
        r.push(
            ControlCommand::DmmNplc { function: clone_function(&self.function), value: self.nplc },
        );
        r
    }
}

// ---------------------------------------------------------------------------
// Debug probe
// ---------------------------------------------------------------------------

/// The controls of a debug probe.
pub struct ProbeControls {
    pub chip: String,
    pub flash_path: String,
    pub flash_verify: bool,
    pub mem_addr: String,
    pub mem_len: u32,
    pub mem_write_hex: String,
    pub rtt_on: bool,
    pub rtt_channel: u32,
    pub speed_khz: u32,
}

/// A control of the probe that was used.
#[derive(Debug, Clone, Copy, PartialEq, Eq, Structural)]
pub enum ProbeKey {
    Attach,
    Halt,
    Run,
    Reset,
    HardwareReset,
    Status,
    Regs,
    Erase,
    Speed,
    Flash,
    ReadMem,
    WriteMem,
    Rtt { on: bool },
}

/// The command that a control sends.
pub open spec fn probe_command(s: ProbeControls, key: ProbeKey) -> ControlCommand {
    match key {
        ProbeKey::Attach => ControlCommand::ProbeAttach { target: s.chip },
        ProbeKey::Halt => ControlCommand::ProbeHalt,
        ProbeKey::Run => ControlCommand::ProbeRun,
        ProbeKey::Reset => ControlCommand::ProbeReset { hardware: false },
        ProbeKey::HardwareReset => ControlCommand::ProbeReset { hardware: true },
        ProbeKey::Status => ControlCommand::ProbeStatus,
        ProbeKey::Regs => ControlCommand::ProbeRegs,
        ProbeKey::Erase => ControlCommand::ProbeErase,
        ProbeKey::Speed => ControlCommand::ProbeSpeed { khz: s.speed_khz },
        ProbeKey::Flash => ControlCommand::ProbeFlash {
            path: s.flash_path,
            verify: s.flash_verify,
        },
        ProbeKey::ReadMem => ControlCommand::ProbeMemRead { address: s.mem_addr, len: s.mem_len },
        ProbeKey::WriteMem => ControlCommand::ProbeMemWrite {
            address: s.mem_addr,
            data_hex: s.mem_write_hex,
        },
        ProbeKey::Rtt { on } => if on {
            ControlCommand::ProbeRttStart { up_channel: s.rtt_channel }
        } else {
            ControlCommand::ProbeRttStop
        },
    }
}

/// Whether controls of a probe stand as at start.
pub open spec fn probe_at_start(r: ProbeControls) -> bool {
    &&& r.chip@ == Seq::<char>::empty()
    &&& r.flash_path@ == Seq::<char>::empty()
    &&& r.flash_verify
    &&& r.mem_addr@ == "08000000"@
    &&& r.mem_len == 64
    &&& r.mem_write_hex@ == Seq::<char>::empty()
    &&& !r.rtt_on
    &&& r.rtt_channel == 0
    &&& r.speed_khz == 4_000
}

impl ProbeControls {
    /// The controls at start.
    pub fn new() -> (r: Self)
        ensures
            probe_at_start(r),
    {
        ProbeControls {
            chip: String::new(),
            flash_path: String::new(),
            flash_verify: true,
            mem_addr: "08000000".to_owned(),
            mem_len: 64,
            mem_write_hex: String::new(),
            rtt_on: false,
            rtt_channel: 0,
            speed_khz: 4_000,
        }
    }

    /// A control was used. The result is the command to send; only the switch for real-time
    /// output changes a setting.
    pub fn press(&mut self, key: ProbeKey) -> (r: ControlCommand)
        ensures
            r == probe_command(*old(self), key),
            final(self).rtt_on == match key {
                ProbeKey::Rtt { on } => on,
                _ => old(self).rtt_on,
            },
            final(self).chip == old(self).chip,
            final(self).flash_path == old(self).flash_path,
            final(self).flash_verify == old(self).flash_verify,
            final(self).mem_addr == old(self).mem_addr,
            final(self).mem_len == old(self).mem_len,
            final(self).mem_write_hex == old(self).mem_write_hex,
            final(self).rtt_channel == old(self).rtt_channel,
            final(self).speed_khz == old(self).speed_khz,
    {
        match key {
            ProbeKey::Attach => ControlCommand::ProbeAttach { target: self.chip.clone() },
            ProbeKey::Halt => ControlCommand::ProbeHalt,
            ProbeKey::Run => ControlCommand::ProbeRun,
            ProbeKey::Reset => ControlCommand::ProbeReset { hardware: false },
            ProbeKey::HardwareReset => ControlCommand::ProbeReset { hardware: true },
            ProbeKey::Status => ControlCommand::ProbeStatus,
            ProbeKey::Regs => ControlCommand::ProbeRegs,
            ProbeKey::Erase => ControlCommand::ProbeErase,
            ProbeKey::Speed => ControlCommand::ProbeSpeed { khz: self.speed_khz },
            ProbeKey::Flash => ControlCommand::ProbeFlash {
                path: self.flash_path.clone(),
                verify: self.flash_verify,
            },
            ProbeKey::ReadMem => ControlCommand::ProbeMemRead {
                address: self.mem_addr.clone(),
                len: self.mem_len,
            },
            ProbeKey::WriteMem => ControlCommand::ProbeMemWrite {
                address: self.mem_addr.clone(),
                data_hex: self.mem_write_hex.clone(),
            },
            ProbeKey::Rtt { on } => {
                self.rtt_on = on;
                if on {
                    ControlCommand::ProbeRttStart { up_channel: self.rtt_channel }
                } else {
                    ControlCommand::ProbeRttStop
                }
            },
        }
    }
}

// ---------------------------------------------------------------------------
// USB bridge
// ---------------------------------------------------------------------------

/// The controls of a USB bridge.
pub struct BridgeControls {
    /// The bus: 1 for I2C, 2 for GPIO, SPI otherwise.
    pub tab: u8,
    pub spi_mode: u8,
    pub spi_hz: u32,
    pub spi_cs: u8,
    pub write_hex: String,
    pub read_len: u32,
    pub i2c_addr: String,
    pub i2c_hz: u32,
    pub gpio_pin: u8,
    pub gpio_out: bool,
    pub gpio_value: bool,
}

/// A control of the bridge that was used.
#[derive(Debug, Clone, Copy, PartialEq, Eq, Structural)]
pub enum BridgeKey {
    /// A transfer over the bus, or the pin that is set.
    Transfer,
    /// The information about the chip, or the pins that are read.
    Inquire,
}

/// The command that a control sends.
pub open spec fn bridge_command(s: BridgeControls, key: BridgeKey) -> ControlCommand {
    match key {
        BridgeKey::Transfer => if s.tab == 1 {
            ControlCommand::BridgeI2c {
                addr: s.i2c_addr,
                write_hex: s.write_hex,
                read_len: s.read_len,
                clock_hz: s.i2c_hz,
            }
        } else if s.tab == 2 {
            ControlCommand::BridgeGpio {
                pin: s.gpio_pin,
                dir: Some(s.gpio_out),
                value: Some(s.gpio_value),
            }
        } else {
            ControlCommand::BridgeSpi {
                mode: s.spi_mode,
                clock_hz: s.spi_hz,
                cs: s.spi_cs,
                write_hex: s.write_hex,
                read_len: s.read_len,
            }
        },
        BridgeKey::Inquire => if s.tab == 2 {
            ControlCommand::BridgeGpio { pin: 255, dir: None, value: None }
        } else {
            ControlCommand::BridgeInfo
        },
    }
}

/// Whether controls of a bridge stand as at start.
pub open spec fn bridge_at_start(r: BridgeControls) -> bool {
    &&& r.tab == 0
    &&& r.spi_mode == 0
    &&& r.spi_hz == 1_000_000
    &&& r.spi_cs == 0
    &&& r.write_hex@ == Seq::<char>::empty()
    &&& r.read_len == 4
    &&& r.i2c_addr@ == "50"@
    &&& r.i2c_hz == 100_000
    &&& r.gpio_pin == 0
    &&& r.gpio_out
    &&& !r.gpio_value
}

impl BridgeControls {
    /// The controls at start.
    pub fn new() -> (r: Self)
        ensures
            bridge_at_start(r),
    {
        BridgeControls {
            tab: 0,
            spi_mode: 0,
            spi_hz: 1_000_000,
            spi_cs: 0,
            write_hex: String::new(),
            read_len: 4,
            i2c_addr: "50".to_owned(),
            i2c_hz: 100_000,
            gpio_pin: 0,
            gpio_out: true,
            gpio_value: false,
        }
    }

    /// A control was used. The result is the command to send.
    pub fn press(&self, key: BridgeKey) -> (r: ControlCommand)
        ensures
            r == bridge_command(*self, key),
    {
        match key {
            BridgeKey::Transfer => if self.tab == 1 {
                ControlCommand::BridgeI2c {
                    addr: self.i2c_addr.clone(),
                    write_hex: self.write_hex.clone(),
                    read_len: self.read_len,
                    clock_hz: self.i2c_hz,
                }
            } else if self.tab == 2 {
                ControlCommand::BridgeGpio {
                    pin: self.gpio_pin,
                    dir: Some(self.gpio_out),
                    value: Some(self.gpio_value),
                }
            } else {
                ControlCommand::BridgeSpi {
                    mode: self.spi_mode,
                    clock_hz: self.spi_hz,
                    cs: self.spi_cs,
                    write_hex: self.write_hex.clone(),
                    read_len: self.read_len,
                }
            },
            BridgeKey::Inquire => if self.tab == 2 {
                ControlCommand::BridgeGpio { pin: 255, dir: None, value: None }
            } else {
                ControlCommand::BridgeInfo
            },
        }
    }
}

// ---------------------------------------------------------------------------
// Console and log
// ---------------------------------------------------------------------------

/// Whether `command` is what typing `typed` sends.
pub open spec fn console_sends(typed: Seq<char>, command: ControlCommand) -> bool {
    let line = text::trimmed(typed);
    if line.last() == '?' {
        command matches ControlCommand::RawQuery(s) && s@ == line
    } else {
        command matches ControlCommand::RawWrite(s) && s@ == line
    }
}

/// The command that a line typed in the console sends: a query where it ends in a question
/// mark. A blank line sends nothing.
pub fn console_command(typed: &str) -> (r: Option<ControlCommand>)
    ensures
        r is None <==> text::trimmed(typed@).len() == 0,
        r matches Some(command) ==> console_sends(typed@, command),
{
    let line = text::trim(typed);
    let v = text::chars_of(line.as_str());
    if v.len() == 0 {
        return None;
    }
    if v[v.len() - 1] == '?' {
        Some(ControlCommand::RawQuery(line))
    } else {
        Some(ControlCommand::RawWrite(line))
    }
}

/// The largest log of an instrument in bytes.
pub const IO_LOG_LIMIT: usize = 32_768;

/// How many bytes are kept of a log that outgrew the limit.
pub const IO_LOG_KEPT: usize = 24_576;

/// A log with a text added on a line of its own.
pub open spec fn log_with(log: Seq<char>, added: Seq<char>) -> Seq<char> {
    if log.len() > 0 && log.last() != '\n' {
        log + "\n"@ + added
    } else {
        log + added
    }
}

/// Whether `r` is what is kept of a log: all of it within the limit, or else its last bytes,
/// from the first character boundary that leaves no more than those.
pub open spec fn log_kept(log: Seq<char>, r: Seq<char>) -> bool {
    if text::byte_len(log) <= IO_LOG_LIMIT {
        r == log
    } else {
        exists|from: int|
            {
                &&& 0 <= from <= log.len()
                &&& r == #[trigger] log.skip(from)
                &&& text::byte_len(r) <= IO_LOG_KEPT
                &&& from > 0 ==> text::byte_len(log.skip(from - 1)) > IO_LOG_KEPT
            }
    }
}

fn last_bytes_from(v: &Vec<char>) -> (from: usize)
    ensures
        from <= v@.len(),
        text::byte_len(v@.skip(from as int)) <= IO_LOG_KEPT,
        from > 0 ==> text::byte_len(v@.skip(from - 1)) > IO_LOG_KEPT,
{
    let mut from: usize = v.len();
    let mut kept: usize = 0;
    assert(v@.skip(from as int) =~= Seq::<char>::empty());
    while from > 0
        invariant
            from <= v@.len(),
            kept == text::byte_len(v@.skip(from as int)),
            kept <= IO_LOG_KEPT,
        decreases from,
    {
        let width: usize = text::char_width(v[from - 1]);
        proof {
            let one = seq![v@[from - 1]];
            assert(v@.skip(from - 1) =~= one + v@.skip(from as int));
            text::lemma_byte_len_add(one, v@.skip(from as int));
            assert(one.drop_last() =~= Seq::<char>::empty());
            assert(text::byte_len(one) == text::byte_len(one.drop_last()) + text::utf8_width(
                one.last(),
            ));
        }
        if kept + width > IO_LOG_KEPT {
            return from;
        }
        kept = kept + width;
        from = from - 1;
    }
    from
}

fn bytes_over(v: &Vec<char>, limit: usize) -> (r: bool)
    requires
        limit <= 0xffff,
    ensures
        r == (text::byte_len(v@) > limit),
{
    let mut total: usize = 0;
    let mut i: usize = 0;
    assert(v@.take(0) =~= Seq::<char>::empty());
    while i < v.len()
        invariant
            i <= v@.len(),
            limit <= 0xffff,
            total == text::byte_len(v@.take(i as int)),
            total <= limit,
        decreases v@.len() - i,
    {
        let width: usize = text::char_width(v[i]);
        assert(v@.take(i + 1).drop_last() =~= v@.take(i as int));
        assert(text::byte_len(v@.take(i + 1)) == total + width);
        if total + width > limit {
            proof {
                assert(v@ =~= v@.take(i + 1) + v@.skip(i + 1));
                text::lemma_byte_len_add(v@.take(i + 1), v@.skip(i + 1));
            }
            return true;
        }
        total = total + width;
        i = i + 1;
    }
    assert(v@.take(i as int) =~= v@);
    false
}

/// Adds a text to the log of an instrument. An empty text adds nothing; a log that outgrows
/// the limit loses its beginning.
pub fn append_io_log(log: &mut String, added: &str)
    ensures
        added@.len() == 0 ==> final(log)@ == old(log)@,
        added@.len() > 0 ==> log_kept(log_with(old(log)@, added@), final(log)@),
{
    if added.is_empty() {
        return;
    }
    let v = text::chars_of(log.as_str());
    let all = if v.len() > 0 && v[v.len() - 1] != '\n' {
        text::join3(log.as_str(), "\n", added)
    } else {
        text::join2(log.as_str(), added)
    };
    let w = text::chars_of(all.as_str());
    if !bytes_over(&w, IO_LOG_LIMIT) {
        *log = all;
        return;
    }
    let from: usize = last_bytes_from(&w);
    let r = text::string_of_range(&w, from, w.len());
    assert(r@ =~= w@.skip(from as int));
    *log = r;
}

/// Law: a log never outgrows its limit.
pub proof fn law_log_is_bounded(log: Seq<char>, r: Seq<char>)
    requires
        log_kept(log, r),
    ensures
        text::byte_len(r) <= IO_LOG_LIMIT,
        text::has_suffix(log, r),
{
    if text::byte_len(log) > IO_LOG_LIMIT {
        let from = choose|from: int|
            {
                &&& 0 <= from <= log.len()
                &&& r == #[trigger] log.skip(from)
                &&& text::byte_len(r) <= IO_LOG_KEPT
                &&& from > 0 ==> text::byte_len(log.skip(from - 1)) > IO_LOG_KEPT
            };
        assert(log.skip(log.len() - r.len()) =~= log.skip(from));
    } else {
        assert(log.skip(0) =~= log);
    }
}

/// The note of an activity: one line, shortened.
pub open spec fn activity_note(s: Seq<char>) -> Seq<char> {
    let one = text::swap_char(text::trimmed(s), '\n', ' ');
    if one.len() > 72 {
        one.take(71) + "…"@
    } else {
        one
    }
}

/// A short line without blanks around it is its own note.
pub proof fn lemma_plain_note(s: Seq<char>)
    requires
        0 < s.len() <= 72,
        !text::white_space(s[0]),
        !text::white_space(s.last()),
        forall|i: int| 0 <= i < s.len() ==> #[trigger] s[i] != '\n',
    ensures
        text::trimmed(s) == s,
        activity_note(s) == s,
{
    assert(text::swap_char(s, '\n', ' ') =~= s);
}

/// The note after an activity.
pub open spec fn noted(slot: Seq<char>, activity: Seq<char>) -> Seq<char> {
    if text::trimmed(activity).len() == 0 {
        slot
    } else {
        activity_note(activity)
    }
}

/// Notes an activity; a blank one leaves the last note.
pub fn note_activity(slot: &mut String, activity: &str)
    ensures
        final(slot)@ == noted(old(slot)@, activity@),
{
    let trimmed = text::trim(activity);
    let one = text::replace_char(trimmed.as_str(), '\n', ' ');
    let v = text::chars_of(one.as_str());
    if v.len() == 0 {
        return;
    }
    if v.len() > 72 {
        let head = text::string_of_range(&v, 0, 71);
        assert(head@ =~= one@.take(71));
        *slot = text::join2(head.as_str(), "…");
    } else {
        *slot = one;
    }
}

// ---------------------------------------------------------------------------
// What holds of the controls
// ---------------------------------------------------------------------------

/// Law: between one and four channels are shown, as many as the instrument has where that lies
/// between.
pub proof fn law_one_to_four_channels(channels: int)
    ensures
        1 <= channel_count(channels) <= 4,
        1 <= channels <= 4 ==> channel_count(channels) == channels,
        channels > 4 ==> channel_count(channels) == 4,
        channels < 1 ==> channel_count(channels) == 1,
{
}

/// Law: the scales go 1, 2, 5 from a millivolt up, each third one ten times the one before, up
/// to ten volts; a step goes to the scale beside and stays at the ends.
pub proof fn law_scales_go_by_one_two_five(step: int)
    requires
        0 <= step < 13,
    ensures
        scale_microvolts(0) == 1_000 && scale_microvolts(1) == 2_000 && scale_microvolts(2)
            == 5_000,
        step + 3 < 13 ==> scale_microvolts(step + 3) == 10 * scale_microvolts(step),
        scale_microvolts(12) == 10_000_000,
        next_step(step, 0) == step,
        forall|d: int| d > 0 ==> #[trigger] next_step(step, d) == if step < 12 {
            step + 1
        } else {
            12
        },
        forall|d: int| d < 0 ==> #[trigger] next_step(step, d) == if step > 0 {
            step - 1
        } else {
            0
        },
{
}

/// Law: a scale is shown in whole volts from a volt up, and in whole millivolts with an `m`
/// below; the number reads back as the scale.
pub proof fn law_scale_label_reads_back(step: int)
    requires
        0 <= step < 13,
    ensures
        step >= 9 ==> text::number_of(scale_label(step), 100) == Some(
            (scale_microvolts(step) / 1_000_000) as nat,
        ) && scale_microvolts(step) % 1_000_000 == 0,
        step < 9 ==> scale_label(step).last() == 'm' && text::number_of(
            scale_label(step).drop_last(),
            1_000,
        ) == Some((scale_microvolts(step) / 1_000) as nat) && scale_microvolts(step) % 1_000 == 0,
{
    let volts = (scale_microvolts(step) / 1_000_000) as nat;
    let millivolts = (scale_microvolts(step) / 1_000) as nat;
    if step >= 9 {
        text::law_decimal_reads_back(volts, 100);
    } else {
        reveal_strlit("m");
        text::law_decimal_reads_back(millivolts, 1_000);
        assert(scale_label(step).drop_last() =~= text::decimal(millivolts));
    }
}

/// Law: the position moves by a quarter of a division and at most eight divisions from the
/// middle; up and down cancel but at the ends.
pub proof fn law_position_moves_by_quarters(quarters: int)
    requires
        -32 <= quarters <= 32,
    ensures
        moved_position(quarters, 1) == if quarters < 32 {
            quarters + 1
        } else {
            32
        },
        moved_position(quarters, -1) == if quarters > -32 {
            quarters - 1
        } else {
            -32
        },
        -32 < quarters < 32 ==> moved_position(moved_position(quarters, 1), -1) == quarters,
{
}

/// Law: a control of the scope changes the setting that it is for, on its own channel alone, and
/// sends one command with that channel, counted from one, and the new setting. A channel that is
/// scaled, moved or measured is the one whose waveform is read.
pub proof fn law_scope_controls_reach_their_channel(
    before: ScopeControls,
    after: ScopeControls,
    index: usize,
    on: bool,
    direction: i32,
)
    requires
        before.wf(),
        after.wf(),
        index < 4,
    ensures
        scope_pressed(before, after, ScopeKey::Channel { index, on }) ==> {
            &&& after.channel_on@[index as int] == on
            &&& forall|k: int|
                0 <= k < 4 && k != index ==> #[trigger] after.channel_on@[k]
                    == before.channel_on@[k]
            &&& after.scale_steps@ == before.scale_steps@ && after.positions@ == before.positions@
            &&& after.channel == before.channel
            &&& scope_commands(after, ScopeKey::Channel { index, on }) == seq![
                ControlCommand::ScopeChannel { channel: (index + 1) as u8, enabled: on },
            ]
        },
        scope_pressed(before, after, ScopeKey::Scale { index, direction }) ==> {
            let step = before.scale_steps@[index as int] as int;
            &&& forall|k: int|
                0 <= k < 4 && k != index ==> #[trigger] after.scale_steps@[k]
                    == before.scale_steps@[k]
            &&& direction > 0 && step < 12 ==> after.scale_steps@[index as int] == step + 1
            &&& direction < 0 && step > 0 ==> after.scale_steps@[index as int] == step - 1
            &&& after.channel == index + 1
            &&& after.channel_on@ == before.channel_on@ && after.positions@ == before.positions@
            &&& scope_commands(after, ScopeKey::Scale { index, direction }) == seq![
                ControlCommand::ScopeScale {
                    channel: (index + 1) as u8,
                    step: after.scale_steps@[index as int],
                },
            ]
        },
        scope_pressed(before, after, ScopeKey::Position { index, up: on }) ==> {
            let q = before.positions@[index as int] as int;
            &&& forall|k: int|
                0 <= k < 4 && k != index ==> #[trigger] after.positions@[k] == before.positions@[k]
            &&& on && q < 32 ==> after.positions@[index as int] == q + 1
            &&& !on && q > -32 ==> after.positions@[index as int] == q - 1
            &&& after.channel == index + 1
            &&& after.channel_on@ == before.channel_on@ && after.scale_steps@
                == before.scale_steps@
            &&& scope_commands(after, ScopeKey::Position { index, up: on }) == seq![
                ControlCommand::ScopePosition {
                    channel: (index + 1) as u8,
                    quarters: after.positions@[index as int],
                },
            ]
        },
        scope_pressed(before, after, ScopeKey::Measure { index }) ==> {
            &&& after.channel == index + 1
            &&& after.channel_on@ == before.channel_on@ && after.scale_steps@
                == before.scale_steps@ && after.positions@ == before.positions@
            &&& scope_commands(after, ScopeKey::Measure { index }) == seq![
                ControlCommand::ScopeMeasure {
                    channel: (index + 1) as u8,
                    meas_type: before.meas_types@[index as int],
                },
            ]
        },
{
}

/// Law: Run, Stop, Single and Autoset send the command of their name and change no setting;
/// Apply sends the time base and then the trigger, as they are set.
pub proof fn law_scope_buttons_send_their_command(s: ScopeControls)
    ensures
        scope_commands(s, ScopeKey::Run) == seq![ControlCommand::ScopeRun],
        scope_commands(s, ScopeKey::Stop) == seq![ControlCommand::ScopeStop],
        scope_commands(s, ScopeKey::Single) == seq![ControlCommand::ScopeSingle],
        scope_commands(s, ScopeKey::Autoset) == seq![ControlCommand::ScopeAutoset],
        scope_commands(s, ScopeKey::Apply).len() == 2,
        scope_commands(s, ScopeKey::Apply)[0] == ControlCommand::ScopeTimebase(s.timebase),
        scope_commands(s, ScopeKey::Apply)[1] == (ControlCommand::ScopeTrigger {
            source: s.trigger_source,
            level: s.trigger_level,
            slope: s.trigger_slope,
        }),
{
}

/// Law: a scope starts with its first channel on, the others off, all at one volt per division,
/// in the middle and without a readout, triggered by the first channel on its rise.
pub proof fn law_scope_starts_on_the_first_channel(
    r: ScopeControls,
    meas_type: Seq<char>,
    timebase: Real,
    level: Real,
    i: int,
)
    requires
        scope_at_start(r, meas_type, timebase, level),
        0 <= i < 4,
    ensures
        r.channel == 1,
        r.channel_on@[i] == (i == 0),
        scale_microvolts(r.scale_steps@[i] as int) == 1_000_000,
        r.positions@[i] == 0,
        r.meas_types@[i]@ == meas_type,
        r.meas_results@[i] is None,
        r.trigger_source@ == "CH1"@ && r.trigger_slope@ == "RISE"@,
        r.timebase == timebase && r.trigger_level == level,
{
}

/// Law: a readout names its channel by the digit behind `CH`, counted from one; a text that
/// begins otherwise names none.
pub proof fn law_readout_names_its_channel(rest: Seq<char>, other: Seq<char>)
    ensures
        readout_channel("CH1"@ + rest) == Some(0int),
        readout_channel("CH2"@ + rest) == Some(1int),
        readout_channel("CH3"@ + rest) == Some(2int),
        readout_channel("CH4"@ + rest) == Some(3int),
        readout_channel("CH9"@ + rest) == Some(8int),
        !"CH"@.is_prefix_of(other) ==> readout_channel(other) is None,
        readout_channel(other) is Some ==> other.len() >= 3 && '0' <= other[2] && other[2] <= '9',
{
    reveal_strlit("CH");
    reveal_strlit("CH1");
    reveal_strlit("CH2");
    reveal_strlit("CH3");
    reveal_strlit("CH4");
    reveal_strlit("CH9");
    if readout_channel(other) is Some {
        assert(other.subrange(0, 2) =~= "CH"@);
    }
}

/// Law: a readout shows what stands behind its first colon and blank, without white space at the
/// ends; a readout without those is shown whole.
pub proof fn law_readout_shows_its_value(label: Seq<char>, value: Seq<char>, r: Seq<char>)
    requires
        !label.contains(':'),
    ensures
        readout_payload(label + ": "@ + value, r) ==> r == text::trimmed(value),
        readout_payload(label, r) ==> r == text::trimmed(label),
{
    reveal_strlit(": ");
    let full = label + ": "@ + value;
    let n = label.len() as int;
    assert(full.subrange(n, n + 2) =~= ": "@);
    assert(text::matches_at(full, ": "@, n));
    if readout_payload(full, r) {
        let at = choose|at: int|
            {
                &&& #[trigger] text::matches_at(full, ": "@, at)
                &&& forall|k: int| 0 <= k < at ==> !text::matches_at(full, ": "@, k)
                &&& r == text::trimmed(full.skip(at + 2))
            };
        assert(full.subrange(at, at + 2)[0] == ':');
        assert(full[at] == ':');
        if at < n {
            assert(label[at] == ':');
        }
        assert(at == n);
        assert(full.skip(n + 2) =~= value);
    }
    if text::has_text(label, ": "@) {
        let at = choose|at: int| text::matches_at(label, ": "@, at);
        assert(label.subrange(at, at + 2)[0] == ':');
        assert(label[at] == ':');
    }
}

/// Law: applying a channel of the source sends its voltage and then its current limit, applying
/// its protection the voltage and then the current protection, all as set for that channel,
/// counted from one. The switch turns the output of its channel over, and no other, and sends
/// the new state.
pub proof fn law_source_controls_reach_their_channel(
    before: SourceControls,
    after: SourceControls,
    index: usize,
)
    requires
        before.wf(),
        index < 4,
    ensures
        source_pressed(before, after, SourceKey::Apply { index }) ==> after.outputs@
            == before.outputs@ && source_commands(after, SourceKey::Apply { index }) == seq![
            ControlCommand::SourceVoltage {
                channel: (index + 1) as u8,
                value: before.voltages@[index as int],
            },
            ControlCommand::SourceCurrent {
                channel: (index + 1) as u8,
                value: before.currents@[index as int],
            },
        ],
        source_pressed(before, after, SourceKey::ApplyProtection { index }) ==> after.outputs@
            == before.outputs@ && source_commands(after, SourceKey::ApplyProtection { index })
            == seq![
            ControlCommand::SourceOvp {
                channel: (index + 1) as u8,
                value: before.ovps@[index as int],
            },
            ControlCommand::SourceOcp {
                channel: (index + 1) as u8,
                value: before.ocps@[index as int],
            },
        ],
        source_pressed(before, after, SourceKey::Output { index }) ==> {
            &&& after.outputs@[index as int] == !before.outputs@[index as int]
            &&& forall|k: int|
                0 <= k < 4 && k != index ==> #[trigger] after.outputs@[k] == before.outputs@[k]
            &&& after.outputs@.len() == before.outputs@.len()
            &&& after.voltages == before.voltages && after.currents == before.currents
            &&& source_commands(after, SourceKey::Output { index }) == seq![
                ControlCommand::SourceOutput {
                    channel: (index + 1) as u8,
                    enabled: !before.outputs@[index as int],
                },
            ]
        },
{
}

/// Law: the load is set in volts, ohms, watts or amperes by its mode; the mode is sent before the
/// level, and both name the mode that is set.
pub proof fn law_load_is_set_by_its_mode(s: LoadControls)
    ensures
        load_unit("CV"@) == " V"@,
        load_unit("CR"@) == " Ω"@,
        load_unit("CP"@) == " W"@,
        load_unit("CC"@) == " A"@,
        load_commands(s).len() == 2,
        load_commands(s)[0] == ControlCommand::LoadMode(s.mode),
        load_commands(s)[1] == (ControlCommand::LoadLevel { mode: s.mode, value: s.level }),
{
    reveal_strlit("CV");
    reveal_strlit("CR");
    reveal_strlit("CP");
    reveal_strlit("CC");
    assert("CR"@[1] != "CV"@[1]);
    assert("CP"@[1] != "CV"@[1] && "CP"@[1] != "CR"@[1]);
    assert("CC"@[1] != "CV"@[1] && "CC"@[1] != "CR"@[1] && "CC"@[1] != "CP"@[1]);
}

/// Law: the meter is told its function first, then whether its range is automatic, then the
/// range unless it is, and the integration time last, all for the function that is set.
pub proof fn law_meter_is_told_its_range_unless_automatic(s: MeterControls)
    ensures
        ({
            let c = meter_commands(s);
            &&& c[0] == ControlCommand::DmmFunction(s.function)
            &&& c[1] == (ControlCommand::DmmAutoRange {
                function: s.function,
                enabled: s.autorange,
            })
            &&& c.last() == (ControlCommand::DmmNplc { function: s.function, value: s.nplc })
            &&& s.autorange ==> c.len() == 3
            &&& !s.autorange ==> c.len() == 4 && c[2] == (ControlCommand::DmmRange {
                function: s.function,
                value: s.range,
            })
        }),
{
}

/// Law: every control of the probe sends the command of its name, with what is set for it.
pub proof fn law_probe_controls_send_their_command(s: ProbeControls)
    ensures
        probe_command(s, ProbeKey::Attach) == (ControlCommand::ProbeAttach { target: s.chip }),
        probe_command(s, ProbeKey::Halt) is ProbeHalt,
        probe_command(s, ProbeKey::Run) is ProbeRun,
        probe_command(s, ProbeKey::Reset) == (ControlCommand::ProbeReset { hardware: false }),
        probe_command(s, ProbeKey::HardwareReset) == (ControlCommand::ProbeReset {
            hardware: true,
        }),
        probe_command(s, ProbeKey::Status) is ProbeStatus,
        probe_command(s, ProbeKey::Regs) is ProbeRegs,
        probe_command(s, ProbeKey::Erase) is ProbeErase,
        probe_command(s, ProbeKey::Speed) == (ControlCommand::ProbeSpeed { khz: s.speed_khz }),
        probe_command(s, ProbeKey::Flash) == (ControlCommand::ProbeFlash {
            path: s.flash_path,
            verify: s.flash_verify,
        }),
        probe_command(s, ProbeKey::ReadMem) == (ControlCommand::ProbeMemRead {
            address: s.mem_addr,
            len: s.mem_len,
        }),
        probe_command(s, ProbeKey::WriteMem) == (ControlCommand::ProbeMemWrite {
            address: s.mem_addr,
            data_hex: s.mem_write_hex,
        }),
        probe_command(s, ProbeKey::Rtt { on: true }) == (ControlCommand::ProbeRttStart {
            up_channel: s.rtt_channel,
        }),
        probe_command(s, ProbeKey::Rtt { on: false }) is ProbeRttStop,
{
}

/// Law: the bridge transfers over the bus of its tab, with what is set for that bus; on the tab
/// of the pins it sets the pin, and asking reads all pins and changes none.
pub proof fn law_bridge_uses_the_bus_of_its_tab(s: BridgeControls)
    ensures
        s.tab == 0 ==> bridge_command(s, BridgeKey::Transfer) == (ControlCommand::BridgeSpi {
            mode: s.spi_mode,
            clock_hz: s.spi_hz,
            cs: s.spi_cs,
            write_hex: s.write_hex,
            read_len: s.read_len,
        }),
        s.tab == 1 ==> bridge_command(s, BridgeKey::Transfer) == (ControlCommand::BridgeI2c {
            addr: s.i2c_addr,
            write_hex: s.write_hex,
            read_len: s.read_len,
            clock_hz: s.i2c_hz,
        }),
        s.tab == 2 ==> bridge_command(s, BridgeKey::Transfer) == (ControlCommand::BridgeGpio {
            pin: s.gpio_pin,
            dir: Some(s.gpio_out),
            value: Some(s.gpio_value),
        }),
        s.tab == 2 ==> bridge_command(s, BridgeKey::Inquire) == (ControlCommand::BridgeGpio {
            pin: 255,
            dir: None,
            value: None,
        }),
        s.tab != 2 ==> bridge_command(s, BridgeKey::Inquire) is BridgeInfo,
{
}

/// Law: a line of the console is sent without the white space around it: as a query where it
/// ends in a question mark, else as a command.
pub proof fn law_console_asks_with_a_question_mark(typed: Seq<char>, command: ControlCommand)
    requires
        text::trimmed(typed).len() > 0,
        console_sends(typed, command),
    ensures
        command is RawQuery <==> text::trimmed(typed).last() == '?',
        command is RawQuery ==> command->RawQuery_0@ == text::trimmed(typed),
        !(command is RawQuery) ==> command is RawWrite && command->RawWrite_0@ == text::trimmed(
            typed,
        ),
{
}

/// Law: a text that is added to a log stands at its end, on a line of its own; what was there
/// stays in front of it. The log is cut only past 32768 bytes, and then to the last 24576, less
/// the part of a character at most.
pub proof fn law_log_ends_in_what_was_added(log: Seq<char>, added: Seq<char>, r: Seq<char>)
    ensures
        ({
            let whole = log_with(log, added);
            &&& log.is_prefix_of(whole) && added.is_suffix_of(whole)
            &&& log.len() == 0 || log.last() == '\n' ==> whole == log + added
            &&& log.len() > 0 && log.last() != '\n' ==> whole.len() == log.len() + 1 + added.len()
                && whole[log.len() as int] == '\n'
            &&& log_kept(whole, r) && text::byte_len(whole) <= 32768 ==> r == whole
            &&& log_kept(whole, r) && text::byte_len(whole) > 32768 ==> r.is_suffix_of(whole)
                && 24572 < text::byte_len(r) <= 24576
        }),
{
    reveal_strlit("\n");
    let whole = log_with(log, added);
    if log_kept(whole, r) && text::byte_len(whole) > 32768 {
        let from = choose|from: int|
            {
                &&& 0 <= from <= whole.len()
                &&& r == #[trigger] whole.skip(from)
                &&& text::byte_len(r) <= IO_LOG_KEPT
                &&& from > 0 ==> text::byte_len(whole.skip(from - 1)) > IO_LOG_KEPT
            };
        if from == 0 {
            assert(whole.skip(0) =~= whole);
        } else {
            let one = seq![whole[from - 1]];
            assert(whole.skip(from - 1) =~= one + r);
            text::lemma_byte_len_add(one, r);
            assert(one.drop_last() =~= Seq::<char>::empty());
            assert(text::byte_len(one.drop_last()) == 0);
            assert(text::byte_len(one) == text::utf8_width(whole[from - 1]));
        }
        assert(r =~= whole.subrange(whole.len() - r.len(), whole.len() as int));
    }
}

/// Law: the note of an activity is one line of at most 72 characters: what was told, without
/// white space at its ends, or its first 71 characters and an ellipsis. A blank one leaves the
/// note that was there.
pub proof fn law_activity_is_noted_on_one_line(slot: Seq<char>, s: Seq<char>)
    ensures
        text::trimmed(s).len() == 0 ==> noted(slot, s) == slot,
        text::trimmed(s).len() > 0 ==> ({
            let r = noted(slot, s);
            let t = text::trimmed(s);
            &&& r.len() <= 72
            &&& !r.contains('\n')
            &&& t.len() <= 72 ==> r.len() == t.len() && (forall|i: int|
                0 <= i < t.len() && t[i] != '\n' ==> #[trigger] r[i] == t[i])
            &&& t.len() > 72 ==> r.len() == 72 && r[71] == '…' && (forall|i: int|
                0 <= i < 71 && t[i] != '\n' ==> #[trigger] r[i] == t[i])
        }),
{
    reveal_strlit("…");
    let t = text::trimmed(s);
    let one = text::swap_char(t, '\n', ' ');
    text::law_swapped_char_is_gone(t, '\n', ' ');
    let r = activity_note(s);
    if r.contains('\n') {
        let k = choose|k: int| 0 <= k < r.len() && r[k] == '\n';
        assert(one[k] == '\n' || k == 71);
        assert(one.contains('\n') || one.len() > 72);
    }
}

/// Law: of the readouts that there are the first is shown.
pub proof fn law_first_kept_readout(results: Seq<Option<String>>, r: Option<String>, i: int)
    requires
        is_first_kept(results, r),
    ensures
        0 <= i < results.len() && results[i] is Some && (forall|j: int|
            0 <= j < i ==> (#[trigger] results[j]) is None) ==> r == results[i],
        r is None <==> forall|j: int| 0 <= j < results.len() ==> (#[trigger] results[j]) is None,
{
}

/// Law: at start a source has all its outputs off, a probe prints nothing and verifies what it
/// flashes, and a bridge is on its first bus with its pin an output that is low.
pub proof fn law_controls_start_safe(
    source: SourceControls,
    v: Real,
    a: Real,
    ovp: Real,
    ocp: Real,
    probe: ProbeControls,
    bridge: BridgeControls,
    i: int,
)
    requires
        0 <= i < 4,
    ensures
        source_at_start(source, v, a, ovp, ocp) ==> !source.outputs@[i] && source.voltages@[i] == v
            && source.currents@[i] == a && source.ovps@[i] == ovp && source.ocps@[i] == ocp
            && !source.outputs@.contains(true),
        probe_at_start(probe) ==> !probe.rtt_on && probe.flash_verify && probe.chip@.len() == 0
            && probe.flash_path@.len() == 0 && probe.mem_addr@ == "08000000"@ && probe.mem_len
            == 64 && probe.mem_write_hex@.len() == 0 && probe.rtt_channel == 0 && probe.speed_khz
            == 4_000,
        bridge_at_start(bridge) ==> bridge.tab == 0 && bridge.spi_mode == 0 && bridge.spi_hz
            == 1_000_000 && bridge.spi_cs == 0 && bridge.write_hex@.len() == 0 && bridge.read_len
            == 4 && bridge.i2c_addr@ == "50"@ && bridge.i2c_hz == 100_000 && bridge.gpio_pin == 0
            && bridge.gpio_out && !bridge.gpio_value,
{
    if source_at_start(source, v, a, ovp, ocp) {
        assert(!source.outputs@[0] && !source.outputs@[1] && !source.outputs@[2]
            && !source.outputs@[3]);
    }
}

} // verus!
