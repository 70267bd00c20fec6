//! What is asked of the bench: by its buttons, by the clock and from outside.
use vstd::prelude::*;
use vstd::string::*;

use crate::bench::{InstrumentControlPanel, InstrumentJobResult};
use crate::bench_status::BenchStatus;
use crate::discovery::{ConnectRequest, DemoRequest, UsbAddress};
use crate::instrument::{InstrumentKind, CARD_COUNT};
use crate::lang::Lang;
use crate::rack::{DeviceUi, Rack};
use crate::{bench, bench_status, discovery, files, instrument, rack, text};

verus! {

broadcast use vstd::std_specs::hash::group_hash_axioms;

// ---------------------------------------------------------------------------
// Questions
// ---------------------------------------------------------------------------

/// Whether an instrument is being sampled right now.
pub open spec fn is_live(device: DeviceUi) -> bool {
    device.acquiring && !device.paused
}

/// How many of the first `n` instruments are being sampled right now.
pub open spec fn live_count(devices: Seq<DeviceUi>, n: int) -> nat
    decreases n,
{
    if n <= 0 {
        0
    } else {
        live_count(devices, n - 1) + if is_live(devices[n - 1]) {
            1nat
        } else {
            0nat
        }
    }
}

/// A connected instrument, as others are told of it.
pub struct LiveDevice {
    pub device_id: u64,
    pub resource: String,
    pub kind: InstrumentKind,
    pub model: String,
    pub manufacturer: String,
    pub serial: String,
}

/// Whether `live` tells of an instrument.
pub open spec fn tells_of(live: LiveDevice, device: DeviceUi) -> bool {
    &&& live.device_id == device.id
    &&& live.resource@ == device.resource@
    &&& live.kind == device.kind
    &&& live.model@ == device.identity.model@
    &&& live.manufacturer@ == device.identity.manufacturer@
    &&& live.serial@ == device.identity.serial@
}

impl InstrumentControlPanel {
    /// What the status line says.
    pub fn status_text(&self, lang: Lang) -> (r: String)
        ensures
            r@ == bench_status::status_text(self.status, lang),
    {
        self.status.line(lang)
    }

    /// Puts the status line into words, in the language of the moment: it says the same from
    /// then on, in whatever language it is asked for, until something else happens.
    pub fn settle_status(&mut self, lang: Lang)
        ensures
            old(self).wf() ==> final(self).wf(),
            forall|asked: Lang|
                #[trigger] bench_status::status_text(final(self).status, asked)
                    == bench_status::status_text(old(self).status, lang),
            *final(self) == (InstrumentControlPanel { status: final(self).status, ..*old(self) }),
    {
        let message = self.status.line(lang);
        self.status = BenchStatus::Message { message };
    }

    /// Whether an instrument is being sampled right now.
    pub fn live_active(&self) -> (r: bool)
        ensures
            r == exists|i: int|
                0 <= i < self.rack.devices@.len() && is_live(#[trigger] self.rack.devices@[i]),
    {
        let mut i: usize = 0;
        while i < self.rack.devices.len()
            invariant
                i <= self.rack.devices@.len(),
                forall|k: int| 0 <= k < i ==> !is_live(#[trigger] self.rack.devices@[k]),
            decreases self.rack.devices@.len() - i,
        {
            if self.rack.devices[i].acquiring && !self.rack.devices[i].paused {
                assert(is_live(self.rack.devices@[i as int]));
                return true;
            }
            i = i + 1;
        }
        false
    }

    /// How many instruments are being sampled right now.
    pub fn live_total(&self) -> (r: usize)
        ensures
            r == live_count(self.rack.devices@, self.rack.devices@.len() as int),
    {
        let mut n: usize = 0;
        let mut i: usize = 0;
        while i < self.rack.devices.len()
            invariant
                i <= self.rack.devices@.len(),
                n <= i,
                n == live_count(self.rack.devices@, i as int),
            decreases self.rack.devices@.len() - i,
        {
            if self.rack.devices[i].acquiring && !self.rack.devices[i].paused {
                n = n + 1;
            }
            i = i + 1;
        }
        n
    }

    /// How many instruments are connected.
    pub fn device_count(&self) -> (r: usize)
        ensures
            r == self.rack.devices@.len(),
    {
        self.rack.devices.len()
    }

    /// The instrument that is selected.
    pub fn selected_device_id(&self) -> (r: Option<u64>)
        ensures
            r == self.rack.selected_id,
    {
        self.rack.selected_id
    }

    /// Whether the overview is open.
    pub fn overview_open(&self) -> (r: bool)
        ensures
            r == self.rack.overview_open,
    {
        self.rack.overview_open
    }

    /// Whether a scan runs.
    pub fn is_scanning(&self) -> (r: bool)
        ensures
            r == self.scanning,
    {
        self.scanning
    }

    /// The oscilloscope to ask where none is named.
    pub fn first_oscilloscope_id(&self) -> (r: Option<u64>)
        ensures
            r == rack::selection_for(
                self.rack.devices@,
                self.rack.selected_id,
                InstrumentKind::Oscilloscope,
            ),
    {
        self.rack.first_oscilloscope_id()
    }

    /// Hands the results of finished jobs on.
    pub fn take_job_results(&mut self) -> (r: Vec<InstrumentJobResult>)
        ensures
            r@ == old(self).jobs.results@,
            final(self).jobs.results@ == Seq::<InstrumentJobResult>::empty(),
            final(self).jobs.next_id == old(self).jobs.next_id,
            *final(self) == (InstrumentControlPanel { jobs: final(self).jobs, ..*old(self) }),
    {
        self.jobs.take_job_results()
    }

    /// The connected instruments, as others are told of them.
    pub fn live_devices_for_hub(&self) -> (r: Vec<LiveDevice>)
        ensures
            r@.len() == self.rack.devices@.len(),
            forall|i: int|
                0 <= i < r@.len() ==> tells_of(#[trigger] r@[i], self.rack.devices@[i]),
    {
        let mut r: Vec<LiveDevice> = Vec::new();
        let mut i: usize = 0;
        while i < self.rack.devices.len()
            invariant
                i <= self.rack.devices@.len(),
                r@.len() == i,
                forall|k: int| 0 <= k < i ==> tells_of(#[trigger] r@[k], self.rack.devices@[k]),
            decreases self.rack.devices@.len() - i,
        {
            let d = &self.rack.devices[i];
            r.push(
                LiveDevice {
                    device_id: d.id,
                    resource: d.resource.clone(),
                    kind: d.kind,
                    model: d.identity.model.clone(),
                    manufacturer: d.identity.manufacturer.clone(),
                    serial: d.identity.serial.clone(),
                },
            );
            i = i + 1;
        }
        r
    }

    /// The program ends: nothing is sampled any more.
    pub fn on_exit(&mut self)
        ensures
            old(self).wf() ==> final(self).wf(),
            final(self).rack.devices@.len() == old(self).rack.devices@.len(),
            forall|i: int|
                0 <= i < old(self).rack.devices@.len() ==> #[trigger] final(
                    self).rack.devices@[i] == (DeviceUi {
                    acquiring: false,
                    ..old(self).rack.devices@[i]
                }),
            *final(self) == (InstrumentControlPanel {
                rack: (Rack { devices: final(self).rack.devices, ..old(self).rack }),
                ..*old(self)
            }),
    {
        let mut i: usize = 0;
        while i < self.rack.devices.len()
            invariant
                i <= self.rack.devices@.len() == old(self).rack.devices@.len(),
                forall|k: int|
                    0 <= k < i ==> #[trigger] self.rack.devices@[k] == (DeviceUi {
                        acquiring: false,
                        ..old(self).rack.devices@[k]
                    }),
                forall|k: int|
                    i <= k < self.rack.devices@.len() ==> #[trigger] self.rack.devices@[k] == old(
                        self).rack.devices@[k],
                *self == (InstrumentControlPanel {
                    rack: (Rack { devices: self.rack.devices, ..old(self).rack }),
                    ..*old(self)
                }),
            decreases self.rack.devices@.len() - i,
        {
            self.rack.devices[i].acquiring = false;
            i = i + 1;
        }
    }
}

// ---------------------------------------------------------------------------
// Sampling
// ---------------------------------------------------------------------------

/// The time at which the last sample counts as taken so that the next one is due at once.
pub open spec fn due_now(now: u64, interval: u64) -> u64 {
    if now >= interval {
        (now - interval) as u64
    } else {
        0
    }
}

/// A button of the sampling of an instrument.
#[derive(Debug, Clone, Copy, PartialEq, Eq, Structural)]
pub enum SamplingKey {
    Start,
    Pause,
    Stop,
}

/// Whether a button is offered for an instrument.
pub open spec fn key_offered(device: DeviceUi, key: SamplingKey) -> bool {
    match key {
        SamplingKey::Start => !device.acquiring,
        _ => device.acquiring,
    }
}

/// An instrument after a button was pressed; one that is not offered changes nothing.
pub open spec fn sampled_device(device: DeviceUi, key: SamplingKey) -> DeviceUi {
    if !key_offered(device, key) {
        device
    } else {
        match key {
            SamplingKey::Start => DeviceUi { acquiring: true, paused: false, ..device },
            SamplingKey::Pause => DeviceUi { paused: !device.paused, ..device },
            SamplingKey::Stop => DeviceUi { acquiring: false, paused: false, ..device },
        }
    }
}

/// Whether `after` is the bench `before` after a button of the sampling was pressed.
pub open spec fn sampling_pressed(
    before: InstrumentControlPanel,
    after: InstrumentControlPanel,
    index: usize,
    key: SamplingKey,
    now: u64,
) -> bool {
    &&& after.rack.devices@ == before.rack.devices@.update(
        index as int,
        sampled_device(before.rack.devices@[index as int], key),
    )
    &&& ({
        let device = before.rack.devices@[index as int];
        after.last_sample == if is_live(sampled_device(device, key)) && !is_live(device) {
            due_now(now, before.sample_interval_ms)
        } else {
            before.last_sample
        }
    })
    &&& after == (InstrumentControlPanel {
        rack: (Rack { devices: after.rack.devices, ..before.rack }),
        last_sample: after.last_sample,
        ..before
    })
}

/// Whether `after` is the bench `before` after the sampling of a source was switched.
pub open spec fn source_switched(
    before: InstrumentControlPanel,
    after: InstrumentControlPanel,
    index: usize,
    r: Option<u64>,
) -> bool {
    &&& ({
        let device = before.rack.devices@[index as int];
        &&& after.rack.devices@ == before.rack.devices@.update(
            index as int,
            if device.acquiring {
                DeviceUi { acquiring: false, ..device }
            } else {
                DeviceUi { acquiring: true, paused: false, ..device }
            },
        )
        &&& r == if device.acquiring {
            None
        } else {
            Some(device.id)
        }
        &&& after.measuring@ == if device.acquiring {
            before.measuring@
        } else {
            before.measuring@.insert(device.id)
        }
    })
    &&& after == (InstrumentControlPanel {
        rack: (Rack { devices: after.rack.devices, ..before.rack }),
        measuring: after.measuring,
        ..before
    })
}

impl InstrumentControlPanel {
    /// A button of the sampling of an instrument was pressed. Starting and going on make a
    /// sample due at once.
    pub fn press_sampling(&mut self, index: usize, key: SamplingKey, now: u64)
        requires
            index < old(self).rack.devices@.len(),
        ensures
            old(self).wf() ==> final(self).wf(),
            sampling_pressed(*old(self), *final(self), index, key, now),
    {
        let ghost before = self.rack.devices@;
        let acquiring: bool = self.rack.devices[index].acquiring;
        let paused: bool = self.rack.devices[index].paused;
        let interval: u64 = self.sample_interval_ms;
        let soon: u64 = if now >= interval {
            now - interval
        } else {
            0
        };
        match key {
            SamplingKey::Start => {
                if !acquiring {
                    self.rack.devices[index].acquiring = true;
                    self.rack.devices[index].paused = false;
                    self.last_sample = soon;
                }
            },
            SamplingKey::Pause => {
                if acquiring {
                    self.rack.devices[index].paused = !paused;
                    if paused {
                        self.last_sample = soon;
                    }
                }
            },
            SamplingKey::Stop => {
                if acquiring {
                    self.rack.devices[index].acquiring = false;
                    self.rack.devices[index].paused = false;
                }
            },
        }
        assert(self.rack.devices@ =~= before.update(
            index as int,
            sampled_device(before[index as int], key),
        ));
    }

    /// The sampling of a source is switched. Switching it on asks for its values at once: the
    /// result is the instrument to ask.
    pub fn switch_source_sampling(&mut self, index: usize) -> (r: Option<u64>)
        requires
            index < old(self).rack.devices@.len(),
        ensures
            old(self).wf() ==> final(self).wf(),
            source_switched(*old(self), *final(self), index, r),
    {
        let ghost before = self.rack.devices@;
        let on: bool = !self.rack.devices[index].acquiring;
        let id: u64 = self.rack.devices[index].id;
        self.rack.devices[index].acquiring = on;
        if on {
            self.rack.devices[index].paused = false;
        }
        assert(self.rack.devices@ =~= before.update(
            index as int,
            if before[index as int].acquiring {
                DeviceUi { acquiring: false, ..before[index as int] }
            } else {
                DeviceUi { acquiring: true, paused: false, ..before[index as int] }
            },
        ));
        if on {
            let _n: bool = self.measuring.insert(id);
            Some(id)
        } else {
            None
        }
    }
}

/// The instruments among the first `n` to be measured: those being sampled whose values were
/// not asked for yet.
pub open spec fn to_measure(devices: Seq<DeviceUi>, asked: Set<u64>, n: int) -> (Seq<u64>, Set<u64>)
    decreases n,
{
    if n <= 0 {
        (Seq::empty(), asked)
    } else {
        let (ids, set) = to_measure(devices, asked, n - 1);
        let d = devices[n - 1];
        if is_live(d) && !set.contains(d.id) {
            (ids.push(d.id), set.insert(d.id))
        } else {
            (ids, set)
        }
    }
}

/// Whether an instrument is a probe whose output is read.
pub open spec fn prints(device: DeviceUi) -> bool {
    device.kind is DebugProbe && device.controls.probe.rtt_on
}

/// The probes among the first `n` to be asked for output: those whose output is read and was
/// not asked for yet.
pub open spec fn to_read(devices: Seq<DeviceUi>, asked: Set<u64>, n: int) -> (Seq<u64>, Set<u64>)
    decreases n,
{
    if n <= 0 {
        (Seq::empty(), asked)
    } else {
        let (ids, set) = to_read(devices, asked, n - 1);
        let d = devices[n - 1];
        if prints(d) && !set.contains(d.id) {
            (ids.push(d.id), set.insert(d.id))
        } else {
            (ids, set)
        }
    }
}

/// How long the output of a probe is left before it is read again, in milliseconds.
pub const OUTPUT_INTERVAL_MS: u64 = 150;

/// Whether `r` are the instruments to measure at a time, and `after` is the bench `before` then.
pub open spec fn samples_due(
    before: InstrumentControlPanel,
    after: InstrumentControlPanel,
    now: u64,
    r: Seq<u64>,
) -> bool {
    &&& ({
        let devices = before.rack.devices@;
        let any = exists|i: int| 0 <= i < devices.len() && is_live(#[trigger] devices[i]);
        if any && now - before.last_sample >= before.sample_interval_ms {
            let (ids, set) = to_measure(
                devices,
                before.measuring@,
                devices.len() as int,
            );
            &&& r == ids
            &&& after.measuring@ == set
            &&& after.last_sample == now
        } else {
            &&& r == Seq::<u64>::empty()
            &&& after.measuring@ == before.measuring@
            &&& after.last_sample == before.last_sample
        }
    })
    &&& after == (InstrumentControlPanel {
        measuring: after.measuring,
        last_sample: after.last_sample,
        ..before
    })
}

/// Whether `r` are the probes to ask for output at a time, and `after` is the bench `before` then.
pub open spec fn output_due(
    before: InstrumentControlPanel,
    after: InstrumentControlPanel,
    now: u64,
    r: Seq<u64>,
) -> bool {
    &&& ({
        let devices = before.rack.devices@;
        if now - before.last_output >= OUTPUT_INTERVAL_MS {
            let (ids, set) = to_read(
                devices,
                before.reading_output@,
                devices.len() as int,
            );
            &&& r == ids
            &&& after.reading_output@ == set
            &&& after.last_output == now
        } else {
            &&& r == Seq::<u64>::empty()
            &&& after.reading_output@ == before.reading_output@
            &&& after.last_output == before.last_output
        }
    })
    &&& after == (InstrumentControlPanel {
        reading_output: after.reading_output,
        last_output: after.last_output,
        ..before
    })
}

/// Whether `after` is the bench `before` with its long work told.
pub open spec fn busy_told(
    before: InstrumentControlPanel,
    after: InstrumentControlPanel,
    now: u64,
) -> bool {
    &&& ({
        let busy = before.busy;
        if busy.device is Some && busy.started is Some && busy.label@.len() > 0 {
            after.status matches BenchStatus::Busy { label, seconds } && label@
                == busy.label@ && seconds == bench::elapsed_seconds(
                busy.started->Some_0,
                now,
            )
        } else {
            after.status == before.status
        }
    })
    &&& after == (InstrumentControlPanel { status: after.status, ..before })
}

impl InstrumentControlPanel {
    /// The instruments to measure now.
    pub fn due_samples(&mut self, now: u64) -> (r: Vec<u64>)
        ensures
            samples_due(*old(self), *final(self), now, r@),
    {
        let mut r: Vec<u64> = Vec::new();
        if !self.live_active() || now < self.last_sample || now - self.last_sample
            < self.sample_interval_ms {
            return r;
        }
        self.last_sample = now;
        let mut i: usize = 0;
        while i < self.rack.devices.len()
            invariant
                i <= self.rack.devices@.len(),
                *self == (InstrumentControlPanel {
                    measuring: self.measuring,
                    last_sample: now,
                    ..*old(self)
                }),
                (r@, self.measuring@) == to_measure(
                    old(self).rack.devices@,
                    old(self).measuring@,
                    i as int,
                ),
            decreases self.rack.devices@.len() - i,
        {
            let id: u64 = self.rack.devices[i].id;
            if self.rack.devices[i].acquiring && !self.rack.devices[i].paused {
                let ghost before = self.measuring@;
                let fresh: bool = self.measuring.insert(id);
                if fresh {
                    r.push(id);
                } else {
                    assert(before.insert(id) =~= before);
                }
            }
            i = i + 1;
        }
        r
    }

    /// The probes to ask for output now.
    pub fn due_output(&mut self, now: u64) -> (r: Vec<u64>)
        ensures
            output_due(*old(self), *final(self), now, r@),
    {
        let mut r: Vec<u64> = Vec::new();
        if now < self.last_output || now - self.last_output < OUTPUT_INTERVAL_MS {
            return r;
        }
        self.last_output = now;
        let mut i: usize = 0;
        while i < self.rack.devices.len()
            invariant
                i <= self.rack.devices@.len(),
                *self == (InstrumentControlPanel {
                    reading_output: self.reading_output,
                    last_output: now,
                    ..*old(self)
                }),
                (r@, self.reading_output@) == to_read(
                    old(self).rack.devices@,
                    old(self).reading_output@,
                    i as int,
                ),
            decreases self.rack.devices@.len() - i,
        {
            let id: u64 = self.rack.devices[i].id;
            let probe: bool = match self.rack.devices[i].kind {
                InstrumentKind::DebugProbe => true,
                _ => false,
            };
            if probe && self.rack.devices[i].controls.probe.rtt_on {
                let ghost before = self.reading_output@;
                let fresh: bool = self.reading_output.insert(id);
                if fresh {
                    r.push(id);
                } else {
                    assert(before.insert(id) =~= before);
                }
            }
            i = i + 1;
        }
        r
    }

    /// What the status line says while long work runs.
    pub fn tick_busy(&mut self, now: u64)
        ensures
            busy_told(*old(self), *final(self), now),
    {
        match self.busy.status(now) {
            Some(s) => {
                self.status = s;
            },
            None => {},
        }
    }
}

proof fn lemma_to_measure(devices: Seq<DeviceUi>, asked: Set<u64>, n: int)
    requires
        0 <= n <= devices.len(),
    ensures
        ({
            let (ids, set) = to_measure(devices, asked, n);
            &&& forall|k: int|
                0 <= k < ids.len() ==> !asked.contains(#[trigger] ids[k]) && set.contains(ids[k])
            &&& forall|a: u64| asked.contains(a) ==> #[trigger] set.contains(a)
            &&& forall|i: int, j: int|
                0 <= i < j < ids.len() ==> #[trigger] ids[i] != #[trigger] ids[j]
            &&& forall|i: int|
                0 <= i < n && is_live(#[trigger] devices[i]) ==> set.contains(devices[i].id)
        }),
    decreases n,
{
    if n > 0 {
        lemma_to_measure(devices, asked, n - 1);
        let (front, before) = to_measure(devices, asked, n - 1);
        let (ids, set) = to_measure(devices, asked, n);
        let d = devices[n - 1];
        if is_live(d) && !before.contains(d.id) {
            assert(ids == front.push(d.id));
            assert(set == before.insert(d.id));
            assert forall|k: int| 0 <= k < ids.len() implies !asked.contains(#[trigger] ids[k])
                && set.contains(ids[k]) by {
                if k < front.len() {
                    assert(ids[k] == front[k]);
                }
            }
            assert forall|i: int, j: int| 0 <= i < j < ids.len() implies #[trigger] ids[i]
                != #[trigger] ids[j] by {
                assert(ids[i] == front[i]);
                if j < front.len() {
                    assert(ids[j] == front[j]);
                }
            }
        } else {
            assert(ids == front && set == before);
        }
        assert forall|i: int| 0 <= i < n && is_live(#[trigger] devices[i]) implies set.contains(
            devices[i].id,
        ) by {
            if i < n - 1 {
                assert(before.contains(devices[i].id));
            }
        }
    }
}

/// Law: an instrument is asked for its values only when no earlier request is open, and only
/// once in a round; after a round every instrument that is being sampled was asked.
pub proof fn law_one_request_per_instrument(devices: Seq<DeviceUi>, asked: Set<u64>)
    ensures
        ({
            let (ids, set) = to_measure(devices, asked, devices.len() as int);
            &&& forall|k: int| 0 <= k < ids.len() ==> !asked.contains(#[trigger] ids[k])
            &&& forall|i: int, j: int|
                0 <= i < j < ids.len() ==> #[trigger] ids[i] != #[trigger] ids[j]
            &&& forall|i: int|
                0 <= i < devices.len() && is_live(#[trigger] devices[i]) ==> set.contains(
                    devices[i].id,
                )
        }),
{
    lemma_to_measure(devices, asked, devices.len() as int);
}

/// Law: pausing twice goes on as before, and stopping ends sampling for good.
pub proof fn law_sampling_buttons(device: DeviceUi)
    requires
        device.acquiring,
    ensures
        sampled_device(sampled_device(device, SamplingKey::Pause), SamplingKey::Pause) == device,
        !is_live(sampled_device(device, SamplingKey::Stop)),
        sampled_device(sampled_device(device, SamplingKey::Stop), SamplingKey::Pause)
            == sampled_device(device, SamplingKey::Stop),
{
}

// ---------------------------------------------------------------------------
// Connecting
// ---------------------------------------------------------------------------

/// What changing the debug mode asks for.
pub enum DebugChange {
    Nothing,
    Open(Vec<DemoRequest>),
    Close(Vec<u64>),
}

/// Whether `after` is the bench `before` with its debug mode switched.
pub open spec fn debug_switched(
    before: InstrumentControlPanel,
    after: InstrumentControlPanel,
    enabled: bool,
    r: DebugChange,
) -> bool {
    &&& after.debug_mode == enabled
    &&& match r {
        DebugChange::Nothing => before.debug_mode == enabled && after == before,
        DebugChange::Open(begun) => {
            let kinds = discovery::missing_kinds(
                before.rack.devices@,
                CARD_COUNT as int,
            );
            &&& enabled && !before.debug_mode
            &&& after.status is DebugOn
            &&& after.rack == discovery::demos_begun(
                before.rack,
                kinds,
                kinds.len() as int,
            )
            &&& begun@.len() == kinds.len()
            &&& forall|k: int|
                0 <= k < begun@.len() ==> #[trigger] begun@[k] == (DemoRequest {
                    id: (before.rack.next_id + k) as u64,
                    kind: kinds[k],
                })
        },
        DebugChange::Close(ids) => {
            &&& !enabled && before.debug_mode
            &&& after.status is DebugOff
            &&& after.rack == before.rack
            &&& ids@ == discovery::demo_numbers(
                before.rack.devices@,
                before.rack.devices@.len() as int,
            )
        },
    }
    &&& after == (InstrumentControlPanel {
        rack: after.rack,
        status: after.status,
        debug_mode: enabled,
        ..before
    })
}

/// Whether `after` is the bench `before` after a scan was asked for.
pub open spec fn scan_begun(
    before: InstrumentControlPanel,
    after: InstrumentControlPanel,
    begun: bool,
) -> bool {
    &&& begun == !before.scanning
    &&& begun ==> after.scanning && after.status is Scanning
    &&& after == (if begun {
        InstrumentControlPanel {
            scanning: true,
            status: after.status,
            ..before
        }
    } else {
        before
    })
}

impl InstrumentControlPanel {
    /// Switches the debug mode: on opens demonstrations of what is missing, off closes all
    /// demonstrations.
    pub fn apply_debug_mode(&mut self, enabled: bool) -> (r: DebugChange)
        requires
            old(self).rack.next_id <= u64::MAX - CARD_COUNT,
        ensures
            old(self).wf() ==> final(self).wf(),
            debug_switched(*old(self), *final(self), enabled, r),
    {
        if self.debug_mode == enabled {
            return DebugChange::Nothing;
        }
        self.debug_mode = enabled;
        if enabled {
            proof {
                let kinds = discovery::missing_kinds(self.rack.devices@, CARD_COUNT as int);
                discovery::lemma_demos_keep_the_rest(self.rack, kinds, kinds.len() as int);
            }
            let begun = self.rack.ensure_demo_devices();
            self.status = BenchStatus::DebugOn;
            DebugChange::Open(begun)
        } else {
            let ids = self.rack.demo_ids();
            self.status = BenchStatus::DebugOff;
            DebugChange::Close(ids)
        }
    }

    /// A scan is asked for with the button: not while one runs.
    pub fn begin_scan(&mut self) -> (begun: bool)
        ensures
            scan_begun(*old(self), *final(self), begun),
    {
        if self.scanning {
            return false;
        }
        self.scanning = true;
        self.status = BenchStatus::Scanning;
        true
    }

    /// A scan is asked for from outside.
    pub fn api_scan(&mut self)
        ensures
            *final(self) == (InstrumentControlPanel { scanning: true, ..*old(self) }),
    {
        self.scanning = true;
    }

    /// The card of a kind is asked to connect.
    pub fn begin_connect(&mut self, kind: InstrumentKind, usb: UsbAddress) -> (r: Option<
        ConnectRequest,
    >)
        requires
            old(self).wf(),
            old(self).rack.next_id < u64::MAX,
        ensures
            final(self).wf(),
            match discovery::card_resource(old(self).rack, kind) {
                None => r is None && final(self).status is NoResource && final(self).rack == old(
                    self).rack,
                Some(address) => connecting_status(
                    *old(self),
                    *final(self),
                    kind,
                    address,
                    true,
                    usb,
                    r,
                ),
            },
            *final(self) == (InstrumentControlPanel {
                rack: final(self).rack,
                status: final(self).status,
                ..*old(self)
            }),
    {
        match self.rack.resolve_card_resource(kind) {
            Some(resource) => self.begin_connect_address(kind, resource, true, usb),
            None => {
                self.status = BenchStatus::NoResource;
                None
            },
        }
    }

    /// An address is asked to be connected.
    pub fn begin_connect_address(
        &mut self,
        kind: InstrumentKind,
        resource: String,
        select: bool,
        usb: UsbAddress,
    ) -> (r: Option<ConnectRequest>)
        requires
            old(self).wf(),
            old(self).rack.next_id < u64::MAX,
        ensures
            final(self).wf(),
            connecting_status(*old(self), *final(self), kind, resource@, select, usb, r),
            *final(self) == (InstrumentControlPanel {
                rack: final(self).rack,
                status: final(self).status,
                ..*old(self)
            }),
    {
        let r = self.rack.begin_connect_address(kind, resource, select, usb);
        self.status = if r.is_some() {
            BenchStatus::Connecting
        } else {
            BenchStatus::AlreadyConnected
        };
        r
    }

    /// All found addresses are asked to be connected.
    pub fn connect_all(&mut self, usb: &Vec<UsbAddress>) -> (queued: Vec<ConnectRequest>)
        requires
            old(self).wf(),
            usb@.len() == old(self).rack.resources@.len(),
            old(self).rack.next_id + old(self).rack.resources@.len() <= u64::MAX,
        ensures
            final(self).wf(),
            discovery::all_queued(old(self).rack, final(self).rack, usb@, queued@),
            final(self).status == if queued@.len() == 0 {
                BenchStatus::NothingNew
            } else {
                BenchStatus::ConnectingAll { count: queued@.len() as usize }
            },
            *final(self) == (InstrumentControlPanel {
                rack: final(self).rack,
                status: final(self).status,
                ..*old(self)
            }),
    {
        let queued = self.rack.queue_connect_all(usb);
        self.status = if queued.len() == 0 {
            BenchStatus::NothingNew
        } else {
            BenchStatus::ConnectingAll { count: queued.len() }
        };
        queued
    }
}

/// What asking to connect an address does.
pub open spec fn connecting_status(
    before: InstrumentControlPanel,
    after: InstrumentControlPanel,
    kind: InstrumentKind,
    address: Seq<char>,
    select: bool,
    usb: UsbAddress,
    r: Option<ConnectRequest>,
) -> bool {
    if rack::address_connected(before.rack.devices@, address) {
        r is None && after.status is AlreadyConnected && after.rack == before.rack
    } else {
        &&& after.status is Connecting
        &&& discovery::connect_begun(before.rack, after.rack, kind, address, select)
        &&& r matches Some(request) && request.id == before.rack.next_id && request.resource@
            == address && request.kind == discovery::connect_kind(kind, usb)
    }
}

// ---------------------------------------------------------------------------
// Requests from outside
// ---------------------------------------------------------------------------

/// Why a request from outside is refused.
pub enum ApiError {
    MissingDevice,
    MissingSelection,
    MissingResource,
    MissingCommand,
    BadCommand(String),
    UnknownKind(String),
    DeviceNotFound,
    NotConnected,
    NoOscilloscope,
    NothingNew,
}

/// The text of a refusal.
pub open spec fn refusal_text(e: ApiError) -> Seq<char> {
    match e {
        ApiError::MissingDevice => "missing device_id"@,
        ApiError::MissingSelection => "missing device_id (or pass overview=true / kind)"@,
        ApiError::MissingResource => "missing resource"@,
        ApiError::MissingCommand => "missing command"@,
        ApiError::BadCommand(message) => message@,
        ApiError::UnknownKind(word) => "unknown kind '"@ + word@ + "'"@,
        ApiError::DeviceNotFound => "device not found"@,
        ApiError::NotConnected => "device not connected"@,
        ApiError::NoOscilloscope => "no connected oscilloscope"@,
        ApiError::NothingNew => "no new discovered resources to connect"@,
    }
}

impl ApiError {
    /// The text of the refusal.
    pub fn message(&self) -> (r: String)
        ensures
            r@ == refusal_text(*self),
    {
        match self {
            ApiError::MissingDevice => "missing device_id".to_owned(),
            ApiError::MissingSelection => "missing device_id (or pass overview=true / kind)".to_owned(),
            ApiError::MissingResource => "missing resource".to_owned(),
            ApiError::MissingCommand => "missing command".to_owned(),
            ApiError::BadCommand(message) => message.clone(),
            ApiError::UnknownKind(word) => text::join3("unknown kind '", word.as_str(), "'"),
            ApiError::DeviceNotFound => "device not found".to_owned(),
            ApiError::NotConnected => "device not connected".to_owned(),
            ApiError::NoOscilloscope => "no connected oscilloscope".to_owned(),
            ApiError::NothingNew => "no new discovered resources to connect".to_owned(),
        }
    }
}

/// The kind that a request names.
pub enum KindParam {
    Absent,
    Known(InstrumentKind),
    /// A word that is no kind.
    Word(String),
    /// Something that is no word.
    Other,
}

/// What was selected.
#[derive(Debug, Clone, Copy, PartialEq, Eq, Structural)]
pub enum Selected {
    Overview,
    Device { id: u64, kind: InstrumentKind },
    Kind { device_id: Option<u64>, kind: InstrumentKind },
}

/// Whether a word asks for the overview, whatever its case.
pub open spec fn overview_word(word: Seq<char>) -> bool {
    text::ascii_lower_seq(word) == "overview"@ || text::ascii_lower_seq(word) == "mesh"@
}

/// Whether `r` is what closing a connection from outside comes to.
pub open spec fn disconnect_asked(device_id: Option<u64>, r: Result<u64, ApiError>) -> bool {
    match r {
        Ok(id) => device_id == Some(id),
        Err(e) => device_id is None && e is MissingDevice,
    }
}

/// What a request to select does.
pub open spec fn selected_by(
    before: Rack,
    after: Rack,
    overview: bool,
    kind: KindParam,
    id: Option<u64>,
    r: Result<Selected, ApiError>,
) -> bool {
    let by_kind = match kind {
        KindParam::Known(k) => rack::with_kind(before, k),
        _ => before,
    };
    if overview || (kind matches KindParam::Word(w) && overview_word(w@)) {
        &&& after == (Rack { overview_open: true, selected_id: None, ..before })
        &&& r matches Ok(Selected::Overview)
    } else if kind is Word {
        &&& after == before
        &&& r == Err::<Selected, ApiError>(ApiError::UnknownKind(kind->Word_0))
    } else {
        match id {
            Some(i) => match rack::device_at(before.devices@, i, 0) {
                Some(k) => {
                    let found = before.devices@[k].kind;
                    &&& after == (Rack {
                        selected_id: Some(i),
                        ..rack::with_kind(by_kind, found)
                    })
                    &&& r == Ok::<Selected, ApiError>(Selected::Device { id: i, kind: found })
                },
                None => after == by_kind && r matches Err(ApiError::DeviceNotFound),
            },
            None => if kind is Absent {
                after == before && r matches Err(ApiError::MissingSelection)
            } else {
                &&& after == by_kind
                &&& r == Ok::<Selected, ApiError>(
                    Selected::Kind {
                        device_id: by_kind.selected_id,
                        kind: by_kind.selected_kind,
                    },
                )
            },
        }
    }
}

/// Whether `after` is the bench `before` after a connection was asked for from outside.
pub open spec fn connect_asked(
    before: InstrumentControlPanel,
    after: InstrumentControlPanel,
    resource: Option<String>,
    kind: Option<InstrumentKind>,
    r: Result<ConnectRequest, ApiError>,
) -> bool {
    &&& match r {
        Ok(request) => resource is Some && resource->Some_0@.len() > 0 && request.id == before.rack.next_id && request.resource@ == resource->Some_0@ && request.kind
            == kind && after == (InstrumentControlPanel {
            rack: (Rack {
                next_id: (before.rack.next_id + 1) as u64,
                ..before.rack
            }),
            ..before
        }),
        Err(e) => e is MissingResource && (resource matches Some(s) ==> s@.len() == 0)
            && after == before,
    }
}

/// Whether `after` is the bench `before` after a command was asked for from outside.
pub open spec fn command_asked(
    before: InstrumentControlPanel,
    after: InstrumentControlPanel,
    device_id: Option<u64>,
    command: Option<Result<(), String>>,
    r: Result<(u64, u64), ApiError>,
) -> bool {
    &&& match r {
        Ok(job) => device_id == Some(job.0) && (command matches Some(Ok(_))) && job.1 == before.jobs.next_id,
        Err(ApiError::MissingDevice) => device_id is None,
        Err(ApiError::MissingCommand) => device_id is Some && command is None,
        Err(ApiError::BadCommand(m)) => device_id is Some && command == Some(
            Err::<(), String>(m),
        ),
        Err(_) => false,
    }
    &&& after.jobs.results == before.jobs.results
    &&& after.jobs.next_id == if r is Ok && before.jobs.next_id < u64::MAX {
        (before.jobs.next_id + 1) as u64
    } else {
        before.jobs.next_id
    }
    &&& after == (InstrumentControlPanel { jobs: after.jobs, ..before })
}

/// Whether `after` is the bench `before` after a measurement was asked for from outside.
pub open spec fn measure_asked(
    before: InstrumentControlPanel,
    after: InstrumentControlPanel,
    device_id: Option<u64>,
    r: Result<u64, ApiError>,
) -> bool {
    &&& match r {
        Ok(id) => device_id == Some(id) && after.measuring@ == before.measuring@.insert(id),
        Err(e) => device_id is None && e is MissingDevice && after.measuring@ == before.measuring@,
    }
    &&& after == (InstrumentControlPanel {
        measuring: after.measuring,
        ..before
    })
}

impl InstrumentControlPanel {
    /// Selects the overview, a kind or an instrument.
    pub fn api_select(&mut self, overview: bool, kind: KindParam, id: Option<u64>) -> (r: Result<
        Selected,
        ApiError,
    >)
        ensures
            old(self).wf() ==> final(self).wf(),
            selected_by(old(self).rack, final(self).rack, overview, kind, id, r),
            *final(self) == (InstrumentControlPanel { rack: final(self).rack, ..*old(self) }),
    {
        let word: bool = match &kind {
            KindParam::Word(w) => text::same_ignoring_ascii_case(w.as_str(), "overview")
                || text::same_ignoring_ascii_case(w.as_str(), "mesh"),
            _ => false,
        };
        proof {
            reveal_strlit("overview");
            reveal_strlit("mesh");
            assert(text::ascii_lower_seq("overview"@) =~= "overview"@);
            assert(text::ascii_lower_seq("mesh"@) =~= "mesh"@);
        }
        if overview || word {
            self.rack.select_overview();
            return Ok(Selected::Overview);
        }
        let absent: bool = match kind {
            KindParam::Known(k) => {
                self.rack.select_kind(k);
                false
            },
            KindParam::Word(w) => {
                return Err(ApiError::UnknownKind(w));
            },
            KindParam::Absent => true,
            KindParam::Other => false,
        };
        match id {
            Some(i) => match rack::find_device(&self.rack.devices, i) {
                Some(k) => {
                    let found = self.rack.devices[k].kind;
                    self.rack.select_kind(found);
                    self.rack.selected_id = Some(i);
                    Ok(Selected::Device { id: i, kind: found })
                },
                None => Err(ApiError::DeviceNotFound),
            },
            None => if absent {
                Err(ApiError::MissingSelection)
            } else {
                Ok(
                    Selected::Kind {
                        device_id: self.rack.selected_id,
                        kind: self.rack.selected_kind,
                    },
                )
            },
        }
    }

    /// Connects an address.
    pub fn api_connect(&mut self, resource: Option<String>, kind: Option<InstrumentKind>) -> (r:
        Result<ConnectRequest, ApiError>)
        requires
            old(self).rack.next_id < u64::MAX,
        ensures
            connect_asked(*old(self), *final(self), resource, kind, r),
    {
        match resource {
            Some(resource) => {
                if resource.as_str().is_empty() {
                    return Err(ApiError::MissingResource);
                }
                let id: u64 = self.rack.next_id;
                self.rack.next_id = id + 1;
                Ok(ConnectRequest { id, resource, kind })
            },
            None => Err(ApiError::MissingResource),
        }
    }

    /// The worker took a connection.
    pub fn connect_sent(&mut self)
        ensures
            final(self).status is Connecting,
            *final(self) == (InstrumentControlPanel { status: final(self).status, ..*old(self) }),
    {
        self.status = BenchStatus::Connecting;
    }

    /// Connects every found address.
    pub fn api_connect_all(&mut self, usb: &Vec<UsbAddress>) -> (r: Result<
        Vec<ConnectRequest>,
        ApiError,
    >)
        requires
            old(self).wf(),
            usb@.len() == old(self).rack.resources@.len(),
            old(self).rack.next_id + old(self).rack.resources@.len() <= u64::MAX,
        ensures
            final(self).wf(),
            match r {
                Ok(queued) => queued@.len() > 0 && discovery::all_queued(
                    old(self).rack,
                    final(self).rack,
                    usb@,
                    queued@,
                ) && final(self).status == (BenchStatus::ConnectingAll {
                    count: queued@.len() as usize,
                }),
                Err(e) => e is NothingNew && discovery::all_queued(
                    old(self).rack,
                    final(self).rack,
                    usb@,
                    Seq::empty(),
                ) && final(self).status is NothingNew,
            },
            *final(self) == (InstrumentControlPanel {
                rack: final(self).rack,
                status: final(self).status,
                ..*old(self)
            }),
    {
        let queued = self.connect_all(usb);
        if queued.len() == 0 {
            Err(ApiError::NothingNew)
        } else {
            Ok(queued)
        }
    }

    /// Closes a connection: the result is its number.
    pub fn api_disconnect(&self, device_id: Option<u64>) -> (r: Result<u64, ApiError>)
        ensures
            disconnect_asked(device_id, r),
    {
        match device_id {
            Some(id) => Ok(id),
            None => Err(ApiError::MissingDevice),
        }
    }

    /// Sends a command: the result is the instrument and the number of the job. `command` tells
    /// whether one was given and how reading it went.
    pub fn api_command(&mut self, device_id: Option<u64>, command: Option<Result<(), String>>) -> (r:
        Result<(u64, u64), ApiError>)
        ensures
            command_asked(*old(self), *final(self), device_id, command, r),
    {
        match device_id {
            Some(id) => match command {
                Some(Ok(_)) => {
                    let job: u64 = self.jobs.alloc_job_id();
                    Ok((id, job))
                },
                Some(Err(message)) => Err(ApiError::BadCommand(message)),
                None => Err(ApiError::MissingCommand),
            },
            None => Err(ApiError::MissingDevice),
        }
    }

    /// Measures an instrument.
    pub fn api_measure(&mut self, device_id: Option<u64>) -> (r: Result<u64, ApiError>)
        ensures
            measure_asked(*old(self), *final(self), device_id, r),
    {
        match device_id {
            Some(id) => {
                let _n: bool = self.measuring.insert(id);
                Ok(id)
            },
            None => Err(ApiError::MissingDevice),
        }
    }
}

/// A screen picture to take.
pub struct CaptureJob {
    pub id: u64,
    pub job_id: Option<u64>,
    pub save_path: Option<String>,
}

/// The channels of a scope to read.
pub struct SourceJob {
    pub id: u64,
    pub job_id: Option<u64>,
    pub auto_dir: Option<String>,
    pub auto_filename: Option<String>,
    pub overwrite: bool,
}

/// A waveform to read.
#[derive(Debug, Clone, Copy, PartialEq, Eq, Structural)]
pub struct WaveformJob {
    pub id: u64,
    pub channel: u8,
    pub points: usize,
}

/// The oscilloscope that a request is for.
pub open spec fn scope_for(panel: InstrumentControlPanel, device_id: Option<u64>) -> Option<u64> {
    match device_id {
        Some(id) => Some(id),
        None => rack::selection_for(
            panel.rack.devices@,
            panel.rack.selected_id,
            InstrumentKind::Oscilloscope,
        ),
    }
}

/// A text that is not empty.
pub open spec fn filled(s: Option<String>) -> Option<Seq<char>> {
    match s {
        Some(t) => if t@.len() > 0 {
            Some(t@)
        } else {
            None
        },
        None => None,
    }
}

/// A text without blanks around it, where something is left.
pub open spec fn filled_trimmed(s: Option<String>) -> Option<Seq<char>> {
    match s {
        Some(t) => if text::trimmed(t@).len() > 0 {
            Some(text::trimmed(t@))
        } else {
            None
        },
        None => None,
    }
}

fn keep_filled(s: Option<String>) -> (r: Option<String>)
    ensures
        files::opt_text(r) == filled(s),
{
    match s {
        Some(t) => if t.as_str().is_empty() {
            None
        } else {
            Some(t)
        },
        None => None,
    }
}

fn keep_trimmed(s: Option<String>) -> (r: Option<String>)
    ensures
        files::opt_text(r) == filled_trimmed(s),
{
    match s {
        Some(t) => {
            let u = text::trim(t.as_str());
            if u.as_str().is_empty() {
                None
            } else {
                Some(u)
            }
        },
        None => None,
    }
}

/// Whether `after` is the bench `before` after a screen picture was asked for from outside.
pub open spec fn capture_asked(
    before: InstrumentControlPanel,
    after: InstrumentControlPanel,
    device_id: Option<u64>,
    path: Option<String>,
    wait: bool,
    now: u64,
    r: Result<CaptureJob, ApiError>,
) -> bool {
    &&& match r {
        Ok(job) => {
            let waits = filled(path) is Some || wait;
            &&& scope_for(before, device_id) == Some(job.id)
            &&& rack::device_at(before.rack.devices@, job.id, 0) is Some
            &&& files::opt_text(job.save_path) == filled(path)
            &&& job.job_id == if waits {
                Some(before.jobs.next_id)
            } else {
                None
            }
            &&& after.jobs.next_id == if waits && before.jobs.next_id < u64::MAX {
                (before.jobs.next_id + 1) as u64
            } else {
                before.jobs.next_id
            }
            &&& after.busy.device == Some(job.id)
            &&& after.busy.started == Some(now)
            &&& after.busy.label@ == "Capturing screen"@
        },
        Err(ApiError::MissingDevice) => scope_for(before, device_id) is None
            && after == before,
        Err(ApiError::NotConnected) => scope_for(before, device_id) is Some
            && rack::device_at(
            before.rack.devices@,
            scope_for(before, device_id)->Some_0,
            0,
        ) is None && after == before,
        Err(_) => false,
    }
    &&& after.jobs.results == before.jobs.results
    &&& after == (InstrumentControlPanel {
        jobs: after.jobs,
        busy: after.busy,
        ..before
    })
}

/// Whether `after` is the bench `before` after the channels of a scope were asked for from outside.
pub open spec fn source_asked(
    before: InstrumentControlPanel,
    after: InstrumentControlPanel,
    device_id: Option<u64>,
    dir: Option<String>,
    filename: Option<String>,
    overwrite: bool,
    now: u64,
    r: Result<SourceJob, ApiError>,
) -> bool {
    &&& match r {
        Ok(job) => {
            &&& scope_for(before, device_id) == Some(job.id)
            &&& rack::device_at(before.rack.devices@, job.id, 0) is Some
            &&& files::opt_text(job.auto_dir) == filled_trimmed(dir)
            &&& files::opt_text(job.auto_filename) == filled_trimmed(filename)
            &&& job.overwrite == overwrite
            &&& job.job_id == Some(before.jobs.next_id)
            &&& after.jobs.next_id == if before.jobs.next_id < u64::MAX {
                (before.jobs.next_id + 1) as u64
            } else {
                before.jobs.next_id
            }
            &&& after.busy.device == Some(job.id)
            &&& after.busy.started == Some(now)
            &&& after.busy.label@ == "Reading waveform source"@
        },
        Err(ApiError::NoOscilloscope) => scope_for(before, device_id) is None
            && after == before,
        Err(ApiError::NotConnected) => scope_for(before, device_id) is Some
            && rack::device_at(
            before.rack.devices@,
            scope_for(before, device_id)->Some_0,
            0,
        ) is None && after == before,
        Err(_) => false,
    }
    &&& after.jobs.results == before.jobs.results
    &&& after == (InstrumentControlPanel {
        jobs: after.jobs,
        busy: after.busy,
        ..before
    })
}

/// Whether `r` is what a waveform that was asked for from outside comes to.
pub open spec fn waveform_asked(
    device_id: Option<u64>,
    channel: Option<u64>,
    points: Option<u64>,
    r: Result<WaveformJob, ApiError>,
) -> bool {
    &&& match r {
        Ok(job) => device_id == Some(job.id) && job.channel == match channel {
            Some(c) => c as u8,
            None => 1,
        } && job.points == match points {
            Some(p) => p as usize,
            None => 1000,
        },
        Err(e) => device_id is None && e is MissingDevice,
    }
}

/// Whether `after` is the bench `before` after the button for a screen picture was pressed.
pub open spec fn capture_pressed(
    before: InstrumentControlPanel,
    after: InstrumentControlPanel,
    index: usize,
    label: Seq<char>,
    now: u64,
    r: Option<CaptureJob>,
) -> bool {
    &&& ({
        let d = before.rack.devices@[index as int];
        if d.capabilities.screenshot && before.busy.device != Some(d.id) {
            &&& r matches Some(job) && job.id == d.id && job.job_id is None
                && job.save_path is None
            &&& after.busy.device == Some(d.id)
            &&& after.busy.started == Some(now)
            &&& after.busy.label@ == label
            &&& after.status is CapturingScreen
        } else {
            r is None && after == before
        }
    })
    &&& after == (InstrumentControlPanel {
        status: after.status,
        busy: after.busy,
        ..before
    })
}

/// Whether `after` is the bench `before` after the button for the channels of a scope was pressed.
pub open spec fn source_pressed(
    before: InstrumentControlPanel,
    after: InstrumentControlPanel,
    index: usize,
    label: Seq<char>,
    now: u64,
    r: Option<SourceJob>,
) -> bool {
    &&& ({
        let d = before.rack.devices@[index as int];
        if (d.kind is Oscilloscope || d.capabilities.waveform) && before.busy.device
            != Some(d.id) {
            &&& r matches Some(job) && job.id == d.id && job.job_id is None
                && job.auto_dir is None && job.auto_filename is None && !job.overwrite
            &&& after.busy.device == Some(d.id)
            &&& after.busy.started == Some(now)
            &&& after.busy.label@ == label
            &&& after.status is ReadingSource
        } else {
            r is None && after == before
        }
    })
    &&& after == (InstrumentControlPanel {
        status: after.status,
        busy: after.busy,
        ..before
    })
}

/// Whether `after` is the bench `before` after the button for the waveform on the screen was pressed.
pub open spec fn screen_pressed(
    before: InstrumentControlPanel,
    after: InstrumentControlPanel,
    index: usize,
    r: WaveformJob,
) -> bool {
    &&& r.id == before.rack.devices@[index as int].id
    &&& r.channel == before.rack.devices@[index as int].controls.scope.channel
    &&& r.points == 0
    &&& after.status is ReadingScreen
    &&& after == (InstrumentControlPanel { status: after.status, ..before })
}

impl InstrumentControlPanel {
    fn scope_id(&self, device_id: Option<u64>) -> (r: Option<u64>)
        ensures
            r == scope_for(*self, device_id),
    {
        match device_id {
            Some(id) => Some(id),
            None => self.rack.first_oscilloscope_id(),
        }
    }

    fn knows(&self, id: u64) -> (r: bool)
        ensures
            r == (rack::device_at(self.rack.devices@, id, 0) is Some),
    {
        rack::find_device(&self.rack.devices, id).is_some()
    }

    /// Takes a screen picture. Somebody waits for it where a file is named or where that is
    /// said.
    pub fn api_capture(
        &mut self,
        device_id: Option<u64>,
        path: Option<String>,
        wait: bool,
        now: u64,
    ) -> (r: Result<CaptureJob, ApiError>)
        ensures
            capture_asked(*old(self), *final(self), device_id, path, wait, now, r),
    {
        let id: u64 = match self.scope_id(device_id) {
            Some(id) => id,
            None => {
                return Err(ApiError::MissingDevice);
            },
        };
        if !self.knows(id) {
            return Err(ApiError::NotConnected);
        }
        let save_path = keep_filled(path);
        let job_id = if save_path.is_some() || wait {
            Some(self.jobs.alloc_job_id())
        } else {
            None
        };
        self.busy.begin(id, "Capturing screen", now);
        Ok(CaptureJob { id, job_id, save_path })
    }

    /// Reads the channels of a scope.
    pub fn api_waveform_source(
        &mut self,
        device_id: Option<u64>,
        dir: Option<String>,
        filename: Option<String>,
        overwrite: bool,
        now: u64,
    ) -> (r: Result<SourceJob, ApiError>)
        ensures
            source_asked(*old(self), *final(self), device_id, dir, filename, overwrite, now, r),
    {
        let id: u64 = match self.scope_id(device_id) {
            Some(id) => id,
            None => {
                return Err(ApiError::NoOscilloscope);
            },
        };
        if !self.knows(id) {
            return Err(ApiError::NotConnected);
        }
        let auto_dir = keep_trimmed(dir);
        let auto_filename = keep_trimmed(filename);
        let job: u64 = self.jobs.alloc_job_id();
        self.busy.begin(id, "Reading waveform source", now);
        Ok(SourceJob { id, job_id: Some(job), auto_dir, auto_filename, overwrite })
    }

    /// Reads a waveform: the first channel and a thousand points where nothing is said.
    pub fn api_waveform(
        &self,
        device_id: Option<u64>,
        channel: Option<u64>,
        points: Option<u64>,
    ) -> (r: Result<WaveformJob, ApiError>)
        ensures
            waveform_asked(device_id, channel, points, r),
    {
        match device_id {
            Some(id) => {
                let channel: u8 = match channel {
                    Some(c) =>
                    #[verifier::truncate]
                    (c as u8),
                    None => 1,
                };
                let points: usize = match points {
                    Some(p) =>
                    #[verifier::truncate]
                    (p as usize),
                    None => 1000,
                };
                Ok(WaveformJob { id, channel, points })
            },
            None => Err(ApiError::MissingDevice),
        }
    }

    /// The button for a screen picture: offered where the instrument can take one and nothing
    /// runs on it.
    pub fn press_capture(&mut self, index: usize, label: &str, now: u64) -> (r: Option<CaptureJob>)
        requires
            index < old(self).rack.devices@.len(),
        ensures
            capture_pressed(*old(self), *final(self), index, label@, now, r),
    {
        let id: u64 = self.rack.devices[index].id;
        if !self.rack.devices[index].capabilities.screenshot || self.busy.device == Some(id) {
            return None;
        }
        self.busy.begin(id, label, now);
        self.status = BenchStatus::CapturingScreen;
        Some(CaptureJob { id, job_id: None, save_path: None })
    }

    /// The button that reads the channels of a scope: offered for every oscilloscope and for
    /// what else has waveforms, while nothing runs on it.
    pub fn press_waveform_source(&mut self, index: usize, label: &str, now: u64) -> (r: Option<
        SourceJob,
    >)
        requires
            index < old(self).rack.devices@.len(),
        ensures
            source_pressed(*old(self), *final(self), index, label@, now, r),
    {
        let id: u64 = self.rack.devices[index].id;
        let scope: bool = match self.rack.devices[index].kind {
            InstrumentKind::Oscilloscope => true,
            _ => false,
        };
        if !(scope || self.rack.devices[index].capabilities.waveform) || self.busy.device == Some(
            id,
        ) {
            return None;
        }
        self.busy.begin(id, label, now);
        self.status = BenchStatus::ReadingSource;
        Some(
            SourceJob { id, job_id: None, auto_dir: None, auto_filename: None, overwrite: false },
        )
    }

    /// The button that reads the waveform on the screen of a scope, all of its points.
    pub fn press_read_screen(&mut self, index: usize) -> (r: WaveformJob)
        requires
            index < old(self).rack.devices@.len(),
        ensures
            screen_pressed(*old(self), *final(self), index, r),
    {
        self.status = BenchStatus::ReadingScreen;
        WaveformJob {
            id: self.rack.devices[index].id,
            channel: self.rack.devices[index].controls.scope.channel,
            points: 0,
        }
    }
}

/// What a worker reports, by its topic.
#[derive(Debug, Clone, Copy, PartialEq, Eq, Structural)]
pub enum Topic {
    Resources,
    Connected,
    Disconnected,
    CommandDone,
    Output,
    Measurements,
    Screenshot,
    Waveform,
    WaveformSource,
    Progress,
    Failure,
    JobDone,
}

/// The name of a topic, as a text.
pub open spec fn topic_name(topic: Topic) -> Seq<char> {
    match topic {
        Topic::Resources => "instrument.resources"@,
        Topic::Connected => "instrument.connected"@,
        Topic::Disconnected => "instrument.disconnected"@,
        Topic::CommandDone => "instrument.command_done"@,
        Topic::Output => "instrument.output"@,
        Topic::Measurements => "instrument.measurements"@,
        Topic::Screenshot => "instrument.screenshot"@,
        Topic::Waveform => "instrument.waveform"@,
        Topic::WaveformSource => "instrument.waveform_source"@,
        Topic::Progress => "instrument.progress"@,
        Topic::Failure => "instrument.error"@,
        Topic::JobDone => "instrument.job_done"@,
    }
}

impl Topic {
    /// The name of the topic.
    pub fn name(self) -> (r: &'static str)
        ensures
            r@ == topic_name(self),
    {
        match self {
            Topic::Resources => "instrument.resources",
            Topic::Connected => "instrument.connected",
            Topic::Disconnected => "instrument.disconnected",
            Topic::CommandDone => "instrument.command_done",
            Topic::Output => "instrument.output",
            Topic::Measurements => "instrument.measurements",
            Topic::Screenshot => "instrument.screenshot",
            Topic::Waveform => "instrument.waveform",
            Topic::WaveformSource => "instrument.waveform_source",
            Topic::Progress => "instrument.progress",
            Topic::Failure => "instrument.error",
            Topic::JobDone => "instrument.job_done",
        }
    }
}

/// The `i`th name under which a photo of an instrument is looked for.
pub open spec fn photo_name(serial: Seq<char>, model: Seq<char>, i: int) -> Seq<char> {
    if i == 0 {
        files::photo_stem(serial) + ".png"@
    } else if i == 1 {
        files::photo_stem(model) + ".png"@
    } else if i == 2 {
        files::photo_stem(serial) + ".jpg"@
    } else {
        files::photo_stem(model) + ".jpg"@
    }
}

/// The names under which a photo of an instrument is looked for: by serial number and by model,
/// as PNG and then as JPEG.
pub fn photo_names(serial: &str, model: &str) -> (r: Vec<String>)
    ensures
        r@.len() == 4,
        forall|i: int| 0 <= i < 4 ==> (#[trigger] r@[i])@ == photo_name(serial@, model@, i),
{
    let s = files::sanitize_photo_stem(serial);
    let m = files::sanitize_photo_stem(model);
    let mut r: Vec<String> = Vec::new();
    r.push(text::join2(s.as_str(), ".png"));
    r.push(text::join2(m.as_str(), ".png"));
    r.push(text::join2(s.as_str(), ".jpg"));
    r.push(text::join2(m.as_str(), ".jpg"));
    r
}

// ---------------------------------------------------------------------------
// What holds of requests
// ---------------------------------------------------------------------------

/// Law: instruments that are being sampled are counted once each; a paused one is not.
pub proof fn law_live_instruments_are_counted(devices: Seq<DeviceUi>, d: DeviceUi)
    ensures
        live_count(devices.push(d), devices.len() as int + 1) == live_count(
            devices,
            devices.len() as int,
        ) + if d.acquiring && !d.paused {
            1nat
        } else {
            0nat
        },
        live_count(Seq::empty(), 0) == 0,
        live_count(devices, devices.len() as int) <= devices.len(),
{
    lemma_live_count(devices, devices.push(d), devices.len() as int);
}

proof fn lemma_live_count(a: Seq<DeviceUi>, b: Seq<DeviceUi>, n: int)
    requires
        0 <= n <= a.len(),
        n <= b.len(),
        forall|i: int| 0 <= i < n ==> #[trigger] a[i] == b[i],
    ensures
        live_count(a, n) == live_count(b, n),
        live_count(a, n) <= n,
    decreases n,
{
    if n > 0 {
        lemma_live_count(a, b, n - 1);
        assert(a[n - 1] == b[n - 1]);
    }
}

/// Law: sampling starts where it does not run, and pauses or stops where it does; a button that
/// is not offered changes nothing, and no button changes anything but the sampling.
pub proof fn law_sampling_starts_pauses_and_stops(d: DeviceUi, key: SamplingKey)
    ensures
        key_offered(d, SamplingKey::Start) == !d.acquiring,
        key_offered(d, SamplingKey::Pause) == d.acquiring,
        key_offered(d, SamplingKey::Stop) == d.acquiring,
        !d.acquiring ==> sampled_device(d, SamplingKey::Start).acquiring && !sampled_device(
            d,
            SamplingKey::Start,
        ).paused && sampled_device(d, SamplingKey::Pause) == d && sampled_device(
            d,
            SamplingKey::Stop,
        ) == d,
        d.acquiring ==> sampled_device(d, SamplingKey::Start) == d && sampled_device(
            d,
            SamplingKey::Pause,
        ).paused == !d.paused && sampled_device(d, SamplingKey::Pause).acquiring
            && !sampled_device(d, SamplingKey::Stop).acquiring && !sampled_device(
            d,
            SamplingKey::Stop,
        ).paused,
        ({
            let t = sampled_device(d, key);
            t.id == d.id && t.resource == d.resource && t.identity == d.identity && t.kind == d.kind
                && t.controls == d.controls && t.capabilities == d.capabilities && t.last_activity
                == d.last_activity
        }),
{
}

/// Law: an instrument whose sampling starts or goes on is measured at once: as soon as the bench
/// has run for one interval, a sample is due. Other instruments are not touched.
pub proof fn law_started_sampling_is_due(
    before: InstrumentControlPanel,
    after: InstrumentControlPanel,
    index: usize,
    key: SamplingKey,
    now: u64,
)
    requires
        index < before.rack.devices@.len(),
        sampling_pressed(before, after, index, key, now),
    ensures
        ({
            let d = before.rack.devices@[index as int];
            let e = after.rack.devices@[index as int];
            &&& !(d.acquiring && !d.paused) && (e.acquiring && !e.paused) && now
                >= before.sample_interval_ms ==> now - after.last_sample
                == before.sample_interval_ms
            &&& (d.acquiring && !d.paused) || !(e.acquiring && !e.paused) ==> after.last_sample
                == before.last_sample
            &&& forall|k: int|
                0 <= k < before.rack.devices@.len() && k != index
                    ==> #[trigger] after.rack.devices@[k] == before.rack.devices@[k]
            &&& after.rack.devices@.len() == before.rack.devices@.len()
            &&& after.status == before.status && after.latest == before.latest
        }),
{
}

/// Law: switching the sampling of a source on asks for its values at once, switching it off asks
/// for nothing.
pub proof fn law_source_sampling_is_switched(
    before: InstrumentControlPanel,
    after: InstrumentControlPanel,
    index: usize,
    r: Option<u64>,
)
    requires
        index < before.rack.devices@.len(),
        source_switched(before, after, index, r),
    ensures
        ({
            let d = before.rack.devices@[index as int];
            let e = after.rack.devices@[index as int];
            &&& e.acquiring == !d.acquiring && e.id == d.id && e.controls == d.controls
            &&& !d.acquiring ==> r == Some(d.id) && after.measuring@.contains(d.id) && !e.paused
            &&& d.acquiring ==> r is None && after.measuring@ == before.measuring@
            &&& forall|id: u64|
                id != d.id ==> #[trigger] after.measuring@.contains(id)
                    == before.measuring@.contains(id)
            &&& forall|k: int|
                0 <= k < before.rack.devices@.len() && k != index
                    ==> #[trigger] after.rack.devices@[k] == before.rack.devices@[k]
        }),
{
}

/// Law: samples are due once the interval has passed since the last ones; then the instruments
/// being sampled whose values were not asked for yet are asked, and the time is noted. Before
/// that nothing is.
pub proof fn law_samples_wait_for_the_interval(
    before: InstrumentControlPanel,
    after: InstrumentControlPanel,
    now: u64,
    r: Seq<u64>,
)
    requires
        samples_due(before, after, now, r),
    ensures
        now < before.last_sample + before.sample_interval_ms ==> r.len() == 0 && after.measuring@
            == before.measuring@ && after.last_sample == before.last_sample,
        forall|k: int| 0 <= k < r.len() ==> !before.measuring@.contains(#[trigger] r[k]),
        now >= before.last_sample + before.sample_interval_ms ==> forall|i: int|
            0 <= i < before.rack.devices@.len() && (#[trigger] before.rack.devices@[i]).acquiring
                && !before.rack.devices@[i].paused ==> after.measuring@.contains(
                before.rack.devices@[i].id,
            ) && after.last_sample == now,
        after.rack == before.rack && after.latest == before.latest && after.jobs == before.jobs,
{
    law_one_request_per_instrument(before.rack.devices@, before.measuring@);
    let d = before.rack.devices@;
    assert forall|i: int|
        0 <= i < d.len() && (#[trigger] d[i]).acquiring && !d[i].paused && now
            >= before.last_sample + before.sample_interval_ms implies after.measuring@.contains(
        d[i].id,
    ) && after.last_sample == now by {
        assert(is_live(d[i]));
    }
}

/// Law: the output of probes is read at most every 150 milliseconds, and only of probes whose
/// output is switched on and was not asked for yet.
pub proof fn law_output_waits_for_its_interval(
    before: InstrumentControlPanel,
    after: InstrumentControlPanel,
    now: u64,
    r: Seq<u64>,
)
    requires
        output_due(before, after, now, r),
    ensures
        now < before.last_output + 150 ==> r.len() == 0 && after.reading_output@
            == before.reading_output@ && after.last_output == before.last_output,
        now >= before.last_output + 150 ==> after.last_output == now,
        forall|k: int|
            0 <= k < r.len() ==> !before.reading_output@.contains(#[trigger] r[k])
                && exists|i: int|
                0 <= i < before.rack.devices@.len() && (#[trigger] before.rack.devices@[i]).id
                    == r[k] && before.rack.devices@[i].kind is DebugProbe
                    && before.rack.devices@[i].controls.probe.rtt_on,
        now >= before.last_output + 150 ==> forall|i: int|
            0 <= i < before.rack.devices@.len() && (#[trigger] before.rack.devices@[i]).kind
                is DebugProbe && before.rack.devices@[i].controls.probe.rtt_on
                ==> after.reading_output@.contains(before.rack.devices@[i].id),
{
    lemma_to_read(before.rack.devices@, before.reading_output@, before.rack.devices@.len() as int);
}

proof fn lemma_to_read(devices: Seq<DeviceUi>, asked: Set<u64>, n: int)
    requires
        0 <= n <= devices.len(),
    ensures
        ({
            let (ids, set) = to_read(devices, asked, n);
            &&& forall|id: u64| asked.contains(id) ==> #[trigger] set.contains(id)
            &&& forall|k: int|
                0 <= k < ids.len() ==> !asked.contains(#[trigger] ids[k]) && exists|i: int|
                    0 <= i < n && (#[trigger] devices[i]).id == ids[k] && devices[i].kind
                        is DebugProbe && devices[i].controls.probe.rtt_on
            &&& forall|i: int|
                0 <= i < n && (#[trigger] devices[i]).kind is DebugProbe
                    && devices[i].controls.probe.rtt_on ==> set.contains(devices[i].id)
        }),
    decreases n,
{
    if n > 0 {
        lemma_to_read(devices, asked, n - 1);
        let (front, set) = to_read(devices, asked, n - 1);
        let (ids, all) = to_read(devices, asked, n);
        assert forall|k: int| 0 <= k < ids.len() implies !asked.contains(#[trigger] ids[k])
            && exists|i: int|
            0 <= i < n && (#[trigger] devices[i]).id == ids[k] && devices[i].kind is DebugProbe
                && devices[i].controls.probe.rtt_on by {
            if k < front.len() {
                assert(front[k] == ids[k]);
            } else {
                assert(devices[n - 1].id == ids[k]);
            }
        }
    }
}

/// Law: a sample counts as taken an interval ago where one is wanted at once.
pub proof fn law_due_now_is_an_interval_ago(now: u64, interval: u64)
    ensures
        now >= interval ==> due_now(now, interval) + interval == now,
        now < interval ==> due_now(now, interval) == 0,
{
}

/// Law: a scan is begun unless one runs, and says so.
pub proof fn law_one_scan_at_a_time(
    before: InstrumentControlPanel,
    after: InstrumentControlPanel,
    begun: bool,
)
    requires
        scan_begun(before, after, begun),
    ensures
        begun <==> !before.scanning,
        after.scanning,
        before.scanning ==> after == before,
        !before.scanning ==> after.status is Scanning && after.rack == before.rack,
{
}

/// Law: an address is connected once. Asking again says so and begins nothing; asking for a new
/// one takes a new number.
pub proof fn law_an_address_is_connected_once(
    before: InstrumentControlPanel,
    after: InstrumentControlPanel,
    kind: InstrumentKind,
    address: Seq<char>,
    select: bool,
    usb: UsbAddress,
    r: Option<ConnectRequest>,
)
    requires
        connecting_status(before, after, kind, address, select, usb, r),
    ensures
        r is None <==> exists|i: int|
            0 <= i < before.rack.devices@.len() && (#[trigger] before.rack.devices@[i]).resource@
                == address,
        r is None ==> after.status is AlreadyConnected && after.rack == before.rack,
        r is Some ==> after.status is Connecting && r->0.resource@ == address && r->0.id
            == before.rack.next_id,
{
}

/// Law: a connection asked for from outside needs an address and takes a new number; without one
/// nothing changes.
pub proof fn law_connecting_needs_an_address(
    before: InstrumentControlPanel,
    after: InstrumentControlPanel,
    resource: Option<String>,
    kind: Option<InstrumentKind>,
    r: Result<ConnectRequest, ApiError>,
)
    requires
        before.rack.next_id < u64::MAX,
        connect_asked(before, after, resource, kind, r),
    ensures
        r is Ok <==> resource is Some && resource->0@.len() > 0,
        r is Ok ==> r->Ok_0.resource@ == resource->0@ && r->Ok_0.kind == kind && r->Ok_0.id
            == before.rack.next_id && after.rack.next_id == before.rack.next_id + 1
            && after.rack.devices == before.rack.devices,
        r is Err ==> r->Err_0 is MissingResource && after == before,
{
}

/// Law: a command from outside needs an instrument and a command that can be read, and is told
/// what is missing in this order; it gets the next number of a job.
pub proof fn law_command_needs_an_instrument(
    before: InstrumentControlPanel,
    after: InstrumentControlPanel,
    device_id: Option<u64>,
    command: Option<Result<(), String>>,
    r: Result<(u64, u64), ApiError>,
)
    requires
        command_asked(before, after, device_id, command, r),
    ensures
        device_id is None ==> r is Err && r->Err_0 is MissingDevice,
        device_id is Some && command is None ==> r is Err && r->Err_0 is MissingCommand,
        device_id is Some && command is Some && command->0 is Err ==> r == Err::<
            (u64, u64),
            ApiError,
        >(ApiError::BadCommand(command->0->Err_0)),
        device_id is Some && command is Some && command->0 is Ok ==> r == Ok::<
            (u64, u64),
            ApiError,
        >((device_id->0, before.jobs.next_id)),
        r is Ok && before.jobs.next_id < u64::MAX ==> after.jobs.next_id == before.jobs.next_id
            + 1,
        r is Err ==> after.jobs.next_id == before.jobs.next_id,
        after.rack == before.rack && after.status == before.status,
{
}

/// Law: a measurement from outside is asked of the instrument that is named, and is noted as
/// asked.
pub proof fn law_measurement_is_noted(
    before: InstrumentControlPanel,
    after: InstrumentControlPanel,
    device_id: Option<u64>,
    r: Result<u64, ApiError>,
)
    requires
        measure_asked(before, after, device_id, r),
    ensures
        device_id is Some ==> r == Ok::<u64, ApiError>(device_id->0) && after.measuring@.contains(
            device_id->0,
        ),
        device_id is None ==> r is Err && r->Err_0 is MissingDevice && after.measuring@
            == before.measuring@,
        forall|id: u64|
            Some(id) != device_id ==> #[trigger] after.measuring@.contains(id)
                == before.measuring@.contains(id),
{
}

/// Law: a screen picture is taken of the instrument that is named, or else of a connected scope;
/// it needs an instrument that is connected. Somebody waits for it where a file is named or that
/// is said, and only then it has a number.
pub proof fn law_picture_is_taken_of_a_connected_instrument(
    before: InstrumentControlPanel,
    after: InstrumentControlPanel,
    device_id: Option<u64>,
    path: Option<String>,
    wait: bool,
    now: u64,
    r: Result<CaptureJob, ApiError>,
)
    requires
        capture_asked(before, after, device_id, path, wait, now, r),
    ensures
        ({
            let d = before.rack.devices@;
            &&& r is Ok && device_id is Some ==> r->Ok_0.id == device_id->0
            &&& device_id is Some ==> (r is Ok <==> exists|k: int|
                0 <= k < d.len() && (#[trigger] d[k]).id == device_id->0)
            &&& device_id is None ==> (r is Ok <==> exists|k: int|
                0 <= k < d.len() && (#[trigger] d[k]).kind is Oscilloscope)
            &&& r is Ok ==> (r->Ok_0.job_id is Some <==> wait || (path is Some && path->0@.len()
                > 0))
            &&& r is Ok && r->Ok_0.job_id is Some ==> r->Ok_0.job_id->0 == before.jobs.next_id
            &&& r is Ok && path is Some && path->0@.len() > 0 ==> r->Ok_0.save_path is Some
                && r->Ok_0.save_path->0@ == path->0@
            &&& r is Ok ==> after.busy.device == Some(r->Ok_0.id) && after.busy.started == Some(now)
                && after.busy.label@ == "Capturing screen"@
            &&& r is Err ==> after == before
            &&& r is Err && device_id is Some ==> r->Err_0 is NotConnected
            &&& after.rack == before.rack
        }),
{
    lemma_scope_is_connected(before, device_id);
}

/// The instrument that a request is for is connected, where none is named.
proof fn lemma_scope_is_connected(panel: InstrumentControlPanel, device_id: Option<u64>)
    ensures
        ({
            let d = panel.rack.devices@;
            let s = scope_for(panel, device_id);
            &&& device_id is Some ==> s == device_id
            &&& device_id is None ==> (s is Some <==> exists|k: int|
                0 <= k < d.len() && (#[trigger] d[k]).kind is Oscilloscope)
            &&& device_id is None && s is Some ==> exists|k: int|
                0 <= k < d.len() && (#[trigger] d[k]).id == s->0 && d[k].kind is Oscilloscope
            &&& s is Some ==> (rack::device_at(d, s->0, 0) is Some <==> exists|k: int|
                0 <= k < d.len() && (#[trigger] d[k]).id == s->0)
        }),
{
    let d = panel.rack.devices@;
    let s = scope_for(panel, device_id);
    rack::law_selecting_a_kind(panel.rack, InstrumentKind::Oscilloscope);
    if s is Some {
        rack::law_device_is_found_by_number(d, s->0);
        if rack::device_at(d, s->0, 0) is Some {
            assert(d[rack::device_at(d, s->0, 0)->0].id == s->0);
        }
    }
}

/// Law: the channels of a scope are read of the instrument that is named, or else of a connected
/// scope; the folder and the name are taken without the white space around them, and blank ones
/// count as missing. The job has the next number.
pub proof fn law_channels_are_read_of_a_connected_scope(
    before: InstrumentControlPanel,
    after: InstrumentControlPanel,
    device_id: Option<u64>,
    dir: Option<String>,
    filename: Option<String>,
    overwrite: bool,
    now: u64,
    r: Result<SourceJob, ApiError>,
)
    requires
        source_asked(before, after, device_id, dir, filename, overwrite, now, r),
    ensures
        ({
            let d = before.rack.devices@;
            &&& r is Ok && device_id is Some ==> r->Ok_0.id == device_id->0
            &&& device_id is Some ==> (r is Ok <==> exists|k: int|
                0 <= k < d.len() && (#[trigger] d[k]).id == device_id->0)
            &&& device_id is None ==> (r is Ok <==> exists|k: int|
                0 <= k < d.len() && (#[trigger] d[k]).kind is Oscilloscope)
            &&& r is Ok ==> r->Ok_0.job_id == Some(before.jobs.next_id) && r->Ok_0.overwrite
                == overwrite
            &&& r is Ok ==> (r->Ok_0.auto_dir is None <==> dir is None || text::trimmed(
                dir->0@,
            ).len() == 0)
            &&& r is Ok && r->Ok_0.auto_dir is Some ==> r->Ok_0.auto_dir->0@ == text::trimmed(
                dir->0@,
            )
            &&& r is Ok ==> (r->Ok_0.auto_filename is None <==> filename is None || text::trimmed(
                filename->0@,
            ).len() == 0)
            &&& r is Ok && r->Ok_0.auto_filename is Some ==> r->Ok_0.auto_filename->0@
                == text::trimmed(filename->0@)
            &&& r is Ok ==> after.busy.device == Some(r->Ok_0.id) && after.busy.started == Some(now)
            &&& r is Err ==> after == before
            &&& r is Err && device_id is None ==> r->Err_0 is NoOscilloscope
            &&& r is Err && device_id is Some ==> r->Err_0 is NotConnected
        }),
{
    lemma_scope_is_connected(before, device_id);
}

/// Law: a waveform asked for from outside is that of the channel and with the points asked for;
/// without numbers it is the first channel and a thousand points.
pub proof fn law_waveform_is_read_as_asked(
    device_id: Option<u64>,
    channel: Option<u64>,
    points: Option<u64>,
    r: Result<WaveformJob, ApiError>,
)
    requires
        waveform_asked(device_id, channel, points, r),
    ensures
        r is Ok <==> device_id is Some,
        r is Ok ==> r->Ok_0.id == device_id->0,
        r is Ok && channel is None ==> r->Ok_0.channel == 1,
        r is Ok && channel is Some && channel->0 <= 255 ==> r->Ok_0.channel == channel->0,
        r is Ok && points is None ==> r->Ok_0.points == 1000,
        r is Ok && points is Some && points->0 <= usize::MAX ==> r->Ok_0.points == points->0,
        r is Err ==> r->Err_0 is MissingDevice,
{
}

/// Law: the buttons of an instrument work where it can do that and while nothing runs on it, and
/// then ask for that instrument; else they do nothing. The waveform on the screen is read on the
/// channel that is chosen, with all its points.
pub proof fn law_buttons_ask_their_instrument(
    before: InstrumentControlPanel,
    after: InstrumentControlPanel,
    index: usize,
    label: Seq<char>,
    now: u64,
    shot: Option<CaptureJob>,
    source: Option<SourceJob>,
    wave: WaveformJob,
)
    requires
        index < before.rack.devices@.len(),
    ensures
        ({
            let d = before.rack.devices@[index as int];
            let busy = before.busy.device == Some(d.id);
            &&& capture_pressed(before, after, index, label, now, shot) ==> {
                &&& shot is Some <==> d.capabilities.screenshot && !busy
                &&& shot is Some ==> shot->0.id == d.id && shot->0.job_id is None
                    && shot->0.save_path is None && after.busy.device == Some(d.id)
                    && after.busy.started == Some(now) && after.busy.label@ == label
                    && after.status is CapturingScreen
                &&& shot is None ==> after == before
            }
            &&& source_pressed(before, after, index, label, now, source) ==> {
                &&& source is Some <==> (d.kind is Oscilloscope || d.capabilities.waveform) && !busy
                &&& source is Some ==> source->0.id == d.id && source->0.auto_dir is None
                    && !source->0.overwrite && after.busy.device == Some(d.id) && after.status
                    is ReadingSource
                &&& source is None ==> after == before
            }
            &&& screen_pressed(before, after, index, wave) ==> wave.id == d.id && wave.channel
                == d.controls.scope.channel && wave.points == 0 && after.status is ReadingScreen
                && after.rack == before.rack
        }),
{
}

/// Law: a request to select opens the overview where that is asked, by a switch or by a word; it
/// selects the instrument that is named, with its kind; else the kind that is named. What is
/// unknown is told and changes nothing but the kind that was named.
pub proof fn law_selecting_by_request(
    before: Rack,
    after: Rack,
    overview: bool,
    kind: KindParam,
    id: Option<u64>,
    r: Result<Selected, ApiError>,
)
    requires
        selected_by(before, after, overview, kind, id, r),
    ensures
        overview ==> after.overview_open && after.selected_id is None && r == Ok::<
            Selected,
            ApiError,
        >(Selected::Overview),
        !overview && kind is Word && text::ascii_lower_seq(kind->Word_0@) != "overview"@
            && text::ascii_lower_seq(kind->Word_0@) != "mesh"@ ==> after == before && r is Err
            && r->Err_0 is UnknownKind,
        kind is Word && text::ascii_lower_seq(kind->Word_0@) == "overview"@ ==> after.overview_open
            && r is Ok,
        kind is Word && text::ascii_lower_seq(kind->Word_0@) == "mesh"@ ==> after.overview_open && r
            is Ok,
        !overview && !(kind is Word) && id is Some ==> (r is Ok <==> exists|k: int|
            0 <= k < before.devices@.len() && (#[trigger] before.devices@[k]).id == id->0),
        !overview && !(kind is Word) && id is Some && r is Ok ==> after.selected_id == id
            && !after.overview_open && exists|k: int|
            0 <= k < before.devices@.len() && (#[trigger] before.devices@[k]).id == id->0
                && after.selected_kind == before.devices@[k].kind && r->Ok_0 == (Selected::Device {
                id: id->0,
                kind: before.devices@[k].kind,
            }),
        !overview && !(kind is Word) && id is Some && r is Err ==> r->Err_0 is DeviceNotFound,
        !overview && kind is Known && id is None ==> after.selected_kind == kind->Known_0
            && !after.overview_open && r is Ok,
        !overview && kind is Absent && id is None ==> r is Err && r->Err_0 is MissingSelection
            && after == before,
        after.devices == before.devices && after.resources == before.resources && after.next_id
            == before.next_id,
{
    if id is Some {
        rack::law_device_is_found_by_number(before.devices@, id->0);
        let f = rack::device_at(before.devices@, id->0, 0);
        if f is Some {
            assert(before.devices@[f->0].id == id->0);
        }
    }
}

/// Law: switching the debug mode to where it is does nothing; on, it opens a demonstration of each
/// kind that is missing, under new numbers; off, it closes all demonstrations.
pub proof fn law_debug_mode_opens_and_closes_demonstrations(
    before: InstrumentControlPanel,
    after: InstrumentControlPanel,
    enabled: bool,
    r: DebugChange,
)
    requires
        before.rack.next_id <= u64::MAX - CARD_COUNT,
        debug_switched(before, after, enabled, r),
    ensures
        after.debug_mode == enabled,
        r is Nothing <==> before.debug_mode == enabled,
        r is Open <==> enabled && !before.debug_mode,
        r is Close <==> !enabled && before.debug_mode,
        r is Nothing ==> after == before,
        r is Open ==> after.status is DebugOn && forall|k: int|
            0 <= k < r->Open_0@.len() ==> (#[trigger] r->Open_0@[k]).id == before.rack.next_id + k,
        r is Close ==> after.status is DebugOff && after.rack == before.rack,
{
    if r is Open {
        let kinds = discovery::missing_kinds(before.rack.devices@, CARD_COUNT as int);
        discovery::lemma_no_more_gaps_than_cards(before.rack.devices@, CARD_COUNT as int);
    }
}

/// Law: the long work that runs is told with its label and for how long it runs; else the status
/// stays.
pub proof fn law_long_work_is_told(
    before: InstrumentControlPanel,
    after: InstrumentControlPanel,
    now: u64,
)
    requires
        busy_told(before, after, now),
    ensures
        before.busy.device is Some && before.busy.started is Some && before.busy.label@.len() > 0
            ==> after.status is Busy && after.status->label@ == before.busy.label@
            && after.status->seconds == bench::elapsed_seconds(before.busy.started->0, now),
        before.busy.device is None || before.busy.started is None || before.busy.label@.len() == 0
            ==> after.status == before.status,
        after.busy == before.busy && after.rack == before.rack,
{
}

/// Law: topics have names of their own, all of the instruments.
pub proof fn law_topics_are_named_apart(a: Topic, b: Topic)
    ensures
        topic_name(a) == topic_name(b) ==> a == b,
        "instrument."@.is_prefix_of(topic_name(a)),
        topic_name(Topic::Failure) == "instrument.error"@,
        topic_name(Topic::JobDone) == "instrument.job_done"@,
        topic_name(Topic::Connected) == "instrument.connected"@,
        topic_name(Topic::Disconnected) == "instrument.disconnected"@,
        topic_name(Topic::Measurements) == "instrument.measurements"@,
        topic_name(Topic::Waveform) == "instrument.waveform"@,
        topic_name(Topic::WaveformSource) == "instrument.waveform_source"@,
        topic_name(Topic::Screenshot) == "instrument.screenshot"@,
{
    reveal_strlit("instrument.");
    reveal_strlit("instrument.resources");
    reveal_strlit("instrument.connected");
    reveal_strlit("instrument.disconnected");
    reveal_strlit("instrument.command_done");
    reveal_strlit("instrument.output");
    reveal_strlit("instrument.measurements");
    reveal_strlit("instrument.screenshot");
    reveal_strlit("instrument.waveform");
    reveal_strlit("instrument.waveform_source");
    reveal_strlit("instrument.progress");
    reveal_strlit("instrument.error");
    reveal_strlit("instrument.job_done");
    let (x, y) = (topic_name(a), topic_name(b));
    assert("instrument.resources"@.len() == 20 && "instrument.resources"@[11] == 'r');
    assert("instrument.connected"@.len() == 20 && "instrument.connected"@[11] == 'c');
    assert("instrument.disconnected"@.len() == 23 && "instrument.disconnected"@[11] == 'd');
    assert("instrument.command_done"@.len() == 23 && "instrument.command_done"@[11] == 'c');
    assert("instrument.output"@.len() == 17 && "instrument.output"@[11] == 'o');
    assert("instrument.measurements"@.len() == 23 && "instrument.measurements"@[11] == 'm');
    assert("instrument.screenshot"@.len() == 21 && "instrument.screenshot"@[11] == 's');
    assert("instrument.waveform"@.len() == 19 && "instrument.waveform"@[11] == 'w');
    assert("instrument.waveform_source"@.len() == 26 && "instrument.waveform_source"@[11] == 'w');
    assert("instrument.progress"@.len() == 19 && "instrument.progress"@[11] == 'p');
    assert("instrument.error"@.len() == 16 && "instrument.error"@[11] == 'e');
    assert("instrument.job_done"@.len() == 19 && "instrument.job_done"@[11] == 'j');
    assert(x == y ==> x.len() == y.len() && x[11] == y[11]);
    assert(x.subrange(0, 11) =~= "instrument."@);
}

/// Law: a photo is looked for by the serial number before the model, and as a PNG before a JPEG.
pub proof fn law_photo_is_looked_for_by_serial_first(serial: Seq<char>, model: Seq<char>)
    ensures
        files::photo_stem(serial).is_prefix_of(photo_name(serial, model, 0)),
        files::photo_stem(model).is_prefix_of(photo_name(serial, model, 1)),
        files::photo_stem(serial).is_prefix_of(photo_name(serial, model, 2)),
        files::photo_stem(model).is_prefix_of(photo_name(serial, model, 3)),
        ".png"@.is_suffix_of(photo_name(serial, model, 0)),
        ".png"@.is_suffix_of(photo_name(serial, model, 1)),
        ".jpg"@.is_suffix_of(photo_name(serial, model, 2)),
        ".jpg"@.is_suffix_of(photo_name(serial, model, 3)),
        photo_name(serial, model, 0).len() == files::photo_stem(serial).len() + 4,
        photo_name(serial, model, 3).len() == files::photo_stem(model).len() + 4,
{
    reveal_strlit(".png");
    reveal_strlit(".jpg");
}

/// Law: a refusal names what is missing or wrong.
pub proof fn law_refusals_name_the_reason(word: String)
    ensures
        refusal_text(ApiError::MissingDevice) == "missing device_id"@,
        refusal_text(ApiError::MissingResource) == "missing resource"@,
        refusal_text(ApiError::MissingCommand) == "missing command"@,
        refusal_text(ApiError::DeviceNotFound) == "device not found"@,
        refusal_text(ApiError::NotConnected) == "device not connected"@,
        refusal_text(ApiError::NoOscilloscope) == "no connected oscilloscope"@,
        refusal_text(ApiError::BadCommand(word)) == word@,
        refusal_text(ApiError::UnknownKind(word)).len() == 14 + word@.len() + 1,
        refusal_text(ApiError::UnknownKind(word)).subrange(14, 14 + word@.len() as int) == word@,
{
    reveal_strlit("unknown kind '");
    reveal_strlit("'");
    let r = refusal_text(ApiError::UnknownKind(word));
    assert(r.subrange(14, 14 + word@.len() as int) =~= word@);
}

/// Law: others are told of an instrument by its own number, address, kind and identity.
pub proof fn law_others_are_told_of_the_instrument(live: LiveDevice, device: DeviceUi)
    requires
        tells_of(live, device),
    ensures
        live.device_id == device.id,
        live.resource@ == device.resource@,
        live.kind == device.kind,
        live.model@ == device.identity.model@,
        live.manufacturer@ == device.identity.manufacturer@,
        live.serial@ == device.identity.serial@,
{
}

/// Law: a connection is closed by its number, and only where one is named.
pub proof fn law_closing_needs_a_number(device_id: Option<u64>, r: Result<u64, ApiError>)
    requires
        disconnect_asked(device_id, r),
    ensures
        device_id is Some ==> r == Ok::<u64, ApiError>(device_id->0),
        device_id is None ==> r is Err && r->Err_0 is MissingDevice,
{
}

} // verus!
