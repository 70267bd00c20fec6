//! The bench: what the workers report, which jobs run, and what is remembered of them.
use vstd::prelude::*;
use vstd::string::*;

use std::collections::{HashMap, HashSet};

use crate::bench_status::BenchStatus;
use crate::controls::Real;
use crate::rack::{ControlState, DeviceUi, Rack};
use crate::waveform::ChannelFile;
use crate::{controls, files, rack, search, text};

verus! {

broadcast use vstd::std_specs::hash::group_hash_axioms;

// ---------------------------------------------------------------------------
// Jobs
// ---------------------------------------------------------------------------

/// What a finished job was about.
#[derive(Debug, Clone, Copy, PartialEq, Eq, Structural)]
pub enum JobKind {
    Command,
    Capture,
    WaveformSource,
    Failure,
}

/// The name of a kind of job in a report, as a text.
pub open spec fn job_name(kind: JobKind) -> Seq<char> {
    match kind {
        JobKind::Command => "command"@,
        JobKind::Capture => "capture"@,
        JobKind::WaveformSource => "waveform_source"@,
        JobKind::Failure => "error"@,
    }
}

/// The number after a number; the last one stays.
pub open spec fn following_id(id: u64) -> int {
    if id == u64::MAX {
        u64::MAX as int
    } else {
        id + 1
    }
}

impl JobKind {
    /// The name of the kind in a report.
    pub fn name(self) -> (r: &'static str)
        ensures
            r@ == job_name(self),
    {
        match self {
            JobKind::Command => "command",
            JobKind::Capture => "capture",
            JobKind::WaveformSource => "waveform_source",
            JobKind::Failure => "error",
        }
    }
}

/// What came of a job.
pub enum JobDetail {
    Response(Option<String>),
    Shot { path: Option<String>, bytes: usize, width: usize, height: usize },
    Files { files: Vec<String>, bytes: usize },
    Failed(String),
}

/// The completion of a job that somebody waits for.
pub struct InstrumentJobResult {
    pub job_id: u64,
    pub ok: bool,
    pub kind: JobKind,
    pub device_id: Option<u64>,
    pub detail: JobDetail,
}

/// The jobs that somebody waits for.
pub struct Jobs {
    pub next_id: u64,
    pub results: Vec<InstrumentJobResult>,
}

/// The results with one more, where somebody waits for it.
pub open spec fn completed(
    results: Seq<InstrumentJobResult>,
    job_id: Option<u64>,
    ok: bool,
    kind: JobKind,
    device_id: Option<u64>,
    detail: JobDetail,
) -> Seq<InstrumentJobResult> {
    match job_id {
        Some(id) => results.push(InstrumentJobResult { job_id: id, ok, kind, device_id, detail }),
        None => results,
    }
}

impl Jobs {
    /// No jobs yet.
    pub fn new() -> (r: Self)
        ensures
            r.next_id == 1,
            r.results@ == Seq::<InstrumentJobResult>::empty(),
    {
        Jobs { next_id: 1, results: Vec::new() }
    }

    /// A number for a new job.
    pub fn alloc_job_id(&mut self) -> (id: u64)
        ensures
            id == old(self).next_id,
            final(self).next_id == following_id(old(self).next_id),
            final(self).results == old(self).results,
    {
        let id: u64 = self.next_id;
        self.next_id = self.next_id.saturating_add(1);
        id
    }

    /// Notes the completion of a job, where somebody waits for it.
    pub fn complete_job(
        &mut self,
        job_id: Option<u64>,
        ok: bool,
        kind: JobKind,
        device_id: Option<u64>,
        detail: JobDetail,
    )
        ensures
            final(self).next_id == old(self).next_id,
            final(self).results@ == completed(
                old(self).results@,
                job_id,
                ok,
                kind,
                device_id,
                detail,
            ),
    {
        match job_id {
            Some(id) => {
                self.results.push(
                    InstrumentJobResult { job_id: id, ok, kind, device_id, detail },
                );
            },
            None => {},
        }
    }

    /// Hands the results on.
    pub fn take_job_results(&mut self) -> (r: Vec<InstrumentJobResult>)
        ensures
            r@ == old(self).results@,
            final(self).results@ == Seq::<InstrumentJobResult>::empty(),
            final(self).next_id == old(self).next_id,
    {
        let mut r: Vec<InstrumentJobResult> = Vec::new();
        r.append(&mut self.results);
        assert(r@ =~= old(self).results@);
        r
    }
}

// ---------------------------------------------------------------------------
// What keeps an instrument busy
// ---------------------------------------------------------------------------

/// The long work that runs, if any.
pub struct Busy {
    pub device: Option<u64>,
    /// When it began, in milliseconds.
    pub started: Option<u64>,
    pub label: String,
}

/// Whether nothing runs.
pub open spec fn idle(busy: Busy) -> bool {
    busy.device is None && busy.started is None && busy.label@.len() == 0
}

/// When work began that tells how far it is at a time.
pub open spec fn begun(started: Option<u64>, now: u64) -> Option<u64> {
    match started {
        Some(t) => Some(t),
        None => Some(now),
    }
}

/// Whether `r` is what the status line says of work.
pub open spec fn tells_busy(busy: Busy, now: u64, r: Option<BenchStatus>) -> bool {
    match r {
        Some(s) => busy.device is Some && busy.started is Some && busy.label@.len() > 0 && (s
            matches BenchStatus::Busy { label, seconds } && label@ == busy.label@ && seconds
            == elapsed_seconds(busy.started->Some_0, now)),
        None => busy.device is None || busy.started is None || busy.label@.len() == 0,
    }
}

impl Busy {
    /// Nothing runs.
    pub fn none() -> (r: Self)
        ensures
            idle(r),
    {
        Busy { device: None, started: None, label: String::new() }
    }

    /// Work on an instrument begins.
    pub fn begin(&mut self, id: u64, label: &str, now: u64)
        ensures
            final(self).device == Some(id),
            final(self).started == Some(now),
            final(self).label@ == label@,
    {
        self.device = Some(id);
        self.started = Some(now);
        self.label = label.to_owned();
    }

    /// The work tells how far it is.
    pub fn progress(&mut self, message: &str, now: u64)
        ensures
            final(self).device == old(self).device,
            final(self).label@ == message@,
            final(self).started == begun(old(self).started, now),
    {
        self.label = message.to_owned();
        if self.started.is_none() {
            self.started = Some(now);
        }
    }

    /// What the status line says while the work runs: its label and how long it runs.
    pub fn status(&self, now: u64) -> (r: Option<BenchStatus>)
        ensures
            tells_busy(*self, now, r),
    {
        if self.device.is_none() || self.label.as_str().is_empty() {
            return None;
        }
        match self.started {
            Some(started) => {
                let ms: u64 = if now > started {
                    now - started
                } else {
                    0
                };
                let seconds: usize =
                    #[verifier::truncate]
                    ((ms / 1_000) as usize);
                Some(BenchStatus::Busy { label: self.label.clone(), seconds })
            },
            None => None,
        }
    }
}

/// How many whole seconds passed.
pub open spec fn elapsed_seconds(started: u64, now: u64) -> usize {
    (if now > started {
        ((now - started) as u64) / 1_000
    } else {
        0
    }) as usize
}

// ---------------------------------------------------------------------------
// Readings
// ---------------------------------------------------------------------------

/// A value that an instrument measured.
#[derive(Debug)]
pub struct Reading {
    pub channel: String,
    pub value: Real,
    pub unit: String,
}

/// The last value of a channel of an instrument.
pub struct LatestReading {
    pub id: u64,
    pub reading: Reading,
}

/// Whether an entry is for a channel of an instrument.
pub open spec fn is_for(entry: LatestReading, id: u64, channel: Seq<char>) -> bool {
    entry.id == id && entry.reading.channel@ == channel
}

/// The place of a channel's entry from `i` on.
pub open spec fn reading_at(
    latest: Seq<LatestReading>,
    id: u64,
    channel: Seq<char>,
    i: int,
) -> Option<int>
    decreases latest.len() - i,
{
    if i < 0 || i >= latest.len() {
        None
    } else if is_for(latest[i], id, channel) {
        Some(i)
    } else {
        reading_at(latest, id, channel, i + 1)
    }
}

/// Whether no channel has two entries.
pub open spec fn one_per_channel(latest: Seq<LatestReading>) -> bool {
    forall|i: int, j: int|
        0 <= i < j < latest.len() ==> !is_for(
            #[trigger] latest[j],
            (#[trigger] latest[i]).id,
            latest[i].reading.channel@,
        )
}

/// The entries with a channel's value replaced or added.
pub open spec fn with_reading(latest: Seq<LatestReading>, entry: LatestReading) -> Seq<
    LatestReading,
> {
    match reading_at(latest, entry.id, entry.reading.channel@, 0) {
        Some(i) => latest.update(i, entry),
        None => latest.push(entry),
    }
}

/// The place of a channel's entry.
pub fn find_reading(latest: &Vec<LatestReading>, id: u64, channel: &str) -> (r: Option<usize>)
    ensures
        match r {
            Some(i) => reading_at(latest@, id, channel@, 0) == Some(i as int) && i < latest@.len()
                && is_for(latest@[i as int], id, channel@),
            None => reading_at(latest@, id, channel@, 0) is None && forall|k: int|
                0 <= k < latest@.len() ==> !is_for(#[trigger] latest@[k], id, channel@),
        },
{
    let mut i: usize = 0;
    while i < latest.len()
        invariant
            i <= latest@.len(),
            reading_at(latest@, id, channel@, 0) == reading_at(latest@, id, channel@, i as int),
            forall|k: int| 0 <= k < i ==> !is_for(#[trigger] latest@[k], id, channel@),
        decreases latest@.len() - i,
    {
        if latest[i].id == id && text::same_text(latest[i].reading.channel.as_str(), channel) {
            return Some(i);
        }
        i = i + 1;
    }
    None
}

/// The place of the first entry of an instrument from `i` on.
pub open spec fn entry_of(latest: Seq<LatestReading>, id: u64, i: int) -> Option<int>
    decreases latest.len() - i,
{
    if i < 0 || i >= latest.len() {
        None
    } else if latest[i].id == id {
        Some(i)
    } else {
        entry_of(latest, id, i + 1)
    }
}

/// The place of the entry that a meter shows: that of its function, or else any entry of the
/// instrument.
pub fn meter_reading(latest: &Vec<LatestReading>, id: u64, function: &str) -> (r: Option<usize>)
    ensures
        match r {
            Some(i) => i < latest@.len() && latest@[i as int].id == id && Some(i as int) == (
            match reading_at(latest@, id, function@, 0) {
                Some(k) => Some(k),
                None => entry_of(latest@, id, 0),
            }),
            None => forall|k: int| 0 <= k < latest@.len() ==> (#[trigger] latest@[k]).id != id,
        },
{
    match find_reading(latest, id, function) {
        Some(i) => Some(i),
        None => {
            let mut i: usize = 0;
            while i < latest.len()
                invariant
                    i <= latest@.len(),
                    entry_of(latest@, id, 0) == entry_of(latest@, id, i as int),
                    reading_at(latest@, id, function@, 0) is None,
                    forall|k: int| 0 <= k < i ==> (#[trigger] latest@[k]).id != id,
                decreases latest@.len() - i,
            {
                if latest[i].id == id {
                    return Some(i);
                }
                i = i + 1;
            }
            None
        },
    }
}

fn put_reading(latest: &mut Vec<LatestReading>, entry: LatestReading)
    requires
        one_per_channel(old(latest)@),
    ensures
        one_per_channel(final(latest)@),
        final(latest)@ == with_reading(old(latest)@, entry),
{
    match find_reading(latest, entry.id, entry.reading.channel.as_str()) {
        Some(i) => {
            let ghost before = latest@;
            let ghost e = entry;
            latest.set(i, entry);
            assert forall|a: int, b: int| 0 <= a < b < latest@.len() implies !is_for(
                #[trigger] latest@[b],
                (#[trigger] latest@[a]).id,
                latest@[a].reading.channel@,
            ) by {
                assert(before[a].id == before[a].id && before[b].id == before[b].id);
                assert(!is_for(before[b], before[a].id, before[a].reading.channel@));
            }
        },
        None => {
            latest.push(entry);
        },
    }
}

/// The entries with the first `n` readings of an instrument put in.
pub open spec fn with_readings(
    latest: Seq<LatestReading>,
    id: u64,
    readings: Seq<Reading>,
    n: int,
) -> Seq<LatestReading>
    decreases n,
{
    if n <= 0 {
        latest
    } else {
        with_reading(
            with_readings(latest, id, readings, n - 1),
            LatestReading { id, reading: readings[n - 1] },
        )
    }
}

fn clone_reading(r: &Reading) -> (c: Reading)
    ensures
        c == *r,
{
    Reading { channel: r.channel.clone(), value: r.value, unit: r.unit.clone() }
}

pub(crate) fn put_readings(latest: &mut Vec<LatestReading>, id: u64, readings: &Vec<Reading>)
    requires
        one_per_channel(old(latest)@),
    ensures
        one_per_channel(final(latest)@),
        final(latest)@ == with_readings(old(latest)@, id, readings@, readings@.len() as int),
{
    let mut n: usize = 0;
    while n < readings.len()
        invariant
            n <= readings@.len(),
            one_per_channel(latest@),
            latest@ == with_readings(old(latest)@, id, readings@, n as int),
        decreases readings@.len() - n,
    {
        put_reading(latest, LatestReading { id, reading: clone_reading(&readings[n]) });
        n = n + 1;
    }
}

/// The entries of other instruments.
pub open spec fn without_device(latest: Seq<LatestReading>, id: u64) -> Seq<LatestReading> {
    latest.filter(|e: LatestReading| e.id != id)
}

pub(crate) fn drop_device_readings(latest: &Vec<LatestReading>, id: u64) -> (r: Vec<LatestReading>)
    ensures
        r@ == without_device(latest@, id),
{
    let ghost pick = |e: LatestReading| e.id != id;
    let mut r: Vec<LatestReading> = Vec::new();
    let mut i: usize = 0;
    proof {
        assert(latest@.take(0) =~= Seq::<LatestReading>::empty());
        reveal(Seq::filter);
    }
    while i < latest.len()
        invariant
            i <= latest@.len(),
            pick == (|e: LatestReading| e.id != id),
            r@ == latest@.take(i as int).filter(pick),
        decreases latest@.len() - i,
    {
        proof {
            assert(latest@.take(i + 1).drop_last() =~= latest@.take(i as int));
            reveal(Seq::filter);
        }
        if latest[i].id != id {
            r.push(LatestReading { id: latest[i].id, reading: clone_reading(&latest[i].reading) });
        }
        i = i + 1;
    }
    assert(latest@.take(i as int) =~= latest@);
    r
}

/// Forgetting an instrument leaves the entries of the others apart.
pub proof fn lemma_without_device(latest: Seq<LatestReading>, id: u64)
    requires
        one_per_channel(latest),
    ensures
        one_per_channel(without_device(latest, id)),
        forall|k: int|
            0 <= k < without_device(latest, id).len() ==> exists|j: int|
                0 <= j < latest.len() && #[trigger] latest[j] == #[trigger] without_device(
                    latest,
                    id,
                )[k],
    decreases latest.len(),
{
    reveal(Seq::filter);
    if latest.len() > 0 {
        let front = latest.drop_last();
        let last = latest.last();
        assert forall|i: int, j: int| 0 <= i < j < front.len() implies !is_for(
            #[trigger] front[j],
            (#[trigger] front[i]).id,
            front[i].reading.channel@,
        ) by {
            assert(front[i] == latest[i] && front[j] == latest[j]);
        }
        lemma_without_device(front, id);
        let kept = without_device(front, id);
        let all = without_device(latest, id);
        assert forall|k: int| 0 <= k < all.len() implies exists|j: int|
            0 <= j < latest.len() && #[trigger] latest[j] == #[trigger] all[k] by {
            if k < kept.len() {
                assert(all[k] == kept[k]);
                let j = choose|j: int| 0 <= j < front.len() && #[trigger] front[j] == kept[k];
                assert(latest[j] == all[k]);
            } else {
                assert(latest[latest.len() - 1] == all[k]);
            }
        }
        assert forall|i: int, j: int| 0 <= i < j < all.len() implies !is_for(
            #[trigger] all[j],
            (#[trigger] all[i]).id,
            all[i].reading.channel@,
        ) by {
            assert(all[i] == kept[i]);
            if j < kept.len() {
                assert(all[j] == kept[j]);
            } else {
                let a = choose|a: int| 0 <= a < front.len() && #[trigger] front[a] == kept[i];
                assert(latest[a] == all[i]);
                assert(latest[latest.len() - 1] == all[j]);
            }
        }
    }
}

/// Law: a channel's entry holds the value that was measured last.
pub proof fn law_latest_reading_wins(latest: Seq<LatestReading>, id: u64, reading: Reading)
    ensures
        ({
            let after = with_reading(latest, LatestReading { id, reading });
            reading_at(after, id, reading.channel@, 0) matches Some(i) && after[i].reading
                == reading
        }),
{
    let entry = LatestReading { id, reading };
    let after = with_reading(latest, entry);
    lemma_reading_at(latest, id, reading.channel@, 0);
    match reading_at(latest, id, reading.channel@, 0) {
        Some(i) => {
            lemma_first_reading(after, id, reading.channel@, 0, i);
        },
        None => {
            lemma_first_reading(after, id, reading.channel@, 0, latest.len() as int);
        },
    }
}

proof fn lemma_reading_at(latest: Seq<LatestReading>, id: u64, channel: Seq<char>, i: int)
    requires
        0 <= i,
    ensures
        match reading_at(latest, id, channel, i) {
            Some(k) => i <= k < latest.len() && is_for(latest[k], id, channel) && forall|j: int|
                i <= j < k ==> !is_for(#[trigger] latest[j], id, channel),
            None => forall|j: int|
                i <= j < latest.len() ==> !is_for(#[trigger] latest[j], id, channel),
        },
    decreases latest.len() - i,
{
    if i < latest.len() && !is_for(latest[i], id, channel) {
        lemma_reading_at(latest, id, channel, i + 1);
    }
}

proof fn lemma_first_reading(
    latest: Seq<LatestReading>,
    id: u64,
    channel: Seq<char>,
    i: int,
    k: int,
)
    requires
        0 <= i <= k < latest.len(),
        is_for(latest[k], id, channel),
        forall|j: int| i <= j < k ==> !is_for(#[trigger] latest[j], id, channel),
    ensures
        reading_at(latest, id, channel, i) == Some(k),
    decreases k - i,
{
    if i < k {
        lemma_first_reading(latest, id, channel, i + 1, k);
    }
}

// ---------------------------------------------------------------------------
// The log
// ---------------------------------------------------------------------------

/// How many lines the log keeps.
pub const LOG_LINES: usize = 1_000;

/// The last lines of a log.
pub open spec fn last_lines(lines: Seq<Seq<char>>) -> Seq<Seq<char>> {
    if lines.len() > LOG_LINES {
        lines.skip(lines.len() - LOG_LINES)
    } else {
        lines
    }
}

/// A log with a line added.
pub open spec fn logged(log: Seq<Seq<char>>, stamp: Seq<char>, message: Seq<char>) -> Seq<
    Seq<char>,
> {
    last_lines(log.push(stamp + " "@ + message))
}

pub(crate) fn add_log(log: &mut Vec<String>, stamp: &str, message: &str)
    requires
        old(log)@.len() <= LOG_LINES,
    ensures
        final(log)@.len() <= LOG_LINES,
        search::views(final(log)@) == logged(search::views(old(log)@), stamp@, message@),
{
    let ghost before = search::views(log@);
    let line = text::join3(stamp, " ", message);
    let ghost added = line@;
    log.push(line);
    assert(search::views(log@) =~= before.push(added));
    if log.len() > LOG_LINES {
        let _oldest = log.remove(0);
        assert(search::views(log@) =~= before.push(added).skip(1));
    }
}

// ---------------------------------------------------------------------------
// The bench
// ---------------------------------------------------------------------------

/// A waveform that waits to be saved.
pub struct PendingWaveformSave {
    pub id: u64,
    pub job_id: Option<u64>,
    pub byte_count: usize,
    pub effective_ext: String,
    pub file_stem: String,
    pub vendor: String,
    pub trace_count: usize,
    pub channel_files: Vec<ChannelFile>,
}

/// The bench.
pub struct InstrumentControlPanel {
    pub rack: Rack,
    pub status: BenchStatus,
    pub scanning: bool,
    pub debug_mode: bool,
    pub busy: Busy,
    pub jobs: Jobs,
    /// The instruments whose values were asked for.
    pub measuring: HashSet<u64>,
    /// The probes whose output was asked for.
    pub reading_output: HashSet<u64>,
    /// The last screen picture of each instrument, as a file.
    pub pngs: HashMap<u64, Vec<u8>>,
    /// The instruments whose photo was looked for.
    pub photos_tried: HashSet<u64>,
    pub latest: Vec<LatestReading>,
    pub logs: Vec<String>,
    pub pending_save: Option<PendingWaveformSave>,
    pub save_delay: u8,
    pub sample_interval_ms: u64,
    pub last_sample: u64,
    pub last_output: u64,
}

/// The shortest interval between two samples in milliseconds.
pub const MIN_INTERVAL_MS: u64 = 100;

/// The interval between two samples that is kept for one that was asked for.
pub open spec fn kept_interval(asked: u64) -> u64 {
    if asked < MIN_INTERVAL_MS {
        MIN_INTERVAL_MS
    } else {
        asked
    }
}

impl InstrumentControlPanel {
    /// Whether the parts of the bench are in order.
    pub open spec fn wf(self) -> bool {
        &&& self.rack.wf()
        &&& one_per_channel(self.latest@)
        &&& self.logs@.len() <= LOG_LINES
        &&& controls_in_order(self.rack.devices@)
    }

    /// The bench at start.
    pub fn new(known: Vec<String>, sample_interval_ms: u64, now: u64) -> (r: Self)
        ensures
            r.wf(),
            rack::rack_at_start(r.rack, known@),
            r.status is Ready,
            !r.scanning,
            !r.debug_mode,
            idle(r.busy),
            r.jobs.next_id == 1,
            r.jobs.results@.len() == 0,
            r.measuring@ == Set::<u64>::empty(),
            r.reading_output@ == Set::<u64>::empty(),
            r.pngs@ == Map::<u64, Vec<u8>>::empty(),
            r.photos_tried@ == Set::<u64>::empty(),
            r.latest@.len() == 0,
            r.logs@.len() == 0,
            r.pending_save is None,
            r.save_delay == 0,
            r.sample_interval_ms == kept_interval(sample_interval_ms),
            r.last_sample == now,
            r.last_output == now,
    {
        InstrumentControlPanel {
            rack: Rack::new(known),
            status: BenchStatus::Ready,
            scanning: false,
            debug_mode: false,
            busy: Busy::none(),
            jobs: Jobs::new(),
            measuring: HashSet::new(),
            reading_output: HashSet::new(),
            pngs: HashMap::new(),
            photos_tried: HashSet::new(),
            latest: Vec::new(),
            logs: Vec::new(),
            pending_save: None,
            save_delay: 0,
            sample_interval_ms: if sample_interval_ms < MIN_INTERVAL_MS {
                MIN_INTERVAL_MS
            } else {
                sample_interval_ms
            },
            last_sample: now,
            last_output: now,
        }
    }
}

/// Whether the controls of every instrument are in order.
pub open spec fn controls_in_order(devices: Seq<DeviceUi>) -> bool {
    forall|i: int|
        0 <= i < devices.len() ==> (#[trigger] devices[i]).controls.scope.wf()
            && devices[i].controls.source.wf()
}

// ---------------------------------------------------------------------------
// Notes on instruments
// ---------------------------------------------------------------------------

/// Whether `after` is the instrument `before` with a note of an activity.
pub open spec fn noted(before: DeviceUi, after: DeviceUi, activity: Seq<char>) -> bool {
    &&& after.last_activity@ == if text::trimmed(activity).len() == 0 {
        before.last_activity@
    } else {
        controls::activity_note(activity)
    }
    &&& same_device(before, after)
    &&& after.controls == before.controls
}

/// Whether two states are of one instrument, sampled alike.
pub open spec fn same_device(before: DeviceUi, after: DeviceUi) -> bool {
    &&& after.id == before.id
    &&& after.resource == before.resource
    &&& after.identity == before.identity
    &&& after.kind == before.kind
    &&& after.profile == before.profile
    &&& after.capabilities == before.capabilities
    &&& after.acquiring == before.acquiring
    &&& after.paused == before.paused
}

/// Whether `after` are the instruments `before` with a note on the one with the number.
pub open spec fn devices_noted(
    before: Seq<DeviceUi>,
    after: Seq<DeviceUi>,
    id: u64,
    activity: Seq<char>,
) -> bool {
    &&& after.len() == before.len()
    &&& match rack::device_at(before, id, 0) {
        Some(i) => noted(before[i], after[i], activity) && forall|k: int|
            0 <= k < before.len() && k != i ==> #[trigger] after[k] == before[k],
        None => after == before,
    }
}

pub(crate) fn note_device(devices: &mut Vec<DeviceUi>, id: u64, activity: &str)
    ensures
        devices_noted(old(devices)@, final(devices)@, id, activity@),
{
    match rack::find_device(devices, id) {
        Some(i) => {
            controls::note_activity(&mut devices[i].last_activity, activity);
        },
        None => {},
    }
}

/// Whether `after` is the instrument `before` with a text added to its log.
pub open spec fn output_added(before: DeviceUi, after: DeviceUi, added: Seq<char>) -> bool {
    if added.len() == 0 {
        after.controls.io_log@ == before.controls.io_log@
    } else {
        controls::log_kept(
            controls::log_with(before.controls.io_log@, added),
            after.controls.io_log@,
        )
    }
}

/// Whether the controls differ at most in the log and, where `scope` is set, in the readouts
/// of the scope.
pub open spec fn controls_kept(before: ControlState, after: ControlState, scope: bool) -> bool {
    &&& !scope ==> after.scope == before.scope
    &&& after.scope.channel == before.scope.channel
    &&& after.scope.channel_on == before.scope.channel_on
    &&& after.scope.scale_steps == before.scope.scale_steps
    &&& after.scope.positions == before.scope.positions
    &&& after.scope.meas_types == before.scope.meas_types
    &&& after.scope.timebase == before.scope.timebase
    &&& after.scope.trigger_source == before.scope.trigger_source
    &&& after.scope.trigger_level == before.scope.trigger_level
    &&& after.scope.trigger_slope == before.scope.trigger_slope
    &&& after.source == before.source
    &&& after.load == before.load
    &&& after.meter == before.meter
    &&& after.probe == before.probe
    &&& after.bridge == before.bridge
    &&& after.console == before.console
}

/// Whether a readout was kept for the channel that it begins with.
pub open spec fn readout_kept(
    before: Seq<Option<String>>,
    after: Seq<Option<String>>,
    response: Seq<char>,
) -> bool {
    let readout = text::trimmed(response);
    match controls::readout_channel(readout) {
        Some(c) => if c < controls::MAX_CHANNELS {
            &&& after[c] matches Some(kept) && kept@ == readout
            &&& forall|k: int|
                0 <= k < controls::MAX_CHANNELS && k != c ==> #[trigger] after[k] == before[k]
        } else {
            after == before
        },
        None => after == before,
    }
}

/// Whether `after` is the instrument `before` after it answered a command.
pub open spec fn answered(before: DeviceUi, after: DeviceUi, response: Seq<char>) -> bool {
    &&& same_device(before, after)
    &&& controls_kept(before.controls, after.controls, true)
    &&& readout_kept(
        before.controls.scope.meas_results@,
        after.controls.scope.meas_results@,
        response,
    )
    &&& output_added(before, after, response)
    &&& after.last_activity@ == if text::trimmed(response).len() == 0 {
        before.last_activity@
    } else {
        controls::activity_note(response)
    }
}

impl DeviceUi {
    fn take_answer(&mut self, response: &str)
        requires
            old(self).controls.scope.wf(),
            old(self).controls.source.wf(),
        ensures
            final(self).controls.scope.wf(),
            final(self).controls.source.wf(),
            answered(*old(self), *final(self), response@),
    {
        self.controls.scope.store_measure_result(response);
        controls::append_io_log(&mut self.controls.io_log, response);
        controls::note_activity(&mut self.last_activity, response);
    }

    fn take_output(&mut self, output: &str)
        requires
            old(self).controls.scope.wf(),
            old(self).controls.source.wf(),
        ensures
            final(self).controls.scope.wf(),
            final(self).controls.source.wf(),
            printed(*old(self), *final(self), output@),
    {
        proof {
            reveal_strlit("RTT");
            controls::lemma_plain_note("RTT"@);
        }
        controls::append_io_log(&mut self.controls.io_log, output);
        controls::note_activity(&mut self.last_activity, "RTT");
    }
}

/// Whether `after` is the instrument `before` after it printed a text.
pub open spec fn printed(before: DeviceUi, after: DeviceUi, output: Seq<char>) -> bool {
    &&& same_device(before, after)
    &&& controls_kept(before.controls, after.controls, false)
    &&& output_added(before, after, output)
    &&& after.last_activity@ == "RTT"@
}

/// Whether `after` are the instruments `before` after the one with the number answered.
pub open spec fn devices_answered(
    before: Seq<DeviceUi>,
    after: Seq<DeviceUi>,
    id: u64,
    response: Seq<char>,
) -> bool {
    &&& after.len() == before.len()
    &&& match rack::device_at(before, id, 0) {
        Some(i) => answered(before[i], after[i], response) && forall|k: int|
            0 <= k < before.len() && k != i ==> #[trigger] after[k] == before[k],
        None => after == before,
    }
}

/// Whether `after` are the instruments `before` after the one with the number printed a text.
pub open spec fn devices_printed(
    before: Seq<DeviceUi>,
    after: Seq<DeviceUi>,
    id: u64,
    output: Seq<char>,
) -> bool {
    &&& after.len() == before.len()
    &&& match rack::device_at(before, id, 0) {
        Some(i) => printed(before[i], after[i], output) && forall|k: int|
            0 <= k < before.len() && k != i ==> #[trigger] after[k] == before[k],
        None => after == before,
    }
}

pub(crate) fn answer_device(devices: &mut Vec<DeviceUi>, id: u64, response: &str)
    requires
        controls_in_order(old(devices)@),
    ensures
        controls_in_order(final(devices)@),
        devices_answered(old(devices)@, final(devices)@, id, response@),
{
    match rack::find_device(devices, id) {
        Some(i) => {
            devices[i].take_answer(response);
        },
        None => {},
    }
}

pub(crate) fn print_device(devices: &mut Vec<DeviceUi>, id: u64, output: &str)
    requires
        controls_in_order(old(devices)@),
    ensures
        controls_in_order(final(devices)@),
        devices_printed(old(devices)@, final(devices)@, id, output@),
{
    match rack::find_device(devices, id) {
        Some(i) => {
            devices[i].take_output(output);
        },
        None => {},
    }
}

/// Whether `after` is the rack `before` with other states of the same instruments.
pub open spec fn rack_kept(before: Rack, after: Rack) -> bool {
    &&& after.resources == before.resources
    &&& after.inputs == before.inputs
    &&& after.selected_kind == before.selected_kind
    &&& after.selected_id == before.selected_id
    &&& after.next_id == before.next_id
    &&& after.overview_open == before.overview_open
    &&& after.defer_frames == before.defer_frames
}

// ---------------------------------------------------------------------------
// What holds of the bench
// ---------------------------------------------------------------------------

/// Law: a job that somebody waits for is answered once, behind the answers that wait, with its
/// own number; a job that nobody waits for is not answered.
pub proof fn law_waited_jobs_are_answered(
    results: Seq<InstrumentJobResult>,
    id: u64,
    ok: bool,
    kind: JobKind,
    device: Option<u64>,
    detail: JobDetail,
)
    ensures
        completed(results, None, ok, kind, device, detail) == results,
        ({
            let all = completed(results, Some(id), ok, kind, device, detail);
            &&& all.len() == results.len() + 1
            &&& forall|i: int| 0 <= i < results.len() ==> #[trigger] all[i] == results[i]
            &&& all.last().job_id == id && all.last().ok == ok && all.last().kind == kind
                && all.last().device_id == device && all.last().detail == detail
        }),
{
}

/// Law: jobs get numbers one after the other, and kinds of jobs have names of their own.
pub proof fn law_job_numbers_and_names(id: u64, a: JobKind, b: JobKind)
    ensures
        id < u64::MAX ==> following_id(id) == id + 1,
        following_id(u64::MAX) == u64::MAX,
        job_name(a) == job_name(b) ==> a == b,
        job_name(JobKind::Failure) == "error"@,
        job_name(JobKind::Command) == "command"@,
        job_name(JobKind::Capture) == "capture"@,
        job_name(JobKind::WaveformSource) == "waveform_source"@,
{
    reveal_strlit("command");
    reveal_strlit("capture");
    reveal_strlit("waveform_source");
    reveal_strlit("error");
    assert("command"@[1] == 'o' && "capture"@[1] == 'a' && "error"@[1] == 'r');
    assert("waveform_source"@[0] == 'w' && "capture"@[0] == 'c');
}

/// Law: work runs for as many seconds as have passed in full since it began, and none before
/// that; news of it do not move its beginning.
pub proof fn law_work_counts_whole_seconds(started: u64, now: u64, t: u64, busy: Busy)
    ensures
        now >= started && now - started <= u32::MAX ==> 1_000 * elapsed_seconds(started, now) <= now
            - started < 1_000 * elapsed_seconds(started, now) + 1_000,
        now <= started ==> elapsed_seconds(started, now) == 0,
        begun(Some(t), now) == Some(t),
        begun(None, now) == Some(now),
        tells_busy(busy, now, None) <==> busy.device is None || busy.started is None
            || busy.label@.len() == 0,
{
}

/// Law: a value that was measured takes the place of the channel's value before it, and touches
/// neither other channels nor other instruments.
pub proof fn law_reading_touches_its_channel_only(
    latest: Seq<LatestReading>,
    entry: LatestReading,
    id: u64,
    channel: Seq<char>,
)
    requires
        one_per_channel(latest),
        id != entry.id || channel != entry.reading.channel@,
    ensures
        ({
            let after = with_reading(latest, entry);
            &&& forall|k: int|
                0 <= k < latest.len() && (#[trigger] latest[k]).id == id
                    && latest[k].reading.channel@ == channel ==> after[k] == latest[k]
            &&& after.len() == latest.len() || (after.len() == latest.len() + 1 && after.last()
                == entry)
            &&& reading_at(after, id, channel, 0) == reading_at(latest, id, channel, 0)
        }),
{
    let after = with_reading(latest, entry);
    lemma_reading_at(latest, entry.id, entry.reading.channel@, 0);
    lemma_same_place(latest, after, entry, id, channel, 0);
}

proof fn lemma_same_place(
    latest: Seq<LatestReading>,
    after: Seq<LatestReading>,
    entry: LatestReading,
    id: u64,
    channel: Seq<char>,
    i: int,
)
    requires
        0 <= i <= latest.len(),
        latest.len() <= after.len() <= latest.len() + 1,
        after.len() > latest.len() ==> after.last() == entry,
        forall|k: int|
            0 <= k < latest.len() ==> #[trigger] after[k] == latest[k] || (after[k] == entry
                && is_for(latest[k], entry.id, entry.reading.channel@)),
        id != entry.id || channel != entry.reading.channel@,
    ensures
        reading_at(after, id, channel, i) == reading_at(latest, id, channel, i),
    decreases latest.len() - i,
{
    if i < latest.len() {
        assert(after[i] == latest[i] || (after[i] == entry && is_for(
            latest[i],
            entry.id,
            entry.reading.channel@,
        )));
        if !is_for(latest[i], id, channel) {
            lemma_same_place(latest, after, entry, id, channel, i + 1);
        }
    } else if after.len() > latest.len() {
        assert(!is_for(after[i], id, channel));
        assert(reading_at(after, id, channel, i + 1) is None);
    }
}

/// Law: readings are taken over one after the other, so that of several for a channel the last
/// one stays; none changes nothing.
pub proof fn law_readings_are_taken_in_order(
    latest: Seq<LatestReading>,
    id: u64,
    readings: Seq<Reading>,
    last: Reading,
)
    ensures
        with_readings(latest, id, Seq::empty(), 0) == latest,
        with_readings(latest, id, readings.push(last), readings.len() as int + 1) == with_reading(
            with_readings(latest, id, readings, readings.len() as int),
            LatestReading { id, reading: last },
        ),
{
    lemma_readings_prefix(latest, id, readings, readings.push(last), readings.len() as int);
}

proof fn lemma_readings_prefix(
    latest: Seq<LatestReading>,
    id: u64,
    a: Seq<Reading>,
    b: Seq<Reading>,
    n: int,
)
    requires
        0 <= n <= a.len(),
        n <= b.len(),
        forall|i: int| 0 <= i < n ==> #[trigger] a[i] == b[i],
    ensures
        with_readings(latest, id, a, n) == with_readings(latest, id, b, n),
    decreases n,
{
    if n > 0 {
        lemma_readings_prefix(latest, id, a, b, n - 1);
        assert(a[n - 1] == b[n - 1]);
    }
}

/// Law: forgetting an instrument drops all its values and keeps all others, in their order.
pub proof fn law_forgetting_drops_own_values(latest: Seq<LatestReading>, id: u64, k: int)
    ensures
        0 <= k < without_device(latest, id).len() ==> without_device(latest, id)[k].id != id,
        0 <= k < latest.len() && latest[k].id != id ==> without_device(latest, id).contains(
            latest[k],
        ),
        without_device(latest, id) == latest.filter(|e: LatestReading| e.id != id),
{
    latest.filter_lemma(|e: LatestReading| e.id != id);
    if 0 <= k < without_device(latest, id).len() {
        let r = without_device(latest, id);
        assert(r == latest.filter(|e: LatestReading| e.id != id));
        assert(r[k] == latest.filter(|e: LatestReading| e.id != id)[k]);
    }
    if 0 <= k < latest.len() && latest[k].id != id {
        assert(latest.contains(latest[k]));
    }
}

/// Law: a message is logged at the end, behind its time; the log keeps its last thousand lines.
pub proof fn law_log_keeps_the_last_thousand_lines(
    log: Seq<Seq<char>>,
    stamp: Seq<char>,
    message: Seq<char>,
)
    ensures
        ({
            let r = logged(log, stamp, message);
            &&& r.len() > 0 && stamp.is_prefix_of(r.last()) && message.is_suffix_of(r.last())
            &&& r.last().len() == stamp.len() + 1 + message.len()
            &&& r.len() == if log.len() < 1000 {
                log.len() + 1
            } else {
                1000
            }
            &&& forall|i: int|
                1 <= i < r.len() ==> #[trigger] r[r.len() - 1 - i] == log[log.len() - i]
        }),
{
    reveal_strlit(" ");
    let all = log.push(stamp + " "@ + message);
    let r = logged(log, stamp, message);
    assert(r.last() == all.last());
}

/// Law: samples lie at least a tenth of a second apart; a longer interval is kept.
pub proof fn law_samples_lie_apart(asked: u64)
    ensures
        asked >= 100 ==> kept_interval(asked) == asked,
        asked < 100 ==> kept_interval(asked) == 100,
{
}

/// Law: what an instrument answers or prints reaches that instrument alone: its log ends in it,
/// and its settings stay. An answer that is a readout is kept for its channel.
pub proof fn law_answers_reach_their_instrument(
    before: Seq<DeviceUi>,
    after: Seq<DeviceUi>,
    i: int,
    response: Seq<char>,
)
    requires
        0 <= i < before.len(),
        forall|k: int| 0 <= k < before.len() && k != i ==> (#[trigger] before[k]).id
            != before[i].id,
        devices_answered(before, after, before[i].id, response) || devices_printed(
            before,
            after,
            before[i].id,
            response,
        ),
    ensures
        after.len() == before.len(),
        forall|k: int| 0 <= k < before.len() && k != i ==> #[trigger] after[k] == before[k],
        after[i].id == before[i].id && after[i].resource == before[i].resource && after[i].kind
            == before[i].kind && after[i].acquiring == before[i].acquiring,
        after[i].controls.source == before[i].controls.source,
        after[i].controls.load == before[i].controls.load,
        after[i].controls.meter == before[i].controls.meter,
        after[i].controls.probe == before[i].controls.probe,
        after[i].controls.bridge == before[i].controls.bridge,
        after[i].controls.scope.channel_on == before[i].controls.scope.channel_on,
        response.len() == 0 ==> after[i].controls.io_log@ == before[i].controls.io_log@,
        text::byte_len(controls::log_with(before[i].controls.io_log@, response)) <= 32768
            && response.len() > 0 ==> response.is_suffix_of(after[i].controls.io_log@)
            && before[i].controls.io_log@.is_prefix_of(after[i].controls.io_log@),
{
    lemma_device_is_found(before, i, 0);
    controls::law_log_ends_in_what_was_added(
        before[i].controls.io_log@,
        response,
        after[i].controls.io_log@,
    );
}

proof fn lemma_device_is_found(devices: Seq<DeviceUi>, i: int, from: int)
    requires
        0 <= from <= i < devices.len(),
        forall|k: int| 0 <= k < devices.len() && k != i ==> (#[trigger] devices[k]).id
            != devices[i].id,
    ensures
        rack::device_at(devices, devices[i].id, from) == Some(i),
    decreases i - from,
{
    if from < i {
        lemma_device_is_found(devices, i, from + 1);
    }
}

/// Law: a readout that names one of the four channels is kept for that channel and no other;
/// what names none is not kept.
pub proof fn law_readout_is_kept_for_its_channel(
    before: Seq<Option<String>>,
    after: Seq<Option<String>>,
    response: Seq<char>,
    c: int,
)
    requires
        readout_kept(before, after, response),
        before.len() == 4,
        after.len() == 4,
    ensures
        0 <= c < 4 && controls::readout_channel(text::trimmed(response)) == Some(c) ==> after[c]
            is Some && after[c]->0@ == text::trimmed(response) && forall|k: int|
            0 <= k < 4 && k != c ==> #[trigger] after[k] == before[k],
        controls::readout_channel(text::trimmed(response)) is None ==> after == before,
        c >= 4 && controls::readout_channel(text::trimmed(response)) == Some(c) ==> after
            == before,
{
}

/// Law: a note on an instrument is its last activity; a blank one leaves the note that was there,
/// and nothing else of the instrument changes.
pub proof fn law_note_changes_nothing_else(before: DeviceUi, after: DeviceUi, activity: Seq<char>)
    requires
        noted(before, after, activity),
    ensures
        text::trimmed(activity).len() == 0 ==> after.last_activity@ == before.last_activity@,
        text::trimmed(activity).len() > 0 ==> after.last_activity@.len() <= 72
            && after.last_activity@ == controls::noted(before.last_activity@, activity),
        after.controls == before.controls && after.id == before.id && after.resource
            == before.resource && after.identity == before.identity && after.kind == before.kind
            && after.acquiring == before.acquiring && after.paused == before.paused,
{
    controls::law_activity_is_noted_on_one_line(before.last_activity@, activity);
}

/// Law: an instrument without a value for a channel is shown by the first of its values, which is
/// one of its own.
pub proof fn law_first_entry_is_of_the_instrument(latest: Seq<LatestReading>, id: u64, i: int)
    requires
        0 <= i <= latest.len(),
    ensures
        match entry_of(latest, id, i) {
            Some(k) => i <= k < latest.len() && latest[k].id == id && forall|j: int|
                i <= j < k ==> (#[trigger] latest[j]).id != id,
            None => forall|j: int| i <= j < latest.len() ==> (#[trigger] latest[j]).id != id,
        },
    decreases latest.len() - i,
{
    if i < latest.len() && latest[i].id != id {
        law_first_entry_is_of_the_instrument(latest, id, i + 1);
    }
}

} // verus!
