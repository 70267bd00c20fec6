//! What the workers of the bench report, and what that changes.
use vstd::prelude::*;
use vstd::string::*;

use crate::bench::{
    InstrumentControlPanel, Busy, JobDetail, JobKind, PendingWaveformSave, Reading,
};
use crate::bench_status::BenchStatus;
use crate::instrument::InstrumentKind;
use crate::rack::{Capabilities, ControlState, DeviceUi, Identity, Rack, ResourceInfo};
use crate::waveform::ChannelFile;
use crate::{bench, controls, discovery, files, rack, search, text, waveform};

verus! {

broadcast use vstd::std_specs::hash::group_hash_axioms;

// ---------------------------------------------------------------------------
// Connections
// ---------------------------------------------------------------------------

/// A connection that was opened.
pub struct ConnectedInfo {
    pub id: u64,
    pub resource: String,
    pub identity: Identity,
    pub kind: InstrumentKind,
    pub profile: String,
    pub capabilities: Capabilities,
}

/// Whether `device` is the instrument of a connection that was just opened.
pub open spec fn fresh_device(device: DeviceUi, info: ConnectedInfo, controls: ControlState) -> bool {
    &&& device.id == info.id
    &&& device.resource == info.resource
    &&& device.identity == info.identity
    &&& device.kind == info.kind
    &&& device.profile == info.profile
    &&& device.capabilities == info.capabilities
    &&& device.controls == controls
    &&& !device.acquiring
    &&& !device.paused
    &&& device.last_activity@ == "LINK UP"@
}

/// The rack after an instrument joined it: the new one is selected, and its kind with it
/// unless the overview is open.
pub open spec fn joined_rack(rack: Rack, devices: Vec<DeviceUi>, id: u64, kind: InstrumentKind) -> Rack {
    let with_device = Rack { devices, ..rack };
    let chosen = if rack.overview_open {
        with_device
    } else {
        rack::with_kind(with_device, kind)
    };
    Rack { selected_id: Some(id), ..chosen }
}

/// The numbers that are not the given one.
pub open spec fn devices_without(devices: Seq<DeviceUi>, id: u64) -> Seq<DeviceUi> {
    devices.filter(|d: DeviceUi| d.id != id)
}

fn remove_device(devices: &mut Vec<DeviceUi>, id: u64)
    ensures
        final(devices)@ == devices_without(old(devices)@, id),
{
    let ghost pick = |d: DeviceUi| d.id != id;
    let ghost all = devices@;
    let mut i: usize = 0;
    let mut left: usize = devices.len();
    proof {
        reveal(Seq::filter);
        assert(all.take(0) =~= Seq::<DeviceUi>::empty());
        assert(devices@ =~= all.take(0).filter(pick) + all.skip(0));
    }
    while left > 0
        invariant
            pick == (|d: DeviceUi| d.id != id),
            left <= all.len(),
            i == all.take(all.len() - left).filter(pick).len(),
            devices@ == all.take(all.len() - left).filter(pick) + all.skip(all.len() - left),
            i + left == devices@.len(),
        decreases left,
    {
        let ghost n = all.len() - left;
        proof {
            reveal(Seq::filter);
            assert(all.take(n + 1).drop_last() =~= all.take(n));
            assert(i < devices.len());
            assert(devices@[i as int] == all[n]);
            assert(all.skip(n) =~= seq![all[n]] + all.skip(n + 1));
        }
        if devices[i].id == id {
            let ghost before = devices@;
            let _gone = devices.remove(i);
            assert(devices@ =~= all.take(n).filter(pick) + all.skip(n + 1));
        } else {
            assert(devices@ =~= all.take(n).filter(pick).push(all[n]) + all.skip(n + 1));
            i = i + 1;
        }
        left = left - 1;
    }
    proof {
        assert(all.take(all.len() as int) =~= all);
        assert(devices@ =~= all.filter(pick));
    }
}

proof fn lemma_filter_keeps_order(devices: Seq<DeviceUi>, id: u64)
    requires
        bench::controls_in_order(devices),
    ensures
        bench::controls_in_order(devices_without(devices, id)),
    decreases devices.len(),
{
    let pick = |d: DeviceUi| d.id != id;
    reveal(Seq::filter);
    if devices.len() > 0 {
        let front = devices.drop_last();
        assert forall|i: int| 0 <= i < front.len() implies (#[trigger] front[i]).controls.scope.wf()
            && front[i].controls.source.wf() by {
            assert(front[i] == devices[i]);
        }
        lemma_filter_keeps_order(front, id);
        assert(devices.last().controls.scope.wf() && devices.last().controls.source.wf());
    }
}

/// The selection after an instrument left: another one of the selected kind takes the place of
/// the one that left.
pub open spec fn selection_after_leave(
    devices: Seq<DeviceUi>,
    selected: Option<u64>,
    kind: InstrumentKind,
    id: u64,
) -> Option<u64> {
    match selected {
        Some(s) => if s != id {
            Some(s)
        } else {
            rack::id_at(devices, rack::first_of_kind(devices, kind, 0))
        },
        None => rack::id_at(devices, rack::first_of_kind(devices, kind, 0)),
    }
}

/// Whether `after` is the bench `before` after a scan ended.
pub open spec fn scan_taken(
    before: InstrumentControlPanel,
    after: InstrumentControlPanel,
    found: Seq<ResourceInfo>,
    stamp: Seq<char>,
) -> bool {
    &&& exists|summary: discovery::ScanSummary| #[trigger]
        discovery::discovered(before.rack, after.rack, found, summary)
            && scan_status(after.status, summary)
    &&& search::views(after.logs@) == bench::logged(
        search::views(before.logs@),
        stamp,
        "SCAN "@ + text::decimal(after.rack.resources@.len())
            + " resource(s); auto-assigned by *IDN? / USB VID-PID"@,
    )
    &&& after == (InstrumentControlPanel {
        rack: after.rack,
        status: after.status,
        logs: after.logs,
        scanning: false,
        ..before
    })
}

/// Whether `after` is the bench `before` after a connection was opened.
pub open spec fn connection_taken(
    before: InstrumentControlPanel,
    after: InstrumentControlPanel,
    info: ConnectedInfo,
    controls: ControlState,
    stamp: Seq<char>,
) -> bool {
    &&& after.rack == joined_rack(
        before.rack,
        after.rack.devices,
        info.id,
        info.kind,
    )
    &&& after.rack.devices@.len() == before.rack.devices@.len() + 1
    &&& after.rack.devices@.drop_last() == before.rack.devices@
    &&& fresh_device(after.rack.devices@.last(), info, controls)
    &&& after.status matches BenchStatus::Connected { identity } && identity@
        == info.identity.raw@
    &&& search::views(after.logs@) == bench::logged(
        search::views(before.logs@),
        stamp,
        "CONNECT "@ + info.resource@ + " — "@ + info.identity.raw@,
    )
    &&& after == (InstrumentControlPanel {
        rack: after.rack,
        status: after.status,
        logs: after.logs,
        ..before
    })
}

/// Whether `after` is the bench `before` after a connection was closed.
pub open spec fn connection_lost(
    before: InstrumentControlPanel,
    after: InstrumentControlPanel,
    id: u64,
    stamp: Seq<char>,
) -> bool {
    &&& after.rack.devices@ == devices_without(before.rack.devices@, id)
    &&& after.rack == (Rack {
        devices: after.rack.devices,
        selected_id: selection_after_leave(
            after.rack.devices@,
            before.rack.selected_id,
            before.rack.selected_kind,
            id,
        ),
        ..before.rack
    })
    &&& before.busy.device == Some(id) ==> bench::idle(after.busy)
    &&& before.busy.device != Some(id) ==> after.busy == before.busy
    &&& after.measuring@ == before.measuring@.remove(id)
    &&& after.reading_output@ == before.reading_output@.remove(id)
    &&& after.pngs@ == before.pngs@.remove(id)
    &&& after.photos_tried@ == before.photos_tried@.remove(id)
    &&& after.status is Disconnected
    &&& search::views(after.logs@) == bench::logged(
        search::views(before.logs@),
        stamp,
        "DISCONNECT #"@ + text::decimal(id as nat),
    )
    &&& after == (InstrumentControlPanel {
        rack: after.rack,
        status: after.status,
        logs: after.logs,
        busy: after.busy,
        measuring: after.measuring,
        reading_output: after.reading_output,
        pngs: after.pngs,
        photos_tried: after.photos_tried,
        ..before
    })
}

impl InstrumentControlPanel {
    fn write_log(&mut self, stamp: &str, message: &str)
        requires
            old(self).logs@.len() <= bench::LOG_LINES,
        ensures
            final(self).logs@.len() <= bench::LOG_LINES,
            search::views(final(self).logs@) == bench::logged(
                search::views(old(self).logs@),
                stamp@,
                message@,
            ),
            *final(self) == (InstrumentControlPanel { logs: final(self).logs, ..*old(self) }),
    {
        bench::add_log(&mut self.logs, stamp, message);
    }

    /// A scan ended.
    pub fn on_resources(&mut self, found: Vec<ResourceInfo>, stamp: &str)
        requires
            old(self).wf(),
        ensures
            final(self).wf(),
            scan_taken(*old(self), *final(self), found@, stamp@),
    {
        self.scanning = false;
        let summary = self.rack.apply_discovered_resources(found);
        self.status = if summary.identified > 0 {
            BenchStatus::Found {
                total: summary.total,
                identified: summary.identified,
                failed: summary.failed,
            }
        } else {
            BenchStatus::FoundUnknown { total: summary.total }
        };
        let n = text::decimal_text(summary.total as u64);
        let message = text::join3(
            "SCAN ",
            n.as_str(),
            " resource(s); auto-assigned by *IDN? / USB VID-PID",
        );
        assert(discovery::discovered(old(self).rack, self.rack, found@, summary));
        self.write_log(stamp, message.as_str());
    }

    /// A connection was opened. `controls` are the controls of a new instrument.
    pub fn on_connected(&mut self, info: ConnectedInfo, controls: ControlState, stamp: &str)
        requires
            old(self).wf(),
            controls.scope.wf(),
            controls.source.wf(),
        ensures
            final(self).wf(),
            connection_taken(*old(self), *final(self), info, controls, stamp@),
    {
        let raw = info.identity.raw.clone();
        let mut message = text::join3("CONNECT ", info.resource.as_str(), " — ");
        message.append(raw.as_str());
        let id: u64 = info.id;
        let kind = info.kind;
        let device = DeviceUi {
            id,
            resource: info.resource,
            identity: info.identity,
            kind,
            profile: info.profile,
            capabilities: info.capabilities,
            controls,
            acquiring: false,
            paused: false,
            last_activity: "LINK UP".to_owned(),
        };
        self.status = BenchStatus::Connected { identity: raw };
        self.rack.devices.push(device);
        if !self.rack.overview_open {
            self.rack.select_kind(kind);
        }
        self.rack.selected_id = Some(id);
        assert(self.rack.devices@.drop_last() =~= old(self).rack.devices@);
        self.write_log(stamp, message.as_str());
    }

    /// A connection was closed: what was remembered of it is forgotten.
    pub fn on_disconnected(&mut self, id: u64, stamp: &str)
        requires
            old(self).wf(),
        ensures
            final(self).wf(),
            connection_lost(*old(self), *final(self), id, stamp@),
    {
        if self.busy.device == Some(id) {
            self.busy = Busy::none();
        }
        proof {
            lemma_filter_keeps_order(self.rack.devices@, id);
        }
        remove_device(&mut self.rack.devices, id);
        let _m: bool = self.measuring.remove(&id);
        let _o: bool = self.reading_output.remove(&id);
        let _p: Option<Vec<u8>> = self.pngs.remove(&id);
        let _t: bool = self.photos_tried.remove(&id);
        let stays: bool = match self.rack.selected_id {
            Some(s) => s != id,
            None => false,
        };
        if !stays {
            self.rack.selected_id = match rack::find_kind(
                &self.rack.devices,
                self.rack.selected_kind,
            ) {
                Some(i) => Some(self.rack.devices[i].id),
                None => None,
            };
        }
        self.status = BenchStatus::Disconnected;
        let n = text::decimal_text(id);
        let message = text::join2("DISCONNECT #", n.as_str());
        self.write_log(stamp, message.as_str());
    }
}

/// Whether the status line tells what a scan came to.
pub open spec fn scan_status(status: BenchStatus, summary: discovery::ScanSummary) -> bool {
    if summary.identified > 0 {
        status == (BenchStatus::Found {
            total: summary.total,
            identified: summary.identified,
            failed: summary.failed,
        })
    } else {
        status == (BenchStatus::FoundUnknown { total: summary.total })
    }
}

// ---------------------------------------------------------------------------
// Answers
// ---------------------------------------------------------------------------

/// Whether `after` is the bench `before` after a command was carried out.
pub open spec fn command_taken(
    before: InstrumentControlPanel,
    after: InstrumentControlPanel,
    id: u64,
    job_id: Option<u64>,
    response: Option<String>,
    stamp: Seq<char>,
) -> bool {
    &&& after.reading_output@ == before.reading_output@.remove(id)
    &&& bench::rack_kept(before.rack, after.rack)
    &&& after.jobs.next_id == before.jobs.next_id
    &&& after.jobs.results@ == bench::completed(
        before.jobs.results@,
        job_id,
        true,
        JobKind::Command,
        Some(id),
        JobDetail::Response(response),
    )
    &&& match response {
        Some(r) => {
            &&& bench::devices_answered(
                before.rack.devices@,
                after.rack.devices@,
                id,
                r@,
            )
            &&& after.status == (BenchStatus::Message { message: r })
            &&& search::views(after.logs@) == bench::logged(
                search::views(before.logs@),
                stamp,
                "#"@ + text::decimal(id as nat) + " ◀ "@ + r@,
            )
        },
        None => {
            &&& after.rack == before.rack
            &&& after.status is CommandCompleted
            &&& after.logs == before.logs
        },
    }
    &&& after == (InstrumentControlPanel {
        rack: after.rack,
        status: after.status,
        logs: after.logs,
        jobs: after.jobs,
        reading_output: after.reading_output,
        ..before
    })
}

/// Whether `after` is the bench `before` after a probe was asked for its output.
pub open spec fn output_taken(
    before: InstrumentControlPanel,
    after: InstrumentControlPanel,
    id: u64,
    output: Option<String>,
    stamp: Seq<char>,
) -> bool {
    &&& after.reading_output@ == before.reading_output@.remove(id)
    &&& bench::rack_kept(before.rack, after.rack)
    &&& match output {
        Some(o) => {
            &&& bench::devices_printed(
                before.rack.devices@,
                after.rack.devices@,
                id,
                o@,
            )
            &&& search::views(after.logs@) == bench::logged(
                search::views(before.logs@),
                stamp,
                "#"@ + text::decimal(id as nat) + " RTT "@ + o@,
            )
        },
        None => after.rack == before.rack && after.logs == before.logs,
    }
    &&& after == (InstrumentControlPanel {
        rack: after.rack,
        logs: after.logs,
        reading_output: after.reading_output,
        ..before
    })
}

/// Whether `after` is the bench `before` after an instrument was measured.
pub open spec fn measurements_taken(
    before: InstrumentControlPanel,
    after: InstrumentControlPanel,
    id: u64,
    readings: Seq<Reading>,
    clock: Seq<char>,
) -> bool {
    &&& after.measuring@ == before.measuring@.remove(id)
    &&& after.latest@ == bench::with_readings(
        before.latest@,
        id,
        readings,
        readings.len() as int,
    )
    &&& bench::rack_kept(before.rack, after.rack)
    &&& bench::devices_noted(
        before.rack.devices@,
        after.rack.devices@,
        id,
        "TELEMETRY"@,
    )
    &&& after.status matches BenchStatus::Updated { stamp } && stamp@ == clock
    &&& after == (InstrumentControlPanel {
        rack: after.rack,
        status: after.status,
        latest: after.latest,
        measuring: after.measuring,
        ..before
    })
}

impl InstrumentControlPanel {
    /// A command was carried out.
    pub fn on_command_done(
        &mut self,
        id: u64,
        job_id: Option<u64>,
        response: Option<String>,
        stamp: &str,
    )
        requires
            old(self).wf(),
        ensures
            final(self).wf(),
            command_taken(*old(self), *final(self), id, job_id, response, stamp@),
    {
        let _o: bool = self.reading_output.remove(&id);
        match &response {
            Some(r) => {
                bench::answer_device(&mut self.rack.devices, id, r.as_str());
                self.status = BenchStatus::Message { message: r.clone() };
                let n = text::decimal_text(id);
                let mut message = text::join3("#", n.as_str(), " ◀ ");
                message.append(r.as_str());
                self.write_log(stamp, message.as_str());
            },
            None => {
                self.status = BenchStatus::CommandCompleted;
            },
        }
        self.jobs.complete_job(
            job_id,
            true,
            JobKind::Command,
            Some(id),
            JobDetail::Response(response),
        );
    }

    /// A probe was asked for its output.
    pub fn on_session_output(&mut self, id: u64, output: Option<String>, stamp: &str)
        requires
            old(self).wf(),
        ensures
            final(self).wf(),
            output_taken(*old(self), *final(self), id, output, stamp@),
    {
        let _o: bool = self.reading_output.remove(&id);
        match &output {
            Some(o) => {
                bench::print_device(&mut self.rack.devices, id, o.as_str());
                let n = text::decimal_text(id);
                let mut message = text::join3("#", n.as_str(), " RTT ");
                message.append(o.as_str());
                self.write_log(stamp, message.as_str());
            },
            None => {},
        }
    }

    /// An instrument was measured.
    pub fn on_measurements(&mut self, id: u64, readings: &Vec<Reading>, clock: &str)
        requires
            old(self).wf(),
        ensures
            final(self).wf(),
            measurements_taken(*old(self), *final(self), id, readings@, clock@),
    {
        let _m: bool = self.measuring.remove(&id);
        bench::put_readings(&mut self.latest, id, readings);
        bench::note_device(&mut self.rack.devices, id, "TELEMETRY");
        self.status = BenchStatus::Updated { stamp: clock.to_owned() };
    }

    /// Forgets the values of an instrument.
    pub fn clear_readings(&mut self, id: u64)
        requires
            old(self).wf(),
        ensures
            final(self).wf(),
            final(self).latest@ == bench::without_device(old(self).latest@, id),
            *final(self) == (InstrumentControlPanel { latest: final(self).latest, ..*old(self) }),
    {
        proof {
            bench::lemma_without_device(self.latest@, id);
        }
        self.latest = bench::drop_device_readings(&self.latest, id);
    }
}

// ---------------------------------------------------------------------------
// Pictures and waveforms
// ---------------------------------------------------------------------------

/// A screen picture that was taken.
pub struct ShotInfo {
    pub id: u64,
    pub job_id: Option<u64>,
    pub width: usize,
    pub height: usize,
    /// The picture as a file.
    pub png: Vec<u8>,
}

/// A file that a picture was to be written to, and how that went.
pub struct ShotFile {
    pub path: String,
    pub written: Result<(), String>,
}

/// What came of taking a picture.
pub open spec fn shot_detail(info: ShotInfo, file: Option<ShotFile>) -> JobDetail {
    match file {
        Some(f) => match f.written {
            Ok(_) => JobDetail::Shot {
                path: Some(f.path),
                bytes: info.png.len(),
                width: info.width,
                height: info.height,
            },
            Err(message) => JobDetail::Failed(message),
        },
        None => JobDetail::Shot {
            path: None,
            bytes: info.png.len(),
            width: info.width,
            height: info.height,
        },
    }
}

/// Whether the status line tells what came of taking a picture.
pub open spec fn shot_status(status: BenchStatus, file: Option<ShotFile>) -> bool {
    match file {
        Some(f) => match f.written {
            Ok(_) => status == (BenchStatus::ShotSaved { path: f.path }),
            Err(m) => status == (BenchStatus::ShotSaveFailed { message: m }),
        },
        None => status is ShotCopied,
    }
}

/// Whether `after` is the bench `before` after a screen picture was taken.
pub open spec fn shot_taken(
    before: InstrumentControlPanel,
    after: InstrumentControlPanel,
    info: ShotInfo,
    file: Option<ShotFile>,
) -> bool {
    &&& bench::idle(after.busy)
    &&& bench::rack_kept(before.rack, after.rack)
    &&& bench::devices_noted(
        before.rack.devices@,
        after.rack.devices@,
        info.id,
        "SCREEN CAPTURE"@,
    )
    &&& shot_status(after.status, file)
    &&& after.pngs@ == before.pngs@.insert(info.id, info.png)
    &&& after.jobs.next_id == before.jobs.next_id
    &&& after.jobs.results@ == bench::completed(
        before.jobs.results@,
        info.job_id,
        !(file matches Some(f) && f.written is Err),
        JobKind::Capture,
        Some(info.id),
        shot_detail(info, file),
    )
    &&& after == (InstrumentControlPanel {
        rack: after.rack,
        status: after.status,
        busy: after.busy,
        jobs: after.jobs,
        pngs: after.pngs,
        ..before
    })
}

impl InstrumentControlPanel {
    /// A screen picture was taken, and written to a file where one was named.
    pub fn on_screenshot(&mut self, info: ShotInfo, file: Option<ShotFile>)
        requires
            old(self).wf(),
        ensures
            final(self).wf(),
            shot_taken(*old(self), *final(self), info, file),
    {
        let bytes: usize = info.png.len();
        self.busy = Busy::none();
        let _p: Option<Vec<u8>> = self.pngs.insert(info.id, info.png);
        bench::note_device(&mut self.rack.devices, info.id, "SCREEN CAPTURE");
        match file {
            Some(f) => match f.written {
                Ok(_) => {
                    self.status = BenchStatus::ShotSaved { path: f.path.clone() };
                    self.jobs.complete_job(
                        info.job_id,
                        true,
                        JobKind::Capture,
                        Some(info.id),
                        JobDetail::Shot {
                            path: Some(f.path),
                            bytes,
                            width: info.width,
                            height: info.height,
                        },
                    );
                },
                Err(message) => {
                    self.status = BenchStatus::ShotSaveFailed { message: message.clone() };
                    self.jobs.complete_job(
                        info.job_id,
                        false,
                        JobKind::Capture,
                        Some(info.id),
                        JobDetail::Failed(message),
                    );
                },
            },
            None => {
                self.status = BenchStatus::ShotCopied;
                self.jobs.complete_job(
                    info.job_id,
                    true,
                    JobKind::Capture,
                    Some(info.id),
                    JobDetail::Shot {
                        path: None,
                        bytes,
                        width: info.width,
                        height: info.height,
                    },
                );
            },
        }
    }

    /// Tells whether the photo of an instrument is still to be looked for, which is then done.
    pub fn photo_wanted(&mut self, id: u64) -> (wanted: bool)
        ensures
            wanted == !old(self).photos_tried@.contains(id),
            final(self).photos_tried@ == old(self).photos_tried@.insert(id),
            *final(self) == (InstrumentControlPanel {
                photos_tried: final(self).photos_tried,
                ..*old(self)
            }),
    {
        let wanted: bool = !self.photos_tried.contains(&id);
        let _n: bool = self.photos_tried.insert(id);
        wanted
    }

    /// A waveform was read.
    pub fn on_waveform(&mut self, channel: &str, points: usize)
        requires
            old(self).wf(),
        ensures
            final(self).wf(),
            bench::idle(final(self).busy),
            final(self).status matches BenchStatus::WavePoints { channel: c, points: n } && c@
                == channel@ && n == points,
            *final(self) == (InstrumentControlPanel {
                status: final(self).status,
                busy: final(self).busy,
                ..*old(self)
            }),
    {
        self.busy = Busy::none();
        self.status = BenchStatus::WavePoints { channel: channel.to_owned(), points };
    }
}

/// The data of the channels of a scope, as the worker hands it on.
pub struct SourceInfo {
    pub id: u64,
    pub job_id: Option<u64>,
    pub byte_count: usize,
    pub suggested_name: String,
    /// The stem and the extension of the suggested name.
    pub name_stem: Option<String>,
    pub name_ext: Option<String>,
    /// What the bytes look like.
    pub sniffed: Option<String>,
    /// How many channels could be read, and how many points the first one has.
    pub trace_count: usize,
    pub points: usize,
    pub parse_error: Option<String>,
    pub channel_files: Vec<ChannelFile>,
}

/// The channels that were read, as the status line names them.
pub open spec fn channel_summary(files: Seq<ChannelFile>) -> Seq<char> {
    if files.len() == 0 {
        "?"@
    } else {
        waveform::joined_channels(files, "+"@, files.len() as int)
    }
}

/// Whether the status line tells what came of reading the channels.
pub open spec fn source_status(status: BenchStatus, info: SourceInfo) -> bool {
    let kb = info.byte_count / 1024;
    if info.trace_count > 0 {
        status matches BenchStatus::WaveRead { summary, channels, points, kilobytes } && summary@
            == channel_summary(info.channel_files@) && channels == info.trace_count && points
            == info.points && kilobytes == kb
    } else {
        match info.parse_error {
            Some(e) => status == (BenchStatus::WaveUnparsed { kilobytes: kb, message: e }),
            None => status == (BenchStatus::WaveEmpty { kilobytes: kb }),
        }
    }
}

/// The log after the channels were read.
pub open spec fn source_log(log: Seq<Seq<char>>, stamp: Seq<char>, info: SourceInfo) -> Seq<
    Seq<char>,
> {
    if info.trace_count > 0 {
        bench::logged(
            log,
            stamp,
            "WaveformSource OK: "@ + channel_summary(info.channel_files@) + ", "@ + text::decimal(
                info.points as nat,
            ) + " points, "@ + text::decimal(info.byte_count as nat) + " bytes → "@
                + info.suggested_name@,
        )
    } else {
        match info.parse_error {
            Some(e) => bench::logged(log, stamp, "WaveformSource parse error: "@ + e@),
            None => log,
        }
    }
}

/// The maker of the instrument with a number; empty where there is none.
pub open spec fn maker_of(devices: Seq<DeviceUi>, id: u64) -> Seq<char> {
    match rack::device_at(devices, id, 0) {
        Some(i) => devices[i].identity.manufacturer@,
        None => Seq::empty(),
    }
}

/// Whether `pending` is what is to be saved of the channels that were read.
pub open spec fn pending_from(
    pending: PendingWaveformSave,
    devices: Seq<DeviceUi>,
    info: SourceInfo,
) -> bool {
    &&& pending.id == info.id
    &&& pending.job_id == info.job_id
    &&& pending.byte_count == info.byte_count
    &&& pending.effective_ext@ == waveform::effective_ext(
        files::opt_text(info.name_ext),
        files::opt_text(info.sniffed),
        if info.channel_files@.len() > 0 {
            Some(info.channel_files@[0].ext@)
        } else {
            None
        },
    )
    &&& pending.file_stem@ == match info.name_stem {
        Some(s) => s@,
        None => "waveform"@,
    }
    &&& pending.vendor@ == maker_of(devices, info.id)
    &&& pending.trace_count == if info.trace_count > 1 {
        info.trace_count - 1
    } else {
        0
    }
    &&& pending.channel_files == info.channel_files
}

fn summarize_channels(files: &Vec<ChannelFile>) -> (r: String)
    ensures
        r@ == channel_summary(files@),
{
    if files.len() == 0 {
        "?".to_owned()
    } else {
        waveform::join_channels(files, "+")
    }
}

fn find_maker(devices: &Vec<DeviceUi>, id: u64) -> (r: String)
    ensures
        r@ == maker_of(devices@, id),
{
    match rack::find_device(devices, id) {
        Some(i) => devices[i].identity.manufacturer.clone(),
        None => String::new(),
    }
}

fn source_report(info: &SourceInfo, summary: &str) -> (r: String)
    ensures
        r@ == "WaveformSource OK: "@ + summary@ + ", "@ + text::decimal(info.points as nat)
            + " points, "@ + text::decimal(info.byte_count as nat) + " bytes → "@
            + info.suggested_name@,
{
    let points = text::decimal_text(info.points as u64);
    let bytes = text::decimal_text(info.byte_count as u64);
    let mut r = text::join3("WaveformSource OK: ", summary, ", ");
    r.append(points.as_str());
    r.append(" points, ");
    r.append(bytes.as_str());
    r.append(" bytes → ");
    r.append(info.suggested_name.as_str());
    r
}

fn pending_save_of(devices: &Vec<DeviceUi>, info: SourceInfo) -> (r: PendingWaveformSave)
    ensures
        pending_from(r, devices@, info),
{
    let vendor = find_maker(devices, info.id);
    let first_ext = if info.channel_files.len() > 0 {
        Some(info.channel_files[0].ext.clone())
    } else {
        None
    };
    let effective_ext = waveform::effective_extension(info.name_ext, info.sniffed, first_ext);
    let file_stem = match info.name_stem {
        Some(s) => s,
        None => "waveform".to_owned(),
    };
    PendingWaveformSave {
        id: info.id,
        job_id: info.job_id,
        byte_count: info.byte_count,
        effective_ext,
        file_stem,
        vendor,
        trace_count: if info.trace_count > 1 {
            info.trace_count - 1
        } else {
            0
        },
        channel_files: info.channel_files,
    }
}

/// For how many frames the dialog that saves a waveform waits.
pub const SAVE_DELAY_FRAMES: u8 = 2;

/// Whether `after` is the bench `before` after the channels of a scope were read.
pub open spec fn source_taken(
    before: InstrumentControlPanel,
    after: InstrumentControlPanel,
    info: SourceInfo,
    auto: bool,
    stamp: Seq<char>,
    r: Option<PendingWaveformSave>,
) -> bool {
    &&& bench::idle(after.busy)
    &&& source_status(after.status, info)
    &&& search::views(after.logs@) == source_log(
        search::views(before.logs@),
        stamp,
        info,
    )
    &&& r is Some == auto
    &&& match r {
        Some(pending) => pending_from(pending, before.rack.devices@, info)
            && after.pending_save == before.pending_save
            && after.save_delay == before.save_delay,
        None => after.save_delay == SAVE_DELAY_FRAMES && (
        after.pending_save matches Some(pending) && pending_from(
            pending,
            before.rack.devices@,
            info,
        )),
    }
    &&& after == (InstrumentControlPanel {
        status: after.status,
        logs: after.logs,
        busy: after.busy,
        pending_save: after.pending_save,
        save_delay: after.save_delay,
        ..before
    })
}

/// Whether `after` is the bench `before` after a frame, and `r` what is to be saved then.
pub open spec fn save_due(
    before: InstrumentControlPanel,
    after: InstrumentControlPanel,
    r: Option<PendingWaveformSave>,
) -> bool {
    &&& before.save_delay > 0 ==> r is None && after == (InstrumentControlPanel {
        save_delay: (before.save_delay - 1) as u8,
        ..before
    })
    &&& before.save_delay == 0 ==> r == before.pending_save && after == (InstrumentControlPanel {
        pending_save: None,
        ..before
    })
}

impl InstrumentControlPanel {
    /// The channels of a scope were read. The result is what is to be saved at once, where a
    /// folder was named; without one a dialog opens a little later.
    pub fn on_waveform_source(&mut self, info: SourceInfo, auto: bool, stamp: &str) -> (r: Option<
        PendingWaveformSave,
    >)
        requires
            old(self).wf(),
        ensures
            final(self).wf(),
            source_taken(*old(self), *final(self), info, auto, stamp@, r),
    {
        self.busy = Busy::none();
        let kb: usize = info.byte_count / 1024;
        if info.trace_count > 0 {
            let summary = summarize_channels(&info.channel_files);
            let report = source_report(&info, summary.as_str());
            self.status = BenchStatus::WaveRead {
                summary,
                channels: info.trace_count,
                points: info.points,
                kilobytes: kb,
            };
            self.write_log(stamp, report.as_str());
        } else {
            match &info.parse_error {
                Some(e) => {
                    self.status = BenchStatus::WaveUnparsed { kilobytes: kb, message: e.clone() };
                    let report = text::join2("WaveformSource parse error: ", e.as_str());
                    self.write_log(stamp, report.as_str());
                },
                None => {
                    self.status = BenchStatus::WaveEmpty { kilobytes: kb };
                },
            }
        }
        let pending = pending_save_of(&self.rack.devices, info);
        if auto {
            Some(pending)
        } else {
            self.pending_save = Some(pending);
            self.save_delay = SAVE_DELAY_FRAMES;
            None
        }
    }

    /// One frame passed. The result is the waveform whose dialog opens now.
    pub fn take_due_save(&mut self) -> (r: Option<PendingWaveformSave>)
        ensures
            save_due(*old(self), *final(self), r),
    {
        if self.save_delay > 0 {
            self.save_delay = self.save_delay - 1;
            return None;
        }
        self.pending_save.take()
    }
}

/// How saving a waveform went.
pub enum SaveOutcome {
    /// The files that were written, and their folder.
    Saved { files: Vec<String>, folder: String },
    Failed(String),
    /// The dialog was closed; `shown` holds the points of the waveform that is shown.
    Cancelled { shown: Option<usize> },
    /// The folder could not be made.
    NoFolder(String),
}

/// Whether the status line tells how saving a waveform went. `path` is the file that was
/// named.
pub open spec fn save_status(
    before: BenchStatus,
    after: BenchStatus,
    outcome: SaveOutcome,
    byte_count: usize,
    auto: bool,
    path: Seq<char>,
) -> bool {
    match outcome {
        SaveOutcome::Saved { files, folder } => if auto || files@.len() == 1 {
            after matches BenchStatus::WaveSaved { path: p } && p@ == (if files@.len() > 0 {
                files@[0]@
            } else {
                path
            })
        } else {
            after == (BenchStatus::WaveSavedMany { count: files@.len() as usize, folder })
        },
        SaveOutcome::Failed(message) => after == (BenchStatus::Message { message }),
        SaveOutcome::NoFolder(message) => after == (BenchStatus::WaveFolderFailed { message }),
        SaveOutcome::Cancelled { shown } => match shown {
            Some(points) => after == (BenchStatus::WaveShownOnly { points }),
            None => if byte_count > 0 {
                after == (BenchStatus::WaveRawKept { kilobytes: byte_count / 1024 })
            } else {
                after == before
            },
        },
    }
}

/// Whether `detail` tells how saving a waveform went.
pub open spec fn save_detail(detail: JobDetail, outcome: SaveOutcome, byte_count: usize) -> bool {
    match outcome {
        SaveOutcome::Saved { files, .. } => detail == (JobDetail::Files {
            files,
            bytes: byte_count,
        }),
        SaveOutcome::Failed(message) => detail == JobDetail::Failed(message),
        SaveOutcome::NoFolder(message) => detail == JobDetail::Failed(message),
        SaveOutcome::Cancelled { .. } => detail matches JobDetail::Failed(m) && m@
            == "save cancelled"@,
    }
}

/// Whether `after` is the bench `before` after a waveform was saved, or was not.
pub open spec fn save_taken(
    before: InstrumentControlPanel,
    after: InstrumentControlPanel,
    pending: PendingWaveformSave,
    outcome: SaveOutcome,
    auto: bool,
    path: Seq<char>,
    stamp: Seq<char>,
) -> bool {
    &&& save_status(
        before.status,
        after.status,
        outcome,
        pending.byte_count,
        auto,
        path,
    )
    &&& after.jobs.next_id == before.jobs.next_id
    &&& exists|detail: JobDetail| #[trigger]
        save_detail(detail, outcome, pending.byte_count) && after.jobs.results@
            == bench::completed(
            before.jobs.results@,
            pending.job_id,
            outcome is Saved,
            JobKind::WaveformSource,
            Some(pending.id),
            detail,
        )
    &&& search::views(after.logs@) == if auto && outcome is Saved {
        bench::logged(
            search::views(before.logs@),
            stamp,
            "WaveformSource auto-save → "@ + path,
        )
    } else {
        search::views(before.logs@)
    }
    &&& after == (InstrumentControlPanel {
        status: after.status,
        logs: after.logs,
        jobs: after.jobs,
        ..before
    })
}

/// Whether `after` is the bench `before` after long work told how far it is.
pub open spec fn progress_taken(
    before: InstrumentControlPanel,
    after: InstrumentControlPanel,
    message: String,
    now: u64,
) -> bool {
    &&& after.busy.device == before.busy.device
    &&& after.busy.label@ == message@
    &&& after.busy.started == match before.busy.started {
        Some(t) => Some(t),
        None => Some(now),
    }
    &&& after.status == (BenchStatus::Message { message })
    &&& after == (InstrumentControlPanel {
        status: after.status,
        busy: after.busy,
        ..before
    })
}

/// Whether `after` is the bench `before` after work failed.
pub open spec fn error_taken(
    before: InstrumentControlPanel,
    after: InstrumentControlPanel,
    id: Option<u64>,
    job_id: Option<u64>,
    message: String,
    stamp: Seq<char>,
    r: Option<String>,
) -> bool {
    &&& bench::idle(after.busy)
    &&& after.scanning == (before.scanning && id is Some)
    &&& after.measuring@ == match id {
        Some(i) => before.measuring@.remove(i),
        None => before.measuring@,
    }
    &&& after.reading_output@ == match id {
        Some(i) => before.reading_output@.remove(i),
        None => before.reading_output@,
    }
    &&& files::opt_text(r) == failed_sample(before.rack.devices@, id)
    &&& after.jobs.next_id == before.jobs.next_id
    &&& after.jobs.results@ == bench::completed(
        before.jobs.results@,
        job_id,
        false,
        JobKind::Failure,
        id,
        JobDetail::Failed(message),
    )
    &&& after.status == (BenchStatus::Message { message })
    &&& search::views(after.logs@) == bench::logged(
        search::views(before.logs@),
        stamp,
        "ERROR "@ + message@,
    )
    &&& after == (InstrumentControlPanel {
        status: after.status,
        logs: after.logs,
        busy: after.busy,
        jobs: after.jobs,
        scanning: after.scanning,
        measuring: after.measuring,
        reading_output: after.reading_output,
        ..before
    })
}

impl InstrumentControlPanel {
    /// A waveform was saved, or was not.
    pub fn on_save_done(
        &mut self,
        pending: &PendingWaveformSave,
        outcome: SaveOutcome,
        auto: bool,
        path: &str,
        stamp: &str,
    )
        requires
            old(self).wf(),
        ensures
            final(self).wf(),
            save_taken(*old(self), *final(self), *pending, outcome, auto, path@, stamp@),
    {
        let saved: bool = match &outcome {
            SaveOutcome::Saved { .. } => true,
            _ => false,
        };
        if auto && saved {
            let message = text::join2("WaveformSource auto-save → ", path);
            self.write_log(stamp, message.as_str());
        }
        let ghost kept = outcome;
        let detail = match outcome {
            SaveOutcome::Saved { files, folder } => {
                if auto || files.len() == 1 {
                    let first = if files.len() > 0 {
                        files[0].clone()
                    } else {
                        path.to_owned()
                    };
                    self.status = BenchStatus::WaveSaved { path: first };
                } else {
                    self.status = BenchStatus::WaveSavedMany { count: files.len(), folder };
                }
                JobDetail::Files { files, bytes: pending.byte_count }
            },
            SaveOutcome::Failed(message) => {
                self.status = BenchStatus::Message { message: message.clone() };
                JobDetail::Failed(message)
            },
            SaveOutcome::NoFolder(message) => {
                self.status = BenchStatus::WaveFolderFailed { message: message.clone() };
                JobDetail::Failed(message)
            },
            SaveOutcome::Cancelled { shown } => {
                match shown {
                    Some(points) => {
                        self.status = BenchStatus::WaveShownOnly { points };
                    },
                    None => {
                        if pending.byte_count > 0 {
                            self.status = BenchStatus::WaveRawKept {
                                kilobytes: pending.byte_count / 1024,
                            };
                        }
                    },
                }
                JobDetail::Failed("save cancelled".to_owned())
            },
        };
        assert(save_detail(detail, kept, pending.byte_count));
        self.jobs.complete_job(
            pending.job_id,
            saved,
            JobKind::WaveformSource,
            Some(pending.id),
            detail,
        );
    }

    // -----------------------------------------------------------------------
    // Progress and failures
    // -----------------------------------------------------------------------

    /// Long work tells how far it is.
    pub fn on_progress(&mut self, message: String, now: u64)
        requires
            old(self).wf(),
        ensures
            final(self).wf(),
            progress_taken(*old(self), *final(self), message, now),
    {
        self.busy.progress(message.as_str(), now);
        self.status = BenchStatus::Message { message };
    }

    /// Work failed. The result is the address to note a failed sample for: that of an
    /// instrument that is being sampled.
    pub fn on_error(
        &mut self,
        id: Option<u64>,
        job_id: Option<u64>,
        message: String,
        stamp: &str,
    ) -> (r: Option<String>)
        requires
            old(self).wf(),
        ensures
            final(self).wf(),
            error_taken(*old(self), *final(self), id, job_id, message, stamp@, r),
    {
        self.busy = Busy::none();
        let sample = match id {
            Some(i) => {
                let _m: bool = self.measuring.remove(&i);
                let _o: bool = self.reading_output.remove(&i);
                sampled_address(&self.rack.devices, i)
            },
            None => {
                self.scanning = false;
                None
            },
        };
        self.jobs.complete_job(
            job_id,
            false,
            JobKind::Failure,
            id,
            JobDetail::Failed(message.clone()),
        );
        let line = text::join2("ERROR ", message.as_str());
        self.status = BenchStatus::Message { message };
        self.write_log(stamp, line.as_str());
        sample
    }
}

/// Whether an instrument with a number is being sampled.
pub open spec fn is_sampled(devices: Seq<DeviceUi>, id: u64) -> bool {
    exists|k: int| 0 <= k < devices.len() && (#[trigger] devices[k]).id == id && devices[k].acquiring
}

/// The address to note a failed sample for.
pub open spec fn failed_sample(devices: Seq<DeviceUi>, id: Option<u64>) -> Option<Seq<char>> {
    match id {
        Some(i) => if is_sampled(devices, i) {
            match rack::device_at(devices, i, 0) {
                Some(k) => Some(devices[k].resource@),
                None => None,
            }
        } else {
            None
        },
        None => None,
    }
}

fn sampled_address(devices: &Vec<DeviceUi>, id: u64) -> (r: Option<String>)
    ensures
        files::opt_text(r) == failed_sample(devices@, Some(id)),
{
    let mut sampled: bool = false;
    let mut i: usize = 0;
    while i < devices.len()
        invariant
            i <= devices@.len(),
            sampled == exists|k: int|
                0 <= k < i && (#[trigger] devices@[k]).id == id && devices@[k].acquiring,
        decreases devices@.len() - i,
    {
        if devices[i].id == id && devices[i].acquiring {
            sampled = true;
            assert(devices@[i as int].id == id && devices@[i as int].acquiring);
        }
        i = i + 1;
    }
    if !sampled {
        return None;
    }
    match rack::find_device(devices, id) {
        Some(k) => Some(devices[k].resource.clone()),
        None => None,
    }
}

// ---------------------------------------------------------------------------
// What holds of reports
// ---------------------------------------------------------------------------

/// Law: an instrument that was connected joins behind the others, which stay as they are; it is
/// selected, neither sampled nor paused, and the status names it. Its kind is selected with it
/// unless the overview is open.
pub proof fn law_connected_instrument_joins_the_rack(
    before: InstrumentControlPanel,
    after: InstrumentControlPanel,
    info: ConnectedInfo,
    controls: ControlState,
    stamp: Seq<char>,
)
    requires
        connection_taken(before, after, info, controls, stamp),
    ensures
        ({
            let (d, e) = (before.rack.devices@, after.rack.devices@);
            let new = e[d.len() as int];
            &&& e.len() == d.len() + 1
            &&& forall|k: int| 0 <= k < d.len() ==> #[trigger] e[k] == d[k]
            &&& new.id == info.id && new.resource == info.resource && new.kind == info.kind
                && new.identity == info.identity && new.capabilities == info.capabilities
                && new.profile == info.profile && new.controls == controls && !new.acquiring
                && !new.paused
            &&& after.rack.selected_id == Some(info.id)
            &&& !before.rack.overview_open ==> after.rack.selected_kind == info.kind
            &&& before.rack.overview_open ==> after.rack.overview_open && after.rack.selected_kind
                == before.rack.selected_kind
            &&& after.status is Connected && after.status->identity@ == info.identity.raw@
            &&& after.latest == before.latest && after.busy == before.busy
        }),
{
    let (d, e) = (before.rack.devices@, after.rack.devices@);
    assert forall|k: int| 0 <= k < d.len() implies #[trigger] e[k] == d[k] by {
        assert(e.drop_last()[k] == d[k]);
    }
}

/// Law: of an instrument that was disconnected nothing is left on the rack, and nothing is
/// awaited of it; the others stay, in their order. Where it was selected, another of the selected
/// kind is; where it was busy, nothing is.
pub proof fn law_disconnected_instrument_is_forgotten(
    before: InstrumentControlPanel,
    after: InstrumentControlPanel,
    id: u64,
    stamp: Seq<char>,
    k: int,
)
    requires
        connection_lost(before, after, id, stamp),
    ensures
        ({
            let (d, e) = (before.rack.devices@, after.rack.devices@);
            &&& e == d.filter(|x: DeviceUi| x.id != id)
            &&& 0 <= k < e.len() ==> e[k].id != id
            &&& 0 <= k < d.len() && d[k].id != id ==> e.contains(d[k])
            &&& !after.measuring@.contains(id) && !after.reading_output@.contains(id)
                && !after.pngs@.contains_key(id) && !after.photos_tried@.contains(id)
            &&& forall|other: u64|
                other != id ==> #[trigger] after.measuring@.contains(other)
                    == before.measuring@.contains(other)
            &&& before.rack.selected_id is Some && before.rack.selected_id->0 != id
                ==> after.rack.selected_id == before.rack.selected_id
            &&& before.rack.selected_id == Some(id) ==> match after.rack.selected_id {
                Some(s) => exists|j: int|
                    0 <= j < e.len() && (#[trigger] e[j]).id == s && e[j].kind
                        == before.rack.selected_kind,
                None => forall|j: int|
                    0 <= j < e.len() ==> (#[trigger] e[j]).kind != before.rack.selected_kind,
            }
            &&& before.busy.device == Some(id) ==> after.busy.device is None
            &&& before.busy.device != Some(id) ==> after.busy == before.busy
            &&& after.status is Disconnected
            &&& after.rack.selected_kind == before.rack.selected_kind && after.rack.resources
                == before.rack.resources
        }),
{
    let (d, e) = (before.rack.devices@, after.rack.devices@);
    d.filter_lemma(|x: DeviceUi| x.id != id);
    assert(e == d.filter(|x: DeviceUi| x.id != id));
    if 0 <= k < e.len() {
        assert(d.filter(|x: DeviceUi| x.id != id)[k] == e[k]);
    }
    if 0 <= k < d.len() && d[k].id != id {
        assert(d.contains(d[k]));
    }
    rack::lemma_first_of_kind_is(e, before.rack.selected_kind, 0);
}

/// Law: a scan that ended is no longer running, tells how many addresses there are, and what it
/// found is told: how many were identified, or that none was.
pub proof fn law_scan_ends(
    before: InstrumentControlPanel,
    after: InstrumentControlPanel,
    found: Seq<ResourceInfo>,
    stamp: Seq<char>,
)
    requires
        scan_taken(before, after, found, stamp),
    ensures
        !after.scanning,
        after.status is Found || after.status is FoundUnknown,
        after.status is Found ==> after.status->identified > 0,
        after.busy == before.busy && after.latest == before.latest && after.jobs == before.jobs,
{
}

/// Law: a command that was carried out is answered to who waits for it, with its response; the
/// response is shown, and reaches its instrument. Its probe can be read again.
pub proof fn law_command_is_answered(
    before: InstrumentControlPanel,
    after: InstrumentControlPanel,
    id: u64,
    job_id: Option<u64>,
    response: Option<String>,
    stamp: Seq<char>,
)
    requires
        command_taken(before, after, id, job_id, response, stamp),
    ensures
        job_id is Some ==> ({
            let r = after.jobs.results@.last();
            &&& after.jobs.results@.len() == before.jobs.results@.len() + 1
            &&& r.job_id == job_id->0 && r.ok && r.kind is Command && r.device_id == Some(id)
                && r.detail == JobDetail::Response(response)
        }),
        job_id is None ==> after.jobs.results@ == before.jobs.results@,
        !after.reading_output@.contains(id),
        response is Some ==> after.status == (BenchStatus::Message { message: response->0 })
            && response->0@.is_suffix_of(search::views(after.logs@).last()),
        response is None ==> after.status is CommandCompleted && after.rack == before.rack
            && after.logs == before.logs,
        after.busy == before.busy && after.measuring == before.measuring,
{
    if response is Some {
        let message = "#"@ + text::decimal(id as nat) + " ◀ "@ + response->0@;
        bench::law_log_keeps_the_last_thousand_lines(search::views(before.logs@), stamp, message);
        let line = search::views(after.logs@).last();
        assert(line =~= stamp + " "@ + ("#"@ + text::decimal(id as nat) + " ◀ "@)
            + response->0@);
    }
}

/// Law: the output of a probe reaches that probe; whatever came, it can be read again.
pub proof fn law_probe_can_be_read_again(
    before: InstrumentControlPanel,
    after: InstrumentControlPanel,
    id: u64,
    output: Option<String>,
    stamp: Seq<char>,
)
    requires
        output_taken(before, after, id, output, stamp),
    ensures
        !after.reading_output@.contains(id),
        forall|other: u64|
            other != id ==> #[trigger] after.reading_output@.contains(other)
                == before.reading_output@.contains(other),
        output is None ==> after.rack == before.rack && after.logs == before.logs,
        output is Some ==> bench::devices_printed(
            before.rack.devices@,
            after.rack.devices@,
            id,
            output->0@,
        ),
        after.status == before.status,
{
}

/// Law: an instrument that was measured can be asked again, and its values are the last ones of
/// their channels.
pub proof fn law_measured_instrument_can_be_asked_again(
    before: InstrumentControlPanel,
    after: InstrumentControlPanel,
    id: u64,
    reading: Reading,
    clock: Seq<char>,
)
    requires
        measurements_taken(before, after, id, seq![reading], clock),
    ensures
        !after.measuring@.contains(id),
        bench::reading_at(after.latest@, id, reading.channel@, 0) is Some,
        after.latest@[bench::reading_at(after.latest@, id, reading.channel@, 0)->0].reading
            == reading,
        after.status is Updated && after.status->stamp@ == clock,
        after.jobs == before.jobs && after.busy == before.busy,
{
    reveal_with_fuel(bench::with_readings, 2);
    bench::law_latest_reading_wins(before.latest@, id, reading);
}

/// Law: a picture that was taken ends the work and is kept for its instrument; who waits for it
/// hears of its size and file, or of the error where the file could not be written.
pub proof fn law_picture_is_kept(
    before: InstrumentControlPanel,
    after: InstrumentControlPanel,
    info: ShotInfo,
    file: Option<ShotFile>,
)
    requires
        shot_taken(before, after, info, file),
    ensures
        after.busy.device is None,
        after.pngs@.contains_key(info.id) && after.pngs@[info.id] == info.png,
        forall|other: u64|
            other != info.id ==> #[trigger] after.pngs@.contains_key(other)
                == before.pngs@.contains_key(other),
        info.job_id is Some ==> ({
            let r = after.jobs.results@.last();
            &&& r.job_id == info.job_id->0 && r.kind is Capture && r.device_id == Some(info.id)
            &&& r.ok <==> file is None || file->0.written is Ok
            &&& r.ok ==> r.detail is Shot && r.detail->width == info.width && r.detail->height
                == info.height && r.detail->Shot_bytes == info.png@.len()
            &&& r.ok && file is Some ==> r.detail->path == Some(file->0.path)
            &&& r.ok && file is None ==> r.detail->path is None
            &&& !r.ok ==> r.detail == JobDetail::Failed(file->0.written->Err_0)
        }),
        info.job_id is None ==> after.jobs.results@ == before.jobs.results@,
        file is None ==> after.status is ShotCopied,
        file is Some && file->0.written is Ok ==> after.status == (BenchStatus::ShotSaved {
            path: file->0.path,
        }),
        file is Some && file->0.written is Err ==> after.status == (BenchStatus::ShotSaveFailed {
            message: file->0.written->Err_0,
        }),
{
}

/// Law: waveforms that were read end the work. They are saved at once where that was asked;
/// otherwise they wait for the dialog, which opens after two frames, once.
pub proof fn law_read_waveforms_are_saved_or_wait(
    before: InstrumentControlPanel,
    after: InstrumentControlPanel,
    info: SourceInfo,
    auto: bool,
    stamp: Seq<char>,
    r: Option<PendingWaveformSave>,
)
    requires
        source_taken(before, after, info, auto, stamp, r),
    ensures
        after.busy.device is None,
        r is Some <==> auto,
        auto ==> after.pending_save == before.pending_save && after.save_delay
            == before.save_delay,
        !auto ==> after.pending_save is Some && after.save_delay == 2,
        ({
            let p = if auto {
                r->0
            } else {
                after.pending_save->0
            };
            &&& p.id == info.id && p.job_id == info.job_id && p.byte_count == info.byte_count
                && p.channel_files == info.channel_files
            &&& info.name_stem is Some ==> p.file_stem@ == info.name_stem->0@
            &&& info.name_stem is None ==> p.file_stem@ == "waveform"@
            &&& info.sniffed is Some ==> p.effective_ext@ == info.sniffed->0@
            &&& info.trace_count > 0 ==> p.trace_count == info.trace_count - 1
            &&& info.trace_count == 0 ==> p.trace_count == 0
        }),
        info.trace_count > 0 ==> after.status is WaveRead && after.status->channels
            == info.trace_count && after.status->WaveRead_points == info.points
            && after.status->WaveRead_kilobytes == info.byte_count / 1024,
        info.trace_count == 0 && info.parse_error is Some ==> after.status is WaveUnparsed
            && after.status->WaveUnparsed_message == info.parse_error->0,
        info.trace_count == 0 && info.parse_error is None ==> after.status is WaveEmpty,
{
}

/// Law: the dialog of a waveform that waits opens when its frames have passed, and then it no
/// longer waits.
pub proof fn law_waiting_save_opens_once(
    before: InstrumentControlPanel,
    after: InstrumentControlPanel,
    r: Option<PendingWaveformSave>,
)
    requires
        save_due(before, after, r),
    ensures
        before.save_delay > 0 ==> r is None && after.save_delay == before.save_delay - 1
            && after.pending_save == before.pending_save,
        before.save_delay == 0 ==> r == before.pending_save && after.pending_save is None
            && after.save_delay == 0,
        after.status == before.status && after.rack == before.rack,
{
}

/// Law: who waits for a waveform to be saved hears which files were written, or why none was; a
/// dialog that was closed counts as a failure.
pub proof fn law_saving_is_answered(
    before: InstrumentControlPanel,
    after: InstrumentControlPanel,
    pending: PendingWaveformSave,
    outcome: SaveOutcome,
    auto: bool,
    path: Seq<char>,
    stamp: Seq<char>,
)
    requires
        save_taken(before, after, pending, outcome, auto, path, stamp),
    ensures
        pending.job_id is Some ==> ({
            let r = after.jobs.results@.last();
            &&& r.job_id == pending.job_id->0 && r.kind is WaveformSource && r.device_id == Some(
                pending.id,
            )
            &&& r.ok <==> outcome is Saved
            &&& outcome is Saved ==> r.detail == (JobDetail::Files {
                files: outcome->files,
                bytes: pending.byte_count,
            })
            &&& outcome is Failed ==> r.detail == JobDetail::Failed(outcome->Failed_0)
            &&& outcome is NoFolder ==> r.detail == JobDetail::Failed(outcome->NoFolder_0)
            &&& outcome is Cancelled ==> r.detail is Failed && r.detail->Failed_0@
                == "save cancelled"@
        }),
        pending.job_id is None ==> after.jobs.results@ == before.jobs.results@,
        outcome is Saved && outcome->files@.len() == 1 ==> after.status is WaveSaved
            && after.status->WaveSaved_path@ == outcome->files@[0]@,
        outcome is Saved && outcome->files@.len() > 1 && !auto ==> after.status is WaveSavedMany,
        outcome is Failed ==> after.status == (BenchStatus::Message {
            message: outcome->Failed_0,
        }),
        outcome is Cancelled && outcome->shown is Some ==> after.status
            == (BenchStatus::WaveShownOnly { points: outcome->shown->0 }),
        outcome is Cancelled && outcome->shown is None && pending.byte_count > 0 ==> after.status
            == (BenchStatus::WaveRawKept { kilobytes: pending.byte_count / 1024 }),
        !auto || !(outcome is Saved) ==> search::views(after.logs@) == search::views(before.logs@),
{
}

/// Law: a failure ends the work, is told and logged, and answers who waits for it under its
/// number; the instrument can be asked again. A failure of no instrument ends a scan. A failed
/// sample is noted only for an instrument that is being sampled.
pub proof fn law_failure_is_told_and_answered(
    before: InstrumentControlPanel,
    after: InstrumentControlPanel,
    id: Option<u64>,
    job_id: Option<u64>,
    message: String,
    stamp: Seq<char>,
    r: Option<String>,
)
    requires
        error_taken(before, after, id, job_id, message, stamp, r),
    ensures
        after.busy.device is None,
        after.status == (BenchStatus::Message { message }),
        id is None ==> !after.scanning && after.measuring@ == before.measuring@ && r is None,
        id is Some ==> after.scanning == before.scanning && !after.measuring@.contains(id->0)
            && !after.reading_output@.contains(id->0),
        job_id is Some ==> ({
            let j = after.jobs.results@.last();
            &&& j.job_id == job_id->0 && !j.ok && j.kind is Failure && j.device_id == id
                && j.detail == JobDetail::Failed(message)
        }),
        job_id is None ==> after.jobs.results@ == before.jobs.results@,
        r is Some ==> exists|k: int|
            0 <= k < before.rack.devices@.len() && (#[trigger] before.rack.devices@[k]).id == id->0
                && before.rack.devices@[k].resource@ == r->0@,
        r is Some ==> exists|k: int|
            0 <= k < before.rack.devices@.len() && (#[trigger] before.rack.devices@[k]).id == id->0
                && before.rack.devices@[k].acquiring,
        id is Some && (exists|k: int|
            0 <= k < before.rack.devices@.len() && (#[trigger] before.rack.devices@[k]).id == id->0
                && before.rack.devices@[k].acquiring) ==> r is Some,
        after.rack == before.rack && after.latest == before.latest,
{
    if id is Some {
        rack::law_device_is_found_by_number(before.rack.devices@, id->0);
        let f = rack::device_at(before.rack.devices@, id->0, 0);
        if f is Some {
            assert(before.rack.devices@[f->0].id == id->0);
        }
    }
}

/// Law: work that tells how far it is keeps its beginning and its instrument.
pub proof fn law_progress_keeps_the_beginning(
    before: InstrumentControlPanel,
    after: InstrumentControlPanel,
    message: String,
    now: u64,
)
    requires
        progress_taken(before, after, message, now),
    ensures
        after.busy.device == before.busy.device,
        before.busy.started is Some ==> after.busy.started == before.busy.started,
        before.busy.started is None ==> after.busy.started == Some(now),
        after.busy.label@ == message@,
        after.status == (BenchStatus::Message { message }),
{
}

/// Law: the channels that were read are named with a plus sign between them; none is named by a
/// question mark. The maker is that of the instrument with the number.
pub proof fn law_read_channels_are_named(
    files: Seq<ChannelFile>,
    devices: Seq<DeviceUi>,
    i: int,
)
    ensures
        files.len() == 0 ==> channel_summary(files) == "?"@,
        files.len() == 1 ==> channel_summary(files) == "CH"@ + text::decimal(
            files[0].channel as nat,
        ),
        files.len() == 2 ==> channel_summary(files) == "CH"@ + text::decimal(
            files[0].channel as nat,
        ) + "+"@ + ("CH"@ + text::decimal(files[1].channel as nat)),
        0 <= i < devices.len() && (forall|k: int|
            0 <= k < i ==> (#[trigger] devices[k]).id != devices[i].id) ==> maker_of(
            devices,
            devices[i].id,
        ) == devices[i].identity.manufacturer@,
{
    reveal_with_fuel(waveform::joined_channels, 3);
    if 0 <= i < devices.len() {
        rack::law_device_is_found_by_number(devices, devices[i].id);
    }
}

} // verus!
