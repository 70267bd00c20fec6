//! The worker of the bench: which job needs what work, and what is reported of it.
use std::collections::HashMap;

use vstd::prelude::*;
use vstd::string::*;

use crate::bench::Reading;
use crate::bench_events::ConnectedInfo;
use crate::controls::ControlCommand;
use crate::discovery::SessionPlan;
use crate::instrument::InstrumentKind;
use crate::rack::{Capabilities, Identity, ResourceInfo};
use crate::screenshot::DecodedImage;
use crate::waveform::{ChannelFile, SourceShape};
use crate::{discovery, files, screenshot, text, waveform};

verus! {

broadcast use vstd::std_specs::hash::group_hash_axioms;

// ---------------------------------------------------------------------------
// Jobs and reports
// ---------------------------------------------------------------------------

/// How an open connection is spoken to.
#[derive(Debug, Clone, Copy, PartialEq, Eq, Structural)]
pub enum SessionKind {
    Scpi,
    Probe,
    Bridge,
}

/// A screen picture that is wanted.
pub struct PictureTarget {
    pub id: u64,
    pub job_id: Option<u64>,
    pub save_path: Option<String>,
}

/// Waveforms that are wanted. With a folder they are saved there, without one a dialog asks.
pub struct SourceTarget {
    pub id: u64,
    pub job_id: Option<u64>,
    pub auto_dir: Option<String>,
    pub auto_filename: Option<String>,
    pub overwrite: bool,
}

/// A job of the worker.
pub enum Job {
    Scan { library: String, timeout_ms: u32 },
    Connect {
        id: u64,
        resource: String,
        kind: Option<InstrumentKind>,
        timeout_ms: u32,
        library: String,
    },
    ConnectDemo { id: u64, kind: InstrumentKind },
    Disconnect(u64),
    Command { id: u64, command: ControlCommand, job_id: Option<u64> },
    PollRtt(u64),
    Measure(u64),
    Capture(PictureTarget),
    WaveformSource(SourceTarget),
    Waveform { id: u64, channel: u8 },
    Shutdown,
}

/// What the worker reports.
pub enum Report {
    Resources(Vec<ResourceInfo>),
    Connected(ConnectedInfo),
    Disconnected(u64),
    CommandDone { id: u64, job_id: Option<u64>, response: Option<String> },
    SessionOutput { id: u64, output: Option<String> },
    Measurements { id: u64, resource: String, readings: Vec<Reading> },
    Screenshot { target: PictureTarget, image: DecodedImage, png: Vec<u8> },
    Sources(SourceReport),
    Progress { id: Option<u64>, message: String },
    Failure { id: Option<u64>, job_id: Option<u64>, message: String },
}

/// What is reported of waveforms that were read, besides their data.
pub struct SourceReport {
    pub target: SourceTarget,
    pub suggested_name: String,
    /// The data handed on is a table made of the traces.
    pub sheet: bool,
    pub channel_files: Vec<ChannelFile>,
    pub parse_error: Option<String>,
}

/// What a job comes to.
pub enum Step {
    Scan { library: Option<String>, timeout_ms: u32 },
    Open {
        id: u64,
        plan: SessionPlan,
        resource: String,
        timeout_ms: u32,
        library: Option<String>,
    },
    OpenDemo { id: u64, plan: SessionPlan },
    Execute { id: u64, command: ControlCommand, job_id: Option<u64> },
    ReadOutput(u64),
    ReadMeasurements(u64),
    TakePicture(PictureTarget),
    ReadSources(SourceTarget),
    ReadWaveform { id: u64, channel: u8 },
    Reply(Report),
    Stop,
}

/// Whether a report says that something failed.
pub open spec fn is_failure(
    report: Report,
    id: Option<u64>,
    job_id: Option<u64>,
    message: Seq<char>,
) -> bool {
    report matches Report::Failure { id: i, job_id: j, message: m } && i == id && j == job_id && m@
        == message
}

/// Whether a step only says that an instrument is not connected.
pub open spec fn is_refused(step: Step, id: u64, job_id: Option<u64>) -> bool {
    step matches Step::Reply(report) && is_failure(
        report,
        Some(id),
        job_id,
        "device not connected"@,
    )
}

/// The library that a setting names: none where it is blank.
pub open spec fn named_library(setting: Seq<char>) -> Option<Seq<char>> {
    if text::trimmed(setting).len() == 0 {
        None
    } else {
        Some(setting)
    }
}

/// Whether `step` is what a job comes to, with the given connections open.
pub open spec fn is_step(
    sessions: Map<u64, SessionKind>,
    job: Job,
    usb_bridge: Option<bool>,
    step: Step,
) -> bool {
    match job {
        Job::Scan { library, timeout_ms } => step matches Step::Scan { library: l, timeout_ms: t }
            && files::opt_text(l) == named_library(library@) && t == timeout_ms,
        Job::Connect { id, resource, kind, timeout_ms, library } => step matches Step::Open {
            id: i,
            plan,
            resource: r,
            timeout_ms: t,
            library: l,
        } && i == id && plan == discovery::session_plan(resource@, kind, usb_bridge) && r
            == resource && t == timeout_ms && files::opt_text(l) == named_library(library@),
        Job::ConnectDemo { id, kind } => step == (Step::OpenDemo {
            id,
            plan: discovery::demo_plan(kind),
        }),
        Job::Disconnect(id) => step == Step::Reply(Report::Disconnected(id)),
        Job::Command { id, command, job_id } => if sessions.contains_key(id) {
            step == (Step::Execute { id, command, job_id })
        } else {
            is_refused(step, id, job_id)
        },
        Job::PollRtt(id) => step == if sessions.contains_key(id) && sessions[id] is Probe {
            Step::ReadOutput(id)
        } else {
            Step::Reply(Report::SessionOutput { id, output: None })
        },
        Job::Measure(id) => if !sessions.contains_key(id) {
            is_refused(step, id, None)
        } else if sessions[id] is Scpi {
            step == Step::ReadMeasurements(id)
        } else {
            step matches Step::Reply(Report::Measurements { id: i, resource, readings }) && i == id
                && resource@.len() == 0 && readings@.len() == 0
        },
        Job::Capture(target) => if sessions.contains_key(target.id) && sessions[target.id] is Scpi {
            step == Step::TakePicture(target)
        } else {
            is_refused(step, target.id, target.job_id)
        },
        Job::WaveformSource(target) => if sessions.contains_key(target.id)
            && sessions[target.id] is Scpi {
            step == Step::ReadSources(target)
        } else {
            is_refused(step, target.id, target.job_id)
        },
        Job::Waveform { id, channel } => if sessions.contains_key(id) && sessions[id] is Scpi {
            step == (Step::ReadWaveform { id, channel })
        } else {
            is_refused(step, id, None)
        },
        Job::Shutdown => step is Stop,
    }
}

fn refuse(id: u64, job_id: Option<u64>) -> (r: Step)
    ensures
        is_refused(r, id, job_id),
{
    Step::Reply(
        Report::Failure { id: Some(id), job_id, message: "device not connected".to_owned() },
    )
}

// ---------------------------------------------------------------------------
// The worker
// ---------------------------------------------------------------------------

/// The worker of the bench: the connections that are open.
pub struct Worker {
    pub sessions: HashMap<u64, SessionKind>,
}

/// A connection that was just opened, as the instrument describes it.
pub struct OpenedSession {
    pub session: SessionKind,
    pub resource: String,
    pub identity: Identity,
    pub kind: InstrumentKind,
    /// The profile that was chosen, and what it can do; nothing that a probe or a bridge has.
    pub profile: String,
    pub capabilities: Capabilities,
}

/// Whether `info` tells of a connection that was opened.
pub open spec fn tells_of(info: ConnectedInfo, id: u64, opened: OpenedSession) -> bool {
    &&& info.id == id
    &&& info.resource == opened.resource
    &&& info.identity == opened.identity
    &&& info.kind == opened.kind
    &&& info.capabilities == opened.capabilities
    &&& info.profile@ == if opened.session is Scpi {
        opened.profile@
    } else {
        opened.identity.manufacturer@ + " "@ + opened.identity.model@
    }
}

/// The report of a connection that was opened.
pub fn connected_event(id: u64, opened: OpenedSession) -> (r: ConnectedInfo)
    ensures
        tells_of(r, id, opened),
{
    let profile = match opened.session {
        SessionKind::Scpi => opened.profile,
        _ => discovery::session_profile(&opened.identity),
    };
    ConnectedInfo {
        id,
        resource: opened.resource,
        identity: opened.identity,
        kind: opened.kind,
        profile,
        capabilities: opened.capabilities,
    }
}

/// The connections that are open after a job was planned.
pub open spec fn sessions_after(sessions: Map<u64, SessionKind>, job: Job) -> Map<
    u64,
    SessionKind,
> {
    match job {
        Job::Disconnect(id) => sessions.remove(id),
        _ => sessions,
    }
}

/// Whether `after` are the connections `before` once one was opened or could not be, and `r` is
/// what is reported of it.
pub open spec fn opening_ended(
    before: Map<u64, SessionKind>,
    after: Map<u64, SessionKind>,
    id: u64,
    outcome: Result<OpenedSession, String>,
    r: Report,
) -> bool {
    match outcome {
        Ok(opened) => (r matches Report::Connected(info) && tells_of(info, id, opened)) && after
            == before.insert(id, opened.session),
        Err(message) => is_failure(r, Some(id), None, message@) && after == before,
    }
}

impl Worker {
    /// The worker at start: nothing is connected.
    pub fn new() -> (r: Self)
        ensures
            r.sessions@ == Map::<u64, SessionKind>::empty(),
    {
        Worker { sessions: HashMap::new() }
    }

    fn session(&self, id: u64) -> (r: Option<SessionKind>)
        ensures
            r == if self.sessions@.contains_key(id) {
                Some(self.sessions@[id])
            } else {
                None
            },
    {
        match self.sessions.get(&id) {
            Some(s) => Some(*s),
            None => None,
        }
    }

    fn speaks_scpi(&self, id: u64) -> (r: bool)
        ensures
            r == (self.sessions@.contains_key(id) && self.sessions@[id] is Scpi),
    {
        match self.session(id) {
            Some(SessionKind::Scpi) => true,
            _ => false,
        }
    }

    /// What a job comes to. `usb_bridge` tells, for a job that connects to a USB device,
    /// whether that is a bridge. A connection that is to be closed is closed.
    pub fn plan(&mut self, job: Job, usb_bridge: Option<bool>) -> (step: Step)
        ensures
            is_step(old(self).sessions@, job, usb_bridge, step),
            final(self).sessions@ == sessions_after(old(self).sessions@, job),
    {
        match job {
            Job::Scan { library, timeout_ms } => Step::Scan {
                library: discovery::visa_library(library.as_str()),
                timeout_ms,
            },
            Job::Connect { id, resource, kind, timeout_ms, library } => Step::Open {
                id,
                plan: discovery::open_live_session(resource.as_str(), kind, usb_bridge),
                resource,
                timeout_ms,
                library: discovery::visa_library(library.as_str()),
            },
            Job::ConnectDemo { id, kind } => Step::OpenDemo {
                id,
                plan: discovery::open_demo_session(kind),
            },
            Job::Disconnect(id) => {
                let _gone = self.sessions.remove(&id);
                Step::Reply(Report::Disconnected(id))
            },
            Job::Command { id, command, job_id } => match self.session(id) {
                Some(_) => Step::Execute { id, command, job_id },
                None => refuse(id, job_id),
            },
            Job::PollRtt(id) => match self.session(id) {
                Some(SessionKind::Probe) => Step::ReadOutput(id),
                _ => Step::Reply(Report::SessionOutput { id, output: None }),
            },
            Job::Measure(id) => match self.session(id) {
                Some(SessionKind::Scpi) => Step::ReadMeasurements(id),
                Some(_) => Step::Reply(
                    Report::Measurements { id, resource: String::new(), readings: Vec::new() },
                ),
                None => refuse(id, None),
            },
            Job::Capture(target) => if self.speaks_scpi(target.id) {
                Step::TakePicture(target)
            } else {
                refuse(target.id, target.job_id)
            },
            Job::WaveformSource(target) => if self.speaks_scpi(target.id) {
                Step::ReadSources(target)
            } else {
                refuse(target.id, target.job_id)
            },
            Job::Waveform { id, channel } => if self.speaks_scpi(id) {
                Step::ReadWaveform { id, channel }
            } else {
                refuse(id, None)
            },
            Job::Shutdown => Step::Stop,
        }
    }

    /// A connection was opened, or could not be.
    pub fn on_opened(&mut self, id: u64, outcome: Result<OpenedSession, String>) -> (r: Report)
        ensures
            opening_ended(old(self).sessions@, final(self).sessions@, id, outcome, r),
    {
        match outcome {
            Ok(opened) => {
                let _before = self.sessions.insert(id, opened.session);
                Report::Connected(connected_event(id, opened))
            },
            Err(message) => Report::Failure { id: Some(id), job_id: None, message },
        }
    }
}

/// Law: an instrument that was disconnected answers no further job: every one that needs it is
/// refused or answered with nothing, until it is connected again.
pub proof fn law_disconnected_instrument_does_no_work(
    sessions: Map<u64, SessionKind>,
    id: u64,
    job: Job,
    usb_bridge: Option<bool>,
    step: Step,
)
    requires
        is_step(sessions.remove(id), job, usb_bridge, step),
    ensures
        !(step matches Step::Execute { id: i, .. } && i == id),
        step != Step::ReadOutput(id),
        step != Step::ReadMeasurements(id),
        !(step matches Step::TakePicture(target) && target.id == id),
        !(step matches Step::ReadSources(target) && target.id == id),
        !(step matches Step::ReadWaveform { id: i, .. } && i == id),
{
}

/// Law: after an instrument was connected, its commands are carried out.
pub proof fn law_connected_instrument_takes_commands(
    sessions: Map<u64, SessionKind>,
    id: u64,
    session: SessionKind,
    command: ControlCommand,
    job_id: Option<u64>,
    usb_bridge: Option<bool>,
    step: Step,
)
    requires
        is_step(
            sessions.insert(id, session),
            Job::Command { id, command, job_id },
            usb_bridge,
            step,
        ),
    ensures
        step == (Step::Execute { id, command, job_id }),
{
}

// ---------------------------------------------------------------------------
// Reports of work
// ---------------------------------------------------------------------------

/// The text that tells that a picture is being taken.
pub open spec fn capturing_text() -> Seq<char> {
    "正在截取屏幕… / Capturing screen…"@
}

/// The text that tells that waveforms are being read.
pub open spec fn reading_text() -> Seq<char> {
    "正在查询已打开通道并读取波形（采样率×屏幕时宽）… / Querying displayed channels, reading acquisition-density screen window…"@
}

/// Whether `r` is what is reported before work on a job begins.
pub open spec fn announces(job: Job, r: Option<Report>) -> bool {
    match job {
        Job::Capture(target) => r matches Some(Report::Progress { id, message }) && id == Some(
            target.id,
        ) && message@ == capturing_text(),
        Job::WaveformSource(target) => r matches Some(Report::Progress { id, message }) && id
            == Some(target.id) && message@ == reading_text(),
        _ => r is None,
    }
}

/// What is reported before work on a job begins.
pub fn announcement(job: &Job) -> (r: Option<Report>)
    ensures
        announces(*job, r),
{
    match job {
        Job::Capture(target) => Some(
            Report::Progress {
                id: Some(target.id),
                message: "正在截取屏幕… / Capturing screen…".to_owned(),
            },
        ),
        Job::WaveformSource(target) => Some(
            Report::Progress {
                id: Some(target.id),
                message: "正在查询已打开通道并读取波形（采样率×屏幕时宽）… / Querying displayed channels, reading acquisition-density screen window…".to_owned(),
            },
        ),
        _ => None,
    }
}

/// What is reported of a scan.
pub fn scan_report(found: Result<Vec<ResourceInfo>, String>) -> (r: Report)
    ensures
        match found {
            Ok(resources) => r == Report::Resources(resources),
            Err(message) => is_failure(r, None, None, message@),
        },
{
    match found {
        Ok(resources) => Report::Resources(resources),
        Err(message) => Report::Failure { id: None, job_id: None, message },
    }
}

/// Whether `r` is what is reported of a command.
pub open spec fn command_ended(
    r: Report,
    id: u64,
    job_id: Option<u64>,
    outcome: Result<Option<String>, String>,
) -> bool {
    match outcome {
        Ok(response) => r == (Report::CommandDone { id, job_id, response }),
        Err(message) => is_failure(r, Some(id), job_id, message@),
    }
}

/// What is reported of a command.
pub fn command_report(id: u64, job_id: Option<u64>, outcome: Result<Option<String>, String>) -> (r:
    Report)
    ensures
        command_ended(r, id, job_id, outcome),
{
    match outcome {
        Ok(response) => Report::CommandDone { id, job_id, response },
        Err(message) => Report::Failure { id: Some(id), job_id, message },
    }
}

/// What is reported of the output of a probe.
pub fn output_report(id: u64, outcome: Result<Option<String>, String>) -> (r: Report)
    ensures
        match outcome {
            Ok(output) => r == (Report::SessionOutput { id, output }),
            Err(message) => is_failure(r, Some(id), None, message@),
        },
{
    match outcome {
        Ok(output) => Report::SessionOutput { id, output },
        Err(message) => Report::Failure { id: Some(id), job_id: None, message },
    }
}

/// What is reported of a measurement.
pub fn measure_report(id: u64, resource: String, outcome: Result<Vec<Reading>, String>) -> (r:
    Report)
    ensures
        match outcome {
            Ok(readings) => r == (Report::Measurements { id, resource, readings }),
            Err(message) => is_failure(r, Some(id), None, message@),
        },
{
    match outcome {
        Ok(readings) => Report::Measurements { id, resource, readings },
        Err(message) => Report::Failure { id: Some(id), job_id: None, message },
    }
}

/// The longest edge of the preview of a picture.
pub const PREVIEW_MAX_EDGE: u32 = 1600;

/// The text that tells that a picture of a given size is being decoded.
pub open spec fn decoding_text(kilobytes: nat) -> Seq<char> {
    "截图已收到 "@ + text::decimal(kilobytes) + " KB，正在解码… / Screenshot "@ + text::decimal(
        kilobytes,
    ) + " KB, decoding…"@
}

/// What is reported when a picture arrived, before it is decoded.
pub fn picture_progress(id: u64, byte_count: usize) -> (r: Report)
    ensures
        r matches Report::Progress { id: i, message } && i == Some(id) && message@ == decoding_text(
            (byte_count / 1024) as nat,
        ),
{
    let kb = text::decimal_text((byte_count / 1024) as u64);
    let mut message = text::join3("截图已收到 ", kb.as_str(), " KB，正在解码… / Screenshot ");
    message.append(kb.as_str());
    message.append(" KB, decoding…");
    Report::Progress { id: Some(id), message }
}

/// Whether `report` is what is reported of a picture that was decoded, or was not.
pub open spec fn is_picture_report(
    report: Report,
    target: PictureTarget,
    png: Vec<u8>,
    decoded: Result<DecodedImage, Seq<char>>,
) -> bool {
    match decoded {
        Ok(image) => report == (Report::Screenshot { target, image, png }),
        Err(message) => is_failure(
            report,
            Some(target.id),
            target.job_id,
            "Invalid screenshot: "@ + message,
        ),
    }
}

/// What is reported of a picture that was decoded, or was not.
pub fn decoded_report(
    target: PictureTarget,
    png: Vec<u8>,
    decoded: Result<DecodedImage, screenshot::ScreenshotError>,
) -> (r: Report)
    ensures
        is_picture_report(
            r,
            target,
            png,
            match decoded {
                Ok(image) => Ok(image),
                Err(e) => Err(screenshot::error_text(e)),
            },
        ),
{
    match decoded {
        Ok(image) => Report::Screenshot { target, image, png },
        Err(e) => {
            let why = e.message();
            Report::Failure {
                id: Some(target.id),
                job_id: target.job_id,
                message: text::join2("Invalid screenshot: ", why.as_str()),
            }
        },
    }
}

/// Whether `r` is what is reported of a picture that was taken, or was not.
pub open spec fn picture_ended(
    r: Report,
    target: PictureTarget,
    taken: Result<Vec<u8>, String>,
) -> bool {
    match taken {
        Ok(png) => if screenshot::within_limits(png@) && screenshot::decoded_image(png@) is Ok {
            r matches Report::Screenshot { target: t, image, png: p } && t == target && p == png
                && image@ == screenshot::preview_of(
                screenshot::decoded_image(png@)->Ok_0,
                PREVIEW_MAX_EDGE,
            )
        } else {
            exists|e: screenshot::ScreenshotError| #[trigger]
                screenshot::fails_with(png@, e) && is_failure(
                    r,
                    Some(target.id),
                    target.job_id,
                    "Invalid screenshot: "@ + screenshot::error_text(e),
                )
        },
        Err(message) => is_failure(r, Some(target.id), target.job_id, message@),
    }
}

/// What is reported of a picture that was taken, or was not.
pub fn picture_report(target: PictureTarget, taken: Result<Vec<u8>, String>) -> (r: Report)
    ensures
        picture_ended(r, target, taken),
{
    match taken {
        Ok(png) => {
            let decoded = screenshot::prepare_screenshot_preview(&png, PREVIEW_MAX_EDGE);
            decoded_report(target, png, decoded)
        },
        Err(message) => Report::Failure { id: Some(target.id), job_id: target.job_id, message },
    }
}

// ---------------------------------------------------------------------------
// The channels of a scope
// ---------------------------------------------------------------------------

/// The text that tells that a channel was read.
pub open spec fn channel_read_text(channel: u8, kilobytes: nat) -> Seq<char> {
    let n = text::decimal(channel as nat);
    let kb = text::decimal(kilobytes);
    "已读 CH"@ + n + "（"@ + kb + " KB），继续… / Got CH"@ + n + " ("@ + kb + " KB), continuing…"@
}

/// What is reported when a channel was read.
pub fn channel_progress(id: u64, channel: u8, byte_count: usize) -> (r: Report)
    ensures
        r matches Report::Progress { id: i, message } && i == Some(id) && message@
            == channel_read_text(channel, (byte_count / 1024) as nat),
{
    let n = text::decimal_text(channel as u64);
    let kb = text::decimal_text((byte_count / 1024) as u64);
    let mut message = text::join3("已读 CH", n.as_str(), "（");
    message.append(kb.as_str());
    message.append(" KB），继续… / Got CH");
    message.append(n.as_str());
    message.append(" (");
    message.append(kb.as_str());
    message.append(" KB), continuing…");
    Report::Progress { id: Some(id), message }
}

/// The kind of file by the extension of a name, as a text.
pub open spec fn channel_ext(name_ext: Option<Seq<char>>) -> Seq<char> {
    match name_ext {
        Some(e) => text::ascii_lower_seq(e),
        None => "isf"@,
    }
}

/// The label under which data is parsed, as a text.
pub open spec fn label_of(shape: SourceShape, channel: u8) -> Seq<char> {
    if shape is JoinedIsf {
        waveform::channel_name(1)
    } else {
        waveform::channel_name(channel)
    }
}

/// What is noted of data that could not be parsed, as a text.
pub open spec fn failure_of(shape: SourceShape, channel: u8, error: Seq<char>) -> Seq<char> {
    if shape is JoinedIsf {
        error
    } else {
        waveform::channel_name(channel) + ": "@ + error
    }
}

/// The kind of file that the data of a channel is, by the extension of the name that comes
/// with it.
pub fn channel_file(channel: u8, name_ext: Option<String>) -> (r: ChannelFile)
    ensures
        r.channel == channel,
        r.ext@ == channel_ext(files::opt_text(name_ext)),
{
    let ext = match name_ext {
        Some(e) => text::to_ascii_lower(e.as_str()),
        None => "isf".to_owned(),
    };
    ChannelFile { channel, ext }
}

/// The label under which data is parsed: that of its channel, or that of the first one for
/// joined files.
pub fn parse_label(shape: SourceShape, channel: u8) -> (r: String)
    ensures
        r@ == label_of(shape, channel),
{
    match shape {
        SourceShape::JoinedIsf => waveform::channel_text(1),
        _ => waveform::channel_text(channel),
    }
}

/// What is noted of data that could not be parsed; joined files name no channel.
pub fn parse_failure(shape: SourceShape, channel: u8, error: &str) -> (r: String)
    ensures
        r@ == failure_of(shape, channel, error@),
{
    match shape {
        SourceShape::JoinedIsf => error.to_owned(),
        _ => {
            let name = waveform::channel_text(channel);
            text::join3(name.as_str(), ": ", error)
        },
    }
}

/// Whether a parse error is what is reported of channels that could not be parsed.
pub open spec fn is_parse_error(
    parse_error: Option<String>,
    trace_count: usize,
    errors: Seq<String>,
) -> bool {
    let all = waveform::joined_texts(errors, "; "@, errors.len() as int);
    if trace_count == 0 {
        parse_error matches Some(message) && message@ == all
    } else if errors.len() > 0 {
        parse_error matches Some(message) && message@ == "partial: "@ + all
    } else {
        parse_error is None
    }
}

/// Whether `r` is what is reported of channels that were read.
pub open spec fn sources_ended(
    r: Report,
    target: SourceTarget,
    channels: Seq<ChannelFile>,
    trace_count: usize,
    errors: Seq<String>,
) -> bool {
    if channels.len() == 0 {
        is_failure(r, Some(target.id), target.job_id, "no displayed channel waveform data"@)
    } else {
        r matches Report::Sources(s) && s.target == target && s.suggested_name@
            == waveform::suggested(channels) && s.sheet == (waveform::shape_of(channels) is Sheet
            && trace_count > 0) && s.channel_files@ == (if channels.len() == 1 {
            channels
        } else {
            Seq::empty()
        }) && is_parse_error(s.parse_error, trace_count, errors)
    }
}

/// What is reported of channels that were read: `trace_count` of them could be parsed, and
/// `errors` tells of the others. Only the file of a single channel is handed on beside the
/// data.
pub fn sources_report(
    target: SourceTarget,
    channels: Vec<ChannelFile>,
    trace_count: usize,
    errors: &Vec<String>,
) -> (r: Report)
    ensures
        sources_ended(r, target, channels@, trace_count, errors@),
{
    if channels.len() == 0 {
        return Report::Failure {
            id: Some(target.id),
            job_id: target.job_id,
            message: "no displayed channel waveform data".to_owned(),
        };
    }
    let suggested_name = waveform::suggested_name(&channels);
    let sheet: bool = waveform::hands_on_sheet(&channels, trace_count);
    let parse_error = waveform::parse_report(trace_count, errors);
    let channel_files = if waveform::keeps_parts(&channels) {
        channels
    } else {
        Vec::new()
    };
    Report::Sources(SourceReport { target, suggested_name, sheet, channel_files, parse_error })
}

// ---------------------------------------------------------------------------
// What holds of the worker
// ---------------------------------------------------------------------------

/// Law: a job on an instrument is done on that instrument, with what was asked, where it is
/// connected and speaks the language that the job needs; else it is refused under the number of
/// the job.
pub proof fn law_jobs_need_their_connection(
    sessions: Map<u64, SessionKind>,
    id: u64,
    command: ControlCommand,
    job_id: Option<u64>,
    picture: PictureTarget,
    source: SourceTarget,
    channel: u8,
    usb: Option<bool>,
    step: Step,
)
    ensures
        is_step(sessions, Job::Command { id, command, job_id }, usb, step) ==> {
            &&& sessions.contains_key(id) ==> step == (Step::Execute { id, command, job_id })
            &&& !sessions.contains_key(id) ==> step is Reply && step->Reply_0 is Failure
                && step->Reply_0->Failure_id == Some(id) && step->Reply_0->Failure_job_id == job_id
                && step->Reply_0->Failure_message@ == "device not connected"@
        },
        is_step(sessions, Job::Capture(picture), usb, step) ==> {
            &&& sessions.contains_key(picture.id) && sessions[picture.id] is Scpi ==> step
                == Step::TakePicture(picture)
            &&& !sessions.contains_key(picture.id) || !(sessions[picture.id] is Scpi) ==> step
                is Reply && step->Reply_0 is Failure && step->Reply_0->Failure_id == Some(
                picture.id,
            ) && step->Reply_0->Failure_job_id == picture.job_id
        },
        is_step(sessions, Job::WaveformSource(source), usb, step) ==> {
            &&& sessions.contains_key(source.id) && sessions[source.id] is Scpi ==> step
                == Step::ReadSources(source)
            &&& !sessions.contains_key(source.id) || !(sessions[source.id] is Scpi) ==> step
                is Reply && step->Reply_0 is Failure && step->Reply_0->Failure_id == Some(
                source.id,
            ) && step->Reply_0->Failure_job_id == source.job_id
        },
        is_step(sessions, Job::Waveform { id, channel }, usb, step) ==> {
            &&& sessions.contains_key(id) && sessions[id] is Scpi ==> step == (Step::ReadWaveform {
                id,
                channel,
            })
            &&& !sessions.contains_key(id) || !(sessions[id] is Scpi) ==> step is Reply
                && step->Reply_0 is Failure && step->Reply_0->Failure_id == Some(id)
        },
        is_step(sessions, Job::Measure(id), usb, step) ==> {
            &&& sessions.contains_key(id) && sessions[id] is Scpi ==> step
                == Step::ReadMeasurements(id)
            &&& sessions.contains_key(id) && !(sessions[id] is Scpi) ==> step is Reply
                && step->Reply_0 is Measurements && step->Reply_0->readings@.len() == 0
                && step->Reply_0->Measurements_id == id
            &&& !sessions.contains_key(id) ==> step is Reply && step->Reply_0 is Failure
        },
        is_step(sessions, Job::PollRtt(id), usb, step) ==> {
            &&& sessions.contains_key(id) && sessions[id] is Probe ==> step == Step::ReadOutput(id)
            &&& !sessions.contains_key(id) || !(sessions[id] is Probe) ==> step is Reply
                && step->Reply_0 == (Report::SessionOutput { id, output: None })
        },
        is_step(sessions, Job::Shutdown, usb, step) <==> step is Stop,
{
}

/// Law: a connection is opened to the address that was asked for, in the given time, by the
/// library that the settings name; a blank setting names none. A scan uses the same.
pub proof fn law_connections_are_opened_as_asked(
    sessions: Map<u64, SessionKind>,
    id: u64,
    resource: String,
    kind: Option<InstrumentKind>,
    timeout_ms: u32,
    library: String,
    usb: Option<bool>,
    step: Step,
)
    ensures
        is_step(
            sessions,
            Job::Connect { id, resource, kind, timeout_ms, library },
            usb,
            step,
        ) ==> {
            &&& step is Open && step->Open_id == id && step->resource == resource
                && step->Open_timeout_ms == timeout_ms
            &&& step->Open_library is None <==> text::trimmed(library@).len() == 0
            &&& step->Open_library is Some ==> step->Open_library->0@ == library@
            &&& text::has_prefix(resource@, "DEMO::"@) && kind is Some ==> step->Open_plan
                == discovery::demo_plan(kind->0)
            &&& !text::has_prefix(resource@, "DEMO::"@) && usb == Some(true) ==> step->Open_plan
                is Bridge
            &&& !text::has_prefix(resource@, "DEMO::"@) && usb == Some(false) ==> step->Open_plan
                is Probe
            &&& !text::has_prefix(resource@, "DEMO::"@) && usb is None && kind
                == Some(InstrumentKind::Oscilloscope) ==> step->Open_plan == SessionPlan::Scpi(kind)
        },
        is_step(sessions, Job::Scan { library, timeout_ms }, usb, step) ==> {
            &&& step is Scan && step->Scan_timeout_ms == timeout_ms
            &&& step->Scan_library is None <==> text::trimmed(library@).len() == 0
            &&& step->Scan_library is Some ==> step->Scan_library->0@ == library@
        },
        is_step(sessions, Job::Disconnect(id), usb, step) ==> step == Step::Reply(
            Report::Disconnected(id),
        ),
{
}

/// Law: a connection is known from when it was opened until it is closed, under its number and
/// with its language; no other connection is touched. One that could not be opened is told with
/// its number.
pub proof fn law_connections_are_known_while_open(
    before: Map<u64, SessionKind>,
    after: Map<u64, SessionKind>,
    id: u64,
    other: u64,
    outcome: Result<OpenedSession, String>,
    r: Report,
)
    requires
        other != id,
        opening_ended(before, after, id, outcome, r),
    ensures
        outcome is Ok ==> after.contains_key(id) && after[id] == outcome->Ok_0.session
            && r is Connected && r->Connected_0.id == id && r->Connected_0.kind
            == outcome->Ok_0.kind && r->Connected_0.resource == outcome->Ok_0.resource
            && r->Connected_0.identity == outcome->Ok_0.identity && r->Connected_0.capabilities
            == outcome->Ok_0.capabilities,
        outcome is Ok && outcome->Ok_0.session is Scpi ==> r->Connected_0.profile@
            == outcome->Ok_0.profile@,
        outcome is Ok && !(outcome->Ok_0.session is Scpi) ==> r->Connected_0.profile@
            == outcome->Ok_0.identity.manufacturer@ + " "@ + outcome->Ok_0.identity.model@,
        outcome is Err ==> after == before && r is Failure && r->Failure_id == Some(id)
            && r->Failure_message@ == outcome->Err_0@,
        after.contains_key(other) == before.contains_key(other),
        before.contains_key(other) ==> after[other] == before[other],
        ({
            let left = sessions_after(after, Job::Disconnect(id));
            &&& !left.contains_key(id)
            &&& left.contains_key(other) == after.contains_key(other)
            &&& after.contains_key(other) ==> left[other] == after[other]
        }),
        sessions_after(after, Job::Measure(id)) == after,
        sessions_after(after, Job::PollRtt(id)) == after,
        sessions_after(after, Job::Shutdown) == after,
{
}

/// Law: a command is answered under its numbers, with the response or the error as it came.
pub proof fn law_command_is_answered_under_its_numbers(
    r: Report,
    id: u64,
    job_id: Option<u64>,
    outcome: Result<Option<String>, String>,
)
    requires
        command_ended(r, id, job_id, outcome),
    ensures
        outcome is Ok ==> r is CommandDone && r->CommandDone_id == id && r->CommandDone_job_id
            == job_id && r->response == outcome->Ok_0,
        outcome is Err ==> r is Failure && r->Failure_id == Some(id) && r->Failure_job_id == job_id
            && r->Failure_message@ == outcome->Err_0@,
{
}

/// Law: a picture within the limits that can be decoded is handed on with its bytes, as a preview
/// of at most 1600 pixels on an edge; any other is told as an error under the numbers of the job.
pub proof fn law_picture_is_handed_on_or_refused(
    r: Report,
    target: PictureTarget,
    png: Vec<u8>,
)
    requires
        picture_ended(r, target, Ok(png)),
    ensures
        screenshot::within_limits(png@) && screenshot::decoded_image(png@) is Ok ==> {
            let image = screenshot::decoded_image(png@)->Ok_0;
            &&& r is Screenshot && r->target == target && r->png == png
            &&& image.0 <= 1600 && image.1 <= 1600 ==> r->image.width == image.0 && r->image.height
                == image.1 && r->image.rgba@ == image.2
            &&& 0 < image.0 && 0 < image.1 ==> r->image.width <= 1600 && r->image.height <= 1600
        },
        !screenshot::within_limits(png@) || screenshot::decoded_image(png@) is Err ==> r is Failure
            && r->Failure_id == Some(target.id) && r->Failure_job_id == target.job_id
            && "Invalid screenshot: "@.is_prefix_of(r->Failure_message@),
        forall|message: String, u: Report| #[trigger] picture_ended(u, target, Err(message)) ==> u
            is Failure && u->Failure_message@ == message@ && u->Failure_job_id == target.job_id,
{
    if screenshot::within_limits(png@) && screenshot::decoded_image(png@) is Ok {
        let image = screenshot::decoded_image(png@)->Ok_0;
        if 0 < image.0 && 0 < image.1 {
            screenshot::law_preview_fits(image.0 as int, image.1 as int, 1600);
        }
        let p = screenshot::preview_of(image, PREVIEW_MAX_EDGE);
        assert(r->image@.width == p.width && r->image@.height == p.height && r->image@.rgba
            == p.rgba);
    }
}

/// Law: work on a picture or on waveforms is announced for its instrument, other work is not.
pub proof fn law_long_work_is_announced(job: Job, r: Option<Report>)
    requires
        announces(job, r),
    ensures
        r is Some <==> job is Capture || job is WaveformSource,
        job matches Job::Capture(target) ==> r->0 is Progress && r->0->Progress_id == Some(
            target.id,
        ),
        job matches Job::WaveformSource(target) ==> r->0 is Progress && r->0->Progress_id == Some(
            target.id,
        ),
{
}

/// Law: the data of a channel is of the kind that its name says, in small letters, and else an
/// ISF file. It is parsed under its channel's name, joined data under the first one's; an error
/// names the channel unless the data was joined.
pub proof fn law_channel_data_is_named(ext: Seq<char>, shape: SourceShape, n: u8, error: Seq<char>)
    ensures
        channel_ext(None) == "isf"@,
        channel_ext(Some(ext)).len() == ext.len(),
        forall|i: int| 0 <= i < ext.len() ==> #[trigger] channel_ext(Some(ext))[i]
            == text::ascii_lower(ext[i]),
        shape is JoinedIsf ==> label_of(shape, n) == "CH"@ + text::decimal(1) && failure_of(
            shape,
            n,
            error,
        ) == error,
        !(shape is JoinedIsf) ==> label_of(shape, n) == "CH"@ + text::decimal(n as nat)
            && ("CH"@ + text::decimal(n as nat) + ": "@).is_prefix_of(failure_of(shape, n, error))
            && error.is_suffix_of(failure_of(shape, n, error)),
{
}

/// Law: waveforms are handed on with what was asked for them; a file of their own only for a
/// single channel. Without a channel the job fails. Errors of some channels are told as a partial
/// failure, and none are told where all could be parsed.
pub proof fn law_waveforms_are_handed_on(
    r: Report,
    target: SourceTarget,
    channels: Seq<ChannelFile>,
    traces: usize,
    errors: Seq<String>,
)
    requires
        sources_ended(r, target, channels, traces, errors),
    ensures
        channels.len() == 0 ==> r is Failure && r->Failure_id == Some(target.id)
            && r->Failure_job_id == target.job_id && r->Failure_message@
            == "no displayed channel waveform data"@,
        channels.len() > 0 ==> {
            let s = r->Sources_0;
            &&& r is Sources && s.target == target
            &&& channels.len() == 1 ==> s.channel_files@ == channels && !s.sheet
            &&& channels.len() > 1 ==> s.channel_files@.len() == 0
            &&& s.sheet <==> traces > 0 && channels.len() >= 2 && exists|i: int|
                0 <= i < channels.len() && (#[trigger] channels[i]).ext@ != "isf"@
            &&& s.parse_error is None <==> traces > 0 && errors.len() == 0
            &&& traces > 0 && errors.len() > 0 ==> "partial: "@.is_prefix_of(s.parse_error->0@)
            &&& traces == 0 && errors.len() == 1 ==> s.parse_error->0@ == errors[0]@
        },
{
    waveform::law_channels_join_only_as_isf(channels);
    reveal_with_fuel(waveform::joined_texts, 2);
}

/// Law: news of a picture or a channel tell its size in whole kilobytes, and a channel by its
/// number.
pub proof fn law_news_tell_the_size(channel: u8, kb: nat)
    ensures
        ("截图已收到 "@ + text::decimal(kb) + " KB"@).is_prefix_of(decoding_text(kb)),
        (text::decimal(kb) + " KB, decoding…"@).is_suffix_of(decoding_text(kb)),
        ("已读 CH"@ + text::decimal(channel as nat) + "（"@ + text::decimal(kb)).is_prefix_of(
            channel_read_text(channel, kb),
        ),
        (text::decimal(channel as nat) + " ("@ + text::decimal(kb)
            + " KB), continuing…"@).is_suffix_of(channel_read_text(channel, kb)),
{
    reveal_strlit(" KB，正在解码… / Screenshot ");
    reveal_strlit(" KB");
    let n = text::decimal(channel as nat);
    let k = text::decimal(kb);
    let middle = " KB，正在解码… / Screenshot "@;
    assert(decoding_text(kb) =~= "截图已收到 "@ + k + middle + (k + " KB, decoding…"@));
    assert(middle.take(3) =~= " KB"@);
    let head = "截图已收到 "@ + k;
    assert(decoding_text(kb).take(head.len() as int + 3) =~= head + " KB"@);
    assert(channel_read_text(channel, kb) =~= ("已读 CH"@ + n + "（"@ + k)
        + " KB），继续… / Got CH"@ + (n + " ("@ + k + " KB), continuing…"@));
}

/// Law: a decoded picture is handed on as it is with its bytes; one that could not be decoded is
/// told with the reason, under the numbers of its job.
pub proof fn law_decoded_picture_is_handed_on(
    r: Report,
    target: PictureTarget,
    png: Vec<u8>,
    decoded: Result<DecodedImage, Seq<char>>,
)
    requires
        is_picture_report(r, target, png, decoded),
    ensures
        decoded is Ok ==> r is Screenshot && r->target == target && r->image == decoded->Ok_0
            && r->png == png,
        decoded is Err ==> r is Failure && r->Failure_id == Some(target.id) && r->Failure_job_id
            == target.job_id && decoded->Err_0.is_suffix_of(r->Failure_message@)
            && "Invalid screenshot: "@.is_prefix_of(r->Failure_message@),
{
}

} // verus!
