use wiparse_gui::bench::{meter_reading, InstrumentControlPanel, JobDetail, JobKind, Reading};
use wiparse_gui::bench_api::{ApiError, KindParam, SamplingKey, Selected, Topic};
use wiparse_gui::bench_events::{ConnectedInfo, SaveOutcome, ShotFile, ShotInfo, SourceInfo};
use wiparse_gui::bench_status::BenchStatus;
use wiparse_gui::controls::{ControlCommand, MeterFunction, Real};
use wiparse_gui::discovery::{SessionPlan, UsbAddress};
use wiparse_gui::instrument::InstrumentKind;
use wiparse_gui::lang::Lang;
use wiparse_gui::overview::{
    device_mark, device_name, downsample_places, latest_pair, overview_param_lines,
    overview_runtime_status, overview_status_key, twin_face_of, ParamValue, TwinFace,
};
use wiparse_gui::rack::{Capabilities, ControlState, Identity, ResourceInfo};
use wiparse_gui::waveform::{ChannelFile, SourceShape};
use wiparse_gui::worker::{
    announcement, channel_file, channel_progress, command_report, measure_report, output_report,
    parse_failure, parse_label, picture_progress, picture_report, scan_report, sources_report, Job,
    OpenedSession, PictureTarget, Report, SessionKind, SourceTarget, Step, Worker,
};

fn number(value: f64) -> Real {
    Real { bits: value.to_bits() }
}

fn idn(model: &str) -> Identity {
    Identity {
        manufacturer: "RIGOL".into(),
        model: model.into(),
        serial: "DS1".into(),
        firmware: "1.0".into(),
        raw: format!("RIGOL,{model}"),
    }
}

fn abilities(channels: u8) -> Capabilities {
    Capabilities {
        channels,
        waveform: true,
        screenshot: true,
        source_output: false,
        source_protection: false,
        range_control: false,
        nplc_control: false,
        load_modes: Vec::new(),
        measure_functions: Vec::new(),
    }
}

fn fresh_controls() -> ControlState {
    ControlState::new(
        MeterFunction { label: "DCV".into(), unit: "V".into(), scpi: "VOLT:DC".into() },
        "PK2PK",
    )
}

fn bench_with(kinds: &[InstrumentKind]) -> InstrumentControlPanel {
    let mut panel = InstrumentControlPanel::new(Vec::new(), 500, 0);
    for (i, kind) in kinds.iter().enumerate() {
        panel.on_connected(
            ConnectedInfo {
                id: i as u64 + 1,
                resource: format!("ADDR{}", i + 1),
                identity: idn("DHO924"),
                kind: *kind,
                profile: "p".into(),
                capabilities: abilities(2),
            },
            fresh_controls(),
            "12:00:00.000",
        );
    }
    panel
}

fn value(channel: &str, v: f64, unit: &str) -> Reading {
    Reading { channel: channel.into(), value: number(v), unit: unit.into() }
}

#[test]
fn connecting_selects_the_instrument() {
    let panel = bench_with(&[InstrumentKind::Oscilloscope, InstrumentKind::Multimeter]);
    assert_eq!(panel.device_count(), 2);
    assert_eq!(panel.selected_device_id(), Some(2));
    assert_eq!(panel.first_oscilloscope_id(), Some(1));
    assert_eq!(panel.rack.devices[0].last_activity, "LINK UP");
    assert_eq!(panel.logs[0], "12:00:00.000 CONNECT ADDR1 — RIGOL,DHO924");
    assert!(panel.status_text(Lang::En).contains("RIGOL,DHO924"));
}

#[test]
fn disconnecting_forgets_the_instrument() {
    let mut panel = bench_with(&[InstrumentKind::Oscilloscope, InstrumentKind::Multimeter]);
    panel.on_disconnected(2, "12:00:01.000");
    assert_eq!(panel.device_count(), 1);
    assert_eq!(panel.selected_device_id(), Some(1));
    assert!(matches!(panel.status, BenchStatus::Disconnected));
    assert_eq!(panel.logs.last().unwrap(), "12:00:01.000 DISCONNECT #2");
}

#[test]
fn scans_are_taken_over() {
    let mut panel = bench_with(&[]);
    assert!(panel.begin_scan());
    assert!(panel.is_scanning());
    assert!(!panel.begin_scan());
    panel.on_resources(
        vec![ResourceInfo {
            address: "USB0::A".into(),
            transport: "USB".into(),
            kind: None,
            identity: None,
            probe_error: None,
        }],
        "12:00:00.000",
    );
    assert!(!panel.is_scanning());
    assert_eq!(panel.rack.resources.len(), 1);
    assert!(matches!(panel.status, BenchStatus::FoundUnknown { total: 1 }));
}

#[test]
fn the_latest_reading_wins() {
    let mut panel = bench_with(&[InstrumentKind::Multimeter]);
    panel.on_measurements(1, &vec![value("Reading", 1.0, "V")], "12:00:00");
    panel.on_measurements(1, &vec![value("Reading", 2.0, "V")], "12:00:01");
    let m = latest_pair(&panel.latest, 1, "Reading").unwrap();
    assert_eq!(m.value, number(2.0));
    assert_eq!(panel.latest.len(), 1);
    assert!(latest_pair(&panel.latest, 2, "Reading").is_none());
    panel.clear_readings(1);
    assert!(panel.latest.is_empty());
}

#[test]
fn a_meter_shows_its_function_or_any_value() {
    let mut panel = bench_with(&[InstrumentKind::Multimeter, InstrumentKind::Multimeter]);
    assert_eq!(meter_reading(&panel.latest, 1, "VOLT:DC"), None);
    panel.on_measurements(2, &vec![value("RES", 7.0, "Ohm")], "12:00:00");
    assert_eq!(meter_reading(&panel.latest, 1, "RES"), None);
    panel.on_measurements(1, &vec![value("RES", 5.0, "Ohm")], "12:00:01");
    assert_eq!(meter_reading(&panel.latest, 1, "VOLT:DC"), Some(1));
    panel.on_measurements(1, &vec![value("VOLT:DC", 1.5, "V")], "12:00:02");
    assert_eq!(meter_reading(&panel.latest, 1, "VOLT:DC"), Some(2));
    assert_eq!(panel.latest[2].reading.value, number(1.5));
}

#[test]
fn the_screen_of_a_scope_is_read() {
    let mut panel = bench_with(&[InstrumentKind::Oscilloscope]);
    panel.rack.devices[0].controls.scope.channel = 2;
    let job = panel.press_read_screen(0);
    assert_eq!((job.id, job.channel, job.points), (1, 2, 0));
    assert_eq!(panel.status_text(Lang::En), "Reading on-screen waveform…");
}

#[test]
fn one_request_per_instrument() {
    let mut panel = bench_with(&[InstrumentKind::Multimeter, InstrumentKind::DebugProbe]);
    panel.press_sampling(0, SamplingKey::Start, 0);
    assert!(panel.live_active());
    assert_eq!(panel.live_devices_for_hub().len(), 2);
    assert_eq!(panel.live_total(), 1);
    assert_eq!(panel.due_samples(1_000_000), vec![1]);
    assert_eq!(panel.due_samples(2_000_000), Vec::<u64>::new());
    panel.on_measurements(1, &Vec::new(), "12:00:00");
    panel.press_sampling(0, SamplingKey::Pause, 0);
    assert!(!panel.live_active());
    panel.press_sampling(0, SamplingKey::Stop, 0);
    assert!(!panel.rack.devices[0].acquiring);
    panel.rack.devices[1].controls.probe.rtt_on = true;
    assert_eq!(panel.due_output(1_000_000), vec![2]);
    assert_eq!(panel.due_output(2_000_000), Vec::<u64>::new());
    panel.on_session_output(2, Some("boot ok".into()), "12:00:00.000");
    assert_eq!(panel.due_output(3_000_000), vec![2]);
}

#[test]
fn commands_are_answered() {
    let mut panel = bench_with(&[InstrumentKind::Oscilloscope]);
    let (id, job) = panel.api_command(Some(1), Some(Ok(()))).ok().unwrap();
    assert_eq!(id, 1);
    panel.on_command_done(1, Some(job), Some("OK".into()), "12:00:00.000");
    let results = panel.take_job_results();
    assert_eq!(results.len(), 1);
    assert!(results[0].ok);
    assert_eq!(results[0].job_id, job);
    assert_eq!(results[0].kind, JobKind::Command);
    assert!(matches!(&results[0].detail, JobDetail::Response(Some(r)) if r == "OK"));
    assert!(panel.take_job_results().is_empty());
}

#[test]
fn failures_end_the_work() {
    let mut panel = bench_with(&[InstrumentKind::Oscilloscope]);
    panel.on_progress("working".into(), 5);
    assert_eq!(panel.busy.label, "working");
    panel.on_error(Some(1), Some(9), "timeout".into(), "12:00:00.000");
    assert_eq!(panel.busy.device, None);
    let results = panel.take_job_results();
    assert_eq!((results[0].ok, results[0].job_id), (false, 9));
    assert_eq!(panel.logs.last().unwrap(), "12:00:00.000 ERROR timeout");
}

#[test]
fn refusals_name_their_reason() {
    let mut panel = bench_with(&[InstrumentKind::Multimeter]);
    assert_eq!(
        panel.api_select(false, KindParam::Absent, None).err().unwrap().message(),
        "missing device_id (or pass overview=true / kind)"
    );
    assert_eq!(
        panel.api_select(false, KindParam::Absent, Some(9)).err().unwrap().message(),
        "device not found"
    );
    assert_eq!(
        panel.api_select(false, KindParam::Word("x".into()), None).err().unwrap().message(),
        "unknown kind 'x'"
    );
    assert_eq!(
        panel.api_select(false, KindParam::Word("Overview".into()), None).ok(),
        Some(Selected::Overview)
    );
    assert_eq!(
        panel.api_select(false, KindParam::Absent, Some(1)).ok(),
        Some(Selected::Device { id: 1, kind: InstrumentKind::Multimeter })
    );
    assert_eq!(panel.api_connect(None, None).err().unwrap().message(), "missing resource");
    assert_eq!(panel.api_disconnect(None).err().unwrap().message(), "missing device_id");
    assert_eq!(
        panel.api_command(Some(1), None).err().unwrap().message(),
        "missing command"
    );
    assert_eq!(
        panel.api_command(Some(1), Some(Err("bad".into()))).err().unwrap().message(),
        "bad"
    );
    assert_eq!(
        panel.api_capture(None, None, false, 0).err().unwrap().message(),
        "missing device_id"
    );
    assert_eq!(
        panel.api_capture(Some(8), None, false, 0).err().unwrap().message(),
        "device not connected"
    );
    assert_eq!(
        panel.api_waveform_source(None, None, None, false, 0).err().unwrap().message(),
        "no connected oscilloscope"
    );
    assert_eq!(
        panel.api_connect_all(&Vec::new()).err().unwrap().message(),
        "no new discovered resources to connect"
    );
    assert_eq!(ApiError::NotConnected.message(), "device not connected");
}

#[test]
fn pictures_are_saved_or_copied() {
    let mut panel = bench_with(&[InstrumentKind::Oscilloscope]);
    let info = || ShotInfo { id: 1, job_id: Some(4), width: 3, height: 2, png: vec![7; 77] };
    panel.on_screenshot(info(), None);
    assert!(matches!(panel.status, BenchStatus::ShotCopied));
    panel.on_screenshot(info(), Some(ShotFile { path: "a.png".into(), written: Ok(()) }));
    assert!(matches!(&panel.status, BenchStatus::ShotSaved { path } if path == "a.png"));
    panel.on_screenshot(
        info(),
        Some(ShotFile { path: "a.png".into(), written: Err("full".into()) }),
    );
    let results = panel.take_job_results();
    let outcome: Vec<bool> = results.iter().map(|r| r.ok).collect();
    assert_eq!(outcome, vec![true, true, false]);
    assert!(matches!(results[0].detail, JobDetail::Shot { bytes: 77, width: 3, height: 2, .. }));
    assert_eq!(panel.rack.devices[0].last_activity, "SCREEN CAPTURE");
    assert_eq!(panel.pngs.get(&1), Some(&vec![7; 77]));
}

#[test]
fn a_disconnected_instrument_leaves_no_pictures() {
    let mut panel = bench_with(&[InstrumentKind::Oscilloscope, InstrumentKind::Oscilloscope]);
    for id in [1, 2] {
        panel.on_screenshot(
            ShotInfo { id, job_id: None, width: 1, height: 1, png: vec![id as u8] },
            None,
        );
        assert!(panel.photo_wanted(id));
        assert!(!panel.photo_wanted(id));
    }
    panel.on_disconnected(1, "12:00:00.000");
    assert_eq!(panel.pngs.get(&1), None);
    assert_eq!(panel.pngs.get(&2), Some(&vec![2]));
    assert!(panel.photo_wanted(1));
    assert!(!panel.photo_wanted(2));
}

#[test]
fn waveforms_wait_for_their_dialog() {
    let mut panel = bench_with(&[InstrumentKind::Oscilloscope]);
    let info = || SourceInfo {
        id: 1,
        job_id: None,
        byte_count: 4096,
        suggested_name: "waveform_CH1.isf".into(),
        name_stem: Some("waveform_CH1".into()),
        name_ext: Some("isf".into()),
        sniffed: None,
        trace_count: 1,
        points: 1000,
        parse_error: None,
        channel_files: vec![ChannelFile { channel: 1, ext: "isf".into() }],
    };
    assert!(panel.on_waveform_source(info(), false, "12:00:00.000").is_none());
    assert!(panel.take_due_save().is_none());
    assert!(panel.take_due_save().is_none());
    let pending = panel.take_due_save().unwrap();
    assert_eq!(pending.effective_ext, "isf");
    assert_eq!(pending.vendor, "RIGOL");
    panel.on_save_done(
        &pending,
        SaveOutcome::Saved { files: vec!["x.isf".into()], folder: "d".into() },
        false,
        "x.isf",
        "12:00:00.000",
    );
    assert!(matches!(&panel.status, BenchStatus::WaveSaved { path } if path == "x.isf"));
    assert!(panel.on_waveform_source(info(), true, "12:00:00.000").is_some());
    panel.on_save_done(
        &pending,
        SaveOutcome::Cancelled { shown: None },
        false,
        "x.isf",
        "12:00:00.000",
    );
    assert!(matches!(panel.status, BenchStatus::WaveRawKept { kilobytes: 4 }));
}

#[test]
fn the_overview_tells_what_instruments_do() {
    let mut panel = bench_with(&[InstrumentKind::DcSource, InstrumentKind::Oscilloscope]);
    let device = &panel.rack.devices[0];
    let standby = overview_runtime_status(device, None, "");
    assert_eq!(standby.label(Lang::En), "STANDBY");
    assert_eq!(standby.label(Lang::Zh), "待机");
    assert_eq!(standby.color(), (0x7a, 0xc8, 0xe0));
    let busy = overview_runtime_status(device, Some(1), "  ");
    assert_eq!(busy.label(Lang::En), "BUSY");
    assert_eq!(overview_runtime_status(device, Some(1), "Reading").label(Lang::En), "Reading");
    assert_eq!(overview_status_key(device, Some(1)), "busy");
    assert_eq!(device_name(Lang::En, device), "DHO924");
    assert_eq!(device_mark(device), "SN DS1");
    panel.rack.devices[0].controls.source.outputs[1] = true;
    assert_eq!(overview_status_key(&panel.rack.devices[0], None), "output");
    panel.rack.devices[0].acquiring = true;
    assert_eq!(overview_status_key(&panel.rack.devices[0], None), "live");
    panel.rack.devices[0].paused = true;
    assert_eq!(overview_status_key(&panel.rack.devices[0], None), "hold");
}

#[test]
fn the_overview_shows_four_lines() {
    let mut panel = bench_with(&[InstrumentKind::DcSource]);
    panel.on_measurements(
        1,
        &vec![
            value("CH1 Voltage", 4.99, "V"),
            value("CH1 Current", 0.5, "A"),
            value("CH1 Power", 2.5, "W"),
        ],
        "12:00:00",
    );
    let lines = overview_param_lines(Lang::En, &panel.rack.devices[0], &panel.latest);
    let keys: Vec<&str> = lines.iter().map(|l| l.key.as_str()).collect();
    assert_eq!(keys, vec!["CH1", "CH2", "CH1 Voltage", "CH1 Current"]);
    assert!(matches!(
        lines[0].value,
        ParamValue::Output { volts, amps, on: false } if volts == number(4.99) && amps == number(0.5)
    ));
    let face = twin_face_of(&panel.rack.devices[0], &panel.latest);
    match face {
        TwinFace::DcSource { rows } => {
            assert_eq!(rows.len(), 2);
            assert_eq!(rows[0].meas_w.as_ref().unwrap().value, number(2.5));
            assert!(rows[1].meas_v.is_none());
            assert_eq!(rows[1].set_v, number(5.0));
        }
        _ => panic!("a source has the face of a source"),
    }
}

#[test]
fn waveforms_are_thinned_evenly() {
    assert_eq!(downsample_places(5, 3), vec![0, 2, 4]);
    assert_eq!(downsample_places(2, 4), vec![0, 0, 0, 1]);
    assert_eq!(downsample_places(0, 4), Vec::<usize>::new());
    assert_eq!(downsample_places(4, 1), Vec::<usize>::new());
}

#[test]
fn the_inventory_lists_everything() {
    let mut panel = bench_with(&[InstrumentKind::DcSource, InstrumentKind::Oscilloscope]);
    panel.on_resources(
        vec![ResourceInfo {
            address: "ADDR2".into(),
            transport: "USB".into(),
            kind: Some(InstrumentKind::Oscilloscope),
            identity: None,
            probe_error: None,
        }],
        "12:00:00.000",
    );
    let all = panel.api_overview();
    assert_eq!(all.devices, vec![0, 1]);
    assert_eq!(all.sessions, 2);
    assert!(all.resources[0].connected);
    let scopes = panel.api_list(Some(InstrumentKind::Oscilloscope));
    assert_eq!(scopes.devices, vec![1]);
    let meters = panel.api_list(Some(InstrumentKind::Multimeter));
    assert!(meters.devices.is_empty() && meters.resources.is_empty());
    assert_eq!(meters.sessions, 2);
}

#[test]
fn demonstrations_come_and_go() {
    let mut panel = bench_with(&[]);
    panel.apply_debug_mode(true);
    assert!(panel.debug_mode);
    panel.apply_debug_mode(false);
    assert!(!panel.debug_mode);
    panel.on_exit();
    assert!(!Topic::JobDone.name().is_empty());
    assert!(panel
        .begin_connect(InstrumentKind::Generic, UsbAddress { session: false, kind: None })
        .is_none());
}

#[test]
fn the_worker_only_works_on_open_connections() {
    let mut worker = Worker::new();
    let read = || Job::Command { id: 1, command: ControlCommand::Clear, job_id: Some(3) };
    assert!(matches!(
        worker.plan(read(), None),
        Step::Reply(Report::Failure { id: Some(1), job_id: Some(3), message })
            if message == "device not connected"
    ));
    let opened = worker.on_opened(
        1,
        Ok(OpenedSession {
            session: SessionKind::Probe,
            resource: "USB".into(),
            identity: idn("J-Link"),
            kind: InstrumentKind::DebugProbe,
            profile: "ignored".into(),
            capabilities: abilities(0),
        }),
    );
    assert!(matches!(opened, Report::Connected(info) if info.profile == "RIGOL J-Link"));
    assert!(matches!(worker.plan(read(), None), Step::Execute { id: 1, .. }));
    assert!(matches!(worker.plan(Job::PollRtt(1), None), Step::ReadOutput(1)));
    assert!(matches!(
        worker.plan(Job::Measure(1), None),
        Step::Reply(Report::Measurements { id: 1, .. })
    ));
    assert!(matches!(
        worker.plan(Job::Waveform { id: 1, channel: 1 }, None),
        Step::Reply(Report::Failure { .. })
    ));
    assert!(matches!(
        worker.plan(Job::Disconnect(1), None),
        Step::Reply(Report::Disconnected(1))
    ));
    assert!(matches!(worker.plan(read(), None), Step::Reply(Report::Failure { .. })));
    assert!(matches!(
        worker.on_opened(2, Err("busy".into())),
        Report::Failure { id: Some(2), job_id: None, .. }
    ));
    assert!(matches!(
        worker.plan(
            Job::Connect {
                id: 4,
                resource: "DEMO::X".into(),
                kind: Some(InstrumentKind::UsbBridge),
                timeout_ms: 5,
                library: " ".into(),
            },
            None,
        ),
        Step::Open { id: 4, plan: SessionPlan::DemoBridge, library: None, .. }
    ));
    assert!(matches!(worker.plan(Job::Shutdown, None), Step::Stop));
}

#[test]
fn the_worker_reports_its_work() {
    let target = || PictureTarget { id: 1, job_id: Some(2), save_path: None };
    assert!(matches!(
        announcement(&Job::Capture(target())),
        Some(Report::Progress { id: Some(1), message })
            if message == "正在截取屏幕… / Capturing screen…"
    ));
    assert!(announcement(&Job::Shutdown).is_none());
    assert!(matches!(
        picture_progress(1, 3000),
        Report::Progress { message, .. }
            if message == "截图已收到 2 KB，正在解码… / Screenshot 2 KB, decoding…"
    ));
    assert!(matches!(
        channel_progress(1, 3, 5000),
        Report::Progress { message, .. }
            if message == "已读 CH3（4 KB），继续… / Got CH3 (4 KB), continuing…"
    ));
    assert!(matches!(
        picture_report(target(), Err("timeout".into())),
        Report::Failure { id: Some(1), job_id: Some(2), message } if message == "timeout"
    ));
    assert!(matches!(
        picture_report(target(), Ok(vec![1, 2, 3])),
        Report::Failure { message, .. } if message.starts_with("Invalid screenshot: ")
    ));
    assert!(matches!(scan_report(Err("x".into())), Report::Failure { id: None, .. }));
    assert!(matches!(scan_report(Ok(Vec::new())), Report::Resources(_)));
    assert!(matches!(
        command_report(1, None, Ok(None)),
        Report::CommandDone { response: None, .. }
    ));
    assert!(matches!(output_report(1, Ok(None)), Report::SessionOutput { .. }));
    assert!(matches!(
        measure_report(1, "A".into(), Ok(Vec::new())),
        Report::Measurements { .. }
    ));
}

#[test]
fn the_worker_hands_waveforms_on() {
    let target = || SourceTarget {
        id: 1,
        job_id: Some(2),
        auto_dir: None,
        auto_filename: None,
        overwrite: false,
    };
    assert!(matches!(
        sources_report(target(), Vec::new(), 0, &Vec::new()),
        Report::Failure { message, .. } if message == "no displayed channel waveform data"
    ));
    let mixed = vec![channel_file(1, Some("ISF".into())), channel_file(2, Some("csv".into()))];
    assert_eq!(mixed[0].ext, "isf");
    match sources_report(target(), mixed, 1, &vec!["CH2: bad".into()]) {
        Report::Sources(s) => {
            assert_eq!(s.suggested_name, "waveform_CH1_CH2.csv");
            assert!(s.sheet);
            assert!(s.channel_files.is_empty());
            assert_eq!(s.parse_error, Some("partial: CH2: bad".to_string()));
        }
        _ => panic!("waveforms were read"),
    }
    assert_eq!(channel_file(1, None).ext, "isf");
    assert_eq!(parse_label(SourceShape::JoinedIsf, 3), "CH1");
    assert_eq!(parse_label(SourceShape::Sheet, 3), "CH3");
    assert_eq!(parse_failure(SourceShape::Single, 3, "bad"), "CH3: bad");
    assert_eq!(parse_failure(SourceShape::JoinedIsf, 3, "bad"), "bad");
}

#[test]
fn a_new_bench_knows_its_addresses() {
    let panel = InstrumentControlPanel::new(vec!["TCPIP::1".into(), "TCPIP::2".into()], 500, 0);
    assert_eq!(panel.rack.resources.len(), 2);
    assert_eq!(panel.rack.resources[1].address, "TCPIP::2");
    assert_eq!(panel.rack.resources[0].transport, "TCPIP");
    assert!(panel.rack.resources[0].kind.is_none());
    assert_eq!(panel.rack.inputs[0], "TCPIP::1");
    assert!(panel.rack.inputs[1..].iter().all(|s| s.is_empty()));
    assert_eq!((panel.device_count(), panel.rack.next_id), (0, 1));
    assert_eq!(panel.rack.selected_kind, InstrumentKind::Oscilloscope);
    assert!(panel.overview_open());
    let controls = fresh_controls();
    assert_eq!(controls.scope.channel_on, vec![true, false, false, false]);
    assert_eq!(controls.scope.trigger_source, "CH1");
    assert!(controls.scope.meas_types.iter().all(|m| m == "PK2PK"));
}

#[test]
fn every_new_address_is_queued_under_its_own_number() {
    let mut panel = InstrumentControlPanel::new(vec!["A".into(), "B".into()], 500, 0);
    let usb = vec![UsbAddress { session: false, kind: None }; 2];
    let queued = panel.api_connect_all(&usb).ok().unwrap();
    let told: Vec<(u64, &str)> = queued.iter().map(|q| (q.id, q.resource.as_str())).collect();
    assert_eq!(told, vec![(1, "A"), (2, "B")]);
    assert_eq!(panel.rack.next_id, 3);
    assert!(matches!(panel.status, BenchStatus::ConnectingAll { count: 2 }));
}

#[test]
fn a_settled_status_keeps_its_language() {
    let mut panel = InstrumentControlPanel::new(Vec::new(), 500, 0);
    assert_eq!(panel.status_text(Lang::Zh), "就绪");
    panel.settle_status(Lang::En);
    assert_eq!(panel.status_text(Lang::Zh), "Ready");
    assert_eq!(panel.status_text(Lang::En), "Ready");
}
