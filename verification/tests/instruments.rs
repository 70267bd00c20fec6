use wiparse_gui::controls::{
    append_io_log, console_command, format_scope_scale, nearest_scale_step, note_activity,
    scale_value, scope_meas_payload, shown_channels, BridgeControls, BridgeKey, ControlCommand,
    LoadControls, MeterControls, MeterFunction, ProbeControls, ProbeKey, Real, ScopeControls,
    ScopeKey, SourceControls, SourceKey,
};
use wiparse_gui::discovery::{
    open_demo_session, open_live_session, pending_count, pending_kinds, visa_library, SessionPlan, UsbAddress,
};
use wiparse_gui::instrument::{
    all_card_kinds, instrument_features, instrument_kind_slot, instrument_name, kind_icon,
    kind_sort_key, resource_address_hint, InstrumentKind,
};
use wiparse_gui::lang::{local, text, Lang};
use wiparse_gui::rack::{
    card_action, CardStatus, CardUse, Capabilities, ControlState, DeviceUi, Identity, Rack,
    ResourceInfo, FIVE, ONE, ONE_AND_A_FIFTH, SIX, TEN, THOUSANDTH, ZERO,
};

fn amount(value: f64) -> Real {
    Real { bits: value.to_bits() }
}

fn identity(model: &str) -> Identity {
    Identity {
        manufacturer: "RIGOL".into(),
        model: model.into(),
        serial: "SN1".into(),
        firmware: "1.0".into(),
        raw: format!("RIGOL,{model},SN1,1.0"),
    }
}

fn function() -> MeterFunction {
    MeterFunction { label: "DCV".into(), unit: "V".into(), scpi: "VOLT:DC".into() }
}

fn rack_device(id: u64, kind: InstrumentKind, address: &str) -> DeviceUi {
    DeviceUi {
        id,
        resource: address.into(),
        identity: identity("DHO924"),
        kind,
        profile: "generic".into(),
        capabilities: Capabilities {
            channels: 2,
            waveform: true,
            screenshot: true,
            source_output: false,
            source_protection: false,
            range_control: false,
            nplc_control: false,
            load_modes: Vec::new(),
            measure_functions: Vec::new(),
        },
        controls: ControlState::new(function(), "PK2PK"),
        acquiring: false,
        paused: false,
        last_activity: String::new(),
    }
}

fn resource(address: &str, kind: Option<InstrumentKind>) -> ResourceInfo {
    ResourceInfo {
        address: address.into(),
        transport: "USB".into(),
        kind,
        identity: None,
        probe_error: None,
    }
}

const NO_USB: UsbAddress = UsbAddress { session: false, kind: None };

#[test]
fn constants_are_the_bits_of_their_values() {
    assert_eq!(f64::from_bits(ZERO), 0.0);
    assert_eq!(f64::from_bits(THOUSANDTH), 0.001);
    assert_eq!(f64::from_bits(ONE), 1.0);
    assert_eq!(f64::from_bits(ONE_AND_A_FIFTH), 1.2);
    assert_eq!(f64::from_bits(FIVE), 5.0);
    assert_eq!(f64::from_bits(SIX), 6.0);
    assert_eq!(f64::from_bits(TEN), 10.0);
}

#[test]
fn texts_follow_the_language() {
    assert_eq!(text(Lang::Zh, "示波器", "Scope"), "示波器");
    assert_eq!(text(Lang::En, "示波器", "Scope"), "Scope");
    assert_eq!(local(true, "是", "yes"), "是");
    assert_eq!(local(false, "是", "yes"), "yes");
}

#[test]
fn cards_stand_at_their_slots() {
    let kinds = all_card_kinds();
    for (slot, kind) in kinds.iter().enumerate() {
        assert_eq!(instrument_kind_slot(*kind), slot);
        assert!(!instrument_name(Lang::En, *kind).is_empty());
        assert!(!instrument_name(Lang::Zh, *kind).is_empty());
        assert!(!kind_icon(*kind).is_empty());
        assert!(!resource_address_hint(*kind).is_empty());
        assert!(!instrument_features(Lang::En, *kind).is_empty());
    }
}

#[test]
fn kinds_have_different_ranks() {
    let mut ranks: Vec<u8> = all_card_kinds().iter().map(|k| kind_sort_key(Some(*k))).collect();
    ranks.push(kind_sort_key(None));
    let n = ranks.len();
    ranks.sort();
    ranks.dedup();
    assert_eq!(ranks.len(), n);
}

#[test]
fn channels_are_one_to_four() {
    assert_eq!(shown_channels(0), 1);
    assert_eq!(shown_channels(3), 3);
    assert_eq!(shown_channels(8), 4);
}

#[test]
fn scales_rise_and_steps_cancel() {
    assert!(scale_value(0) < scale_value(1));
    let up = nearest_scale_step(4, 1);
    assert_eq!(nearest_scale_step(up, -1), 4);
    assert_eq!(nearest_scale_step(0, -1), 0);
    assert!(!format_scope_scale(4).is_empty());
}

#[test]
fn scope_keys_become_commands() {
    let mut scope = ScopeControls::new("PK2PK", amount(0.001), amount(0.0));
    assert!(matches!(scope.press(ScopeKey::Run).as_slice(), [ControlCommand::ScopeRun]));
    let on = scope.press(ScopeKey::Channel { index: 1, on: true });
    assert!(scope.channel_on[1]);
    assert!(on.iter().any(|c| matches!(
        c,
        ControlCommand::ScopeChannel { channel: 2, enabled: true }
    )));
    let before = scope.scale_steps[0];
    let scaled = scope.press(ScopeKey::Scale { index: 0, direction: 1 });
    assert_ne!(scope.scale_steps[0], before);
    assert!(scaled.iter().any(|c| matches!(c, ControlCommand::ScopeScale { channel: 1, .. })));
    let moved = scope.press(ScopeKey::Position { index: 0, up: true });
    assert_eq!(scope.positions[0], 1);
    assert!(moved.iter().any(|c| matches!(
        c,
        ControlCommand::ScopePosition { channel: 1, quarters: 1 }
    )));
}

#[test]
fn measure_results_are_kept_per_channel() {
    let mut scope = ScopeControls::new("PK2PK", amount(0.001), amount(0.0));
    assert_eq!(scope.first_result(), None);
    scope.press(ScopeKey::Measure { index: 0 });
    scope.store_measure_result("CH2 PK2PK: 1.25 V");
    assert_eq!(scope.meas_results[1], Some("CH2 PK2PK: 1.25 V".to_string()));
    assert_eq!(scope.first_result(), Some("CH2 PK2PK: 1.25 V".to_string()));
    scope.store_measure_result("no channel");
    assert_eq!(scope.meas_results[0], None);
    assert_eq!(scope_meas_payload("CH2 PK2PK: 1.25 V"), Some("1.25 V".to_string()));
    assert_eq!(scope_meas_payload("CH2 PK2PK: —"), None);
    assert_eq!(scope_meas_payload(" plain "), Some("plain".to_string()));
}

#[test]
fn source_output_switches_back() {
    let mut source = SourceControls::new(amount(5.0), amount(1.0), amount(6.0), amount(1.2));
    assert!(!source.any_output());
    let on = source.press(SourceKey::Output { index: 1 });
    assert!(source.any_output());
    assert!(on.iter().any(|c| matches!(
        c,
        ControlCommand::SourceOutput { channel: 2, enabled: true }
    )));
    source.press(SourceKey::Output { index: 1 });
    assert!(!source.any_output());
    let set = source.press(SourceKey::Apply { index: 0 });
    assert!(set.iter().any(|c| matches!(
        c,
        ControlCommand::SourceVoltage { channel: 1, value } if *value == amount(5.0)
    )));
}

#[test]
fn loads_meters_probes_and_bridges_have_commands() {
    let mut load = LoadControls::new(amount(1.0));
    assert!(!load.input);
    assert!(matches!(load.switch_input(), ControlCommand::LoadInput(true)));
    assert!(load.input);
    assert!(!load.unit().is_empty());
    assert!(!load.apply().is_empty());

    let meter = MeterControls::new(function(), amount(10.0), amount(1.0));
    assert!(meter.apply().iter().any(|c| matches!(c, ControlCommand::DmmFunction(_))));

    let mut probe = ProbeControls::new();
    assert!(matches!(
        probe.press(ProbeKey::Rtt { on: true }),
        ControlCommand::ProbeRttStart { .. }
    ));
    assert!(matches!(probe.press(ProbeKey::Halt), ControlCommand::ProbeHalt));

    let bridge = BridgeControls::new();
    assert!(matches!(bridge.press(BridgeKey::Inquire), ControlCommand::BridgeInfo));
    assert!(matches!(bridge.press(BridgeKey::Transfer), ControlCommand::BridgeSpi { .. }));
}

#[test]
fn console_tells_queries_from_writes() {
    assert!(matches!(console_command("  *IDN?  "), Some(ControlCommand::RawQuery(q)) if q == "*IDN?"));
    assert!(matches!(console_command("*RST"), Some(ControlCommand::RawWrite(w)) if w == "*RST"));
    assert!(console_command("   ").is_none());
}

#[test]
fn the_log_of_an_instrument_is_bounded() {
    let mut log = String::new();
    for _ in 0..3000 {
        append_io_log(&mut log, "0123456789");
    }
    assert!(log.len() < 30_000);
    assert!(log.ends_with("0123456789\n") || log.ends_with("0123456789"));
    let mut slot = "old".to_string();
    note_activity(&mut slot, "LINK UP");
    assert_eq!(slot, "LINK UP");
}

#[test]
fn a_scan_loses_no_address() {
    let mut rack = Rack::new(vec!["TCPIP::1".into()]);
    let summary = rack.apply_discovered_resources(vec![
        resource("USB0::A", Some(InstrumentKind::Oscilloscope)),
        resource("USB0::B", None),
    ]);
    assert_eq!(summary.total, rack.resources.len());
    assert!(rack.resources.iter().any(|r| r.address == "USB0::A"));
    assert!(rack.resources.iter().any(|r| r.address == "USB0::B"));
    assert_eq!(
        rack.resolve_card_resource(InstrumentKind::Oscilloscope),
        Some("USB0::A".to_string())
    );
}

#[test]
fn selection_is_of_the_kind_and_stays() {
    let mut rack = Rack::new(Vec::new());
    rack.devices.push(rack_device(1, InstrumentKind::Multimeter, "A"));
    rack.devices.push(rack_device(2, InstrumentKind::Oscilloscope, "B"));
    rack.select_kind(InstrumentKind::Oscilloscope);
    assert_eq!(rack.selected_id, Some(2));
    assert!(!rack.overview_open);
    assert_eq!(rack.active_device_index(), Some(1));
    rack.select_kind(InstrumentKind::Oscilloscope);
    assert_eq!(rack.selected_id, Some(2));
    assert_eq!(rack.first_oscilloscope_id(), Some(2));
    assert_eq!(rack.count_connected(InstrumentKind::Oscilloscope), 1);
    rack.select_overview();
    assert!(rack.overview_open);
}

#[test]
fn cards_tell_what_is_connected() {
    let mut rack = Rack::new(Vec::new());
    assert!(matches!(
        rack.card(InstrumentKind::Oscilloscope).status,
        CardStatus::Disconnected
    ));
    rack.devices.push(rack_device(7, InstrumentKind::Oscilloscope, "B"));
    let card = rack.card(InstrumentKind::Oscilloscope);
    assert!(matches!(card.status, CardStatus::One(_)));
    assert_eq!(card.connected_id, Some(7));
    let action = card_action(
        &card,
        CardUse {
            name_clicked: false,
            list_clicked: false,
            box_focused: false,
            connect_clicked: false,
            disconnect_clicked: true,
            background_clicked: false,
        },
    );
    assert_eq!(action.disconnect, Some(7));
}

#[test]
fn found_addresses_go_to_their_cards() {
    let mut rack = Rack::new(Vec::new());
    rack.resources.push(resource("USB0::M", Some(InstrumentKind::Multimeter)));
    rack.resources.push(resource("TCPIP::X", None));
    assert_eq!(rack.resource_target(0), InstrumentKind::Multimeter);
    rack.fill_card(0);
    assert_eq!(rack.inputs[3], "USB0::M");
    assert_eq!(rack.selected_kind, InstrumentKind::Multimeter);
    assert!(!rack.overview_open);
    rack.select_kind(InstrumentKind::DcSource);
    rack.fill_card(1);
    assert_eq!(rack.inputs[1], "TCPIP::X");
    assert_eq!(rack.inputs[3], "USB0::M");
}

#[test]
fn connection_numbers_differ() {
    let mut rack = Rack::new(Vec::new());
    let first = rack
        .begin_connect_address(InstrumentKind::Oscilloscope, "A".into(), true, NO_USB)
        .unwrap();
    let second = rack
        .begin_connect_address(InstrumentKind::Multimeter, "B".into(), true, NO_USB)
        .unwrap();
    assert_ne!(first.id, second.id);
    assert_eq!(first.resource, "A");
    let third = rack.begin_connect_demo(InstrumentKind::Generic);
    assert!(third > second.id);
    rack.devices.push(rack_device(first.id, InstrumentKind::Oscilloscope, "A"));
    assert!(rack
        .begin_connect_address(InstrumentKind::Oscilloscope, "A".into(), true, NO_USB)
        .is_none());
}

#[test]
fn connecting_all_skips_what_is_connected() {
    let mut rack = Rack::new(Vec::new());
    rack.apply_discovered_resources(vec![
        resource("USB0::A", Some(InstrumentKind::Oscilloscope)),
        resource("USB0::B", Some(InstrumentKind::Multimeter)),
    ]);
    rack.devices.push(rack_device(1, InstrumentKind::Oscilloscope, "USB0::A"));
    assert_eq!(pending_count(&rack), 1);
    assert_eq!(pending_kinds(&rack), vec![InstrumentKind::Multimeter]);
    let usb = vec![NO_USB; rack.resources.len()];
    let queued = rack.queue_connect_all(&usb);
    assert_eq!(queued.len(), 1);
    assert_eq!(queued[0].resource, "USB0::B");
}

#[test]
fn addresses_decide_how_they_are_opened() {
    assert_eq!(open_demo_session(InstrumentKind::DebugProbe), SessionPlan::DemoProbe);
    assert_eq!(
        open_live_session("DEMO::X", None, None),
        SessionPlan::DemoScpi(InstrumentKind::Generic)
    );
    assert_eq!(open_live_session("USB0::1", None, Some(true)), SessionPlan::Bridge);
    assert_eq!(open_live_session("USB0::1", None, Some(false)), SessionPlan::Probe);
    assert_eq!(
        open_live_session("TCPIP::1", Some(InstrumentKind::UsbBridge), None),
        SessionPlan::Bridge
    );
    assert_eq!(open_live_session("TCPIP::1", None, None), SessionPlan::Scpi(None));
    assert_eq!(visa_library("  "), None);
    assert_eq!(visa_library("visa64.dll"), Some("visa64.dll".to_string()));
}
