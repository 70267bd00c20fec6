use wiparse_gui::lang::Lang;
use wiparse_gui::waveform::{
    auto_saved_name, channel_text, effective_extension, export_extension, export_name,
    hands_on_sheet, join_channels, keeps_parts, manufacturer_is, parse_report, save_formats,
    save_plan, saved_name, scope_waveform_source_tip, second_extension, short_wave_channel_label,
    source_shape, suggested_name, vendor_of, waveform_csv_cell, ChannelFile, SaveFormat, SavePlan,
    SourceShape, Vendor,
};

fn channel(n: u8, ext: &str) -> ChannelFile {
    ChannelFile { channel: n, ext: ext.into() }
}

#[test]
fn cells_with_commas_are_quoted() {
    assert_eq!(waveform_csv_cell("plain"), "plain");
    assert_eq!(waveform_csv_cell("a,b"), "\"a,b\"");
    assert_eq!(waveform_csv_cell("say \"hi\""), "\"say \"\"hi\"\"\"");
}

#[test]
fn makers_are_told_apart_whatever_the_case() {
    assert_eq!(vendor_of("Tektronix"), Vendor::Tektronix);
    assert_eq!(vendor_of("rigol technologies"), Vendor::Rigol);
    assert_eq!(vendor_of("Keysight"), Vendor::Keysight);
    assert_eq!(vendor_of("unknown"), Vendor::Other);
    assert!(manufacturer_is("Rigol Technologies", "RIGOL"));
    assert!(!manufacturer_is("Siglent", "RIGOL"));
    assert_eq!(export_extension(Vendor::Tektronix), "isf");
    assert_eq!(export_extension(Vendor::Rigol), "csv");
    assert!(!scope_waveform_source_tip(Lang::En, Vendor::Other).is_empty());
}

#[test]
fn dialogs_offer_the_received_format_first() {
    assert_eq!(save_formats(Vendor::Tektronix, "isf")[0], SaveFormat::TekIsf);
    assert_eq!(save_formats(Vendor::Tektronix, "wfm")[0], SaveFormat::TekWfm);
    assert_eq!(save_formats(Vendor::Rigol, "csv")[0], SaveFormat::CsvNative);
    assert_eq!(save_formats(Vendor::Other, "csv").last(), Some(&SaveFormat::All));
}

#[test]
fn channels_are_put_together() {
    assert_eq!(source_shape(&Vec::new()), SourceShape::Nothing);
    let one = vec![channel(2, "isf")];
    assert_eq!(source_shape(&one), SourceShape::Single);
    assert_eq!(suggested_name(&one), "waveform_CH2.isf");
    assert!(keeps_parts(&one));
    let joined = vec![channel(1, "isf"), channel(3, "isf")];
    assert_eq!(source_shape(&joined), SourceShape::JoinedIsf);
    assert_eq!(suggested_name(&joined), "waveform_CH1_CH3.isf");
    assert!(!keeps_parts(&joined));
    let sheet = vec![channel(1, "isf"), channel(2, "csv")];
    assert_eq!(source_shape(&sheet), SourceShape::Sheet);
    assert_eq!(suggested_name(&sheet), "waveform_CH1_CH2.csv");
    assert!(hands_on_sheet(&sheet, 2));
    assert!(!hands_on_sheet(&sheet, 0));
    assert_eq!(join_channels(&sheet, "+"), "CH1+CH2");
    assert_eq!(channel_text(4), "CH4");
}

#[test]
fn parse_failures_are_reported() {
    let errors = vec!["CH1: bad".to_string(), "CH2: short".into()];
    assert_eq!(parse_report(0, &errors), Some("CH1: bad; CH2: short".to_string()));
    assert_eq!(
        parse_report(1, &errors),
        Some("partial: CH1: bad; CH2: short".to_string())
    );
    assert_eq!(parse_report(2, &Vec::new()), None);
    assert_eq!(parse_report(0, &Vec::new()), Some(String::new()));
    assert_eq!(second_extension("isf", Some("csv".into())), Some("csv".to_string()));
    assert_eq!(second_extension("isf", Some("isf".into())), None);
    assert_eq!(second_extension("isf", None), None);
}

#[test]
fn several_channels_go_into_one_file() {
    let one = vec![channel(1, "isf")];
    let isf = vec![channel(1, "isf"), channel(2, "isf")];
    let mixed = vec![channel(1, "isf"), channel(2, "csv")];
    assert_eq!(save_plan(Some("CSV".into()), "isf", &one, 1, 9), SavePlan::Native);
    assert_eq!(save_plan(Some("CSV".into()), "isf", &isf, 2, 9), SavePlan::Sheet);
    assert_eq!(save_plan(Some("txt".into()), "isf", &isf, 1, 9), SavePlan::SheetBytes);
    assert_eq!(
        save_plan(Some("wfm".into()), "isf", &isf, 2, 9),
        SavePlan::IsfBytes { renamed: true }
    );
    assert_eq!(save_plan(None, "isf", &isf, 2, 0), SavePlan::IsfJoined { renamed: false });
    assert_eq!(save_plan(Some("bin".into()), "csv", &mixed, 2, 9), SavePlan::SheetBeside);
}

#[test]
fn names_of_waveform_files() {
    assert_eq!(export_name("CH1/MATH:2", "20240102_030405", "csv"), "waveform_CH1_MATH_2_20240102_030405.csv");
    assert_eq!(saved_name("waveform_CH1", "20240102_030405", "isf"), "waveform_CH1_20240102_030405.isf");
    assert_eq!(auto_saved_name(None, "waveform", "isf"), "waveform.isf");
    assert_eq!(auto_saved_name(Some("x.csv".into()), "waveform", "isf"), "x.csv");
    assert_eq!(
        effective_extension(Some("CSV".into()), None, None),
        "csv"
    );
    assert_eq!(effective_extension(Some("CSV".into()), Some("wfm".into()), None), "wfm");
    assert_eq!(
        effective_extension(Some("CSV".into()), None, Some("isf".into())),
        "isf"
    );
    assert_eq!(effective_extension(None, None, None), "isf");
    assert_eq!(short_wave_channel_label("CH1"), "CH1");
}
