use wiparse_gui::json::{json_member, read_json, Json};
use wiparse_gui::market::{
    active_entries, catalog_channel, catalog_rows, installed_map, metadata_failure,
    pull_arguments, pull_log_line, pull_outcome, stderr_log, uninstall_arguments,
    uninstall_outcome, CatalogRow, HubMode, MarketJob, MarketJobEvent, PluginCatalogEntry,
    PullResult,
};
use wiparse_gui::request::{instrument_request, lines_request, request_id};

fn entry(id: &str) -> PluginCatalogEntry {
    PluginCatalogEntry {
        id: id.to_owned(),
        name: None,
        name_zh: None,
        plugin_type: None,
        publisher: None,
        channel: None,
        latest_version: None,
        description: None,
        versions: None,
    }
}

#[test]
fn hub_opens_on_the_plugins_page() {
    assert_eq!(HubMode::default(), HubMode::Plugins);
}

#[test]
fn catalog_entry_defaults() {
    let row = CatalogRow::from_entry(&entry("a.b"), None);
    assert_eq!(row.name, "a.b");
    assert_eq!(row.plugin_type, "custom");
    assert_eq!(row.channel, "stable");
    assert_eq!(row.latest_version, "0.0.0");
    assert!(!row.installed);
    assert!(!row.has_update());
    let mut e = entry("x");
    e.versions = Some(vec!["2.0".to_owned(), "1.0".to_owned()]);
    let row = CatalogRow::from_entry(&e, Some("1.0".to_owned()));
    assert_eq!(row.latest_version, "2.0");
    assert_eq!(row.versions, vec!["2.0", "1.0"]);
    assert!(row.installed);
    assert!(row.has_update());
    let row = CatalogRow::from_entry(&e, Some("2.0".to_owned()));
    assert!(!row.has_update());
}

#[test]
fn catalog_rows_know_what_is_installed() {
    let installed = vec![
        ("b".to_owned(), "1".to_owned()),
        ("b".to_owned(), "2".to_owned()),
    ];
    let rows = catalog_rows(&vec![entry("a"), entry("b")], &installed);
    assert_eq!(rows.len(), 2);
    assert_eq!(rows[0].installed_version, None);
    assert_eq!(rows[1].installed_version, Some("1".to_owned()));
    assert_eq!(catalog_channel("  ".to_owned()), None);
    assert_eq!(catalog_channel("beta".to_owned()), Some("beta".to_owned()));
}

#[test]
fn job_events_are_read_in_order() {
    let mut job = MarketJob::new();
    assert!(job.poll().is_none());
    job.post(MarketJobEvent::Log("1".to_owned()));
    job.post(MarketJobEvent::CatalogErr("2".to_owned()));
    assert!(matches!(job.poll(), Some(MarketJobEvent::Log(s)) if s == "1"));
    assert!(matches!(job.poll(), Some(MarketJobEvent::CatalogErr(s)) if s == "2"));
    assert!(job.poll().is_none());
}

#[test]
fn tool_arguments() {
    assert_eq!(
        pull_arguments("p", "1", "http://h", "d", "i"),
        vec![
            "pull", "--plugin", "p", "--version", "1", "--url", "http://h", "--data-root", "d",
            "--install-dir", "i", "--json"
        ]
    );
    assert_eq!(
        uninstall_arguments("p", "1", "d", "i"),
        vec![
            "uninstall", "--plugin", "p", "--version", "1", "--data-root", "d", "--install-dir",
            "i", "--json"
        ]
    );
    assert_eq!(pull_log_line("p", "1", "u"), "[marketplace] pull p@1 from u\n");
}

fn pulled(parsed: Option<PullResult>, ok: bool, out: &str, err: &str) -> MarketJobEvent {
    pull_outcome("p".to_owned(), "1".to_owned(), parsed, ok, out.to_owned(), err.to_owned())
}

fn result(ok: bool) -> PullResult {
    PullResult { ok, id: None, version: None, dir: None, error_message: None }
}

#[test]
fn pull_outcomes() {
    assert!(matches!(pulled(Some(result(true)), false, "", ""),
        MarketJobEvent::InstallOk { id, version, dir } if id == "p" && version == "1" && dir.is_empty()));
    let mut r = result(true);
    r.id = Some("q".to_owned());
    r.version = Some("2".to_owned());
    r.dir = Some("/x".to_owned());
    assert!(matches!(pulled(Some(r), false, "", ""),
        MarketJobEvent::InstallOk { id, version, dir } if id == "q" && version == "2" && dir == "/x"));
    assert!(matches!(pulled(Some(result(false)), true, "", ""),
        MarketJobEvent::InstallErr { message, .. } if message == "pull failed"));
    let mut r = result(false);
    r.error_message = Some("no".to_owned());
    assert!(matches!(pulled(Some(r), true, "", ""),
        MarketJobEvent::InstallErr { message, .. } if message == "no"));
    assert!(matches!(pulled(None, true, "x", ""), MarketJobEvent::InstallOk { .. }));
    assert!(matches!(pulled(None, false, " ", "e"),
        MarketJobEvent::InstallErr { message, .. } if message == "e"));
    assert!(matches!(pulled(None, false, "o", "e"),
        MarketJobEvent::InstallErr { message, .. } if message == "o"));
    assert!(matches!(metadata_failure("p".to_owned(), "404"),
        MarketJobEvent::InstallErr { message, .. } if message == "metadata: 404"));
    assert!(stderr_log(" \n").is_none());
    assert!(matches!(stderr_log("w"), Some(MarketJobEvent::Log(s)) if s == "[marketplace] w"));
}

#[test]
fn uninstall_outcomes() {
    let run = |ok, out: &str, err: &str| {
        uninstall_outcome("p".to_owned(), "1".to_owned(), ok, out.to_owned(), err.to_owned())
    };
    assert!(matches!(run(true, "", "x"), MarketJobEvent::UninstallOk { .. }));
    assert!(matches!(run(false, "o", " "),
        MarketJobEvent::UninstallErr { message, .. } if message == "o"));
    assert!(matches!(run(false, "o", "e"),
        MarketJobEvent::UninstallErr { message, .. } if message == "e"));
}

#[test]
fn registry_lists_active_plugins() {
    let text = "{\"plugins\":{\"b\":{\"active\":\"2\"},\"a\":{\"active\":\"1\"},\"c\":{},\"d\":{\"active\":3}}}";
    assert_eq!(
        installed_map(text),
        vec![("a".to_owned(), "1".to_owned()), ("b".to_owned(), "2".to_owned())]
    );
    assert!(installed_map("not json").is_empty());
    assert!(installed_map("{\"plugins\":[]}").is_empty());
    assert!(installed_map("[{\"plugins\":{}}]").is_empty());
}

#[test]
fn registry_values_are_looked_through() {
    let of = |members: Vec<(&str, Json)>| {
        Json::Object(members.into_iter().map(|(k, v)| (k.to_owned(), v)).collect())
    };
    let version = |v: &str| of(vec![("active", Json::Text(v.to_owned()))]);
    let plugins = of(vec![
        ("x", Json::Null),
        ("y", version("1")),
        ("z", of(vec![("active", Json::Number("3".to_owned()))])),
        ("w", Json::List(vec![version("4")])),
        ("v", of(vec![("other", Json::Flag(true)), ("active", Json::Text("5".to_owned()))])),
    ]);
    let registry = of(vec![("format", Json::Number("1".to_owned())), ("plugins", plugins)]);
    assert_eq!(
        active_entries(&registry),
        vec![("y".to_owned(), "1".to_owned()), ("v".to_owned(), "5".to_owned())]
    );
    assert!(matches!(json_member(&registry, "format"), Some(Json::Number(n)) if n == "1"));
    assert!(json_member(&registry, "none").is_none());
    assert!(json_member(&Json::Null, "format").is_none());
    assert!(active_entries(&Json::Null).is_empty());
}

#[test]
fn requests_are_read_from_their_parameters() {
    let params = read_json(
        "{\"device_id\":7,\"id\":8,\"overview\":true,\"path\":\" p\",\"wait\":1,\"channel\":18446744073709551615,\"points\":-1}",
    )
    .unwrap();
    let asked = instrument_request(&params);
    assert_eq!((asked.device_id, asked.id), (Some(7), Some(7)));
    assert!(asked.overview && !asked.wait && !asked.overwrite);
    assert_eq!(asked.path.as_deref(), Some(" p"));
    assert_eq!((asked.resource, asked.dir, asked.filename), (None, None, None));
    assert_eq!((asked.channel, asked.points), (Some(u64::MAX), None));
    let id = |text: &str| request_id(&read_json(text).unwrap());
    assert_eq!(id("{\"id\":8}"), Some(8));
    assert_eq!(id("{\"device_id\":null,\"id\":8}"), None);
    assert_eq!(id("{\"device_id\":\"7\"}"), None);
    assert_eq!(id("{\"id\":1.0}"), None);
    assert_eq!(id("{\"id\":18446744073709551616}"), None);
    assert_eq!(id("[7]"), None);
    let lines = lines_request(&read_json("{\"from_row\":3,\"limit\":\"4\"}").unwrap());
    assert_eq!((lines.tab_id, lines.from_row, lines.limit), (None, Some(3), None));
    assert!(read_json("{").is_none());
}
