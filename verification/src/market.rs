//! Plugin market: catalog rows, install and uninstall jobs.
use vstd::prelude::*;
use vstd::string::*;

use crate::json::{json_member, read_json, Json, JsonView};
use crate::{json, text};

verus! {

/// Which page of the testing hub is open.
#[derive(Debug, Clone, Copy, PartialEq, Eq, Structural)]
pub enum HubMode {
    Plugins,
    Market,
}

impl Default for HubMode {
    fn default() -> (r: Self)
        ensures
            r == HubMode::Plugins,
    {
        HubMode::Plugins
    }
}

/// A plugin as the catalog server describes it.
#[derive(Debug, Clone)]
pub struct PluginCatalogEntry {
    pub id: String,
    pub name: Option<String>,
    pub name_zh: Option<String>,
    pub plugin_type: Option<String>,
    pub publisher: Option<String>,
    pub channel: Option<String>,
    pub latest_version: Option<String>,
    pub description: Option<String>,
    pub versions: Option<Vec<String>>,
}

/// A plugin as the market page lists it.
#[derive(Debug, Clone)]
pub struct CatalogRow {
    pub id: String,
    pub name: String,
    pub name_zh: String,
    pub plugin_type: String,
    pub publisher: String,
    pub channel: String,
    pub latest_version: String,
    pub description: String,
    pub versions: Vec<String>,
    pub installed: bool,
    pub installed_version: Option<String>,
}

/// The text of an optional string, or `default`.
pub open spec fn text_or(s: Option<String>, default: Seq<char>) -> Seq<char> {
    match s {
        Some(v) => v@,
        None => default,
    }
}

/// The texts of a list of strings.
pub open spec fn texts(v: Seq<String>) -> Seq<Seq<char>> {
    Seq::new(v.len(), |i: int| v[i]@)
}

/// The version to offer: the latest one named, else the first one listed, else `0.0.0`.
pub open spec fn offered_version(e: PluginCatalogEntry) -> Seq<char> {
    match e.latest_version {
        Some(v) => v@,
        None => match e.versions {
            Some(list) => if list@.len() > 0 {
                list@[0]@
            } else {
                "0.0.0"@
            },
            None => "0.0.0"@,
        },
    }
}

/// Whether `row` is what the market page shows for `e`.
pub open spec fn shows(row: CatalogRow, e: PluginCatalogEntry, installed: Option<Seq<char>>) -> bool {
    &&& row.id@ == e.id@
    &&& row.name@ == text_or(e.name, e.id@)
    &&& row.name_zh@ == text_or(e.name_zh, Seq::empty())
    &&& row.plugin_type@ == text_or(e.plugin_type, "custom"@)
    &&& row.publisher@ == text_or(e.publisher, Seq::empty())
    &&& row.channel@ == text_or(e.channel, "stable"@)
    &&& row.latest_version@ == offered_version(e)
    &&& row.description@ == text_or(e.description, Seq::empty())
    &&& texts(row.versions@) == match e.versions {
        Some(list) => texts(list@),
        None => Seq::empty(),
    }
    &&& row.installed == (installed is Some)
    &&& match (row.installed_version, installed) {
        (Some(v), Some(w)) => v@ == w,
        (None, None) => true,
        _ => false,
    }
}

/// Whether a row offers an update: a version is installed, and another one is named.
pub open spec fn offers_update(row: CatalogRow) -> bool {
    row.installed_version matches Some(v) && row.latest_version@.len() > 0 && v@
        != row.latest_version@
}

/// The view of an optional string.
pub open spec fn opt_text(s: Option<String>) -> Option<Seq<char>> {
    match s {
        Some(v) => Some(v@),
        None => None,
    }
}

fn or_default(s: &Option<String>, default: &str) -> (r: String)
    ensures
        r@ == text_or(*s, default@),
{
    match s {
        Some(v) => v.clone(),
        None => default.to_owned(),
    }
}

fn clone_list(v: &Vec<String>) -> (r: Vec<String>)
    ensures
        texts(r@) == texts(v@),
{
    let mut r: Vec<String> = Vec::new();
    let mut i: usize = 0;
    while i < v.len()
        invariant
            i <= v@.len(),
            r@.len() == i,
            forall|j: int| 0 <= j < i ==> (#[trigger] r@[j])@ == v@[j]@,
        decreases v@.len() - i,
    {
        r.push(v[i].clone());
        i = i + 1;
    }
    assert(texts(r@) =~= texts(v@));
    r
}

impl CatalogRow {
    /// The row for a catalog entry and the version that is installed, if any.
    pub fn from_entry(e: &PluginCatalogEntry, installed_version: Option<String>) -> (r: Self)
        ensures
            shows(r, *e, opt_text(installed_version)),
    {
        proof {
            reveal_strlit("");
            assert(""@ =~= Seq::<char>::empty());
        }
        let latest = match &e.latest_version {
            Some(v) => v.clone(),
            None => match &e.versions {
                Some(list) => if list.len() > 0 {
                    list[0].clone()
                } else {
                    "0.0.0".to_owned()
                },
                None => "0.0.0".to_owned(),
            },
        };
        let versions = match &e.versions {
            Some(list) => clone_list(list),
            None => {
                let none: Vec<String> = Vec::new();
                assert(texts(none@) =~= Seq::<Seq<char>>::empty());
                none
            },
        };
        CatalogRow {
            id: e.id.clone(),
            name: or_default(&e.name, e.id.as_str()),
            name_zh: or_default(&e.name_zh, ""),
            plugin_type: or_default(&e.plugin_type, "custom"),
            publisher: or_default(&e.publisher, ""),
            channel: or_default(&e.channel, "stable"),
            latest_version: latest,
            description: or_default(&e.description, ""),
            versions,
            installed: installed_version.is_some(),
            installed_version,
        }
    }

    /// Whether another version than the installed one is offered.
    pub fn has_update(&self) -> (r: bool)
        ensures
            r == offers_update(*self),
    {
        match &self.installed_version {
            Some(v) => !self.latest_version.as_str().is_empty() && !text::same_text(
                v.as_str(),
                self.latest_version.as_str(),
            ),
            None => false,
        }
    }
}

/// What a market job reports.
#[derive(Debug)]
pub enum MarketJobEvent {
    CatalogOk(Vec<CatalogRow>),
    CatalogErr(String),
    InstallOk { id: String, version: String, dir: String },
    InstallErr { id: String, message: String },
    UninstallOk { id: String, version: String },
    UninstallErr { id: String, message: String },
    Log(String),
}

/// A running market job: the events that it has reported and that were not read yet.
pub struct MarketJob {
    pub pending: Vec<MarketJobEvent>,
}

impl MarketJob {
    /// A job that has reported nothing.
    pub fn new() -> (r: Self)
        ensures
            r.pending@ == Seq::<MarketJobEvent>::empty(),
    {
        MarketJob { pending: Vec::new() }
    }

    /// Notes an event of the job.
    pub fn post(&mut self, event: MarketJobEvent)
        ensures
            final(self).pending@ == old(self).pending@.push(event),
    {
        self.pending.push(event);
    }

    /// Reads the oldest event that was not read yet.
    pub fn poll(&mut self) -> (r: Option<MarketJobEvent>)
        ensures
            match r {
                Some(event) => old(self).pending@.len() > 0 && event == old(self).pending@[0]
                    && final(self).pending@ == old(self).pending@.drop_first(),
                None => old(self).pending@.len() == 0 && *final(self) == *old(self),
            },
    {
        if self.pending.len() == 0 {
            None
        } else {
            let event = self.pending.remove(0);
            assert(self.pending@ =~= old(self).pending@.drop_first());
            Some(event)
        }
    }
}

// ---------------------------------------------------------------------------
// Catalog
// ---------------------------------------------------------------------------

/// The channel to ask the catalog for, as a text.
pub open spec fn asked_channel(channel: Seq<char>) -> Option<Seq<char>> {
    if text::trimmed(channel).len() == 0 {
        None
    } else {
        Some(channel)
    }
}

/// The channel to ask the catalog for: none when the box is blank.
pub fn catalog_channel(channel: String) -> (r: Option<String>)
    ensures
        r == if text::trimmed(channel@).len() == 0 {
            None
        } else {
            Some(channel)
        },
        opt_text(r) == asked_channel(channel@),
{
    if text::is_blank(channel.as_str()) {
        None
    } else {
        Some(channel)
    }
}

/// The version that the first entry for `id` from index `i` on names.
pub open spec fn installed_version_of(
    installed: Seq<(String, String)>,
    id: Seq<char>,
    i: int,
) -> Option<Seq<char>>
    decreases installed.len() - i,
{
    if i < 0 || i >= installed.len() {
        None
    } else if installed[i].0@ == id {
        Some(installed[i].1@)
    } else {
        installed_version_of(installed, id, i + 1)
    }
}

fn find_installed(installed: &Vec<(String, String)>, id: &str) -> (r: Option<String>)
    ensures
        opt_text(r) == installed_version_of(installed@, id@, 0),
{
    let mut i: usize = 0;
    while i < installed.len()
        invariant
            i <= installed@.len(),
            installed_version_of(installed@, id@, 0) == installed_version_of(
                installed@,
                id@,
                i as int,
            ),
        decreases installed@.len() - i,
    {
        if text::same_text(installed[i].0.as_str(), id) {
            return Some(installed[i].1.clone());
        }
        i = i + 1;
    }
    None
}

/// The rows of the market page: one per catalog entry, in order.
pub fn catalog_rows(
    entries: &Vec<PluginCatalogEntry>,
    installed: &Vec<(String, String)>,
) -> (rows: Vec<CatalogRow>)
    ensures
        rows@.len() == entries@.len(),
        forall|i: int|
            0 <= i < entries@.len() ==> shows(
                #[trigger] rows@[i],
                entries@[i],
                installed_version_of(installed@, entries@[i].id@, 0),
            ),
{
    let mut rows: Vec<CatalogRow> = Vec::new();
    let mut i: usize = 0;
    while i < entries.len()
        invariant
            i <= entries@.len(),
            rows@.len() == i,
            forall|j: int|
                0 <= j < i ==> shows(
                    #[trigger] rows@[j],
                    entries@[j],
                    installed_version_of(installed@, entries@[j].id@, 0),
                ),
        decreases entries@.len() - i,
    {
        let version = find_installed(installed, entries[i].id.as_str());
        rows.push(CatalogRow::from_entry(&entries[i], version));
        i = i + 1;
    }
    rows
}

/// Law: a row offers an update exactly if a version of the plugin is installed and the catalog
/// names another one. Without an installed version there is no update, nor when the installed
/// version is the offered one.
pub proof fn law_update_needs_another_version(
    row: CatalogRow,
    e: PluginCatalogEntry,
    installed: Option<Seq<char>>,
)
    requires
        shows(row, e, installed),
    ensures
        offers_update(row) == (installed matches Some(v) && offered_version(e).len() > 0 && v
            != offered_version(e)),
        !row.installed ==> !offers_update(row),
        installed == Some(offered_version(e)) ==> !offers_update(row),
{
}

// ---------------------------------------------------------------------------
// Install and uninstall
// ---------------------------------------------------------------------------

/// Command line of the pull tool, after the interpreter and the script.
pub open spec fn pull_command(
    id: Seq<char>,
    version: Seq<char>,
    url: Seq<char>,
    data_root: Seq<char>,
    install_dir: Seq<char>,
) -> Seq<Seq<char>> {
    seq![
        "pull"@,
        "--plugin"@,
        id,
        "--version"@,
        version,
        "--url"@,
        url,
        "--data-root"@,
        data_root,
        "--install-dir"@,
        install_dir,
        "--json"@,
    ]
}

/// Command line of the uninstall tool, after the interpreter and the script.
pub open spec fn uninstall_command(
    id: Seq<char>,
    version: Seq<char>,
    data_root: Seq<char>,
    install_dir: Seq<char>,
) -> Seq<Seq<char>> {
    seq![
        "uninstall"@,
        "--plugin"@,
        id,
        "--version"@,
        version,
        "--data-root"@,
        data_root,
        "--install-dir"@,
        install_dir,
        "--json"@,
    ]
}

/// The arguments of a pull.
pub fn pull_arguments(
    plugin_id: &str,
    version: &str,
    base_url: &str,
    data_root: &str,
    install_dir: &str,
) -> (r: Vec<String>)
    ensures
        texts(r@) == pull_command(plugin_id@, version@, base_url@, data_root@, install_dir@),
{
    let mut r: Vec<String> = Vec::new();
    r.push("pull".to_owned());
    r.push("--plugin".to_owned());
    r.push(plugin_id.to_owned());
    r.push("--version".to_owned());
    r.push(version.to_owned());
    r.push("--url".to_owned());
    r.push(base_url.to_owned());
    r.push("--data-root".to_owned());
    r.push(data_root.to_owned());
    r.push("--install-dir".to_owned());
    r.push(install_dir.to_owned());
    r.push("--json".to_owned());
    assert(texts(r@) =~= pull_command(
        plugin_id@,
        version@,
        base_url@,
        data_root@,
        install_dir@,
    ));
    r
}

/// The arguments of an uninstall.
pub fn uninstall_arguments(
    plugin_id: &str,
    version: &str,
    data_root: &str,
    install_dir: &str,
) -> (r: Vec<String>)
    ensures
        texts(r@) == uninstall_command(plugin_id@, version@, data_root@, install_dir@),
{
    let mut r: Vec<String> = Vec::new();
    r.push("uninstall".to_owned());
    r.push("--plugin".to_owned());
    r.push(plugin_id.to_owned());
    r.push("--version".to_owned());
    r.push(version.to_owned());
    r.push("--data-root".to_owned());
    r.push(data_root.to_owned());
    r.push("--install-dir".to_owned());
    r.push(install_dir.to_owned());
    r.push("--json".to_owned());
    assert(texts(r@) =~= uninstall_command(plugin_id@, version@, data_root@, install_dir@));
    r
}

/// The log line that opens a pull, as a text.
pub open spec fn pull_line(id: Seq<char>, version: Seq<char>, url: Seq<char>) -> Seq<char> {
    "[marketplace] pull "@ + id + "@"@ + version + " from "@ + url + "\n"@
}

/// The log line that opens a pull.
pub fn pull_log_line(plugin_id: &str, version: &str, base_url: &str) -> (r: String)
    ensures
        r@ == pull_line(plugin_id@, version@, base_url@),
{
    let mut r = "[marketplace] pull ".to_owned();
    r.append(plugin_id);
    r.append("@");
    r.append(version);
    r.append(" from ");
    r.append(base_url);
    r.append("\n");
    r
}

/// The event for a version whose metadata could not be had.
pub fn metadata_failure(plugin_id: String, reason: &str) -> (r: MarketJobEvent)
    ensures
        r matches MarketJobEvent::InstallErr { id, message } && id == plugin_id && message@
            == "metadata: "@ + reason@,
{
    MarketJobEvent::InstallErr { id: plugin_id, message: text::join2("metadata: ", reason) }
}

/// What the pull tool printed on its standard output.
pub struct PullResult {
    pub ok: bool,
    pub id: Option<String>,
    pub version: Option<String>,
    pub dir: Option<String>,
    /// The `message` of its error object.
    pub error_message: Option<String>,
}

/// Whether an event logs what a tool printed on its error stream.
pub open spec fn logs_errors(r: Option<MarketJobEvent>, stderr: Seq<char>) -> bool {
    match r {
        Some(MarketJobEvent::Log(line)) => text::trimmed(stderr).len() > 0 && line@
            == "[marketplace] "@ + stderr,
        Some(_) => false,
        None => text::trimmed(stderr).len() == 0,
    }
}

/// Whether an event ends a pull.
pub open spec fn ends_pull(
    r: MarketJobEvent,
    plugin_id: String,
    version: String,
    parsed: Option<PullResult>,
    exit_ok: bool,
    stdout: String,
    stderr: String,
) -> bool {
    match parsed {
        Some(p) => if p.ok {
            r matches MarketJobEvent::InstallOk { id, version: v, dir } && id@ == text_or(
                p.id,
                plugin_id@,
            ) && v@ == text_or(p.version, version@) && dir@ == text_or(p.dir, Seq::empty())
        } else {
            r matches MarketJobEvent::InstallErr { id, message } && id == plugin_id && message@
                == text_or(p.error_message, "pull failed"@)
        },
        None => if exit_ok {
            r matches MarketJobEvent::InstallOk { id, version: v, dir } && id == plugin_id && v
                == version && dir@ == Seq::<char>::empty()
        } else {
            r matches MarketJobEvent::InstallErr { id, message } && id == plugin_id && message
                == if text::trimmed(stdout@).len() == 0 {
                stderr
            } else {
                stdout
            }
        },
    }
}

/// Whether an event ends an uninstall.
pub open spec fn ends_uninstall(
    r: MarketJobEvent,
    plugin_id: String,
    version: String,
    exit_ok: bool,
    stdout: String,
    stderr: String,
) -> bool {
    if exit_ok {
        r matches MarketJobEvent::UninstallOk { id, version: v } && id == plugin_id && v == version
    } else {
        r matches MarketJobEvent::UninstallErr { id, message } && id == plugin_id && message
            == if text::trimmed(stderr@).len() == 0 {
            stdout
        } else {
            stderr
        }
    }
}

/// The log entry for what a tool printed on its error stream; none for blank output.
pub fn stderr_log(stderr: &str) -> (r: Option<MarketJobEvent>)
    ensures
        logs_errors(r, stderr@),
{
    if text::is_blank(stderr) {
        None
    } else {
        Some(MarketJobEvent::Log(text::join2("[marketplace] ", stderr)))
    }
}

/// The event that ends a pull whose tool ran. The printed result decides; without one the exit
/// status does, and the message of a failure is what was printed.
pub fn pull_outcome(
    plugin_id: String,
    version: String,
    parsed: Option<PullResult>,
    exit_ok: bool,
    stdout: String,
    stderr: String,
) -> (r: MarketJobEvent)
    ensures
        ends_pull(r, plugin_id, version, parsed, exit_ok, stdout, stderr),
{
    match parsed {
        Some(p) => if p.ok {
            MarketJobEvent::InstallOk {
                id: match p.id {
                    Some(id) => id,
                    None => plugin_id,
                },
                version: match p.version {
                    Some(v) => v,
                    None => version,
                },
                dir: match p.dir {
                    Some(dir) => dir,
                    None => String::new(),
                },
            }
        } else {
            MarketJobEvent::InstallErr {
                id: plugin_id,
                message: match p.error_message {
                    Some(message) => message,
                    None => "pull failed".to_owned(),
                },
            }
        },
        None => if exit_ok {
            MarketJobEvent::InstallOk { id: plugin_id, version, dir: String::new() }
        } else {
            let message = if text::is_blank(stdout.as_str()) {
                stderr
            } else {
                stdout
            };
            MarketJobEvent::InstallErr { id: plugin_id, message }
        },
    }
}

/// The event that ends an uninstall whose tool ran: the error stream, or else the output, is
/// the message of a failure.
pub fn uninstall_outcome(
    plugin_id: String,
    version: String,
    exit_ok: bool,
    stdout: String,
    stderr: String,
) -> (r: MarketJobEvent)
    ensures
        ends_uninstall(r, plugin_id, version, exit_ok, stdout, stderr),
{
    if exit_ok {
        MarketJobEvent::UninstallOk { id: plugin_id, version }
    } else {
        let message = if text::is_blank(stderr.as_str()) {
            stdout
        } else {
            stderr
        };
        MarketJobEvent::UninstallErr { id: plugin_id, message }
    }
}

// ---------------------------------------------------------------------------
// Registry of installed plugins
// ---------------------------------------------------------------------------

/// The first `n` members whose value has a text under `field`, each with that text.
pub open spec fn fields_of(
    members: Seq<(Seq<char>, JsonView)>,
    field: Seq<char>,
    n: int,
) -> Seq<(Seq<char>, Seq<char>)>
    decreases n,
{
    if n <= 0 {
        Seq::empty()
    } else {
        let front = fields_of(members, field, n - 1);
        match json::member(members[n - 1].1, field) {
            Some(JsonView::Text(s)) => front.push((members[n - 1].0, s)),
            _ => front,
        }
    }
}

/// The plugins that a registry names as active, with their versions.
pub open spec fn active_plugins(registry: JsonView) -> Seq<(Seq<char>, Seq<char>)> {
    match json::member(registry, "plugins"@) {
        Some(JsonView::Object(members)) => fields_of(members, "active"@, members.len() as int),
        _ => Seq::empty(),
    }
}

/// Pairs as their texts.
pub open spec fn pair_texts(pairs: Seq<(String, String)>) -> Seq<(Seq<char>, Seq<char>)> {
    Seq::new(pairs.len(), |i: int| (pairs[i].0@, pairs[i].1@))
}

/// The plugins that a registry names as active, with their versions.
pub fn active_entries(registry: &Json) -> (r: Vec<(String, String)>)
    ensures
        pair_texts(r@) == active_plugins(registry@),
{
    let mut r: Vec<(String, String)> = Vec::new();
    assert(pair_texts(r@) =~= Seq::empty());
    let plugins = match json_member(registry, "plugins") {
        Some(plugins) => plugins,
        None => {
            return r;
        },
    };
    match plugins {
        Json::Object(members) => {
            let ghost all = plugins@->Object_0;
            let mut i: usize = 0;
            while i < members.len()
                invariant
                    i <= members@.len(),
                    all.len() == members@.len(),
                    forall|k: int|
                        0 <= k < members@.len() ==> #[trigger] all[k] == (
                            members@[k].0@,
                            members@[k].1@,
                        ),
                    pair_texts(r@) == fields_of(all, "active"@, i as int),
                decreases members@.len() - i,
            {
                let ghost before = pair_texts(r@);
                assert(all[i as int] == (members@[i as int].0@, members@[i as int].1@));
                match json_member(&members[i].1, "active") {
                    Some(Json::Text(version)) => {
                        r.push((members[i].0.clone(), version.clone()));
                        assert(pair_texts(r@) =~= before.push(
                            (members@[i as int].0@, version@),
                        ));
                    },
                    _ => {},
                }
                i = i + 1;
            }
        },
        _ => {},
    }
    r
}

/// The plugins that a registry text names as active, with their versions; none when the text
/// cannot be read.
pub fn installed_map(registry: &str) -> (r: Vec<(String, String)>)
    ensures
        pair_texts(r@) == match json::parsed_json(registry@) {
            Some(value) => active_plugins(value),
            None => Seq::empty(),
        },
{
    match read_json(registry) {
        Some(json) => active_entries(&json),
        None => {
            let none: Vec<(String, String)> = Vec::new();
            assert(pair_texts(none@) =~= Seq::empty());
            none
        },
    }
}

// ---------------------------------------------------------------------------
// What holds of the market
// ---------------------------------------------------------------------------

/// Law: the version that is offered is the latest one where the catalog names it, else the first
/// that it lists, and `0.0.0` only where it knows none.
pub proof fn law_latest_version_is_offered(e: PluginCatalogEntry)
    ensures
        e.latest_version is Some ==> offered_version(e) == e.latest_version->0@,
        e.latest_version is None && e.versions is Some && e.versions->0@.len() > 0
            ==> offered_version(e) == e.versions->0@[0]@,
        e.latest_version is None && (e.versions is None || e.versions->0@.len() == 0)
            ==> offered_version(e) == "0.0.0"@,
{
}

/// Law: a row shows its entry: every text that the entry has, the name of the plugin being its
/// number where it has none, its kind `custom` and its channel `stable` where they are not said.
/// It is marked installed just where a version is.
pub proof fn law_row_shows_its_entry(
    row: CatalogRow,
    e: PluginCatalogEntry,
    installed: Option<Seq<char>>,
)
    requires
        shows(row, e, installed),
    ensures
        row.id@ == e.id@,
        e.name is Some ==> row.name@ == e.name->0@,
        e.name is None ==> row.name@ == e.id@,
        e.name_zh is Some ==> row.name_zh@ == e.name_zh->0@,
        e.plugin_type is Some ==> row.plugin_type@ == e.plugin_type->0@,
        e.plugin_type is None ==> row.plugin_type@ == "custom"@,
        e.publisher is Some ==> row.publisher@ == e.publisher->0@,
        e.channel is Some ==> row.channel@ == e.channel->0@,
        e.channel is None ==> row.channel@ == "stable"@,
        e.description is Some ==> row.description@ == e.description->0@,
        e.versions is Some ==> row.versions@.len() == e.versions->0@.len(),
        row.installed <==> installed is Some,
        installed is Some ==> row.installed_version is Some && row.installed_version->0@
            == installed->0,
        installed is None ==> row.installed_version is None,
{
    if e.versions is Some {
        assert(texts(row.versions@).len() == texts(e.versions->0@).len());
    }
}

/// Law: an update is another version than the installed one, by its text.
pub proof fn law_update_is_another_version(row: CatalogRow)
    ensures
        offers_update(row) ==> row.installed_version is Some && row.installed_version->0@
            != row.latest_version@,
        row.installed_version is Some && row.installed_version->0@ != row.latest_version@
            && row.latest_version@.len() > 0 ==> offers_update(row),
        row.installed_version is None ==> !offers_update(row),
        row.latest_version@.len() == 0 ==> !offers_update(row),
{
}

/// Law: a plugin counts as installed just where the list names it, in the version that its first
/// entry says.
pub proof fn law_installed_version_is_the_listed_one(
    installed: Seq<(String, String)>,
    id: Seq<char>,
)
    ensures
        match installed_version_of(installed, id, 0) {
            Some(version) => exists|k: int|
                {
                    &&& 0 <= k < installed.len()
                    &&& (#[trigger] installed[k]).0@ == id
                    &&& installed[k].1@ == version
                    &&& forall|j: int| 0 <= j < k ==> (#[trigger] installed[j]).0@ != id
                },
            None => forall|k: int| 0 <= k < installed.len() ==> (#[trigger] installed[k]).0@ != id,
        },
{
    lemma_installed_version(installed, id, 0);
}

proof fn lemma_installed_version(installed: Seq<(String, String)>, id: Seq<char>, i: int)
    requires
        0 <= i <= installed.len(),
        forall|j: int| 0 <= j < i ==> (#[trigger] installed[j]).0@ != id,
    ensures
        match installed_version_of(installed, id, i) {
            Some(version) => exists|k: int|
                {
                    &&& 0 <= k < installed.len()
                    &&& (#[trigger] installed[k]).0@ == id
                    &&& installed[k].1@ == version
                    &&& forall|j: int| 0 <= j < k ==> (#[trigger] installed[j]).0@ != id
                },
            None => forall|k: int| 0 <= k < installed.len() ==> (#[trigger] installed[k]).0@ != id,
        },
    decreases installed.len() - i,
{
    if i < installed.len() && installed[i].0@ != id {
        lemma_installed_version(installed, id, i + 1);
    }
}

/// Law: a blank channel asks for every channel; any other is asked for as it was typed.
pub proof fn law_blank_channel_asks_for_all(channel: Seq<char>)
    ensures
        text::trimmed(channel).len() == 0 <==> asked_channel(channel) is None,
        asked_channel(channel) is Some ==> asked_channel(channel)->0 == channel,
{
}

/// Law: a command line names its task first and answers in JSON; each value stands behind its
/// switch.
pub proof fn law_values_stand_behind_their_switches(
    id: Seq<char>,
    version: Seq<char>,
    url: Seq<char>,
    data_root: Seq<char>,
    install_dir: Seq<char>,
)
    ensures
        ({
            let c = pull_command(id, version, url, data_root, install_dir);
            &&& c.len() == 12 && c[0] == "pull"@ && c.last() == "--json"@
            &&& c[1] == "--plugin"@ && c[2] == id
            &&& c[3] == "--version"@ && c[4] == version
            &&& c[5] == "--url"@ && c[6] == url
            &&& c[7] == "--data-root"@ && c[8] == data_root
            &&& c[9] == "--install-dir"@ && c[10] == install_dir
        }),
        ({
            let c = uninstall_command(id, version, data_root, install_dir);
            &&& c.len() == 10 && c[0] == "uninstall"@ && c.last() == "--json"@
            &&& c[1] == "--plugin"@ && c[2] == id
            &&& c[3] == "--version"@ && c[4] == version
            &&& c[5] == "--data-root"@ && c[6] == data_root
            &&& c[7] == "--install-dir"@ && c[8] == install_dir
        }),
{
}

/// Law: the log tells which plugin is pulled, in which version and from where, on one line; and
/// what a tool printed as errors follows unchanged behind its mark, unless it is blank.
pub proof fn law_market_log(
    id: Seq<char>,
    version: Seq<char>,
    url: Seq<char>,
    event: MarketJobEvent,
    stderr: Seq<char>,
)
    ensures
        pull_line(id, version, url).last() == '\n',
        pull_line(id, version, url).len() == 19 + id.len() + 1 + version.len() + 6 + url.len() + 1,
        "[marketplace] pull "@.is_prefix_of(pull_line(id, version, url)),
        pull_line(id, version, url).subrange(19, 19 + id.len() as int) == id,
        pull_line(id, version, url).subrange(
            20 + id.len() as int,
            20 + id.len() + version.len() as int,
        ) == version,
        pull_line(id, version, url).subrange(
            26 + id.len() + version.len() as int,
            26 + id.len() + version.len() + url.len() as int,
        ) == url,
        logs_errors(Some(event), stderr) ==> event is Log && stderr.is_suffix_of(event->Log_0@)
            && "[marketplace] "@.is_prefix_of(event->Log_0@) && text::trimmed(stderr).len() > 0,
        logs_errors(None, stderr) <==> text::trimmed(stderr).len() == 0,
{
    reveal_strlit("[marketplace] pull ");
    reveal_strlit("@");
    reveal_strlit(" from ");
    reveal_strlit("\n");
    let r = pull_line(id, version, url);
    assert(r.subrange(19, 19 + id.len() as int) =~= id);
    assert(r.subrange(20 + id.len() as int, 20 + id.len() + version.len() as int) =~= version);
    assert(r.subrange(
        26 + id.len() + version.len() as int,
        26 + id.len() + version.len() + url.len() as int,
    ) =~= url);
}

/// Law: a pull succeeds where its tool says so, whatever it exited with; a tool that said nothing
/// that can be read is judged by how it exited. A failure names the plugin that was asked for.
pub proof fn law_tool_decides_over_its_pull(
    r: MarketJobEvent,
    plugin_id: String,
    version: String,
    parsed: Option<PullResult>,
    exit_ok: bool,
    stdout: String,
    stderr: String,
)
    requires
        ends_pull(r, plugin_id, version, parsed, exit_ok, stdout, stderr),
    ensures
        parsed is Some ==> (r is InstallOk <==> parsed->0.ok),
        parsed is None ==> (r is InstallOk <==> exit_ok),
        r is InstallOk || r is InstallErr,
        r is InstallErr ==> r->InstallErr_id == plugin_id,
        r is InstallErr && parsed is Some && parsed->0.error_message is Some
            ==> r->InstallErr_message@ == parsed->0.error_message->0@,
        r is InstallErr && parsed is None && text::trimmed(stdout@).len() > 0
            ==> r->InstallErr_message == stdout,
        r is InstallErr && parsed is None && text::trimmed(stdout@).len() == 0
            ==> r->InstallErr_message == stderr,
        r is InstallOk && parsed is None ==> r->InstallOk_id == plugin_id && r->InstallOk_version
            == version,
        r is InstallOk && parsed is Some && parsed->0.id is None ==> r->InstallOk_id@
            == plugin_id@,
        r is InstallOk && parsed is Some && parsed->0.version is Some ==> r->InstallOk_version@
            == parsed->0.version->0@,
        r is InstallOk && parsed is Some && parsed->0.dir is Some ==> r->dir@
            == parsed->0.dir->0@,
{
}

/// Law: an uninstall succeeds where its tool exits well; a failure tells what the tool printed,
/// its errors before its output.
pub proof fn law_exit_decides_over_an_uninstall(
    r: MarketJobEvent,
    plugin_id: String,
    version: String,
    exit_ok: bool,
    stdout: String,
    stderr: String,
)
    requires
        ends_uninstall(r, plugin_id, version, exit_ok, stdout, stderr),
    ensures
        r is UninstallOk <==> exit_ok,
        r is UninstallErr <==> !exit_ok,
        r is UninstallOk ==> r->UninstallOk_id == plugin_id && r->UninstallOk_version == version,
        r is UninstallErr ==> r->UninstallErr_id == plugin_id,
        r is UninstallErr && text::trimmed(stderr@).len() > 0 ==> r->UninstallErr_message
            == stderr,
        r is UninstallErr && text::trimmed(stderr@).len() == 0 ==> r->UninstallErr_message
            == stdout,
{
}

/// Law: a registry names a plugin as active by a text under `active`; each such member of
/// `plugins` is listed with that text, in order, and nothing else is.
pub proof fn law_registry_lists_active_plugins(
    members: Seq<(Seq<char>, JsonView)>,
    name: Seq<char>,
    value: JsonView,
)
    ensures
        ({
            let all = fields_of(members.push((name, value)), "active"@, members.len() as int + 1);
            let front = fields_of(members, "active"@, members.len() as int);
            match json::member(value, "active"@) {
                Some(JsonView::Text(version)) => all == front.push((name, version)),
                _ => all == front,
            }
        }),
        forall|registry: JsonView|
            json::member(registry, "plugins"@) == Some(JsonView::Object(members))
                ==> #[trigger] active_plugins(registry) == fields_of(
                members,
                "active"@,
                members.len() as int,
            ),
        fields_of(Seq::empty(), "active"@, 0).len() == 0,
{
    lemma_fields_of_prefix(members, members.push((name, value)), "active"@, members.len() as int);
}

proof fn lemma_fields_of_prefix(
    a: Seq<(Seq<char>, JsonView)>,
    b: Seq<(Seq<char>, JsonView)>,
    field: Seq<char>,
    n: int,
)
    requires
        0 <= n <= a.len(),
        n <= b.len(),
        forall|i: int| 0 <= i < n ==> #[trigger] a[i] == b[i],
    ensures
        fields_of(a, field, n) == fields_of(b, field, n),
    decreases n,
{
    if n > 0 {
        lemma_fields_of_prefix(a, b, field, n - 1);
        assert(a[n - 1] == b[n - 1]);
    }
}

} // verus!
