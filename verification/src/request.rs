//! What requests ask for, read from their JSON parameters.
use vstd::prelude::*;

use crate::json::{json_member, Json, JsonView};
use crate::serial::LinesRequest;
use crate::{files, json, text};

verus! {

/// The whole number that a value is, up to the largest one of 64 bits.
pub open spec fn whole_number(value: Option<JsonView>) -> Option<nat> {
    match value {
        Some(JsonView::Number(s)) => text::number_of(s, u64::MAX as nat),
        _ => None,
    }
}

/// The text that a value is.
pub open spec fn text_of(value: Option<JsonView>) -> Option<Seq<char>> {
    match value {
        Some(JsonView::Text(s)) => Some(s),
        _ => None,
    }
}

/// Whether a value is a switch that is on.
pub open spec fn switched_on(value: Option<JsonView>) -> bool {
    value == Some(JsonView::Flag(true))
}

/// The value that names the instrument of a request: the one under `device_id`, or else the one
/// under `id`. A `device_id` that is no number hides the `id`.
pub open spec fn named_device(params: JsonView) -> Option<JsonView> {
    match json::member(params, "device_id"@) {
        Some(value) => Some(value),
        None => json::member(params, "id"@),
    }
}

/// An optional number as a natural one.
pub open spec fn opt_nat(n: Option<u64>) -> Option<nat> {
    match n {
        Some(n) => Some(n as nat),
        None => None,
    }
}

/// The model of an optional value.
pub open spec fn opt_view(value: Option<&Json>) -> Option<JsonView> {
    match value {
        Some(v) => Some(v@),
        None => None,
    }
}

fn number_in(value: Option<&Json>) -> (r: Option<u64>)
    ensures
        opt_nat(r) == whole_number(opt_view(value)),
{
    match value {
        Some(Json::Number(s)) => text::parse_number(s.as_str(), u64::MAX),
        _ => None,
    }
}

/// The whole number under a key of a request.
pub fn request_number(params: &Json, key: &str) -> (r: Option<u64>)
    ensures
        opt_nat(r) == whole_number(json::member(params@, key@)),
{
    number_in(json_member(params, key))
}

/// The instrument of a request.
pub fn request_id(params: &Json) -> (r: Option<u64>)
    ensures
        opt_nat(r) == whole_number(named_device(params@)),
{
    match json_member(params, "device_id") {
        Some(value) => number_in(Some(value)),
        None => number_in(json_member(params, "id")),
    }
}

/// The text under a key of a request.
pub fn request_text(params: &Json, key: &str) -> (r: Option<String>)
    ensures
        files::opt_text(r) == text_of(json::member(params@, key@)),
{
    match json_member(params, key) {
        Some(Json::Text(s)) => Some(s.clone()),
        _ => None,
    }
}

/// The switch under a key of a request; off where it is missing.
pub fn request_switch(params: &Json, key: &str) -> (r: bool)
    ensures
        r == switched_on(json::member(params@, key@)),
{
    match json_member(params, key) {
        Some(Json::Flag(on)) => *on,
        _ => false,
    }
}

/// What a request to the instruments asks for.
pub struct InstrumentRequest {
    /// The number under `device_id`.
    pub device_id: Option<u64>,
    /// The number under `device_id`, or else under `id`.
    pub id: Option<u64>,
    pub overview: bool,
    pub resource: Option<String>,
    pub path: Option<String>,
    pub wait: bool,
    pub dir: Option<String>,
    pub filename: Option<String>,
    pub overwrite: bool,
    pub channel: Option<u64>,
    pub points: Option<u64>,
}

/// Whether a request asks for what its parameters say.
pub open spec fn asks_for(r: InstrumentRequest, params: JsonView) -> bool {
    &&& opt_nat(r.device_id) == whole_number(json::member(params, "device_id"@))
    &&& opt_nat(r.id) == whole_number(named_device(params))
    &&& r.overview == switched_on(json::member(params, "overview"@))
    &&& files::opt_text(r.resource) == text_of(json::member(params, "resource"@))
    &&& files::opt_text(r.path) == text_of(json::member(params, "path"@))
    &&& r.wait == switched_on(json::member(params, "wait"@))
    &&& files::opt_text(r.dir) == text_of(json::member(params, "dir"@))
    &&& files::opt_text(r.filename) == text_of(json::member(params, "filename"@))
    &&& r.overwrite == switched_on(json::member(params, "overwrite"@))
    &&& opt_nat(r.channel) == whole_number(json::member(params, "channel"@))
    &&& opt_nat(r.points) == whole_number(json::member(params, "points"@))
}

/// Reads a request to the instruments.
pub fn instrument_request(params: &Json) -> (r: InstrumentRequest)
    ensures
        asks_for(r, params@),
{
    InstrumentRequest {
        device_id: request_number(params, "device_id"),
        id: request_id(params),
        overview: request_switch(params, "overview"),
        resource: request_text(params, "resource"),
        path: request_text(params, "path"),
        wait: request_switch(params, "wait"),
        dir: request_text(params, "dir"),
        filename: request_text(params, "filename"),
        overwrite: request_switch(params, "overwrite"),
        channel: request_number(params, "channel"),
        points: request_number(params, "points"),
    }
}

/// Whether a request for lines asks for what its parameters say.
pub open spec fn asks_for_lines(r: LinesRequest, params: JsonView) -> bool {
    &&& opt_nat(r.tab_id) == whole_number(json::member(params, "tab_id"@))
    &&& opt_nat(r.from_row) == whole_number(json::member(params, "from_row"@))
    &&& opt_nat(r.limit) == whole_number(json::member(params, "limit"@))
}

/// Reads a request for lines of a log.
pub fn lines_request(params: &Json) -> (r: LinesRequest)
    ensures
        asks_for_lines(r, params@),
{
    LinesRequest {
        tab_id: request_number(params, "tab_id"),
        from_row: request_number(params, "from_row"),
        limit: request_number(params, "limit"),
    }
}

/// Law: numbers are taken from numbers and texts from texts; anything else counts as missing. A
/// switch is on only where it says so.
pub proof fn law_values_are_read_by_their_kind(n: nat, s: Seq<char>, b: bool)
    requires
        n <= u64::MAX,
    ensures
        whole_number(Some(JsonView::Number(text::decimal(n)))) == Some(n),
        whole_number(Some(JsonView::Text(s))) is None,
        whole_number(Some(JsonView::Flag(b))) is None,
        whole_number(None) is None,
        text_of(Some(JsonView::Text(s))) == Some(s),
        text_of(Some(JsonView::Number(s))) is None,
        text_of(None) is None,
        switched_on(Some(JsonView::Flag(b))) == b,
        !switched_on(None),
        !switched_on(Some(JsonView::Text(s))),
        !switched_on(Some(JsonView::Number(s))),
{
    text::law_decimal_reads_back(n, u64::MAX as nat);
}

/// Law: the instrument of a request is the one that `device_id` names; `id` names it only where
/// there is no `device_id`.
pub proof fn law_device_id_comes_before_id(params: JsonView, r: InstrumentRequest)
    requires
        asks_for(r, params),
    ensures
        json::member(params, "device_id"@) is Some ==> r.id == r.device_id,
        json::member(params, "device_id"@) is None ==> r.device_id is None && opt_nat(r.id)
            == whole_number(json::member(params, "id"@)),
{
    assert(opt_nat(r.id) == opt_nat(r.device_id) ==> r.id == r.device_id);
}

/// Law: a request asks for the values under the keys of their names.
pub proof fn law_request_reads_its_keys(
    params: JsonView,
    r: InstrumentRequest,
    lines: LinesRequest,
    s: Seq<char>,
)
    requires
        asks_for(r, params),
        asks_for_lines(lines, params),
    ensures
        json::member(params, "resource"@) == Some(JsonView::Text(s)) ==> r.resource is Some
            && r.resource->0@ == s,
        json::member(params, "path"@) == Some(JsonView::Text(s)) ==> r.path is Some && r.path->0@
            == s,
        json::member(params, "dir"@) == Some(JsonView::Text(s)) ==> r.dir is Some && r.dir->0@
            == s,
        json::member(params, "filename"@) == Some(JsonView::Text(s)) ==> r.filename is Some
            && r.filename->0@ == s,
        r.overview == (json::member(params, "overview"@) == Some(JsonView::Flag(true))),
        r.wait == (json::member(params, "wait"@) == Some(JsonView::Flag(true))),
        r.overwrite == (json::member(params, "overwrite"@) == Some(JsonView::Flag(true))),
        json::member(params, "channel"@) is None ==> r.channel is None,
        json::member(params, "points"@) is None ==> r.points is None,
        json::member(params, "channel"@) == Some(JsonView::Number(s)) ==> opt_nat(r.channel)
            == text::number_of(s, u64::MAX as nat),
        json::member(params, "points"@) == Some(JsonView::Number(s)) ==> opt_nat(r.points)
            == text::number_of(s, u64::MAX as nat),
        json::member(params, "tab_id"@) == Some(JsonView::Number(s)) ==> opt_nat(lines.tab_id)
            == text::number_of(s, u64::MAX as nat),
        json::member(params, "from_row"@) == Some(JsonView::Number(s)) ==> opt_nat(lines.from_row)
            == text::number_of(s, u64::MAX as nat),
        json::member(params, "limit"@) == Some(JsonView::Number(s)) ==> opt_nat(lines.limit)
            == text::number_of(s, u64::MAX as nat),
        json::member(params, "tab_id"@) is None ==> lines.tab_id is None,
        json::member(params, "from_row"@) is None ==> lines.from_row is None,
        json::member(params, "limit"@) is None ==> lines.limit is None,
{
}

} // verus!
