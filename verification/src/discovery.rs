//! Finding and connecting instruments.
use vstd::prelude::*;
use vstd::string::*;

use crate::instrument::{InstrumentKind, CARD_COUNT};
use crate::rack::{DeviceUi, Identity, Rack, ResourceInfo};
use crate::{browser, instrument, rack, search, text};

verus! {

// ---------------------------------------------------------------------------
// What a scan found
// ---------------------------------------------------------------------------

/// The first address from place `i` on that is the given one.
pub open spec fn address_at(list: Seq<ResourceInfo>, address: Seq<char>, i: int) -> Option<int>
    decreases list.len() - i,
{
    if i < 0 || i >= list.len() {
        None
    } else if list[i].address@ == address {
        Some(i)
    } else {
        address_at(list, address, i + 1)
    }
}

/// A list with an address added, or replaced where it is there already.
pub open spec fn merged_one(list: Seq<ResourceInfo>, found: ResourceInfo) -> Seq<ResourceInfo> {
    match address_at(list, found.address@, 0) {
        Some(i) => list.update(i, found),
        None => list.push(found),
    }
}

/// A list with the first `n` found addresses merged in, in turn.
pub open spec fn merged(list: Seq<ResourceInfo>, found: Seq<ResourceInfo>, n: int) -> Seq<
    ResourceInfo,
>
    decreases n,
{
    if n <= 0 {
        list
    } else {
        merged_one(merged(list, found, n - 1), found[n - 1])
    }
}

/// What an address is sorted by: the rank of its kind, then the address itself.
pub open spec fn resource_key(r: ResourceInfo) -> Seq<char> {
    seq![text::digit_char(instrument::kind_rank(r.kind) as nat)] + r.address@
}

/// What addresses are sorted by.
pub open spec fn resource_keys(list: Seq<ResourceInfo>) -> Seq<Seq<char>> {
    list.map_values(|r: ResourceInfo| resource_key(r))
}

/// Whether `sorted` are the addresses of `list` by kind and address.
pub open spec fn sorted_from(sorted: Seq<ResourceInfo>, list: Seq<ResourceInfo>) -> bool {
    &&& sorted.len() == list.len()
    &&& exists|order: Seq<usize>|
        {
            &&& #[trigger] browser::is_order(order, resource_keys(list), list.len() as int)
            &&& forall|k: int|
                0 <= k < list.len() ==> #[trigger] sorted[k] == list[order[k] as int]
        }
}

fn clone_identity(id: &Identity) -> (r: Identity)
    ensures
        r == *id,
{
    Identity {
        manufacturer: id.manufacturer.clone(),
        model: id.model.clone(),
        serial: id.serial.clone(),
        firmware: id.firmware.clone(),
        raw: id.raw.clone(),
    }
}

fn clone_resource(r: &ResourceInfo) -> (c: ResourceInfo)
    ensures
        c == *r,
{
    let identity = match &r.identity {
        Some(id) => Some(clone_identity(id)),
        None => None,
    };
    let probe_error = match &r.probe_error {
        Some(e) => Some(e.clone()),
        None => None,
    };
    ResourceInfo {
        address: r.address.clone(),
        transport: r.transport.clone(),
        kind: r.kind,
        identity,
        probe_error,
    }
}

fn find_address(list: &Vec<ResourceInfo>, address: &str) -> (r: Option<usize>)
    ensures
        match r {
            Some(i) => address_at(list@, address@, 0) == Some(i as int) && i < list@.len(),
            None => address_at(list@, address@, 0) is None,
        },
{
    let mut i: usize = 0;
    while i < list.len()
        invariant
            i <= list@.len(),
            address_at(list@, address@, 0) == address_at(list@, address@, i as int),
        decreases list@.len() - i,
    {
        if text::same_text(list[i].address.as_str(), address) {
            return Some(i);
        }
        i = i + 1;
    }
    None
}

fn merge_one(list: &mut Vec<ResourceInfo>, found: ResourceInfo)
    ensures
        final(list)@ == merged_one(old(list)@, found),
{
    match find_address(list, found.address.as_str()) {
        Some(i) => {
            list.set(i, found);
        },
        None => {
            list.push(found);
        },
    }
}

fn merge_all(list: &mut Vec<ResourceInfo>, found: &Vec<ResourceInfo>)
    ensures
        final(list)@ == merged(old(list)@, found@, found@.len() as int),
{
    let mut n: usize = 0;
    while n < found.len()
        invariant
            n <= found@.len(),
            list@ == merged(old(list)@, found@, n as int),
        decreases found@.len() - n,
    {
        merge_one(list, clone_resource(&found[n]));
        n = n + 1;
    }
}

fn key_of(r: &ResourceInfo) -> (k: String)
    ensures
        k@ == resource_key(*r),
{
    let rank: u8 = instrument::kind_sort_key(r.kind);
    let c: char = (48 + rank) as char;
    let mut k = String::new();
    k.push(c);
    k.append(r.address.as_str());
    assert(k@ =~= resource_key(*r));
    k
}

fn sort_resources(list: &Vec<ResourceInfo>) -> (sorted: Vec<ResourceInfo>)
    ensures
        sorted_from(sorted@, list@),
{
    let mut keys: Vec<String> = Vec::new();
    let mut i: usize = 0;
    while i < list.len()
        invariant
            i <= list@.len(),
            keys@.len() == i,
            forall|k: int| 0 <= k < i ==> (#[trigger] keys@[k])@ == resource_key(list@[k]),
        decreases list@.len() - i,
    {
        keys.push(key_of(&list[i]));
        i = i + 1;
    }
    assert(search::views(keys@) =~= resource_keys(list@));
    let order = browser::order_by_key(&keys);
    let mut sorted: Vec<ResourceInfo> = Vec::new();
    let mut k: usize = 0;
    while k < order.len()
        invariant
            k <= order@.len() == list@.len(),
            browser::is_order(order@, resource_keys(list@), list@.len() as int),
            sorted@.len() == k,
            forall|j: int| 0 <= j < k ==> #[trigger] sorted@[j] == list@[order@[j] as int],
        decreases order@.len() - k,
    {
        sorted.push(clone_resource(&list[order[k]]));
        k = k + 1;
    }
    sorted
}

/// Law: merging what a scan found loses no address that was known, and no found one.
pub proof fn law_scan_loses_no_address(
    list: Seq<ResourceInfo>,
    found: Seq<ResourceInfo>,
    n: int,
    address: Seq<char>,
)
    requires
        0 <= n <= found.len(),
        address_at(list, address, 0) is Some || exists|k: int|
            0 <= k < n && (#[trigger] found[k]).address@ == address,
    ensures
        address_at(merged(list, found, n), address, 0) is Some,
    decreases n,
{
    if n > 0 {
        let before = merged(list, found, n - 1);
        let one = found[n - 1];
        lemma_address_at(before, address, 0);
        lemma_address_at(before, one.address@, 0);
        if one.address@ != address {
            law_scan_loses_no_address(list, found, n - 1, address);
            let i = address_at(before, address, 0)->Some_0;
            lemma_address_at(before, address, 0);
            let after = merged_one(before, one);
            assert(after[i].address@ == address);
            lemma_address_found(after, address, 0, i);
        } else {
            let after = merged_one(before, one);
            match address_at(before, one.address@, 0) {
                Some(i) => {
                    assert(after[i].address@ == address);
                    lemma_address_found(after, address, 0, i);
                },
                None => {
                    assert(after[before.len() as int].address@ == address);
                    lemma_address_found(after, address, 0, before.len() as int);
                },
            }
        }
    }
}

proof fn lemma_address_at(list: Seq<ResourceInfo>, address: Seq<char>, i: int)
    requires
        0 <= i,
    ensures
        address_at(list, address, i) matches Some(k) ==> i <= k < list.len() && list[k].address@
            == address,
    decreases list.len() - i,
{
    if i < list.len() && list[i].address@ != address {
        lemma_address_at(list, address, i + 1);
    }
}

proof fn lemma_address_found(list: Seq<ResourceInfo>, address: Seq<char>, i: int, k: int)
    requires
        0 <= i <= k < list.len(),
        list[k].address@ == address,
    ensures
        address_at(list, address, i) is Some,
    decreases k - i,
{
    if list[i].address@ != address {
        lemma_address_found(list, address, i + 1, k);
    }
}

// ---------------------------------------------------------------------------
// Filling the cards
// ---------------------------------------------------------------------------

/// Whether an address is for the card at a place.
pub open spec fn fits_slot(r: ResourceInfo, slot: int) -> bool {
    r.kind matches Some(k) && !(k is Generic) && instrument::slot_of(k) == slot
}

/// The first address from place `i` on that is for the card at a place.
pub open spec fn assigned(list: Seq<ResourceInfo>, slot: int, i: int) -> Option<int>
    decreases list.len() - i,
{
    if i < 0 || i >= list.len() {
        None
    } else if fits_slot(list[i], slot) {
        Some(i)
    } else {
        assigned(list, slot, i + 1)
    }
}

/// The first address from place `i` on whose kind is not known.
pub open spec fn first_unknown(list: Seq<ResourceInfo>, i: int) -> Option<int>
    decreases list.len() - i,
{
    if i < 0 || i >= list.len() {
        None
    } else if list[i].kind is None {
        Some(i)
    } else {
        first_unknown(list, i + 1)
    }
}

/// What the box of the card at a place holds after a scan: the first address of its kind, or
/// else, for the selected card while it is blank, the first address of no known kind.
pub open spec fn filled_input(
    list: Seq<ResourceInfo>,
    slot: int,
    selected_slot: int,
    before: Seq<char>,
) -> Seq<char> {
    match assigned(list, slot, 0) {
        Some(i) => list[i].address@,
        None => if slot == selected_slot && text::trimmed(before).len() == 0 {
            match first_unknown(list, 0) {
                Some(i) => list[i].address@,
                None => before,
            }
        } else {
            before
        },
    }
}

fn find_assigned(list: &Vec<ResourceInfo>, slot: usize) -> (r: Option<usize>)
    ensures
        match r {
            Some(i) => assigned(list@, slot as int, 0) == Some(i as int) && i < list@.len(),
            None => assigned(list@, slot as int, 0) is None,
        },
{
    let mut i: usize = 0;
    while i < list.len()
        invariant
            i <= list@.len(),
            assigned(list@, slot as int, 0) == assigned(list@, slot as int, i as int),
        decreases list@.len() - i,
    {
        let fits: bool = match list[i].kind {
            Some(InstrumentKind::Generic) => false,
            Some(k) => instrument::instrument_kind_slot(k) == slot,
            None => false,
        };
        if fits {
            return Some(i);
        }
        i = i + 1;
    }
    None
}

fn find_unknown(list: &Vec<ResourceInfo>) -> (r: Option<usize>)
    ensures
        match r {
            Some(i) => first_unknown(list@, 0) == Some(i as int) && i < list@.len(),
            None => first_unknown(list@, 0) is None,
        },
{
    let mut i: usize = 0;
    while i < list.len()
        invariant
            i <= list@.len(),
            first_unknown(list@, 0) == first_unknown(list@, i as int),
        decreases list@.len() - i,
    {
        if list[i].kind.is_none() {
            return Some(i);
        }
        i = i + 1;
    }
    None
}

/// How many of the first `n` addresses have a known kind.
pub open spec fn identified_count(list: Seq<ResourceInfo>, n: int) -> nat
    decreases n,
{
    if n <= 0 {
        0
    } else {
        identified_count(list, n - 1) + if list[n - 1].kind is Some {
            1nat
        } else {
            0nat
        }
    }
}

/// How many of the first `n` addresses could not be probed.
pub open spec fn failed_count(list: Seq<ResourceInfo>, n: int) -> nat
    decreases n,
{
    if n <= 0 {
        0
    } else {
        failed_count(list, n - 1) + if list[n - 1].probe_error is Some {
            1nat
        } else {
            0nat
        }
    }
}

/// What a scan comes to.
pub struct ScanSummary {
    pub total: usize,
    pub identified: usize,
    pub failed: usize,
}

fn summarize(list: &Vec<ResourceInfo>) -> (r: ScanSummary)
    ensures
        r.total == list@.len(),
        r.identified == identified_count(list@, list@.len() as int),
        r.failed == failed_count(list@, list@.len() as int),
{
    let mut identified: usize = 0;
    let mut failed: usize = 0;
    let mut i: usize = 0;
    while i < list.len()
        invariant
            i <= list@.len(),
            identified <= i,
            failed <= i,
            identified == identified_count(list@, i as int),
            failed == failed_count(list@, i as int),
        decreases list@.len() - i,
    {
        if list[i].kind.is_some() {
            identified = identified + 1;
        }
        if list[i].probe_error.is_some() {
            failed = failed + 1;
        }
        i = i + 1;
    }
    ScanSummary { total: list.len(), identified, failed }
}

/// Whether `after` is the rack `before` after a scan found addresses.
pub open spec fn discovered(
    before: Rack,
    after: Rack,
    found: Seq<ResourceInfo>,
    summary: ScanSummary,
) -> bool {
    &&& sorted_from(
        after.resources@,
        merged(before.resources@, found, found.len() as int),
    )
    &&& after.inputs@.len() == before.inputs@.len()
    &&& forall|s: int|
        0 <= s < CARD_COUNT ==> (#[trigger] after.inputs@[s])@ == filled_input(
            after.resources@,
            s,
            instrument::slot_of(before.selected_kind),
            before.inputs@[s]@,
        )
    &&& after.devices == before.devices
    &&& after.selected_kind == before.selected_kind
    &&& after.selected_id == before.selected_id
    &&& after.next_id == before.next_id
    &&& after.overview_open == before.overview_open
    &&& after.defer_frames == before.defer_frames
    &&& summary.total == after.resources@.len()
    &&& summary.identified == identified_count(after.resources@, after.resources@.len() as int)
    &&& summary.failed == failed_count(after.resources@, after.resources@.len() as int)
}

fn fill_inputs(inputs: &Vec<String>, list: &Vec<ResourceInfo>, selected_slot: usize) -> (r: Vec<
    String,
>)
    requires
        inputs@.len() == CARD_COUNT,
    ensures
        r@.len() == CARD_COUNT,
        forall|s: int|
            0 <= s < CARD_COUNT ==> (#[trigger] r@[s])@ == filled_input(
                list@,
                s,
                selected_slot as int,
                inputs@[s]@,
            ),
{
    let mut r: Vec<String> = Vec::new();
    let mut s: usize = 0;
    while s < CARD_COUNT
        invariant
            s <= CARD_COUNT,
            inputs@.len() == CARD_COUNT,
            r@.len() == s,
            forall|k: int|
                0 <= k < s ==> (#[trigger] r@[k])@ == filled_input(
                    list@,
                    k,
                    selected_slot as int,
                    inputs@[k]@,
                ),
        decreases CARD_COUNT - s,
    {
        let input = match find_assigned(list, s) {
            Some(i) => list[i].address.clone(),
            None => if s == selected_slot && text::is_blank(inputs[s].as_str()) {
                match find_unknown(list) {
                    Some(i) => list[i].address.clone(),
                    None => inputs[s].clone(),
                }
            } else {
                inputs[s].clone()
            },
        };
        r.push(input);
        s = s + 1;
    }
    r
}

impl Rack {
    /// Takes over what a scan found: the addresses are merged into the known ones, sorted, and
    /// put into the boxes of the cards.
    pub fn apply_discovered_resources(&mut self, found: Vec<ResourceInfo>) -> (summary: ScanSummary)
        requires
            old(self).wf(),
        ensures
            final(self).wf(),
            discovered(*old(self), *final(self), found@, summary),
    {
        merge_all(&mut self.resources, &found);
        let sorted = sort_resources(&self.resources);
        let slot: usize = instrument::instrument_kind_slot(self.selected_kind);
        self.inputs = fill_inputs(&self.inputs, &sorted, slot);
        self.resources = sorted;
        summarize(&self.resources)
    }

    /// The address that the card of a kind connects: the one in its box, or else the first
    /// found one of the kind, or else the first found one.
    pub fn resolve_card_resource(&self, kind: InstrumentKind) -> (r: Option<String>)
        requires
            self.wf(),
        ensures
            crate::files::opt_text(r) == card_resource(*self, kind),
    {
        let slot: usize = instrument::instrument_kind_slot(kind);
        let typed = text::trim(self.inputs[slot].as_str());
        if !typed.as_str().is_empty() {
            return Some(typed);
        }
        match find_of_kind(&self.resources, kind) {
            Some(i) => Some(self.resources[i].address.clone()),
            None => if self.resources.len() > 0 {
                Some(self.resources[0].address.clone())
            } else {
                None
            },
        }
    }
}

/// The first address of a kind from place `i` on.
pub open spec fn found_at(list: Seq<ResourceInfo>, kind: InstrumentKind, i: int) -> Option<int>
    decreases list.len() - i,
{
    if i < 0 || i >= list.len() {
        None
    } else if list[i].kind == Some(kind) {
        Some(i)
    } else {
        found_at(list, kind, i + 1)
    }
}

fn find_of_kind(list: &Vec<ResourceInfo>, kind: InstrumentKind) -> (r: Option<usize>)
    ensures
        match r {
            Some(i) => found_at(list@, kind, 0) == Some(i as int) && i < list@.len(),
            None => found_at(list@, kind, 0) is None,
        },
{
    let mut i: usize = 0;
    while i < list.len()
        invariant
            i <= list@.len(),
            found_at(list@, kind, 0) == found_at(list@, kind, i as int),
        decreases list@.len() - i,
    {
        let here: bool = match list[i].kind {
            Some(k) => k == kind,
            None => false,
        };
        if here {
            return Some(i);
        }
        i = i + 1;
    }
    None
}

/// The address that the card of a kind connects.
pub open spec fn card_resource(rack: Rack, kind: InstrumentKind) -> Option<Seq<char>> {
    let typed = text::trimmed(rack.inputs@[instrument::slot_of(kind)]@);
    if typed.len() > 0 {
        Some(typed)
    } else {
        match found_at(rack.resources@, kind, 0) {
            Some(i) => Some(rack.resources@[i].address@),
            None => if rack.resources@.len() > 0 {
                Some(rack.resources@[0].address@)
            } else {
                None
            },
        }
    }
}

// ---------------------------------------------------------------------------
// Connecting
// ---------------------------------------------------------------------------

/// What an address says about itself where it is one of a USB device.
#[derive(Debug, Clone, Copy, PartialEq, Eq, Structural)]
pub struct UsbAddress {
    pub session: bool,
    pub kind: Option<InstrumentKind>,
}

/// A connection to open.
pub struct ConnectRequest {
    pub id: u64,
    pub resource: String,
    pub kind: Option<InstrumentKind>,
}

/// The kind under which an address is opened: a USB device says it itself, a probe and a
/// bridge are opened as what they are, and other instruments are asked.
pub open spec fn connect_kind(kind: InstrumentKind, usb: UsbAddress) -> Option<InstrumentKind> {
    if usb.session {
        usb.kind
    } else if kind is DebugProbe || kind is UsbBridge {
        Some(kind)
    } else {
        None
    }
}

/// The kind under which an address is opened.
pub fn kind_to_open(kind: InstrumentKind, usb: UsbAddress) -> (r: Option<InstrumentKind>)
    ensures
        r == connect_kind(kind, usb),
{
    if usb.session {
        return usb.kind;
    }
    match kind {
        InstrumentKind::DebugProbe | InstrumentKind::UsbBridge => Some(kind),
        _ => None,
    }
}

/// Whether `after` is the rack `before` after a connection was begun.
pub open spec fn connect_begun(
    before: Rack,
    after: Rack,
    kind: InstrumentKind,
    resource: Seq<char>,
    select: bool,
) -> bool {
    let slot = instrument::slot_of(kind);
    let chosen = if select && !before.overview_open {
        rack::with_kind(before, kind)
    } else {
        before
    };
    &&& after.next_id == before.next_id + 1
    &&& after.inputs@.len() == before.inputs@.len()
    &&& forall|s: int|
        0 <= s < CARD_COUNT ==> (#[trigger] after.inputs@[s])@ == if s == slot {
            resource
        } else {
            before.inputs@[s]@
        }
    &&& after.resources == before.resources
    &&& after.devices == before.devices
    &&& after.selected_kind == chosen.selected_kind
    &&& after.selected_id == chosen.selected_id
    &&& after.overview_open == chosen.overview_open
    &&& after.defer_frames == chosen.defer_frames
}

impl Rack {
    /// Begins a connection. None where an instrument is connected at the address already.
    pub fn begin_connect_address(
        &mut self,
        kind: InstrumentKind,
        resource: String,
        select: bool,
        usb: UsbAddress,
    ) -> (r: Option<ConnectRequest>)
        requires
            old(self).wf(),
            old(self).next_id < u64::MAX,
        ensures
            final(self).wf(),
            r is None <==> rack::address_connected(old(self).devices@, resource@),
            r is None ==> *final(self) == *old(self),
            r matches Some(request) ==> connect_begun(
                *old(self),
                *final(self),
                kind,
                resource@,
                select,
            ) && request.id == old(self).next_id && request.resource@ == resource@ && request.kind
                == connect_kind(kind, usb),
    {
        if rack::is_connected(&self.devices, resource.as_str()) {
            return None;
        }
        let slot: usize = instrument::instrument_kind_slot(kind);
        self.inputs.set(slot, resource.clone());
        let id: u64 = self.next_id;
        self.next_id = id + 1;
        if select && !self.overview_open {
            self.select_kind(kind);
        }
        Some(ConnectRequest { id, resource, kind: kind_to_open(kind, usb) })
    }

    /// Begins a demonstration of a kind. The result is the number of the connection.
    pub fn begin_connect_demo(&mut self, kind: InstrumentKind) -> (id: u64)
        requires
            old(self).next_id < u64::MAX,
        ensures
            id == old(self).next_id,
            *final(self) == demo_begun(*old(self), kind),
    {
        let id: u64 = self.next_id;
        self.next_id = id + 1;
        self.select_kind(kind);
        id
    }
}

/// The rack after a demonstration was begun.
pub open spec fn demo_begun(rack: Rack, kind: InstrumentKind) -> Rack {
    rack::with_kind((Rack { next_id: (rack.next_id + 1) as u64, ..rack }), kind)
}

/// Law: a connection that was begun has a number that no later one gets, whether the
/// connections select their instruments or not.
pub proof fn law_connection_numbers_differ(
    first: Rack,
    between: Rack,
    after: Rack,
    kind: InstrumentKind,
    resource: Seq<char>,
    select: bool,
    other_kind: InstrumentKind,
    other: Seq<char>,
    other_select: bool,
)
    requires
        connect_begun(first, between, kind, resource, select),
        connect_begun(between, after, other_kind, other, other_select),
    ensures
        first.next_id < between.next_id < after.next_id,
{
}

// ---------------------------------------------------------------------------
// Connecting everything
// ---------------------------------------------------------------------------

/// Whether an address is still to be connected.
pub open spec fn is_pending(r: ResourceInfo, devices: Seq<DeviceUi>) -> bool {
    text::trimmed(r.address@).len() > 0 && !rack::address_connected(devices, r.address@)
}

/// The places of the addresses among the first `n` that are still to be connected.
pub open spec fn pending_places(rack: Rack, n: int) -> Seq<int>
    decreases n,
{
    if n <= 0 {
        Seq::empty()
    } else if is_pending(rack.resources@[n - 1], rack.devices@) {
        pending_places(rack, n - 1).push(n - 1)
    } else {
        pending_places(rack, n - 1)
    }
}

/// The kind by which an address is connected.
pub open spec fn kind_or_generic(r: ResourceInfo) -> InstrumentKind {
    match r.kind {
        Some(k) => k,
        None => InstrumentKind::Generic,
    }
}

/// The connection for the `k`th address that is still to be connected.
pub open spec fn queued_as(
    request: ConnectRequest,
    rack: Rack,
    places: Seq<int>,
    k: int,
    usb: Seq<UsbAddress>,
) -> bool {
    let r = rack.resources@[places[k]];
    &&& request.id == rack.next_id + k
    &&& request.resource@ == r.address@
    &&& request.kind == connect_kind(kind_or_generic(r), usb[places[k]])
}

/// What the box of the card at a place holds after the addresses among the first `n` were
/// connected in turn.
pub open spec fn queued_input(rack: Rack, slot: int, n: int) -> Seq<char>
    decreases n,
{
    if n <= 0 {
        rack.inputs@[slot]@
    } else {
        let r = rack.resources@[n - 1];
        if is_pending(r, rack.devices@) && instrument::slot_of(kind_or_generic(r)) == slot {
            r.address@
        } else {
            queued_input(rack, slot, n - 1)
        }
    }
}

/// How many addresses are still to be connected.
pub fn pending_count(rack: &Rack) -> (r: usize)
    ensures
        r == pending_places(*rack, rack.resources@.len() as int).len(),
{
    let mut n: usize = 0;
    let mut i: usize = 0;
    while i < rack.resources.len()
        invariant
            i <= rack.resources@.len(),
            n == pending_places(*rack, i as int).len(),
            n <= i,
        decreases rack.resources@.len() - i,
    {
        if !text::is_blank(rack.resources[i].address.as_str()) && !rack::is_connected(
            &rack.devices,
            rack.resources[i].address.as_str(),
        ) {
            n = n + 1;
        }
        i = i + 1;
    }
    n
}

/// The kinds of the addresses that are still to be connected, in order.
pub fn pending_kinds(rack: &Rack) -> (r: Vec<InstrumentKind>)
    ensures
        ({
            let places = pending_places(*rack, rack.resources@.len() as int);
            r@ == Seq::new(places.len(), |k: int| kind_or_generic(rack.resources@[places[k]]))
        }),
{
    let mut r: Vec<InstrumentKind> = Vec::new();
    let mut i: usize = 0;
    while i < rack.resources.len()
        invariant
            i <= rack.resources@.len(),
            r@.len() == pending_places(*rack, i as int).len(),
            forall|k: int|
                0 <= k < r@.len() ==> #[trigger] r@[k] == kind_or_generic(
                    rack.resources@[pending_places(*rack, i as int)[k]],
                ),
        decreases rack.resources@.len() - i,
    {
        if !text::is_blank(rack.resources[i].address.as_str()) && !rack::is_connected(
            &rack.devices,
            rack.resources[i].address.as_str(),
        ) {
            r.push(
                match rack.resources[i].kind {
                    Some(k) => k,
                    None => InstrumentKind::Generic,
                },
            );
        }
        i = i + 1;
    }
    assert(r@ =~= Seq::new(
        pending_places(*rack, i as int).len(),
        |k: int| kind_or_generic(rack.resources@[pending_places(*rack, i as int)[k]]),
    ));
    r
}

/// Whether `queued` are the connections begun to every address that was still to be connected,
/// under numbers of their own, and `after` is the rack `before` with these numbers taken and the
/// addresses in the boxes of their cards; nothing else changes.
pub open spec fn all_queued(
    before: Rack,
    after: Rack,
    usb: Seq<UsbAddress>,
    queued: Seq<ConnectRequest>,
) -> bool {
    let n = before.resources@.len() as int;
    let places = pending_places(before, n);
    &&& queued.len() == places.len()
    &&& forall|k: int|
        0 <= k < queued.len() ==> queued_as(#[trigger] queued[k], before, places, k, usb)
    &&& after.wf()
    &&& after.next_id == before.next_id + places.len()
    &&& forall|s: int|
        0 <= s < CARD_COUNT ==> (#[trigger] after.inputs@[s])@ == queued_input(before, s, n)
    &&& after.resources == before.resources
    &&& after.devices == before.devices
    &&& after.selected_kind == before.selected_kind
    &&& after.selected_id == before.selected_id
    &&& after.overview_open == before.overview_open
    &&& after.defer_frames == before.defer_frames
}

impl Rack {
    /// Begins a connection to every address that is still to be connected, in order. `usb`
    /// holds what each address says about itself.
    pub fn queue_connect_all(&mut self, usb: &Vec<UsbAddress>) -> (queued: Vec<ConnectRequest>)
        requires
            old(self).wf(),
            usb@.len() == old(self).resources@.len(),
            old(self).next_id + old(self).resources@.len() <= u64::MAX,
        ensures
            all_queued(*old(self), *final(self), usb@, queued@),
    {
        let mut queued: Vec<ConnectRequest> = Vec::new();
        let mut i: usize = 0;
        while i < self.resources.len()
            invariant
                i <= self.resources@.len(),
                usb@.len() == self.resources@.len(),
                self.wf(),
                self.resources == old(self).resources,
                self.devices == old(self).devices,
                self.selected_kind == old(self).selected_kind,
                self.selected_id == old(self).selected_id,
                self.overview_open == old(self).overview_open,
                self.defer_frames == old(self).defer_frames,
                old(self).next_id + old(self).resources@.len() <= u64::MAX,
                queued@.len() == pending_places(*old(self), i as int).len(),
                queued@.len() <= i,
                self.next_id == old(self).next_id + queued@.len(),
                forall|s: int|
                    0 <= s < CARD_COUNT ==> (#[trigger] self.inputs@[s])@ == queued_input(
                        *old(self),
                        s,
                        i as int,
                    ),
                forall|k: int|
                    0 <= k < queued@.len() ==> queued_as(
                        #[trigger] queued@[k],
                        *old(self),
                        pending_places(*old(self), i as int),
                        k,
                        usb@,
                    ),
            decreases self.resources@.len() - i,
        {
            let ghost places = pending_places(*old(self), i as int);
            let address = self.resources[i].address.clone();
            let kind = match self.resources[i].kind {
                Some(k) => k,
                None => InstrumentKind::Generic,
            };
            if !text::is_blank(address.as_str()) {
                let begun = self.begin_connect_address(kind, address, false, usb[i]);
                match begun {
                    Some(request) => {
                        queued.push(request);
                        assert(pending_places(*old(self), i + 1) == places.push(i as int));
                        assert forall|k: int| 0 <= k < queued@.len() implies queued_as(
                            #[trigger] queued@[k],
                            *old(self),
                            places.push(i as int),
                            k,
                            usb@,
                        ) by {
                            if k < places.len() {
                                assert(places.push(i as int)[k] == places[k]);
                            }
                        }
                    },
                    None => {},
                }
            }
            i = i + 1;
        }
        queued
    }
}

/// Law: connecting everything gives every connection a number of its own, and none of them is
/// the number of a connection that is begun before or afterwards.
pub proof fn law_queued_numbers_differ(
    before: Rack,
    after: Rack,
    usb: Seq<UsbAddress>,
    queued: Seq<ConnectRequest>,
)
    requires
        all_queued(before, after, usb, queued),
    ensures
        forall|j: int, k: int|
            0 <= j < k < queued.len() ==> (#[trigger] queued[j]).id < (#[trigger] queued[k]).id,
        forall|k: int|
            0 <= k < queued.len() ==> before.next_id <= (#[trigger] queued[k]).id < after.next_id,
{
}

// ---------------------------------------------------------------------------
// Demonstrations
// ---------------------------------------------------------------------------

/// The kinds among the first `n` cards of which no instrument is connected.
pub open spec fn missing_kinds(devices: Seq<DeviceUi>, n: int) -> Seq<InstrumentKind>
    decreases n,
{
    if n <= 0 {
        Seq::empty()
    } else {
        let kind = instrument::card_kinds()[n - 1];
        if rack::kind_connected(devices, kind) {
            missing_kinds(devices, n - 1)
        } else {
            missing_kinds(devices, n - 1).push(kind)
        }
    }
}

/// The rack after demonstrations of the first `n` kinds were begun, in turn.
pub open spec fn demos_begun(rack: Rack, kinds: Seq<InstrumentKind>, n: int) -> Rack
    decreases n,
{
    if n <= 0 {
        rack
    } else {
        demo_begun(demos_begun(rack, kinds, n - 1), kinds[n - 1])
    }
}

/// Beginning demonstrations touches neither the instruments nor what was found or typed.
pub proof fn lemma_demos_keep_the_rest(rack: Rack, kinds: Seq<InstrumentKind>, n: int)
    ensures
        demos_begun(rack, kinds, n).devices == rack.devices,
        demos_begun(rack, kinds, n).resources == rack.resources,
        demos_begun(rack, kinds, n).inputs == rack.inputs,
    decreases n,
{
    if n > 0 {
        lemma_demos_keep_the_rest(rack, kinds, n - 1);
    }
}

/// A demonstration that was begun.
#[derive(Debug, Clone, Copy, PartialEq, Eq, Structural)]
pub struct DemoRequest {
    pub id: u64,
    pub kind: InstrumentKind,
}

impl Rack {
    fn lacks_kind(&self, kind: InstrumentKind) -> (r: bool)
        ensures
            r == !rack::kind_connected(self.devices@, kind),
    {
        let mut i: usize = 0;
        while i < self.devices.len()
            invariant
                i <= self.devices@.len(),
                forall|k: int| 0 <= k < i ==> (#[trigger] self.devices@[k]).kind != kind,
            decreases self.devices@.len() - i,
        {
            if self.devices[i].kind == kind {
                assert(self.devices@[i as int].kind == kind);
                return false;
            }
            i = i + 1;
        }
        true
    }

    fn missing(&self) -> (r: Vec<InstrumentKind>)
        ensures
            r@ == missing_kinds(self.devices@, CARD_COUNT as int),
    {
        let all = instrument::all_card_kinds();
        let mut r: Vec<InstrumentKind> = Vec::new();
        let mut i: usize = 0;
        while i < CARD_COUNT
            invariant
                i <= CARD_COUNT,
                all@ == instrument::card_kinds(),
                r@ == missing_kinds(self.devices@, i as int),
            decreases CARD_COUNT - i,
        {
            if self.lacks_kind(all[i]) {
                r.push(all[i]);
            }
            i = i + 1;
        }
        r
    }

    /// Begins a demonstration of every kind of which no instrument is connected.
    pub fn ensure_demo_devices(&mut self) -> (begun: Vec<DemoRequest>)
        requires
            old(self).next_id <= u64::MAX - CARD_COUNT,
        ensures
            ({
                let kinds = missing_kinds(old(self).devices@, CARD_COUNT as int);
                &&& *final(self) == demos_begun(*old(self), kinds, kinds.len() as int)
                &&& begun@.len() == kinds.len()
                &&& forall|k: int|
                    0 <= k < begun@.len() ==> #[trigger] begun@[k] == (DemoRequest {
                        id: (old(self).next_id + k) as u64,
                        kind: kinds[k],
                    })
            }),
    {
        let kinds = self.missing();
        proof {
            lemma_missing_kinds(self.devices@, CARD_COUNT as int);
        }
        let mut begun: Vec<DemoRequest> = Vec::new();
        let mut i: usize = 0;
        while i < kinds.len()
            invariant
                i <= kinds@.len() <= CARD_COUNT,
                old(self).next_id <= u64::MAX - CARD_COUNT,
                *self == demos_begun(*old(self), kinds@, i as int),
                self.next_id == old(self).next_id + i,
                begun@.len() == i,
                forall|k: int|
                    0 <= k < begun@.len() ==> #[trigger] begun@[k] == (DemoRequest {
                        id: (old(self).next_id + k) as u64,
                        kind: kinds@[k],
                    }),
            decreases kinds@.len() - i,
        {
            let id: u64 = self.begin_connect_demo(kinds[i]);
            begun.push(DemoRequest { id, kind: kinds[i] });
            i = i + 1;
        }
        begun
    }

    /// The numbers of the demonstrations.
    pub fn demo_ids(&self) -> (r: Vec<u64>)
        ensures
            r@ == demo_numbers(self.devices@, self.devices@.len() as int),
    {
        let mut r: Vec<u64> = Vec::new();
        let mut i: usize = 0;
        while i < self.devices.len()
            invariant
                i <= self.devices@.len(),
                r@ == demo_numbers(self.devices@, i as int),
            decreases self.devices@.len() - i,
        {
            if text::starts_with(self.devices[i].resource.as_str(), "DEMO::") {
                r.push(self.devices[i].id);
            }
            i = i + 1;
        }
        r
    }
}

/// The numbers of the demonstrations among the first `n` instruments.
pub open spec fn demo_numbers(devices: Seq<DeviceUi>, n: int) -> Seq<u64>
    decreases n,
{
    if n <= 0 {
        Seq::empty()
    } else if text::has_prefix(devices[n - 1].resource@, "DEMO::"@) {
        demo_numbers(devices, n - 1).push(devices[n - 1].id)
    } else {
        demo_numbers(devices, n - 1)
    }
}

proof fn lemma_missing_kinds(devices: Seq<DeviceUi>, n: int)
    requires
        0 <= n <= CARD_COUNT,
    ensures
        missing_kinds(devices, n).len() <= n,
    decreases n,
{
    if n > 0 {
        lemma_missing_kinds(devices, n - 1);
    }
}

// ---------------------------------------------------------------------------
// Sessions
// ---------------------------------------------------------------------------

/// How a connection is opened.
#[derive(Debug, Clone, Copy, PartialEq, Eq, Structural)]
pub enum SessionPlan {
    DemoProbe,
    DemoBridge,
    DemoScpi(InstrumentKind),
    Probe,
    Bridge,
    Scpi(Option<InstrumentKind>),
}

/// How a demonstration of a kind is opened.
pub open spec fn demo_plan(kind: InstrumentKind) -> SessionPlan {
    match kind {
        InstrumentKind::DebugProbe => SessionPlan::DemoProbe,
        InstrumentKind::UsbBridge => SessionPlan::DemoBridge,
        other => SessionPlan::DemoScpi(other),
    }
}

/// How a demonstration of a kind is opened.
pub fn open_demo_session(kind: InstrumentKind) -> (r: SessionPlan)
    ensures
        r == demo_plan(kind),
{
    match kind {
        InstrumentKind::DebugProbe => SessionPlan::DemoProbe,
        InstrumentKind::UsbBridge => SessionPlan::DemoBridge,
        other => SessionPlan::DemoScpi(other),
    }
}

/// How an address is opened. `usb_bridge` tells, for an address of a USB device, whether that
/// is a bridge.
pub open spec fn session_plan(
    resource: Seq<char>,
    kind: Option<InstrumentKind>,
    usb_bridge: Option<bool>,
) -> SessionPlan {
    if text::has_prefix(resource, "DEMO::"@) {
        demo_plan(
            match kind {
                Some(k) => k,
                None => InstrumentKind::Generic,
            },
        )
    } else {
        match usb_bridge {
            Some(bridge) => if bridge {
                SessionPlan::Bridge
            } else {
                SessionPlan::Probe
            },
            None => match kind {
                Some(InstrumentKind::DebugProbe) => SessionPlan::Probe,
                Some(InstrumentKind::UsbBridge) => SessionPlan::Bridge,
                requested => SessionPlan::Scpi(requested),
            },
        }
    }
}

/// How an address is opened.
pub fn open_live_session(
    resource: &str,
    kind: Option<InstrumentKind>,
    usb_bridge: Option<bool>,
) -> (r: SessionPlan)
    ensures
        r == session_plan(resource@, kind, usb_bridge),
{
    if text::starts_with(resource, "DEMO::") {
        return open_demo_session(
            match kind {
                Some(k) => k,
                None => InstrumentKind::Generic,
            },
        );
    }
    match usb_bridge {
        Some(bridge) => if bridge {
            SessionPlan::Bridge
        } else {
            SessionPlan::Probe
        },
        None => match kind {
            Some(InstrumentKind::DebugProbe) => SessionPlan::Probe,
            Some(InstrumentKind::UsbBridge) => SessionPlan::Bridge,
            requested => SessionPlan::Scpi(requested),
        },
    }
}

/// The profile of a probe or a bridge: maker and model.
pub fn session_profile(identity: &Identity) -> (r: String)
    ensures
        r@ == identity.manufacturer@ + " "@ + identity.model@,
{
    text::join3(identity.manufacturer.as_str(), " ", identity.model.as_str())
}

/// The library to load: none where the setting is blank.
pub fn visa_library(setting: &str) -> (r: Option<String>)
    ensures
        r is None <==> text::trimmed(setting@).len() == 0,
        r matches Some(library) ==> library@ == setting@,
{
    if text::is_blank(setting) {
        None
    } else {
        Some(setting.to_owned())
    }
}

// ---------------------------------------------------------------------------
// What holds of scans and connections
// ---------------------------------------------------------------------------

/// Whether no address stands twice in a list.
pub open spec fn addresses_differ(list: Seq<ResourceInfo>) -> bool {
    forall|i: int, j: int|
        0 <= i < j < list.len() ==> (#[trigger] list[i]).address@ != (#[trigger] list[j]).address@
}

/// Whether `k` is the last of the first `n` findings for its address.
pub open spec fn last_finding(found: Seq<ResourceInfo>, k: int, n: int) -> bool {
    &&& 0 <= k < n <= found.len()
    &&& forall|j: int| k < j < n ==> (#[trigger] found[j]).address@ != found[k].address@
}

/// Law: merging one finding puts it into the list as it is, whether its address was known or
/// not: the entry of a known address is replaced in its place, a new one comes last, and the
/// entries of all other addresses stay in their places.
pub proof fn law_finding_replaces_the_known_entry(list: Seq<ResourceInfo>, found: ResourceInfo)
    requires
        addresses_differ(list),
    ensures
        ({
            let after = merged_one(list, found);
            &&& addresses_differ(after)
            &&& after.contains(found)
            &&& forall|i: int|
                0 <= i < after.len() && (#[trigger] after[i]).address@ == found.address@
                    ==> after[i] == found
            &&& forall|i: int|
                0 <= i < list.len() && (#[trigger] list[i]).address@ != found.address@
                    ==> after[i] == list[i]
            &&& after.len() == list.len() || (after.len() == list.len() + 1 && forall|i: int|
                0 <= i < list.len() ==> (#[trigger] list[i]).address@ != found.address@)
        }),
{
    lemma_address_at(list, found.address@, 0);
    lemma_address_first(list, found.address@, 0);
    let after = merged_one(list, found);
    match address_at(list, found.address@, 0) {
        Some(i) => {
            assert(after[i] == found);
        },
        None => {
            assert(after[list.len() as int] == found);
        },
    }
}

proof fn lemma_address_first(list: Seq<ResourceInfo>, address: Seq<char>, i: int)
    requires
        0 <= i <= list.len(),
        forall|k: int| 0 <= k < i ==> (#[trigger] list[k]).address@ != address,
    ensures
        match address_at(list, address, i) {
            Some(k) => i <= k < list.len() && list[k].address@ == address,
            None => forall|k: int|
                0 <= k < list.len() ==> (#[trigger] list[k]).address@ != address,
        },
    decreases list.len() - i,
{
    if i < list.len() && list[i].address@ != address {
        lemma_address_first(list, address, i + 1);
    }
}

/// Law: after findings were merged in, the entry of every found address is the last finding for
/// it, with its kind, its identity and its probe error, also where the address was known
/// before; the entry of a known address that was not found again stays as it was; and there is
/// no other entry and no address twice.
pub proof fn law_entries_hold_the_last_finding(
    list: Seq<ResourceInfo>,
    found: Seq<ResourceInfo>,
    n: int,
)
    requires
        addresses_differ(list),
        0 <= n <= found.len(),
    ensures
        ({
            let after = merged(list, found, n);
            &&& addresses_differ(after)
            &&& forall|k: int| #[trigger] last_finding(found, k, n) ==> after.contains(found[k])
            &&& forall|k: int, i: int|
                #![trigger last_finding(found, k, n), after[i]]
                last_finding(found, k, n) && 0 <= i < after.len() && after[i].address@
                    == found[k].address@ ==> after[i] == found[k]
            &&& forall|i: int|
                0 <= i < list.len() && (forall|k: int|
                    0 <= k < n ==> (#[trigger] found[k]).address@ != list[i].address@)
                    ==> after.contains(#[trigger] list[i])
            &&& forall|i: int|
                0 <= i < after.len() ==> list.contains(#[trigger] after[i]) || exists|k: int|
                    last_finding(found, k, n) && after[i] == #[trigger] found[k]
        }),
    decreases n,
{
    if n > 0 {
        law_entries_hold_the_last_finding(list, found, n - 1);
        let before = merged(list, found, n - 1);
        let one = found[n - 1];
        let after = merged(list, found, n);
        law_finding_replaces_the_known_entry(before, one);
        assert(last_finding(found, n - 1, n));
        assert forall|k: int| #[trigger] last_finding(found, k, n) implies after.contains(
            found[k],
        ) by {
            if k < n - 1 {
                assert(found[n - 1].address@ != found[k].address@);
                assert(last_finding(found, k, n - 1));
                lemma_other_entry_stays(before, one, found[k]);
            }
        }
        assert forall|k: int, i: int|
            #![trigger last_finding(found, k, n), after[i]]
            last_finding(found, k, n) && 0 <= i < after.len() && after[i].address@
                == found[k].address@ implies after[i] == found[k] by {
            assert(after.contains(found[k]));
            let j = choose|j: int| 0 <= j < after.len() && after[j] == found[k];
            if i != j {
                if i < j {
                    assert(after[i].address@ != after[j].address@);
                } else {
                    assert(after[j].address@ != after[i].address@);
                }
            }
        }
        assert forall|i: int|
            0 <= i < list.len() && (forall|k: int|
                0 <= k < n ==> (#[trigger] found[k]).address@ != list[i].address@) implies after.contains(
            #[trigger] list[i]) by {
            assert(found[n - 1].address@ != list[i].address@);
            lemma_other_entry_stays(before, one, list[i]);
        }
        assert forall|i: int| 0 <= i < after.len() implies list.contains(#[trigger] after[i])
            || exists|k: int|
            last_finding(found, k, n) && after[i] == #[trigger] found[k] by {
            if after[i].address@ == one.address@ {
                assert(after[i] == found[n - 1]);
            } else {
                assert(i < before.len() && after[i] == before[i]) by {
                    lemma_entry_from_before(before, one, i);
                }
                if !list.contains(before[i]) {
                    let k = choose|k: int|
                        last_finding(found, k, n - 1) && before[i] == #[trigger] found[k];
                    assert(last_finding(found, k, n));
                    assert(after[i] == found[k]);
                }
            }
        }
    } else {
        assert forall|i: int| 0 <= i < list.len() implies list.contains(#[trigger] list[i]) by {}
    }
}

proof fn lemma_other_entry_stays(list: Seq<ResourceInfo>, found: ResourceInfo, r: ResourceInfo)
    requires
        addresses_differ(list),
        list.contains(r),
        r.address@ != found.address@,
    ensures
        merged_one(list, found).contains(r),
{
    law_finding_replaces_the_known_entry(list, found);
    let i = choose|i: int| 0 <= i < list.len() && list[i] == r;
    assert(merged_one(list, found)[i] == list[i]);
}

proof fn lemma_entry_from_before(list: Seq<ResourceInfo>, found: ResourceInfo, i: int)
    requires
        addresses_differ(list),
        0 <= i < merged_one(list, found).len(),
        merged_one(list, found)[i].address@ != found.address@,
    ensures
        i < list.len(),
        merged_one(list, found)[i] == list[i],
{
    lemma_address_first(list, found.address@, 0);
}

/// Law: after a scan, the rack lists every found address with what was last found there, also
/// where it was known before, and every other known address as it was; the addresses stand
/// sorted by kind, and those of one kind by address. The summary counts the listed addresses,
/// those of a known kind and those that could not be probed.
pub proof fn law_scan_updates_the_rack(
    before: Rack,
    after: Rack,
    found: Seq<ResourceInfo>,
    summary: ScanSummary,
)
    requires
        discovered(before, after, found, summary),
        addresses_differ(before.resources@),
    ensures
        ({
            let list = after.resources@;
            let n = found.len() as int;
            &&& forall|k: int|
                #[trigger] last_finding(found, k, n) ==> list.contains(found[k])
            &&& forall|k: int, i: int|
                #![trigger last_finding(found, k, n), list[i]]
                last_finding(found, k, n) && 0 <= i < list.len() && list[i].address@
                    == found[k].address@ ==> list[i] == found[k]
            &&& forall|i: int|
                0 <= i < before.resources@.len() && (forall|k: int|
                    0 <= k < n ==> (#[trigger] found[k]).address@
                        != before.resources@[i].address@) ==> list.contains(
                    #[trigger] before.resources@[i],
                )
            &&& addresses_differ(list)
            &&& forall|i: int, j: int|
                0 <= i < j < list.len() ==> listed_in_order(#[trigger] list[i], #[trigger] list[j])
            &&& summary.total == list.len()
            &&& summary.identified == list.filter(|r: ResourceInfo| r.kind is Some).len()
            &&& summary.failed == list.filter(|r: ResourceInfo| r.probe_error is Some).len()
        }),
{
    let n = found.len() as int;
    let list = after.resources@;
    let all = merged(before.resources@, found, n);
    law_entries_hold_the_last_finding(before.resources@, found, n);
    let order = choose|order: Seq<usize>|
        {
            &&& #[trigger] browser::is_order(order, resource_keys(all), all.len() as int)
            &&& forall|k: int| 0 <= k < all.len() ==> #[trigger] list[k] == all[order[k] as int]
        };
    assert forall|e: int| 0 <= e < all.len() implies list.contains(#[trigger] all[e]) by {
        browser::law_listing_is_complete(order, resource_keys(all), all.len() as int, e);
        let k = choose|k: int| 0 <= k < all.len() && #[trigger] order[k] == e;
        assert(list[k] == all[e]);
    }
    assert forall|k: int| #[trigger] last_finding(found, k, n) implies list.contains(
        found[k],
    ) by {
        assert(all.contains(found[k]));
        let e = choose|e: int| 0 <= e < all.len() && all[e] == found[k];
        assert(list.contains(all[e]));
    }
    assert forall|k: int, i: int|
        #![trigger last_finding(found, k, n), list[i]]
        last_finding(found, k, n) && 0 <= i < list.len() && list[i].address@
            == found[k].address@ implies list[i] == found[k] by {
        assert(list[i] == all[order[i] as int]);
    }
    assert forall|i: int|
        0 <= i < before.resources@.len() && (forall|k: int|
            0 <= k < n ==> (#[trigger] found[k]).address@
                != before.resources@[i].address@) implies list.contains(
        #[trigger] before.resources@[i],
    ) by {
        assert(all.contains(before.resources@[i]));
        let e = choose|e: int| 0 <= e < all.len() && all[e] == before.resources@[i];
        assert(list.contains(all[e]));
    }
    assert forall|i: int, j: int| 0 <= i < j < list.len() implies (#[trigger] list[i]).address@
        != (#[trigger] list[j]).address@ by {
        browser::law_listing_is_complete(order, resource_keys(all), all.len() as int, 0);
        let (a, b) = (order[i] as int, order[j] as int);
        assert(a != b);
        assert(list[i] == all[a] && list[j] == all[b]);
        if a < b {
            assert(all[a].address@ != all[b].address@);
        } else {
            assert(all[b].address@ != all[a].address@);
        }
    }
    assert forall|i: int, j: int| 0 <= i < j < list.len() implies listed_in_order(
        #[trigger] list[i],
        #[trigger] list[j],
    ) by {
        let keys = resource_keys(all);
        let (a, b) = (order[i] as int, order[j] as int);
        assert(browser::listed_before(keys, a, b));
        assert(keys[a] == resource_key(all[a]) && keys[b] == resource_key(all[b]));
        assert(list[i] == all[a] && list[j] == all[b]);
        lemma_keys_in_order(list[i], list[j]);
    }
    lemma_counts(list, list.len() as int);
    assert(list.take(list.len() as int) =~= list);
}

/// The place of a kind in the list of addresses: the kinds as their cards stand, then
/// instruments of no special kind, then those of which the kind is not known.
pub open spec fn listed_place(kind: Option<InstrumentKind>) -> int {
    match kind {
        Some(InstrumentKind::Oscilloscope) => 0,
        Some(InstrumentKind::DcSource) => 1,
        Some(InstrumentKind::ElectronicLoad) => 2,
        Some(InstrumentKind::Multimeter) => 3,
        Some(InstrumentKind::DebugProbe) => 4,
        Some(InstrumentKind::UsbBridge) => 5,
        Some(InstrumentKind::Generic) => 6,
        None => 7,
    }
}

/// Whether one entry may stand before another.
pub open spec fn listed_in_order(a: ResourceInfo, b: ResourceInfo) -> bool {
    listed_place(a.kind) < listed_place(b.kind) || (a.kind == b.kind && (a.address@ == b.address@
        || browser::text_before(a.address@, b.address@)))
}

proof fn lemma_keys_in_order(a: ResourceInfo, b: ResourceInfo)
    requires
        browser::text_before(resource_key(a), resource_key(b)) || resource_key(a)
            == resource_key(b),
    ensures
        listed_in_order(a, b),
{
    let (x, y) = (resource_key(a), resource_key(b));
    assert(x.skip(1) =~= a.address@);
    assert(y.skip(1) =~= b.address@);
    assert(x[0] as u32 == 48 + instrument::kind_rank(a.kind));
    assert(y[0] as u32 == 48 + instrument::kind_rank(b.kind));
    if x[0] == y[0] {
        browser::lemma_text_before_skip(x, y, 1);
        instrument::law_rank_tells_kinds_apart(a.kind, b.kind);
    }
}

proof fn lemma_counts(list: Seq<ResourceInfo>, n: int)
    requires
        0 <= n <= list.len(),
    ensures
        identified_count(list, n) == list.take(n).filter(|r: ResourceInfo| r.kind is Some).len(),
        failed_count(list, n) == list.take(n).filter(
            |r: ResourceInfo| r.probe_error is Some,
        ).len(),
    decreases n,
{
    reveal(Seq::filter);
    if n > 0 {
        lemma_counts(list, n - 1);
        assert(list.take(n).drop_last() =~= list.take(n - 1));
    }
}

/// Law: after a scan the box of the card of a kind holds the first listed address of that kind,
/// where there is one. Where there is none it keeps what it held, except that the blank box of
/// the selected card gets the first address of which the kind is not known.
pub proof fn law_scan_fills_the_cards(
    before: Rack,
    after: Rack,
    found: Seq<ResourceInfo>,
    summary: ScanSummary,
    kind: InstrumentKind,
)
    requires
        before.wf(),
        discovered(before, after, found, summary),
        !(kind is Generic),
    ensures
        ({
            let list = after.resources@;
            let slot = instrument::slot_of(kind);
            let typed = after.inputs@[slot]@;
            let held = before.inputs@[slot]@;
            let selected = before.selected_kind == kind || (kind is Oscilloscope
                && before.selected_kind is Generic);
            if exists|i: int| 0 <= i < list.len() && (#[trigger] list[i]).kind == Some(kind) {
                exists|i: int|
                    0 <= i < list.len() && (#[trigger] list[i]).kind == Some(kind) && typed
                        == list[i].address@ && forall|k: int|
                        0 <= k < i ==> (#[trigger] list[k]).kind != Some(kind)
            } else if selected && text::trimmed(held).len() == 0 && exists|i: int|
                0 <= i < list.len() && (#[trigger] list[i]).kind is None {
                exists|i: int|
                    0 <= i < list.len() && (#[trigger] list[i]).kind is None && typed
                        == list[i].address@ && forall|k: int|
                        0 <= k < i ==> (#[trigger] list[k]).kind is Some
            } else {
                typed == held
            }
        }),
{
    let list = after.resources@;
    let slot = instrument::slot_of(kind);
    assert(0 <= slot < CARD_COUNT);
    assert((after.inputs@[slot])@ == filled_input(
        list,
        slot,
        instrument::slot_of(before.selected_kind),
        before.inputs@[slot]@,
    ));
    lemma_assigned(list, kind, 0);
    lemma_first_unknown(list, 0);
}

proof fn lemma_assigned(list: Seq<ResourceInfo>, kind: InstrumentKind, i: int)
    requires
        0 <= i <= list.len(),
        !(kind is Generic),
        forall|k: int| 0 <= k < i ==> (#[trigger] list[k]).kind != Some(kind),
    ensures
        match assigned(list, instrument::slot_of(kind), i) {
            Some(f) => i <= f < list.len() && list[f].kind == Some(kind) && forall|k: int|
                0 <= k < f ==> (#[trigger] list[k]).kind != Some(kind),
            None => forall|k: int| 0 <= k < list.len() ==> (#[trigger] list[k]).kind != Some(kind),
        },
    decreases list.len() - i,
{
    if i < list.len() {
        assert(fits_slot(list[i], instrument::slot_of(kind)) <==> list[i].kind == Some(kind));
        if list[i].kind != Some(kind) {
            lemma_assigned(list, kind, i + 1);
        }
    }
}

proof fn lemma_first_unknown(list: Seq<ResourceInfo>, i: int)
    requires
        0 <= i <= list.len(),
        forall|k: int| 0 <= k < i ==> (#[trigger] list[k]).kind is Some,
    ensures
        match first_unknown(list, i) {
            Some(f) => i <= f < list.len() && list[f].kind is None && forall|k: int|
                0 <= k < f ==> (#[trigger] list[k]).kind is Some,
            None => forall|k: int| 0 <= k < list.len() ==> (#[trigger] list[k]).kind is Some,
        },
    decreases list.len() - i,
{
    if i < list.len() && list[i].kind is Some {
        lemma_first_unknown(list, i + 1);
    }
}

/// Law: a card connects the address that was typed into its box, without white space around
/// it; with a blank box the first listed address of its kind, else the first listed one, and
/// nothing where no address is listed.
pub proof fn law_card_connects_what_was_typed(rack: Rack, kind: InstrumentKind)
    ensures
        ({
            let typed = text::trimmed(rack.inputs@[instrument::slot_of(kind)]@);
            let list = rack.resources@;
            let r = card_resource(rack, kind);
            &&& typed.len() > 0 ==> r == Some(typed)
            &&& typed.len() == 0 && list.len() == 0 ==> r is None
            &&& typed.len() == 0 && list.len() > 0 ==> exists|i: int|
                {
                    &&& 0 <= i < list.len()
                    &&& r == Some((#[trigger] list[i]).address@)
                    &&& list[i].kind == Some(kind) || i == 0
                    &&& forall|k: int| 0 <= k < i ==> (#[trigger] list[k]).kind != Some(kind)
                    &&& list[i].kind != Some(kind) ==> forall|k: int|
                        0 <= k < list.len() ==> (#[trigger] list[k]).kind != Some(kind)
                }
        }),
{
    let list = rack.resources@;
    lemma_found_at(list, kind, 0);
    if list.len() > 0 {
        let i = match found_at(list, kind, 0) {
            Some(i) => i,
            None => 0,
        };
        assert(list[i].address@ == list[i].address@);
    }
}

proof fn lemma_found_at(list: Seq<ResourceInfo>, kind: InstrumentKind, i: int)
    requires
        0 <= i <= list.len(),
        forall|k: int| 0 <= k < i ==> (#[trigger] list[k]).kind != Some(kind),
    ensures
        match found_at(list, kind, i) {
            Some(f) => i <= f < list.len() && list[f].kind == Some(kind) && forall|k: int|
                0 <= k < f ==> (#[trigger] list[k]).kind != Some(kind),
            None => forall|k: int| 0 <= k < list.len() ==> (#[trigger] list[k]).kind != Some(kind),
        },
    decreases list.len() - i,
{
    if i < list.len() && list[i].kind != Some(kind) {
        lemma_found_at(list, kind, i + 1);
    }
}

/// Law: connecting everything begins a connection to exactly the listed addresses that are not
/// blank and at which no instrument is connected, in the order of the list, and opens none of
/// them twice.
pub proof fn law_connect_all_skips_what_is_connected(
    before: Rack,
    after: Rack,
    usb: Seq<UsbAddress>,
    queued: Seq<ConnectRequest>,
)
    requires
        all_queued(before, after, usb, queued),
    ensures
        forall|k: int|
            0 <= k < queued.len() ==> text::trimmed((#[trigger] queued[k]).resource@).len() > 0
                && forall|d: int|
                0 <= d < before.devices@.len() ==> (#[trigger] before.devices@[d]).resource@
                    != queued[k].resource@,
        forall|i: int|
            0 <= i < before.resources@.len() && text::trimmed(
                (#[trigger] before.resources@[i]).address@,
            ).len() > 0 && (forall|d: int|
                0 <= d < before.devices@.len() ==> (#[trigger] before.devices@[d]).resource@
                    != before.resources@[i].address@) ==> exists|k: int|
                0 <= k < queued.len() && (#[trigger] queued[k]).resource@
                    == before.resources@[i].address@,
        addresses_differ(before.resources@) ==> forall|j: int, k: int|
            0 <= j < k < queued.len() ==> (#[trigger] queued[j]).resource@ != (
            #[trigger] queued[k]).resource@,
{
    let n = before.resources@.len() as int;
    let places = pending_places(before, n);
    lemma_pending_places(before, n);
    assert forall|k: int| 0 <= k < queued.len() implies text::trimmed(
        (#[trigger] queued[k]).resource@,
    ).len() > 0 && forall|d: int|
        0 <= d < before.devices@.len() ==> (#[trigger] before.devices@[d]).resource@
            != queued[k].resource@ by {
        assert(queued_as(queued[k], before, places, k, usb));
        assert(is_pending(before.resources@[places[k]], before.devices@));
    }
    assert forall|i: int|
        0 <= i < before.resources@.len() && text::trimmed(
            (#[trigger] before.resources@[i]).address@,
        ).len() > 0 && (forall|d: int|
            0 <= d < before.devices@.len() ==> (#[trigger] before.devices@[d]).resource@
                != before.resources@[i].address@) implies exists|k: int|
        0 <= k < queued.len() && (#[trigger] queued[k]).resource@
            == before.resources@[i].address@ by {
        assert(is_pending(before.resources@[i], before.devices@));
        assert(places.contains(i));
        let k = choose|k: int| 0 <= k < places.len() && places[k] == i;
        assert(queued_as(queued[k], before, places, k, usb));
    }
    if addresses_differ(before.resources@) {
        assert forall|j: int, k: int| 0 <= j < k < queued.len() implies (
        #[trigger] queued[j]).resource@ != (#[trigger] queued[k]).resource@ by {
            assert(queued_as(queued[j], before, places, j, usb));
            assert(queued_as(queued[k], before, places, k, usb));
            assert(places[j] < places[k]);
        }
    }
}

proof fn lemma_pending_places(rack: Rack, n: int)
    requires
        0 <= n <= rack.resources@.len(),
    ensures
        ({
            let p = pending_places(rack, n);
            &&& forall|k: int|
                0 <= k < p.len() ==> 0 <= #[trigger] p[k] < n && is_pending(
                    rack.resources@[p[k]],
                    rack.devices@,
                )
            &&& forall|j: int, k: int| 0 <= j < k < p.len() ==> #[trigger] p[j] < #[trigger] p[k]
            &&& forall|i: int|
                0 <= i < n && is_pending(#[trigger] rack.resources@[i], rack.devices@)
                    ==> p.contains(i)
        }),
    decreases n,
{
    if n > 0 {
        lemma_pending_places(rack, n - 1);
        let front = pending_places(rack, n - 1);
        let p = pending_places(rack, n);
        assert forall|i: int|
            0 <= i < n && is_pending(#[trigger] rack.resources@[i], rack.devices@) implies p.contains(
            i) by {
            if i < n - 1 {
                assert(front.contains(i));
                let k = choose|k: int| 0 <= k < front.len() && front[k] == i;
                assert(p[k] == i);
            } else {
                assert(p[p.len() - 1] == i);
            }
        }
    }
}

/// Law: an address of a USB device is opened as what it says, a probe and a bridge as what they
/// are, and any other instrument is asked what it is.
pub proof fn law_kind_to_open(kind: InstrumentKind, usb: UsbAddress)
    ensures
        usb.session ==> connect_kind(kind, usb) == usb.kind,
        !usb.session && (kind is DebugProbe || kind is UsbBridge) ==> connect_kind(kind, usb)
            == Some(kind),
        !usb.session && !(kind is DebugProbe) && !(kind is UsbBridge) ==> connect_kind(kind, usb)
            is None,
{
}

/// Law: a connection that was begun takes the next number, puts the address into the box of the
/// card of its kind and leaves every other box, the instruments and the list alone. It selects
/// the kind only where that was asked for and the overview is closed.
pub proof fn law_connection_fills_its_card(
    before: Rack,
    after: Rack,
    kind: InstrumentKind,
    resource: Seq<char>,
    select: bool,
)
    requires
        connect_begun(before, after, kind, resource, select),
    ensures
        after.next_id == before.next_id + 1,
        after.inputs@[instrument::slot_of(kind)]@ == resource,
        forall|s: int|
            0 <= s < CARD_COUNT && s != instrument::slot_of(kind) ==> (
            #[trigger] after.inputs@[s])@ == before.inputs@[s]@,
        after.devices == before.devices,
        after.resources == before.resources,
        select && !before.overview_open ==> after.selected_kind == kind,
        !select || before.overview_open ==> after.selected_kind == before.selected_kind
            && after.selected_id == before.selected_id && after.overview_open
            == before.overview_open,
{
}

/// Law: a demonstration is begun of exactly the kinds with a card of which no instrument is
/// connected, of none twice.
pub proof fn law_demonstrations_fill_the_gaps(devices: Seq<DeviceUi>)
    ensures
        ({
            let kinds = missing_kinds(devices, CARD_COUNT as int);
            &&& forall|kind: InstrumentKind|
                #[trigger] kinds.contains(kind) <==> !(kind is Generic) && forall|d: int|
                    0 <= d < devices.len() ==> (#[trigger] devices[d]).kind != kind
            &&& kinds.no_duplicates()
        }),
{
    lemma_missing(devices, CARD_COUNT as int);
    let kinds = missing_kinds(devices, CARD_COUNT as int);
    assert forall|kind: InstrumentKind| #[trigger] kinds.contains(kind) <==> !(kind is Generic)
        && forall|d: int| 0 <= d < devices.len() ==> (#[trigger] devices[d]).kind != kind by {
        if !(kind is Generic) {
            instrument::law_cards_stand_at_their_slots(kind);
            let k = instrument::slot_of(kind);
            assert(instrument::card_kinds()[k] == kind);
        } else if kinds.contains(kind) {
            let k = choose|k: int|
                0 <= k < CARD_COUNT && #[trigger] instrument::card_kinds()[k] == kind;
        }
    }
}

proof fn lemma_missing(devices: Seq<DeviceUi>, n: int)
    requires
        0 <= n <= CARD_COUNT,
    ensures
        ({
            let m = missing_kinds(devices, n);
            &&& forall|kind: InstrumentKind|
                #[trigger] m.contains(kind) ==> !rack::kind_connected(devices, kind) && exists|
                    k: int,
                | 0 <= k < n && #[trigger] instrument::card_kinds()[k] == kind
            &&& forall|k: int|
                0 <= k < n && !rack::kind_connected(
                    devices,
                    #[trigger] instrument::card_kinds()[k],
                ) ==> m.contains(instrument::card_kinds()[k])
            &&& m.no_duplicates()
        }),
    decreases n,
{
    if n > 0 {
        lemma_missing(devices, n - 1);
        let front = missing_kinds(devices, n - 1);
        let m = missing_kinds(devices, n);
        let last = instrument::card_kinds()[n - 1];
        assert(!front.contains(last)) by {
            if front.contains(last) {
                let k = choose|k: int|
                    0 <= k < n - 1 && #[trigger] instrument::card_kinds()[k] == last;
                assert(false);
            }
        }
        assert forall|kind: InstrumentKind| #[trigger] m.contains(
            kind,
        ) implies !rack::kind_connected(devices, kind) && exists|k: int|
            0 <= k < n && #[trigger] instrument::card_kinds()[k] == kind by {
            let i = choose|i: int| 0 <= i < m.len() && m[i] == kind;
            if i < front.len() {
                assert(front[i] == kind);
                assert(front.contains(kind));
            } else {
                assert(instrument::card_kinds()[n - 1] == kind);
            }
        }
        assert forall|k: int|
            0 <= k < n && !rack::kind_connected(
                devices,
                #[trigger] instrument::card_kinds()[k],
            ) implies m.contains(instrument::card_kinds()[k]) by {
            if k < n - 1 {
                let kind = instrument::card_kinds()[k];
                assert(front.contains(kind));
                let i = choose|i: int| 0 <= i < front.len() && front[i] == kind;
                assert(m[i] == kind);
            } else {
                assert(m[m.len() - 1] == last);
            }
        }
    }
}

/// Law: the demonstrations are exactly the instruments at addresses that start in `DEMO::`.
pub proof fn law_demonstrations_are_known_by_address(devices: Seq<DeviceUi>, id: u64)
    ensures
        demo_numbers(devices, devices.len() as int).contains(id) <==> exists|i: int|
            0 <= i < devices.len() && (#[trigger] devices[i]).id == id
                && "DEMO::"@.is_prefix_of(devices[i].resource@),
{
    lemma_demo_numbers(devices, devices.len() as int, id);
}

proof fn lemma_demo_numbers(devices: Seq<DeviceUi>, n: int, id: u64)
    requires
        0 <= n <= devices.len(),
    ensures
        demo_numbers(devices, n).contains(id) <==> exists|i: int|
            0 <= i < n && (#[trigger] devices[i]).id == id && "DEMO::"@.is_prefix_of(
                devices[i].resource@,
            ),
    decreases n,
{
    if n > 0 {
        lemma_demo_numbers(devices, n - 1, id);
        let front = demo_numbers(devices, n - 1);
        let all = demo_numbers(devices, n);
        let d = devices[n - 1];
        let prefix = "DEMO::"@;
        assert(text::has_prefix(d.resource@, prefix) <==> prefix.is_prefix_of(d.resource@)) by {
            if prefix.len() <= d.resource@.len() {
                assert(d.resource@.take(prefix.len() as int) =~= d.resource@.subrange(
                    0,
                    prefix.len() as int,
                ));
            }
        }
        if text::has_prefix(d.resource@, prefix) {
            assert(all.last() == d.id);
            if front.contains(id) {
                let k = choose|k: int| 0 <= k < front.len() && front[k] == id;
                assert(all[k] == id);
            }
            if all.contains(id) {
                let k = choose|k: int| 0 <= k < all.len() && all[k] == id;
                if k < front.len() {
                    assert(front[k] == id);
                } else {
                    assert(devices[n - 1].id == id);
                }
            }
            if d.id == id {
                assert(all[all.len() - 1] == id);
            }
        }
    }
}

/// Law: an address that starts in `DEMO::` opens a demonstration of its kind and never an
/// instrument, any other address opens an instrument and never a demonstration. A USB device is
/// opened as the probe or the bridge that it is; else a probe and a bridge are opened as such
/// and all others by commands.
pub proof fn law_demonstrations_open_no_instrument(
    resource: Seq<char>,
    kind: Option<InstrumentKind>,
    usb_bridge: Option<bool>,
)
    ensures
        ({
            let plan = session_plan(resource, kind, usb_bridge);
            let demo = "DEMO::"@.is_prefix_of(resource);
            &&& demo ==> match kind {
                Some(InstrumentKind::DebugProbe) => plan is DemoProbe,
                Some(InstrumentKind::UsbBridge) => plan is DemoBridge,
                Some(k) => plan == SessionPlan::DemoScpi(k),
                None => plan == SessionPlan::DemoScpi(InstrumentKind::Generic),
            }
            &&& !demo && usb_bridge == Some(true) ==> plan is Bridge
            &&& !demo && usb_bridge == Some(false) ==> plan is Probe
            &&& !demo && usb_bridge is None ==> match kind {
                Some(InstrumentKind::DebugProbe) => plan is Probe,
                Some(InstrumentKind::UsbBridge) => plan is Bridge,
                other => plan == SessionPlan::Scpi(other),
            }
        }),
{
    let prefix = "DEMO::"@;
    if prefix.len() <= resource.len() {
        assert(resource.take(prefix.len() as int) =~= resource.subrange(0, prefix.len() as int));
    }
}

/// No more kinds are missing than there are cards.
pub proof fn lemma_no_more_gaps_than_cards(devices: Seq<DeviceUi>, n: int)
    requires
        0 <= n,
    ensures
        missing_kinds(devices, n).len() <= n,
    decreases n,
{
    if n > 0 {
        lemma_no_more_gaps_than_cards(devices, n - 1);
    }
}

} // verus!
