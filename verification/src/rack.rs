//! The rack of instruments: what was found, what is connected, and what is selected.
use vstd::prelude::*;
use vstd::string::*;

use crate::controls::{
    BridgeControls, LoadControls, MeterControls, MeterFunction, ProbeControls, Real,
    ScopeControls, SourceControls,
};
use crate::instrument::{InstrumentKind, CARD_COUNT};
use crate::{controls, files, instrument, text};

verus! {

// ---------------------------------------------------------------------------
// Instruments
// ---------------------------------------------------------------------------

/// How an instrument identifies itself.
#[derive(Debug)]
pub struct Identity {
    pub manufacturer: String,
    pub model: String,
    pub serial: String,
    pub firmware: String,
    /// The whole identification.
    pub raw: String,
}

/// What an instrument can do.
#[derive(Debug)]
pub struct Capabilities {
    pub channels: u8,
    pub waveform: bool,
    pub screenshot: bool,
    pub source_output: bool,
    pub source_protection: bool,
    pub range_control: bool,
    pub nplc_control: bool,
    pub load_modes: Vec<String>,
    pub measure_functions: Vec<String>,
}

/// An address at which an instrument was found.
#[derive(Debug)]
pub struct ResourceInfo {
    pub address: String,
    pub transport: String,
    pub kind: Option<InstrumentKind>,
    pub identity: Option<Identity>,
    pub probe_error: Option<String>,
}

/// The controls of a connected instrument.
pub struct ControlState {
    pub scope: ScopeControls,
    pub source: SourceControls,
    pub load: LoadControls,
    pub meter: MeterControls,
    pub probe: ProbeControls,
    pub bridge: BridgeControls,
    pub console: String,
    pub io_log: String,
}

/// A connected instrument.
pub struct DeviceUi {
    pub id: u64,
    pub resource: String,
    pub identity: Identity,
    pub kind: InstrumentKind,
    pub profile: String,
    pub capabilities: Capabilities,
    pub controls: ControlState,
    pub acquiring: bool,
    pub paused: bool,
    pub last_activity: String,
}

/// The bits of zero.
pub const ZERO: u64 = 0;

/// The bits of one thousandth.
pub const THOUSANDTH: u64 = 0x3f50_624d_d2f1_a9fc;

/// The bits of one.
pub const ONE: u64 = 0x3ff0_0000_0000_0000;

/// The bits of one and a fifth.
pub const ONE_AND_A_FIFTH: u64 = 0x3ff3_3333_3333_3333;

/// The bits of five.
pub const FIVE: u64 = 0x4014_0000_0000_0000;

/// The bits of six.
pub const SIX: u64 = 0x4018_0000_0000_0000;

/// The bits of ten.
pub const TEN: u64 = 0x4024_0000_0000_0000;

impl ControlState {
    /// The controls of an instrument that was just connected.
    pub fn new(function: MeterFunction, meas_type: &str) -> (r: Self)
        ensures
            controls::scope_at_start(
                r.scope,
                meas_type@,
                (Real { bits: THOUSANDTH }),
                (Real { bits: ZERO }),
            ),
            controls::source_at_start(
                r.source,
                (Real { bits: FIVE }),
                (Real { bits: ONE }),
                (Real { bits: SIX }),
                (Real { bits: ONE_AND_A_FIFTH }),
            ),
            r.load.mode@ == "CC"@,
            r.load.level.bits == ONE,
            !r.load.input,
            r.meter.function == function,
            r.meter.autorange,
            r.meter.range.bits == TEN,
            r.meter.nplc.bits == ONE,
            controls::probe_at_start(r.probe),
            controls::bridge_at_start(r.bridge),
            r.console@ == "*IDN?"@,
            r.io_log@ == Seq::<char>::empty(),
    {
        let io_log = String::new();
        assert(io_log@ =~= Seq::<char>::empty());
        ControlState {
            scope: ScopeControls::new(meas_type, Real { bits: THOUSANDTH }, Real { bits: ZERO }),
            source: SourceControls::new(
                Real { bits: FIVE },
                Real { bits: ONE },
                Real { bits: SIX },
                Real { bits: ONE_AND_A_FIFTH },
            ),
            load: LoadControls::new(Real { bits: ONE }),
            meter: MeterControls::new(function, Real { bits: TEN }, Real { bits: ONE }),
            probe: ProbeControls::new(),
            bridge: BridgeControls::new(),
            console: "*IDN?".to_owned(),
            io_log,
        }
    }
}

// ---------------------------------------------------------------------------
// The rack
// ---------------------------------------------------------------------------

/// The rack.
pub struct Rack {
    pub resources: Vec<ResourceInfo>,
    /// The address in the box of each card.
    pub inputs: Vec<String>,
    pub devices: Vec<DeviceUi>,
    pub selected_kind: InstrumentKind,
    pub selected_id: Option<u64>,
    pub next_id: u64,
    pub overview_open: bool,
    /// For how many frames pictures are left out after a change of the kind.
    pub defer_frames: u8,
}

/// The first instrument of a kind from place `i` on.
pub open spec fn first_of_kind(devices: Seq<DeviceUi>, kind: InstrumentKind, i: int) -> Option<int>
    decreases devices.len() - i,
{
    if i < 0 || i >= devices.len() {
        None
    } else if devices[i].kind == kind {
        Some(i)
    } else {
        first_of_kind(devices, kind, i + 1)
    }
}

/// The first instrument with a number from place `i` on.
pub open spec fn device_at(devices: Seq<DeviceUi>, id: u64, i: int) -> Option<int>
    decreases devices.len() - i,
{
    if i < 0 || i >= devices.len() {
        None
    } else if devices[i].id == id {
        Some(i)
    } else {
        device_at(devices, id, i + 1)
    }
}

/// The first instrument with a number and a kind from place `i` on.
pub open spec fn device_of_kind_at(
    devices: Seq<DeviceUi>,
    id: u64,
    kind: InstrumentKind,
    i: int,
) -> Option<int>
    decreases devices.len() - i,
{
    if i < 0 || i >= devices.len() {
        None
    } else if devices[i].id == id && devices[i].kind == kind {
        Some(i)
    } else {
        device_of_kind_at(devices, id, kind, i + 1)
    }
}

/// The number of the instrument at a place.
pub open spec fn id_at(devices: Seq<DeviceUi>, at: Option<int>) -> Option<u64> {
    match at {
        Some(i) => Some(devices[i].id),
        None => None,
    }
}

/// Whether an instrument is connected at an address.
pub open spec fn address_connected(devices: Seq<DeviceUi>, address: Seq<char>) -> bool {
    exists|i: int| 0 <= i < devices.len() && (#[trigger] devices[i]).resource@ == address
}

/// Whether an instrument of a kind is connected.
pub open spec fn kind_connected(devices: Seq<DeviceUi>, kind: InstrumentKind) -> bool {
    exists|i: int| 0 <= i < devices.len() && (#[trigger] devices[i]).kind == kind
}

/// Whether an instrument of a kind was found.
pub open spec fn kind_found(resources: Seq<ResourceInfo>, kind: InstrumentKind) -> bool {
    exists|i: int| 0 <= i < resources.len() && (#[trigger] resources[i]).kind == Some(kind)
}

pub(crate) fn find_kind(devices: &Vec<DeviceUi>, kind: InstrumentKind) -> (r: Option<usize>)
    ensures
        match r {
            Some(i) => first_of_kind(devices@, kind, 0) == Some(i as int) && i < devices@.len()
                && devices@[i as int].kind == kind,
            None => first_of_kind(devices@, kind, 0) is None,
        },
        r is Some <==> kind_connected(devices@, kind),
{
    let mut i: usize = 0;
    while i < devices.len()
        invariant
            i <= devices@.len(),
            first_of_kind(devices@, kind, 0) == first_of_kind(devices@, kind, i as int),
            forall|k: int| 0 <= k < i ==> (#[trigger] devices@[k]).kind != kind,
        decreases devices@.len() - i,
    {
        if devices[i].kind == kind {
            return Some(i);
        }
        i = i + 1;
    }
    None
}

/// The place of the instrument with a number.
pub fn find_device(devices: &Vec<DeviceUi>, id: u64) -> (r: Option<usize>)
    ensures
        match r {
            Some(i) => device_at(devices@, id, 0) == Some(i as int) && i < devices@.len()
                && devices@[i as int].id == id,
            None => device_at(devices@, id, 0) is None && forall|k: int|
                0 <= k < devices@.len() ==> (#[trigger] devices@[k]).id != id,
        },
{
    let mut i: usize = 0;
    while i < devices.len()
        invariant
            i <= devices@.len(),
            device_at(devices@, id, 0) == device_at(devices@, id, i as int),
            forall|k: int| 0 <= k < i ==> (#[trigger] devices@[k]).id != id,
        decreases devices@.len() - i,
    {
        if devices[i].id == id {
            return Some(i);
        }
        i = i + 1;
    }
    None
}

fn find_device_of_kind(devices: &Vec<DeviceUi>, id: u64, kind: InstrumentKind) -> (r: Option<usize>)
    ensures
        match r {
            Some(i) => device_of_kind_at(devices@, id, kind, 0) == Some(i as int) && i
                < devices@.len() && devices@[i as int].id == id && devices@[i as int].kind == kind,
            None => device_of_kind_at(devices@, id, kind, 0) is None,
        },
{
    let mut i: usize = 0;
    while i < devices.len()
        invariant
            i <= devices@.len(),
            device_of_kind_at(devices@, id, kind, 0) == device_of_kind_at(
                devices@,
                id,
                kind,
                i as int,
            ),
        decreases devices@.len() - i,
    {
        if devices[i].id == id && devices[i].kind == kind {
            return Some(i);
        }
        i = i + 1;
    }
    None
}

/// Whether an instrument is connected at an address.
pub fn is_connected(devices: &Vec<DeviceUi>, address: &str) -> (r: bool)
    ensures
        r == address_connected(devices@, address@),
{
    let mut i: usize = 0;
    while i < devices.len()
        invariant
            i <= devices@.len(),
            forall|k: int| 0 <= k < i ==> (#[trigger] devices@[k]).resource@ != address@,
        decreases devices@.len() - i,
    {
        if text::same_text(devices[i].resource.as_str(), address) {
            assert(devices@[i as int].resource@ == address@);
            return true;
        }
        i = i + 1;
    }
    false
}

fn is_found(resources: &Vec<ResourceInfo>, kind: InstrumentKind) -> (r: bool)
    ensures
        r == kind_found(resources@, kind),
{
    let mut i: usize = 0;
    while i < resources.len()
        invariant
            i <= resources@.len(),
            forall|k: int| 0 <= k < i ==> (#[trigger] resources@[k]).kind != Some(kind),
        decreases resources@.len() - i,
    {
        let here: bool = match resources[i].kind {
            Some(k) => k == kind,
            None => false,
        };
        if here {
            assert(resources@[i as int].kind == Some(kind));
            return true;
        }
        i = i + 1;
    }
    false
}

// ---------------------------------------------------------------------------
// Selection
// ---------------------------------------------------------------------------

/// The instrument that is selected once a kind is: the selected one stays where it is of the
/// kind.
pub open spec fn selection_for(
    devices: Seq<DeviceUi>,
    selected: Option<u64>,
    kind: InstrumentKind,
) -> Option<u64> {
    match selected {
        Some(id) => if device_of_kind_at(devices, id, kind, 0) is Some {
            Some(id)
        } else {
            id_at(devices, first_of_kind(devices, kind, 0))
        },
        None => id_at(devices, first_of_kind(devices, kind, 0)),
    }
}

/// A rack with a kind selected.
pub open spec fn with_kind(rack: Rack, kind: InstrumentKind) -> Rack {
    Rack {
        overview_open: false,
        selected_kind: kind,
        selected_id: selection_for(rack.devices@, rack.selected_id, kind),
        defer_frames: if rack.selected_kind == kind {
            rack.defer_frames
        } else if kind is Oscilloscope {
            2
        } else {
            0
        },
        ..rack
    }
}

/// The kind whose card a found address goes to.
pub open spec fn target_kind(rack: Rack, place: int) -> InstrumentKind {
    match rack.resources@[place].kind {
        Some(kind) => kind,
        None => rack.selected_kind,
    }
}

/// Whether a rack stands as at start: the known addresses are listed, the first of them is in the
/// first box, and the overview is open.
pub open spec fn rack_at_start(r: Rack, known: Seq<String>) -> bool {
    &&& r.wf()
    &&& r.resources@.len() == known.len()
    &&& forall|i: int|
        0 <= i < known.len() ==> (#[trigger] r.resources@[i]).address@ == known[i]@
            && r.resources@[i].transport@ == "TCPIP"@ && r.resources@[i].kind is None
            && r.resources@[i].identity is None && r.resources@[i].probe_error is None
    &&& forall|s: int|
        0 <= s < CARD_COUNT ==> (#[trigger] r.inputs@[s])@ == if s == 0 && known.len() > 0 {
            known[0]@
        } else {
            Seq::empty()
        }
    &&& r.devices@.len() == 0
    &&& r.selected_kind is Oscilloscope
    &&& r.selected_id is None
    &&& r.next_id == 1
    &&& r.overview_open
    &&& r.defer_frames == 0
}

impl Rack {
    /// Whether every card has its address box.
    pub open spec fn wf(self) -> bool {
        self.inputs@.len() == CARD_COUNT
    }

    /// The rack at start: the known addresses, the first of them in the first box.
    pub fn new(known: Vec<String>) -> (r: Self)
        ensures
            rack_at_start(r, known@),
    {
        let mut resources: Vec<ResourceInfo> = Vec::new();
        let mut i: usize = 0;
        while i < known.len()
            invariant
                i <= known@.len(),
                resources@.len() == i,
                forall|k: int|
                    0 <= k < i ==> (#[trigger] resources@[k]).address@ == known@[k]@
                        && resources@[k].transport@ == "TCPIP"@ && resources@[k].kind is None
                        && resources@[k].identity is None && resources@[k].probe_error is None,
            decreases known@.len() - i,
        {
            resources.push(
                ResourceInfo {
                    address: known[i].clone(),
                    transport: "TCPIP".to_owned(),
                    kind: None,
                    identity: None,
                    probe_error: None,
                },
            );
            i = i + 1;
        }
        let mut inputs: Vec<String> = Vec::new();
        if known.len() > 0 {
            inputs.push(known[0].clone());
        } else {
            inputs.push(String::new());
        }
        let mut s: usize = 1;
        while s < CARD_COUNT
            invariant
                1 <= s <= CARD_COUNT,
                inputs@.len() == s,
                inputs@[0]@ == if known@.len() > 0 {
                    known@[0]@
                } else {
                    Seq::<char>::empty()
                },
                forall|k: int| 1 <= k < s ==> (#[trigger] inputs@[k])@ == Seq::<char>::empty(),
            decreases CARD_COUNT - s,
        {
            inputs.push(String::new());
            s = s + 1;
        }
        Rack {
            resources,
            inputs,
            devices: Vec::new(),
            selected_kind: InstrumentKind::Oscilloscope,
            selected_id: None,
            next_id: 1,
            overview_open: true,
            defer_frames: 0,
        }
    }

    /// Selects a kind and an instrument of it.
    pub fn select_kind(&mut self, kind: InstrumentKind)
        ensures
            *final(self) == with_kind(*old(self), kind),
    {
        let changed: bool = self.selected_kind != kind;
        let first = match find_kind(&self.devices, kind) {
            Some(i) => Some(self.devices[i].id),
            None => None,
        };
        let next = match self.selected_id {
            Some(id) => match find_device_of_kind(&self.devices, id, kind) {
                Some(_) => Some(id),
                None => first,
            },
            None => first,
        };
        self.overview_open = false;
        self.selected_kind = kind;
        self.selected_id = next;
        if changed {
            self.defer_frames = match kind {
                InstrumentKind::Oscilloscope => 2,
                _ => 0,
            };
        }
    }

    /// The kind whose card a found address goes to: its own, or else the selected one.
    pub fn resource_target(&self, place: usize) -> (r: InstrumentKind)
        requires
            place < self.resources@.len(),
        ensures
            r == target_kind(*self, place as int),
    {
        match self.resources[place].kind {
            Some(kind) => kind,
            None => self.selected_kind,
        }
    }

    /// Puts a found address into the box of its card and selects the kind of the card.
    pub fn fill_card(&mut self, place: usize)
        requires
            old(self).wf(),
            place < old(self).resources@.len(),
        ensures
            final(self).wf(),
            ({
                let kind = target_kind(*old(self), place as int);
                let slot = instrument::slot_of(kind);
                &&& final(self).inputs@[slot]@ == old(self).resources@[place as int].address@
                &&& forall|s: int|
                    0 <= s < CARD_COUNT && s != slot ==> #[trigger] final(self).inputs@[s] == old(
                        self,
                    ).inputs@[s]
                &&& *final(self) == (Rack {
                    inputs: final(self).inputs,
                    ..with_kind(*old(self), kind)
                })
            }),
    {
        let kind = self.resource_target(place);
        let slot: usize = instrument::instrument_kind_slot(kind);
        let address: String = self.resources[place].address.clone();
        self.inputs.set(slot, address);
        self.select_kind(kind);
    }

    /// Opens the overview.
    pub fn select_overview(&mut self)
        ensures
            *final(self) == (Rack { overview_open: true, selected_id: None, ..*old(self) }),
    {
        self.overview_open = true;
        self.selected_id = None;
    }

    /// The place of the instrument to work with: the selected one where it is of the selected
    /// kind, or else the first of the kind.
    pub fn active_device_index(&self) -> (r: Option<usize>)
        ensures
            match r {
                Some(i) => active_device(*self) == Some(i as int) && i < self.devices@.len()
                    && self.devices@[i as int].kind == self.selected_kind,
                None => active_device(*self) is None,
            },
    {
        match self.selected_id {
            Some(id) => match find_device_of_kind(&self.devices, id, self.selected_kind) {
                Some(i) => Some(i),
                None => find_kind(&self.devices, self.selected_kind),
            },
            None => find_kind(&self.devices, self.selected_kind),
        }
    }

    /// The oscilloscope to ask where none is named: the selected one, or else the first.
    pub fn first_oscilloscope_id(&self) -> (r: Option<u64>)
        ensures
            r == selection_for(
                self.devices@,
                self.selected_id,
                InstrumentKind::Oscilloscope,
            ),
    {
        let first = match find_kind(&self.devices, InstrumentKind::Oscilloscope) {
            Some(i) => Some(self.devices[i].id),
            None => None,
        };
        match self.selected_id {
            Some(id) => match find_device_of_kind(
                &self.devices,
                id,
                InstrumentKind::Oscilloscope,
            ) {
                Some(_) => Some(id),
                None => first,
            },
            None => first,
        }
    }

    /// One frame passed: the pictures are left out once less. Tells whether they are left out
    /// in this frame.
    pub fn take_defer_frame(&mut self) -> (deferred: bool)
        ensures
            deferred == (old(self).defer_frames > 0),
            *final(self) == (Rack {
                defer_frames: (if deferred {
                    old(self).defer_frames - 1
                } else {
                    0
                }) as u8,
                ..*old(self)
            }),
    {
        if self.defer_frames > 0 {
            self.defer_frames = self.defer_frames - 1;
            true
        } else {
            false
        }
    }
}

/// The place of the instrument to work with.
pub open spec fn active_device(rack: Rack) -> Option<int> {
    match rack.selected_id {
        Some(id) => match device_of_kind_at(rack.devices@, id, rack.selected_kind, 0) {
            Some(i) => Some(i),
            None => first_of_kind(rack.devices@, rack.selected_kind, 0),
        },
        None => first_of_kind(rack.devices@, rack.selected_kind, 0),
    }
}

proof fn lemma_device_of_kind_at(devices: Seq<DeviceUi>, id: u64, kind: InstrumentKind, i: int)
    requires
        0 <= i,
    ensures
        match device_of_kind_at(devices, id, kind, i) {
            Some(k) => i <= k < devices.len() && devices[k].id == id && devices[k].kind == kind,
            None => forall|k: int|
                i <= k < devices.len() ==> !((#[trigger] devices[k]).id == id && devices[k].kind
                    == kind),
        },
    decreases devices.len() - i,
{
    if i < devices.len() && !(devices[i].id == id && devices[i].kind == kind) {
        lemma_device_of_kind_at(devices, id, kind, i + 1);
    }
}

proof fn lemma_first_of_kind(devices: Seq<DeviceUi>, kind: InstrumentKind, i: int)
    requires
        0 <= i,
    ensures
        match first_of_kind(devices, kind, i) {
            Some(k) => i <= k < devices.len() && devices[k].kind == kind,
            None => forall|k: int| i <= k < devices.len() ==> (#[trigger] devices[k]).kind != kind,
        },
    decreases devices.len() - i,
{
    if i < devices.len() && devices[i].kind != kind {
        lemma_first_of_kind(devices, kind, i + 1);
    }
}

/// Law: after a kind is selected, the selected instrument is a connected one of that kind, and
/// there is one exactly where one is connected.
pub proof fn law_selection_is_of_the_kind(before: Rack, kind: InstrumentKind)
    ensures
        ({
            let after = with_kind(before, kind);
            &&& after.selected_id is Some <==> kind_connected(after.devices@, kind)
            &&& after.selected_id matches Some(id) ==> exists|k: int|
                0 <= k < after.devices@.len() && (#[trigger] after.devices@[k]).id == id
                    && after.devices@[k].kind == kind
        }),
{
    lemma_first_of_kind(before.devices@, kind, 0);
    match before.selected_id {
        Some(id) => {
            lemma_device_of_kind_at(before.devices@, id, kind, 0);
        },
        None => {},
    }
}

/// Law: selecting a kind twice is selecting it once.
pub proof fn law_selecting_twice_changes_nothing(rack: Rack, kind: InstrumentKind)
    ensures
        with_kind(with_kind(rack, kind), kind) == with_kind(rack, kind),
{
    let between = with_kind(rack, kind);
    lemma_first_of_kind(rack.devices@, kind, 0);
    match rack.selected_id {
        Some(id) => {
            lemma_device_of_kind_at(rack.devices@, id, kind, 0);
        },
        None => {},
    }
    match between.selected_id {
        Some(id) => {
            lemma_device_of_kind_at(rack.devices@, id, kind, 0);
        },
        None => {},
    }
}

// ---------------------------------------------------------------------------
// Cards
// ---------------------------------------------------------------------------

/// Whether a kind is connected or was found.
pub open spec fn kind_present(rack: Rack, kind: InstrumentKind) -> bool {
    kind_connected(rack.devices@, kind) || kind_found(rack.resources@, kind)
}

/// The cards among the first `n` that are shown: those present, and the selected one; an
/// instrument of no known kind that is selected follows the first card.
pub open spec fn shown_cards(rack: Rack, n: int) -> Seq<InstrumentKind>
    decreases n,
{
    if n <= 0 {
        Seq::empty()
    } else {
        let kind = instrument::card_kinds()[n - 1];
        let front = shown_cards(rack, n - 1);
        let here = if kind_present(rack, kind) || rack.selected_kind == kind {
            front.push(kind)
        } else {
            front
        };
        if n == 1 && rack.selected_kind is Generic {
            here.push(InstrumentKind::Generic)
        } else {
            here
        }
    }
}

/// The cards that are shown: all of them while nothing is present or when debugging.
pub open spec fn visible_kinds(rack: Rack, debug: bool) -> Seq<InstrumentKind> {
    if debug || !(exists|k: int|
        0 <= k < CARD_COUNT && kind_present(rack, #[trigger] instrument::card_kinds()[k])) {
        instrument::card_kinds()
    } else {
        shown_cards(rack, CARD_COUNT as int)
    }
}

impl Rack {
    fn is_present(&self, kind: InstrumentKind) -> (r: bool)
        ensures
            r == kind_present(*self, kind),
    {
        find_kind(&self.devices, kind).is_some() || is_found(&self.resources, kind)
    }

    /// The cards that are shown.
    pub fn visible_instrument_kinds(&self, debug: bool) -> (r: Vec<InstrumentKind>)
        ensures
            r@ == visible_kinds(*self, debug),
    {
        let all = instrument::all_card_kinds();
        if debug {
            return all;
        }
        let generic: bool = match self.selected_kind {
            InstrumentKind::Generic => true,
            _ => false,
        };
        let mut r: Vec<InstrumentKind> = Vec::new();
        let mut any: bool = false;
        let mut i: usize = 0;
        while i < CARD_COUNT
            invariant
                i <= CARD_COUNT,
                all@ == instrument::card_kinds(),
                generic == (self.selected_kind is Generic),
                r@ == shown_cards(*self, i as int),
                any == exists|k: int|
                    0 <= k < i && kind_present(*self, #[trigger] instrument::card_kinds()[k]),
            decreases CARD_COUNT - i,
        {
            let kind = all[i];
            let present: bool = self.is_present(kind);
            if present {
                any = true;
                assert(kind_present(*self, instrument::card_kinds()[i as int]));
            }
            if present || self.selected_kind == kind {
                r.push(kind);
            }
            if i == 0 && generic {
                r.push(InstrumentKind::Generic);
            }
            i = i + 1;
        }
        if any {
            r
        } else {
            all
        }
    }
}

/// What a card shows of the instruments of its kind.
pub enum CardStatus {
    Disconnected,
    /// One instrument: its model.
    One(String),
    Many(usize),
}

/// How many of the first `n` instruments are of a kind.
pub open spec fn count_of_kind(devices: Seq<DeviceUi>, kind: InstrumentKind, n: int) -> nat
    decreases n,
{
    if n <= 0 {
        0
    } else {
        count_of_kind(devices, kind, n - 1) + if devices[n - 1].kind == kind {
            1nat
        } else {
            0nat
        }
    }
}

/// How many of the first `n` addresses are of a kind.
pub open spec fn found_of_kind(resources: Seq<ResourceInfo>, kind: InstrumentKind, n: int) -> nat
    decreases n,
{
    if n <= 0 {
        0
    } else {
        found_of_kind(resources, kind, n - 1) + if resources[n - 1].kind == Some(kind) {
            1nat
        } else {
            0nat
        }
    }
}

/// A card: what it shows and what it offers.
pub struct Card {
    pub status: CardStatus,
    /// How many addresses of the kind were found.
    pub matching: usize,
    pub can_connect: bool,
    /// The instrument that it disconnects.
    pub connected_id: Option<u64>,
    pub selected: bool,
}

impl Rack {
    /// How many instruments of a kind are connected.
    pub fn count_connected(&self, kind: InstrumentKind) -> (r: usize)
        ensures
            r == count_of_kind(self.devices@, kind, self.devices@.len() as int),
    {
        let mut n: usize = 0;
        let mut i: usize = 0;
        while i < self.devices.len()
            invariant
                i <= self.devices@.len(),
                n == count_of_kind(self.devices@, kind, i as int),
                n <= i,
            decreases self.devices@.len() - i,
        {
            if self.devices[i].kind == kind {
                n = n + 1;
            }
            i = i + 1;
        }
        n
    }

    fn count_found(&self, kind: InstrumentKind) -> (r: usize)
        ensures
            r == found_of_kind(self.resources@, kind, self.resources@.len() as int),
    {
        let mut n: usize = 0;
        let mut i: usize = 0;
        while i < self.resources.len()
            invariant
                i <= self.resources@.len(),
                n == found_of_kind(self.resources@, kind, i as int),
                n <= i,
            decreases self.resources@.len() - i,
        {
            let here: bool = match self.resources[i].kind {
                Some(k) => k == kind,
                None => false,
            };
            if here {
                n = n + 1;
            }
            i = i + 1;
        }
        n
    }

    /// What the card of a kind shows and offers.
    pub fn card(&self, kind: InstrumentKind) -> (r: Card)
        requires
            self.wf(),
        ensures
            r.matching == found_of_kind(self.resources@, kind, self.resources@.len() as int),
            r.can_connect == (text::trimmed(self.inputs@[instrument::slot_of(kind)]@).len() > 0
                || self.resources@.len() > 0),
            r.connected_id == id_at(self.devices@, first_of_kind(self.devices@, kind, 0)),
            r.selected == (!self.overview_open && self.selected_kind == kind),
            ({
                let n = count_of_kind(self.devices@, kind, self.devices@.len() as int);
                match r.status {
                    CardStatus::Disconnected => n == 0,
                    CardStatus::One(model) => n == 1 && model@
                        == self.devices@[first_of_kind(self.devices@, kind, 0)->Some_0].identity.model@,
                    CardStatus::Many(m) => n > 1 && m == n,
                }
            }),
    {
        let slot: usize = instrument::instrument_kind_slot(kind);
        let count: usize = self.count_connected(kind);
        let first = find_kind(&self.devices, kind);
        proof {
            lemma_count_of_kind(self.devices@, kind, self.devices@.len() as int);
            lemma_first_of_kind(self.devices@, kind, 0);
        }
        let status = if count > 1 {
            CardStatus::Many(count)
        } else {
            match first {
                Some(i) => CardStatus::One(self.devices[i].identity.model.clone()),
                None => CardStatus::Disconnected,
            }
        };
        let connected_id = match first {
            Some(i) => Some(self.devices[i].id),
            None => None,
        };
        Card {
            status,
            matching: self.count_found(kind),
            can_connect: !text::is_blank(self.inputs[slot].as_str()) || self.resources.len() > 0,
            connected_id,
            selected: !self.overview_open && self.selected_kind == kind,
        }
    }
}

proof fn lemma_count_of_kind(devices: Seq<DeviceUi>, kind: InstrumentKind, n: int)
    requires
        0 <= n <= devices.len(),
    ensures
        count_of_kind(devices, kind, n) > 0 <==> exists|k: int|
            0 <= k < n && (#[trigger] devices[k]).kind == kind,
    decreases n,
{
    if n > 0 {
        lemma_count_of_kind(devices, kind, n - 1);
        if devices[n - 1].kind == kind {
            assert(devices[n - 1].kind == kind);
        }
        if count_of_kind(devices, kind, n) > 0 && devices[n - 1].kind != kind {
            let k = choose|k: int| 0 <= k < n - 1 && (#[trigger] devices[k]).kind == kind;
            assert(0 <= k < n);
        }
    }
}

/// What was done on a card in a frame.
pub struct CardUse {
    pub name_clicked: bool,
    pub list_clicked: bool,
    pub box_focused: bool,
    pub connect_clicked: bool,
    pub disconnect_clicked: bool,
    pub background_clicked: bool,
}

/// What a card asks for.
pub struct CardAction {
    pub select: bool,
    pub connect: bool,
    pub disconnect: Option<u64>,
}

/// Whether `r` is what using a card comes to.
pub open spec fn is_card_action(r: CardAction, card: Card, used: CardUse) -> bool {
    &&& r.connect == (used.connect_clicked && card.can_connect)
    &&& r.disconnect == if used.disconnect_clicked {
        card.connected_id
    } else {
        None
    }
    &&& r.select == (used.name_clicked || used.list_clicked || used.box_focused || r.connect || (
    used.background_clicked && r.disconnect is None))
}

/// What a card asks for: connecting only where it is offered, disconnecting the instrument
/// that it shows. A click beside the controls selects the card; disconnecting does not.
pub fn card_action(card: &Card, used: CardUse) -> (r: CardAction)
    ensures
        is_card_action(r, *card, used),
{
    let connect: bool = used.connect_clicked && card.can_connect;
    let disconnect = if used.disconnect_clicked {
        card.connected_id
    } else {
        None
    };
    let select: bool = used.name_clicked || used.list_clicked || used.box_focused || connect || (
    used.background_clicked && disconnect.is_none());
    CardAction { select, connect, disconnect }
}

/// The label of an address in the list of a card of another or of its own kind.
pub fn resource_label(resource: &ResourceInfo, own: bool, kind_label: &str) -> (r: String)
    ensures
        r@ == ({
            let plain = resource.transport@ + "  "@ + files::elided(resource.address@, 34);
            if own {
                match resource.identity {
                    Some(id) => plain + " ("@ + id.model@ + ")"@,
                    None => plain,
                }
            } else {
                "["@ + kind_label@ + "] "@ + plain
            }
        }),
{
    let address = files::short_resource(resource.address.as_str());
    let mut plain = text::join3(resource.transport.as_str(), "  ", address.as_str());
    if own {
        match &resource.identity {
            Some(id) => {
                plain.append(" (");
                plain.append(id.model.as_str());
                plain.append(")");
                plain
            },
            None => plain,
        }
    } else {
        let mut r = text::join3("[", kind_label, "] ");
        r.append(plain.as_str());
        assert(r@ =~= "["@ + kind_label@ + "] "@ + plain@);
        r
    }
}

// ---------------------------------------------------------------------------
// What holds of selections and cards
// ---------------------------------------------------------------------------

pub proof fn lemma_first_of_kind_is(devices: Seq<DeviceUi>, kind: InstrumentKind, i: int)
    requires
        0 <= i <= devices.len(),
        forall|k: int| 0 <= k < i ==> (#[trigger] devices[k]).kind != kind,
    ensures
        match first_of_kind(devices, kind, i) {
            Some(f) => i <= f < devices.len() && devices[f].kind == kind && forall|k: int|
                0 <= k < f ==> (#[trigger] devices[k]).kind != kind,
            None => forall|k: int| 0 <= k < devices.len() ==> (#[trigger] devices[k]).kind != kind,
        },
    decreases devices.len() - i,
{
    if i < devices.len() && devices[i].kind != kind {
        lemma_first_of_kind_is(devices, kind, i + 1);
    }
}

proof fn lemma_device_of_kind_is(devices: Seq<DeviceUi>, id: u64, kind: InstrumentKind, i: int)
    requires
        0 <= i <= devices.len(),
        forall|k: int|
            0 <= k < i ==> (#[trigger] devices[k]).id != id || devices[k].kind != kind,
    ensures
        match device_of_kind_at(devices, id, kind, i) {
            Some(f) => i <= f < devices.len() && devices[f].id == id && devices[f].kind == kind,
            None => forall|k: int|
                0 <= k < devices.len() ==> (#[trigger] devices[k]).id != id || devices[k].kind
                    != kind,
        },
    decreases devices.len() - i,
{
    if i < devices.len() && !(devices[i].id == id && devices[i].kind == kind) {
        lemma_device_of_kind_is(devices, id, kind, i + 1);
    }
}

/// Law: the instrument found by a number has that number and is the first that has; none is
/// found exactly where none has it.
pub proof fn law_device_is_found_by_number(devices: Seq<DeviceUi>, id: u64)
    ensures
        match device_at(devices, id, 0) {
            Some(f) => 0 <= f < devices.len() && devices[f].id == id && forall|k: int|
                0 <= k < f ==> (#[trigger] devices[k]).id != id,
            None => forall|k: int| 0 <= k < devices.len() ==> (#[trigger] devices[k]).id != id,
        },
{
    lemma_device_at_is(devices, id, 0);
}

proof fn lemma_device_at_is(devices: Seq<DeviceUi>, id: u64, i: int)
    requires
        0 <= i <= devices.len(),
        forall|k: int| 0 <= k < i ==> (#[trigger] devices[k]).id != id,
    ensures
        match device_at(devices, id, i) {
            Some(f) => i <= f < devices.len() && devices[f].id == id && forall|k: int|
                0 <= k < f ==> (#[trigger] devices[k]).id != id,
            None => forall|k: int| 0 <= k < devices.len() ==> (#[trigger] devices[k]).id != id,
        },
    decreases devices.len() - i,
{
    if i < devices.len() && devices[i].id != id {
        lemma_device_at_is(devices, id, i + 1);
    }
}

/// Law: selecting a kind shows its card in place of the overview. The selected instrument stays
/// selected where it is of the kind; else the first connected one of the kind is selected, and
/// none where there is none. Neither the instruments nor the addresses change.
pub proof fn law_selecting_a_kind(before: Rack, kind: InstrumentKind)
    ensures
        ({
            let after = with_kind(before, kind);
            let d = before.devices@;
            &&& after.selected_kind == kind
            &&& !after.overview_open
            &&& after.devices == before.devices && after.resources == before.resources
                && after.inputs == before.inputs && after.next_id == before.next_id
            &&& (exists|k: int|
                0 <= k < d.len() && Some((#[trigger] d[k]).id) == before.selected_id && d[k].kind
                    == kind) ==> after.selected_id == before.selected_id
            &&& (before.selected_id is None || (forall|k: int|
                0 <= k < d.len() ==> Some((#[trigger] d[k]).id) != before.selected_id || d[k].kind
                    != kind)) ==> match after.selected_id {
                Some(id) => exists|k: int|
                    0 <= k < d.len() && (#[trigger] d[k]).id == id && d[k].kind == kind && forall|
                        j: int,
                    | 0 <= j < k ==> (#[trigger] d[j]).kind != kind,
                None => forall|k: int| 0 <= k < d.len() ==> (#[trigger] d[k]).kind != kind,
            }
        }),
{
    let d = before.devices@;
    lemma_first_of_kind_is(d, kind, 0);
    match before.selected_id {
        Some(id) => {
            lemma_device_of_kind_is(d, id, kind, 0);
        },
        None => {},
    }
    match first_of_kind(d, kind, 0) {
        Some(f) => {
            assert(d[f].kind == kind);
        },
        None => {},
    }
}

/// Law: the instrument to work with is of the selected kind: the selected one where it is of
/// that kind, else the first of the kind; there is none exactly where none is connected.
pub proof fn law_active_device_is_of_the_selected_kind(rack: Rack)
    ensures
        ({
            let d = rack.devices@;
            match active_device(rack) {
                Some(i) => {
                    &&& 0 <= i < d.len()
                    &&& d[i].kind == rack.selected_kind
                    &&& Some(d[i].id) == rack.selected_id || forall|k: int|
                        0 <= k < i ==> (#[trigger] d[k]).kind != rack.selected_kind
                    &&& (exists|k: int|
                        0 <= k < d.len() && Some((#[trigger] d[k]).id) == rack.selected_id
                            && d[k].kind == rack.selected_kind) ==> Some(d[i].id)
                        == rack.selected_id
                },
                None => forall|k: int|
                    0 <= k < d.len() ==> (#[trigger] d[k]).kind != rack.selected_kind,
            }
        }),
{
    let d = rack.devices@;
    lemma_first_of_kind_is(d, rack.selected_kind, 0);
    match rack.selected_id {
        Some(id) => {
            lemma_device_of_kind_is(d, id, rack.selected_kind, 0);
        },
        None => {},
    }
}

/// Law: while debugging, and while nothing with a card is connected or found, all cards are
/// shown. Otherwise the cards shown are those of which an instrument is connected or found, and
/// the selected one.
pub proof fn law_cards_shown_are_present(rack: Rack, debug: bool, kind: InstrumentKind)
    requires
        !(kind is Generic),
    ensures
        ({
            let here = |k: InstrumentKind|
                (exists|i: int|
                    0 <= i < rack.devices@.len() && (#[trigger] rack.devices@[i]).kind == k)
                    || (exists|i: int|
                    0 <= i < rack.resources@.len() && (#[trigger] rack.resources@[i]).kind
                        == Some(k));
            let nothing = forall|k: InstrumentKind| !(k is Generic) ==> !#[trigger] here(k);
            let shown = visible_kinds(rack, debug);
            &&& debug || nothing ==> shown.contains(kind) && shown.len() == CARD_COUNT
            &&& !debug && !nothing ==> (shown.contains(kind) <==> here(kind)
                || rack.selected_kind == kind)
        }),
{
    let here = |k: InstrumentKind|
        (exists|i: int| 0 <= i < rack.devices@.len() && (#[trigger] rack.devices@[i]).kind == k)
            || (exists|i: int|
            0 <= i < rack.resources@.len() && (#[trigger] rack.resources@[i]).kind == Some(k));
    let nothing = forall|k: InstrumentKind| !(k is Generic) ==> !#[trigger] here(k);
    assert forall|k: InstrumentKind| #[trigger] here(k) == kind_present(rack, k) by {}
    let cards = instrument::card_kinds();
    instrument::law_cards_stand_at_their_slots(kind);
    assert(cards[instrument::slot_of(kind)] == kind);
    assert(cards.contains(kind));
    let some = exists|k: int| 0 <= k < CARD_COUNT && kind_present(rack, #[trigger] cards[k]);
    assert(some == !nothing) by {
        if some {
            let k = choose|k: int| 0 <= k < CARD_COUNT && kind_present(rack, #[trigger] cards[k]);
            assert(here(cards[k]));
        }
        if !nothing {
            let k = choose|k: InstrumentKind| !(k is Generic) && #[trigger] here(k);
            instrument::law_cards_stand_at_their_slots(k);
            assert(kind_present(rack, cards[instrument::slot_of(k)]));
        }
    }
    lemma_shown_cards(rack, kind, CARD_COUNT as int);
}

proof fn lemma_shown_cards(rack: Rack, kind: InstrumentKind, n: int)
    requires
        0 <= n <= CARD_COUNT,
        !(kind is Generic),
    ensures
        shown_cards(rack, n).contains(kind) <==> instrument::slot_of(kind) < n && (kind_present(
            rack,
            kind,
        ) || rack.selected_kind == kind),
    decreases n,
{
    if n > 0 {
        lemma_shown_cards(rack, kind, n - 1);
        let last = instrument::card_kinds()[n - 1];
        let front = shown_cards(rack, n - 1);
        let here = if kind_present(rack, last) || rack.selected_kind == last {
            front.push(last)
        } else {
            front
        };
        let all = shown_cards(rack, n);
        assert(last == kind <==> instrument::slot_of(kind) == n - 1);
        assert(front.contains(kind) || (here.len() > front.len() && last == kind)
            <==> here.contains(kind)) by {
            if front.contains(kind) {
                let k = choose|k: int| 0 <= k < front.len() && front[k] == kind;
                assert(here[k] == kind);
            }
            if here.len() > front.len() && last == kind {
                assert(here[here.len() - 1] == kind);
            }
            if here.contains(kind) {
                let k = choose|k: int| 0 <= k < here.len() && here[k] == kind;
                if k < front.len() {
                    assert(front[k] == kind);
                }
            }
        }
        assert(all.contains(kind) <==> here.contains(kind)) by {
            if here.contains(kind) {
                let k = choose|k: int| 0 <= k < here.len() && here[k] == kind;
                assert(all[k] == kind);
            }
            if all.contains(kind) {
                let k = choose|k: int| 0 <= k < all.len() && all[k] == kind;
                if k < here.len() {
                    assert(here[k] == kind);
                }
            }
        }
    }
}

/// Law: a card counts the connected instruments and the found addresses of its kind.
pub proof fn law_cards_count_their_kind(
    devices: Seq<DeviceUi>,
    resources: Seq<ResourceInfo>,
    kind: InstrumentKind,
)
    ensures
        count_of_kind(devices, kind, devices.len() as int) == devices.filter(
            |d: DeviceUi| d.kind == kind,
        ).len(),
        found_of_kind(resources, kind, resources.len() as int) == resources.filter(
            |r: ResourceInfo| r.kind == Some(kind),
        ).len(),
{
    lemma_counts_of_kind(devices, kind, devices.len() as int);
    lemma_found_of_kind(resources, kind, resources.len() as int);
    assert(devices.take(devices.len() as int) =~= devices);
    assert(resources.take(resources.len() as int) =~= resources);
}

proof fn lemma_counts_of_kind(devices: Seq<DeviceUi>, kind: InstrumentKind, n: int)
    requires
        0 <= n <= devices.len(),
    ensures
        count_of_kind(devices, kind, n) == devices.take(n).filter(
            |d: DeviceUi| d.kind == kind,
        ).len(),
    decreases n,
{
    reveal(Seq::filter);
    if n > 0 {
        lemma_counts_of_kind(devices, kind, n - 1);
        assert(devices.take(n).drop_last() =~= devices.take(n - 1));
    }
}

proof fn lemma_found_of_kind(resources: Seq<ResourceInfo>, kind: InstrumentKind, n: int)
    requires
        0 <= n <= resources.len(),
    ensures
        found_of_kind(resources, kind, n) == resources.take(n).filter(
            |r: ResourceInfo| r.kind == Some(kind),
        ).len(),
    decreases n,
{
    reveal(Seq::filter);
    if n > 0 {
        lemma_found_of_kind(resources, kind, n - 1);
        assert(resources.take(n).drop_last() =~= resources.take(n - 1));
    }
}

/// Law: a found address goes to the card of its kind, and one of which the kind is not known to
/// the card that is selected.
pub proof fn law_found_address_goes_to_its_card(rack: Rack, place: int)
    ensures
        rack.resources@[place].kind matches Some(kind) ==> target_kind(rack, place) == kind,
        rack.resources@[place].kind is None ==> target_kind(rack, place) == rack.selected_kind,
{
}

/// Law: a card connects where that was clicked and can be done, disconnects the instrument that
/// it shows, and is selected by a click on it, but not by the click that disconnects.
pub proof fn law_card_does_what_was_clicked(r: CardAction, card: Card, used: CardUse)
    requires
        is_card_action(r, card, used),
    ensures
        r.connect ==> used.connect_clicked && card.can_connect && r.select,
        used.connect_clicked && card.can_connect ==> r.connect,
        r.disconnect is Some ==> used.disconnect_clicked && r.disconnect == card.connected_id,
        used.disconnect_clicked ==> r.disconnect == card.connected_id,
        used.name_clicked || used.list_clicked || used.box_focused ==> r.select,
        used.background_clicked && !used.disconnect_clicked ==> r.select,
        r.select ==> used.name_clicked || used.list_clicked || used.box_focused
            || used.connect_clicked || used.background_clicked,
        used.disconnect_clicked && card.connected_id is Some && !used.name_clicked
            && !used.list_clicked && !used.box_focused && !r.connect ==> !r.select,
{
}

/// Law: at start the rack knows the addresses of the last time, in their order and nothing of what
/// is there; the first one is on the first card. No instrument is there, the overview is open, and
/// numbers begin with one.
pub proof fn law_rack_starts_with_the_known_addresses(r: Rack, known: Seq<String>, i: int)
    requires
        rack_at_start(r, known),
    ensures
        r.resources@.len() == known.len(),
        0 <= i < known.len() ==> r.resources@[i].address@ == known[i]@ && r.resources@[i].kind
            is None && r.resources@[i].identity is None && r.resources@[i].probe_error is None
            && r.resources@[i].transport@ == "TCPIP"@,
        known.len() > 0 ==> r.inputs@[0]@ == known[0]@,
        known.len() == 0 ==> r.inputs@[0]@.len() == 0,
        1 <= i < CARD_COUNT ==> r.inputs@[i]@.len() == 0,
        r.devices@.len() == 0 && r.selected_id is None && r.next_id == 1 && r.overview_open
            && r.selected_kind is Oscilloscope,
{
    assert(r.inputs@[0]@ == if known.len() > 0 {
        known[0]@
    } else {
        Seq::empty()
    });
}

} // verus!
