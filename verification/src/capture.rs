//! Serial capture: port settings, the incoming lines, time stamps and the live log file.
use vstd::prelude::*;
use vstd::string::*;

use crate::{files, search, text};

verus! {

broadcast use vstd::string::group_string_axioms;

/// Lines taken over per frame, so that a backlog cannot stall the display.
pub const DRAIN_LINES_PER_FRAME: usize = 400;

/// Lines kept in the backlog; the oldest are dropped.
pub const MAX_PENDING_LINES: usize = 1_000;

// ---------------------------------------------------------------------------
// Port settings
// ---------------------------------------------------------------------------

/// The serial port and its speed, as chosen in the side bar.
pub struct PortSettings {
    pub ports: Vec<String>,
    pub selected_port: usize,
    pub baud: String,
    pub baud_options: Vec<String>,
    pub baud_custom: bool,
}

/// Model of [`PortSettings`].
pub struct PortView {
    pub ports: Seq<Seq<char>>,
    pub selected_port: usize,
    pub baud: Seq<char>,
    pub baud_options: Seq<Seq<char>>,
    pub baud_custom: bool,
}

impl View for PortSettings {
    type V = PortView;

    open spec fn view(&self) -> PortView {
        PortView {
            ports: search::views(self.ports@),
            selected_port: self.selected_port,
            baud: self.baud@,
            baud_options: search::views(self.baud_options@),
            baud_custom: self.baud_custom,
        }
    }
}

/// The speeds offered when the configuration names none.
pub open spec fn default_bauds() -> Seq<Seq<char>> {
    seq!["115200"@, "1000000"@, "2000000"@]
}

/// The speeds that are offered.
pub open spec fn offered_bauds(configured: Seq<Seq<char>>) -> Seq<Seq<char>> {
    if configured.len() == 0 {
        default_bauds()
    } else {
        configured
    }
}

/// The speed as a number, if it is one that a port can be opened with.
pub open spec fn baud_rate(baud: Seq<char>) -> Option<nat> {
    match text::number_of(baud, u32::MAX as nat) {
        Some(n) => if n > 0 {
            Some(n)
        } else {
            None
        },
        None => None,
    }
}

/// Why a port cannot be opened.
#[derive(Debug, Clone, Copy, PartialEq, Eq, Structural)]
pub enum PortError {
    NoPort,
    BadBaud,
}

/// `s` without the characters that are no digits.
pub open spec fn digits_of(s: Seq<char>) -> Seq<char>
    decreases s.len(),
{
    if s.len() == 0 {
        Seq::empty()
    } else {
        let front = digits_of(s.drop_last());
        if text::is_digit(s.last()) {
            front.push(s.last())
        } else {
            front
        }
    }
}

/// The first index from `i` on at which `list` holds `s`.
pub open spec fn position_of(list: Seq<Seq<char>>, s: Seq<char>, i: int) -> Option<int>
    decreases list.len() - i,
{
    if i < 0 || i >= list.len() {
        None
    } else if list[i] == s {
        Some(i)
    } else {
        position_of(list, s, i + 1)
    }
}

/// The settings with a port asked for from outside: selected, and put in front of the list when
/// it is not there.
pub open spec fn with_port(s: PortView, port: Seq<char>) -> PortView {
    match position_of(s.ports, port, 0) {
        Some(i) => PortView { selected_port: i as usize, ..s },
        None => PortView { ports: seq![port] + s.ports, selected_port: 0, ..s },
    }
}

/// The settings with a speed asked for from outside.
pub open spec fn with_baud(s: PortView, baud: nat) -> PortView {
    let t = text::decimal(baud);
    PortView { baud: t, baud_custom: position_of(s.baud_options, t, 0) is None, ..s }
}

fn find_text(list: &Vec<String>, s: &str) -> (r: Option<usize>)
    ensures
        match r {
            Some(i) => position_of(search::views(list@), s@, 0) == Some(i as int) && i
                < list@.len(),
            None => position_of(search::views(list@), s@, 0) is None,
        },
{
    let ghost all = search::views(list@);
    let mut i: usize = 0;
    while i < list.len()
        invariant
            i <= list@.len(),
            all == search::views(list@),
            position_of(all, s@, 0) == position_of(all, s@, i as int),
        decreases list@.len() - i,
    {
        if text::same_text(list[i].as_str(), s) {
            return Some(i);
        }
        i = i + 1;
    }
    None
}

fn keep_digits(s: &str) -> (r: String)
    ensures
        r@ == digits_of(s@),
{
    let v = text::chars_of(s);
    let mut r = String::new();
    let mut i: usize = 0;
    assert(v@.take(0) =~= Seq::<char>::empty());
    while i < v.len()
        invariant
            i <= v@.len(),
            r@ == digits_of(v@.take(i as int)),
        decreases v@.len() - i,
    {
        assert(v@.take(i + 1).drop_last() =~= v@.take(i as int));
        if '0' <= v[i] && v[i] <= '9' {
            r.push(v[i]);
        }
        i = i + 1;
    }
    assert(v@.take(i as int) =~= v@);
    r
}

impl PortSettings {
    /// The settings at start: the first speed that is offered.
    pub fn new(ports: Vec<String>, configured: Vec<String>) -> (r: Self)
        ensures
            r@ == (PortView {
                ports: search::views(ports@),
                selected_port: 0,
                baud: offered_bauds(search::views(configured@))[0],
                baud_options: offered_bauds(search::views(configured@)),
                baud_custom: false,
            }),
    {
        let baud_options = if configured.len() == 0 {
            let mut list: Vec<String> = Vec::new();
            list.push("115200".to_owned());
            list.push("1000000".to_owned());
            list.push("2000000".to_owned());
            assert(search::views(list@) =~= default_bauds());
            list
        } else {
            configured
        };
        let baud = baud_options[0].clone();
        PortSettings { ports, selected_port: 0, baud, baud_options, baud_custom: false }
    }

    /// Takes over a new list of ports; a selection past its end falls back to the first.
    pub fn refresh_ports(&mut self, ports: Vec<String>)
        ensures
            final(self)@ == (PortView {
                ports: search::views(ports@),
                selected_port: if old(self)@.selected_port >= ports@.len() {
                    0
                } else {
                    old(self)@.selected_port
                },
                ..old(self)@
            }),
    {
        if self.selected_port >= ports.len() {
            self.selected_port = 0;
        }
        self.ports = ports;
    }

    /// An offered speed was chosen.
    pub fn choose_baud(&mut self, option: usize)
        requires
            option < old(self)@.baud_options.len(),
        ensures
            final(self)@ == (PortView {
                baud: old(self)@.baud_options[option as int],
                baud_custom: false,
                ..old(self)@
            }),
    {
        self.baud = self.baud_options[option].clone();
        self.baud_custom = false;
    }

    /// A speed of one's own was chosen: an offered one is cleared to make room for it.
    pub fn choose_custom_baud(&mut self)
        ensures
            final(self)@ == (PortView {
                baud: if position_of(old(self)@.baud_options, old(self)@.baud, 0) is Some {
                    Seq::empty()
                } else {
                    old(self)@.baud
                },
                baud_custom: true,
                ..old(self)@
            }),
    {
        self.baud_custom = true;
        match find_text(&self.baud_options, self.baud.as_str()) {
            Some(_) => {
                self.baud = String::new();
            },
            None => {},
        }
    }

    /// The speed was typed: only digits are kept.
    pub fn edit_baud(&mut self, typed: &str)
        ensures
            final(self)@ == (PortView { baud: digits_of(typed@), ..old(self)@ }),
    {
        self.baud = keep_digits(typed);
    }

    /// Takes over a port asked for from outside.
    pub fn override_port(&mut self, port: &str)
        ensures
            final(self)@ == with_port(old(self)@, port@),
    {
        let ghost before = search::views(self.ports@);
        match find_text(&self.ports, port) {
            Some(i) => {
                self.selected_port = i;
            },
            None => {
                self.ports.insert(0, port.to_owned());
                assert(search::views(self.ports@) =~= seq![port@] + before);
                self.selected_port = 0;
            },
        }
    }

    /// Takes over a speed asked for from outside.
    pub fn override_baud(&mut self, baud: u32)
        ensures
            final(self)@ == with_baud(old(self)@, baud as nat),
    {
        let t = text::decimal_text(baud as u64);
        let known = find_text(&self.baud_options, t.as_str());
        self.baud_custom = known.is_none();
        self.baud = t;
    }

    /// The port and the speed to open, or what is missing; a missing port counts first.
    pub fn chosen(&self) -> (r: Result<(String, u32), PortError>)
        ensures
            match r {
                Ok(c) => self@.selected_port < self@.ports.len() && c.0@
                    == self@.ports[self@.selected_port as int] && baud_rate(self@.baud) == Some(
                    c.1 as nat,
                ),
                Err(PortError::NoPort) => self@.selected_port >= self@.ports.len(),
                Err(PortError::BadBaud) => self@.selected_port < self@.ports.len() && baud_rate(
                    self@.baud,
                ) is None,
            },
    {
        if self.selected_port >= self.ports.len() {
            return Err(PortError::NoPort);
        }
        match text::parse_number(self.baud.as_str(), u32::MAX as u64) {
            Some(n) => if n > 0 {
                Ok((self.ports[self.selected_port].clone(), n as u32))
            } else {
                Err(PortError::BadBaud)
            },
            None => Err(PortError::BadBaud),
        }
    }

    /// The port and the speed that are shown while a capture runs: blank and 0 stand for what
    /// is missing.
    pub fn shown(&self) -> (r: (String, u32))
        ensures
            r.0@ == if self@.selected_port < self@.ports.len() {
                self@.ports[self@.selected_port as int]
            } else {
                Seq::empty()
            },
            r.1 == match text::number_of(self@.baud, u32::MAX as nat) {
                Some(n) => n,
                None => 0,
            },
    {
        let port = if self.selected_port < self.ports.len() {
            self.ports[self.selected_port].clone()
        } else {
            String::new()
        };
        let baud: u32 = match text::parse_number(self.baud.as_str(), u32::MAX as u64) {
            Some(n) => n as u32,
            None => 0,
        };
        (port, baud)
    }
}

/// Law: a port asked for from outside is the one that is selected afterwards.
pub proof fn law_port_override_selects_it(s: PortView, port: Seq<char>)
    requires
        s.ports.len() <= usize::MAX,
    ensures
        with_port(s, port).selected_port < with_port(s, port).ports.len(),
        with_port(s, port).ports[with_port(s, port).selected_port as int] == port,
{
    lemma_position_of(s.ports, port, 0);
}

proof fn lemma_position_of(list: Seq<Seq<char>>, s: Seq<char>, i: int)
    requires
        0 <= i,
    ensures
        position_of(list, s, i) matches Some(k) ==> i <= k < list.len() && list[k] == s,
    decreases list.len() - i,
{
    if i < list.len() && list[i] != s {
        lemma_position_of(list, s, i + 1);
    }
}

// ---------------------------------------------------------------------------
// Incoming lines
// ---------------------------------------------------------------------------

/// What the serial worker reports.
pub enum SerialEvent {
    Line(String),
    Status(String),
    Error(String),
    Stopped,
}

/// The line that an event adds to the log.
pub open spec fn event_line(e: SerialEvent) -> Option<Seq<char>> {
    match e {
        SerialEvent::Line(line) => Some(line@),
        SerialEvent::Error(message) => Some("[ERR] "@ + message@),
        _ => None,
    }
}

/// The text that an event puts on the status line.
pub open spec fn event_status(e: SerialEvent) -> Option<Seq<char>> {
    match e {
        SerialEvent::Status(s) => Some(s@),
        SerialEvent::Error(message) => Some(message@),
        _ => None,
    }
}

/// The text that an event publishes.
pub open spec fn event_notice(e: SerialEvent) -> Option<Seq<char>> {
    match e {
        SerialEvent::Status(s) => Some(s@),
        SerialEvent::Error(message) => Some("error: "@ + message@),
        _ => None,
    }
}

/// How many events are read: up to the end of the capture.
pub open spec fn read_count(events: Seq<SerialEvent>, i: int) -> int
    decreases events.len() - i,
{
    if i < 0 || i >= events.len() || events[i] is Stopped {
        i
    } else {
        read_count(events, i + 1)
    }
}

/// The lines that the first `n` events add.
pub open spec fn lines_in(events: Seq<SerialEvent>, n: int) -> Seq<Seq<char>>
    decreases n,
{
    if n <= 0 {
        Seq::empty()
    } else {
        match event_line(events[n - 1]) {
            Some(line) => lines_in(events, n - 1).push(line),
            None => lines_in(events, n - 1),
        }
    }
}

/// The last status text among the first `n` events.
pub open spec fn last_status(events: Seq<SerialEvent>, n: int) -> Option<Seq<char>>
    decreases n,
{
    if n <= 0 {
        None
    } else {
        match event_status(events[n - 1]) {
            Some(s) => Some(s),
            None => last_status(events, n - 1),
        }
    }
}

/// The notices of the first `n` events.
pub open spec fn notices_in(events: Seq<SerialEvent>, n: int) -> Seq<Seq<char>>
    decreases n,
{
    if n <= 0 {
        Seq::empty()
    } else {
        match event_notice(events[n - 1]) {
            Some(s) => notices_in(events, n - 1).push(s),
            None => notices_in(events, n - 1),
        }
    }
}

/// The lines to show this frame: the oldest ones, up to the limit per frame.
pub open spec fn frame_batch(all: Seq<Seq<char>>) -> Seq<Seq<char>> {
    all.take(search::lesser(DRAIN_LINES_PER_FRAME as int, all.len() as int))
}

/// The lines left for later frames: the newest ones, up to the limit of the backlog.
pub open spec fn frame_backlog(all: Seq<Seq<char>>) -> Seq<Seq<char>> {
    let rest = all.skip(search::lesser(DRAIN_LINES_PER_FRAME as int, all.len() as int));
    rest.skip(
        if rest.len() > MAX_PENDING_LINES {
            rest.len() - MAX_PENDING_LINES
        } else {
            0
        },
    )
}

/// What a frame does with the incoming events.
pub struct Drained {
    pub batch: Vec<String>,
    pub pending: Vec<String>,
    pub status: Option<String>,
    pub notices: Vec<String>,
    pub stopped: bool,
}

/// Whether `d` is what a frame makes of a backlog and new events.
pub open spec fn drained_from(
    d: Drained,
    pending: Seq<Seq<char>>,
    events: Seq<SerialEvent>,
) -> bool {
    let n = read_count(events, 0);
    let all = pending + lines_in(events, n);
    &&& search::views(d.batch@) == frame_batch(all)
    &&& search::views(d.pending@) == frame_backlog(all)
    &&& files::opt_text(d.status) == last_status(events, n)
    &&& search::views(d.notices@) == notices_in(events, n)
    &&& d.stopped == (n < events.len())
}

proof fn lemma_views_push(v: Seq<String>, s: String)
    ensures
        search::views(v.push(s)) == search::views(v).push(s@),
{
    assert(search::views(v.push(s)) =~= search::views(v).push(s@));
}

/// Reads the events of a frame: lines and errors join the backlog, a status is noted, and
/// reading stops at the end of the capture.
pub fn drain_events(pending: Vec<String>, events: Vec<SerialEvent>) -> (d: Drained)
    ensures
        drained_from(d, search::views(pending@), events@),
{
    let ghost have = search::views(pending@);
    let mut all = pending;
    let mut status: Option<String> = None;
    let mut notices: Vec<String> = Vec::new();
    let mut stopped: bool = false;
    let mut i: usize = 0;
    assert(have + Seq::<Seq<char>>::empty() =~= have);
    assert(search::views(notices@) =~= Seq::<Seq<char>>::empty());
    while i < events.len() && !stopped
        invariant
            i <= events@.len(),
            read_count(events@, 0) == read_count(events@, i as int),
            stopped ==> i < events@.len() && events@[i as int] is Stopped,
            search::views(all@) == have + lines_in(events@, i as int),
            files::opt_text(status) == last_status(events@, i as int),
            search::views(notices@) == notices_in(events@, i as int),
        decreases
            events@.len() - i + if stopped {
                0int
            } else {
                1int
            },
    {
        let ghost all0 = all@;
        let ghost notices0 = notices@;
        match &events[i] {
            SerialEvent::Line(line) => {
                all.push(line.clone());
                proof {
                    lemma_views_push(all0, all@.last());
                    assert((have + lines_in(events@, i as int)).push(line@) =~= have + lines_in(
                        events@,
                        i + 1,
                    ));
                }
                i = i + 1;
            },
            SerialEvent::Status(s) => {
                status = Some(s.clone());
                notices.push(s.clone());
                proof {
                    lemma_views_push(notices0, notices@.last());
                }
                i = i + 1;
            },
            SerialEvent::Error(message) => {
                let line = text::join2("[ERR] ", message.as_str());
                all.push(line);
                status = Some(message.clone());
                notices.push(text::join2("error: ", message.as_str()));
                proof {
                    lemma_views_push(all0, all@.last());
                    lemma_views_push(notices0, notices@.last());
                    assert((have + lines_in(events@, i as int)).push(line@) =~= have + lines_in(
                        events@,
                        i + 1,
                    ));
                }
                i = i + 1;
            },
            SerialEvent::Stopped => {
                stopped = true;
            },
        }
    }
    let ghost total = search::views(all@);
    let take: usize = if all.len() < DRAIN_LINES_PER_FRAME {
        all.len()
    } else {
        DRAIN_LINES_PER_FRAME
    };
    let mut rest = all.split_off(take);
    let ghost rest0 = rest@;
    let drop: usize = if rest.len() > MAX_PENDING_LINES {
        rest.len() - MAX_PENDING_LINES
    } else {
        0
    };
    let kept = rest.split_off(drop);
    proof {
        assert(search::views(all@) =~= frame_batch(total));
        assert(search::views(rest0) =~= total.skip(take as int));
        assert(search::views(kept@) =~= frame_backlog(total));
    }
    Drained { batch: all, pending: kept, status, notices, stopped }
}

/// Law: a frame shows at most its limit and keeps at most the limit of the backlog; together
/// they are the incoming lines in order, less the oldest of an overfull backlog.
pub proof fn law_drain_loses_only_old_backlog(all: Seq<Seq<char>>)
    ensures
        frame_batch(all).len() <= DRAIN_LINES_PER_FRAME,
        frame_backlog(all).len() <= MAX_PENDING_LINES,
        all.len() <= DRAIN_LINES_PER_FRAME + MAX_PENDING_LINES ==> frame_batch(all)
            + frame_backlog(all) == all,
        exists|dropped: Seq<Seq<char>>|
            all == frame_batch(all) + dropped + frame_backlog(all),
{
    let n = search::lesser(DRAIN_LINES_PER_FRAME as int, all.len() as int);
    let rest = all.skip(n);
    let d = if rest.len() > MAX_PENDING_LINES {
        rest.len() - MAX_PENDING_LINES
    } else {
        0
    };
    let dropped = rest.take(d);
    assert(all =~= frame_batch(all) + dropped + frame_backlog(all));
    if d == 0 {
        assert(frame_batch(all) + frame_backlog(all) =~= all);
    }
}

// ---------------------------------------------------------------------------
// Time stamps
// ---------------------------------------------------------------------------

/// Nanoseconds of a millisecond.
pub const NS_PER_MS: u64 = 1_000_000;

/// Two decimal digits.
pub open spec fn two_digits(n: nat) -> Seq<char> {
    seq![text::digit_char(n / 10 % 10), text::digit_char(n % 10)]
}

/// Three decimal digits.
pub open spec fn three_digits(n: nat) -> Seq<char> {
    seq![
        text::digit_char(n / 100 % 10),
        text::digit_char(n / 10 % 10),
        text::digit_char(n % 10),
    ]
}

/// The stamp `[HH:MM:SS.mmm]` of a time in nanoseconds since a midnight.
pub open spec fn stamp(ns: nat) -> Seq<char> {
    let ms = ns / 1_000_000;
    let s = ms / 1000;
    clock_text(s / 3600 % 24, s / 60 % 60, s % 60, ms % 1000)
}

/// The text `[HH:MM:SS.mmm]` of a time of day.
pub open spec fn clock_text(hour: nat, minute: nat, second: nat, milli: nat) -> Seq<char> {
    seq!['['] + two_digits(hour) + seq![':'] + two_digits(minute) + seq![':'] + two_digits(second)
        + seq!['.'] + three_digits(milli) + seq![']']
}

fn push_digit(s: &mut String, d: u64)
    requires
        d < 10,
    ensures
        final(s)@ == old(s)@.push(text::digit_char(d as nat)),
{
    s.push((48 + d as u8) as char);
}

fn push_two(s: &mut String, n: u64)
    ensures
        final(s)@ == old(s)@ + two_digits(n as nat),
{
    let ghost before = s@;
    push_digit(s, n / 10 % 10);
    push_digit(s, n % 10);
    assert(s@ =~= before + two_digits(n as nat));
}

fn push_three(s: &mut String, n: u64)
    ensures
        final(s)@ == old(s)@ + three_digits(n as nat),
{
    let ghost before = s@;
    push_digit(s, n / 100 % 10);
    push_digit(s, n / 10 % 10);
    push_digit(s, n % 10);
    assert(s@ =~= before + three_digits(n as nat));
}

/// The time to stamp a line with: `now` if it lies in a later millisecond than `last`, else a
/// millisecond after `last`.
pub open spec fn next_time(last: nat, now: nat) -> nat {
    if now / (NS_PER_MS as nat) <= last / (NS_PER_MS as nat) {
        last + NS_PER_MS as nat
    } else {
        now
    }
}

/// The time stamp of a line, in a later millisecond than the last one: `now`, or else a
/// millisecond after `last`. Times are nanoseconds since a midnight of the local clock.
pub fn next_strict_timestamp(last: &mut u64, now: u64) -> (r: String)
    requires
        *old(last) <= u64::MAX - NS_PER_MS,
    ensures
        *final(last) == next_time(*old(last) as nat, now as nat),
        *final(last) / NS_PER_MS > *old(last) / NS_PER_MS,
        r@ == stamp(*final(last) as nat),
{
    let t: u64 = if now / NS_PER_MS <= *last / NS_PER_MS {
        *last + NS_PER_MS
    } else {
        now
    };
    *last = t;
    let ms: u64 = t / NS_PER_MS;
    let s: u64 = ms / 1000;
    let mut r = String::new();
    r.push('[');
    push_two(&mut r, s / 3600 % 24);
    r.push(':');
    push_two(&mut r, s / 60 % 60);
    r.push(':');
    push_two(&mut r, s % 60);
    r.push('.');
    push_three(&mut r, ms % 1000);
    r.push(']');
    assert(r@ =~= stamp(t as nat));
    r
}

/// Law: a stamp has fourteen characters, the milliseconds behind a dot at index nine.
pub proof fn law_stamp_shape(ns: nat)
    ensures
        stamp(ns).len() == 14,
        stamp(ns)[0] == '[',
        stamp(ns)[9] == '.',
        stamp(ns)[13] == ']',
{
}

/// Whether a text stands before another of its length in the order of characters.
pub open spec fn text_before(a: Seq<char>, b: Seq<char>) -> bool {
    a.len() == b.len() && exists|k: int| #[trigger] differs_first_at(a, b, k)
}

/// Whether two texts agree up to index `k`, where the first has the lesser character.
pub open spec fn differs_first_at(a: Seq<char>, b: Seq<char>, k: int) -> bool {
    &&& 0 <= k < a.len()
    &&& k < b.len()
    &&& a.take(k) == b.take(k)
    &&& (a[k] as u32) < (b[k] as u32)
}

/// Nanoseconds of a day.
pub const NS_PER_DAY: u64 = 86_400_000_000_000;

/// The hour, minute, second and millisecond of a time order as the times of a day do.
proof fn lemma_parts_of_day(a: nat, b: nat)
    requires
        a / 1_000_000 < b / 1_000_000,
        a / NS_PER_DAY as nat == b / NS_PER_DAY as nat,
    ensures
        ({
            let (ma, mb) = (a / 1_000_000, b / 1_000_000);
            let (sa, sb) = (ma / 1000, mb / 1000);
            ||| sa / 3600 % 24 < sb / 3600 % 24
            ||| sa / 3600 % 24 == sb / 3600 % 24 && sa / 60 % 60 < sb / 60 % 60
            ||| sa / 3600 % 24 == sb / 3600 % 24 && sa / 60 % 60 == sb / 60 % 60 && sa % 60 < sb
                % 60
            ||| sa / 3600 % 24 == sb / 3600 % 24 && sa / 60 % 60 == sb / 60 % 60 && sa % 60 == sb
                % 60 && ma % 1000 < mb % 1000
        }),
{
    let (ma, mb) = (a / 1_000_000, b / 1_000_000);
    let (sa, sb) = (ma / 1000, mb / 1000);
    let (na, nb) = (sa / 60, sb / 60);
    let (ha, hb) = (na / 60, nb / 60);
    assert(sa / 3600 == ha && sb / 3600 == hb);
    assert(ha / 24 == a / NS_PER_DAY as nat);
    assert(hb / 24 == b / NS_PER_DAY as nat);
    assert(ma == 1000 * sa + ma % 1000 && mb == 1000 * sb + mb % 1000);
    assert(sa == 60 * na + sa % 60 && sb == 60 * nb + sb % 60);
    assert(na == 60 * ha + na % 60 && nb == 60 * hb + nb % 60);
    assert(ha == 24 * (ha / 24) + ha % 24 && hb == 24 * (hb / 24) + hb % 24);
}

/// Whether `x` reads `[HH:MM:SS.mmm]`, character by character.
spec fn reads_clock(x: Seq<char>, hour: nat, minute: nat, second: nat, milli: nat) -> bool {
    &&& x.len() == 14
    &&& x[0] == '[' && x[3] == ':' && x[6] == ':' && x[9] == '.' && x[13] == ']'
    &&& x[1] == text::digit_char(hour / 10) && x[2] == text::digit_char(hour % 10)
    &&& x[4] == text::digit_char(minute / 10) && x[5] == text::digit_char(minute % 10)
    &&& x[7] == text::digit_char(second / 10) && x[8] == text::digit_char(second % 10)
    &&& x[10] == text::digit_char(milli / 100) && x[11] == text::digit_char(milli / 10 % 10)
    &&& x[12] == text::digit_char(milli % 10)
}

proof fn lemma_clock_reads(hour: nat, minute: nat, second: nat, milli: nat)
    requires
        hour < 100 && minute < 100 && second < 100 && milli < 1000,
    ensures
        reads_clock(clock_text(hour, minute, second, milli), hour, minute, second, milli),
{
    let to_hour = seq!['['] + two_digits(hour);
    let to_minute = to_hour + seq![':'] + two_digits(minute);
    let to_second = to_minute + seq![':'] + two_digits(second);
    let to_milli = to_second + seq!['.'] + three_digits(milli);
    let x = to_milli + seq![']'];
    assert(x == clock_text(hour, minute, second, milli));
    assert(hour / 10 % 10 == hour / 10 && minute / 10 % 10 == minute / 10);
    assert(second / 10 % 10 == second / 10 && milli / 100 % 10 == milli / 100);
    assert(to_hour.len() == 3 && to_minute.len() == 6 && to_second.len() == 9);
    assert(to_milli.len() == 13 && x.len() == 14);
    assert(x.take(3) =~= to_hour);
    assert(x.take(6) =~= to_minute);
    assert(x.take(9) =~= to_second);
}

proof fn lemma_digits_order(a: nat, b: nat)
    requires
        a < b < 10,
    ensures
        (text::digit_char(a) as u32) < (text::digit_char(b) as u32),
{
}

proof fn lemma_before_at(x: Seq<char>, y: Seq<char>, k: int)
    requires
        x.len() == y.len(),
        0 <= k < x.len(),
        forall|i: int| 0 <= i < k ==> x[i] == y[i],
        (x[k] as u32) < (y[k] as u32),
    ensures
        text_before(x, y),
{
    assert(x.take(k) =~= y.take(k));
    assert(differs_first_at(x, y, k));
}

/// Two texts that agree before `k` and spell two numbers from there order as the numbers do.
proof fn lemma_two_digits_order(x: Seq<char>, y: Seq<char>, k: int, a: nat, b: nat)
    requires
        x.len() == y.len(),
        0 <= k < x.len() - 1,
        forall|i: int| 0 <= i < k ==> x[i] == y[i],
        a < b < 100,
        x[k] == text::digit_char(a / 10) && x[k + 1] == text::digit_char(a % 10),
        y[k] == text::digit_char(b / 10) && y[k + 1] == text::digit_char(b % 10),
    ensures
        text_before(x, y),
{
    if a / 10 < b / 10 {
        lemma_digits_order(a / 10, b / 10);
        lemma_before_at(x, y, k);
    } else {
        lemma_digits_order(a % 10, b % 10);
        lemma_before_at(x, y, k + 1);
    }
}

proof fn lemma_last_digits(n: nat)
    ensures
        n % 100 / 10 == n / 10 % 10,
        n % 100 % 10 == n % 10,
{
}

proof fn lemma_three_digits_order(x: Seq<char>, y: Seq<char>, k: int, a: nat, b: nat)
    requires
        x.len() == y.len(),
        0 <= k < x.len() - 2,
        forall|i: int| 0 <= i < k ==> x[i] == y[i],
        a < b < 1000,
        x[k] == text::digit_char(a / 100) && x[k + 1] == text::digit_char(a / 10 % 10) && x[k + 2]
            == text::digit_char(a % 10),
        y[k] == text::digit_char(b / 100) && y[k + 1] == text::digit_char(b / 10 % 10) && y[k + 2]
            == text::digit_char(b % 10),
    ensures
        text_before(x, y),
{
    if a / 100 < b / 100 {
        lemma_digits_order(a / 100, b / 100);
        lemma_before_at(x, y, k);
    } else {
        lemma_last_digits(a);
        lemma_last_digits(b);
        lemma_two_digits_order(x, y, k + 1, a % 100, b % 100);
    }
}

/// The texts of two times of day order as the times do.
proof fn lemma_clock_texts(
    x: Seq<char>,
    y: Seq<char>,
    a: (nat, nat, nat, nat),
    b: (nat, nat, nat, nat),
)
    requires
        a.0 < 100 && a.1 < 100 && a.2 < 100 && a.3 < 1000,
        b.0 < 100 && b.1 < 100 && b.2 < 100 && b.3 < 1000,
        reads_clock(x, a.0, a.1, a.2, a.3),
        reads_clock(y, b.0, b.1, b.2, b.3),
        a.0 < b.0 || (a.0 == b.0 && (a.1 < b.1 || (a.1 == b.1 && (a.2 < b.2 || (a.2 == b.2 && a.3
            < b.3))))),
    ensures
        text_before(x, y),
{
    if a.0 != b.0 {
        lemma_two_digits_order(x, y, 1, a.0, b.0);
    } else if a.1 != b.1 {
        lemma_two_digits_order(x, y, 4, a.1, b.1);
    } else if a.2 != b.2 {
        lemma_two_digits_order(x, y, 7, a.2, b.2);
    } else {
        lemma_three_digits_order(x, y, 10, a.3, b.3);
    }
}

/// Law: of two stamps of one day, the one of the later millisecond has the greater text.
pub proof fn law_later_stamp_is_greater(earlier: nat, later: nat)
    requires
        earlier / (NS_PER_MS as nat) < later / (NS_PER_MS as nat),
        earlier / NS_PER_DAY as nat == later / NS_PER_DAY as nat,
    ensures
        text_before(stamp(earlier), stamp(later)),
{
    lemma_parts_of_day(earlier, later);
    let (ma, mb) = (earlier / 1_000_000, later / 1_000_000);
    let (sa, sb) = (ma / 1000, mb / 1000);
    let a = (sa / 3600 % 24, sa / 60 % 60, sa % 60, ma % 1000);
    let b = (sb / 3600 % 24, sb / 60 % 60, sb % 60, mb % 1000);
    lemma_clock_reads(a.0, a.1, a.2, a.3);
    lemma_clock_reads(b.0, b.1, b.2, b.3);
    lemma_clock_texts(stamp(earlier), stamp(later), a, b);
}

/// Law: stamps rise strictly. Of the stamps of two lines in a row, whatever the clock said, the
/// second lies in a later millisecond, and within a day its text is the greater one.
pub proof fn law_successive_stamps_rise(last: nat, now: nat, later: nat)
    ensures
        ({
            let first = next_time(last, now);
            let second = next_time(first, later);
            &&& last / (NS_PER_MS as nat) < first / (NS_PER_MS as nat)
            &&& first / (NS_PER_MS as nat) < second / (NS_PER_MS as nat)
            &&& first / (NS_PER_DAY as nat) == second / (NS_PER_DAY as nat) ==> text_before(
                stamp(first),
                stamp(second),
            )
        }),
{
    let first = next_time(last, now);
    let second = next_time(first, later);
    if first / (NS_PER_DAY as nat) == second / (NS_PER_DAY as nat) {
        law_later_stamp_is_greater(first, second);
    }
}

/// A line behind its stamp.
pub open spec fn stamped(stamp_text: Seq<char>, payload: Seq<char>) -> Seq<char> {
    stamp_text + " "@ + payload
}

/// A line with its stamp.
pub fn stamped_line(stamp_text: &str, payload: &str) -> (r: String)
    ensures
        r@ == stamped(stamp_text@, payload@),
{
    text::join3(stamp_text, " ", payload)
}

/// `line` without leading blanks and without the channel tag of a transmitter.
pub open spec fn without_tx_tag(line: Seq<char>) -> Seq<char> {
    let t = text::trimmed_start(line);
    if text::has_prefix(t, "TX0:"@) || text::has_prefix(t, "TX1:"@) || text::has_prefix(t, "TX0："@)
        || text::has_prefix(t, "TX1："@) {
        text::trimmed_start(t.skip(4))
    } else {
        t
    }
}

fn skip_blanks(v: &Vec<char>, from: usize) -> (r: usize)
    requires
        from <= v@.len(),
    ensures
        from <= r <= v@.len(),
        v@.skip(r as int) == text::trimmed_start(v@.skip(from as int)),
{
    let mut i: usize = from;
    while i < v.len() && text::is_white_space(v[i])
        invariant
            from <= i <= v@.len(),
            text::trimmed_start(v@.skip(from as int)) == text::trimmed_start(v@.skip(i as int)),
        decreases v@.len() - i,
    {
        assert(v@.skip(i as int).drop_first() =~= v@.skip(i + 1));
        i = i + 1;
    }
    i
}

fn tag_at(v: &Vec<char>, at: usize, tag: &str) -> (r: bool)
    requires
        at <= v@.len(),
    ensures
        r == text::has_prefix(v@.skip(at as int), tag@),
{
    let t = text::chars_of(tag);
    assert(at + tag@.len() <= v@.len() ==> v@.subrange(at as int, at + tag@.len())
        =~= v@.skip(at as int).take(tag@.len() as int));
    text::chars_match_at(v, &t, at)
}

/// Removes leading blanks and the channel tag of a transmitter.
pub fn strip_tx_prefix(line: &str) -> (r: &str)
    ensures
        r@ == without_tx_tag(line@),
{
    let v = text::chars_of(line);
    assert(v@.skip(0) =~= v@);
    let start: usize = skip_blanks(&v, 0);
    let ghost t = text::trimmed_start(line@);
    proof {
        reveal_strlit("TX0:");
        reveal_strlit("TX1:");
        reveal_strlit("TX0：");
        reveal_strlit("TX1：");
    }
    let tagged: bool = tag_at(&v, start, "TX0:") || tag_at(&v, start, "TX1:") || tag_at(
        &v,
        start,
        "TX0：",
    ) || tag_at(&v, start, "TX1：");
    let from: usize = if tagged {
        assert(start + 4 <= v.len());
        assert(t.skip(4) =~= v@.skip(start + 4));
        skip_blanks(&v, start + 4)
    } else {
        start
    };
    assert(v@.subrange(from as int, v@.len() as int) =~= v@.skip(from as int));
    line.substring_char(from, v.len())
}

// ---------------------------------------------------------------------------
// What holds of ports, lines and stamps
// ---------------------------------------------------------------------------

/// Law: a speed that was asked for from outside is the one that a port is opened with, and it
/// counts as one of the user's own exactly if it is not offered. Zero is no speed.
pub proof fn law_baud_override_is_used(s: PortView, baud: u32)
    ensures
        ({
            let t = with_baud(s, baud as nat);
            &&& baud > 0 ==> baud_rate(t.baud) == Some(baud as nat)
            &&& baud == 0 ==> baud_rate(t.baud) is None
            &&& t.baud_custom <==> !s.baud_options.contains(t.baud)
            &&& t.ports == s.ports && t.selected_port == s.selected_port && t.baud_options
                == s.baud_options
        }),
{
    let t = text::decimal(baud as nat);
    text::law_decimal_reads_back(baud as nat, u32::MAX as nat);
    lemma_position_is(s.baud_options, t, 0);
}

proof fn lemma_position_is(list: Seq<Seq<char>>, s: Seq<char>, i: int)
    requires
        0 <= i <= list.len(),
        forall|k: int| 0 <= k < i ==> #[trigger] list[k] != s,
    ensures
        match position_of(list, s, i) {
            Some(f) => i <= f < list.len() && list[f] == s,
            None => !list.contains(s),
        },
    decreases list.len() - i,
{
    if i < list.len() && list[i] != s {
        lemma_position_is(list, s, i + 1);
    }
}

/// Law: a port that was asked for from outside joins the list only where it is not there, and
/// then all others follow it in their order; the speed stays.
pub proof fn law_port_override_keeps_the_others(s: PortView, port: Seq<char>)
    ensures
        ({
            let t = with_port(s, port);
            &&& s.ports.contains(port) ==> t.ports == s.ports
            &&& !s.ports.contains(port) ==> t.ports == seq![port] + s.ports
            &&& t.baud == s.baud && t.baud_options == s.baud_options && t.baud_custom
                == s.baud_custom
        }),
{
    lemma_position_is(s.ports, port, 0);
}

/// Law: a speed that a port can be opened with is a positive number of 32 bits, and what was
/// typed is left with its digits alone, in their order.
pub proof fn law_speed_is_a_positive_number(typed: Seq<char>, c: char)
    ensures
        baud_rate(typed) matches Some(n) ==> 0 < n <= u32::MAX,
        forall|i: int|
            0 <= i < digits_of(typed).len() ==> '0' <= #[trigger] digits_of(typed)[i]
                && digits_of(typed)[i] <= '9',
        '0' <= c && c <= '9' ==> digits_of(typed.push(c)) == digits_of(typed).push(c),
        !('0' <= c && c <= '9') ==> digits_of(typed.push(c)) == digits_of(typed),
        digits_of(Seq::empty()).len() == 0,
{
    assert(typed.push(c).drop_last() =~= typed);
    lemma_digits_of(typed);
}

proof fn lemma_digits_of(s: Seq<char>)
    ensures
        forall|i: int|
            0 <= i < digits_of(s).len() ==> '0' <= #[trigger] digits_of(s)[i] && digits_of(s)[i]
                <= '9',
    decreases s.len(),
{
    if s.len() > 0 {
        lemma_digits_of(s.drop_last());
        let front = digits_of(s.drop_last());
        let all = digits_of(s);
        assert forall|i: int| 0 <= i < all.len() implies '0' <= #[trigger] all[i] && all[i]
            <= '9' by {
            if i < front.len() {
                assert(all[i] == front[i]);
            }
        }
    }
}

/// Law: a frame reads the events in their order up to the end of the capture and no further. A
/// line joins the log as it is, an error as a line that says so, anything else not at all.
pub proof fn law_events_join_the_log_in_order(events: Seq<SerialEvent>, e: SerialEvent)
    requires
        forall|i: int| 0 <= i < events.len() ==> !((#[trigger] events[i]) is Stopped),
    ensures
        ({
            let all = events.push(e);
            let n = read_count(all, 0);
            let m = read_count(events, 0);
            &&& m == events.len()
            &&& lines_in(all, n) == match e {
                SerialEvent::Line(line) => lines_in(events, m).push(line@),
                SerialEvent::Error(message) => lines_in(events, m).push("[ERR] "@ + message@),
                _ => lines_in(events, m),
            }
            &&& e is Stopped <==> n < all.len()
            &&& last_status(all, n) == match e {
                SerialEvent::Status(s) => Some(s@),
                SerialEvent::Error(message) => Some(message@),
                _ => last_status(events, m),
            }
            &&& notices_in(all, n) == match e {
                SerialEvent::Status(s) => notices_in(events, m).push(s@),
                SerialEvent::Error(message) => notices_in(events, m).push("error: "@ + message@),
                _ => notices_in(events, m),
            }
        }),
        read_count(Seq::empty(), 0) == 0 && lines_in(Seq::empty(), 0).len() == 0,
{
    let all = events.push(e);
    lemma_read_all(events, 0);
    lemma_read_prefix(all, events.len() as int, 0);
    lemma_same_events(events, all, events.len() as int);
}

proof fn lemma_read_all(events: Seq<SerialEvent>, i: int)
    requires
        0 <= i <= events.len(),
        forall|k: int| 0 <= k < events.len() ==> !((#[trigger] events[k]) is Stopped),
    ensures
        read_count(events, i) == events.len(),
    decreases events.len() - i,
{
    if i < events.len() {
        lemma_read_all(events, i + 1);
    }
}

proof fn lemma_read_prefix(events: Seq<SerialEvent>, n: int, i: int)
    requires
        0 <= i <= n < events.len(),
        forall|k: int| 0 <= k < n ==> !((#[trigger] events[k]) is Stopped),
    ensures
        events[n] is Stopped ==> read_count(events, i) == n,
        !(events[n] is Stopped) && n + 1 == events.len() ==> read_count(events, i) == n + 1,
    decreases n - i,
{
    if i < n {
        lemma_read_prefix(events, n, i + 1);
    } else if !(events[n] is Stopped) && n + 1 == events.len() {
        assert(read_count(events, n + 1) == n + 1);
    }
}

proof fn lemma_same_events(a: Seq<SerialEvent>, b: Seq<SerialEvent>, n: int)
    requires
        0 <= n <= a.len(),
        n <= b.len(),
        forall|k: int| 0 <= k < n ==> #[trigger] a[k] == b[k],
    ensures
        lines_in(a, n) == lines_in(b, n),
        last_status(a, n) == last_status(b, n),
        notices_in(a, n) == notices_in(b, n),
    decreases n,
{
    if n > 0 {
        lemma_same_events(a, b, n - 1);
        assert(a[n - 1] == b[n - 1]);
    }
}

/// Law: what comes after the end of a capture is not read.
pub proof fn law_nothing_is_read_after_the_end(
    events: Seq<SerialEvent>,
    later: Seq<SerialEvent>,
)
    requires
        forall|i: int| 0 <= i < events.len() ==> !((#[trigger] events[i]) is Stopped),
    ensures
        ({
            let all = events.push(SerialEvent::Stopped) + later;
            let n = read_count(all, 0);
            &&& n == events.len()
            &&& lines_in(all, n) == lines_in(events, events.len() as int)
            &&& last_status(all, n) == last_status(events, events.len() as int)
            &&& notices_in(all, n) == notices_in(events, events.len() as int)
        }),
{
    let all = events.push(SerialEvent::Stopped) + later;
    lemma_read_prefix(all, events.len() as int, 0);
    lemma_same_events(events, all, events.len() as int);
}

/// Law: with a backlog of no more than its limit, a frame loses no line: what it shows and what
/// it leaves for later are the old backlog and the new lines, in this order, the oldest first.
pub proof fn law_frame_takes_the_oldest_lines(all: Seq<Seq<char>>)
    ensures
        frame_batch(all).len() == if all.len() <= 400 {
            all.len()
        } else {
            400
        },
        forall|i: int| 0 <= i < frame_batch(all).len() ==> #[trigger] frame_batch(all)[i] == all[i],
        frame_backlog(all).len() == if all.len() <= 400 {
            0
        } else if all.len() <= 1400 {
            all.len() - 400
        } else {
            1000
        },
        forall|i: int|
            0 <= i < frame_backlog(all).len() ==> #[trigger] frame_backlog(all)[i] == all[all.len()
                - frame_backlog(all).len() + i],
{
}

/// Law: a stamp tells the time of day: its digits are the hour, the minute, the second and the
/// millisecond.
pub proof fn law_stamp_tells_the_time(ns: nat)
    ensures
        ({
            let x = stamp(ns);
            let digit = |i: int| x[i] as u32 - 48;
            let ms = ns / 1_000_000;
            &&& x.len() == 14
            &&& x[0] == '[' && x[3] == ':' && x[6] == ':' && x[9] == '.' && x[13] == ']'
            &&& 10 * digit(1) + digit(2) == ms / 3_600_000 % 24
            &&& 10 * digit(4) + digit(5) == ms / 60_000 % 60
            &&& 10 * digit(7) + digit(8) == ms / 1000 % 60
            &&& 100 * digit(10) + 10 * digit(11) + digit(12) == ms % 1000
        }),
{
    let ms = ns / 1_000_000;
    let s = ms / 1000;
    assert(s / 3600 == ms / 3_600_000);
    assert(s / 60 == ms / 60_000);
    let (hour, minute, second, milli) = (s / 3600 % 24, s / 60 % 60, s % 60, ms % 1000);
    lemma_clock_reads(hour, minute, second, milli);
    lemma_digit_value(hour / 10);
    lemma_digit_value(hour % 10);
    lemma_digit_value(minute / 10);
    lemma_digit_value(minute % 10);
    lemma_digit_value(second / 10);
    lemma_digit_value(second % 10);
    lemma_digit_value(milli / 100);
    lemma_digit_value(milli / 10 % 10);
    lemma_digit_value(milli % 10);
    assert(milli == 100 * (milli / 100) + 10 * (milli / 10 % 10) + milli % 10);
}

proof fn lemma_digit_value(d: nat)
    requires
        d < 10,
    ensures
        text::digit_char(d) as u32 - 48 == d,
{
}

/// Law: the clock is followed: a line that comes in a later millisecond than the last one is
/// stamped with its own time, any other one millisecond after the last.
pub proof fn law_stamps_follow_the_clock(last: nat, now: nat)
    ensures
        now / 1_000_000 > last / 1_000_000 ==> next_time(last, now) == now,
        now / 1_000_000 <= last / 1_000_000 ==> next_time(last, now) == last + 1_000_000,
{
}

/// Law: of a line, the tag of a transmitter and white space around it are taken away, and
/// nothing else: what is left is the end of the line.
pub proof fn law_tag_is_taken_off(line: Seq<char>)
    ensures
        without_tx_tag(line).is_suffix_of(line),
        forall|payload: Seq<char>|
            payload.len() > 0 && !text::white_space(payload[0]) ==> (
            #[trigger] without_tx_tag("TX0:"@ + payload)) == payload && without_tx_tag(
                "TX1:"@ + payload,
            ) == payload,
        line.len() > 0 && !text::white_space(line[0]) && line[0] != 'T' ==> without_tx_tag(line)
            == line,
{
    text::lemma_start_cut(line);
    let t = text::trimmed_start(line);
    text::lemma_start_cut(t.skip(4));
    reveal_strlit("TX0:");
    reveal_strlit("TX1:");
    reveal_strlit("TX0：");
    reveal_strlit("TX1：");
    let r = without_tx_tag(line);
    assert(r.len() <= line.len());
    assert(r =~= line.skip(line.len() - r.len()));
    assert forall|payload: Seq<char>|
        payload.len() > 0 && !text::white_space(payload[0]) implies (#[trigger] without_tx_tag(
        "TX0:"@ + payload,
    )) == payload && without_tx_tag("TX1:"@ + payload) == payload by {
        let (a, b) = ("TX0:"@ + payload, "TX1:"@ + payload);
        assert(text::trimmed_start(a) == a && text::trimmed_start(b) == b);
        assert(a.take(4) =~= "TX0:"@ && b.take(4) =~= "TX1:"@);
        assert(a.skip(4) =~= payload && b.skip(4) =~= payload);
    }
    if line.len() > 0 && !text::white_space(line[0]) && line[0] != 'T' {
        assert(t == line);
        assert(line.len() >= 4 ==> line.take(4)[0] == line[0]);
    }
}

/// No more events are read than there are.
pub proof fn lemma_read_count_is_bounded(events: Seq<SerialEvent>, i: int)
    requires
        0 <= i <= events.len(),
    ensures
        i <= read_count(events, i) <= events.len(),
    decreases events.len() - i,
{
    if i < events.len() && !(events[i] is Stopped) {
        lemma_read_count_is_bounded(events, i + 1);
    }
}

/// No more lines come of events than there are events.
pub proof fn lemma_no_more_lines_than_events(events: Seq<SerialEvent>, n: int)
    requires
        0 <= n <= events.len(),
    ensures
        lines_in(events, n).len() <= n,
    decreases n,
{
    if n > 0 {
        lemma_no_more_lines_than_events(events, n - 1);
    }
}

/// Law: a stamped line is the stamp, a blank and the line, unchanged.
pub proof fn law_stamped_line_ends_in_the_line(stamp_text: Seq<char>, payload: Seq<char>)
    ensures
        ({
            let r = stamped(stamp_text, payload);
            &&& stamp_text.is_prefix_of(r) && payload.is_suffix_of(r)
            &&& r.len() == stamp_text.len() + 1 + payload.len() && r[stamp_text.len() as int] == ' '
        }),
{
    reveal_strlit(" ");
}

/// Law: the speeds that are configured are offered as they are; without any there are three usual
/// ones, the first of them 115200, and a port can be opened with each.
pub proof fn law_usual_speeds_are_offered(configured: Seq<Seq<char>>, i: int)
    ensures
        configured.len() > 0 ==> offered_bauds(configured) == configured,
        configured.len() == 0 ==> offered_bauds(configured) == seq![
            "115200"@,
            "1000000"@,
            "2000000"@,
        ],
{
}

/// Law: a frame takes the lines that waited and those that came; none is lost while they are no
/// more than fit, and it has stopped where an event says so.
pub proof fn law_drain_keeps_all_lines(
    d: Drained,
    pending: Seq<Seq<char>>,
    events: Seq<SerialEvent>,
)
    requires
        drained_from(d, pending, events),
        pending.len() + events.len() <= DRAIN_LINES_PER_FRAME,
    ensures
        search::views(d.batch@) + search::views(d.pending@) == pending + lines_in(
            events,
            read_count(events, 0),
        ),
        d.stopped <==> exists|i: int| 0 <= i < events.len() && (#[trigger] events[i]) is Stopped,
        files::opt_text(d.status) == last_status(events, read_count(events, 0)),
        search::views(d.notices@) == notices_in(events, read_count(events, 0)),
{
    let n = read_count(events, 0);
    lemma_read_count_is_bounded(events, 0);
    lemma_no_more_lines_than_events(events, n);
    law_drain_loses_only_old_backlog(pending + lines_in(events, n));
    lemma_read_up_to_the_end(events, 0);
}

proof fn lemma_read_up_to_the_end(events: Seq<SerialEvent>, i: int)
    requires
        0 <= i <= events.len(),
    ensures
        ({
            let n = read_count(events, i);
            &&& i <= n <= events.len()
            &&& n < events.len() ==> events[n] is Stopped
            &&& forall|k: int| i <= k < n ==> !((#[trigger] events[k]) is Stopped)
        }),
    decreases events.len() - i,
{
    if i < events.len() && !(events[i] is Stopped) {
        lemma_read_up_to_the_end(events, i + 1);
    }
}

/// Law: a tag may end in a colon of either width. A line that begins with no tag loses only the
/// white space in front of it.
pub proof fn law_only_tags_are_taken_off(payload: Seq<char>, line: Seq<char>)
    requires
        payload.len() > 0,
        !text::white_space(payload[0]),
    ensures
        without_tx_tag("TX0:"@ + payload) == payload,
        without_tx_tag("TX1:"@ + payload) == payload,
        without_tx_tag("TX0："@ + payload) == payload,
        without_tx_tag("TX1："@ + payload) == payload,
        !"TX0:"@.is_prefix_of(text::trimmed_start(line)) && !"TX1:"@.is_prefix_of(
            text::trimmed_start(line),
        ) && !"TX0："@.is_prefix_of(text::trimmed_start(line)) && !"TX1："@.is_prefix_of(
            text::trimmed_start(line),
        ) ==> without_tx_tag(line) == text::trimmed_start(line),
{
    reveal_strlit("TX0:");
    reveal_strlit("TX1:");
    reveal_strlit("TX0：");
    reveal_strlit("TX1：");
    lemma_tag_is_taken_off("TX0:"@, payload);
    lemma_tag_is_taken_off("TX1:"@, payload);
    lemma_tag_is_taken_off("TX0："@, payload);
    lemma_tag_is_taken_off("TX1："@, payload);
    let t = text::trimmed_start(line);
    text::law_texts_begin_and_end(t, "TX0:"@);
    text::law_texts_begin_and_end(t, "TX1:"@);
    text::law_texts_begin_and_end(t, "TX0："@);
    text::law_texts_begin_and_end(t, "TX1："@);
}

proof fn lemma_tag_is_taken_off(tag: Seq<char>, payload: Seq<char>)
    requires
        payload.len() > 0,
        !text::white_space(payload[0]),
        tag == "TX0:"@ || tag == "TX1:"@ || tag == "TX0："@ || tag == "TX1："@,
    ensures
        without_tx_tag(tag + payload) == payload,
{
    reveal_strlit("TX0:");
    reveal_strlit("TX1:");
    reveal_strlit("TX0：");
    reveal_strlit("TX1：");
    text::law_white_space_of_ascii('T');
    let line = tag + payload;
    assert(line[0] == 'T');
    assert(text::trimmed_start(line) == line);
    assert(line.take(4) =~= tag);
    assert(line.skip(4) =~= payload);
}

} // verus!
