//! The page of a Tektronix scope: connection and screen capture.
use vstd::prelude::*;
use vstd::string::*;

use crate::screenshot;
use crate::screenshot::DecodedImage;
use crate::text;

verus! {

/// What the scope is asked for.
#[derive(Debug, Clone, Copy, PartialEq, Eq, Structural)]
pub enum TektronixJob {
    Connect,
    CaptureScreen,
}

/// What the scope answers.
pub enum TektronixEvent {
    Connected { idn: String },
    Captured { path: String, image: DecodedImage },
    CaptureSaved { path: String },
    Failed(String),
}

/// The page.
pub struct TektronixPanel {
    pub connected: bool,
    pub model: String,
    pub status: String,
}

/// Model of [`TektronixPanel`].
pub struct TektronixView {
    pub connected: bool,
    pub model: Seq<char>,
    pub status: Seq<char>,
}

impl View for TektronixPanel {
    type V = TektronixView;

    open spec fn view(&self) -> TektronixView {
        TektronixView { connected: self.connected, model: self.model@, status: self.status@ }
    }
}

/// The text between the first comma and the next one; the whole text where there is no comma.
pub open spec fn second_field(s: Seq<char>) -> Seq<char> {
    match text::index_of_char(s, ',', 0) {
        Some(a) => match text::index_of_char(s, ',', a + 1) {
            Some(b) => s.subrange(a + 1, b),
            None => s.skip(a + 1),
        },
        None => s,
    }
}

/// The model by an identification: its second field, without blanks around it.
pub fn model_of(idn: &str) -> (r: String)
    ensures
        r@ == text::trimmed(second_field(idn@)),
{
    let v = text::chars_of(idn);
    let field = match text::find_char(&v, ',', 0) {
        Some(a) => match text::find_char(&v, ',', a + 1) {
            Some(b) => text::string_of_range(&v, a + 1, b),
            None => {
                assert(v@.subrange(a + 1, v@.len() as int) =~= v@.skip(a + 1));
                text::string_of_range(&v, a + 1, v.len())
            },
        },
        None => text::string_of(&v),
    };
    text::trim(field.as_str())
}

/// What the scope answers when its screen was captured to `path`: the image, where the file
/// could be read and holds one.
pub fn capture_event(path: String, bytes: Option<Vec<u8>>) -> (r: TektronixEvent)
    ensures
        match r {
            TektronixEvent::Captured { path: p, image } => p@ == path@ && bytes is Some
                && screenshot::decoded_image(bytes->Some_0@) == Ok::<
                (u32, u32, Seq<u8>),
                Seq<char>,
            >((image.width, image.height, image.rgba@)),
            TektronixEvent::CaptureSaved { path: p } => p@ == path@ && (bytes is Some
                ==> screenshot::decoded_image(bytes->Some_0@) is Err),
            _ => false,
        },
{
    match &bytes {
        Some(b) => match screenshot::decode_image(b) {
            Ok(image) => TektronixEvent::Captured { path, image },
            Err(_) => TektronixEvent::CaptureSaved { path },
        },
        None => TektronixEvent::CaptureSaved { path },
    }
}

/// The page after an answer.
pub open spec fn after_event(s: TektronixView, event: TektronixEvent) -> TektronixView {
    match event {
        TektronixEvent::Connected { idn } => {
            let model = text::trimmed(second_field(idn@));
            TektronixView { connected: true, model, status: "Connected: "@ + model }
        },
        TektronixEvent::Captured { path, .. } => TektronixView {
            status: "Captured and copied: "@ + path@,
            ..s
        },
        TektronixEvent::CaptureSaved { path } => TektronixView {
            status: "Captured "@ + path@,
            ..s
        },
        TektronixEvent::Failed(message) => TektronixView { status: message@, ..s },
    }
}

/// The job that a button sends.
pub open spec fn job_sent(s: TektronixView, job: TektronixJob) -> Option<TektronixJob> {
    if (job is Connect) == s.connected {
        None
    } else {
        Some(job)
    }
}

/// The page after a button was pressed.
pub open spec fn after_press(s: TektronixView, job: TektronixJob) -> TektronixView {
    if job_sent(s, job) is None {
        s
    } else {
        TektronixView {
            status: if job is Connect {
                "Connecting…"@
            } else {
                "Capturing screen and copying…"@
            },
            ..s
        }
    }
}

/// Law: the scope can be connected while it is not and captured while it is; a button that does
/// not apply changes nothing, and one that does says so and leaves the connection as it is.
pub proof fn law_buttons_follow_the_connection(s: TektronixView)
    ensures
        job_sent(s, TektronixJob::Connect) is Some <==> !s.connected,
        job_sent(s, TektronixJob::CaptureScreen) is Some <==> s.connected,
        !s.connected ==> job_sent(s, TektronixJob::Connect) == Some(TektronixJob::Connect)
            && after_press(s, TektronixJob::Connect).status == "Connecting…"@
            && after_press(s, TektronixJob::CaptureScreen) == s,
        s.connected ==> job_sent(s, TektronixJob::CaptureScreen) == Some(
            TektronixJob::CaptureScreen,
        ) && after_press(s, TektronixJob::CaptureScreen).status == "Capturing screen and copying…"@
            && after_press(s, TektronixJob::Connect) == s,
        after_press(s, TektronixJob::Connect).connected == s.connected,
        after_press(s, TektronixJob::CaptureScreen).connected == s.connected,
        after_press(s, TektronixJob::Connect).model == s.model,
{
}

/// Law: a scope that answers with its identification is connected and shown by its model, which
/// is the second of the fields between commas; any other answer leaves connection and model and
/// is told.
pub proof fn law_identification_names_the_model(
    s: TektronixView,
    event: TektronixEvent,
    maker: Seq<char>,
    model: Seq<char>,
    rest: Seq<char>,
)
    requires
        !maker.contains(','),
        !model.contains(','),
    ensures
        second_field(maker + ","@ + model + ","@ + rest) == model,
        second_field(maker + ","@ + model) == model,
        second_field(maker) == maker,
        ({
            let t = after_event(s, event);
            &&& t.connected <==> s.connected || event is Connected
            &&& event is Connected ==> t.model == text::trimmed(second_field(event->idn@))
                && t.status == "Connected: "@ + t.model
            &&& !(event is Connected) ==> t.model == s.model
            &&& event is Captured ==> event->Captured_path@.is_suffix_of(t.status)
                && "Captured and copied: "@.is_prefix_of(t.status)
            &&& event is CaptureSaved ==> t.status == "Captured "@ + event->CaptureSaved_path@
            &&& event is Failed ==> t.status == event->Failed_0@
        }),
{
    reveal_strlit(",");
    let a = maker.len() as int;
    let b = a + 1 + model.len();
    let full = maker + ","@ + model + ","@ + rest;
    let short = maker + ","@ + model;
    assert forall|k: int| 0 <= k < a implies #[trigger] full[k] != ',' && short[k] != ','
        && maker[k] != ',' by {
        assert(maker.contains(maker[k]));
    }
    assert forall|k: int| a + 1 <= k < b implies #[trigger] full[k] != ',' && short[k] != ',' by {
        assert(model.contains(model[k - a - 1]));
    }
    text::law_first_char_is_found(full, ',', 0, a);
    text::law_first_char_is_found(full, ',', a + 1, b);
    text::law_first_char_is_found(short, ',', 0, a);
    text::law_first_char_is_found(short, ',', a + 1, b);
    text::law_first_char_is_found(maker, ',', 0, 0);
    assert(full.subrange(a + 1, b) =~= model);
    assert(short.skip(a + 1) =~= model);
}

impl TektronixPanel {
    /// The page at start.
    pub fn new() -> (r: Self)
        ensures
            r@ == (TektronixView {
                connected: false,
                model: "-"@,
                status: "Disconnected"@,
            }),
    {
        TektronixPanel {
            connected: false,
            model: "-".to_owned(),
            status: "Disconnected".to_owned(),
        }
    }

    /// What the status line says.
    pub fn status_text(&self) -> (r: &str)
        ensures
            r@ == self@.status,
    {
        self.status.as_str()
    }

    /// Whether data is acquired in the background: never on this page.
    pub fn live_active(&self) -> (r: bool)
        ensures
            !r,
    {
        false
    }

    /// A button was pressed: the connection is offered while there is none, the capture while
    /// there is one. The result is the job to send.
    pub fn press(&mut self, job: TektronixJob) -> (r: Option<TektronixJob>)
        ensures
            r == job_sent(old(self)@, job),
            final(self)@ == after_press(old(self)@, job),
    {
        let connecting: bool = match job {
            TektronixJob::Connect => true,
            TektronixJob::CaptureScreen => false,
        };
        if connecting == self.connected {
            return None;
        }
        self.status = if connecting {
            "Connecting…".to_owned()
        } else {
            "Capturing screen and copying…".to_owned()
        };
        Some(job)
    }

    /// Takes over an answer. The result is the image to show and to copy, where there is one.
    pub fn handle_event(&mut self, event: TektronixEvent) -> (r: Option<DecodedImage>)
        ensures
            final(self)@ == after_event(old(self)@, event),
            r == match event {
                TektronixEvent::Captured { image, .. } => Some(image),
                _ => None,
            },
    {
        match event {
            TektronixEvent::Connected { idn } => {
                let model = model_of(idn.as_str());
                self.status = text::join2("Connected: ", model.as_str());
                self.model = model;
                self.connected = true;
                None
            },
            TektronixEvent::Captured { path, image } => {
                self.status = text::join2("Captured and copied: ", path.as_str());
                Some(image)
            },
            TektronixEvent::CaptureSaved { path } => {
                self.status = text::join2("Captured ", path.as_str());
                None
            },
            TektronixEvent::Failed(message) => {
                self.status = message;
                None
            },
        }
    }
}

} // verus!
