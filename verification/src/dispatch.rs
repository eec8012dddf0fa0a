//! The events that travel between the interface, the server and the engine,
//! and the decisions taken on each: which kind an event is, what answers it,
//! what is passed on, and where the interface routes what it receives. The
//! data an engine run produces is carried as an opaque payload `O`.

use vstd::prelude::*;
use crate::busbar::Response;
use crate::events::{EventType, NotificationEvent, NotificationKind, kind_name, kind_named, law_kind_name_round_trip};
use crate::files::Fs;
use crate::text::{chars_of, concat, owned, string_of};
use crate::trading::{decimal, decimal_text};

verus! {

/// A request to or from the interface.
#[derive(Debug, Clone)]
pub enum UiEvent<O> {
    OpenNewWindow,
    CloseWindow,
    MinimizeWindow,
    MaximizeWindow,
    RestoreWindow,
    SetAlwaysOnTop(bool),
    ToggleFullScreen,
    FocusWindow,
    BlurWindow,
    SetWindowTitle(String),
    SetWindowIcon(String),
    SetWindowSize { width: u32, height: u32 },
    SetWindowPosition { x: i32, y: i32 },
    GetWindowSize,
    GetWindowPosition,
    OpenDevTools,
    CloseDevTools,
    ToggleDevTools,
    ToggleRightBar,
    NewOutputFromServer { filename: String, output: O },
    ShowGraph { name: String },
    ShowTrades { name: String },
    ShowTables { name: String },
}

/// A request to the document area.
#[derive(Debug, Clone)]
pub enum DockEvent<O> {
    OpenFile { path: String },
    ShowFile { name: String, buffer: String },
    ShowGraph { name: String },
    Error { message: String },
    UpdateOutput { name: String, content: O },
    ShowTrades { name: String },
}

/// A request to or a report from the engine.
#[derive(Debug, Clone)]
pub enum EngineEvent<O> {
    Start { filename: String },
    Stop { filename: String },
    Status { code: u32, message: String },
    NewEngineMonitor { name: String, status: String },
    GetOutput { name: String },
    Output { name: String, data: O },
    SaveFile { filename: String, content: String },
    UpdateCode { filename: String },
}

/// A request on the project's files, or its answer.
#[derive(Debug)]
pub enum FileEvent {
    GetFile { path: String },
    FileContent { path: String, content: String },
    GetDirectoryListing,
    DirectoryListing { path: String, listing: Option<Fs> },
    ReadFile { path: String },
    NewFile { path: String, content: String },
    DeleteFile { path: String },
    RenameFile { old_path: String, new_path: String },
}

/// Any event exchanged over the link.
#[derive(Debug)]
pub enum Event<O> {
    Connection { client_id: u32, message: String },
    UiEvent(UiEvent<O>),
    NotificationEvent(NotificationEvent),
    EngineEvent(EngineEvent<O>),
    FileEvent(FileEvent),
    DockEvent(DockEvent<O>),
}

/// The answer to an event.
#[derive(Debug)]
pub enum EventResponse<O> {
    Success(String),
    Error(String),
    Info(String),
    Notification { parent_event_type: EventType, kind: String, message: String },
    FileEvent(FileEvent),
    DockEvent(DockEvent<O>),
    EngineEvent(EngineEvent<O>),
    UiEvent(UiEvent<O>),
}

/// The kind of an event; a connection counts as a notification.
pub open spec fn event_kind<O>(e: Event<O>) -> EventType {
    match e {
        Event::UiEvent(_) => EventType::UiEvent,
        Event::NotificationEvent(_) => EventType::NotificationEvent,
        Event::EngineEvent(_) => EventType::EngineEvent,
        Event::FileEvent(_) => EventType::FileEvent,
        Event::Connection { .. } => EventType::NotificationEvent,
        Event::DockEvent(_) => EventType::DockEvent,
    }
}

/// The kind of event an answer is for: plain messages are notifications, a
/// notification names its own, and an answer carrying an event is of that
/// event's kind.
pub open spec fn response_kind<O>(r: EventResponse<O>) -> EventType {
    match r {
        EventResponse::Success(_) => EventType::NotificationEvent,
        EventResponse::Error(_) => EventType::NotificationEvent,
        EventResponse::Info(_) => EventType::NotificationEvent,
        EventResponse::UiEvent(_) => EventType::UiEvent,
        EventResponse::Notification { parent_event_type, .. } => parent_event_type,
        EventResponse::FileEvent(_) => EventType::FileEvent,
        EventResponse::DockEvent(_) => EventType::DockEvent,
        EventResponse::EngineEvent(_) => EventType::EngineEvent,
    }
}

/// The message of an answer: its text, or a fixed label for an answer that
/// carries an event.
pub open spec fn response_message<O>(r: EventResponse<O>) -> Seq<char> {
    match r {
        EventResponse::Success(m) => m@,
        EventResponse::Error(m) => m@,
        EventResponse::Info(m) => m@,
        EventResponse::Notification { message, .. } => message@,
        EventResponse::FileEvent(_) => "File event"@,
        EventResponse::DockEvent(_) => "Dock event"@,
        EventResponse::EngineEvent(_) => "Engine event"@,
        EventResponse::UiEvent(_) => "UI event"@,
    }
}

fn copy_kind(t: &EventType) -> (r: EventType)
    ensures
        r == *t,
{
    match t {
        EventType::UiEvent => EventType::UiEvent,
        EventType::NotificationEvent => EventType::NotificationEvent,
        EventType::EngineEvent => EventType::EngineEvent,
        EventType::FileEvent => EventType::FileEvent,
        EventType::DockEvent => EventType::DockEvent,
    }
}

impl<O> Event<O> {
    /// The kind of the event, by which it is routed.
    pub fn event_type(&self) -> (r: EventType)
        ensures
            r == event_kind(*self),
    {
        match self {
            Event::UiEvent(_) => EventType::UiEvent,
            Event::NotificationEvent(_) => EventType::NotificationEvent,
            Event::EngineEvent(_) => EventType::EngineEvent,
            Event::FileEvent(_) => EventType::FileEvent,
            Event::Connection { .. } => EventType::NotificationEvent,
            Event::DockEvent(_) => EventType::DockEvent,
        }
    }
}

impl<O> Response<EventType, EventResponse<O>> for EventResponse<O> {
    fn message(&self) -> (r: String)
        ensures
            r@ == response_message(*self),
    {
        match self {
            EventResponse::Success(msg) => msg.clone(),
            EventResponse::Error(msg) => msg.clone(),
            EventResponse::Info(msg) => msg.clone(),
            EventResponse::Notification { message, .. } => message.clone(),
            EventResponse::FileEvent(_) => owned("File event"),
            EventResponse::DockEvent(_) => owned("Dock event"),
            EventResponse::EngineEvent(_) => owned("Engine event"),
            EventResponse::UiEvent(_) => owned("UI event"),
        }
    }

    fn default() -> (r: Self)
        ensures
            r matches EventResponse::Info(m) && m@ == "Default response"@,
    {
        EventResponse::Info(owned("Default response"))
    }

    fn event_type(&self) -> (r: EventType)
        ensures
            r == response_kind(*self),
    {
        match self {
            EventResponse::Success(_) => EventType::NotificationEvent,
            EventResponse::Error(_) => EventType::NotificationEvent,
            EventResponse::Info(_) => EventType::NotificationEvent,
            EventResponse::UiEvent(_) => EventType::UiEvent,
            EventResponse::Notification { parent_event_type, .. } => copy_kind(parent_event_type),
            EventResponse::FileEvent(_) => EventType::FileEvent,
            EventResponse::DockEvent(_) => EventType::DockEvent,
            EventResponse::EngineEvent(_) => EventType::EngineEvent,
        }
    }
}

/* ------------------------------ the engine ------------------------------ */

/// The text after the last `'.'` of `s`, or all of `s` when it has none.
pub open spec fn extension(s: Seq<char>) -> Seq<char> {
    if exists|i: int| 0 <= i < s.len() && s[i] == '.' {
        let i = choose|i: int| 0 <= i < s.len() && s[i] == '.' && forall|j: int| i < j < s.len() ==> s[j] != '.';
        s.skip(i + 1)
    } else {
        s
    }
}

/// The text after the last `'.'` of `s`, or all of `s` when it has none.
pub fn file_extension(s: &str) -> (r: String)
    ensures
        r@ == extension(s@),
{
    let cs = chars_of(s);
    let n = cs.len();
    let mut i = n;
    while i > 0
        invariant
            i <= n == cs@.len(),
            cs@ == s@,
            forall|j: int| i <= j < n ==> cs@[j] != '.',
        decreases i,
    {
        if cs[i - 1] == '.' {
            let r = string_of(cs.as_slice(), i, n);
            proof {
                let k = i - 1;
                let w = choose|w: int| 0 <= w < s@.len() && s@[w] == '.' && forall|j: int| w < j < s@.len() ==> s@[j] != '.';
                assert(s@[k as int] == '.');
                assert(w == k) by {
                    if w < k { assert(s@[k as int] != '.'); }
                    if w > k { assert(s@[w] != '.'); }
                }
                assert(cs@.subrange(i as int, n as int) =~= s@.skip(k + 1));
            }
            return r;
        }
        i = i - 1;
    }
    proof {
        assert(!exists|j: int| 0 <= j < s@.len() && s@[j] == '.');
    }
    owned(s)
}

/// What the engine's side does with an engine event: what it passes on to
/// the engine (`r.0`) and what it answers (`r.1`). Only a `.qql` file is
/// started; a start, a new monitor, an output request, a save and a code
/// update are passed on; a status and a stop are only acknowledged, and an
/// output is answered with itself.
pub open spec fn engine_step_ok<O>(e: EngineEvent<O>, r: (Option<Event<O>>, EventResponse<O>)) -> bool {
    match e {
        EngineEvent::Start { filename } => if extension(filename@) != "qql"@ {
            r.0 is None && (r.1 matches EventResponse::Info(m) && m@ == "Only .qql files are supported for engine start."@)
        } else {
            &&& r.0 matches Some(Event::EngineEvent(EngineEvent::Start { filename: f })) && f@ == filename@
            &&& r.1 matches EventResponse::EngineEvent(EngineEvent::NewEngineMonitor { name, status })
                && name@ == filename@ && status@ == "Started"@
        },
        EngineEvent::Stop { filename } => r.0 is None
            && (r.1 matches EventResponse::Info(m) && m@ == "Stopping engine for file: "@ + filename@),
        EngineEvent::Status { code, message } => r.0 is None
            && (r.1 matches EventResponse::Info(m)
            && m@ == "Engine status - Code: "@ + decimal(code as nat) + ", Message: "@ + message@),
        EngineEvent::NewEngineMonitor { name, status } => {
            &&& r.0 matches Some(Event::EngineEvent(EngineEvent::NewEngineMonitor { name: n, status: s }))
                && n@ == name@ && s@ == status@
            &&& r.1 matches EventResponse::Info(m) && m@ == "New engine monitor created: "@ + name@
        },
        EngineEvent::GetOutput { name } => {
            &&& r.0 matches Some(Event::EngineEvent(EngineEvent::GetOutput { name: n })) && n@ == name@
            &&& r.1 matches EventResponse::Info(m) && m@ == "Requested output for engine: "@ + name@
        },
        EngineEvent::Output { name, data } => r.0 is None
            && r.1 == EventResponse::EngineEvent(EngineEvent::Output { name, data }),
        EngineEvent::SaveFile { filename, content } => {
            &&& r.0 matches Some(Event::EngineEvent(EngineEvent::SaveFile { filename: f, content: c }))
                && f@ == filename@ && c@ == content@
            &&& r.1 matches EventResponse::Info(m) && m@ == "Requested save for file: "@ + filename@
        },
        EngineEvent::UpdateCode { filename } => {
            &&& r.0 matches Some(Event::EngineEvent(EngineEvent::UpdateCode { filename: f })) && f@ == filename@
            &&& r.1 matches EventResponse::Info(m) && m@ == "Requested code update for file: "@ + filename@
        },
    }
}

fn text_is(s: &str, t: &str) -> (r: bool)
    ensures
        r == (s@ == t@),
{
    crate::text::str_eq(s, t)
}

impl<O> EngineEvent<O> {
    /// Handles an engine event on the engine's side; see `engine_step_ok`.
    pub fn execute(self) -> (r: (Option<Event<O>>, EventResponse<O>))
        ensures
            engine_step_ok(self, r),
    {
        match self {
            EngineEvent::Start { filename } => {
                let ext = file_extension(filename.as_str());
                if !text_is(ext.as_str(), "qql") {
                    return (None, EventResponse::Info(owned("Only .qql files are supported for engine start.")));
                }
                let name = filename.clone();
                (
                    Some(Event::EngineEvent(EngineEvent::Start { filename })),
                    EventResponse::EngineEvent(EngineEvent::NewEngineMonitor { name, status: owned("Started") }),
                )
            },
            EngineEvent::Stop { filename } => {
                (None, EventResponse::Info(concat("Stopping engine for file: ", filename.as_str())))
            },
            EngineEvent::Status { code, message } => {
                let head = concat("Engine status - Code: ", decimal_text(code as usize).as_str());
                let mid = concat(head.as_str(), ", Message: ");
                (None, EventResponse::Info(concat(mid.as_str(), message.as_str())))
            },
            EngineEvent::NewEngineMonitor { name, status } => {
                let m = concat("New engine monitor created: ", name.as_str());
                (Some(Event::EngineEvent(EngineEvent::NewEngineMonitor { name, status })), EventResponse::Info(m))
            },
            EngineEvent::GetOutput { name } => {
                let m = concat("Requested output for engine: ", name.as_str());
                (Some(Event::EngineEvent(EngineEvent::GetOutput { name })), EventResponse::Info(m))
            },
            EngineEvent::Output { name, data } => {
                (None, EventResponse::EngineEvent(EngineEvent::Output { name, data }))
            },
            EngineEvent::SaveFile { filename, content } => {
                let m = concat("Requested save for file: ", filename.as_str());
                (Some(Event::EngineEvent(EngineEvent::SaveFile { filename, content })), EventResponse::Info(m))
            },
            EngineEvent::UpdateCode { filename } => {
                let m = concat("Requested code update for file: ", filename.as_str());
                (Some(Event::EngineEvent(EngineEvent::UpdateCode { filename })), EventResponse::Info(m))
            },
        }
    }
}

/* -------------------------- notifications, answers -------------------------- */

fn copy_notification_kind(k: &NotificationKind) -> (r: NotificationKind)
    ensures
        r == *k,
{
    match k {
        NotificationKind::Info => NotificationKind::Info,
        NotificationKind::Warning => NotificationKind::Warning,
        NotificationKind::Error => NotificationKind::Error,
    }
}

impl NotificationEvent {
    /// Handles a notification: it is passed on as it is (`r.0`) and answered
    /// with a notification of the notification kind that names its kind and
    /// repeats its message (`r.1`).
    pub fn execute<O>(&self) -> (r: (Event<O>, EventResponse<O>))
        ensures
            r.0 matches Event::NotificationEvent(n) && n.kind == self.kind && n.message@ == self.message@,
            r.1 matches EventResponse::Notification { parent_event_type, kind, message }
                && parent_event_type == EventType::NotificationEvent
                && kind@ == kind_name(self.kind) && message@ == self.message@,
    {
        let passed = NotificationEvent { kind: copy_notification_kind(&self.kind), message: self.message.clone() };
        (
            Event::NotificationEvent(passed),
            EventResponse::Notification {
                parent_event_type: EventType::NotificationEvent,
                kind: self.kind.to_string(),
                message: self.message.clone(),
            },
        )
    }
}

/// What the server does with an event it receives: a connection is
/// acknowledged, engine events and notifications are handled as
/// `engine_step_ok` and `NotificationEvent::execute` say, and an event for
/// the files, the document area or the interface is answered with itself.
/// `r.0` is what is passed on to the engine's side.
pub open spec fn event_step_ok<O>(e: Event<O>, r: (Option<Event<O>>, EventResponse<O>)) -> bool {
    match e {
        Event::Connection { client_id, message } => r.0 is None
            && (r.1 matches EventResponse::Success(m)
            && m@ == "Client "@ + decimal(client_id as nat) + ": "@ + message@),
        Event::EngineEvent(x) => engine_step_ok(x, r),
        Event::NotificationEvent(n) => {
            &&& r.0 matches Some(Event::NotificationEvent(p)) && p.kind == n.kind && p.message@ == n.message@
            &&& r.1 matches EventResponse::Notification { parent_event_type, kind, message }
                && parent_event_type == EventType::NotificationEvent
                && kind@ == kind_name(n.kind) && message@ == n.message@
        },
        Event::FileEvent(f) => r.0 is None && r.1 == EventResponse::<O>::FileEvent(f),
        Event::DockEvent(d) => r.0 is None && r.1 == EventResponse::DockEvent(d),
        Event::UiEvent(u) => r.0 is None && r.1 == EventResponse::UiEvent(u),
    }
}

impl<O> Event<O> {
    /// Handles an event on the server; see `event_step_ok`.
    pub fn do_something(self) -> (r: (Option<Event<O>>, EventResponse<O>))
        ensures
            event_step_ok(self, r),
    {
        match self {
            Event::Connection { client_id, message } => {
                let head = concat("Client ", decimal_text(client_id as usize).as_str());
                let mid = concat(head.as_str(), ": ");
                (None, EventResponse::Success(concat(mid.as_str(), message.as_str())))
            },
            Event::EngineEvent(x) => x.execute(),
            Event::NotificationEvent(n) => {
                let (passed, answer) = n.execute();
                (Some(passed), answer)
            },
            Event::FileEvent(f) => (None, EventResponse::FileEvent(f)),
            Event::DockEvent(d) => (None, EventResponse::DockEvent(d)),
            Event::UiEvent(u) => (None, EventResponse::UiEvent(u)),
        }
    }
}

/// The notification kind named by `s`, or `Info` when `s` names none.
pub open spec fn kind_or_info(s: Seq<char>) -> NotificationKind {
    match kind_named(s) {
        Some(k) => k,
        None => NotificationKind::Info,
    }
}

/// The event an answer becomes when it is passed on: a message becomes a
/// notification (an error one for an error, an information one otherwise, a
/// notification keeping its named kind), and an answer carrying an event
/// becomes that event.
pub open spec fn answer_event_ok<O>(a: EventResponse<O>, e: Event<O>) -> bool {
    match a {
        EventResponse::Success(m) => e matches Event::NotificationEvent(n)
            && n.kind == NotificationKind::Info && n.message@ == m@,
        EventResponse::Error(m) => e matches Event::NotificationEvent(n)
            && n.kind == NotificationKind::Error && n.message@ == m@,
        EventResponse::Info(m) => e matches Event::NotificationEvent(n)
            && n.kind == NotificationKind::Info && n.message@ == m@,
        EventResponse::Notification { kind, message, .. } => e matches Event::NotificationEvent(n)
            && n.kind == kind_or_info(kind@) && n.message@ == message@,
        EventResponse::FileEvent(f) => e == Event::<O>::FileEvent(f),
        EventResponse::DockEvent(d) => e == Event::DockEvent(d),
        EventResponse::EngineEvent(x) => e == Event::EngineEvent(x),
        EventResponse::UiEvent(u) => e == Event::UiEvent(u),
    }
}

impl<O> EventResponse<O> {
    /// The event this answer becomes when it is passed on; see
    /// `answer_event_ok`.
    pub fn into_event(self) -> (r: Event<O>)
        ensures
            answer_event_ok(self, r),
    {
        match self {
            EventResponse::Success(msg) => Event::NotificationEvent(NotificationEvent { kind: NotificationKind::Info, message: msg }),
            EventResponse::Error(msg) => Event::NotificationEvent(NotificationEvent { kind: NotificationKind::Error, message: msg }),
            EventResponse::Info(msg) => Event::NotificationEvent(NotificationEvent { kind: NotificationKind::Info, message: msg }),
            EventResponse::Notification { kind, message, .. } => {
                let k = match NotificationKind::from_str(kind.as_str()) {
                    Ok(k) => k,
                    Err(_) => NotificationKind::Info,
                };
                Event::NotificationEvent(NotificationEvent { kind: k, message })
            },
            EventResponse::FileEvent(f) => Event::FileEvent(f),
            EventResponse::DockEvent(d) => Event::DockEvent(d),
            EventResponse::EngineEvent(x) => Event::EngineEvent(x),
            EventResponse::UiEvent(u) => Event::UiEvent(u),
        }
    }
}

/* ------------------------------ the interface ----------------------------- */

/// Where the interface sends an event that reaches it.
#[derive(Debug)]
pub enum Route<O> {
    /// To the panels: the right bar is toggled.
    ToWidgets(Event<O>),
    /// A new window is opened.
    OpenWindow,
    /// The window leaves the server's client list and closes.
    CloseWindow,
    /// To the document area.
    ToDock(Event<O>),
    /// An interface event that nothing handles.
    Unhandled,
    /// Any other event goes to the server.
    ToServer(Event<O>),
}

/// How the interface routes `e`: an interface event is handled here (the
/// right-bar toggle goes to the panels, a window is opened or closed, a
/// graph, trades or a new output go to the document area, the rest is left
/// unhandled); every other event is sent to the server.
pub open spec fn route_ok<O>(e: Event<O>, r: Route<O>) -> bool {
    match e {
        Event::UiEvent(u) => match u {
            UiEvent::ToggleRightBar => r == Route::ToWidgets(Event::UiEvent(UiEvent::<O>::ToggleRightBar)),
            UiEvent::OpenNewWindow => r == Route::<O>::OpenWindow,
            UiEvent::CloseWindow => r == Route::<O>::CloseWindow,
            UiEvent::ShowGraph { name } => r == Route::ToDock(Event::DockEvent(DockEvent::<O>::ShowGraph { name })),
            UiEvent::ShowTrades { name } => r == Route::ToDock(Event::DockEvent(DockEvent::<O>::ShowTrades { name })),
            UiEvent::NewOutputFromServer { filename, output } =>
                r == Route::ToDock(Event::DockEvent(DockEvent::UpdateOutput { name: filename, content: output })),
            _ => r == Route::<O>::Unhandled,
        },
        _ => r == Route::ToServer(e),
    }
}

/// Routes an event that reaches the interface; see `route_ok`.
pub fn route_frontend_event<O>(e: Event<O>) -> (r: Route<O>)
    ensures
        route_ok(e, r),
{
    match e {
        Event::UiEvent(u) => match u {
            UiEvent::ToggleRightBar => Route::ToWidgets(Event::UiEvent(UiEvent::ToggleRightBar)),
            UiEvent::OpenNewWindow => Route::OpenWindow,
            UiEvent::CloseWindow => Route::CloseWindow,
            UiEvent::ShowGraph { name } => Route::ToDock(Event::DockEvent(DockEvent::ShowGraph { name })),
            UiEvent::ShowTrades { name } => Route::ToDock(Event::DockEvent(DockEvent::ShowTrades { name })),
            UiEvent::NewOutputFromServer { filename, output } =>
                Route::ToDock(Event::DockEvent(DockEvent::UpdateOutput { name: filename, content: output })),
            _ => Route::Unhandled,
        },
        _ => Route::ToServer(e),
    }
}

impl<O> DockEvent<O> {
    /// What opening the file at `path` shows, given what reading it gave:
    /// its text under the path's name, or an error that quotes the reason.
    pub fn opened(path: String, read: Result<String, String>) -> (r: DockEvent<O>)
        ensures
            match read {
                Ok(text) => r == DockEvent::<O>::ShowFile { name: path, buffer: text },
                Err(why) => r matches DockEvent::Error { message } && message@ == "Failed to open file: "@ + why@,
            },
    {
        match read {
            Ok(buffer) => DockEvent::ShowFile { name: path, buffer },
            Err(why) => DockEvent::Error { message: concat("Failed to open file: ", why.as_str()) },
        }
    }
}

/* ------------------------------- as text -------------------------------- */

pub open spec fn bool_text(b: bool) -> Seq<char> {
    if b { "true"@ } else { "false"@ }
}

/// The decimal text of `x`, with a leading `-` when it is negative.
pub open spec fn signed_decimal(x: int) -> Seq<char> {
    if x < 0 { "-"@ + decimal((-x) as nat) } else { decimal(x as nat) }
}

/// How an interface event is written in the log: its variant's path, with
/// its fields (the name of the file for a new output, not the output).
pub open spec fn ui_text<O>(u: UiEvent<O>) -> Seq<char> {
    match u {
        UiEvent::OpenNewWindow => "UiEvent::OpenNewWindow"@,
        UiEvent::CloseWindow => "UiEvent::CloseWindow"@,
        UiEvent::MinimizeWindow => "UiEvent::MinimizeWindow"@,
        UiEvent::MaximizeWindow => "UiEvent::MaximizeWindow"@,
        UiEvent::RestoreWindow => "UiEvent::RestoreWindow"@,
        UiEvent::ToggleFullScreen => "UiEvent::ToggleFullScreen"@,
        UiEvent::FocusWindow => "UiEvent::FocusWindow"@,
        UiEvent::BlurWindow => "UiEvent::BlurWindow"@,
        UiEvent::GetWindowSize => "UiEvent::GetWindowSize"@,
        UiEvent::GetWindowPosition => "UiEvent::GetWindowPosition"@,
        UiEvent::OpenDevTools => "UiEvent::OpenDevTools"@,
        UiEvent::CloseDevTools => "UiEvent::CloseDevTools"@,
        UiEvent::ToggleDevTools => "UiEvent::ToggleDevTools"@,
        UiEvent::ToggleRightBar => "UiEvent::ToggleRightBar"@,
        UiEvent::SetAlwaysOnTop(top) => "UiEvent::SetAlwaysOnTop("@ + bool_text(top) + ")"@,
        UiEvent::SetWindowTitle(title) => "UiEvent::SetWindowTitle("@ + title@ + ")"@,
        UiEvent::SetWindowIcon(path) => "UiEvent::SetWindowIcon("@ + path@ + ")"@,
        UiEvent::SetWindowSize { width, height } => "UiEvent::SetWindowSize { width: "@
            + decimal(width as nat) + ", height: "@ + decimal(height as nat) + " }"@,
        UiEvent::SetWindowPosition { x, y } => "UiEvent::SetWindowPosition { x: "@
            + signed_decimal(x as int) + ", y: "@ + signed_decimal(y as int) + " }"@,
        UiEvent::NewOutputFromServer { filename, .. } => "UiEvent::NewOutputFromServer { filename: "@ + filename@ + " }"@,
        UiEvent::ShowGraph { name } => "UiEvent::ShowGraph { name: "@ + name@ + " }"@,
        UiEvent::ShowTrades { name } => "UiEvent::ShowTrades { name: "@ + name@ + " }"@,
        UiEvent::ShowTables { name } => "UiEvent::ShowTables { name: "@ + name@ + " }"@,
    }
}

fn bracketed(head: &str, body: &str, tail: &str) -> (r: String)
    ensures
        r@ == head@ + body@ + tail@,
{
    let a = concat(head, body);
    concat(a.as_str(), tail)
}

fn signed_text(x: i32) -> (r: String)
    ensures
        r@ == signed_decimal(x as int),
{
    if x < 0 {
        let m = (-(x as i64)) as usize;
        concat("-", decimal_text(m).as_str())
    } else {
        decimal_text(x as usize)
    }
}

impl<O> UiEvent<O> {
    /// The event as the log writes it; see `ui_text`.
    pub fn describe(&self) -> (r: String)
        ensures
            r@ == ui_text(*self),
    {
        match self {
            UiEvent::OpenNewWindow => owned("UiEvent::OpenNewWindow"),
            UiEvent::CloseWindow => owned("UiEvent::CloseWindow"),
            UiEvent::MinimizeWindow => owned("UiEvent::MinimizeWindow"),
            UiEvent::MaximizeWindow => owned("UiEvent::MaximizeWindow"),
            UiEvent::RestoreWindow => owned("UiEvent::RestoreWindow"),
            UiEvent::ToggleFullScreen => owned("UiEvent::ToggleFullScreen"),
            UiEvent::FocusWindow => owned("UiEvent::FocusWindow"),
            UiEvent::BlurWindow => owned("UiEvent::BlurWindow"),
            UiEvent::GetWindowSize => owned("UiEvent::GetWindowSize"),
            UiEvent::GetWindowPosition => owned("UiEvent::GetWindowPosition"),
            UiEvent::OpenDevTools => owned("UiEvent::OpenDevTools"),
            UiEvent::CloseDevTools => owned("UiEvent::CloseDevTools"),
            UiEvent::ToggleDevTools => owned("UiEvent::ToggleDevTools"),
            UiEvent::ToggleRightBar => owned("UiEvent::ToggleRightBar"),
            UiEvent::SetAlwaysOnTop(top) => {
                bracketed("UiEvent::SetAlwaysOnTop(", if *top { "true" } else { "false" }, ")")
            },
            UiEvent::SetWindowTitle(title) => bracketed("UiEvent::SetWindowTitle(", title.as_str(), ")"),
            UiEvent::SetWindowIcon(path) => bracketed("UiEvent::SetWindowIcon(", path.as_str(), ")"),
            UiEvent::SetWindowSize { width, height } => {
                let w = bracketed("UiEvent::SetWindowSize { width: ", decimal_text(*width as usize).as_str(), ", height: ");
                bracketed(w.as_str(), decimal_text(*height as usize).as_str(), " }")
            },
            UiEvent::SetWindowPosition { x, y } => {
                let a = bracketed("UiEvent::SetWindowPosition { x: ", signed_text(*x).as_str(), ", y: ");
                bracketed(a.as_str(), signed_text(*y).as_str(), " }")
            },
            UiEvent::NewOutputFromServer { filename, .. } => {
                bracketed("UiEvent::NewOutputFromServer { filename: ", filename.as_str(), " }")
            },
            UiEvent::ShowGraph { name } => bracketed("UiEvent::ShowGraph { name: ", name.as_str(), " }"),
            UiEvent::ShowTrades { name } => bracketed("UiEvent::ShowTrades { name: ", name.as_str(), " }"),
            UiEvent::ShowTables { name } => bracketed("UiEvent::ShowTables { name: ", name.as_str(), " }"),
        }
    }
}

/* --------------------------------- laws --------------------------------- */

/// An event for the files, the document area or the interface comes back
/// from the server unchanged: nothing is passed to the engine, and the
/// answer, passed on, is the event itself.
pub proof fn law_server_echoes_interface_events<O>(e: Event<O>, r: (Option<Event<O>>, EventResponse<O>), back: Event<O>)
    requires
        e is FileEvent || e is DockEvent || e is UiEvent,
        event_step_ok(e, r),
        answer_event_ok(r.1, back),
    ensures
        r.0 is None,
        back == e,
{
}

/// A notification sent to the server comes back, once its answer is passed
/// on, with the same kind and message.
pub proof fn law_notification_survives_the_server<O>(n: NotificationEvent, r: (Option<Event<O>>, EventResponse<O>), back: Event<O>)
    requires
        event_step_ok(Event::NotificationEvent(n), r),
        answer_event_ok(r.1, back),
    ensures
        back matches Event::NotificationEvent(m) && m.kind == n.kind && m.message@ == n.message@,
{
    law_kind_name_round_trip(n.kind);
}

/// An answer passed on becomes an event of the kind the answer reports, and
/// so reaches the handler it was sent to; the exception is a notification
/// that names another kind than that of notifications.
pub proof fn law_answer_reaches_its_kind<O>(a: EventResponse<O>, e: Event<O>)
    requires
        !(a matches EventResponse::Notification { parent_event_type, .. } && parent_event_type != EventType::NotificationEvent),
        answer_event_ok(a, e),
    ensures
        event_kind(e) == response_kind(a),
{
}

/// The engine is asked to start a file only when its name ends in `.qql`,
/// and then under that same name.
pub proof fn law_only_qql_files_start<O>(e: EngineEvent<O>, r: (Option<Event<O>>, EventResponse<O>))
    requires
        engine_step_ok(e, r),
        r.0 matches Some(Event::EngineEvent(EngineEvent::Start { .. })),
    ensures
        e matches EngineEvent::Start { filename } && extension(filename@) == "qql"@,
{
}

} // verus!
