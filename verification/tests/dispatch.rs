use qstudio::busbar::Response;
use qstudio::dispatch::{
    file_extension, route_frontend_event, DockEvent, EngineEvent, Event, EventResponse, FileEvent, Route, UiEvent,
};
use qstudio::events::{EventType, NotificationEvent, NotificationKind};

type Ev = Event<String>;

fn info_text(r: &EventResponse<String>) -> String {
    match r {
        EventResponse::Info(m) => m.clone(),
        other => panic!("expected an information answer, got {:?}", other),
    }
}

#[test]
fn extension_is_the_text_after_the_last_dot() {
    assert_eq!(file_extension("strategy.v2.qql"), "qql");
    assert_eq!(file_extension("noext"), "noext");
    assert_eq!(file_extension("trailing."), "");
    assert_eq!(file_extension(""), "");
}

#[test]
fn only_qql_files_start_the_engine() {
    let (fwd, answer) = EngineEvent::<String>::Start { filename: "notes.txt".into() }.execute();
    assert!(fwd.is_none());
    assert_eq!(info_text(&answer), "Only .qql files are supported for engine start.");

    let (fwd, answer) = EngineEvent::<String>::Start { filename: "alpha.qql".into() }.execute();
    assert!(matches!(fwd, Some(Event::EngineEvent(EngineEvent::Start { ref filename })) if filename == "alpha.qql"));
    match answer {
        EventResponse::EngineEvent(EngineEvent::NewEngineMonitor { name, status }) => {
            assert_eq!(name, "alpha.qql");
            assert_eq!(status, "Started");
        }
        other => panic!("unexpected answer {:?}", other),
    }
}

#[test]
fn engine_requests_are_acknowledged_and_passed_on() {
    let (fwd, answer) = EngineEvent::<String>::Status { code: 42, message: "ok".into() }.execute();
    assert!(fwd.is_none());
    assert_eq!(info_text(&answer), "Engine status - Code: 42, Message: ok");

    let (fwd, answer) = EngineEvent::<String>::Stop { filename: "a.qql".into() }.execute();
    assert!(fwd.is_none());
    assert_eq!(info_text(&answer), "Stopping engine for file: a.qql");

    let (fwd, answer) = EngineEvent::<String>::SaveFile { filename: "b.qql".into(), content: "x".into() }.execute();
    assert!(matches!(fwd, Some(Event::EngineEvent(EngineEvent::SaveFile { .. }))));
    assert_eq!(info_text(&answer), "Requested save for file: b.qql");

    let (fwd, answer) = EngineEvent::<String>::GetOutput { name: "c".into() }.execute();
    assert!(matches!(fwd, Some(Event::EngineEvent(EngineEvent::GetOutput { .. }))));
    assert_eq!(info_text(&answer), "Requested output for engine: c");

    let (fwd, answer) = EngineEvent::<String>::UpdateCode { filename: "d.qql".into() }.execute();
    assert!(fwd.is_some());
    assert_eq!(info_text(&answer), "Requested code update for file: d.qql");

    let (fwd, answer) = EngineEvent::<String>::NewEngineMonitor { name: "e".into(), status: "s".into() }.execute();
    assert!(fwd.is_some());
    assert_eq!(info_text(&answer), "New engine monitor created: e");

    let (fwd, answer) = EngineEvent::Output { name: "f".into(), data: "payload".to_string() }.execute();
    assert!(fwd.is_none());
    assert!(matches!(answer, EventResponse::EngineEvent(EngineEvent::Output { ref data, .. }) if data == "payload"));
}

#[test]
fn connections_and_notifications_on_the_server() {
    let (fwd, answer) = Ev::Connection { client_id: 7, message: "hello".into() }.do_something();
    assert!(fwd.is_none());
    assert!(matches!(answer, EventResponse::Success(ref m) if m == "Client 7: hello"));

    let n = NotificationEvent { kind: NotificationKind::Warning, message: "disk".into() };
    let (fwd, answer) = Ev::NotificationEvent(n).do_something();
    assert!(matches!(fwd, Some(Event::NotificationEvent(ref p)) if p.kind == NotificationKind::Warning && p.message == "disk"));
    assert_eq!(answer.event_type(), EventType::NotificationEvent);
    assert_eq!(answer.message(), "disk");
    match answer.into_event() {
        Event::NotificationEvent(back) => {
            assert_eq!(back.kind, NotificationKind::Warning);
            assert_eq!(back.message, "disk");
        }
        other => panic!("unexpected event {:?}", other),
    }
}

#[test]
fn interface_events_come_back_unchanged() {
    let (fwd, answer) = Ev::UiEvent(UiEvent::ShowGraph { name: "g".into() }).do_something();
    assert!(fwd.is_none());
    assert_eq!(answer.event_type(), EventType::UiEvent);
    assert_eq!(answer.message(), "UI event");
    assert!(matches!(answer.into_event(), Event::UiEvent(UiEvent::ShowGraph { ref name }) if name == "g"));

    let (_, answer) = Ev::FileEvent(FileEvent::GetDirectoryListing).do_something();
    assert_eq!(answer.message(), "File event");
    assert!(matches!(answer.into_event(), Event::FileEvent(FileEvent::GetDirectoryListing)));
}

#[test]
fn answers_become_notifications() {
    let e = EventResponse::<String>::Error("boom".into()).into_event();
    assert!(matches!(e, Event::NotificationEvent(ref n) if n.kind == NotificationKind::Error && n.message == "boom"));
    let odd = EventResponse::<String>::Notification {
        parent_event_type: EventType::FileEvent,
        kind: "nonsense".into(),
        message: "m".into(),
    };
    assert_eq!(odd.event_type(), EventType::FileEvent);
    assert!(matches!(odd.into_event(), Event::NotificationEvent(ref n) if n.kind == NotificationKind::Info));
    let d = <EventResponse<String> as Response<EventType, EventResponse<String>>>::default();
    assert!(matches!(d, EventResponse::Info(ref m) if m == "Default response"));
    assert_eq!(Ev::Connection { client_id: 1, message: String::new() }.event_type(), EventType::NotificationEvent);
    assert_eq!(Ev::DockEvent(DockEvent::ShowGraph { name: "x".into() }).event_type(), EventType::DockEvent);
}

#[test]
fn the_interface_routes_what_it_receives() {
    assert!(matches!(route_frontend_event(Ev::UiEvent(UiEvent::OpenNewWindow)), Route::OpenWindow));
    assert!(matches!(route_frontend_event(Ev::UiEvent(UiEvent::CloseWindow)), Route::CloseWindow));
    assert!(matches!(
        route_frontend_event(Ev::UiEvent(UiEvent::ToggleRightBar)),
        Route::ToWidgets(Event::UiEvent(UiEvent::ToggleRightBar))
    ));
    match route_frontend_event(Ev::UiEvent(UiEvent::NewOutputFromServer { filename: "f.qql".into(), output: "o".into() })) {
        Route::ToDock(Event::DockEvent(DockEvent::UpdateOutput { name, content })) => {
            assert_eq!(name, "f.qql");
            assert_eq!(content, "o");
        }
        other => panic!("unexpected route {:?}", other),
    }
    assert!(matches!(
        route_frontend_event(Ev::UiEvent(UiEvent::ShowTrades { name: "t".into() })),
        Route::ToDock(Event::DockEvent(DockEvent::ShowTrades { .. }))
    ));
    assert!(matches!(route_frontend_event(Ev::UiEvent(UiEvent::ShowTables { name: "t".into() })), Route::Unhandled));
    assert!(matches!(
        route_frontend_event(Ev::EngineEvent(EngineEvent::Stop { filename: "a".into() })),
        Route::ToServer(Event::EngineEvent(_))
    ));
}

#[test]
fn opening_a_file_shows_it_or_the_reason() {
    let shown: DockEvent<String> = DockEvent::opened("a.qql".into(), Ok("text".into()));
    assert!(matches!(shown, DockEvent::ShowFile { ref name, ref buffer } if name == "a.qql" && buffer == "text"));
    let failed: DockEvent<String> = DockEvent::opened("b".into(), Err("denied".into()));
    assert!(matches!(failed, DockEvent::Error { ref message } if message == "Failed to open file: denied"));
}

#[test]
fn interface_events_as_log_text() {
    assert_eq!(UiEvent::<String>::OpenNewWindow.describe(), "UiEvent::OpenNewWindow");
    assert_eq!(UiEvent::<String>::SetAlwaysOnTop(true).describe(), "UiEvent::SetAlwaysOnTop(true)");
    assert_eq!(UiEvent::<String>::SetWindowTitle("T".into()).describe(), "UiEvent::SetWindowTitle(T)");
    assert_eq!(
        UiEvent::<String>::SetWindowSize { width: 800, height: 600 }.describe(),
        "UiEvent::SetWindowSize { width: 800, height: 600 }"
    );
    assert_eq!(
        UiEvent::<String>::SetWindowPosition { x: -12, y: 0 }.describe(),
        "UiEvent::SetWindowPosition { x: -12, y: 0 }"
    );
    assert_eq!(
        UiEvent::<String>::SetWindowPosition { x: i32::MIN, y: i32::MAX }.describe(),
        format!("UiEvent::SetWindowPosition {{ x: {}, y: {} }}", i32::MIN, i32::MAX)
    );
    assert_eq!(
        UiEvent::NewOutputFromServer { filename: "f".into(), output: "big".to_string() }.describe(),
        "UiEvent::NewOutputFromServer { filename: f }"
    );
    assert_eq!(UiEvent::<String>::ShowTables { name: "n".into() }.describe(), "UiEvent::ShowTables { name: n }");
}
