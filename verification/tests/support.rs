use qstudio::events::{EventType, NotificationEvent, NotificationKind};
use qstudio::keyed::KeyedList;
use qstudio::numbers::{float_text, parse_i32, parse_u16};
use qstudio::tcp::{Client, ClientList, Server};
use qstudio::ui::{split_host_port, BottomBar, Section, Settings};

#[test]
fn notification_kinds_read_in_any_case() {
    assert_eq!(NotificationKind::from_str("info"), Ok(NotificationKind::Info));
    assert_eq!(NotificationKind::from_str("WARNING"), Ok(NotificationKind::Warning));
    assert_eq!(NotificationKind::from_str("ErRoR"), Ok(NotificationKind::Error));
    assert_eq!(
        NotificationKind::from_str("loud"),
        Err("Unknown NotificationKind: loud".to_string())
    );
}

#[test]
fn notification_kind_names_read_back() {
    for k in [NotificationKind::Info, NotificationKind::Warning, NotificationKind::Error] {
        assert_eq!(NotificationKind::from_str(&k.to_string()), Ok(k.clone()));
    }
    assert_eq!(NotificationKind::Warning.to_string(), "warning");
}

#[test]
fn notification_event_holds_its_parts() {
    let e = NotificationEvent { kind: NotificationKind::Info, message: "saved".to_string() };
    assert_eq!(e.kind, NotificationKind::Info);
    assert_eq!(e.message, "saved");
    assert_ne!(EventType::UiEvent, EventType::DockEvent);
}

#[test]
fn client_registry_reads_back_what_was_added() {
    let mut list: ClientList<String> = ClientList::new();
    assert_eq!(list.get_client("a"), None);
    list.add_client("a".to_string(), "10.0.0.1:1".to_string());
    list.add_client("b".to_string(), "10.0.0.2:2".to_string());
    assert_eq!(list.get_client("a"), Some("10.0.0.1:1".to_string()));
    list.add_client("a".to_string(), "10.0.0.9:9".to_string());
    assert_eq!(list.get_client("a"), Some("10.0.0.9:9".to_string()));
    list.remove_client("a");
    assert_eq!(list.get_client("a"), None);
    assert_eq!(list.get_client("b"), Some("10.0.0.2:2".to_string()));
    list.remove_client("zzz");
    assert_eq!(list.get_client("b"), Some("10.0.0.2:2".to_string()));
}

#[test]
fn client_and_server_keep_their_addresses() {
    let c = Client::new("127.0.0.1:7000".to_string());
    assert_eq!(c.addr, "127.0.0.1:7000");
    let s = Server::new("0.0.0.0:7000".to_string(), "0.0.0.0:7001".to_string());
    assert_eq!((s.rx_addr.as_str(), s.tx_addr.as_str()), ("0.0.0.0:7000", "0.0.0.0:7001"));
}

#[test]
fn host_and_port_are_split_at_the_last_colon() {
    assert_eq!(split_host_port("127.0.0.1:8080", 1), ("127.0.0.1".to_string(), 8080));
    assert_eq!(split_host_port("::1:65535", 1), ("::1".to_string(), 65535));
    assert_eq!(split_host_port("host:65536", 42), ("host".to_string(), 42));
    assert_eq!(split_host_port("host:", 42), ("host".to_string(), 42));
    assert_eq!(split_host_port("host:+80", 42), ("host".to_string(), 80));
    assert_eq!(split_host_port("localhost", 7000), ("localhost".to_string(), 7000));
}

#[test]
fn panels_start_closed_on_the_interface_section() {
    let _bar = BottomBar::new();
    let settings = Settings::new();
    assert_eq!(settings.active, Some(Section::Ui));
}

#[test]
fn numbers_read_like_std() {
    assert_eq!(parse_u16("0"), Some(0));
    assert_eq!(parse_u16("65535"), Some(65535));
    assert_eq!(parse_u16("65536"), None);
    assert_eq!(parse_u16("-1"), None);
    assert_eq!(parse_u16(""), None);
    assert_eq!(parse_i32("-2147483648"), Some(i32::MIN));
    assert_eq!(parse_i32("2147483647"), Some(i32::MAX));
    assert_eq!(parse_i32("2147483648"), None);
    assert_eq!(parse_i32("+7"), Some(7));
    assert_eq!(parse_i32("7a"), None);
    for ok in ["1", "-0.5", "+3.", ".5", "1e10", "2.5E-3", "inf", "NaN", "-infinity"] {
        assert!(float_text(ok), "{}", ok);
        assert!(ok.parse::<f64>().is_ok(), "{}", ok);
    }
    for bad in ["", ".", "e5", "1e", "1.2.3", "--1", "0x10", "in"] {
        assert!(!float_text(bad), "{}", bad);
        assert!(bad.parse::<f64>().is_err(), "{}", bad);
    }
}

#[test]
fn keyed_list_keeps_one_value_per_key() {
    let mut m: KeyedList<u32> = KeyedList::new();
    assert_eq!(m.len(), 0);
    m.insert("a".to_string(), 1);
    m.insert("b".to_string(), 2);
    m.insert("a".to_string(), 3);
    assert_eq!(m.len(), 2);
    assert_eq!(m.get("a"), Some(&3));
    assert!(m.contains_key("b"));
    m.remove("b");
    assert!(!m.contains_key("b"));
    assert_eq!(m.len(), 1);
    let (k, v) = m.entry_at(0);
    assert_eq!((k.as_str(), *v), ("a", 3));
}

#[test]
fn search_suggestions_need_more_than_one_byte() {
    assert!(qstudio::ui::suggest_items("").is_empty());
    assert!(qstudio::ui::suggest_items("a").is_empty());
    let accented = qstudio::ui::suggest_items("é");
    assert_eq!(accented.len(), 4);
    assert_eq!(accented[0], "Search for: é");
    assert_eq!(
        qstudio::ui::suggest_items("ab"),
        vec!["Search for: ab", "Open Project…", "New File", "Settings"]
    );
}

#[test]
fn side_bar_panels_share_one_place() {
    let mut s = qstudio::ui::SideBar::new();
    assert!(!s.is_expanded());
    s.toggle_folder_tree();
    assert!(s.show_folder_tree && s.is_expanded());
    s.toggle_settings();
    assert!(s.show_settings && !s.show_folder_tree);
    s.toggle_search();
    assert!(s.show_search && s.show_settings);
    s.toggle_active_engines();
    assert!(s.show_active_engines && !s.show_settings && s.show_search);
    s.toggle_active_engines();
    assert!(!s.is_expanded() && s.show_search);
}
