use qstudio::keyed::KeyedList;
use qstudio::windows::{ensure_unique_id, next_free_port, WindowRegistry};

fn table(ids: &[&str]) -> KeyedList<u16> {
    let mut m = KeyedList::new();
    for (i, id) in ids.iter().enumerate() {
        m.insert(id.to_string(), i as u16);
    }
    m
}

#[test]
fn preferred_id_is_kept_when_free() {
    let m = table(&["Main"]);
    assert_eq!(ensure_unique_id(&m, Some("Charts")), "Charts");
}

#[test]
fn taken_ids_fall_back_to_numbered_windows() {
    let m = table(&["Main", "Window-1", "Window-3"]);
    assert_eq!(ensure_unique_id(&m, Some("Main")), "Window-2");
    assert_eq!(ensure_unique_id(&m, None), "Window-2");
    let m = table(&["Window-1", "Window-2"]);
    assert_eq!(ensure_unique_id(&m, None), "Window-3");
    assert_eq!(ensure_unique_id(&table(&[]), None), "Window-1");
}

#[test]
fn ports_are_taken_in_order_after_the_base() {
    let mut used = vec![7879u16];
    assert_eq!(next_free_port(7879, &mut used), 7880);
    assert_eq!(next_free_port(7879, &mut used), 7881);
    used.push(7883);
    assert_eq!(next_free_port(7879, &mut used), 7882);
    assert_eq!(next_free_port(7879, &mut used), 7884);
    assert_eq!(used, vec![7879, 7880, 7881, 7883, 7882, 7884]);
}

#[test]
fn port_zero_counts_as_one() {
    let mut used = vec![];
    assert_eq!(next_free_port(0, &mut used), 2);
    let mut used = vec![];
    assert_eq!(next_free_port(65535, &mut used), 65535);
}

#[test]
fn listen_addresses_read_back() {
    let addr = qstudio::windows::listen_address("127.0.0.1", 7878);
    assert_eq!(addr, "127.0.0.1:7878");
    assert_eq!(qstudio::ui::split_host_port(&addr, 1), ("127.0.0.1".to_string(), 7878));
    let v6 = qstudio::windows::listen_address("::1", 0);
    assert_eq!(v6, "::1:0");
    assert_eq!(qstudio::ui::split_host_port(&v6, 9), ("::1".to_string(), 0));
}

#[test]
fn the_registry_plans_windows_on_free_ports() {
    let mut reg: WindowRegistry<u8> = WindowRegistry::new("127.0.0.1:7879", "127.0.0.1:7000".to_string());
    assert_eq!(reg.main_address(), "127.0.0.1:7879");
    assert_eq!(reg.main_id, "Main");
    let main_id = reg.main_id.clone();
    reg.add_window(main_id, 0);
    let (id, addr) = reg.plan_window(Some("Main"));
    assert_eq!(id, "Window-1");
    assert_eq!(addr, "127.0.0.1:7880");
    reg.add_window(id, 1);
    let (id, addr) = reg.plan_window(Some("Charts"));
    assert_eq!(id, "Charts");
    assert_eq!(addr, "127.0.0.1:7881");
    assert_eq!(reg.used_ports, vec![7879, 7880, 7881]);
    let odd: WindowRegistry<u8> = WindowRegistry::new("localhost", String::new());
    assert_eq!(odd.main_address(), "localhost:7879");
}
