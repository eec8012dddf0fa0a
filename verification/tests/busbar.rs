use qstudio::busbar::copper::Copper;
use qstudio::busbar::transferswitch::TransferSwitch;

#[test]
fn envelopes_report_client_and_callback() {
    let to_client = Copper::to_client("c1".to_string(), 5u32);
    assert_eq!(to_client.client_id(), "c1");
    assert_eq!(to_client.callback_address(), "");

    let to_server = Copper::to_server("c2".to_string(), "127.0.0.1:9000".to_string(), 7u32);
    assert_eq!(to_server.client_id(), "c2");
    assert_eq!(to_server.callback_address(), "127.0.0.1:9000");
}

#[test]
fn map_changes_only_the_payload() {
    let env = Copper::to_server("c".to_string(), "addr".to_string(), 20u32);
    let mapped = env.map(|n| format!("n={}", n));
    assert_eq!(mapped.client_id(), "c");
    assert_eq!(mapped.callback_address(), "addr");
    match mapped {
        Copper::ToServer { payload, .. } => assert_eq!(payload, "n=20"),
        Copper::ToClient { .. } => panic!("variant changed"),
    }

    let back = Copper::to_client("d".to_string(), 3i64).map(|n| n * 2);
    match back {
        Copper::ToClient { client_id, payload } => assert_eq!((client_id.as_str(), payload), ("d", 6)),
        Copper::ToServer { .. } => panic!("variant changed"),
    }
}

#[test]
fn switch_reads_the_other_slot() {
    let mut s = TransferSwitch::new(1u8, 2u8);
    assert_eq!(*s.read(), 1);
    s.switch();
    assert_eq!(*s.read(), 2);
    s.switch();
    assert_eq!(*s.read(), 1);
}

#[test]
fn write_goes_to_the_live_slot_only() {
    let mut s = TransferSwitch::new("a".to_string(), "b".to_string());
    s.write("x".to_string());
    assert_eq!(s.read(), "x");
    s.switch();
    assert_eq!(s.read(), "b");
    s.write("y".to_string());
    s.write("z".to_string());
    assert_eq!(s.read(), "z");
    s.switch();
    assert_eq!(s.read(), "x");
}

use qstudio::busbar::battery::{Filters, Meta};

fn meta() -> Meta {
    Meta { symbol: "AAPL".to_string(), begins_at: 100, ends_at: 200, frequency: "1d".to_string() }
}

#[test]
fn stored_series_meets_filters_it_covers() {
    let m = meta();
    assert!(m.meets_filters(&vec![]));
    assert!(m.meets_filters(&vec![Filters::DateRange { start: 100, end: 200 }]));
    assert!(m.meets_filters(&vec![
        Filters::DateRange { start: 150, end: 160 },
        Filters::Frequency("1d".to_string()),
    ]));
}

#[test]
fn stored_series_fails_filters_it_does_not_cover() {
    let m = meta();
    assert!(!m.meets_filters(&vec![Filters::DateRange { start: 99, end: 150 }]));
    assert!(!m.meets_filters(&vec![Filters::DateRange { start: 150, end: 201 }]));
    assert!(!m.meets_filters(&vec![
        Filters::DateRange { start: 150, end: 160 },
        Filters::Frequency("1h".to_string()),
    ]));
}

fn parts<T: Clone>(c: &Copper<T>) -> (String, String, T) {
    match c {
        Copper::ToClient { client_id, payload } => (client_id.clone(), String::new(), payload.clone()),
        Copper::ToServer { client_id, callback_address, payload } => {
            (client_id.clone(), callback_address.clone(), payload.clone())
        }
    }
}

#[test]
fn map_identity_and_composition() {
    let c = Copper::to_server("c".to_string(), "h:1".to_string(), 3i64);
    assert_eq!(parts(&c.clone().map(|x| x)), parts(&c));
    let f = |x: i64| x * 10;
    let g = |y: i64| format!("<{y}>");
    let twice = c.clone().map(f).map(g);
    let once = c.map(|x| g(f(x)));
    assert_eq!(parts(&twice), parts(&once));
    assert_eq!(parts(&once).2, "<30>");
}

#[test]
fn switching_k_times_reads_by_parity() {
    let mut s = TransferSwitch::new('a', 'b');
    for k in 0..7 {
        assert_eq!(*s.read(), if k % 2 == 0 { 'a' } else { 'b' });
        assert_eq!(*s.read(), *s.read());
        s.switch();
    }
}
