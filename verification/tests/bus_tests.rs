use monazite::bus::{Event, HostMessenger, InMemoryBus};

#[test]
fn post_many_events() {
    let mut bus = InMemoryBus::new();
    let n = 50;
    for i in 0..n {
        let e = Event::new("runtime", "onMessage", &format!("{i}"));
        bus.post(&e).unwrap();
    }
    assert_eq!(bus.len(), n as usize);
    let evts = bus.events();
    assert_eq!(evts.first().unwrap().payload, "0");
    assert_eq!(evts.last().unwrap().payload, "49");
}

#[test]
fn events_are_kept_in_order_with_all_fields() {
    let mut bus = InMemoryBus::new();
    bus.post(&Event::new("tabs", "create", "about:blank")).unwrap();
    bus.post(&Event::new("runtime", "log", "hello")).unwrap();
    let evts = bus.events();
    assert_eq!(evts.len(), 2);
    assert_eq!(evts[0].ns, "tabs");
    assert_eq!(evts[0].name, "create");
    assert_eq!(evts[1].payload, "hello");
}
