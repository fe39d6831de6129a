use foxbox_core::hub::{Discovery, Hub};
use foxbox_core::registry::Registry;

#[test]
fn duplicate_id_replaces_entry() {
    let mut r: Registry<u32> = Registry::new();
    assert_eq!(r.insert("001788fffe243755".to_string(), 1), None);
    assert_eq!(r.insert("001788fffe243755".to_string(), 2), Some(1));
    assert_eq!(r.len(), 1);
    assert!(r.contains("001788fffe243755"));
    let drained = r.drain();
    assert_eq!(drained, vec![("001788fffe243755".to_string(), 2)]);
    assert_eq!(r.len(), 0);
}

#[test]
fn duplicate_hub_replaces_without_stopping() {
    let mut d = Discovery::new();
    let first = Hub::new("hub1", "192.168.5.129", "tok");
    assert!(d.add_hub(first).is_none());
    let second = Hub::new("hub1", "192.168.5.130", "tok");
    let prev = d.add_hub(second).expect("the first hub comes back");
    assert_eq!(d.hub_count(), 1);
    assert_eq!(prev.ip(), "192.168.5.129");
    assert_ne!(prev.phase(), foxbox_core::lifecycle::HubPhase::Stopped);
    assert!(d.knows("hub1"));
    assert!(!d.knows("hub2"));
}
