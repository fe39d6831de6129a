use foxbox_core::description::lookup;
use foxbox_core::events::EventData;
use foxbox_core::upnp::{
    departed_service, described_service, event_liveness, owns_hue_simulator, search_target, DiscoveryKind,
    DummyAdapter, UpnpMsearchHeader,
};

fn header(id: &str, alive: bool) -> UpnpMsearchHeader {
    UpnpMsearchHeader {
        device_id: id.to_string(),
        device_type: "urn:schemas-upnp-org:device:Basic:1".to_string(),
        service_type: String::new(),
        service_ver: String::new(),
        location: "http://10.0.0.2/description.xml".to_string(),
        os: String::new(),
        date: String::new(),
        ext: String::new(),
        expires: 100,
        alive,
    }
}

const SIMULATOR: &str = "<root><device><deviceType>urn:schemas-upnp-org:device:Basic:1</deviceType><modelName>Philips hue bridge 2012</modelName><modelNumber>929000226503</modelNumber></device></root>";

#[test]
fn callback_kinds() {
    assert_eq!(event_liveness(DiscoveryKind::SearchResult), Some(true));
    assert_eq!(event_liveness(DiscoveryKind::AdvertisementAlive), Some(true));
    assert_eq!(event_liveness(DiscoveryKind::AdvertisementByebye), Some(false));
    assert_eq!(event_liveness(DiscoveryKind::SearchTimeout), None);
    assert_eq!(event_liveness(DiscoveryKind::Other), None);
}

#[test]
fn default_search_target() {
    assert_eq!(search_target(None), "ssdp:all");
    assert_eq!(search_target(Some("upnp:rootdevice".to_string())), "upnp:rootdevice");
}

#[test]
fn departing_device_has_no_description() {
    let s = departed_service(header("uuid:x", false));
    assert!(s.description.is_empty());
    assert_eq!(s.description_data, "");
    assert!(!s.msearch.alive);
}

#[test]
fn unparsable_description_is_kept_empty() {
    let s = described_service(header("uuid:x", true), "<root><a></b></root>".to_string());
    assert!(s.description.is_empty());
    assert_eq!(s.description_data, "<root><a></b></root>");
}

#[test]
fn simulator_is_recognised() {
    let s = described_service(header("uuid:2f402f80-da50-11e1-9b23-001788102201", true), SIMULATOR.to_string());
    assert_eq!(lookup(&s.description, "/root/device/modelNumber").map(|t| t.as_str()), Some("929000226503"));
    assert!(owns_hue_simulator(&s));
    let other = described_service(header("uuid:0000", true), SIMULATOR.to_string());
    assert!(!owns_hue_simulator(&other));
    let bare = described_service(header("uuid:2f402f80-da50-11e1-9b23-0017", true), "<root/>".to_string());
    assert!(!owns_hue_simulator(&bare));
}

#[test]
fn event_descriptions() {
    assert_eq!(EventData::AdapterStart { name: "name".to_owned() }.description(), "name");
    assert_eq!(EventData::ServiceStart { id: "id".to_owned() }.description(), "id");
    assert_eq!(EventData::ServiceStop { id: "id".to_owned() }.description(), "id");
    assert_eq!(EventData::UpnpSearch { target: None }.description(), "upnp search None");
    let t = EventData::UpnpSearch { target: Some("a\"b".to_string()) };
    assert_eq!(t.description(), "upnp search Some(\"a\\\"b\")");
    let d = EventData::UpnpServiceDiscovered { service: departed_service(header("uuid:abc", false)) };
    assert_eq!(d.description(), "upnp service discovered uuid:abc");
}

#[test]
fn simulator_rediscovery_is_requested_once() {
    let mut adapter = DummyAdapter::new();
    let s = described_service(header("uuid:2f402f80-da50-11e1-9b23-001788102201", true), SIMULATOR.to_string());
    let other = described_service(header("uuid:0000", true), SIMULATOR.to_string());
    assert_eq!(adapter.upnp_discover(&other), (false, None));
    assert_eq!(adapter.upnp_discover(&s), (true, Some(Some("urn:schemas-upnp-org:device:basic:1".to_string()))));
    assert_eq!(adapter.upnp_discover(&s), (true, None));
}
