use foxbox_core::hub::{Hub, Light};
use foxbox_core::hub_api::{decimal_string, HttpMethod, HubApi};
use foxbox_core::lifecycle::{HubEvent, HubPhase};

fn api() -> HubApi {
    HubApi::new("001788fffe25681a", "192.168.2.4", "tok123")
}

#[test]
fn authenticated_and_open_urls() {
    let a = api();
    let g = a.get("lights");
    assert_eq!(g.method, HttpMethod::Get);
    assert_eq!(g.url, "http://192.168.2.4/api/tok123/lights");
    assert_eq!(g.body, "");
    let p = a.post("groups", "{}");
    assert_eq!(p.method, HttpMethod::Post);
    assert_eq!(p.url, "http://192.168.2.4/api/tok123/groups");
    assert_eq!(p.body, "{}");
    let u = a.post_unauth("api", "x");
    assert_eq!(u.url, "http://192.168.2.4/api");
    let t = a.put("lights/1/state", "y");
    assert_eq!(t.method, HttpMethod::Put);
    assert_eq!(t.url, "http://192.168.2.4/api/tok123/lights/1/state");
    assert_eq!(a.get_settings().url, "http://192.168.2.4/api/tok123/");
    assert_eq!(a.availability_request().url, "http://192.168.2.4/");
    assert_eq!(a.get_lights().url, "http://192.168.2.4/api/tok123/lights");
    assert_eq!(a.get_light_status("3").url, "http://192.168.2.4/api/tok123/lights/3");
}

#[test]
fn availability_probe_looks_for_the_signature() {
    assert!(HubApi::is_available(Some("<title>hue personal wireless lighting</title>")));
    assert!(!HubApi::is_available(Some("<title>some router</title>")));
    assert!(!HubApi::is_available(None));
}

#[test]
fn pairing_status_and_outcome() {
    let unauthorized = r#"[{"error":{"type":1,"address":"/","description":"unauthorized user"}}]"#;
    assert!(!HubApi::is_paired(Some(unauthorized)));
    assert!(HubApi::is_paired(Some(r#"{"config":{}}"#)));
    assert!(HubApi::is_paired(None));
    assert!(HubApi::pairing_accepted(Some(r#"[{"success":{"username":"tok123"}}]"#)));
    let refused = r#"[{"error":{"type":101,"address":"/","description":"link button not pressed"}}]"#;
    assert!(!HubApi::pairing_accepted(Some(refused)));
    assert!(!HubApi::pairing_accepted(None));
}

#[test]
fn pairing_request_body() {
    let r = api().try_pairing();
    assert_eq!(r.method, HttpMethod::Post);
    assert_eq!(r.url, "http://192.168.2.4/api");
    assert_eq!(r.body, r#"{"devicetype":"foxbox_hub","username":"tok123"}"#);
    let q = HubApi::new("i", "h", "a\"b").try_pairing();
    assert_eq!(q.body, r#"{"devicetype":"foxbox_hub","username":"a\"b"}"#);
    let c = HubApi::new("i", "h", "x\\y\n\u{1}\u{1f}é").try_pairing();
    assert_eq!(c.body, r#"{"devicetype":"foxbox_hub","username":"x\\y\n\u0001\u001fé"}"#);
}

#[test]
fn light_color_command() {
    let r = api().set_light_color("7", 46920, 254, 10, true);
    assert_eq!(r.method, HttpMethod::Put);
    assert_eq!(r.url, "http://192.168.2.4/api/tok123/lights/7/state");
    assert_eq!(r.body, r#"{"bri":10,"hue":46920,"on":true,"sat":254}"#);
    let off = api().set_light_color("7", 0, 0, 0, false);
    assert_eq!(off.body, r#"{"bri":0,"hue":0,"on":false,"sat":0}"#);
}

#[test]
fn decimal_forms() {
    assert_eq!(decimal_string(0), "0");
    assert_eq!(decimal_string(9), "9");
    assert_eq!(decimal_string(10), "10");
    assert_eq!(decimal_string(4294967295), "4294967295");
}

#[test]
fn hub_lights_only_after_pairing_and_stop_drains() {
    let mut h = Hub::new("hub1", "10.0.0.2", "tok");
    assert_eq!(h.phase(), HubPhase::Offline);
    let ids = vec!["1".to_string(), "2".to_string(), "1".to_string()];
    assert!(!h.add_lights(&ids));
    assert_eq!(h.light_count(), 0);
    h.advance(HubEvent::Availability(true)).unwrap();
    h.advance(HubEvent::PairingStatus(true)).unwrap();
    assert_eq!(h.phase(), HubPhase::Paired);
    assert!(!h.add_lights(&ids));
    h.advance(HubEvent::SettingsFetched).unwrap();
    assert_eq!(h.phase(), HubPhase::Enumerating);
    assert!(h.add_lights(&ids));
    assert_eq!(h.light_count(), 2);
    assert!(h.has_light("2"));
    assert!(!h.has_light("3"));
    assert_eq!(h.id(), "hub1");
    assert_eq!(h.api().token, "tok");
    assert_eq!(h.get_light_status("2").url, "http://10.0.0.2/api/tok/lights/2");
    assert_eq!(h.get_light_status("2").body, "");
    assert_eq!(h.set_light_color("2", 1, 2, 3, true).body, r#"{"bri":3,"hue":1,"on":true,"sat":2}"#);
    let lights = h.stop();
    let ids: Vec<&str> = lights.iter().map(|(k, _)| k.as_str()).collect();
    assert_eq!(ids, vec!["1", "2"]);
    assert_eq!(h.light_count(), 0);
    assert_eq!(h.phase(), HubPhase::Stopped);
}

#[test]
fn light_types() {
    assert!(Light::is_supported("Extended color light"));
    assert!(!Light::is_supported("Dimmable light"));
    let l = Light::new(api(), "5");
    assert_eq!(l.status_request().url, "http://192.168.2.4/api/tok123/lights/5");
    assert_eq!(l.status_request().body, "");
}

#[test]
fn light_ids_from_reply() {
    let reply = r#"{"2":{"type":"Extended color light"},"10":{},"1":{"type":"Dimmable light"}}"#;
    assert_eq!(HubApi::light_ids(Some(reply)), Some(vec!["1".to_string(), "10".to_string(), "2".to_string()]));
    assert_eq!(HubApi::light_ids(Some("{}")), Some(vec![]));
    assert_eq!(HubApi::light_ids(Some("not json")), None);
    assert_eq!(HubApi::light_ids(Some("[1,2]")), None);
    assert_eq!(HubApi::light_ids(None), None);
}

#[test]
fn light_type_from_status() {
    let status = r#"{"state":{"on":true},"type":"Extended color light","uniqueid":"00:17:88:01:00:bd:c7:b9-0b"}"#;
    assert_eq!(HubApi::light_type(Some(status)), Some("Extended color light".to_string()));
    assert_eq!(HubApi::light_type(Some(r#"{"type":3}"#)), None);
    assert_eq!(HubApi::light_type(Some(r#"{"name":"x"}"#)), None);
    assert_eq!(HubApi::light_type(Some("[]")), None);
    assert_eq!(HubApi::light_type(None), None);
}
