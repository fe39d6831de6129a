use foxbox_core::dispatch::{next_offer, service_started, service_stopped, DispatchStep};
use foxbox_core::events::{handle_event, EventData, Handling};
use foxbox_core::registry::Registry;

fn run(claims: &[bool]) -> (Vec<usize>, DispatchStep) {
    let mut asked = Vec::new();
    let mut answers = Vec::new();
    loop {
        match next_offer(claims.len(), &answers) {
            DispatchStep::Offer(i) => {
                asked.push(i);
                answers.push(claims[i]);
            }
            other => return (asked, other),
        }
    }
}

#[test]
fn only_the_claiming_handler_and_those_before_it_are_asked() {
    let claims = [false, false, true, false, false];
    let (asked, last) = run(&claims);
    assert_eq!(asked, vec![0, 1, 2]);
    assert_eq!(last, DispatchStep::Claimed(2));
}

#[test]
fn first_claim_wins() {
    let (asked, last) = run(&[true, true]);
    assert_eq!(asked, vec![0]);
    assert_eq!(last, DispatchStep::Claimed(0));
}

#[test]
fn unclaimed_after_every_handler_declines() {
    let (asked, last) = run(&[false, false, false]);
    assert_eq!(asked, vec![0, 1, 2]);
    assert_eq!(last, DispatchStep::Unclaimed);
    assert_eq!(run(&[]).1, DispatchStep::Unclaimed);
}

#[test]
fn service_events_update_the_registry() {
    let mut services: Registry<u8> = Registry::new();
    assert!(service_started(&services, "svc1").is_err());
    services.insert("svc1".to_string(), 7);
    services.insert("svc2".to_string(), 8);
    assert!(service_started(&services, "svc1").is_ok());
    assert_eq!(service_stopped(&mut services, "svc1").ok(), Some(7));
    assert_eq!(services.len(), 1);
    match service_stopped(&mut services, "svc1") {
        Err(e) => assert_eq!(e.id, "svc1"),
        Ok(_) => panic!("svc1 is gone"),
    }
    assert!(services.contains("svc2"));
}

#[test]
fn events_are_routed() {
    let mut services: Registry<u8> = Registry::new();
    services.insert("svc".to_string(), 1);
    assert!(matches!(handle_event(&mut services, EventData::ServiceStart { id: "svc".to_string() }), Handling::Done));
    match handle_event(&mut services, EventData::ServiceStart { id: "nope".to_string() }) {
        Handling::InternalError(e) => assert_eq!(e.id, "nope"),
        _ => panic!("unknown service must be reported"),
    }
    match handle_event(&mut services, EventData::UpnpSearch { target: None }) {
        Handling::Search(t) => assert_eq!(t, "ssdp:all"),
        _ => panic!("a search is expected"),
    }
    assert!(matches!(handle_event(&mut services, EventData::AdapterStart { name: "a".to_string() }), Handling::Logged));
    assert!(matches!(handle_event(&mut services, EventData::ServiceStop { id: "svc".to_string() }), Handling::Done));
    assert_eq!(services.len(), 0);
    assert!(matches!(
        handle_event(&mut services, EventData::ServiceStop { id: "svc".to_string() }),
        Handling::InternalError(_)
    ));
}
