use foxbox_core::lifecycle::{
    hub_start, HubEvent, HubNotice, HubPhase, HubRequest, HubStep, PAIRING_ATTEMPTS, PAIRING_COOLDOWN_MS,
    PAIRING_RETRY_MS, PROBE_INTERVAL_MS,
};

fn drive(start: HubPhase, events: &[HubEvent]) -> Vec<HubStep> {
    let mut phase = start;
    let mut steps = Vec::new();
    for e in events {
        match phase.step(*e) {
            Some(s) => {
                phase = s.phase;
                steps.push(s);
            }
            None => break,
        }
    }
    steps
}

fn count_notice(steps: &[HubStep], n: HubNotice) -> usize {
    steps.iter().filter(|s| s.notice == Some(n)).count()
}

#[test]
fn always_rejected_pairing_times_out_after_all_attempts() {
    let mut events = vec![HubEvent::PairingStatus(false)];
    for _ in 0..200 {
        events.push(HubEvent::PairingAttempt(false));
    }
    let steps = drive(HubPhase::Available, &events[..121]);
    let attempts = steps.iter().filter(|s| s.request == HubRequest::TryPairing).count();
    assert_eq!(attempts, 120);
    assert_eq!(PAIRING_ATTEMPTS, 120);
    for s in &steps[1..120] {
        assert_eq!(s.delay_ms, 1000);
    }
    let last = steps[120];
    assert_eq!(last.phase, HubPhase::Cooldown);
    assert_eq!(last.delay_ms, PAIRING_COOLDOWN_MS);
    assert_eq!(last.request, HubRequest::ProbeAvailability);
    assert_eq!(count_notice(&steps, HubNotice::PairingTimeout), 1);
    assert_eq!(count_notice(&steps, HubNotice::NeedsPairing), 120);
    assert_eq!(count_notice(&steps, HubNotice::PairingSuccess), 0);
    // After the pause the hub is probed again.
    let again = HubPhase::Cooldown.step(HubEvent::Availability(true));
    assert_eq!(again.map(|s| s.phase), Some(HubPhase::Available));
}

#[test]
fn pairing_accepted_on_fifth_attempt() {
    let events = vec![
        HubEvent::PairingStatus(false),
        HubEvent::PairingAttempt(false),
        HubEvent::PairingAttempt(false),
        HubEvent::PairingAttempt(false),
        HubEvent::PairingAttempt(false),
        HubEvent::PairingAttempt(true),
    ];
    let steps = drive(HubPhase::Available, &events);
    assert_eq!(steps.len(), 6);
    assert_eq!(steps.iter().filter(|s| s.request == HubRequest::TryPairing).count(), 5);
    let last = steps[5];
    assert_eq!(last.phase, HubPhase::Paired);
    assert_eq!(last.delay_ms, 0);
    assert_eq!(last.request, HubRequest::FetchSettings);
    let settings = HubPhase::Paired.step(HubEvent::SettingsFetched).unwrap();
    assert_eq!(settings.request, HubRequest::EnumerateLights);
    assert_eq!(count_notice(&steps, HubNotice::PairingSuccess), 1);
    assert_eq!(count_notice(&steps, HubNotice::PairingTimeout), 0);
    assert_eq!(steps[1].delay_ms, PAIRING_RETRY_MS);
}

#[test]
fn offline_hub_is_probed_every_minute() {
    let first = hub_start();
    assert_eq!(first.phase, HubPhase::Offline);
    assert_eq!(first.request, HubRequest::ProbeAvailability);
    let s = HubPhase::Offline.step(HubEvent::Availability(false)).unwrap();
    assert_eq!(s.phase, HubPhase::Offline);
    assert_eq!(s.delay_ms, PROBE_INTERVAL_MS);
    assert_eq!(s.request, HubRequest::ProbeAvailability);
}

#[test]
fn paired_hub_enumerates_then_idles() {
    let steps = drive(
        HubPhase::Offline,
        &[
            HubEvent::Availability(true),
            HubEvent::PairingStatus(true),
            HubEvent::SettingsFetched,
            HubEvent::LightsEnumerated,
            HubEvent::Woke,
        ],
    );
    assert_eq!(steps.len(), 5);
    assert_eq!(steps[1].phase, HubPhase::Paired);
    assert_eq!(steps[1].request, HubRequest::FetchSettings);
    assert_eq!(steps[1].notice, None);
    assert_eq!(steps[2].phase, HubPhase::Enumerating);
    assert_eq!(steps[2].request, HubRequest::EnumerateLights);
    assert_eq!(steps[3].phase, HubPhase::SteadyState);
    assert_eq!(steps[4].request, HubRequest::Idle);
    assert_eq!(steps[4].delay_ms, 60000);
}

#[test]
fn failed_enumeration_is_retried() {
    let s = HubPhase::Enumerating.step(HubEvent::EnumerationFailed).unwrap();
    assert_eq!(s.phase, HubPhase::Enumerating);
    assert_eq!(s.request, HubRequest::EnumerateLights);
    assert_eq!(s.delay_ms, PROBE_INTERVAL_MS);
    assert!(HubPhase::Paired.step(HubEvent::LightsEnumerated).is_none());
}

#[test]
fn stop_halts_from_any_phase_and_unexpected_events_are_refused() {
    let s = HubPhase::Pairing { attempts: 3 }.step(HubEvent::Stop).unwrap();
    assert_eq!(s.phase, HubPhase::Stopped);
    assert_eq!(s.request, HubRequest::Halt);
    assert_eq!(HubPhase::Stopped.step(HubEvent::Woke).map(|s| s.phase), Some(HubPhase::Stopped));
    assert!(HubPhase::Offline.step(HubEvent::PairingAttempt(true)).is_none());
}
