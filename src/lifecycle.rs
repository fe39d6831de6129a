//! The per-hub lifecycle: availability probing, pairing with bounded retry,
//! light enumeration and steady state, as a transition function. The caller
//! sleeps for `delay_ms`, performs `request` and reports its outcome as the
//! next event.
use vstd::prelude::*;

verus! {

/// Pause between availability probes while the hub is offline, and between
/// wake-ups in steady state.
pub const PROBE_INTERVAL_MS: u64 = 60000;
/// Pairing attempts made before giving up for a while.
pub const PAIRING_ATTEMPTS: u32 = 120;
/// Pause between two pairing attempts.
pub const PAIRING_RETRY_MS: u64 = 1000;
/// Pause after an unsuccessful round of pairing.
pub const PAIRING_COOLDOWN_MS: u64 = 3600000;

#[derive(PartialEq, Eq, Structural, Clone, Copy, Debug)]
pub enum HubPhase {
    /// Waiting for the result of an availability probe.
    Offline,
    /// Available; waiting to learn whether the hub is paired.
    Available,
    /// `attempts` pairing attempts made so far, the last one pending.
    Pairing { attempts: u32 },
    /// Pairing timed out; the next probe comes after a long pause.
    Cooldown,
    /// Paired; waiting for the bridge's settings.
    Paired,
    /// Settings read; waiting for the list of lights.
    Enumerating,
    /// Lights are running; nothing more to do but wake up now and then.
    SteadyState,
    /// Stopped for good.
    Stopped,
}

#[derive(PartialEq, Eq, Structural, Clone, Copy, Debug)]
pub enum HubEvent {
    Availability(bool),
    PairingStatus(bool),
    PairingAttempt(bool),
    SettingsFetched,
    LightsEnumerated,
    EnumerationFailed,
    Woke,
    Stop,
}

#[derive(PartialEq, Eq, Structural, Clone, Copy, Debug)]
pub enum HubRequest {
    ProbeAvailability,
    CheckPairing,
    TryPairing,
    FetchSettings,
    EnumerateLights,
    Idle,
    Halt,
}

#[derive(PartialEq, Eq, Structural, Clone, Copy, Debug)]
pub enum HubNotice {
    NeedsPairing,
    PairingSuccess,
    PairingTimeout,
}

/// What the hub does next: enter `phase`, publish `notice` if any, wait
/// `delay_ms`, then perform `request`.
#[derive(PartialEq, Eq, Structural, Clone, Copy, Debug)]
pub struct HubStep {
    pub phase: HubPhase,
    pub notice: Option<HubNotice>,
    pub delay_ms: u64,
    pub request: HubRequest,
}

pub open spec fn mk_step(phase: HubPhase, notice: Option<HubNotice>, delay_ms: u64, request: HubRequest) -> HubStep {
    HubStep { phase, notice, delay_ms, request }
}

pub open spec fn phase_wf(p: HubPhase) -> bool {
    match p {
        HubPhase::Pairing { attempts } => 1 <= attempts <= PAIRING_ATTEMPTS,
        _ => true,
    }
}

/// The step taken on `e` in phase `p`; `None` when `p` awaits no such event.
pub open spec fn hub_next(p: HubPhase, e: HubEvent) -> Option<HubStep> {
    if p == HubPhase::Stopped || e == HubEvent::Stop {
        Some(mk_step(HubPhase::Stopped, None, 0, HubRequest::Halt))
    } else {
        match (p, e) {
            (HubPhase::Offline, HubEvent::Availability(up)) | (HubPhase::Cooldown, HubEvent::Availability(up)) => {
                if up {
                    Some(mk_step(HubPhase::Available, None, 0, HubRequest::CheckPairing))
                } else {
                    Some(mk_step(HubPhase::Offline, None, PROBE_INTERVAL_MS, HubRequest::ProbeAvailability))
                }
            },
            (HubPhase::Available, HubEvent::PairingStatus(paired)) => {
                if paired {
                    Some(mk_step(HubPhase::Paired, None, 0, HubRequest::FetchSettings))
                } else {
                    Some(mk_step(HubPhase::Pairing { attempts: 1 }, Some(HubNotice::NeedsPairing), 0, HubRequest::TryPairing))
                }
            },
            (HubPhase::Pairing { attempts }, HubEvent::PairingAttempt(accepted)) => {
                if accepted {
                    Some(mk_step(HubPhase::Paired, Some(HubNotice::PairingSuccess), 0, HubRequest::FetchSettings))
                } else if attempts < PAIRING_ATTEMPTS {
                    Some(mk_step(HubPhase::Pairing { attempts: (attempts + 1) as u32 }, Some(HubNotice::NeedsPairing),
                        PAIRING_RETRY_MS, HubRequest::TryPairing))
                } else {
                    Some(mk_step(HubPhase::Cooldown, Some(HubNotice::PairingTimeout), PAIRING_COOLDOWN_MS,
                        HubRequest::ProbeAvailability))
                }
            },
            (HubPhase::Paired, HubEvent::SettingsFetched) =>
                Some(mk_step(HubPhase::Enumerating, None, 0, HubRequest::EnumerateLights)),
            (HubPhase::Enumerating, HubEvent::EnumerationFailed) =>
                Some(mk_step(HubPhase::Enumerating, None, PROBE_INTERVAL_MS, HubRequest::EnumerateLights)),
            (HubPhase::Enumerating, HubEvent::LightsEnumerated) | (HubPhase::SteadyState, HubEvent::Woke) =>
                Some(mk_step(HubPhase::SteadyState, None, PROBE_INTERVAL_MS, HubRequest::Idle)),
            _ => None,
        }
    }
}

/// The steps taken on a sequence of events from phase `p`, up to the first
/// event that the current phase does not await.
pub open spec fn hub_run(p: HubPhase, es: Seq<HubEvent>) -> Seq<HubStep>
    decreases es.len(),
{
    if es.len() == 0 {
        Seq::empty()
    } else {
        match hub_next(p, es[0]) {
            Some(s) => seq![s] + hub_run(s.phase, es.drop_first()),
            None => Seq::empty(),
        }
    }
}

/// The first step of a hub: probe its availability at once.
pub fn hub_start() -> (r: HubStep)
    ensures
        r == mk_step(HubPhase::Offline, None, 0, HubRequest::ProbeAvailability),
{
    HubStep { phase: HubPhase::Offline, notice: None, delay_ms: 0, request: HubRequest::ProbeAvailability }
}

impl HubPhase {
    pub open spec fn wf(self) -> bool {
        phase_wf(self)
    }

    /// The transition of the hub lifecycle on event `e`.
    pub fn step(self, e: HubEvent) -> (r: Option<HubStep>)
        requires
            self.wf(),
        ensures
            r == hub_next(self, e),
            r matches Some(s) ==> s.phase.wf(),
    {
        if self == HubPhase::Stopped || e == HubEvent::Stop {
            return Some(HubStep { phase: HubPhase::Stopped, notice: None, delay_ms: 0, request: HubRequest::Halt });
        }
        match (self, e) {
            (HubPhase::Offline, HubEvent::Availability(up)) | (HubPhase::Cooldown, HubEvent::Availability(up)) => {
                if up {
                    Some(HubStep { phase: HubPhase::Available, notice: None, delay_ms: 0, request: HubRequest::CheckPairing })
                } else {
                    Some(HubStep { phase: HubPhase::Offline, notice: None, delay_ms: PROBE_INTERVAL_MS,
                        request: HubRequest::ProbeAvailability })
                }
            },
            (HubPhase::Available, HubEvent::PairingStatus(paired)) => {
                if paired {
                    Some(HubStep { phase: HubPhase::Paired, notice: None, delay_ms: 0, request: HubRequest::FetchSettings })
                } else {
                    Some(HubStep { phase: HubPhase::Pairing { attempts: 1 }, notice: Some(HubNotice::NeedsPairing),
                        delay_ms: 0, request: HubRequest::TryPairing })
                }
            },
            (HubPhase::Pairing { attempts }, HubEvent::PairingAttempt(accepted)) => {
                if accepted {
                    Some(HubStep { phase: HubPhase::Paired, notice: Some(HubNotice::PairingSuccess), delay_ms: 0,
                        request: HubRequest::FetchSettings })
                } else if attempts < PAIRING_ATTEMPTS {
                    Some(HubStep { phase: HubPhase::Pairing { attempts: attempts + 1 },
                        notice: Some(HubNotice::NeedsPairing), delay_ms: PAIRING_RETRY_MS, request: HubRequest::TryPairing })
                } else {
                    Some(HubStep { phase: HubPhase::Cooldown, notice: Some(HubNotice::PairingTimeout),
                        delay_ms: PAIRING_COOLDOWN_MS, request: HubRequest::ProbeAvailability })
                }
            },
            (HubPhase::Paired, HubEvent::SettingsFetched) =>
                Some(HubStep { phase: HubPhase::Enumerating, notice: None, delay_ms: 0,
                    request: HubRequest::EnumerateLights }),
            (HubPhase::Enumerating, HubEvent::EnumerationFailed) =>
                Some(HubStep { phase: HubPhase::Enumerating, notice: None, delay_ms: PROBE_INTERVAL_MS,
                    request: HubRequest::EnumerateLights }),
            (HubPhase::Enumerating, HubEvent::LightsEnumerated) | (HubPhase::SteadyState, HubEvent::Woke) =>
                Some(HubStep { phase: HubPhase::SteadyState, notice: None, delay_ms: PROBE_INTERVAL_MS,
                    request: HubRequest::Idle }),
            _ => None,
        }
    }
}

pub open spec fn rejections(n: nat) -> Seq<HubEvent> {
    Seq::new(n, |i: int| HubEvent::PairingAttempt(false))
}

proof fn lemma_rejected_from(a: u32)
    requires
        1 <= a <= PAIRING_ATTEMPTS,
    ensures
        ({
            let t = hub_run(HubPhase::Pairing { attempts: a }, rejections((PAIRING_ATTEMPTS - a + 1) as nat));
            &&& t.len() == PAIRING_ATTEMPTS - a + 1
            &&& forall|j: int| 0 <= j < PAIRING_ATTEMPTS - a ==> t[j] == mk_step(
                HubPhase::Pairing { attempts: (a + j + 1) as u32 }, Some(HubNotice::NeedsPairing), PAIRING_RETRY_MS,
                HubRequest::TryPairing)
            &&& t[PAIRING_ATTEMPTS - a] == mk_step(HubPhase::Cooldown, Some(HubNotice::PairingTimeout),
                PAIRING_COOLDOWN_MS, HubRequest::ProbeAvailability)
        }),
    decreases PAIRING_ATTEMPTS - a,
{
    let es = rejections((PAIRING_ATTEMPTS - a + 1) as nat);
    assert(es[0] == HubEvent::PairingAttempt(false));
    let t = hub_run(HubPhase::Pairing { attempts: a }, es);
    if a < PAIRING_ATTEMPTS {
        lemma_rejected_from((a + 1) as u32);
        assert(es.drop_first() =~= rejections((PAIRING_ATTEMPTS - a) as nat));
        let first = mk_step(HubPhase::Pairing { attempts: (a + 1) as u32 }, Some(HubNotice::NeedsPairing),
            PAIRING_RETRY_MS, HubRequest::TryPairing);
        let rest = hub_run(HubPhase::Pairing { attempts: (a + 1) as u32 }, es.drop_first());
        assert(t == seq![first] + rest);
        assert forall|j: int| 0 <= j < PAIRING_ATTEMPTS - a implies t[j] == mk_step(
            HubPhase::Pairing { attempts: (a + j + 1) as u32 }, Some(HubNotice::NeedsPairing), PAIRING_RETRY_MS,
            HubRequest::TryPairing) by {
            if j > 0 {
                assert(t[j] == rest[j - 1]);
            }
        }
        assert(t[PAIRING_ATTEMPTS - a] == rest[PAIRING_ATTEMPTS - a - 1]);
    } else {
        assert(es.drop_first() =~= Seq::<HubEvent>::empty());
        assert(hub_run(HubPhase::Cooldown, es.drop_first()) == Seq::<HubStep>::empty());
        assert(t =~= seq![mk_step(HubPhase::Cooldown, Some(HubNotice::PairingTimeout),
            PAIRING_COOLDOWN_MS, HubRequest::ProbeAvailability)]);
    }
}

/// A hub whose pairing endpoint rejects every attempt is asked to pair
/// exactly `PAIRING_ATTEMPTS` times, one second apart after the first, each
/// time with a "needs pairing" notice; then it cools down with exactly one
/// "pairing timeout" notice, and no notice of success.
pub proof fn lemma_pairing_always_rejected()
    ensures
        ({
            let t = hub_run(HubPhase::Available,
                seq![HubEvent::PairingStatus(false)] + rejections(PAIRING_ATTEMPTS as nat));
            &&& t.len() == PAIRING_ATTEMPTS + 1
            &&& t[0] == mk_step(HubPhase::Pairing { attempts: 1 }, Some(HubNotice::NeedsPairing), 0, HubRequest::TryPairing)
            &&& forall|j: int| 1 <= j < PAIRING_ATTEMPTS ==> t[j] == mk_step(
                HubPhase::Pairing { attempts: (j + 1) as u32 }, Some(HubNotice::NeedsPairing), PAIRING_RETRY_MS,
                HubRequest::TryPairing)
            &&& t[PAIRING_ATTEMPTS as int] == mk_step(HubPhase::Cooldown, Some(HubNotice::PairingTimeout),
                PAIRING_COOLDOWN_MS, HubRequest::ProbeAvailability)
            &&& t.filter(|s: HubStep| s.request == HubRequest::TryPairing).len() == PAIRING_ATTEMPTS
            &&& t.filter(|s: HubStep| s.notice == Some(HubNotice::PairingTimeout)).len() == 1
            &&& t.filter(|s: HubStep| s.notice == Some(HubNotice::PairingSuccess)).len() == 0
        }),
{
    let es = seq![HubEvent::PairingStatus(false)] + rejections(PAIRING_ATTEMPTS as nat);
    assert(es[0] == HubEvent::PairingStatus(false));
    assert(es.drop_first() =~= rejections(PAIRING_ATTEMPTS as nat));
    lemma_rejected_from(1);
    let t = hub_run(HubPhase::Available, es);
    let rest = hub_run(HubPhase::Pairing { attempts: 1 }, rejections(PAIRING_ATTEMPTS as nat));
    assert(t == seq![t[0]] + rest);
    let tries = |s: HubStep| s.request == HubRequest::TryPairing;
    let timeouts = |s: HubStep| s.notice == Some(HubNotice::PairingTimeout);
    let wins = |s: HubStep| s.notice == Some(HubNotice::PairingSuccess);
    let last = PAIRING_ATTEMPTS as int;
    assert(t.subrange(0, last) + seq![t[last]] =~= t);
    lemma_filter_all(t.subrange(0, last), tries);
    lemma_filter_none(t.subrange(0, last), timeouts);
    lemma_filter_none(t.subrange(0, last), wins);
    lemma_filter_push(t.subrange(0, last), t[last], tries);
    lemma_filter_push(t.subrange(0, last), t[last], timeouts);
    lemma_filter_push(t.subrange(0, last), t[last], wins);
}

proof fn lemma_accepted_from(a: u32, m: u32)
    requires
        1 <= a <= m <= PAIRING_ATTEMPTS,
    ensures
        ({
            let t = hub_run(HubPhase::Pairing { attempts: a },
                rejections((m - a) as nat) + seq![HubEvent::PairingAttempt(true)]);
            &&& t.len() == m - a + 1
            &&& forall|j: int| 0 <= j < m - a ==> t[j] == mk_step(
                HubPhase::Pairing { attempts: (a + j + 1) as u32 }, Some(HubNotice::NeedsPairing), PAIRING_RETRY_MS,
                HubRequest::TryPairing)
            &&& t[m - a] == mk_step(HubPhase::Paired, Some(HubNotice::PairingSuccess), 0, HubRequest::FetchSettings)
        }),
    decreases m - a,
{
    let es = rejections((m - a) as nat) + seq![HubEvent::PairingAttempt(true)];
    let t = hub_run(HubPhase::Pairing { attempts: a }, es);
    if a < m {
        assert(es[0] == HubEvent::PairingAttempt(false));
        lemma_accepted_from((a + 1) as u32, m);
        assert(es.drop_first() =~= rejections((m - a - 1) as nat) + seq![HubEvent::PairingAttempt(true)]);
        let first = mk_step(HubPhase::Pairing { attempts: (a + 1) as u32 }, Some(HubNotice::NeedsPairing),
            PAIRING_RETRY_MS, HubRequest::TryPairing);
        let rest = hub_run(HubPhase::Pairing { attempts: (a + 1) as u32 }, es.drop_first());
        assert(t == seq![first] + rest);
        assert forall|j: int| 0 <= j < m - a implies t[j] == mk_step(
            HubPhase::Pairing { attempts: (a + j + 1) as u32 }, Some(HubNotice::NeedsPairing), PAIRING_RETRY_MS,
            HubRequest::TryPairing) by {
            if j > 0 {
                assert(t[j] == rest[j - 1]);
            }
        }
        assert(t[m - a] == rest[m - a - 1]);
    } else {
        assert(es[0] == HubEvent::PairingAttempt(true));
        assert(es.drop_first() =~= Seq::<HubEvent>::empty());
        assert(hub_run(HubPhase::Paired, es.drop_first()) == Seq::<HubStep>::empty());
        assert(t =~= seq![mk_step(HubPhase::Paired, Some(HubNotice::PairingSuccess), 0, HubRequest::FetchSettings)]);
    }
}

/// A hub whose pairing endpoint accepts the `m`-th attempt is asked to pair
/// exactly `m` times and becomes paired at once after that attempt, with
/// exactly one "pairing success" notice and no timeout; the next request is
/// the one for the bridge's settings.
pub proof fn lemma_pairing_accepted_on(m: u32)
    requires
        1 <= m <= PAIRING_ATTEMPTS,
    ensures
        ({
            let t = hub_run(HubPhase::Available,
                seq![HubEvent::PairingStatus(false)] + rejections((m - 1) as nat) + seq![HubEvent::PairingAttempt(true)]);
            &&& t.len() == m + 1
            &&& t[m as int] == mk_step(HubPhase::Paired, Some(HubNotice::PairingSuccess), 0, HubRequest::FetchSettings)
            &&& t.filter(|s: HubStep| s.request == HubRequest::TryPairing).len() == m
            &&& t.filter(|s: HubStep| s.notice == Some(HubNotice::PairingSuccess)).len() == 1
            &&& t.filter(|s: HubStep| s.notice == Some(HubNotice::PairingTimeout)).len() == 0
        }),
{
    let es = seq![HubEvent::PairingStatus(false)] + rejections((m - 1) as nat) + seq![HubEvent::PairingAttempt(true)];
    assert(es[0] == HubEvent::PairingStatus(false));
    assert(es.drop_first() =~= rejections((m - 1) as nat) + seq![HubEvent::PairingAttempt(true)]);
    lemma_accepted_from(1, m);
    let t = hub_run(HubPhase::Available, es);
    let rest = hub_run(HubPhase::Pairing { attempts: 1 }, es.drop_first());
    assert(t == seq![t[0]] + rest);
    assert forall|j: int| 0 <= j < m implies t[j].request == HubRequest::TryPairing && t[j].notice == Some(
        HubNotice::NeedsPairing) by {
        if j > 0 {
            assert(t[j] == rest[j - 1]);
        }
    }
    assert(t[m as int] == rest[m - 1]);
    let tries = |s: HubStep| s.request == HubRequest::TryPairing;
    let timeouts = |s: HubStep| s.notice == Some(HubNotice::PairingTimeout);
    let wins = |s: HubStep| s.notice == Some(HubNotice::PairingSuccess);
    let last = m as int;
    assert(t.subrange(0, last) + seq![t[last]] =~= t);
    lemma_filter_all(t.subrange(0, last), tries);
    lemma_filter_none(t.subrange(0, last), timeouts);
    lemma_filter_none(t.subrange(0, last), wins);
    lemma_filter_push(t.subrange(0, last), t[last], tries);
    lemma_filter_push(t.subrange(0, last), t[last], timeouts);
    lemma_filter_push(t.subrange(0, last), t[last], wins);
}

proof fn lemma_filter_push(s: Seq<HubStep>, x: HubStep, f: spec_fn(HubStep) -> bool)
    ensures
        (s + seq![x]).filter(f) == if f(x) { s.filter(f).push(x) } else { s.filter(f) },
{
    assert((s + seq![x]).drop_last() =~= s);
    reveal(Seq::filter);
}

proof fn lemma_filter_all(s: Seq<HubStep>, f: spec_fn(HubStep) -> bool)
    requires
        forall|i: int| 0 <= i < s.len() ==> f(s[i]),
    ensures
        s.filter(f).len() == s.len(),
    decreases s.len(),
{
    reveal(Seq::filter);
    if s.len() > 0 {
        lemma_filter_all(s.drop_last(), f);
    }
}

proof fn lemma_filter_none(s: Seq<HubStep>, f: spec_fn(HubStep) -> bool)
    requires
        forall|i: int| 0 <= i < s.len() ==> !f(s[i]),
    ensures
        s.filter(f).len() == 0,
    decreases s.len(),
{
    reveal(Seq::filter);
    if s.len() > 0 {
        lemma_filter_none(s.drop_last(), f);
    }
}

} // verus!
