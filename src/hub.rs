//! A bridge, its lights, and the set of known bridges.
use vstd::prelude::*;
use crate::description::strings_view;
use crate::hub_api::{HttpRequest, HttpMethod, HubApi, light_state_body};
use crate::lifecycle::{HubEvent, HubPhase, HubStep, hub_next};
use crate::registry::Registry;

verus! {

/// One light of a bridge.
pub struct Light {
    pub id: String,
    pub api: HubApi,
}

impl Light {
    pub fn new(api: HubApi, light_id: &str) -> (r: Light)
        ensures
            r.id@ == light_id@,
            r.api == api,
    {
        Light { id: String::from_str(light_id), api }
    }

    /// The request for this light's status.
    pub fn status_request(&self) -> (r: HttpRequest)
        ensures
            r.method == HttpMethod::Get,
            r.url@ == self.api.url_of("lights/"@ + self.id@),
            r.body@ == Seq::<char>::empty(),
    {
        self.api.get_light_status(self.id.as_str())
    }

    /// Whether a light of this type is taken into service; others are left
    /// alone.
    pub fn is_supported(lighttype: &str) -> (r: bool)
        ensures
            r == (lighttype@ == "Extended color light"@),
    {
        let t = String::from_str(lighttype);
        t == String::from_str("Extended color light")
    }
}

/// A bridge: identity, protocol client, lifecycle phase and lights.
pub struct Hub {
    id: String,
    ip: String,
    api: HubApi,
    lights: Registry<Light>,
    phase: HubPhase,
}

impl Hub {
    pub closed spec fn id_view(&self) -> Seq<char> {
        self.id@
    }

    pub closed spec fn ip_view(&self) -> Seq<char> {
        self.ip@
    }

    pub closed spec fn api_spec(&self) -> HubApi {
        self.api
    }

    pub closed spec fn lights_spec(&self) -> Registry<Light> {
        self.lights
    }

    pub closed spec fn phase_spec(&self) -> HubPhase {
        self.phase
    }

    pub open spec fn wf(&self) -> bool {
        self.lights_spec().wf() && self.phase_spec().wf()
    }

    pub fn new(id: &str, ip: &str, token: &str) -> (r: Hub)
        ensures
            r.wf(),
            r.id_view() == id@,
            r.ip_view() == ip@,
            r.api_spec().id@ == id@,
            r.api_spec().ip@ == ip@,
            r.api_spec().token@ == token@,
            r.phase_spec() == HubPhase::Offline,
            r.lights_spec().len_spec() == 0,
    {
        Hub {
            id: String::from_str(id),
            ip: String::from_str(ip),
            api: HubApi::new(id, ip, token),
            lights: Registry::new(),
            phase: HubPhase::Offline,
        }
    }

    pub fn id(&self) -> (r: &String)
        ensures
            r@ == self.id_view(),
    {
        &self.id
    }

    pub fn ip(&self) -> (r: &String)
        ensures
            r@ == self.ip_view(),
    {
        &self.ip
    }

    pub fn api(&self) -> (r: &HubApi)
        ensures
            *r == self.api_spec(),
    {
        &self.api
    }

    pub fn phase(&self) -> (r: HubPhase)
        ensures
            r == self.phase_spec(),
    {
        self.phase
    }

    pub fn light_count(&self) -> (r: usize)
        ensures
            r == self.lights_spec().len_spec(),
    {
        self.lights.len()
    }

    pub fn has_light(&self, id: &str) -> (r: bool)
        requires
            self.wf(),
        ensures
            r == self.lights_spec().has(id@),
    {
        self.lights.contains(id)
    }

    /// Feeds `e` to the lifecycle; on a step, the hub enters its phase.
    pub fn advance(&mut self, e: HubEvent) -> (r: Option<HubStep>)
        requires
            old(self).wf(),
        ensures
            final(self).wf(),
            r == hub_next(old(self).phase_spec(), e),
            final(self).phase_spec() == match r {
                Some(s) => s.phase,
                None => old(self).phase_spec(),
            },
            final(self).lights_spec() == old(self).lights_spec(),
            final(self).api_spec() == old(self).api_spec(),
    {
        let r = self.phase.step(e);
        match r {
            Some(s) => {
                self.phase = s.phase;
            },
            None => {},
        }
        r
    }

    /// Adds a light for each of `ids`, which is only done while the lights
    /// of a paired hub are being enumerated. Afterwards the hub has a light
    /// under exactly the ids it had and those of `ids`.
    pub fn add_lights(&mut self, ids: &Vec<String>) -> (r: bool)
        requires
            old(self).wf(),
        ensures
            final(self).wf(),
            r == (old(self).phase_spec() == HubPhase::Enumerating),
            final(self).phase_spec() == old(self).phase_spec(),
            final(self).api_spec() == old(self).api_spec(),
            r ==> forall|k: Seq<char>| #[trigger] final(self).lights_spec().has(k) <==> (old(self).lights_spec().has(k)
                || strings_view(ids@).contains(k)),
            !r ==> final(self).lights_spec() == old(self).lights_spec(),
    {
        if self.phase != HubPhase::Enumerating {
            return false;
        }
        let ghost ids_v = strings_view(ids@);
        let mut i: usize = 0;
        while i < ids.len()
            invariant
                self.wf(),
                ids_v == strings_view(ids@),
                i <= ids@.len(),
                self.phase == old(self).phase,
                self.api == old(self).api,
                forall|k: Seq<char>| #[trigger] self.lights.has(k) <==> (old(self).lights.has(k)
                    || ids_v.take(i as int).contains(k)),
            decreases ids@.len() - i,
        {
            let ghost before = self.lights;
            let api = HubApi::new(self.api.id.as_str(), self.api.ip.as_str(), self.api.token.as_str());
            let light = Light::new(api, ids[i].as_str());
            let _ = self.lights.insert(ids[i].clone(), light);
            proof {
                let k0 = ids_v[i as int];
                assert(ids_v.take(i + 1) =~= ids_v.take(i as int).push(k0));
                assert forall|k: Seq<char>| #[trigger] self.lights.has(k) <==> (old(self).lights.has(k)
                    || ids_v.take(i + 1).contains(k)) by {
                    if k == k0 {
                        assert(ids_v.take(i + 1)[i as int] == k0);
                        assert(self.lights.get(k) is Some);
                    } else {
                        assert(self.lights.get(k) == before.get(k));
                        assert(self.lights.has(k) == before.has(k));
                        let t1 = ids_v.take(i + 1);
                        let t0 = ids_v.take(i as int);
                        if t1.contains(k) {
                            let c = choose|c: int| 0 <= c < t1.len() && t1[c] == k;
                            assert(c < i);
                            assert(t0[c] == k);
                        }
                        if t0.contains(k) {
                            let c = choose|c: int| 0 <= c < t0.len() && t0[c] == k;
                            assert(t1[c] == k);
                        }
                    }
                }
            }
            i = i + 1;
        }
        proof {
            assert(ids_v.take(ids@.len() as int) =~= ids_v);
        }
        true
    }

    /// Stops the hub: its lifecycle ends and its lights are handed back, in
    /// the order they were added, for the caller to release.
    pub fn stop(&mut self) -> (r: Vec<(String, Light)>)
        requires
            old(self).wf(),
        ensures
            final(self).wf(),
            final(self).phase_spec() == HubPhase::Stopped,
            final(self).lights_spec().len_spec() == 0,
            r@.map_values(|p: (String, Light)| p.0@) == old(self).lights_spec().ids(),
    {
        self.phase = HubPhase::Stopped;
        self.lights.drain()
    }

    /// The request for the status of light `id` of this hub.
    pub fn get_light_status(&self, id: &str) -> (r: HttpRequest)
        ensures
            r.method == HttpMethod::Get,
            r.url@ == self.api_spec().url_of("lights/"@ + id@),
            r.body@ == Seq::<char>::empty(),
    {
        self.api.get_light_status(id)
    }

    /// The command that sets colour and power of light `light_id`.
    pub fn set_light_color(&self, light_id: &str, hue: u32, sat: u32, val: u32, on: bool) -> (r: HttpRequest)
        ensures
            r.method == HttpMethod::Put,
            r.url@ == self.api_spec().url_of("lights/"@ + light_id@ + "/state"@),
            r.body@ == light_state_body(hue, sat, val, on),
    {
        self.api.set_light_color(light_id, hue, sat, val, on)
    }
}

/// A bridge reported by the directory service.
pub struct NupnpEntry {
    pub id: String,
    pub internalipaddress: String,
}

/// The bridges known so far, by id.
pub struct Discovery {
    hubs: Registry<Hub>,
}

impl Discovery {
    pub closed spec fn hubs_spec(&self) -> Registry<Hub> {
        self.hubs
    }

    pub open spec fn wf(&self) -> bool {
        self.hubs_spec().wf()
    }

    pub fn new() -> (r: Discovery)
        ensures
            r.wf(),
            r.hubs_spec().len_spec() == 0,
    {
        Discovery { hubs: Registry::new() }
    }

    pub fn hub_count(&self) -> (r: usize)
        ensures
            r == self.hubs_spec().len_spec(),
    {
        self.hubs.len()
    }

    pub fn knows(&self, id: &str) -> (r: bool)
        requires
            self.wf(),
        ensures
            r == self.hubs_spec().has(id@),
    {
        self.hubs.contains(id)
    }

    /// Records `hub` under its id. A hub already known under that id is
    /// replaced and handed back as it is, still running.
    pub fn add_hub(&mut self, hub: Hub) -> (r: Option<Hub>)
        requires
            old(self).wf(),
        ensures
            final(self).wf(),
            Registry::inserted(old(self).hubs_spec(), final(self).hubs_spec(), hub.id_view(), hub, r),
    {
        let id = hub.id.clone();
        self.hubs.insert(id, hub)
    }
}

} // verus!
