//! Discovery records: what the multicast discovery stack reports, turned
//! into owned values, and the ownership check of the bridge simulator.
use vstd::prelude::*;
use crate::description::{keys_unique, lookup, pairs_view, parse_simple_xml, text_at, xml_events_of, flattened};
use crate::text::{contains, has_substring};

verus! {

/// The header fields of one discovery callback.
pub struct UpnpMsearchHeader {
    pub device_id: String,
    pub device_type: String,
    pub service_type: String,
    pub service_ver: String,
    pub location: String,
    pub os: String,
    pub date: String,
    pub ext: String,
    pub expires: i32,
    pub alive: bool,
}

/// A discovered device: its header, the flattened description document and
/// the document itself (both empty for a device that is leaving).
pub struct UpnpService {
    pub msearch: UpnpMsearchHeader,
    pub description: Vec<(String, String)>,
    pub description_data: String,
}

impl UpnpService {
    pub open spec fn wf(&self) -> bool {
        keys_unique(pairs_view(self.description@))
    }
}

/// The kinds of callback that the discovery stack makes.
#[derive(PartialEq, Eq, Structural, Clone, Copy, Debug)]
pub enum DiscoveryKind {
    SearchResult,
    AdvertisementAlive,
    AdvertisementByebye,
    SearchTimeout,
    Other,
}

pub open spec fn liveness_of(kind: DiscoveryKind) -> Option<bool> {
    match kind {
        DiscoveryKind::SearchResult | DiscoveryKind::AdvertisementAlive => Some(true),
        DiscoveryKind::AdvertisementByebye => Some(false),
        _ => None,
    }
}

/// Whether a callback of `kind` reports a device that is there (`Some(true)`),
/// one that is leaving (`Some(false)`), or no device at all (`None`).
pub fn event_liveness(kind: DiscoveryKind) -> (r: Option<bool>)
    ensures
        r == liveness_of(kind),
{
    match kind {
        DiscoveryKind::SearchResult | DiscoveryKind::AdvertisementAlive => Some(true),
        DiscoveryKind::AdvertisementByebye => Some(false),
        _ => None,
    }
}

/// The search target to send: the one asked for, or every device.
pub fn search_target(target: Option<String>) -> (r: String)
    ensures
        r@ == match target {
            Some(t) => t@,
            None => "ssdp:all"@,
        },
{
    match target {
        Some(t) => t,
        None => String::from_str("ssdp:all"),
    }
}

/// The record of a device that is leaving: no description is fetched.
pub fn departed_service(msearch: UpnpMsearchHeader) -> (r: UpnpService)
    ensures
        r.wf(),
        r.msearch == msearch,
        r.description@.len() == 0,
        r.description_data@ == Seq::<char>::empty(),
{
    let r = UpnpService { msearch, description: Vec::new(), description_data: String::new() };
    assert(pairs_view(r.description@) =~= Seq::empty());
    r
}

/// The record of a device that is there, with the description document
/// fetched from its location. A document that does not parse leaves the
/// description empty; the record is still made.
pub fn described_service(msearch: UpnpMsearchHeader, body: String) -> (r: UpnpService)
    ensures
        r.wf(),
        r.msearch == msearch,
        r.description_data@ == body@,
        match xml_events_of(body@) {
            Some(ts) => match flattened(ts) {
                Ok(m) => pairs_view(r.description@) == m,
                Err(_) => r.description@.len() == 0,
            },
            None => r.description@.len() == 0,
        },
{
    let description = match parse_simple_xml(body.as_str()) {
        Ok(pairs) => pairs,
        Err(_) => Vec::new(),
    };
    proof {
        if pairs_view(description@).len() == 0 {
            assert(pairs_view(description@) =~= Seq::empty());
        }
        match xml_events_of(body@) {
            Some(ts) => {
                if flattened(ts) is Ok {
                    crate::description::lemma_flattened_keys_unique(ts);
                }
            },
            None => {},
        }
    }
    UpnpService { msearch, description, description_data: body }
}

/// Whether `service` is the Hue bridge simulator: its id has the simulator's
/// prefix and its description names the simulator's model and number.
pub fn owns_hue_simulator(service: &UpnpService) -> (r: bool)
    requires
        service.wf(),
    ensures
        r == owns_spec(service),
{
    if !contains(service.msearch.device_id.as_str(), "uuid:2f402f80-da50-11e1-9b23-") {
        return false;
    }
    let model_ok = match lookup(&service.description, "/root/device/modelName") {
        Some(t) => *t == String::from_str("Philips hue bridge 2012"),
        None => false,
    };
    if !model_ok {
        return false;
    }
    match lookup(&service.description, "/root/device/modelNumber") {
        Some(t) => *t == String::from_str("929000226503"),
        None => false,
    }
}

/// The lowercase form of a text.
pub uninterp spec fn lower_of(s: Seq<char>) -> Seq<char>;

/// Relies on str::to_lowercase: the lowercase form, which depends on the
/// characters alone.
#[verifier::external_body]
fn lowercase(s: &str) -> (r: String)
    ensures
        r@ == lower_of(s@),
{
    s.to_lowercase()
}

/// The handler that owns the bridge simulator. The first time it claims the
/// simulator it asks for one more search, for the simulator's device type.
pub struct DummyAdapter {
    rediscover: bool,
}

/// The search target of a rediscovery request: the lowercase device type
/// named in the description, or every device where it names none.
pub open spec fn rediscovery_target(service: &UpnpService, t: Option<String>) -> bool {
    match text_at(pairs_view(service.description@), "/root/device/deviceType"@) {
        Some(d) => t is Some && t->Some_0@ == lower_of(d),
        None => t is None,
    }
}

pub open spec fn owns_spec(service: &UpnpService) -> bool {
    has_substring(service.msearch.device_id@, "uuid:2f402f80-da50-11e1-9b23-"@)
        && text_at(pairs_view(service.description@), "/root/device/modelName"@) == Some("Philips hue bridge 2012"@)
        && text_at(pairs_view(service.description@), "/root/device/modelNumber"@) == Some("929000226503"@)
}

impl DummyAdapter {
    pub closed spec fn will_rediscover(&self) -> bool {
        self.rediscover
    }

    pub fn new() -> (r: DummyAdapter)
        ensures
            r.will_rediscover(),
    {
        DummyAdapter { rediscover: true }
    }

    /// Whether this handler claims `service`, and, the first time it does,
    /// the target of the search to request after a pause.
    pub fn upnp_discover(&mut self, service: &UpnpService) -> (r: (bool, Option<Option<String>>))
        requires
            service.wf(),
        ensures
            r.0 == owns_spec(service),
            r.1 is Some <==> (r.0 && old(self).will_rediscover()),
            r.1 matches Some(t) ==> rediscovery_target(service, t),
            final(self).will_rediscover() == (old(self).will_rediscover() && !r.0),
    {
        let owns = owns_hue_simulator(service);
        if !owns || !self.rediscover {
            return (owns, None);
        }
        self.rediscover = false;
        let target = match lookup(&service.description, "/root/device/deviceType") {
            Some(d) => Some(lowercase(d.as_str())),
            None => None,
        };
        (owns, Some(target))
    }
}

} // verus!
