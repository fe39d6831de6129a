//! The control events that flow to the single dispatch loop.
use vstd::prelude::*;
use crate::dispatch::{service_started, service_stopped, MissingService};
use crate::registry::Registry;
use crate::upnp::{search_target, UpnpService};

verus! {

pub open spec fn option_view(t: Option<String>) -> Option<Seq<char>> {
    match t {
        Some(s) => Some(s@),
        None => None,
    }
}

/// The debug form of an optional text.
pub uninterp spec fn debug_text_of(t: Option<Seq<char>>) -> Seq<char>;

/// Relies on the `Debug` impls of `Option` and `String`: the debug form
/// (`None`, or `Some("...")` with escapes), a function of the value alone.
#[verifier::external_body]
fn debug_text(t: &Option<String>) -> (r: String)
    ensures
        r@ == debug_text_of(option_view(*t)),
{
    format!("{:?}", t)
}

pub enum EventData {
    AdapterStart { name: String },
    ServiceStart { id: String },
    ServiceStop { id: String },
    UpnpServiceDiscovered { service: UpnpService },
    UpnpSearch { target: Option<String> },
}

impl EventData {
    pub open spec fn description_spec(&self) -> Seq<char> {
        match self {
            EventData::AdapterStart { name } => name@,
            EventData::ServiceStart { id } => id@,
            EventData::ServiceStop { id } => id@,
            EventData::UpnpServiceDiscovered { service } => "upnp service discovered "@
                + service.msearch.device_id@,
            EventData::UpnpSearch { target } => "upnp search "@ + debug_text_of(option_view(*target)),
        }
    }

    /// A one-line text for the log.
    pub fn description(&self) -> (r: String)
        ensures
            r@ == self.description_spec(),
    {
        match self {
            EventData::AdapterStart { name } => name.clone(),
            EventData::ServiceStart { id } => id.clone(),
            EventData::ServiceStop { id } => id.clone(),
            EventData::UpnpServiceDiscovered { service } => String::from_str("upnp service discovered ").concat(
                service.msearch.device_id.as_str(),
            ),
            EventData::UpnpSearch { target } => String::from_str("upnp search ").concat(debug_text(target).as_str()),
        }
    }
}

/// What the dispatch loop does about one event.
pub enum Handling {
    /// Offer the discovered device to the handlers (see `next_offer`).
    Offer(UpnpService),
    /// Send a discovery search for this target.
    Search(String),
    /// The service registry was updated or checked.
    Done,
    /// A service event named an id the registry does not hold.
    InternalError(MissingService),
    /// Nothing to do beyond logging.
    Logged,
}

/// Handles one event against the service registry.
pub fn handle_event<T>(services: &mut Registry<T>, event: EventData) -> (r: Handling)
    requires
        old(services).wf(),
    ensures
        final(services).wf(),
        match event {
            EventData::ServiceStart { id } => *final(services) == *old(services) && match r {
                Handling::Done => old(services).has(id@),
                Handling::InternalError(e) => !old(services).has(id@) && e.id@ == id@,
                _ => false,
            },
            EventData::ServiceStop { id } => !final(services).has(id@)
                && (forall|k: Seq<char>| k != id@ ==> final(services).get(k) == old(services).get(k))
                && match r {
                Handling::Done => old(services).has(id@),
                Handling::InternalError(e) => !old(services).has(id@) && e.id@ == id@,
                _ => false,
            },
            EventData::UpnpServiceDiscovered { service } => *final(services) == *old(services)
                && r == Handling::Offer(service),
            EventData::UpnpSearch { target } => *final(services) == *old(services) && match r {
                Handling::Search(t) => t@ == match target {
                    Some(x) => x@,
                    None => "ssdp:all"@,
                },
                _ => false,
            },
            EventData::AdapterStart { .. } => *final(services) == *old(services) && r is Logged,
        },
{
    match event {
        EventData::ServiceStart { id } => match service_started(services, id.as_str()) {
            Ok(()) => Handling::Done,
            Err(e) => Handling::InternalError(e),
        },
        EventData::ServiceStop { id } => match service_stopped(services, id.as_str()) {
            Ok(_) => Handling::Done,
            Err(e) => Handling::InternalError(e),
        },
        EventData::UpnpServiceDiscovered { service } => Handling::Offer(service),
        EventData::UpnpSearch { target } => Handling::Search(search_target(target)),
        EventData::AdapterStart { .. } => Handling::Logged,
    }
}

} // verus!
