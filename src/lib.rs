//! Device discovery and lifecycle core of a home-automation gateway: the
//! flattening of device descriptions, the dispatch of discovered devices to
//! handlers, the lifecycle of Hue bridges and the protocol used to talk to
//! them.

pub mod description;
pub mod dispatch;
pub mod events;
pub mod hub;
pub mod hub_api;
pub mod lifecycle;
pub mod registry;
pub mod text;
pub mod upnp;
pub mod webpush;
