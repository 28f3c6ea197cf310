//! Hop-routing engine of a mix-network relay node.
//!
//! The crate models onion source routes ([`route::Route`]), the cores
//! package forms that travel through a node
//! ([`live_cores_package::LiveCoresPackage`] and its incipient and expired
//! projections), the deterministic byte codec that puts them on the wire,
//! the consuming and routing services that drive one hop, and the
//! discriminator pipeline that de-multiplexes obfuscated inbound byte
//! streams.

pub mod bytes;
pub mod codec;
pub mod consuming_service;
pub mod cryptde;
pub mod discriminator;
pub mod dispatcher;
pub mod framer;
pub mod hop;
pub mod hopper;
pub mod live_cores_package;
pub mod masquerader;
pub mod route;
pub mod routing_service;
pub mod views;
