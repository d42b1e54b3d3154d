//! Verified core of a LAN monitoring agent: device registry, classification,
//! packet parsing and notification text.
pub mod text;
pub mod net;
pub mod ipv6;
pub mod model;
pub mod table;
pub mod registry;
pub mod registry_laws;
pub mod notify;
pub mod classify;
pub mod packets;
pub mod interface;
pub mod neighbors;
pub mod context;
pub mod speedtest;
pub mod config;
pub mod channels;
pub mod agent;
pub mod api;
pub mod discovery;
pub mod mdns;
pub mod store;
pub mod ipparse;
pub mod ip_laws;
