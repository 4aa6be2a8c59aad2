//! Verified core of a network security monitor: packet and DNS decoding,
//! detection rules, alert bookkeeping and domain reputation.
pub mod text;
pub mod ipaddr;
pub mod clock;
pub mod models;
pub mod dns;
pub mod tcp;
pub mod udp;
pub mod parser;
pub mod alerts;
pub mod rules;
pub mod detector;
pub mod reputation;
pub mod dns_monitor;
pub mod plugins;
pub mod records;
pub mod pipeline;
pub mod desktop;
pub mod process;
pub mod console;
pub mod activity;
pub mod capture;
