//! dnsix: the verified core of an IPv6-only DNS64 forwarder.

pub mod acl;
pub mod acl_laws;
pub mod blocklist;
pub mod blocklist_laws;
pub mod blocklist_rule_laws;
pub mod calendar;
pub mod calendar_laws;
pub mod config;
pub mod config_laws;
pub mod dns;
pub mod dns_laws;
pub mod exposition;
pub mod fetch;
pub mod fetch_laws;
pub mod handler;
pub mod handler_laws;
pub mod message_laws;
pub mod metrics;
pub mod metrics_laws;
pub mod net;
pub mod net6_laws;
pub mod net_laws;
pub mod querylog;
pub mod querylog_laws;
pub mod synth;
pub mod text;
pub mod text_laws;
pub mod upstream;
pub mod web;
pub mod web_laws;
