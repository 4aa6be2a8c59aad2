//! The rows the storage layer keeps.
use vstd::prelude::*;

verus! {

/// A connection as stored.
#[derive(Clone, Debug)]
pub struct ConnectionRecord {
    pub id: String,
    pub process_name: Option<String>,
    pub process_id: Option<u32>,
    pub local_ip: String,
    pub local_port: u16,
    pub remote_ip: String,
    pub remote_port: u16,
    pub protocol: String,
    pub bytes_sent: u64,
    pub bytes_received: u64,
    pub created_at: String,
    pub closed_at: Option<String>,
}

/// An alert as stored.
#[derive(Clone, Debug)]
pub struct AlertRecord {
    pub id: String,
    pub severity: String,
    pub title: String,
    pub description: String,
    pub source_ip: Option<String>,
    pub destination_ip: Option<String>,
    pub port: Option<u16>,
    pub protocol: Option<String>,
    pub process_name: Option<String>,
    pub created_at: String,
    pub acknowledged: bool,
}

/// A DNS query as stored.
#[derive(Clone, Debug)]
pub struct DnsRecord {
    pub id: String,
    pub domain: String,
    pub query_type: u16,
    pub response_ips: Vec<String>,
    pub response_code: u16,
    pub process_id: Option<u32>,
    pub process_name: Option<String>,
    pub created_at: String,
}

} // verus!
