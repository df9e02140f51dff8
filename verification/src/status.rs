use vstd::prelude::*;
use crate::decimal::{spec_dec, u64_to_string};

verus! {

/// Snapshot of the supervised server's lifecycle.
#[derive(Debug)]
pub struct ServerStatus {
    pub running: bool,
    pub port: u16,
    pub pid: Option<u32>,
    pub health_url: String,
    pub external: bool,
}

/// A network address report: the machine's reachable IP and the server port.
#[derive(Debug)]
pub struct NetworkInfo {
    pub ip: String,
    pub port: u16,
}

/// The mathematical value of a `ServerStatus`.
pub struct StatusView {
    pub running: bool,
    pub port: u16,
    pub pid: Option<u32>,
    pub health_url: Seq<char>,
    pub external: bool,
}

impl View for ServerStatus {
    type V = StatusView;

    open spec fn view(&self) -> StatusView {
        StatusView {
            running: self.running,
            port: self.port,
            pid: self.pid,
            health_url: self.health_url@,
            external: self.external,
        }
    }
}

/// The mathematical value of a `NetworkInfo`.
pub struct NetworkInfoView {
    pub ip: Seq<char>,
    pub port: u16,
}

impl View for NetworkInfo {
    type V = NetworkInfoView;

    open spec fn view(&self) -> NetworkInfoView {
        NetworkInfoView { ip: self.ip@, port: self.port }
    }
}

/// The health endpoint for a port: `http://localhost:{port}/health`.
pub open spec fn spec_health_url(port: nat) -> Seq<char> {
    "http://localhost:"@ + spec_dec(port) + "/health"@
}

pub fn health_url_for(port: u16) -> (s: String)
    ensures
        s@ == spec_health_url(port as nat),
{
    let mut s = String::from_str("http://localhost:");
    let digits = u64_to_string(port as u64);
    s.append(digits.as_str());
    s.append("/health");
    s
}

impl ServerStatus {
    /// The status invariant: an external server is never held by pid, a
    /// stopped server has neither pid nor external flag, and the health URL
    /// always matches the port.
    pub open spec fn wf(self) -> bool {
        &&& (self.external ==> self.pid is None)
        &&& (!self.running ==> self.pid is None && !self.external)
        &&& self.health_url@ == spec_health_url(self.port as nat)
    }

    /// The idle status shape for a port: not running, no pid, not external.
    pub open spec fn is_idle_for(self, port: nat) -> bool {
        &&& self.running == false
        &&& self.port == port
        &&& self.pid is None
        &&& self.external == false
        &&& self.health_url@ == spec_health_url(port)
    }

    pub fn idle(port: u16) -> (s: ServerStatus)
        ensures
            s.is_idle_for(port as nat),
            s.wf(),
    {
        ServerStatus {
            running: false,
            port,
            pid: None,
            health_url: health_url_for(port),
            external: false,
        }
    }

    /// A field-for-field copy.
    pub fn snapshot(&self) -> (r: ServerStatus)
        ensures
            r == *self,
    {
        ServerStatus {
            running: self.running,
            port: self.port,
            pid: self.pid,
            health_url: self.health_url.clone(),
            external: self.external,
        }
    }
}

} // verus!
