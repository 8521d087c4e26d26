//! The application's configuration: the relay's address and token, and
//! the tunnels the user has set up.
use vstd::prelude::*;

verus! {

/// How a tunnel reaches the local server.
#[derive(Debug, Clone, Copy, PartialEq, Eq, Structural)]
pub enum TunnelType {
    /// A local port on 127.0.0.1.
    Port,
    /// A local address served under a virtual host name.
    VirtualDomain,
}

/// One tunnel: its id (also its public subdomain), display name, local
/// address, and the `Host` header to send for virtual domains.
#[derive(Debug)]
pub struct TunnelConfig {
    pub id: String,
    pub name: String,
    pub local_addr: String,
    pub host_header: Option<String>,
    pub tunnel_type: TunnelType,
}

/// A copy of an optional string.
pub fn copy_opt_string(s: &Option<String>) -> (r: Option<String>)
    ensures
        r == *s,
{
    match s {
        Some(x) => Some(x.clone()),
        None => None,
    }
}

impl Clone for TunnelConfig {
    fn clone(&self) -> (r: Self)
        ensures
            r == *self,
    {
        TunnelConfig {
            id: self.id.clone(),
            name: self.name.clone(),
            local_addr: self.local_addr.clone(),
            host_header: copy_opt_string(&self.host_header),
            tunnel_type: self.tunnel_type,
        }
    }
}

/// How many request-log lines are kept when the configuration names no
/// limit.
pub const DEFAULT_MAX_LOGS: u32 = 500;

/// The whole configuration as it is stored on disk.
#[derive(Debug)]
pub struct AppConfig {
    pub worker_url: String,
    pub auth_token: String,
    pub tunnels: Vec<TunnelConfig>,
    /// The most request-log lines (and cached request details) kept in
    /// memory.
    pub max_logs: u32,
}

/// A copy of a list of tunnels.
pub fn copy_tunnels(v: &Vec<TunnelConfig>) -> (r: Vec<TunnelConfig>)
    ensures
        r@ == v@,
{
    let mut r: Vec<TunnelConfig> = Vec::new();
    let mut i: usize = 0;
    while i < v.len()
        invariant
            i <= v.len(),
            r@ == v@.take(i as int),
        decreases v.len() - i,
    {
        r.push(v[i].clone());
        assert(r@ =~= v@.take(i + 1));
        i = i + 1;
    }
    assert(v@.take(v.len() as int) =~= v@);
    r
}

impl Clone for AppConfig {
    fn clone(&self) -> (r: Self)
        ensures
            r.worker_url == self.worker_url,
            r.auth_token == self.auth_token,
            r.tunnels@ == self.tunnels@,
            r.max_logs == self.max_logs,
    {
        AppConfig {
            worker_url: self.worker_url.clone(),
            auth_token: self.auth_token.clone(),
            tunnels: copy_tunnels(&self.tunnels),
            max_logs: self.max_logs,
        }
    }
}

impl Default for AppConfig {
    /// The configuration used when none is stored: no relay, no token, no
    /// tunnels, and the default log limit.
    fn default() -> (r: Self)
        ensures
            r.worker_url@.len() == 0,
            r.auth_token@.len() == 0,
            r.tunnels@.len() == 0,
            r.max_logs == DEFAULT_MAX_LOGS,
    {
        AppConfig {
            worker_url: String::new(),
            auth_token: String::new(),
            tunnels: Vec::new(),
            max_logs: DEFAULT_MAX_LOGS,
        }
    }
}

} // verus!
