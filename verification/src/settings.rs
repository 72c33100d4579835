//! The gateway's settings: where records are forwarded to, and where the
//! gateway listens. They are read once and never changed afterwards.

use vstd::prelude::*;
use vstd::string::*;

verus! {

/// The whole configuration.
#[derive(Debug)]
pub struct Settings {
    pub wavelog: WaveLogSettings,
    pub server: ServerSettings,
}

/// The remote logging service.
#[derive(Debug)]
pub struct WaveLogSettings {
    /// Base address of the service, without a trailing path.
    pub url: String,
    /// API key.
    pub key: String,
    /// Identifier of the station profile that records are logged under.
    pub station: String,
}

/// The local endpoint that datagrams arrive at.
#[derive(Debug)]
pub struct ServerSettings {
    pub host: String,
    pub port: u16,
}

/// The host that the gateway binds to when the configuration names none:
/// every local address.
pub fn default_host() -> (host: String)
    ensures
        host@ == "0.0.0.0"@,
{
    String::from_str("0.0.0.0")
}

/// The UDP port that the gateway binds to when the configuration names
/// none.
pub fn default_port() -> (port: u16)
    ensures
        port == 2333,
{
    2333
}

impl ServerSettings {
    /// The endpoint for what a configuration gives, with the defaults in
    /// place of what it leaves out.
    pub fn new(host: Option<String>, port: Option<u16>) -> (server: Self)
        ensures
            server.host@ == (match host {
                Some(h) => h@,
                None => "0.0.0.0"@,
            }),
            server.port == (match port {
                Some(p) => p,
                None => 2333u16,
            }),
    {
        let host = match host {
            Some(h) => h,
            None => default_host(),
        };
        let port = match port {
            Some(p) => p,
            None => default_port(),
        };
        ServerSettings { host, port }
    }
}

impl Clone for WaveLogSettings {
    fn clone(&self) -> (copy: Self)
        ensures
            copy == *self,
    {
        WaveLogSettings {
            url: self.url.clone(),
            key: self.key.clone(),
            station: self.station.clone(),
        }
    }
}

impl Clone for ServerSettings {
    fn clone(&self) -> (copy: Self)
        ensures
            copy == *self,
    {
        ServerSettings { host: self.host.clone(), port: self.port }
    }
}

impl Clone for Settings {
    fn clone(&self) -> (copy: Self)
        ensures
            copy == *self,
    {
        Settings { wavelog: self.wavelog.clone(), server: self.server.clone() }
    }
}

} // verus!
