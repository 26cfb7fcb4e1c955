//! The node agent's configuration and the handle a client keeps for it:
//! a local socket path and the ZFS pool the agent manages.

use vstd::prelude::*;
use vstd::string::*;

use crate::zfs::Pool;

verus! {

/// How verbose the agent logs.
#[derive(Debug, Clone, Copy, PartialEq, Eq)]
pub enum LogLevel {
    Warn,
    Info,
    Error,
    Debug,
    Trace,
}

/// The pool the agent manages when none is configured.
pub fn default_zpool() -> (r: String)
    ensures
        r@ == "trunk"@,
{
    String::from_str("trunk")
}

/// The transport of a forwarded port.
#[derive(Debug, Clone, Copy, PartialEq, Eq)]
pub enum Protocol {
    TCP,
    UDP,
}

/// A port the gateway asks the agent to expose on the local network.
#[derive(Debug, Clone, PartialEq, Eq)]
pub struct PortForward {
    pub port: u16,
    pub protocol: Protocol,
}

/// The agent's ZFS settings.
#[derive(Debug, Clone, PartialEq, Eq)]
pub struct ZFSConfig {
    pub pool: String,
}

impl ZFSConfig {
    /// A controller over the configured pool.
    pub fn controller(&self) -> (r: Pool)
        ensures
            r.name@ == self.pool@,
    {
        Pool::new(self.pool.as_str())
    }
}

/// The agent's configuration.
#[derive(Debug, Clone, PartialEq, Eq)]
pub struct Config {
    pub socket: String,
    pub zfs: ZFSConfig,
    pub log_level: LogLevel,
}

impl Default for Config {
    /// The default configuration: no socket yet, the default pool, and
    /// informational logging.
    fn default() -> (r: Self)
        ensures
            r.socket@ == Seq::<char>::empty(),
            r.zfs.pool@ == "trunk"@,
            r.log_level == LogLevel::Info,
    {
        Config { socket: String::new(), zfs: ZFSConfig { pool: default_zpool() }, log_level: LogLevel::Info }
    }
}

/// A client handle for the agent: the socket the caller connects to.
#[derive(Debug, Clone, PartialEq, Eq)]
pub struct Client {
    pub socket: String,
}

impl Client {
    /// A handle for the agent at the given socket path.
    pub fn new(socket: String) -> (r: Self)
        ensures
            r.socket == socket,
    {
        Client { socket }
    }
}

/// The agent daemon's assembled state before it starts serving.
#[derive(Debug, Clone, PartialEq, Eq)]
pub struct Server {
    pub config: Config,
}

impl Server {
    /// A server over the given configuration, or the default one.
    pub fn new_with_config(config: Option<Config>) -> (r: Self)
        ensures
            match config {
                Some(c) => r.config == c,
                None => r.config.zfs.pool@ == "trunk"@,
            },
    {
        match config {
            Some(config) => Server { config },
            None => Server { config: Config::default() },
        }
    }
}

} // verus!
