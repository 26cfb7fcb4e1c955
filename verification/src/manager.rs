//! The package manager's configuration and the handles around it: where
//! the registry lives, which agent socket to use, and where unit files
//! and the manager binary itself are found.

use vstd::prelude::*;
use vstd::string::*;

use crate::package::CompiledPackage;
use crate::registry::Registry;
use crate::unit::SystemdUnit;

verus! {

/// How verbose the manager logs.
#[derive(Debug, Clone, Copy, PartialEq, Eq)]
pub enum LogLevel {
    Warn,
    Info,
    Error,
    Debug,
    Trace,
}

/// Where the registry lives and, optionally, where it syncs from.
#[derive(Debug, Clone, PartialEq, Eq)]
pub struct RegistryConfig {
    pub path: String,
    pub url: Option<String>,
}

impl Default for RegistryConfig {
    /// The default registry location, synced from the public package
    /// repository.
    fn default() -> (r: Self)
        ensures
            r.path@ == "/trunk/charon/registry"@,
            r.url matches Some(u) && u@ == "https://github.com/trunk-os/charon-packages"@,
    {
        RegistryConfig {
            path: String::from_str("/trunk/charon/registry"),
            url: Some(String::from_str("https://github.com/trunk-os/charon-packages")),
        }
    }
}

/// The unit directory used when none is configured.
pub fn default_systemd_root() -> (r: Option<String>)
    ensures
        r matches Some(p) && p@ == "/etc/systemd/system"@,
{
    Some(String::from_str("/etc/systemd/system"))
}

/// The manager binary's path used when none is configured.
pub fn default_charon_path() -> (r: Option<String>)
    ensures
        r matches Some(p) && p@ == "/usr/bin/charon"@,
{
    Some(String::from_str("/usr/bin/charon"))
}

/// The manager's configuration.
#[derive(Debug, Clone, PartialEq, Eq)]
pub struct Config {
    pub registry: RegistryConfig,
    pub socket: String,
    pub systemd_root: Option<String>,
    pub log_level: Option<LogLevel>,
    pub debug: Option<bool>,
    pub charon_path: Option<String>,
    pub buckle_socket: String,
}

impl Default for Config {
    /// The default configuration: default registry, default paths, no
    /// sockets yet.
    fn default() -> (r: Self)
        ensures
            r.registry.path@ == "/trunk/charon/registry"@,
            r.socket@ == Seq::<char>::empty(),
            r.systemd_root matches Some(p) && p@ == "/etc/systemd/system"@,
            r.log_level is None,
            r.debug is None,
            r.charon_path matches Some(p) && p@ == "/usr/bin/charon"@,
            r.buckle_socket@ == Seq::<char>::empty(),
    {
        Config {
            registry: RegistryConfig::default(),
            socket: String::new(),
            systemd_root: default_systemd_root(),
            log_level: None,
            debug: None,
            charon_path: default_charon_path(),
            buckle_socket: String::new(),
        }
    }
}

impl Config {
    /// A fresh, empty registry value rooted at the configured path; the
    /// caller brings the on-disk records into it.
    pub fn registry(&self) -> (r: Registry)
        ensures
            r.root@ == self.registry.path@,
            r.packages@.len() == 0,
            r.pending is None,
            r.installed@.len() == 0,
            r.globals.entries@.len() == 0,
            r.responses.entries@.len() == 0,
    {
        Registry::new(String::from_str(self.registry.path.as_str()))
    }

    /// Whether debugging output was asked for.
    pub fn debug(&self) -> (r: bool)
        ensures
            r == (self.debug == Some(true)),
    {
        match self.debug {
            Some(d) => d,
            None => false,
        }
    }

    /// A client handle for the agent this manager drives.
    pub fn buckle(&self) -> (r: crate::agent::Client)
        ensures
            r.socket@ == self.buckle_socket@,
    {
        crate::agent::Client::new(String::from_str(self.buckle_socket.as_str()))
    }
}

/// A client handle for the manager: the socket the caller connects to.
#[derive(Debug, Clone, PartialEq, Eq)]
pub struct Client {
    pub socket: String,
}

impl Client {
    /// A handle for the manager at the given socket path.
    pub fn new(socket: String) -> (r: Self)
        ensures
            r.socket == socket,
    {
        Client { socket }
    }
}

/// The manager daemon's assembled state before it starts serving.
#[derive(Debug, Clone, PartialEq, Eq)]
pub struct Server {
    pub config: Config,
}

impl Server {
    /// A server over the given configuration.
    pub fn new(config: Config) -> (r: Self)
        ensures
            r.config == config,
    {
        Server { config }
    }
}

impl CompiledPackage {
    /// The supervised-service unit for this package under the given
    /// configuration.
    pub fn systemd_unit(self, config: &Config) -> (r: SystemdUnit)
        ensures
            r.package == self,
            r.buckle_socket@ == config.buckle_socket@,
            match config.systemd_root {
                Some(p) => r.systemd_root matches Some(q) && q@ == p@,
                None => r.systemd_root is None,
            },
            match config.charon_path {
                Some(p) => r.charon_path matches Some(q) && q@ == p@,
                None => r.charon_path is None,
            },
    {
        let systemd_root = match &config.systemd_root {
            Some(p) => Some(String::from_str(p.as_str())),
            None => None,
        };
        let charon_path = match &config.charon_path {
            Some(p) => Some(String::from_str(p.as_str())),
            None => None,
        };
        SystemdUnit::new(
            String::from_str(config.buckle_socket.as_str()),
            self,
            systemd_root,
            charon_path,
        )
    }
}

} // verus!
