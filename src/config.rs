//! The configuration of one installation.
use vstd::prelude::*;
use vstd::string::*;
use crate::types::PeerId;

verus! {

/// Why the configuration could not be read or written.
#[derive(Debug)]
pub enum ConfigError {
    ReadFile { path: String, reason: String },
    ParseFile { path: String, reason: String },
    WriteFile { path: String, reason: String },
    Serialize(String),
    NoConfigDir,
}

/// The persisted configuration.
#[derive(Debug)]
pub struct AppConfig {
    /// This machine's identity, generated once.
    pub peer_id: String,
    /// This machine's display name.
    pub display_name: String,
    /// Port of the peer server; 0 lets the system choose.
    pub tcp_port: u16,
    /// Terminal command used to open the chat from the tray.
    pub terminal_command: Option<String>,
    /// The one network interface discovery is restricted to, if any.
    pub network_interface: Option<String>,
}

impl AppConfig {
    /// The configuration of a first run: a fresh identity, the given name,
    /// an automatic port and no restriction.
    pub fn new_first_run(display_name: &str) -> (r: Self)
        ensures
            r.peer_id@.len() == 36,
            r.display_name@ == display_name@,
            r.tcp_port == 0,
            r.terminal_command is None,
            r.network_interface is None,
    {
        AppConfig {
            peer_id: PeerId::generate().to_string(),
            display_name: String::from_str(display_name),
            tcp_port: 0,
            terminal_command: None,
            network_interface: None,
        }
    }
}

impl Clone for AppConfig {
    fn clone(&self) -> (r: Self)
        ensures
            r == *self,
    {
        AppConfig {
            peer_id: self.peer_id.clone(),
            display_name: self.display_name.clone(),
            tcp_port: self.tcp_port,
            terminal_command: match &self.terminal_command {
                Some(t) => Some(t.clone()),
                None => None,
            },
            network_interface: match &self.network_interface {
                Some(n) => Some(n.clone()),
                None => None,
            },
        }
    }
}

} // verus!
