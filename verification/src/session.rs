//! Connection and user-interface session state mirrored around the core.

use vstd::prelude::*;

verus! {

/// Where a connection stands; the user interface watches these
/// transitions and returns to its menu on `Disconnected`.
#[derive(Clone, Copy, Debug, PartialEq, Eq, Structural)]
pub enum ConnectionState {
    Connecting,
    Connected,
    Disconnected,
}

impl ConnectionState {
    /// The state's display label.
    pub fn label(&self) -> (r: &'static str)
        ensures
            r@ == match self {
                ConnectionState::Connecting => "Connecting"@,
                ConnectionState::Connected => "Connected"@,
                ConnectionState::Disconnected => "Disconnected"@,
            },
    {
        match self {
            ConnectionState::Connecting => "Connecting",
            ConnectionState::Connected => "Connected",
            ConnectionState::Disconnected => "Disconnected",
        }
    }
}

/// Which screen the user interface shows.
#[derive(Clone, Copy, Debug, PartialEq, Eq, Structural)]
pub enum Location {
    Splash,
    ConfigureServer,
    Lobby,
    Room,
    Game,
}

/// One configured server entry of the local configuration file.
#[derive(Clone, Debug, PartialEq)]
pub struct ServerInfo {
    pub name: String,
    pub address: String,
    pub certificate: String,
}

/// The local configuration: the known servers and the default player
/// name. Read at startup and rewritten whenever the list changes, by the
/// surrounding application.
#[derive(Clone, Debug, PartialEq)]
pub struct ClientConfig {
    pub servers: Vec<ServerInfo>,
    pub default_playername: String,
}

} // verus!
