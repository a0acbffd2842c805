use vstd::prelude::*;
use crate::network::Network;
use crate::server_config::ServerConfig;

verus! {

/// The network named in the proxy's configuration.
#[derive(Debug, Clone, Copy, PartialEq, Eq, Structural)]
pub enum NetworkConfig {
    Mainnet,
    Testnet,
    Signet,
    Regtest,
}

/// The network a configured name selects.
pub open spec fn configured_network(c: NetworkConfig) -> Network {
    match c {
        NetworkConfig::Mainnet => Network::Bitcoin,
        NetworkConfig::Testnet => Network::Testnet,
        NetworkConfig::Signet => Network::Signet,
        NetworkConfig::Regtest => Network::Regtest,
    }
}

impl From<NetworkConfig> for Network {
    fn from(config: NetworkConfig) -> (r: Network) {
        match config {
            NetworkConfig::Mainnet => Network::Bitcoin,
            NetworkConfig::Testnet => Network::Testnet,
            NetworkConfig::Signet => Network::Signet,
            NetworkConfig::Regtest => Network::Regtest,
        }
    }
}

impl vstd::std_specs::convert::FromSpecImpl<NetworkConfig> for Network {
    open spec fn obeys_from_spec() -> bool {
        true
    }

    open spec fn from_spec(config: NetworkConfig) -> Network {
        configured_network(config)
    }
}

/// Settings of the proxy listener.
#[derive(Debug, Clone)]
pub struct ProxyConfig {
    /// Port to listen on for SOCKS5 clients.
    pub port: u16,
    /// Bitcoin network whose frames are parsed.
    pub network: NetworkConfig,
}

pub fn default_port() -> (r: u16)
    ensures
        r == 6788,
{
    6788
}

pub fn default_network() -> (r: NetworkConfig)
    ensures
        r == NetworkConfig::Mainnet,
{
    NetworkConfig::Mainnet
}

impl Default for ProxyConfig {
    fn default() -> (r: ProxyConfig)
        ensures
            r.port == 6788,
            r.network == NetworkConfig::Mainnet,
    {
        ProxyConfig { port: default_port(), network: default_network() }
    }
}

/// The whole configuration of the program.
#[derive(Debug, Clone)]
pub struct Config {
    pub server: ServerConfig,
    pub proxy: ProxyConfig,
    /// Path of the database file that records are written to.
    pub database_path: String,
}

pub fn default_database_path() -> (r: String)
    ensures
        r@ == "nodescope.db"@,
{
    String::from_str("nodescope.db")
}

} // verus!
