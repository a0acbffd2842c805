use nodescope::config::{default_database_path, default_network, default_port, NetworkConfig, ProxyConfig};
use nodescope::describe::{describe, PayloadDetail};
use nodescope::message_type::{str_eq, MessageType};
use nodescope::network::Network;
use nodescope::server_config::ServerConfig;

#[test]
fn commands_parse_exactly() {
    assert_eq!(MessageType::from_command("version"), MessageType::Version);
    assert_eq!(MessageType::from_command("sendaddrv2"), MessageType::SendAddrV2);
    assert_eq!(MessageType::from_command("VERSION"), MessageType::Unknown);
    assert_eq!(MessageType::from_command("SendAddrV2"), MessageType::Unknown);
    assert_eq!(MessageType::from_command("bogus"), MessageType::Unknown);
    assert_eq!(MessageType::from_command("ping"), MessageType::Ping);
}

#[test]
fn names_round_trip() {
    let all = [
        MessageType::Version, MessageType::Verack, MessageType::Addr, MessageType::Inv, MessageType::GetData,
        MessageType::NotFound, MessageType::GetBlocks, MessageType::GetHeaders, MessageType::Tx, MessageType::Block,
        MessageType::Headers, MessageType::GetAddr, MessageType::MemPool, MessageType::Ping, MessageType::Pong,
        MessageType::SendHeaders, MessageType::FeeFilter, MessageType::SendCmpct, MessageType::CmpctBlock,
        MessageType::GetBlockTxn, MessageType::BlockTxn, MessageType::GetCFilters, MessageType::CFilter,
        MessageType::GetCFHeaders, MessageType::CFHeaders, MessageType::GetCFCheckpt, MessageType::CFCheckpt,
        MessageType::AddrV2, MessageType::SendAddrV2, MessageType::WtxidRelay, MessageType::FilterLoad,
        MessageType::FilterAdd, MessageType::FilterClear, MessageType::MerkleBlock, MessageType::Reject,
        MessageType::Alert,
    ];
    for t in all {
        assert_eq!(MessageType::from_command(t.as_str()), t);
    }
    assert_eq!(MessageType::Unknown.as_str(), "unknown");
    assert_eq!(MessageType::MemPool.as_str(), "mempool");
}

#[test]
fn string_equality() {
    assert!(str_eq("abc", "abc"));
    assert!(!str_eq("abc", "abd"));
    assert!(!str_eq("abc", "ab"));
    assert!(str_eq("é", "é"));
}

#[test]
fn descriptions() {
    assert_eq!(describe(MessageType::Ping, "ping", &PayloadDetail::Nonce(5)), "ping: nonce=5");
    assert_eq!(describe(MessageType::Addr, "addr", &PayloadDetail::Count(12)), "addr: 12 addresses");
    assert_eq!(describe(MessageType::Headers, "headers", &PayloadDetail::Count(0)), "headers: 0 headers");
    assert_eq!(describe(MessageType::Ping, "ping", &PayloadDetail::Other), "ping: (other)");
    assert_eq!(describe(MessageType::GetAddr, "getaddr", &PayloadDetail::Other), "getaddr: request peer addresses");
    assert_eq!(
        describe(MessageType::Unknown, "xyz", &PayloadDetail::Count(3)),
        "unknown: command=xyz, 3 bytes"
    );
    let v = PayloadDetail::Version { version: 70016, services: 1033, user_agent: "/x/".to_string() };
    assert_eq!(
        describe(MessageType::Version, "version", &v),
        "version: protocol_version=70016, services=1033, user_agent=/x/"
    );
    assert_eq!(describe(MessageType::Tx, "tx", &PayloadDetail::Hash("ab".to_string())), "tx: txid=ab");
}

#[test]
fn configuration_defaults() {
    let p = ProxyConfig::default();
    assert_eq!(p.port, 6788);
    assert_eq!(p.network, NetworkConfig::Mainnet);
    assert_eq!(default_port(), 6788);
    assert_eq!(default_network(), NetworkConfig::Mainnet);
    assert_eq!(ServerConfig::default().port, 6789);
    assert_eq!(nodescope::server_config::default_port(), 6789);
    assert_eq!(default_database_path(), "nodescope.db");
}

#[test]
fn networks_and_magic() {
    assert_eq!(Network::from(NetworkConfig::Mainnet), Network::Bitcoin);
    assert_eq!(Network::from(NetworkConfig::Testnet), Network::Testnet);
    assert_eq!(Network::from(NetworkConfig::Signet), Network::Signet);
    assert_eq!(Network::from(NetworkConfig::Regtest), Network::Regtest);
    assert_eq!(Network::Bitcoin.magic(), [0xF9, 0xBE, 0xB4, 0xD9]);
    assert_eq!(Network::Testnet.magic(), [0x0B, 0x11, 0x09, 0x07]);
    assert_eq!(Network::Signet.magic(), [0x0A, 0x03, 0xCF, 0x40]);
    assert_eq!(Network::Regtest.magic(), [0xFA, 0xBF, 0xB5, 0xDA]);
}
