use bitcoin::consensus::serialize;
use bitcoin::hashes::sha256d;
use bitcoin::p2p::message::{NetworkMessage, RawNetworkMessage};
use bitcoin::p2p::Magic;
use nodescope::framer::{BitcoinMessage, MessageParser, MAX_BUFFER, MAX_PAYLOAD};
use nodescope::message_type::MessageType;
use nodescope::network::Network;

const MAINNET: [u8; 4] = [0xF9, 0xBE, 0xB4, 0xD9];
const TESTNET: [u8; 4] = [0x0B, 0x11, 0x09, 0x07];

fn frame(magic: [u8; 4], command: &str, payload: &[u8]) -> Vec<u8> {
    let mut f = magic.to_vec();
    let mut cmd = [0u8; 12];
    cmd[..command.len()].copy_from_slice(command.as_bytes());
    f.extend_from_slice(&cmd);
    f.extend_from_slice(&(payload.len() as u32).to_le_bytes());
    let digest = bitcoin::hashes::Hash::to_byte_array(<sha256d::Hash as bitcoin::hashes::Hash>::hash(payload));
    f.extend_from_slice(&digest[..4]);
    f.extend_from_slice(payload);
    f
}

fn verack(magic: [u8; 4]) -> Vec<u8> {
    frame(magic, "verack", &[])
}

fn ping(nonce: u64) -> Vec<u8> {
    frame(MAINNET, "ping", &nonce.to_le_bytes())
}

fn feed_all(parser: &mut MessageParser, chunks: &[&[u8]]) -> Vec<BitcoinMessage> {
    let mut out = Vec::new();
    for c in chunks {
        out.extend(parser.push_data(c));
    }
    out
}

#[test]
fn test_message_parser_incomplete() {
    let mut parser = MessageParser::new(Network::Bitcoin);
    let messages = parser.push_data(&[0xf9, 0xbe, 0xb4, 0xd9]);
    assert_eq!(messages.len(), 0);
    assert!(parser.buffer_len() > 0);
}

#[test]
fn verack_frame_layout_is_bit_exact() {
    let f = verack(MAINNET);
    assert_eq!(f.len(), 24);
    assert_eq!(&f[20..24], &[0x5d, 0xf6, 0xe0, 0xe2]);
}

#[test]
fn empty_payload_frame_yields_one_message() {
    let mut parser = MessageParser::new(Network::Bitcoin);
    let msgs = parser.push_data(&verack(MAINNET));
    assert_eq!(msgs.len(), 1);
    assert_eq!(msgs[0].payload_len, 0);
    assert_eq!(msgs[0].command_name(), "verack");
    assert_eq!(msgs[0].message_type(), MessageType::Verack);
    assert_eq!(msgs[0].description(), "verack: handshake complete");
    assert_eq!(parser.buffer_len(), 0);
}

#[test]
fn ping_frame_describes_nonce() {
    let mut parser = MessageParser::new(Network::Bitcoin);
    let f = ping(0x0102030405060708);
    assert_eq!(f.len(), 32);
    let msgs = parser.push_data(&f);
    assert_eq!(msgs.len(), 1);
    assert_eq!(msgs[0].payload_len, 8);
    assert_eq!(msgs[0].message_type(), MessageType::Ping);
    assert!(msgs[0].description.starts_with("ping: nonce=72623859790382856"));
}

#[test]
fn frames_in_any_chunking_give_same_messages() {
    let mut stream = ping(7);
    stream.extend(verack(MAINNET));
    stream.extend(ping(9));
    let mut whole = MessageParser::new(Network::Bitcoin);
    let expected: Vec<String> = whole.push_data(&stream).iter().map(|m| m.description.clone()).collect();
    assert_eq!(expected, vec!["ping: nonce=7", "verack: handshake complete", "ping: nonce=9"]);
    for size in 1..stream.len() {
        let mut parser = MessageParser::new(Network::Bitcoin);
        let chunks: Vec<&[u8]> = stream.chunks(size).collect();
        let got: Vec<String> = feed_all(&mut parser, &chunks).iter().map(|m| m.description.clone()).collect();
        assert_eq!(got, expected);
        assert_eq!(parser.buffer_len(), 0);
    }
}

#[test]
fn split_frame_yields_only_on_last_feed() {
    let f = ping(42);
    for cut in 1..f.len() {
        let mut parser = MessageParser::new(Network::Bitcoin);
        assert_eq!(parser.push_data(&f[..cut]).len(), 0);
        assert_eq!(parser.buffer_len(), cut);
        let msgs = parser.push_data(&f[cut..]);
        assert_eq!(msgs.len(), 1);
        assert_eq!(msgs[0].description, "ping: nonce=42");
    }
}

#[test]
fn garbage_between_frames_is_skipped() {
    let mut stream = vec![0u8, 1, 2];
    stream.extend(ping(1));
    stream.extend([0x55u8, 0x66, 0x77, 0x88, 0x99]);
    stream.extend(verack(MAINNET));
    let mut parser = MessageParser::new(Network::Bitcoin);
    let msgs = parser.push_data(&stream);
    let names: Vec<&str> = msgs.iter().map(|m| m.command_name()).collect();
    assert_eq!(names, vec!["ping", "verack"]);
    assert_eq!(parser.buffer_len(), 0);
}

#[test]
fn resync_past_seven_garbage_bytes() {
    let mut stream = vec![0u8, 1, 2, 3, 4, 5, 6];
    stream.extend(verack(MAINNET));
    let mut parser = MessageParser::new(Network::Bitcoin);
    let msgs = parser.push_data(&stream);
    assert_eq!(msgs.len(), 1);
    assert_eq!(msgs[0].message_type(), MessageType::Verack);
}

#[test]
fn wrong_network_magic_yields_nothing() {
    let mut parser = MessageParser::new(Network::Bitcoin);
    let msgs = parser.push_data(&verack(TESTNET));
    assert_eq!(msgs.len(), 0);
    let mut testnet = MessageParser::new(Network::Testnet);
    assert_eq!(testnet.push_data(&verack(TESTNET)).len(), 1);
}

#[test]
fn bad_checksum_is_noise() {
    let mut f = ping(5);
    f[20] ^= 0xff;
    let mut parser = MessageParser::new(Network::Bitcoin);
    assert_eq!(parser.push_data(&f).len(), 0);
    assert_eq!(parser.push_data(&verack(MAINNET)).len(), 1);
}

#[test]
fn largest_payload_parses() {
    let payload = vec![0xabu8; MAX_PAYLOAD];
    let f = frame(MAINNET, "bigblob", &payload);
    let mut parser = MessageParser::new(Network::Bitcoin);
    let msgs = parser.push_data(&f);
    assert_eq!(msgs.len(), 1);
    assert_eq!(msgs[0].payload_len, 33554432);
    assert_eq!(msgs[0].message_type(), MessageType::Unknown);
    assert_eq!(msgs[0].description, "unknown: command=bigblob, 33554432 bytes");
}

#[test]
fn payload_length_over_limit_is_noise() {
    let mut header = MAINNET.to_vec();
    header.extend_from_slice(b"bigblob\0\0\0\0\0");
    header.extend_from_slice(&((MAX_PAYLOAD as u32) + 1).to_le_bytes());
    header.extend_from_slice(&[0, 0, 0, 0]);
    let mut parser = MessageParser::new(Network::Bitcoin);
    assert_eq!(parser.push_data(&header).len(), 0);
    assert_eq!(parser.buffer_len(), 0);

    let mut at_limit = header.clone();
    at_limit[16..20].copy_from_slice(&(MAX_PAYLOAD as u32).to_le_bytes());
    let mut parser = MessageParser::new(Network::Bitcoin);
    assert_eq!(parser.push_data(&at_limit).len(), 0);
    assert_eq!(parser.buffer_len(), 24);
}

#[test]
fn oversized_noise_buffer_is_cleared() {
    let noise = vec![0u8; MAX_BUFFER + 100];
    let mut parser = MessageParser::new(Network::Bitcoin);
    assert_eq!(parser.push_data(&noise).len(), 0);
    assert_eq!(parser.buffer_len(), 0);
    assert_eq!(parser.push_data(&verack(MAINNET)).len(), 1);
}

#[test]
fn version_message_in_three_reads() {
    let addr = bitcoin::p2p::Address::new(&"127.0.0.1:8333".parse().unwrap(), bitcoin::p2p::ServiceFlags::NONE);
    let v = bitcoin::p2p::message_network::VersionMessage::new(
        bitcoin::p2p::ServiceFlags::NETWORK,
        0,
        addr.clone(),
        addr,
        1,
        "/probe:0.1/".to_string(),
        0,
    );
    let bytes = serialize(&RawNetworkMessage::new(Magic::BITCOIN, NetworkMessage::Version(v)));
    let mut parser = MessageParser::new(Network::Bitcoin);
    assert_eq!(parser.push_data(&bytes[..10]).len(), 0);
    assert_eq!(parser.push_data(&bytes[10..60]).len(), 0);
    let msgs = parser.push_data(&bytes[60..]);
    assert_eq!(msgs.len(), 1);
    assert_eq!(msgs[0].message_type(), MessageType::Version);
    assert_eq!(msgs[0].description, "version: protocol_version=70001, services=1, user_agent=/probe:0.1/");
}

#[test]
fn block_message_shows_hash() {
    let block = bitcoin::blockdata::constants::genesis_block(bitcoin::Network::Bitcoin);
    let bytes = serialize(&RawNetworkMessage::new(Magic::BITCOIN, NetworkMessage::Block(block.clone())));
    let mut parser = MessageParser::new(Network::Bitcoin);
    let msgs = parser.push_data(&bytes);
    assert_eq!(msgs.len(), 1);
    assert_eq!(
        msgs[0].description,
        "block: hash=000000000019d6689c085ae165831e934ff763ae46a2a6c172b3f1b60a8ce26f"
    );
    let tx = block.txdata[0].clone();
    let bytes = serialize(&RawNetworkMessage::new(Magic::BITCOIN, NetworkMessage::Tx(tx)));
    let msgs = parser.push_data(&bytes);
    assert_eq!(
        msgs[0].description,
        "tx: txid=4a5e1e4baab89f3a32518a88c31bc87f618f76673e2cc77ab2127b7afdeda33b"
    );
}

#[test]
fn inventory_counts_items() {
    let bytes = serialize(&RawNetworkMessage::new(Magic::BITCOIN, NetworkMessage::Inv(vec![])));
    let mut parser = MessageParser::new(Network::Bitcoin);
    let msgs = parser.push_data(&bytes);
    assert_eq!(msgs[0].description, "inv: 0 inventory items");
    let bytes = serialize(&RawNetworkMessage::new(Magic::BITCOIN, NetworkMessage::Pong(3)));
    assert_eq!(parser.push_data(&bytes)[0].description, "pong: nonce=3");
}

#[test]
fn noise_just_over_the_limit_is_cleared() {
    let mut data = vec![0u8; MAX_BUFFER + 1 - 4];
    data.extend_from_slice(&MAINNET);
    let mut parser = MessageParser::new(Network::Bitcoin);
    assert_eq!(parser.push_data(&data).len(), 0);
    assert_eq!(parser.buffer_len(), 0);

    let mut data = vec![0u8; MAX_BUFFER - 4];
    data.extend_from_slice(&MAINNET);
    let mut parser = MessageParser::new(Network::Bitcoin);
    assert_eq!(parser.push_data(&data).len(), 0);
    assert_eq!(parser.buffer_len(), 4);
}

#[test]
fn upper_case_command_is_unknown() {
    let mut parser = MessageParser::new(Network::Bitcoin);
    let msgs = parser.push_data(&frame(MAINNET, "PING", &5u64.to_le_bytes()));
    assert_eq!(msgs.len(), 1);
    assert_eq!(msgs[0].command_name(), "PING");
    assert_eq!(msgs[0].message_type(), MessageType::Unknown);
    assert_eq!(msgs[0].description, "unknown: command=PING, 8 bytes");
}

#[test]
fn list_counts_read_compact_size() {
    let mut parser = MessageParser::new(Network::Bitcoin);
    let msgs = parser.push_data(&frame(MAINNET, "addr", &[0xfd, 0x02, 0x01]));
    // An address count of 258 with no addresses behind it does not decode.
    assert_eq!(msgs.len(), 0);
    let bytes = serialize(&RawNetworkMessage::new(Magic::BITCOIN, NetworkMessage::Headers(vec![])));
    let mut parser = MessageParser::new(Network::Bitcoin);
    assert_eq!(parser.push_data(&bytes)[0].description, "headers: 0 headers");
    let bytes = serialize(&RawNetworkMessage::new(Magic::BITCOIN, NetworkMessage::Addr(vec![])));
    assert_eq!(parser.push_data(&bytes)[0].description, "addr: 0 addresses");
}
