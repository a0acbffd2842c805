use bitcoin::hashes::sha256d;
use nodescope::connection::{ConnectionHandler, Direction};
use nodescope::ids::ConnectionIds;
use nodescope::message_type::MessageType;
use nodescope::network::Network;

fn frame(magic: [u8; 4], command: &str, payload: &[u8]) -> Vec<u8> {
    let mut f = magic.to_vec();
    let mut cmd = [0u8; 12];
    cmd[..command.len()].copy_from_slice(command.as_bytes());
    f.extend_from_slice(&cmd);
    f.extend_from_slice(&(payload.len() as u32).to_le_bytes());
    let digest = bitcoin::hashes::Hash::to_byte_array(<sha256d::Hash as bitcoin::hashes::Hash>::hash(payload));
    f.extend_from_slice(&digest[..4]);
    f.extend_from_slice(payload);
    f
}

const MAINNET: [u8; 4] = [0xF9, 0xBE, 0xB4, 0xD9];

fn handler() -> ConnectionHandler {
    ConnectionHandler::new(0, "127.0.0.1:40000".to_string(), "198.51.100.1:8333".to_string(), Network::Bitcoin)
}

#[test]
fn ping_round_trip_record() {
    let mut h = handler();
    let f = frame(MAINNET, "ping", &0x0102030405060708u64.to_le_bytes());
    assert!(h.can_accept(Direction::Inbound, f.len()));
    let records = h.on_chunk(Direction::Inbound, &f);
    assert_eq!(records.len(), 1);
    let r = &records[0];
    assert_eq!(r.connection_id, 0);
    assert_eq!(r.direction, Direction::Inbound);
    assert_eq!(r.direction.as_str(), "inbound");
    assert_eq!(r.source_peer, "127.0.0.1:40000");
    assert_eq!(r.destination_peer, "198.51.100.1:8333");
    assert_eq!(r.message_type, MessageType::Ping);
    assert_eq!(r.message_type.as_str(), "ping");
    assert_eq!(r.payload_size, 8);
    assert!(r.description.starts_with("ping: nonce=72623859790382856"));
    assert_eq!(h.stats().bytes_inbound, 32);
    assert_eq!(h.stats().messages_inbound, 1);
}

#[test]
fn outbound_records_swap_peers() {
    let mut h = handler();
    let records = h.on_chunk(Direction::Outbound, &frame(MAINNET, "verack", &[]));
    assert_eq!(records.len(), 1);
    assert_eq!(records[0].direction.as_str(), "outbound");
    assert_eq!(records[0].source_peer, "198.51.100.1:8333");
    assert_eq!(records[0].destination_peer, "127.0.0.1:40000");
    assert_eq!(h.stats().bytes_outbound, 24);
    assert_eq!(h.stats().bytes_inbound, 0);
}

#[test]
fn chunked_frame_gives_one_record() {
    let mut h = handler();
    let f = frame(MAINNET, "version", &[0u8; 90]);
    let mut total = 0;
    total += h.on_chunk(Direction::Inbound, &f[..10]).len();
    total += h.on_chunk(Direction::Inbound, &f[10..60]).len();
    assert_eq!(total, 0);
    assert_eq!(h.stats().bytes_inbound, 60);
    h.on_chunk(Direction::Inbound, &f[60..]);
    assert_eq!(h.stats().bytes_inbound, 114);
}

#[test]
fn wrong_magic_still_counts_bytes() {
    let mut h = handler();
    let records = h.on_chunk(Direction::Inbound, &frame([0x0B, 0x11, 0x09, 0x07], "verack", &[]));
    assert!(records.is_empty());
    assert_eq!(h.stats().bytes_inbound, 24);
    assert_eq!(h.stats().messages_inbound, 0);
}

#[test]
fn graceful_close_reports_totals() {
    let mut h = handler();
    let payload = [7u8; 100];
    let inbound = frame(MAINNET, "version", &payload);
    let outbound = frame(MAINNET, "version", &payload[..80]);
    h.on_chunk(Direction::Inbound, &inbound);
    h.on_chunk(Direction::Outbound, &outbound);
    let open = h.open_record();
    assert_eq!(open.connection_id, 0);
    assert_eq!(open.client_addr, "127.0.0.1:40000");
    assert_eq!(open.target_addr, "198.51.100.1:8333");
    let close = h.close_record();
    assert_eq!(close.connection_id, 0);
    assert_eq!(close.bytes_inbound, 124);
    assert_eq!(close.bytes_outbound, 104);
    assert_eq!(h.connection_id(), 0);
}

#[test]
fn connection_ids_count_up_from_zero() {
    let mut ids = ConnectionIds::new();
    assert_eq!(ids.next_id(), Some(0));
    // The dial for connection 0 fails: no record is written, but the id stays used.
    assert_eq!(ids.next_id(), Some(1));
    assert_eq!(ids.next_id(), Some(2));
}

#[test]
fn direction_arrows() {
    assert_eq!(Direction::Inbound.arrow(), "→");
    assert_eq!(Direction::Outbound.arrow(), "←");
}
