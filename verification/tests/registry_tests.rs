use r_chat::address::PeerAddress;
use r_chat::chat_protocol::{calculate_len_by_data, Protocol};
use r_chat::errors_define::ErrorKind;
use r_chat::registry::{
    connection_survives, ConnectionRegistry, ProtocolCacheData, DEFAULT_MAX_DATA_LEN,
};

fn peer(port: u16) -> PeerAddress {
    PeerAddress::V4 { ip: 0x7F00_0001, port }
}

fn encode(version: u8, command: u8, data: Vec<u8>) -> Vec<u8> {
    let mut pkg = Protocol {
        version: Some(vec![version]),
        data_type: Some(vec![command]),
        data_len: Some(calculate_len_by_data(&data)),
        data: Some(data),
    };
    pkg.to_vec()
}

#[test]
fn default_limit_is_four_mebibytes() {
    assert_eq!(DEFAULT_MAX_DATA_LEN, 4 * 1024 * 1024);
}

#[test]
fn a_new_registry_is_empty() {
    let registry: ConnectionRegistry<u32> = ConnectionRegistry::new(1000);
    assert_eq!(registry.max_data_len(), 1000);
    assert!(!registry.contains(&peer(1)));
}

#[test]
fn addresses_differ_by_every_part() {
    let a = PeerAddress::V4 { ip: 1, port: 2 };
    assert_eq!(a, PeerAddress::V4 { ip: 1, port: 2 });
    assert_ne!(a, PeerAddress::V4 { ip: 1, port: 3 });
    assert_ne!(a, PeerAddress::V4 { ip: 2, port: 2 });
    let b = PeerAddress::V6 { ip6: 1, port: 2, flowinfo: 0, scope_id: 0 };
    assert_ne!(a, b);
    assert_ne!(b, PeerAddress::V6 { ip6: 1, port: 2, flowinfo: 1, scope_id: 0 });
    assert_ne!(b, PeerAddress::V6 { ip6: 1, port: 2, flowinfo: 0, scope_id: 1 });
}

#[test]
fn get_or_create_makes_an_entry_with_the_incoming_socket() {
    let mut registry: ConnectionRegistry<String> = ConnectionRegistry::new(1000);
    let stream = registry.get_or_create(peer(1), "first".to_string());
    assert_eq!(*stream, "first");
    assert!(registry.contains(&peer(1)));
    assert!(!registry.contains(&peer(2)));
    let entry = registry.remove(&peer(1)).unwrap();
    assert_eq!(entry.stream, "first");
    assert_eq!(entry.data, Some(Protocol::create_new()));
}

#[test]
fn get_or_create_keeps_the_socket_of_an_entry() {
    let mut registry: ConnectionRegistry<String> = ConnectionRegistry::new(1000);
    registry.get_or_create(peer(1), "first".to_string()).push('!');
    let stream = registry.get_or_create(peer(1), "second".to_string());
    assert_eq!(*stream, "first!");
}

#[test]
fn get_or_create_keeps_the_frame_of_an_entry() {
    let mut registry: ConnectionRegistry<u8> = ConnectionRegistry::new(1000);
    registry.get_or_create(peer(1), 1);
    let decoded = registry.decode(&peer(1), &vec![1, 2, 0], 3).unwrap();
    assert!(decoded.frames.is_empty());
    registry.get_or_create(peer(1), 2);
    let entry = registry.remove(&peer(1)).unwrap();
    assert_eq!(entry.stream, 1);
    let held = entry.data.unwrap();
    assert_eq!(held.version, Some(vec![1]));
    assert_eq!(held.data_type, Some(vec![2]));
    assert_eq!(held.data_len, Some(vec![0]));
}

#[test]
fn add_stream_does_not_replace_an_entry() {
    let mut registry: ConnectionRegistry<u8> = ConnectionRegistry::new(1000);
    assert!(registry.add_stream(peer(1), ProtocolCacheData { stream: 1, data: None }));
    assert!(!registry.add_stream(peer(1), ProtocolCacheData { stream: 2, data: None }));
    assert!(registry.add_stream(peer(2), ProtocolCacheData { stream: 3, data: None }));
    assert_eq!(registry.remove(&peer(1)).unwrap().stream, 1);
    assert_eq!(registry.remove(&peer(2)).unwrap().stream, 3);
}

#[test]
fn the_socket_of_an_entry_can_be_written_through() {
    let mut registry: ConnectionRegistry<Vec<u8>> = ConnectionRegistry::new(1000);
    registry.get_or_create(peer(1), vec![]);
    registry.get_or_create(peer(2), vec![]);
    registry.try_get_mut_stream(&peer(2)).unwrap().push(9);
    assert!(registry.try_get_mut_stream(&peer(3)).is_none());
    assert_eq!(registry.remove(&peer(1)).unwrap().stream, Vec::<u8>::new());
    assert_eq!(registry.remove(&peer(2)).unwrap().stream, vec![9]);
}

#[test]
fn remove_takes_the_entry_out() {
    let mut registry: ConnectionRegistry<u8> = ConnectionRegistry::new(1000);
    registry.get_or_create(peer(1), 1);
    registry.get_or_create(peer(2), 2);
    registry.get_or_create(peer(3), 3);
    assert_eq!(registry.remove(&peer(2)).unwrap().stream, 2);
    assert!(registry.remove(&peer(2)).is_none());
    assert!(registry.contains(&peer(1)));
    assert!(!registry.contains(&peer(2)));
    assert!(registry.contains(&peer(3)));
}

#[test]
fn decode_needs_an_entry() {
    let mut registry: ConnectionRegistry<u8> = ConnectionRegistry::new(1000);
    let wire = encode(1, 1, vec![1]);
    assert!(registry.decode(&peer(1), &wire, wire.len()).is_none());
    assert!(!registry.contains(&peer(1)));
}

#[test]
fn the_next_read_after_a_complete_frame_starts_fresh() {
    let mut registry: ConnectionRegistry<u8> = ConnectionRegistry::new(1000);
    registry.get_or_create(peer(1), 1);
    let first = encode(1, 1, vec![0xAA, 0xBB, 0xCC]);
    let decoded = registry.decode(&peer(1), &first, first.len()).unwrap();
    assert_eq!(decoded.frames.len(), 1);
    assert_eq!(decoded.frames[0].data, Some(vec![0xAA, 0xBB, 0xCC]));
    let second = encode(2, 0, vec![0x11]);
    let decoded = registry.decode(&peer(1), &second, second.len()).unwrap();
    assert_eq!(decoded.frames.len(), 1);
    assert_eq!(decoded.frames[0].version, Some(vec![2]));
    assert_eq!(decoded.frames[0].data_type, Some(vec![0]));
    assert_eq!(decoded.frames[0].data_len, Some(vec![0, 0, 0, 1]));
    assert_eq!(decoded.frames[0].data, Some(vec![0x11]));
    let entry = registry.remove(&peer(1)).unwrap();
    assert_eq!(entry.stream, 1);
    assert_eq!(entry.data, None);
}

#[test]
fn the_entry_keeps_its_socket_and_no_frame_after_a_complete_frame() {
    let mut registry: ConnectionRegistry<u8> = ConnectionRegistry::new(1000);
    registry.get_or_create(peer(1), 7);
    let wire = encode(1, 1, vec![1, 2]);
    registry.decode(&peer(1), &wire, wire.len()).unwrap();
    assert!(registry.contains(&peer(1)));
    let entry = registry.remove(&peer(1)).unwrap();
    assert_eq!(entry.stream, 7);
    assert_eq!(entry.data, None);
}

#[test]
fn connections_do_not_share_frames() {
    let mut registry: ConnectionRegistry<u8> = ConnectionRegistry::new(1000);
    registry.get_or_create(peer(1), 1);
    registry.get_or_create(peer(2), 2);
    let wire = encode(1, 1, vec![1, 2, 3, 4]);
    assert!(registry.decode(&peer(1), &wire, 7).unwrap().frames.is_empty());
    let other = encode(1, 2, vec![9]);
    let decoded = registry.decode(&peer(2), &other, other.len()).unwrap();
    assert_eq!(decoded.frames.len(), 1);
    assert_eq!(decoded.frames[0].data, Some(vec![9]));
    let rest = wire[7..].to_vec();
    let decoded = registry.decode(&peer(1), &rest, rest.len()).unwrap();
    assert_eq!(decoded.frames.len(), 1);
    assert_eq!(decoded.frames[0].data, Some(vec![1, 2, 3, 4]));
}

#[test]
fn the_registry_applies_its_limit() {
    let mut registry: ConnectionRegistry<u8> = ConnectionRegistry::new(2);
    registry.get_or_create(peer(1), 1);
    let fits = encode(1, 1, vec![1, 2]);
    let decoded = registry.decode(&peer(1), &fits, fits.len()).unwrap();
    assert!(!decoded.violation);
    assert_eq!(decoded.frames.len(), 1);
    let over = encode(1, 1, vec![1, 2, 3]);
    let decoded = registry.decode(&peer(1), &over, over.len()).unwrap();
    assert!(decoded.violation);
    assert!(decoded.frames.is_empty());
    assert_eq!(registry.remove(&peer(1)).unwrap().data, None);
}

#[test]
fn a_cache_entry_hands_out_its_socket() {
    let mut entry = ProtocolCacheData { stream: 5u8, data: None };
    assert_eq!(entry.try_get_read(), Some(&5));
    assert_eq!(entry.try_get_read_stream_by_param(1, 0), Some(&5));
    assert_eq!(entry.try_get_read_stream_by_param(0, 20), None);
    *entry.try_get_mut_stream().unwrap() = 6;
    assert_eq!(entry.stream, 6);
    assert!(entry.try_get_mut_stream_by_param(0, 20).is_none());
    *entry.try_get_mut_stream_by_param(2, 20).unwrap() = 7;
    assert_eq!(entry.stream, 7);
    assert_eq!(entry.data, None);
}

#[test]
fn a_connection_survives_a_read_without_error() {
    assert!(connection_survives(None, false));
    assert!(!connection_survives(None, true));
    assert!(!connection_survives(Some(ErrorKind::UnknownCommand), false));
    assert!(!connection_survives(Some(ErrorKind::ProtocolViolation), false));
    assert!(!connection_survives(Some(ErrorKind::IoError), true));
}

#[test]
fn a_served_read_keeps_the_entry() {
    let mut registry: ConnectionRegistry<u8> = ConnectionRegistry::new(1000);
    registry.get_or_create(peer(1), 1);
    assert!(registry.finish_read(&peer(1), false, 5, None, false));
    assert!(registry.contains(&peer(1)));
}

#[test]
fn a_failed_read_drops_the_entry() {
    for (error, write_failed) in [
        (Some(ErrorKind::UnknownCommand), false),
        (Some(ErrorKind::ProtocolViolation), false),
        (Some(ErrorKind::IoError), false),
        (None, true),
    ] {
        let mut registry: ConnectionRegistry<u8> = ConnectionRegistry::new(1000);
        registry.get_or_create(peer(1), 1);
        registry.get_or_create(peer(2), 2);
        assert!(!registry.finish_read(&peer(1), true, 5, error, write_failed));
        assert!(!registry.contains(&peer(1)));
        assert!(registry.contains(&peer(2)));
    }
}

#[test]
fn an_empty_read_leaves_the_registry_as_it_was() {
    let mut registry: ConnectionRegistry<u8> = ConnectionRegistry::new(1000);
    registry.get_or_create(peer(1), 1);
    assert!(!registry.finish_read(&peer(1), false, 0, None, false));
    assert!(!registry.contains(&peer(1)));
    registry.get_or_create(peer(1), 1);
    assert!(registry.finish_read(&peer(1), true, 0, None, false));
    assert!(registry.contains(&peer(1)));
}
