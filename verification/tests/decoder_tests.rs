use r_chat::base::RchatCommand;
use r_chat::chat_module::{ChatContent, ChatData, ChatFileContent, ChatTextContent};
use r_chat::chat_protocol::{calculate_len_by_data, Protocol};
use r_chat::decoder::{decode_buffer, fill};

type ChatContentWire = Result<String, (String, Option<String>, Option<Vec<u8>>)>;
type ChatDataWire = (String, String, Vec<ChatContentWire>, u32);

fn encode(version: u8, command: u8, data: Vec<u8>) -> Vec<u8> {
    let mut pkg = Protocol {
        version: Some(vec![version]),
        data_type: Some(vec![command]),
        data_len: Some(calculate_len_by_data(&data)),
        data: Some(data),
    };
    pkg.to_vec()
}

fn feed_in_chunks(wire: &Vec<u8>, chunk: usize) -> Protocol {
    let mut pkg = Protocol::create_new();
    let mut start = 0;
    while start < wire.len() {
        let end = std::cmp::min(start + chunk, wire.len());
        let piece = wire[start..end].to_vec();
        let next = fill(&mut pkg, &piece, 0, piece.len());
        assert_eq!(next, piece.len());
        start = end;
    }
    pkg
}

fn chat_to_wire(chat: &ChatData) -> ChatDataWire {
    let contents = chat
        .contents
        .iter()
        .map(|c| match c {
            ChatContent::Text(t) => Ok(t.text.clone()),
            ChatContent::File(f) => Err((f.file_name.clone(), f.url.clone(), f.data.clone())),
        })
        .collect();
    (chat.from_account.clone(), chat.to_account.clone(), contents, chat.time)
}

fn chat_from_wire(wire: ChatDataWire) -> ChatData {
    let contents = wire
        .2
        .into_iter()
        .map(|c| match c {
            Ok(text) => ChatContent::Text(ChatTextContent { text }),
            Err((file_name, url, data)) => {
                ChatContent::File(ChatFileContent { file_name, url, data })
            }
        })
        .collect();
    ChatData { from_account: wire.0, to_account: wire.1, contents, time: wire.3 }
}

#[test]
fn round_trip_of_a_frame() {
    let wire = encode(1, 1, vec![10, 20, 30, 40, 50]);
    assert_eq!(wire, vec![1, 1, 0, 0, 0, 5, 10, 20, 30, 40, 50]);
    let mut pkg = Protocol::create_new();
    let next = fill(&mut pkg, &wire, 0, wire.len());
    assert_eq!(next, 11);
    assert!(pkg.completion());
    assert_eq!(pkg.version, Some(vec![1]));
    assert_eq!(pkg.data_type, Some(vec![1]));
    assert_eq!(pkg.data_len, Some(vec![0, 0, 0, 5]));
    assert_eq!(pkg.data, Some(vec![10, 20, 30, 40, 50]));
    assert_eq!(pkg.to_vec(), wire);
}

#[test]
fn round_trip_of_frames_of_many_sizes() {
    for n in [0usize, 1, 2, 5, 127, 128, 129, 255, 256, 1000, 70000] {
        let data: Vec<u8> = (0..n).map(|i| (i % 251) as u8).collect();
        let wire = encode(7, 2, data.clone());
        assert_eq!(wire.len(), 6 + n);
        let mut pkg = Protocol::create_new();
        let next = fill(&mut pkg, &wire, 0, wire.len());
        assert_eq!(next, wire.len());
        assert!(pkg.completion());
        assert_eq!(pkg.version, Some(vec![7]));
        assert_eq!(pkg.data_type, Some(vec![2]));
        assert_eq!(pkg.data_len, Some(calculate_len_by_data(&data)));
        assert_eq!(pkg.data, Some(data));
    }
}

#[test]
fn round_trip_gives_the_frame_that_was_sent() {
    for data in [vec![], vec![0], vec![1, 2, 3], vec![9; 300]] {
        let sent = Protocol {
            version: Some(vec![4]),
            data_type: Some(vec![1]),
            data_len: Some(calculate_len_by_data(&data)),
            data: Some(data),
        };
        assert!(sent.completion());
        let wire = sent.clone().to_vec();
        let mut got = Protocol::create_new();
        assert_eq!(fill(&mut got, &wire, 0, wire.len()), wire.len());
        assert!(got.completion());
        assert_eq!(got, sent);
        for chunk in [1usize, 2, 5, 6, 7] {
            assert_eq!(feed_in_chunks(&wire, chunk), sent);
        }
    }
}

#[test]
fn two_frames_without_payload_come_back_as_sent() {
    let first = Protocol {
        version: Some(vec![1]),
        data_type: Some(vec![0]),
        data_len: Some(vec![0, 0, 0, 0]),
        data: Some(vec![]),
    };
    let second = Protocol {
        version: Some(vec![2]),
        data_type: Some(vec![1]),
        data_len: Some(vec![0, 0, 0, 0]),
        data: Some(vec![]),
    };
    let mut wire = first.clone().to_vec();
    wire.extend(second.clone().to_vec());
    let mut p1 = Protocol::create_new();
    let k = fill(&mut p1, &wire, 0, wire.len());
    assert_eq!(k, 6);
    assert_eq!(p1, first);
    let mut p2 = Protocol::create_new();
    assert_eq!(fill(&mut p2, &wire, k, wire.len()), wire.len());
    assert_eq!(p2, second);
    let mut pending = None;
    let decoded = decode_buffer(&mut pending, &wire, wire.len(), u32::MAX);
    assert_eq!(decoded.frames, vec![first, second]);
    assert_eq!(pending, None);
}

#[test]
fn the_payload_is_started_when_the_length_is_complete() {
    let wire = encode(1, 0, vec![1, 2, 3]);
    let mut pkg = Protocol::create_new();
    assert_eq!(fill(&mut pkg, &wire, 0, 5), 5);
    assert_eq!(pkg.data_len, Some(vec![0, 0, 0]));
    assert_eq!(pkg.data, None);
    assert_eq!(fill(&mut pkg, &wire, 5, 6), 6);
    assert_eq!(pkg.data_len, Some(vec![0, 0, 0, 3]));
    assert_eq!(pkg.data, Some(vec![]));
    assert!(!pkg.completion());
    assert_eq!(fill(&mut pkg, &wire, 6, 9), 9);
    assert_eq!(pkg.data, Some(vec![1, 2, 3]));
    assert!(pkg.completion());
}

#[test]
fn chunks_of_any_size_give_the_same_frame() {
    let data: Vec<u8> = (0..300).map(|i| (i % 256) as u8).collect();
    let wire = encode(1, 2, data);
    let mut whole = Protocol::create_new();
    assert_eq!(fill(&mut whole, &wire, 0, wire.len()), wire.len());
    for chunk in [1usize, 2, 3, 4, 5, 6, 7, 64, 128, 305, 306, 400] {
        let pkg = feed_in_chunks(&wire, chunk);
        assert!(pkg.completion());
        assert_eq!(pkg, whole);
    }
}

#[test]
fn fill_takes_no_more_than_one_frame() {
    let mut wire = encode(1, 0, vec![1, 2, 3]);
    wire.extend(encode(1, 1, vec![4, 5]));
    let mut pkg = Protocol::create_new();
    let next = fill(&mut pkg, &wire, 0, wire.len());
    assert_eq!(next, 9);
    assert!(pkg.completion());
    assert_eq!(pkg.data, Some(vec![1, 2, 3]));
    let again = fill(&mut pkg, &wire, next, wire.len());
    assert_eq!(again, 9);
    assert_eq!(pkg.data, Some(vec![1, 2, 3]));
    let mut second = Protocol::create_new();
    let end = fill(&mut second, &wire, next, wire.len());
    assert_eq!(end, 17);
    assert_eq!(second.data_type, Some(vec![1]));
    assert_eq!(second.data, Some(vec![4, 5]));
}

#[test]
fn fill_stops_where_the_buffer_ends() {
    let wire = encode(1, 0, vec![1, 2, 3, 4]);
    let mut pkg = Protocol::create_new();
    assert_eq!(fill(&mut pkg, &wire, 0, 1), 1);
    assert_eq!(pkg.version, Some(vec![1]));
    assert_eq!(pkg.data_type, None);
    assert_eq!(fill(&mut pkg, &wire, 1, 4), 4);
    assert_eq!(pkg.data_type, Some(vec![0]));
    assert_eq!(pkg.data_len, Some(vec![0, 0]));
    assert_eq!(pkg.data, None);
    assert!(!pkg.completion());
    assert_eq!(fill(&mut pkg, &wire, 4, 8), 8);
    assert_eq!(pkg.data_len, Some(vec![0, 0, 0, 4]));
    assert_eq!(pkg.data, Some(vec![1, 2]));
    assert!(!pkg.completion());
    assert_eq!(fill(&mut pkg, &wire, 8, 10), 10);
    assert_eq!(pkg.data, Some(vec![1, 2, 3, 4]));
    assert!(pkg.completion());
}

#[test]
fn fill_reads_only_before_total_len() {
    let buffer = vec![1, 0, 0, 0, 0, 2, 9, 9, 9, 9];
    let mut pkg = Protocol::create_new();
    assert_eq!(fill(&mut pkg, &buffer, 0, 7), 7);
    assert_eq!(pkg.data, Some(vec![9]));
    assert!(!pkg.completion());
}

#[test]
fn fill_from_the_end_of_the_buffer_does_nothing() {
    let buffer = vec![1, 0, 0, 0, 0, 2, 9, 9];
    let mut pkg = Protocol::create_new();
    assert_eq!(fill(&mut pkg, &buffer, 8, 8), 8);
    assert_eq!(pkg, Protocol::create_new());
    assert_eq!(fill(&mut pkg, &buffer, 5, 3), 5);
    assert_eq!(pkg, Protocol::create_new());
    assert_eq!(fill(&mut pkg, &buffer, 0, 0), 0);
    assert_eq!(pkg, Protocol::create_new());
}

#[test]
fn a_frame_without_payload_is_complete_after_its_header() {
    let buffer = vec![1, 2, 0, 0, 0, 0, 1, 2, 0, 0, 0, 0];
    let mut pkg = Protocol::create_new();
    assert_eq!(fill(&mut pkg, &buffer, 0, buffer.len()), 6);
    assert!(pkg.completion());
    assert_eq!(pkg.data, Some(vec![]));
    assert_eq!(pkg.to_vec(), vec![1, 2, 0, 0, 0, 0]);
}

#[test]
fn a_huge_length_without_payload_leaves_the_frame_incomplete() {
    let buffer = vec![1, 1, 0xFF, 0xFF, 0xFF, 0xFF];
    let mut pkg = Protocol::create_new();
    assert_eq!(fill(&mut pkg, &buffer, 0, buffer.len()), 6);
    assert!(!pkg.completion());
    assert_eq!(pkg.data_len, Some(vec![0xFF, 0xFF, 0xFF, 0xFF]));
    assert_eq!(pkg.data, Some(vec![]));
}

#[test]
fn a_huge_length_is_a_violation_for_the_buffer_decoder() {
    let buffer = vec![1, 1, 0xFF, 0xFF, 0xFF, 0xFF];
    let mut pending = None;
    let decoded = decode_buffer(&mut pending, &buffer, buffer.len(), 4 * 1024 * 1024);
    assert!(decoded.violation);
    assert!(decoded.frames.is_empty());
    assert_eq!(pending, None);
}

#[test]
fn the_limit_is_the_largest_payload_that_passes() {
    let mut at_limit = vec![1, 1, 0, 0, 0, 3, 7, 7, 7];
    let mut pending = None;
    let decoded = decode_buffer(&mut pending, &at_limit, at_limit.len(), 3);
    assert!(!decoded.violation);
    assert_eq!(decoded.frames.len(), 1);
    assert_eq!(decoded.frames[0].data, Some(vec![7, 7, 7]));
    at_limit[5] = 4;
    let decoded = decode_buffer(&mut pending, &at_limit, at_limit.len(), 3);
    assert!(decoded.violation);
    assert!(decoded.frames.is_empty());
}

#[test]
fn frames_before_a_violation_are_handed_on() {
    let mut buffer = encode(1, 0, vec![5, 6]);
    buffer.extend(vec![1, 1, 0, 0, 1, 0]);
    buffer.extend(vec![0; 10]);
    let mut pending = None;
    let decoded = decode_buffer(&mut pending, &buffer, buffer.len(), 255);
    assert!(decoded.violation);
    assert_eq!(decoded.frames.len(), 1);
    assert_eq!(decoded.frames[0].data, Some(vec![5, 6]));
    assert_eq!(pending, None);
}

#[test]
fn two_frames_in_one_buffer_come_out_in_order() {
    let mut buffer = encode(1, 0, vec![1, 2, 3]);
    buffer.extend(encode(1, 1, vec![4, 5]));
    let mut pending = None;
    let decoded = decode_buffer(&mut pending, &buffer, buffer.len(), u32::MAX);
    assert!(!decoded.violation);
    assert_eq!(decoded.frames.len(), 2);
    assert_eq!(decoded.frames[0].data_type, Some(vec![0]));
    assert_eq!(decoded.frames[0].data, Some(vec![1, 2, 3]));
    assert_eq!(decoded.frames[1].data_type, Some(vec![1]));
    assert_eq!(decoded.frames[1].data, Some(vec![4, 5]));
    assert!(decoded.frames[0].completion());
    assert!(decoded.frames[1].completion());
    assert_eq!(pending, None);
}

#[test]
fn the_start_of_the_next_frame_stays_pending() {
    let mut buffer = encode(1, 0, vec![1, 2, 3]);
    buffer.extend(vec![1, 1, 0, 0]);
    let mut pending = None;
    let decoded = decode_buffer(&mut pending, &buffer, buffer.len(), u32::MAX);
    assert_eq!(decoded.frames.len(), 1);
    let held = pending.clone().unwrap();
    assert_eq!(held.version, Some(vec![1]));
    assert_eq!(held.data_type, Some(vec![1]));
    assert_eq!(held.data_len, Some(vec![0, 0]));
    assert_eq!(held.data, None);
    let rest = vec![0, 2, 8, 9, 1];
    let decoded = decode_buffer(&mut pending, &rest, rest.len(), u32::MAX);
    assert_eq!(decoded.frames.len(), 1);
    assert_eq!(decoded.frames[0].data, Some(vec![8, 9]));
    let held = pending.unwrap();
    assert_eq!(held.version, Some(vec![1]));
    assert_eq!(held.data_type, None);
}

#[test]
fn a_stream_in_chunks_gives_the_frames_of_the_whole_stream() {
    let mut stream = Vec::new();
    let mut expected = Vec::new();
    for (i, n) in [3usize, 0, 17, 1, 200, 0, 5].iter().enumerate() {
        let data: Vec<u8> = (0..*n).map(|k| (k + i) as u8).collect();
        stream.extend(encode(1, (i % 3) as u8, data.clone()));
        expected.push(((i % 3) as u8, data));
    }
    for chunk in [1usize, 2, 3, 5, 6, 7, 13, 128, 1000] {
        let mut pending = None;
        let mut frames = Vec::new();
        let mut start = 0;
        while start < stream.len() {
            let end = std::cmp::min(start + chunk, stream.len());
            let piece = stream[start..end].to_vec();
            let decoded = decode_buffer(&mut pending, &piece, piece.len(), u32::MAX);
            assert!(!decoded.violation);
            frames.extend(decoded.frames);
            start = end;
        }
        assert_eq!(pending, None);
        assert_eq!(frames.len(), expected.len());
        for (frame, (command, data)) in frames.iter().zip(expected.iter()) {
            assert_eq!(frame.data_type, Some(vec![*command]));
            assert_eq!(frame.data, Some(data.clone()));
        }
    }
}

#[test]
fn an_empty_read_changes_nothing() {
    let mut pending = None;
    let decoded = decode_buffer(&mut pending, &vec![0; 128], 0, u32::MAX);
    assert!(decoded.frames.is_empty());
    assert!(!decoded.violation);
    assert_eq!(pending, None);
    let mut pending = Some(Protocol::create_new());
    let decoded = decode_buffer(&mut pending, &vec![], 0, u32::MAX);
    assert!(decoded.frames.is_empty());
    assert_eq!(pending, None);
}

#[test]
fn a_chat_message_survives_chunks_of_three_bytes() {
    let message = ChatData {
        from_account: "1".to_string(),
        to_account: "2".to_string(),
        contents: vec![ChatContent::Text(ChatTextContent { text: "hello".to_string() })],
        time: 0,
    };
    let payload = bincode::serialize(&chat_to_wire(&message)).unwrap();
    let by_hand: Vec<u8> = vec![
        1, 0, 0, 0, 0, 0, 0, 0, b'1', 1, 0, 0, 0, 0, 0, 0, 0, b'2', 1, 0, 0, 0, 0, 0, 0, 0, 0, 0,
        0, 0, 5, 0, 0, 0, 0, 0, 0, 0, b'h', b'e', b'l', b'l', b'o', 0, 0, 0, 0,
    ];
    assert_eq!(payload, by_hand);
    let mut pkg = Protocol {
        version: Some(vec![1]),
        data_type: Some(RchatCommand::Chat.to_data_type()),
        data_len: Some(calculate_len_by_data(&payload)),
        data: Some(payload),
    };
    let wire = pkg.to_vec();
    assert_eq!(wire[0], 1);
    assert_eq!(wire[1], 1);
    assert_eq!(wire[2..6], [0, 0, 0, 47]);
    let decoded = feed_in_chunks(&wire, 3);
    assert!(decoded.completion());
    let back: ChatDataWire = bincode::deserialize(&decoded.data.unwrap()).unwrap();
    assert_eq!(chat_from_wire(back), message);
}

fn get_chat_vec() -> Vec<u8> {
    bincode::serialize(&chat_to_wire(&r_chat::chat_module::get_chat_data())).unwrap()
}

#[test]
fn test_send_msg() {
    let version = "1".as_bytes().to_vec();
    let data_type = r_chat::chat_protocol::ChatCommand::Chat.to_data_type();
    let data = get_chat_vec();
    let len = calculate_len_by_data(&data);
    let mut protocol = Protocol {
        version: Some(version),
        data_type: Some(data_type),
        data_len: Some(len),
        data: Some(data.clone()),
    };
    let wire = protocol.to_vec();
    assert_eq!(wire.len(), 6 + data.len());
    assert_eq!(wire[0], b'1');
    assert_eq!(wire[1], 2);
    assert_eq!(wire[2..6], [0, 0, 0, data.len() as u8]);
    assert_eq!(wire[6..], data[..]);
}

#[test]
fn unit_test_test_send_msg() {
    let version = "1".as_bytes().to_vec();
    let data_type = RchatCommand::Chat.to_data_type();
    let data = get_chat_vec();
    let len = calculate_len_by_data(&data);
    let mut protocol = Protocol {
        version: Some(version),
        data_type: Some(data_type),
        data_len: Some(len),
        data: Some(data.clone()),
    };
    let wire = protocol.to_vec();
    let mut pending = None;
    let decoded = decode_buffer(&mut pending, &wire, wire.len(), u32::MAX);
    assert_eq!(decoded.frames.len(), 1);
    assert_eq!(decoded.frames[0].data_type, Some(vec![1]));
    let back: ChatDataWire = bincode::deserialize(decoded.frames[0].data.as_ref().unwrap()).unwrap();
    assert_eq!(chat_from_wire(back), r_chat::chat_module::get_chat_data());
}
