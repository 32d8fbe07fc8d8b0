use r_chat::base::RchatCommand;
use r_chat::biz_module::BizTypeEnum;
use r_chat::chat_protocol::{
    calculate_len_by_data, transform_array_of_u8_to_u32, ChatCommand, Protocol,
    ProtocolFieldNameEnum, DATA_LEN_SIZE, DATA_TYPE_SIZE, HEAD_SIZE, MAX_DATA_LEN, VERSION_SIZE,
};
use r_chat::errors_define::ErrorKind;

fn frame(version: u8, command: u8, data: Vec<u8>) -> Protocol {
    Protocol {
        version: Some(vec![version]),
        data_type: Some(vec![command]),
        data_len: Some(calculate_len_by_data(&data)),
        data: Some(data),
    }
}

#[test]
fn sizes_of_the_header() {
    assert_eq!(VERSION_SIZE, 1);
    assert_eq!(DATA_TYPE_SIZE, 1);
    assert_eq!(DATA_LEN_SIZE, 4);
    assert_eq!(HEAD_SIZE, 6);
    assert_eq!(MAX_DATA_LEN, 4294967295);
}

#[test]
fn length_field_is_big_endian() {
    assert_eq!(calculate_len_by_data(&vec![]), vec![0, 0, 0, 0]);
    assert_eq!(calculate_len_by_data(&vec![7]), vec![0, 0, 0, 1]);
    assert_eq!(calculate_len_by_data(&vec![0; 258]), vec![0, 0, 1, 2]);
    assert_eq!(calculate_len_by_data(&vec![0; 65536 + 3 * 256 + 4]), vec![0, 1, 3, 4]);
    assert_eq!(calculate_len_by_data(&vec![0; 0x0100_0000]), vec![1, 0, 0, 0]);
}

#[test]
fn four_bytes_are_read_big_endian() {
    assert_eq!(transform_array_of_u8_to_u32([0, 0, 0, 0]), 0);
    assert_eq!(transform_array_of_u8_to_u32([0, 0, 1, 2]), 258);
    assert_eq!(transform_array_of_u8_to_u32([1, 2, 3, 4]), 0x0102_0304);
    assert_eq!(transform_array_of_u8_to_u32([0xFF, 0xFF, 0xFF, 0xFF]), u32::MAX);
    assert_eq!(transform_array_of_u8_to_u32([0x80, 0, 0, 0]), 0x8000_0000);
}

#[test]
fn length_field_reads_back() {
    for n in [0usize, 1, 255, 256, 257, 65535, 65536, 70000] {
        let field = calculate_len_by_data(&vec![0; n]);
        let value = transform_array_of_u8_to_u32([field[0], field[1], field[2], field[3]]);
        assert_eq!(value as usize, n);
    }
}

#[test]
fn fresh_frame_holds_nothing() {
    let pkg = Protocol::create_new();
    assert_eq!(pkg.version, None);
    assert_eq!(pkg.data_type, None);
    assert_eq!(pkg.data_len, None);
    assert_eq!(pkg.data, None);
    assert!(!pkg.completion());
}

#[test]
fn field_names_come_in_wire_order() {
    assert_eq!(
        Protocol::get_all_filed_name(),
        [
            ProtocolFieldNameEnum::version,
            ProtocolFieldNameEnum::data_type,
            ProtocolFieldNameEnum::data_len,
            ProtocolFieldNameEnum::data,
        ]
    );
}

#[test]
fn fixed_fields_have_fixed_sizes() {
    let pkg = Protocol::create_new();
    assert_eq!(pkg.get_field_usize(&ProtocolFieldNameEnum::version), Ok(1));
    assert_eq!(pkg.get_field_usize(&ProtocolFieldNameEnum::data_type), Ok(1));
    assert_eq!(pkg.get_field_usize(&ProtocolFieldNameEnum::data_len), Ok(4));
    assert_eq!(pkg.get_field_usize(&ProtocolFieldNameEnum::source_id), Ok(8));
    assert_eq!(pkg.get_field_usize(&ProtocolFieldNameEnum::target_id), Ok(8));
}

#[test]
fn payload_has_no_size_before_the_length_is_complete() {
    let mut pkg = Protocol::create_new();
    assert_eq!(
        pkg.get_field_usize(&ProtocolFieldNameEnum::data),
        Err(ErrorKind::ProtocolViolation)
    );
    assert_eq!(pkg.get_diff_size(&ProtocolFieldNameEnum::data), Err(ErrorKind::ProtocolViolation));
    pkg.fill_field(&ProtocolFieldNameEnum::version, vec![1]);
    pkg.fill_field(&ProtocolFieldNameEnum::data_type, vec![1]);
    pkg.fill_field(&ProtocolFieldNameEnum::data_len, vec![0, 0, 1]);
    assert_eq!(
        pkg.get_field_usize(&ProtocolFieldNameEnum::data),
        Err(ErrorKind::ProtocolViolation)
    );
    assert!(!pkg.check_field_fill(&ProtocolFieldNameEnum::data));
    pkg.fill_field(&ProtocolFieldNameEnum::data_len, vec![2]);
    assert_eq!(pkg.get_field_usize(&ProtocolFieldNameEnum::data), Ok(258));
    assert_eq!(pkg.get_diff_size(&ProtocolFieldNameEnum::data), Ok(258));
}

#[test]
fn payload_size_is_what_the_length_field_says() {
    let mut pkg = Protocol::create_new();
    pkg.data_len = Some(vec![0xFF, 0xFF, 0xFF, 0xFF]);
    if usize::BITS >= 64 {
        assert_eq!(pkg.get_field_usize(&ProtocolFieldNameEnum::data), Ok(4294967295));
    }
    pkg.data_len = Some(vec![0, 0, 0, 0]);
    assert_eq!(pkg.get_field_usize(&ProtocolFieldNameEnum::data), Ok(0));
    pkg.data_len = Some(vec![0, 0, 0, 0, 0]);
    assert_eq!(
        pkg.get_field_usize(&ProtocolFieldNameEnum::data),
        Err(ErrorKind::ProtocolViolation)
    );
}

#[test]
fn lacking_bytes_are_counted() {
    let mut pkg = Protocol::create_new();
    assert_eq!(pkg.get_diff_size(&ProtocolFieldNameEnum::version), Ok(1));
    assert_eq!(pkg.get_diff_size(&ProtocolFieldNameEnum::data_len), Ok(4));
    pkg.fill_field(&ProtocolFieldNameEnum::data_len, vec![0, 0, 0]);
    assert_eq!(pkg.get_diff_size(&ProtocolFieldNameEnum::data_len), Ok(1));
    pkg.fill_field(&ProtocolFieldNameEnum::data_len, vec![5]);
    assert_eq!(pkg.get_diff_size(&ProtocolFieldNameEnum::data_len), Ok(0));
    assert_eq!(pkg.get_diff_size(&ProtocolFieldNameEnum::data), Ok(5));
    pkg.fill_field(&ProtocolFieldNameEnum::data, vec![9, 9]);
    assert_eq!(pkg.get_diff_size(&ProtocolFieldNameEnum::data), Ok(3));
}

#[test]
fn a_field_that_holds_too_much_lacks_nothing_countable() {
    let mut pkg = Protocol::create_new();
    pkg.version = Some(vec![1, 2]);
    assert_eq!(
        pkg.get_diff_size(&ProtocolFieldNameEnum::version),
        Err(ErrorKind::ProtocolViolation)
    );
    assert!(!pkg.check_field_fill(&ProtocolFieldNameEnum::version));
}

#[test]
fn a_field_is_filled_when_it_holds_its_size() {
    let mut pkg = Protocol::create_new();
    assert!(!pkg.check_field_fill(&ProtocolFieldNameEnum::version));
    pkg.fill_field(&ProtocolFieldNameEnum::version, vec![1]);
    assert!(pkg.check_field_fill(&ProtocolFieldNameEnum::version));
    assert!(!pkg.check_field_fill(&ProtocolFieldNameEnum::data_len));
    pkg.fill_field(&ProtocolFieldNameEnum::data_len, vec![0, 0, 0, 2]);
    assert!(pkg.check_field_fill(&ProtocolFieldNameEnum::data_len));
    assert!(!pkg.check_field_fill(&ProtocolFieldNameEnum::data));
    pkg.fill_field(&ProtocolFieldNameEnum::data, vec![1, 2]);
    assert!(pkg.check_field_fill(&ProtocolFieldNameEnum::data));
}

#[test]
fn an_empty_payload_is_filled_once_its_accumulator_is_there() {
    let mut pkg = Protocol::create_new();
    pkg.fill_field(&ProtocolFieldNameEnum::version, vec![1]);
    pkg.fill_field(&ProtocolFieldNameEnum::data_type, vec![0]);
    assert!(!pkg.completion());
    pkg.fill_field(&ProtocolFieldNameEnum::data_len, vec![0, 0, 0, 0]);
    assert!(!pkg.check_field_fill(&ProtocolFieldNameEnum::data));
    assert!(!pkg.completion());
    pkg.fill_field(&ProtocolFieldNameEnum::data, vec![]);
    assert!(pkg.check_field_fill(&ProtocolFieldNameEnum::data));
    assert!(pkg.completion());
    assert_eq!(pkg.to_vec(), vec![1, 0, 0, 0, 0, 0]);
}

#[test]
fn fill_field_starts_and_extends_a_field() {
    let mut pkg = Protocol::create_new();
    pkg.fill_field(&ProtocolFieldNameEnum::data, vec![]);
    assert_eq!(pkg.data, Some(vec![]));
    pkg.fill_field(&ProtocolFieldNameEnum::data, vec![1, 2]);
    pkg.fill_field(&ProtocolFieldNameEnum::data, vec![3]);
    assert_eq!(pkg.data, Some(vec![1, 2, 3]));
    assert_eq!(pkg.version, None);
    assert_eq!(pkg.data_type, None);
    assert_eq!(pkg.data_len, None);
    pkg.fill_field(&ProtocolFieldNameEnum::version, vec![4]);
    pkg.fill_field(&ProtocolFieldNameEnum::data_type, vec![5]);
    pkg.fill_field(&ProtocolFieldNameEnum::data_len, vec![6]);
    assert_eq!(pkg.version, Some(vec![4]));
    assert_eq!(pkg.data_type, Some(vec![5]));
    assert_eq!(pkg.data_len, Some(vec![6]));
    assert_eq!(pkg.data, Some(vec![1, 2, 3]));
}

#[test]
fn get_field_gives_the_named_field() {
    let pkg = frame(1, 2, vec![7, 8, 9]);
    assert_eq!(pkg.get_field(&ProtocolFieldNameEnum::version), Some(&vec![1]));
    assert_eq!(pkg.get_field(&ProtocolFieldNameEnum::data_type), Some(&vec![2]));
    assert_eq!(pkg.get_field(&ProtocolFieldNameEnum::data_len), Some(&vec![0, 0, 0, 3]));
    assert_eq!(pkg.get_field(&ProtocolFieldNameEnum::data), Some(&vec![7, 8, 9]));
    let fresh = Protocol::create_new();
    assert_eq!(fresh.get_field(&ProtocolFieldNameEnum::version), None);
    assert_eq!(fresh.get_field(&ProtocolFieldNameEnum::data), None);
}

#[test]
fn get_field_mut_writes_through() {
    let mut pkg = frame(1, 2, vec![7, 8, 9]);
    pkg.get_field_mut(&ProtocolFieldNameEnum::data).unwrap().push(10);
    assert_eq!(pkg.data, Some(vec![7, 8, 9, 10]));
    pkg.get_field_mut(&ProtocolFieldNameEnum::version).unwrap()[0] = 3;
    assert_eq!(pkg.version, Some(vec![3]));
    assert_eq!(pkg.data_type, Some(vec![2]));
    let mut fresh = Protocol::create_new();
    assert!(fresh.get_field_mut(&ProtocolFieldNameEnum::data_len).is_none());
}

#[test]
fn complete_means_all_four_fields_hold_their_size() {
    let pkg = frame(1, 1, vec![1, 2, 3]);
    assert!(pkg.completion());
    let mut short = frame(1, 1, vec![1, 2, 3]);
    short.data = Some(vec![1, 2]);
    assert!(!short.completion());
    let mut long = frame(1, 1, vec![1, 2, 3]);
    long.data = Some(vec![1, 2, 3, 4]);
    assert!(!long.completion());
    let mut headless = frame(1, 1, vec![]);
    headless.version = None;
    assert!(!headless.completion());
    let mut typeless = frame(1, 1, vec![]);
    typeless.data_type = Some(vec![]);
    assert!(!typeless.completion());
    let empty = frame(1, 1, vec![]);
    assert!(empty.completion());
    assert!(empty.check_field_fill(&ProtocolFieldNameEnum::data));
    let mut absent = frame(1, 1, vec![]);
    absent.data = None;
    assert!(!absent.completion());
    assert!(!absent.check_field_fill(&ProtocolFieldNameEnum::data));
}

#[test]
fn an_absent_field_is_not_filled() {
    let pkg = Protocol::create_new();
    for name in Protocol::get_all_filed_name() {
        assert!(!pkg.check_field_fill(&name));
    }
    let mut pkg = frame(1, 1, vec![7]);
    pkg.version = None;
    assert!(!pkg.check_field_fill(&ProtocolFieldNameEnum::version));
    assert!(pkg.check_field_fill(&ProtocolFieldNameEnum::data_type));
    assert!(pkg.check_field_fill(&ProtocolFieldNameEnum::data_len));
    assert!(pkg.check_field_fill(&ProtocolFieldNameEnum::data));
}

#[test]
fn to_vec_writes_the_fields_in_wire_order() {
    let mut pkg = frame(1, 2, vec![0xAA, 0xBB, 0xCC]);
    assert_eq!(pkg.to_vec(), vec![1, 2, 0, 0, 0, 3, 0xAA, 0xBB, 0xCC]);
}

#[test]
fn to_vec_moves_the_bytes_out() {
    let mut pkg = frame(1, 2, vec![0xAA]);
    let _ = pkg.to_vec();
    assert_eq!(pkg.version, Some(vec![]));
    assert_eq!(pkg.data_type, Some(vec![]));
    assert_eq!(pkg.data_len, Some(vec![]));
    assert_eq!(pkg.data, Some(vec![]));
    assert_eq!(pkg.to_vec(), Vec::<u8>::new());
}

#[test]
fn to_vec_writes_a_frame_without_payload_as_its_header() {
    let mut pkg = frame(1, 0, vec![]);
    assert_eq!(pkg.to_vec(), vec![1, 0, 0, 0, 0, 0]);
    assert_eq!(pkg.data, Some(vec![]));
}

#[test]
fn the_length_field_is_read_once_it_is_complete() {
    let mut pkg = Protocol::create_new();
    assert_eq!(pkg.calculate_data_len(), Err(ErrorKind::ProtocolViolation));
    pkg.data_len = Some(vec![]);
    assert_eq!(pkg.calculate_data_len(), Err(ErrorKind::ProtocolViolation));
    pkg.data_len = Some(vec![0, 0, 1]);
    assert_eq!(pkg.calculate_data_len(), Err(ErrorKind::ProtocolViolation));
    pkg.data_len = Some(vec![0, 0, 1, 2]);
    assert_eq!(pkg.calculate_data_len(), Ok(258));
    pkg.data_len = Some(vec![0, 0, 0, 0]);
    assert_eq!(pkg.calculate_data_len(), Ok(0));
    pkg.data_len = Some(vec![0, 0, 1, 2, 3]);
    assert_eq!(pkg.calculate_data_len(), Err(ErrorKind::ProtocolViolation));
}

#[test]
fn commands_travel_as_their_ordinal() {
    assert_eq!(RchatCommand::Login.to_data_type(), vec![0]);
    assert_eq!(RchatCommand::Chat.to_data_type(), vec![1]);
    assert_eq!(RchatCommand::P2p.to_data_type(), vec![2]);
    assert_eq!(RchatCommand::Start.to_data_type(), vec![3]);
    assert_eq!(RchatCommand::Test.to_data_type(), vec![4]);
    assert_eq!(RchatCommand::to_self(0), RchatCommand::Login);
    assert_eq!(RchatCommand::to_self(1), RchatCommand::Chat);
    assert_eq!(RchatCommand::to_self(2), RchatCommand::P2p);
    assert_eq!(RchatCommand::to_self(3), RchatCommand::Start);
    assert_eq!(RchatCommand::to_self(4), RchatCommand::Test);
}

#[test]
fn first_version_commands_travel_as_their_ordinal() {
    assert_eq!(ChatCommand::Login_req.to_data_type(), vec![0]);
    assert_eq!(ChatCommand::Login_resp.to_data_type(), vec![1]);
    assert_eq!(ChatCommand::Chat.to_data_type(), vec![2]);
    assert_eq!(ChatCommand::P2p.to_data_type(), vec![3]);
    assert_eq!(ChatCommand::to_self(0), ChatCommand::Login_req);
    assert_eq!(ChatCommand::to_self(1), ChatCommand::Login_resp);
    assert_eq!(ChatCommand::to_self(2), ChatCommand::Chat);
    assert_eq!(ChatCommand::to_self(3), ChatCommand::P2p);
}

#[test]
fn business_types_travel_as_their_ordinal() {
    assert_eq!(BizTypeEnum::Login.to_data_type(), vec![0]);
    assert_eq!(BizTypeEnum::Chat.to_data_type(), vec![1]);
    assert_eq!(BizTypeEnum::P2p.to_data_type(), vec![2]);
    assert_eq!(BizTypeEnum::to_self(0), BizTypeEnum::Login);
    assert_eq!(BizTypeEnum::to_self(1), BizTypeEnum::Chat);
    assert_eq!(BizTypeEnum::to_self(2), BizTypeEnum::P2p);
}

#[test]
fn commands_have_names() {
    assert_eq!(RchatCommand::from_string("start"), RchatCommand::Start);
    assert_eq!(RchatCommand::from_string("login"), RchatCommand::Login);
    assert_eq!(RchatCommand::from_string("p2p"), RchatCommand::P2p);
    assert_eq!(RchatCommand::from_string("chat"), RchatCommand::Chat);
}
