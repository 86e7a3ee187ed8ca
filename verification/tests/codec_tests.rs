use memoriz::codec::{encode_board, encode_entry, encode_key};
use memoriz::entities::board::Board;
use memoriz::entities::entry::Entry;
use memoriz::entities::ident::Uuid;

#[test]
fn board_encoding_is_exact() {
    let board = Board::new(
        Some(Uuid::new(1)),
        "A".to_string(),
        None,
        None,
        Some(2),
        None,
        None,
    );
    let mut expected: Vec<u8> = Vec::new();
    expected.push(1); // uuid present
    expected.extend_from_slice(&1u128.to_le_bytes());
    expected.extend_from_slice(&1u64.to_le_bytes()); // title length
    expected.push(b'A');
    expected.push(0); // data absent
    expected.push(0); // color absent
    expected.push(1); // created_on present
    expected.extend_from_slice(&2u64.to_le_bytes());
    expected.push(0); // updated_on absent
    expected.push(0); // owner absent
    assert_eq!(encode_board(&board), expected);
}

#[test]
fn entry_encoding_is_exact() {
    let entry = Entry::new(
        5,
        None,
        "hi".to_string(),
        Some("x".to_string()),
        None,
        None,
        true,
        None,
        Some(9),
        Some(Uuid::new(3)),
        None,
        None,
    );
    let mut expected: Vec<u8> = Vec::new();
    expected.extend_from_slice(&5u32.to_le_bytes()); // id
    expected.push(0); // uuid absent
    expected.extend_from_slice(&2u64.to_le_bytes()); // title length
    expected.extend_from_slice(b"hi");
    expected.push(1); // content present
    expected.extend_from_slice(&1u64.to_le_bytes());
    expected.push(b'x');
    expected.push(0); // data absent
    expected.push(0); // color absent
    expected.push(1); // archived
    expected.push(0); // created_on absent
    expected.push(1); // updated_on present
    expected.extend_from_slice(&9u64.to_le_bytes());
    expected.push(1); // owner present
    expected.extend_from_slice(&3u128.to_le_bytes());
    expected.push(0); // board absent
    assert_eq!(encode_entry(&entry), expected);
}

#[test]
fn negative_timestamps_wrap_to_their_two_complement_bytes() {
    let entry = Entry::new(
        -1,
        None,
        String::new(),
        None,
        None,
        None,
        false,
        Some(-2),
        None,
        None,
        None,
        None,
    );
    let bytes = encode_entry(&entry);
    assert_eq!(&bytes[0..4], &(-1i32 as u32).to_le_bytes());
    // id (4) + uuid tag (1) + title length (8) + content/data/color tags (3)
    // + archived (1) + created_on tag (1) = 18 bytes before the stamp.
    assert_eq!(&bytes[18..26], &(-2i64 as u64).to_le_bytes());
}

#[test]
fn keys_are_the_uuid_bytes() {
    assert_eq!(encode_key(Uuid::new(0x0102)), 0x0102u128.to_le_bytes().to_vec());
}

#[test]
fn text_is_utf8_with_length_prefix() {
    let board = Board::new(
        None,
        "héllo".to_string(),
        None,
        None,
        None,
        None,
        None,
    );
    let bytes = encode_board(&board);
    let utf8 = "héllo".as_bytes();
    assert_eq!(bytes[0], 0); // uuid absent
    assert_eq!(&bytes[1..9], &(utf8.len() as u64).to_le_bytes());
    assert_eq!(&bytes[9..9 + utf8.len()], utf8);
}
