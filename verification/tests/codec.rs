use folder_sync::index::block_info::BlockInfo as EntryBlock;
use folder_sync::index::file_info::FileInfo as EntryFileInfo;
use folder_sync::index::folder_index::FolderIndex;
use folder_sync::messages::block_info::BlockInfo;
use folder_sync::messages::buffer::DecodeBuffer;
use folder_sync::messages::file_entry::{decode_file_entry, encode_file_entry};
use folder_sync::messages::file_info::{decode_file_info, encode_file_info, FileInfo};
use folder_sync::messages::folder_index::{decode_folder_index, encode_folder_index};
use folder_sync::messages::hello::{decode_hello, encode_hello, HelloMessage};
use folder_sync::messages::message::{decode_message, encode_message, Message};
use folder_sync::messages::watcher::{
    decode_change_event, encode_change_event, ChangeEvent, CreateKind, EventKind,
};
use folder_sync::messages::wire::{DecodeError, Decoded, EncodeError};
use std::time::{SystemTime, UNIX_EPOCH};

fn sample_path_id(first: u8) -> Vec<u8> {
    let mut id = vec![0u8; 32];
    id[0] = first;
    id
}

#[test]
fn block_info() {
    // Create object.
    let block_info = BlockInfo::new(sample_path_id(1), 123, 321, 121212);

    // Encode object.
    let mut buffer: Vec<u8> = Vec::new();
    let mut message_buffer = DecodeBuffer::new();
    encode_message(&Message::BlockInfo(block_info), &mut buffer).unwrap();
    message_buffer.feed(&buffer);

    // Decode object.
    let decoded = match message_buffer.next_message() {
        Decoded::Parsed { value, .. } => value,
        _ => panic!("expected a parsed message"),
    };

    // Make sure that we don't have unused bytes on the buffer.
    assert_eq!(message_buffer.len(), 0);

    // Make sure both objects are equal.
    assert_eq!(
        decoded,
        Message::BlockInfo(BlockInfo::new(sample_path_id(1), 123, 321, 121212))
    );
}

#[test]
fn file_info() {
    // Create object.
    let now = SystemTime::now()
        .duration_since(UNIX_EPOCH)
        .unwrap()
        .as_nanos() as u64;
    let file_info = FileInfo::new("/home/bob/foo/bar".into(), 123, 123, 321, now);

    // Encode object.
    let mut buffer: Vec<u8> = Vec::new();
    encode_file_info(&file_info, &mut buffer).unwrap();

    // Decode object.
    let (decoded, consumed) = match decode_file_info(&buffer, 0) {
        Decoded::Parsed { value, next } => (value, next),
        _ => panic!("expected a parsed message"),
    };

    // Make sure that we don't have unused bytes on the buffer.
    assert_eq!(consumed, buffer.len());

    // Make sure both objects are equal.
    assert_eq!(decoded, file_info);
}

#[test]
fn watcher() {
    // Create object.
    let kind = EventKind::Create(CreateKind::File);
    let paths = vec!["/home/bob/foo/bar".into()];
    let event = ChangeEvent::new(kind, paths);

    // Encode object.
    let mut buffer: Vec<u8> = Vec::new();
    encode_change_event(&event, &mut buffer).unwrap();

    // Decode object.
    let (decoded, consumed) = match decode_change_event(&buffer, 0) {
        Decoded::Parsed { value, next } => (value, next),
        _ => panic!("expected a parsed message"),
    };

    // Make sure that we don't have unused bytes on the buffer.
    assert_eq!(consumed, buffer.len());

    // Make sure both objects are equal.
    assert_eq!(decoded, event);
}

#[test]
fn hello_encodes_to_documented_bytes() {
    let hello = HelloMessage::new(0x17E434F, "peer".to_string(), "1.0.0".to_string());
    let mut buffer: Vec<u8> = Vec::new();
    encode_hello(&hello, &mut buffer).unwrap();
    let expected: Vec<u8> = vec![
        0x4F, 0x43, 0x7E, 0x01, // magic number, little-endian
        4, 0, 0, 0, b'p', b'e', b'e', b'r', // name
        5, 0, 0, 0, b'1', b'.', b'0', b'.', b'0', // version
    ];
    assert_eq!(buffer, expected);

    let (decoded, consumed) = match decode_hello(&buffer, 0) {
        Decoded::Parsed { value, next } => (value, next),
        _ => panic!("expected a parsed message"),
    };
    assert_eq!(consumed, buffer.len());
    assert_eq!(decoded, hello);
    assert_eq!(decoded.magic_number(), 0x17E434F);
    assert_eq!(decoded.name(), "peer");
    assert_eq!(decoded.version(), "1.0.0");
}

#[test]
fn hello_round_trips_with_unicode_name() {
    let hello = HelloMessage::new(7, "pèer-栗".to_string(), "2.0".to_string());
    let mut buffer: Vec<u8> = Vec::new();
    encode_hello(&hello, &mut buffer).unwrap();
    match decode_hello(&buffer, 0) {
        Decoded::Parsed { value, next } => {
            assert_eq!(next, buffer.len());
            assert_eq!(value, hello);
        }
        _ => panic!("expected a parsed message"),
    }
}

#[test]
fn folder_index_round_trips() {
    let entries = vec![
        EntryFileInfo::new(
            "a.txt".to_string(),
            5,
            131_072,
            vec![EntryBlock::new(0, 5, 42)],
        ),
        EntryFileInfo::new(
            "dir/b.bin".to_string(),
            0,
            131_072,
            vec![],
        ),
    ];
    let index = FolderIndex::with_entires(entries);
    let mut buffer: Vec<u8> = Vec::new();
    encode_folder_index(&index, &mut buffer).unwrap();
    let (decoded, consumed) = match decode_folder_index(&buffer, 0) {
        Decoded::Parsed { value, next } => (value, next),
        _ => panic!("expected a parsed snapshot"),
    };
    assert_eq!(consumed, buffer.len());
    assert_eq!(decoded, index);
}

#[test]
fn file_entry_round_trips() {
    let entry = EntryFileInfo::new(
        "x".to_string(),
        300_000,
        131_072,
        vec![
            EntryBlock::new(0, 131_072, 1),
            EntryBlock::new(131_072, 131_072, 2),
            EntryBlock::new(262_144, 37_856, 3),
        ],
    );
    let mut buffer: Vec<u8> = Vec::new();
    encode_file_entry(&entry, &mut buffer).unwrap();
    let (decoded, consumed) = match decode_file_entry(&buffer, 0) {
        Decoded::Parsed { value, next } => (value, next),
        _ => panic!("expected a parsed entry"),
    };
    assert_eq!(consumed, buffer.len());
    assert_eq!(decoded, entry);
}

#[test]
fn truncated_buffer_is_incomplete_and_consumes_nothing() {
    let hello = HelloMessage::new(0x17E434F, "peer".to_string(), "1.0.0".to_string());
    let mut encoded: Vec<u8> = Vec::new();
    encode_message(&Message::Hello(hello), &mut encoded).unwrap();

    // Feed the message one byte at a time: every prefix but the full
    // message is incomplete and leaves the buffer's content unchanged.
    let mut buffer = DecodeBuffer::new();
    for k in 0..encoded.len() - 1 {
        buffer.feed(&encoded[k..k + 1]);
        match buffer.next_message() {
            Decoded::Incomplete => {}
            _ => panic!("a strict prefix must be incomplete"),
        }
        assert_eq!(buffer.len(), k + 1);
    }
    buffer.feed(&encoded[encoded.len() - 1..]);
    match buffer.next_message() {
        Decoded::Parsed { .. } => {}
        _ => panic!("the full message must parse"),
    }
    assert_eq!(buffer.len(), 0);
}

#[test]
fn oversized_frame_fails_fatally() {
    // A hello whose declared name length exceeds the maximum frame size.
    let mut buffer: Vec<u8> = vec![0]; // message discriminant: hello
    buffer.extend_from_slice(&[0x4F, 0x43, 0x7E, 0x01]); // magic number
    buffer.extend_from_slice(&(9 * 1024 * 1024u32).to_le_bytes()); // 9 MiB name
    match decode_message(&buffer, 0) {
        Decoded::Fatal(e) => assert_eq!(e, DecodeError::FrameTooLarge),
        _ => panic!("an oversized frame must fail fatally"),
    }
}

#[test]
fn unknown_discriminants_fail_fatally() {
    let buffer: Vec<u8> = vec![9];
    match decode_message(&buffer, 0) {
        Decoded::Fatal(e) => assert_eq!(e, DecodeError::UnknownTag),
        _ => panic!("an unknown message discriminant must fail fatally"),
    }

    let event_bytes: Vec<u8> = vec![4, 77, 0]; // watcher event, unknown remove sub-kind
    match decode_message(&event_bytes, 0) {
        Decoded::Fatal(e) => assert_eq!(e, DecodeError::UnknownTag),
        _ => panic!("an unknown event sub-discriminant must fail fatally"),
    }
}

#[test]
fn invalid_utf8_fails_fatally() {
    let mut buffer: Vec<u8> = vec![0x4F, 0x43, 0x7E, 0x01]; // magic number
    buffer.extend_from_slice(&2u32.to_le_bytes());
    buffer.extend_from_slice(&[0xC3, 0x28]); // not valid UTF-8
    match decode_hello(&buffer, 0) {
        Decoded::Fatal(e) => assert_eq!(e, DecodeError::InvalidUtf8),
        _ => panic!("invalid UTF-8 must fail fatally"),
    }
}

#[test]
fn too_many_paths_fail_to_encode() {
    let mut paths: Vec<String> = Vec::new();
    for k in 0..256 {
        paths.push(format!("p{}", k));
    }
    let event = ChangeEvent::new(EventKind::Other, paths);
    let mut buffer: Vec<u8> = Vec::new();
    match encode_change_event(&event, &mut buffer) {
        Err(EncodeError::TooManyItems) => {}
        _ => panic!("256 paths cannot be carried by a 1-byte count"),
    }
    assert!(buffer.is_empty());
}

#[test]
fn every_message_kind_round_trips() {
    let now = 1_700_000_000_000_000_000u64;
    let messages = vec![
        Message::Hello(HelloMessage::new(1, "a".to_string(), "b".to_string())),
        Message::FolderIndex(FolderIndex::with_entires(vec![EntryFileInfo::new(
            "f".to_string(),
            1,
            131_072,
            vec![EntryBlock::new(0, 1, 9)],
        )])),
        Message::FileInfo(FileInfo::new("f".to_string(), 1, 1, 131_072, now)),
        Message::BlockInfo(BlockInfo::new(sample_path_id(7), 0, 1, 5)),
        Message::WatcherEvent(ChangeEvent::new(
            EventKind::Create(CreateKind::Folder),
            vec!["d".to_string()],
        )),
    ];
    for message in messages {
        let mut buffer: Vec<u8> = Vec::new();
        encode_message(&message, &mut buffer).unwrap();
        let (decoded, consumed) = match decode_message(&buffer, 0) {
            Decoded::Parsed { value, next } => (value, next),
            _ => panic!("expected a parsed message"),
        };
        assert_eq!(consumed, buffer.len());
        assert_eq!(decoded, message);
    }
}

#[test]
fn buffer_decodes_consecutive_messages() {
    let first = Message::Hello(HelloMessage::new(1, "a".to_string(), "1".to_string()));
    let second = Message::WatcherEvent(ChangeEvent::new(
        EventKind::Create(CreateKind::File),
        vec!["f".to_string()],
    ));
    let mut encoded: Vec<u8> = Vec::new();
    encode_message(&first, &mut encoded).unwrap();
    encode_message(&second, &mut encoded).unwrap();

    let mut buffer = DecodeBuffer::new();
    buffer.feed(&encoded);
    match buffer.next_message() {
        Decoded::Parsed { value, .. } => assert_eq!(value, first),
        _ => panic!("expected the first message"),
    }
    match buffer.next_message() {
        Decoded::Parsed { value, .. } => assert_eq!(value, second),
        _ => panic!("expected the second message"),
    }
    assert_eq!(buffer.len(), 0);
    match buffer.next_message() {
        Decoded::Incomplete => {}
        _ => panic!("an empty buffer holds no message"),
    }
}
