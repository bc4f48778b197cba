use lora::archive::decode_lora;
use lora::archive::encode_lora;
use lora::archive::parse_lora;
use lora::archive::read_bytes;
use lora::archive::read_string;
use lora::archive::read_u32;
use lora::archive::read_u64;
use lora::archive::write_file;
use lora::archive::write_string;
use lora::archive::write_u32;
use lora::archive::write_u64;

#[test]
fn u32_is_written_big_endian() {
    let mut bytes: Vec<u8> = vec![9];
    write_u32(&mut bytes, 0x1234_5678);
    assert_eq!(bytes, vec![9, 0x12, 0x34, 0x56, 0x78]);
}

#[test]
fn u64_is_written_big_endian() {
    let mut bytes: Vec<u8> = Vec::new();
    write_u64(&mut bytes, 0x0102_0304_0506_0708);
    assert_eq!(bytes, vec![1, 2, 3, 4, 5, 6, 7, 8]);
}

#[test]
fn u32_and_u64_read_back() {
    let mut bytes: Vec<u8> = Vec::new();
    write_u32(&mut bytes, 4_000_000_000);
    write_u64(&mut bytes, u64::MAX - 5);
    bytes.push(7);
    assert_eq!(read_u32(&mut bytes), 4_000_000_000);
    assert_eq!(read_u64(&mut bytes), u64::MAX - 5);
    assert_eq!(bytes, vec![7]);
}

#[test]
fn string_is_length_then_utf8() {
    let mut bytes: Vec<u8> = Vec::new();
    write_string(&mut bytes, &"héllo".to_string());
    assert_eq!(bytes, vec![0, 0, 0, 6, b'h', 0xc3, 0xa9, b'l', b'l', b'o']);
    let size = read_u32(&mut bytes) as u64;
    assert_eq!(read_string(&mut bytes, size), "héllo".to_string());
    assert!(bytes.is_empty());
}

#[test]
fn file_is_u64_length_then_bytes() {
    let mut bytes: Vec<u8> = Vec::new();
    write_file(&mut bytes, &[0xff, 0x00, 0x10]);
    assert_eq!(bytes, vec![0, 0, 0, 0, 0, 0, 0, 3, 0xff, 0x00, 0x10]);
    let size = read_u64(&mut bytes);
    assert_eq!(read_bytes(&mut bytes, size), vec![0xff, 0x00, 0x10]);
}

#[test]
fn read_bytes_leaves_the_rest() {
    let mut bytes: Vec<u8> = vec![1, 2, 3, 4, 5];
    assert_eq!(read_bytes(&mut bytes, 2), vec![1, 2]);
    assert_eq!(bytes, vec![3, 4, 5]);
    assert_eq!(read_bytes(&mut bytes, 0), Vec::<u8>::new());
}

fn sample_files() -> Vec<(String, Vec<u8>)> {
    vec![
        ("images/player.png".to_string(), vec![1, 2, 3]),
        ("sounds/jump.ogg".to_string(), Vec::new()),
        ("images/player.png".to_string(), vec![4]),
    ]
}

#[test]
fn archive_layout() {
    let bytes = encode_lora(&"G".to_string(), &"a.b".to_string(), b"x=1", &Vec::new());
    let expected: Vec<u8> = vec![
        0, 0, 0, 1, b'G', 0, 0, 0, 3, b'a', b'.', b'b', 0, 0, 0, 0, 0, 0, 0, 3, b'x', b'=', b'1',
    ];
    assert_eq!(bytes, expected);
}

#[test]
fn archive_round_trip() {
    let files = sample_files();
    let bytes = encode_lora(&"My Game".to_string(), &"red.ched.game".to_string(), "print('ñ')".as_bytes(), &files);
    let (name, id, code, table) = parse_lora(bytes.clone());
    assert_eq!(name, "My Game");
    assert_eq!(id, "red.ched.game");
    assert_eq!(code, "print('ñ')");
    assert_eq!(table.get(&"images/player.png".to_string()), Some(&vec![4u8]));
    assert_eq!(table.get(&"sounds/jump.ogg".to_string()), Some(&Vec::<u8>::new()));
    assert_eq!(table.get(&"main.lua".to_string()), None);
    assert!(decode_lora(bytes).is_some());
}

#[test]
fn truncated_archive_is_refused() {
    let bytes = encode_lora(&"G".to_string(), &"i".to_string(), b"c", &sample_files());
    for cut in 0..bytes.len() {
        let prefix = bytes[..cut].to_vec();
        let decoded = decode_lora(prefix);
        // Only the prefixes that end exactly after the code or after a whole
        // asset record are archives themselves.
        let whole = [19usize, 19 + 4 + 17 + 8 + 3, 19 + 4 + 17 + 8 + 3 + 4 + 15 + 8];
        assert_eq!(decoded.is_some(), whole.contains(&cut), "cut at {}", cut);
    }
    assert!(decode_lora(bytes).is_some());
}

#[test]
fn invalid_utf8_is_refused() {
    let mut bytes: Vec<u8> = Vec::new();
    write_u32(&mut bytes, 1);
    bytes.push(0xff);
    write_string(&mut bytes, &"id".to_string());
    write_file(&mut bytes, b"");
    assert!(decode_lora(bytes).is_none());

    let mut bytes: Vec<u8> = Vec::new();
    write_string(&mut bytes, &"n".to_string());
    write_string(&mut bytes, &"id".to_string());
    write_file(&mut bytes, &[0xc3]);
    assert!(decode_lora(bytes).is_none());
}

#[test]
fn trailing_bytes_are_refused() {
    let mut bytes = encode_lora(&"n".to_string(), &"i".to_string(), b"", &Vec::new());
    bytes.extend_from_slice(&[0, 0, 0]);
    assert!(decode_lora(bytes).is_none());
}

#[test]
fn empty_input_is_refused() {
    assert!(decode_lora(Vec::new()).is_none());
}
