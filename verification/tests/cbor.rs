use skattr_core::cbor::{push_byte_string, push_head, push_int, push_text, push_texts, push_uint};

fn uint(n: u64) -> Vec<u8> {
    let mut v = Vec::new();
    push_uint(&mut v, n);
    v
}

fn signed(n: i64) -> Vec<u8> {
    let mut v = Vec::new();
    push_int(&mut v, n);
    v
}

#[test]
fn heads_use_the_shortest_form() {
    assert_eq!(uint(0), vec![0x00]);
    assert_eq!(uint(23), vec![0x17]);
    assert_eq!(uint(24), vec![0x18, 0x18]);
    assert_eq!(uint(255), vec![0x18, 0xff]);
    assert_eq!(uint(256), vec![0x19, 0x01, 0x00]);
    assert_eq!(uint(65_535), vec![0x19, 0xff, 0xff]);
    assert_eq!(uint(65_536), vec![0x1a, 0x00, 0x01, 0x00, 0x00]);
    assert_eq!(uint(1 << 32), vec![0x1b, 0, 0, 0, 1, 0, 0, 0, 0]);
    assert_eq!(uint(u64::MAX), vec![0x1b, 0xff, 0xff, 0xff, 0xff, 0xff, 0xff, 0xff, 0xff]);
}

#[test]
fn negative_integers_use_major_type_one() {
    assert_eq!(signed(-1), vec![0x20]);
    assert_eq!(signed(-24), vec![0x37]);
    assert_eq!(signed(-25), vec![0x38, 0x18]);
    assert_eq!(signed(i64::MIN), vec![0x3b, 0x7f, 0xff, 0xff, 0xff, 0xff, 0xff, 0xff, 0xff]);
    assert_eq!(signed(10), vec![0x0a]);
}

#[test]
fn strings_and_collections() {
    let mut v = Vec::new();
    push_text(&mut v, "é");
    assert_eq!(v, vec![0x62, 0xc3, 0xa9]);
    let mut v = Vec::new();
    push_byte_string(&mut v, &[1, 2]);
    assert_eq!(v, vec![0x42, 1, 2]);
    let mut v = vec![9];
    push_head(&mut v, 5, 2);
    assert_eq!(v, vec![9, 0xa2]);
    let mut v = Vec::new();
    push_texts(&mut v, &vec!["a".to_string(), "".to_string()]);
    assert_eq!(v, vec![0x61, b'a', 0x60]);
}
