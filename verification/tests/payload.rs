use agy_acp::adapter::Adapter;

#[test]
fn test_extract_text_from_step_payload_field20_field1() {
    let mut inner = Vec::new();
    inner.push(0x0A);
    inner.push(0x05);
    inner.extend_from_slice(b"hello");

    let mut blob = Vec::new();
    blob.push(0x08);
    blob.push(0x0F);
    blob.push(0xA2);
    blob.push(0x01);
    blob.push(inner.len() as u8);
    blob.extend_from_slice(&inner);
    assert_eq!(Adapter::extract_text_from_step_payload(&blob), Some("hello".to_string()));
}

#[test]
fn test_extract_text_returns_none_without_field20() {
    let blob = vec![0x08, 0x03];
    assert_eq!(Adapter::extract_text_from_step_payload(&blob), None);
}

#[test]
fn test_extract_text_multiline() {
    let text = b"Safe memory rules\nCompiler points out the flaws\nFast and fearless code";
    let mut inner = Vec::new();
    inner.push(0x0A);
    inner.push(text.len() as u8);
    inner.extend_from_slice(text);

    let mut blob = Vec::new();
    blob.push(0x08);
    blob.push(0x01);
    blob.push(0xA2);
    blob.push(0x01);
    blob.push(inner.len() as u8);
    blob.extend_from_slice(&inner);
    assert_eq!(
        Adapter::extract_text_from_step_payload(&blob),
        Some("Safe memory rules\nCompiler points out the flaws\nFast and fearless code".to_string())
    );
}

#[test]
fn test_read_varint() {
    assert_eq!(Adapter::read_varint(&[0x05]), Some((5, 1)));
    assert_eq!(Adapter::read_varint(&[0xAC, 0x02]), Some((300, 2)));
    assert_eq!(Adapter::read_varint(&[]), None);
}

fn varint(mut n: u64) -> Vec<u8> {
    let mut bytes = Vec::new();
    while n >= 128 {
        bytes.push((n % 128) as u8 + 128);
        n /= 128;
    }
    bytes.push(n as u8);
    bytes
}

fn delimited(number: u64, content: &[u8]) -> Vec<u8> {
    let mut bytes = varint(number * 8 + 2);
    bytes.extend(varint(content.len() as u64));
    bytes.extend_from_slice(content);
    bytes
}

#[test]
fn varints_of_every_length_are_read_back() {
    for shift in 0..64 {
        for n in [1u64 << shift, (1u64 << shift) - 1, u64::MAX >> shift] {
            let bytes = varint(n);
            assert_eq!(Adapter::read_varint(&bytes), Some((n, bytes.len())));
            let mut longer = bytes.clone();
            longer.extend_from_slice(&[0xFF, 0x01]);
            assert_eq!(Adapter::read_varint(&longer), Some((n, bytes.len())));
        }
    }
}

#[test]
fn varints_have_at_most_ten_bytes() {
    let mut bytes = vec![0x80; 9];
    assert_eq!(Adapter::read_varint(&bytes), None);
    bytes.push(0x01);
    assert_eq!(Adapter::read_varint(&bytes), Some((1u64 << 63, 10)));
    assert_eq!(Adapter::read_varint(&[0x80; 11]), None);
    let mut eleven = vec![0x80; 10];
    eleven.push(0x01);
    assert_eq!(Adapter::read_varint(&eleven), None);
}

#[test]
fn bits_beyond_the_sixty_fourth_are_lost() {
    let mut bytes = vec![0xFF; 9];
    bytes.push(0x7F);
    assert_eq!(Adapter::read_varint(&bytes), Some((u64::MAX, 10)));
}

#[test]
fn the_first_field_of_a_number_is_found() {
    let mut blob = vec![0x08, 0x07];
    blob.extend(delimited(3, b"three"));
    blob.extend(delimited(4, b"four"));
    blob.extend(delimited(3, b"again"));
    assert_eq!(Adapter::get_proto_field(&blob, 3), Some(b"three".to_vec()));
    assert_eq!(Adapter::get_proto_field(&blob, 4), Some(b"four".to_vec()));
    assert_eq!(Adapter::get_proto_field(&blob, 1), None);
    assert_eq!(Adapter::get_proto_field(&blob, 5), None);
}

#[test]
fn fixed_width_fields_are_passed_over() {
    let mut blob = vec![0x0D, 1, 2, 3, 4];
    blob.extend([0x11, 1, 2, 3, 4, 5, 6, 7, 8]);
    blob.extend(delimited(7, b"seven"));
    assert_eq!(Adapter::get_proto_field(&blob, 7), Some(b"seven".to_vec()));
    assert_eq!(Adapter::get_proto_field(&[0x0D, 1, 2], 7), None);
}

#[test]
fn what_is_not_a_message_holds_no_field() {
    assert_eq!(Adapter::get_proto_field(&[], 1), None);
    assert_eq!(Adapter::get_proto_field(&[0x0B], 1), None);
    assert_eq!(Adapter::get_proto_field(&[0x0A, 0x05, b'a'], 1), None);
    assert_eq!(Adapter::get_proto_field(&[0x0A], 1), None);
    let mut huge = vec![0x0A];
    huge.extend(varint(u64::MAX));
    assert_eq!(Adapter::get_proto_field(&huge, 1), None);
}

#[test]
fn texts_have_to_be_utf8() {
    let blob = delimited(1, "größer ✅".as_bytes());
    assert_eq!(Adapter::get_proto_text(&blob, 1), Some("größer ✅".to_string()));
    assert_eq!(Adapter::get_proto_text(&delimited(1, &[0xC3]), 1), None);
    let payload = delimited(20, &delimited(1, "✅".repeat(100).as_bytes()));
    assert_eq!(Adapter::extract_text_from_step_payload(&payload), Some("✅".repeat(100)));
    assert_eq!(Adapter::extract_text_from_step_payload(&delimited(20, b"")), None);
}

#[test]
fn tool_steps_are_told_by_their_type() {
    let tools: Vec<i64> = (-10..200).filter(|t| Adapter::is_tool_step_type(*t)).collect();
    assert_eq!(tools, vec![5, 7, 8, 9, 17, 21, 33, 101, 138]);
}
