use my_little_rpg::hex_encoder::{decode_hex, encode_hex};

#[test]
fn hex_encode_decode() {
    let data: [u8; 16] = [1; 16];

    let encoded = encode_hex(&data);

    let decoded: [u8; 16] = decode_hex(encoded.as_str()).unwrap().try_into().unwrap();

    assert_eq!(data, decoded);
}

#[test]
fn hex_encode_exact_text() {
    assert_eq!("00ff0a7f", encode_hex(&[0, 255, 10, 127]));
    assert_eq!("", encode_hex(&[]));
}

#[test]
fn hex_decode_upper_case() {
    assert_eq!(vec![171, 205], decode_hex("ABcd").unwrap());
}

#[test]
fn hex_decode_rejects_non_hex_characters() {
    assert_eq!(Err("['x', 'z'] is not hexdigit(s)!".to_string()), decode_hex("0x1z"));
}

#[test]
fn hex_reencode_gives_lower_case() {
    let decoded = decode_hex("0A9fBc").unwrap();
    assert_eq!("0a9fbc", encode_hex(&decoded));
}
