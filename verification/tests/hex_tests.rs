use iris_engine::hexcode::{decode_hex_key, decode_hex_key_bytes, hex_digit, hex_digit_byte};

fn hex64(prefix: &str) -> String {
    let mut s = String::from(prefix);
    while s.len() < 64 {
        s.push('0');
    }
    s
}

#[test]
fn decodes_lowercase_hex() {
    let s = "ff".repeat(32);
    let k = decode_hex_key(&s).expect("valid hex");
    assert_eq!(k, vec![0xffu8; 32]);
}

#[test]
fn decodes_uppercase_hex() {
    let s = "AB".repeat(32);
    let k = decode_hex_key(&s).expect("valid hex");
    assert_eq!(k, vec![0xabu8; 32]);
}

#[test]
fn decodes_mixed_digits_exactly() {
    let s = hex64("0123456789abcdefABCDEF");
    let k = decode_hex_key(&s).expect("valid hex");
    assert_eq!(&k[..8], &[0x01, 0x23, 0x45, 0x67, 0x89, 0xab, 0xcd, 0xef]);
    assert_eq!(&k[8..11], &[0xab, 0xcd, 0xef]);
    assert_eq!(k[11], 0x00);
    assert_eq!(k.len(), 32);
}

#[test]
fn rejects_wrong_length() {
    assert!(decode_hex_key("").is_none());
    assert!(decode_hex_key("ab").is_none());
    assert!(decode_hex_key(&"a".repeat(63)).is_none());
    assert!(decode_hex_key(&"a".repeat(65)).is_none());
}

#[test]
fn rejects_non_hex_character() {
    let mut s = "a".repeat(64);
    s.replace_range(10..11, "g");
    assert!(decode_hex_key(&s).is_none());
    let mut t = "a".repeat(64);
    t.replace_range(0..1, " ");
    assert!(decode_hex_key(&t).is_none());
}

#[test]
fn byte_decoder_agrees_with_char_decoder() {
    let s = hex64("deadbeef");
    let a = decode_hex_key(&s).unwrap();
    let b = decode_hex_key_bytes(s.as_bytes()).unwrap();
    assert_eq!(a, b);
    assert!(decode_hex_key_bytes(b"zz").is_none());
}

#[test]
fn single_digit_values() {
    assert_eq!(hex_digit('0'), Some(0));
    assert_eq!(hex_digit('9'), Some(9));
    assert_eq!(hex_digit('a'), Some(10));
    assert_eq!(hex_digit('f'), Some(15));
    assert_eq!(hex_digit('A'), Some(10));
    assert_eq!(hex_digit('F'), Some(15));
    assert_eq!(hex_digit('g'), None);
    assert_eq!(hex_digit_byte(b'7'), Some(7));
    assert_eq!(hex_digit_byte(b'c'), Some(12));
    assert_eq!(hex_digit_byte(b'~'), None);
}
