use identity::bytes::{
    append, bytes_eq, constant_time_eq, copy_bytes, from_hex, push_decimal, push_hex,
    push_json_string, push_text, to_hex,
};
use identity::codec::{canonical_digest, canonicalize, ToJson};
use identity::ed25519::KeyPair;
use identity::error::Error;
use identity::method::VerificationMethod;

fn hex(bytes: &[u8]) -> String {
    bytes.iter().map(|b| format!("{:02x}", b)).collect()
}

#[test]
fn canonical_form_sorts_keys_and_drops_spaces() {
    let out = canonicalize(b"{ \"b\" : 1, \"a\" : [ 1, 2, {\"z\": null, \"y\": true} ] }").unwrap();
    assert_eq!(out, b"{\"a\":[1,2,{\"y\":true,\"z\":null}],\"b\":1}".to_vec());
}

#[test]
fn canonical_form_writes_numbers_one_way() {
    assert_eq!(canonicalize(b"[1.0, 1e2, 0.5, -0]").unwrap(), b"[1,100,0.5,0]".to_vec());
}

#[test]
fn canonicalization_is_idempotent() {
    let inputs: [&[u8]; 4] = [
        b"{\"b\":[3,2,1],\"a\":{\"d\":\"x\",\"c\":1.50}}",
        b"[]",
        b"\"text with \\u0041 escape\"",
        b"{\"\\u00e9\":1,\"e\":2,\"\\ud83d\\ude00\":3}",
    ];
    for input in inputs {
        let once = canonicalize(input).unwrap();
        let twice = canonicalize(&once).unwrap();
        assert_eq!(once, twice);
    }
}

#[test]
fn text_that_is_no_json_is_an_encode_error() {
    assert_eq!(canonicalize(b"{\"a\":"), Err(Error::EncodeError));
    assert_eq!(canonicalize(b""), Err(Error::EncodeError));
    assert_eq!(canonical_digest(b"{]"), Err(Error::EncodeError));
}

#[test]
fn digest_of_canonical_form() {
    let digest = canonical_digest(b" { } ").unwrap();
    assert_eq!(hex(&digest), "44136fa355b3678a1146ad16f7e8649e94fb4fc21fe77e8310c060f61caaff8a");
    let same = canonical_digest(b"{}").unwrap();
    assert_eq!(digest, same);
}

#[test]
fn to_jcs_sorts_the_members_of_a_method() {
    let secret = [3u8; 32];
    let pair = KeyPair::from_secret(&secret).unwrap();
    let method = VerificationMethod::from_keypair(&pair, Some(b"k"));
    let text = method.to_json_vec();
    let expected_text =
        format!("{{\"fragment\":\"k\",\"type\":\"Ed25519VerificationKey2018\",\"publicKeyHex\":\"{}\"}}", hex(pair.public()));
    assert_eq!(String::from_utf8(text).unwrap(), expected_text);
    let canonical = method.to_jcs().unwrap();
    let expected =
        format!("{{\"fragment\":\"k\",\"publicKeyHex\":\"{}\",\"type\":\"Ed25519VerificationKey2018\"}}", hex(pair.public()));
    assert_eq!(String::from_utf8(canonical).unwrap(), expected);
}

#[test]
fn hexadecimal_text() {
    assert_eq!(to_hex(&[0x00, 0xff, 0x1a, 0x09, 0xa0]), b"00ff1a09a0".to_vec());
    assert_eq!(to_hex(&[]), Vec::<u8>::new());
    let mut out = b"x".to_vec();
    push_hex(&mut out, &[0xab]);
    assert_eq!(out, b"xab".to_vec());
}

#[test]
fn decimal_text() {
    let mut out = Vec::new();
    push_decimal(&mut out, 0);
    out.push(b' ');
    push_decimal(&mut out, 10);
    out.push(b' ');
    push_decimal(&mut out, 907);
    out.push(b' ');
    push_decimal(&mut out, u64::MAX);
    assert_eq!(out, b"0 10 907 18446744073709551615".to_vec());
}

#[test]
fn json_string_escapes() {
    let mut out = Vec::new();
    push_json_string(&mut out, b"a\"b\\c\n\x7f\xff z");
    assert_eq!(out, b"\"a\\\"b\\\\c\\u000a\\u007f\\u00ff z\"".to_vec());
    let mut empty = Vec::new();
    push_json_string(&mut empty, b"");
    assert_eq!(empty, b"\"\"".to_vec());
}

#[test]
fn byte_helpers() {
    assert!(bytes_eq(b"abc", b"abc"));
    assert!(!bytes_eq(b"abc", b"abd"));
    assert!(!bytes_eq(b"abc", b"ab"));
    assert!(constant_time_eq(b"", b""));
    assert!(constant_time_eq(&[1, 2, 3], &[1, 2, 3]));
    assert!(!constant_time_eq(&[1, 2, 3], &[1, 2, 4]));
    assert!(!constant_time_eq(&[0x80, 2, 3], &[0, 2, 3]));
    assert!(!constant_time_eq(&[1, 2, 3], &[1, 2]));
    assert_eq!(copy_bytes(b"xyz"), b"xyz".to_vec());
    let mut out = b"ab".to_vec();
    append(&mut out, b"cd");
    push_text(&mut out, "ef");
    assert_eq!(out, b"abcdef".to_vec());
}

#[test]
fn hexadecimal_text_is_read_back() {
    assert_eq!(from_hex(b"00ff1a09a0"), Some(vec![0x00, 0xff, 0x1a, 0x09, 0xa0]));
    assert_eq!(from_hex(b""), Some(Vec::new()));
    assert_eq!(from_hex(b"abc"), None);
    assert_eq!(from_hex(b"AB"), None);
    assert_eq!(from_hex(b"0g"), None);
    assert_eq!(from_hex(b"g0"), None);
    let all: Vec<u8> = (0..=255u8).collect();
    assert_eq!(from_hex(&to_hex(&all)), Some(all));
}
