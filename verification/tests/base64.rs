use alloy_studio::base64::base64_decode;

#[test]
fn decodes_full_groups_and_padding() {
    assert_eq!(base64_decode("aGVsbG8gd29ybGQ=").unwrap(), b"hello world".to_vec());
    assert_eq!(base64_decode("TWFu").unwrap(), b"Man".to_vec());
    assert_eq!(base64_decode("TWE=").unwrap(), b"Ma".to_vec());
    assert_eq!(base64_decode("TQ==").unwrap(), b"M".to_vec());
    assert_eq!(base64_decode("").unwrap(), Vec::<u8>::new());
}

#[test]
fn single_leftover_character_is_rejected() {
    assert!(base64_decode("TWFuT").is_err());
    assert!(base64_decode("T===").is_err());
}

#[test]
fn characters_outside_alphabet_are_rejected() {
    assert!(base64_decode("!!!!").is_err());
    assert!(base64_decode("hello world!").is_err());
    assert!(base64_decode("TW=u").is_err());
    assert_eq!(base64_decode("+/+/").unwrap(), vec![0xfb, 0xff, 0xbf]);
}

#[test]
fn encoded_text_decodes_back_with_or_without_padding() {
    assert_eq!(base64_decode("aGk=").unwrap(), b"hi".to_vec());
    assert_eq!(base64_decode("aGk").unwrap(), b"hi".to_vec());
    assert_eq!(base64_decode("aGVsbG8=").unwrap(), b"hello".to_vec());
    assert_eq!(base64_decode("aGVsbG8").unwrap(), b"hello".to_vec());
    assert_eq!(base64_decode("/w==").unwrap(), vec![0xff]);
    assert_eq!(base64_decode("AAEC").unwrap(), vec![0, 1, 2]);
}
