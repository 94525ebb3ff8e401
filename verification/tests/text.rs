use agentbox::shared::text::push_utf8_char;

#[test]
fn utf8_encoding_of_each_width_matches_std() {
    for c in ['a', '\u{7f}', '\u{80}', 'é', '\u{7ff}', '\u{800}', '€', '\u{ffff}', '\u{10000}', '😀', '\u{10ffff}'] {
        let mut bytes = vec![1u8];
        push_utf8_char(&mut bytes, c);
        let mut buf = [0u8; 4];
        let mut expected = vec![1u8];
        expected.extend_from_slice(c.encode_utf8(&mut buf).as_bytes());
        assert_eq!(bytes, expected, "char {:?}", c);
    }
}

#[test]
fn utf8_encoding_of_euro_sign() {
    let mut bytes = Vec::new();
    push_utf8_char(&mut bytes, '€');
    assert_eq!(bytes, vec![0xE2, 0x82, 0xAC]);
}
