use gproxy::base64::decode_base64;

#[test]
fn base64_texts_are_decoded() {
    let cases: [(&str, &[u8]); 8] = [
        ("", b""),
        ("Zg==", b"f"),
        ("Zm8=", b"fo"),
        ("Zm9v", b"foo"),
        ("Zm9vYg==", b"foob"),
        ("Zm9vYmE=", b"fooba"),
        ("Zm9vYmFy", b"foobar"),
        ("+/+/AP8=", &[0xfb, 0xff, 0xbf, 0x00, 0xff]),
    ];
    for (text, bytes) in cases {
        assert_eq!(decode_base64(text).unwrap(), bytes.to_vec());
    }
}

#[test]
fn other_texts_are_refused() {
    for text in [
        "Z", "Zg", "Zg=", "Zh==", "Zm9=", "Zm9v=", "Zg==Zg==", "====", "Z===", "Zm 9", "Zm9-",
        "Zm9\u{e9}", "=m9v", "Z=9v", "Zm=v", "Zm8=\n",
    ] {
        assert!(decode_base64(text).is_none());
    }
}
