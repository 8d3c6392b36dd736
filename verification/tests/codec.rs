use track_server::codec::{percent_encode_byte, url_decode, url_encode};

#[test]
fn encode_escapes_space_and_quote() {
    assert_eq!(url_encode("my \"song\".mp3"), "my%20%22song%22.mp3");
}

#[test]
fn encode_escapes_number_sign() {
    assert_eq!(url_encode("a#b"), "a%23b");
}

#[test]
fn encode_keeps_other_characters() {
    assert_eq!(url_encode("100%/ä&.mp3"), "100%/ä&.mp3");
    assert_eq!(url_encode(""), "");
}

#[test]
fn decode_reads_escapes_in_either_case() {
    assert_eq!(url_decode("/tracks/my%20song.mp3"), "/tracks/my song.mp3");
    assert_eq!(url_decode("%4a%4A%2f"), "JJ/");
}

#[test]
fn decode_keeps_malformed_escapes() {
    assert_eq!(url_decode("%zz"), "%zz");
    assert_eq!(url_decode("abc%"), "abc%");
    assert_eq!(url_decode("abc%4"), "abc%4");
    assert_eq!(url_decode("%4g%"), "%4g%");
    assert_eq!(url_decode("%+5"), "%+5");
}

#[test]
fn decode_takes_both_characters_of_a_malformed_escape() {
    assert_eq!(url_decode("%%41"), "%%41");
    assert_eq!(url_decode("%x%41"), "%x%41");
    assert_eq!(url_decode("%%%41"), "%%%41");
    assert_eq!(url_decode("%%%%41"), "%%%A");
}

#[test]
fn decode_gives_the_character_with_the_number_of_the_byte() {
    assert_eq!(url_decode("%e9"), "\u{e9}");
    assert_eq!(url_decode("%00"), "\u{0}");
    assert_eq!(url_decode("%ff"), "\u{ff}");
}

#[test]
fn decode_inverts_the_escape_of_each_printable_byte() {
    for b in 0x20u8..=0x7e {
        let escaped = percent_encode_byte(b);
        assert_eq!(escaped.chars().count(), 3);
        assert_eq!(url_decode(&escaped), (b as char).to_string());
    }
}

#[test]
fn escape_of_a_byte_is_upper_case_hex() {
    assert_eq!(percent_encode_byte(0x20), "%20");
    assert_eq!(percent_encode_byte(0x2f), "%2F");
    assert_eq!(percent_encode_byte(0xab), "%AB");
    assert_eq!(percent_encode_byte(0x00), "%00");
}

#[test]
fn decode_inverts_encode_without_percent_signs() {
    let name = "my \"song\" #1.mp3";
    assert_eq!(url_decode(&url_encode(name)), name);
}
