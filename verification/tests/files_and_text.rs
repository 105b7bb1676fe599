//! File IDs, hashes, numbers, addresses and other texts.

use hath_rs::hvfile::HVFile;
use hath_rs::ip::{normalize_ip, IpAddr};
use hath_rs::types::{ClientKey, FileType, Sha1Hash};
use hath_rs::utils::{hex_encode, join_path, parse_additional, sha1_bytes, sha1_string, Sha1Stream};

#[test]
fn test_valid_fileid_with_res() {
    let id = "aabbccddeeff00112233445566778899aabbccdd-12345-800-600-jpg";
    assert!(HVFile::is_valid_fileid(id));
    let hv = HVFile::from_fileid(id).unwrap();
    assert_eq!(hv.size, 12345);
    assert_eq!(hv.xres, 800);
    assert_eq!(hv.yres, 600);
    assert!(matches!(hv.file_type, FileType::Jpeg));
}

#[test]
fn test_valid_fileid_without_res() {
    let id = "aabbccddeeff00112233445566778899aabbccdd-99999-png";
    assert!(HVFile::is_valid_fileid(id));
    let hv = HVFile::from_fileid(id).unwrap();
    assert_eq!(hv.xres, 0);
    assert_eq!(hv.yres, 0);
}

#[test]
fn test_invalid_fileid() {
    assert!(!HVFile::is_valid_fileid("not-valid"));
    assert!(HVFile::from_fileid("not-valid").is_none());
}

#[test]
fn test_roundtrip_fileid_preserves_lowercase_ext() {
    let original = "aabbccddeeff00112233445566778899aabbccdd-12345-800-600-jpg";
    let hv = HVFile::from_fileid(original).unwrap();
    assert_eq!(hv.fileid().as_str(), original);
}

#[test]
fn test_roundtrip_webm() {
    let original = "aabbccddeeff00112233445566778899aabbccdd-99999-wbm";
    let hv = HVFile::from_fileid(original).unwrap();
    assert_eq!(hv.fileid().as_str(), original);
}

#[test]
fn test_mime_types() {
    let h = "aaaaaaaaaaaaaaaaaaaaaaaaaaaaaaaaaaaaaaaa";
    let cases = [
        (format!("{}-100-jpg", h), "image/jpeg"),
        (format!("{}-100-mp4", h), "video/mp4"),
        (format!("{}-100-wbm", h), "video/webm"),
    ];
    for (full_id, expected_mime) in cases {
        let hv = HVFile::from_fileid(&full_id).unwrap();
        assert_eq!(hv.mime_type(), expected_mime);
    }
}

#[test]
fn digits_of_other_scripts_are_valid_but_describe_no_file() {
    let id = "aabbccddeeff00112233445566778899aabbccdd-\u{0661}2-jpg";
    assert!(HVFile::is_valid_fileid(id));
    assert!(HVFile::from_fileid(id).is_none());
}

#[test]
fn a_file_lies_in_directories_of_its_hash() {
    let id = "aabbccddeeff00112233445566778899aabbccdd-12345-800-600-jpg";
    let hv = HVFile::from_fileid(id).unwrap();
    assert_eq!(hv.cache_path("/c"), format!("/c/aa/bb/{}", id));
    assert_eq!(hv.static_range(), "aabb");
}

#[test]
fn test_sha1_string_known_value() {
    let result = sha1_string("hentai@home");
    assert_eq!(result, "1ba2bf5934ee97c0ee8d47f7acd43f774510495c");
}

#[test]
fn a_digest_in_pieces_is_the_digest_of_the_whole() {
    let mut stream = Sha1Stream::new();
    assert_eq!(stream.hex(), "da39a3ee5e6b4b0d3255bfef95601890afd80709");
    stream.update(b"hentai");
    stream.update(b"@home");
    assert_eq!(stream.hex(), "1ba2bf5934ee97c0ee8d47f7acd43f774510495c");
    assert_eq!(stream.hex(), sha1_bytes(b"hentai@home"));
}

#[test]
fn test_hex_encode() {
    assert_eq!(hex_encode(&[0xab, 0xcd, 0xef]), "abcdef");
}

#[test]
fn test_hex_encode_zero_pad() {
    assert_eq!(hex_encode(&[0x01, 0x0a, 0xff]), "010aff");
}

#[test]
fn test_parse_additional_multiple() {
    let m = parse_additional("fileindex=42;xres=org");
    assert_eq!(m.fileindex.as_deref().unwrap(), "42");
    assert_eq!(m.xres.as_deref().unwrap(), "org");
}

#[test]
fn additional_fields_are_trimmed_and_the_last_counts() {
    let m = parse_additional(" fileindex = 1 ; fileindex=2;x;=;keystamp=a=b ");
    assert_eq!(m.fileindex.as_deref(), Some("2"));
    assert_eq!(m.keystamp.as_deref(), Some("a=b"));
    assert_eq!(m.xres, None);
}

#[test]
fn hashes_and_keys_are_checked() {
    let h = Sha1Hash::new("AABBCCDDEEFF00112233445566778899AABBCCDD").unwrap();
    assert_eq!(h.as_str(), "aabbccddeeff00112233445566778899aabbccdd");
    assert_eq!(h.l1_dir(), "aa");
    assert_eq!(h.l2_dir(), "bb");
    assert!(Sha1Hash::new("aabb").is_none());
    assert!(Sha1Hash::new("gabbccddeeff00112233445566778899aabbccdd").is_none());
    assert!(ClientKey::new("abcde12345abcde12345").is_some());
    assert!(ClientKey::new("abcde12345abcde1234").is_none());
    assert!(ClientKey::new("abcde12345abcde1234-").is_none());
}

#[test]
fn paths_are_joined_as_paths_are() {
    assert_eq!(join_path("a", "b"), "a/b");
    assert_eq!(join_path("a/", "b"), "a/b");
    assert_eq!(join_path("a", "/b"), "/b");
    assert_eq!(join_path("", "b"), "b");
}

#[test]
fn addresses_are_read_and_written() {
    let cases = [
        ("192.0.2.1", "192.0.2.1"),
        ("::1", "::1"),
        ("::ffff:192.0.2.1", "::ffff:192.0.2.1"),
        ("2001:DB8:0:0:1:0:0:1", "2001:db8::1:0:0:1"),
        ("1:0:0:2:0:0:0:3", "1:0:0:2::3"),
        ("::", "::"),
        ("1::", "1::"),
        ("64:ff9b::1.2.3.4", "64:ff9b::102:304"),
    ];
    for (text, shown) in cases {
        assert_eq!(IpAddr::parse(text).unwrap().to_text(), shown);
    }
    for text in ["256.0.0.1", "1.2.3", "01.2.3.4", "1::2::3", ":1", "12345::", "", "g::", "1.2.3.4.5"] {
        assert!(IpAddr::parse(text).is_none(), "{}", text);
    }
}

#[test]
fn mapped_addresses_become_plain() {
    let mapped = IpAddr::parse("::ffff:192.0.2.1").unwrap();
    let plain = normalize_ip(mapped);
    assert_eq!(plain.to_text(), "192.0.2.1");
    assert_eq!(normalize_ip(plain).to_text(), "192.0.2.1");
    assert_eq!(normalize_ip(IpAddr::parse("::1").unwrap()).to_text(), "::1");
}

#[test]
fn texts_of_addresses_are_read_back() {
    for text in [
        "0.0.0.0",
        "192.0.2.255",
        "::",
        "::1",
        "1::",
        "2001:db8::8a2e:370:7334",
        "2001:0:0:1::1",
        "1:0:2:3:4:5:6:7",
        "::ffff:192.0.2.1",
    ] {
        assert_eq!(IpAddr::parse(text).unwrap().to_text(), text);
    }
    assert_eq!(IpAddr::parse("2001:0DB8:0:0:0:0:0:1").unwrap().to_text(), "2001:db8::1");
    assert!(IpAddr::parse("1.2.3").is_none());
    assert!(IpAddr::parse("1::2::3").is_none());
}
