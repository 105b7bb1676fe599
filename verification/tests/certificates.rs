//! Archives with certificates and keys.

use hath_rs::error::HathError;
use hath_rs::server::der::{
    check_archive_elements, check_bags, check_content, check_contents, check_usual_archive,
    check_usual_content, check_usual_contents, content_of, find_behind, find_contents,
    make_plain_archive, make_usual_archive, make_usual_check, make_usual_content,
    make_usual_contents, read_head, read_number, CERTIFICATE_BAG, DATA_TYPE,
    ENCRYPTED_DATA_TYPE, FRIENDLY_NAME, KEY_BAG, RC2_40, SHA1, TRIPLE_DES,
};
use hath_rs::server::tls::{
    accept_certificate, certificate_expiry_unix, certificate_path, check_archive, check_end,
    check_held, check_key, encode_password, find_bags_archive, is_cert_expired, is_cert_expired_at, is_valid_issuer, judge_issuer,
    load_certificate_at, needs_download, order_certificate_chain, parse_p12_certificate, pick,
    select_private_key, ParsedP12Certificate, CERT_RENEWAL_WINDOW_SECS,
};

const ROOT: &str = "\
    3082015930820100a003020102020101300a06082a8648ce3d04030230243122302006035504030c19686174\
    682d72732d746573742d726f6f742e696e76616c6964301e170d3230303130313030303030305a170d343030\
    3130313030303030305a30243122302006035504030c19686174682d72732d746573742d726f6f742e696e76\
    616c69643059301306072a8648ce3d020106082a8648ce3d030107034200040e31a8c87fe39b75d3a57501cb\
    62297540393bf480e3c6bf976975494d92662eb65ff90fc2e9f580e0ddc5b6c5be26c52dd10e01d844f2a310\
    722470721d43d8a3233021300f0603551d130101ff040530030101ff300e0603551d0f0101ff040403020106\
    300a06082a8648ce3d04030203470030440220414936d9cafacd891575dce1597ab21b1a6d7d2a858419b952\
    78e68f922ae73302204403e01f02035d459818e8c837b2545bbff8b50d43426e0cc2309de913e184da";

const LEAF: &str = "\
    308201463081eda003020102020102300a06082a8648ce3d04030230243122302006035504030c1968617468\
    2d72732d746573742d726f6f742e696e76616c6964301e170d3230303130313030303030305a170d34303031\
    30313030303030305a30243122302006035504030c19686174682d72732d746573742d6c6561662e696e7661\
    6c69643059301306072a8648ce3d020106082a8648ce3d0301070342000498436209ff71c6a34f696155a705\
    4f6ebdc62f9e4c22793058ea52a67b8ea01a04be070b55dc42eff87c26102f6cdaa0d0c2cba8ba05329e800a\
    eec086350421a310300e300c0603551d130101ff04023000300a06082a8648ce3d040302034800304502206d\
    0626198422333f8d8d0cefffcccb081d002b21e81c49c022d51d5e21526076022100facd92b50dc3e62fc213\
    fce5270a0ceab2c76e08ad2db446e3d77c4b99115873";

const OTHER: &str = "\
    3082015930820100a003020102020103300a06082a8648ce3d04030230243122302006035504030c19686174\
    682d72732d746573742d726f6f742e696e76616c6964301e170d3230303130313030303030305a170d343030\
    3130313030303030305a30243122302006035504030c19686174682d72732d746573742d726f6f742e696e76\
    616c69643059301306072a8648ce3d020106082a8648ce3d030107034200044f2a9be05bd52c3f8ac6c2aa33\
    a68bc443087fba6d6e717d8329adaaabcffbeb678f527500d2b342c11b6621199c7e571483c13f35d7972525\
    413f31d5885ea1a3233021300f0603551d130101ff040530030101ff300e0603551d0f0101ff040403020106\
    300a06082a8648ce3d04030203470030440220703af3c22a570f2d45c41e95938cf76ece08c119955cbfa072\
    f98793fb86b05b02204752ef4d5555f25d32faf39c52ba93bc52b25f7b31333df87b8b33803ec70ea3";

const NOT_CA: &str = "\
    308201463081eda003020102020104300a06082a8648ce3d04030230243122302006035504030c1968617468\
    2d72732d746573742d726f6f742e696e76616c6964301e170d3230303130313030303030305a170d34303031\
    30313030303030305a30243122302006035504030c19686174682d72732d746573742d726f6f742e696e7661\
    6c69643059301306072a8648ce3d020106082a8648ce3d030107034200040e31a8c87fe39b75d3a57501cb62\
    297540393bf480e3c6bf976975494d92662eb65ff90fc2e9f580e0ddc5b6c5be26c52dd10e01d844f2a31072\
    2470721d43d8a310300e300c0603551d130101ff04023000300a06082a8648ce3d0403020348003045022100\
    c6c01336dfa43bc2bb4a478f509c8a1b3e2bef30666c5ed18836dd3e5e15a8370220584f35fcbe8d1df6b835\
    339605d697c213b2a77b066600105f8cdbca8c2c2fe7";

const KEY: &str = "\
    308187020100301306072a8648ce3d020106082a8648ce3d030107046d306b0201010420f43add5578e67224\
    1c90628d47ef0ffdc974d2c88829018ba70d361e4f0b15a9a1440342000498436209ff71c6a34f696155a705\
    4f6ebdc62f9e4c22793058ea52a67b8ea01a04be070b55dc42eff87c26102f6cdaa0d0c2cba8ba05329e800a\
    eec086350421";

const PASSWORD: &str = "test-client-key";

/// The end of the leaf's validity.
const LEAF_END: i64 = 2_208_988_800;

fn bytes(hex: &str) -> Vec<u8> {
    (0..hex.len() / 2).map(|i| u8::from_str_radix(&hex[2 * i..2 * i + 2], 16).unwrap()).collect()
}

fn archive(ca: Option<&[u8]>) -> Vec<u8> {
    p12::PFX::new(&bytes(LEAF), &bytes(KEY), ca, PASSWORD, "test").unwrap().to_der()
}

#[test]
fn imports_an_rc2_40_pkcs12_archive() {
    let parsed = parse_p12_certificate(&archive(Some(&bytes(ROOT))), PASSWORD).unwrap();
    assert!(!parsed.cert_chain.is_empty());
    assert_eq!(parsed.private_key, bytes(KEY));
    assert_eq!(parsed.cert_chain, vec![bytes(LEAF), bytes(ROOT)]);
}

#[test]
fn rejects_a_wrong_pkcs12_password() {
    let e = parse_p12_certificate(&archive(None), "wrong-password").unwrap_err();
    assert_eq!(e.to_text(), "TLS error: PKCS12 archive integrity check failed");
}

#[test]
fn rejects_a_pkcs12_archive_with_a_tampered_mac() {
    let mut archive = archive(Some(&bytes(ROOT)));
    *archive.last_mut().unwrap() ^= 1;

    assert!(parse_p12_certificate(&archive, "test-client-key").is_err());
}

#[test]
fn rejects_corrupt_pkcs12_data() {
    assert!(parse_p12_certificate(b"not a p12 archive", "test-client-key").is_err());
}

#[test]
fn orders_an_unordered_multi_certificate_pkcs12_chain_with_the_leaf_first() {
    let certificates = vec![bytes(ROOT), bytes(LEAF)];

    let cert_chain = order_certificate_chain(certificates, &bytes(KEY)).unwrap();
    let (_, leaf) = x509_parser::prelude::parse_x509_certificate(&cert_chain[0]).unwrap();
    let (_, issuer) = x509_parser::prelude::parse_x509_certificate(&cert_chain[1]).unwrap();

    assert_eq!(leaf.subject().to_string(), "CN=hath-rs-test-leaf.invalid");
    assert_eq!(issuer.subject().to_string(), "CN=hath-rs-test-root.invalid");
    assert_eq!(leaf.issuer(), issuer.subject());
}

#[test]
fn rejects_a_same_subject_candidate_that_did_not_sign_the_child_certificate() {
    let certificates = vec![bytes(OTHER), bytes(ROOT), bytes(LEAF)];

    assert!(order_certificate_chain(certificates, &bytes(KEY)).is_err());
}

#[test]
fn rejects_multiple_pkcs12_private_keys() {
    let private_key = bytes(KEY);

    assert!(select_private_key(vec![private_key.clone(), private_key]).is_err());
    assert!(select_private_key(vec![]).is_err());
    assert_eq!(select_private_key(vec![bytes(KEY)]).unwrap(), bytes(KEY));
}

#[test]
fn expiry_window_matches_the_existing_24_hour_rule() {
    let now = chrono::Utc::now().timestamp();
    assert!(!is_cert_expired(now + CERT_RENEWAL_WINDOW_SECS + 1));
    assert!(is_cert_expired(now + CERT_RENEWAL_WINDOW_SECS - 1));
}

#[test]
fn issuers_have_the_name_and_the_key_and_may_sign() {
    assert!(is_valid_issuer(&bytes(LEAF), &bytes(ROOT)).unwrap());
    assert!(!is_valid_issuer(&bytes(LEAF), &bytes(OTHER)).unwrap());
    assert!(!is_valid_issuer(&bytes(LEAF), &bytes(NOT_CA)).unwrap());
    assert!(!is_valid_issuer(&bytes(ROOT), &bytes(LEAF)).unwrap());
    assert!(!is_valid_issuer(&bytes(LEAF), &vec![1, 2, 3]).unwrap());
}

#[test]
fn chains_that_do_not_hang_together_are_refused() {
    let key = bytes(KEY);
    let none = order_certificate_chain(vec![bytes(ROOT)], &key).unwrap_err();
    assert_eq!(none.to_text(), "TLS error: no PKCS12 certificate matches the private key");
    let two = order_certificate_chain(vec![bytes(LEAF), bytes(LEAF)], &key).unwrap_err();
    assert_eq!(two.to_text(), "TLS error: multiple PKCS12 certificates match the private key");
    let loose = order_certificate_chain(vec![bytes(LEAF), bytes(NOT_CA)], &key).unwrap_err();
    assert_eq!(
        loose.to_text(),
        "TLS error: PKCS12 certificate chain is incomplete or invalid"
    );
    let doubled = order_certificate_chain(vec![bytes(LEAF), bytes(ROOT), bytes(ROOT)], &key);
    assert!(doubled.is_err());
    assert!(order_certificate_chain(vec![bytes(LEAF)], &vec![0]).is_err());
    assert_eq!(order_certificate_chain(vec![bytes(LEAF)], &key).unwrap(), vec![bytes(LEAF)]);
}

#[test]
fn certificates_end_when_they_say() {
    assert_eq!(certificate_expiry_unix(&bytes(LEAF)).unwrap(), LEAF_END);
    assert!(certificate_expiry_unix(&vec![0]).is_err());
    assert!(!is_cert_expired_at(LEAF_END, LEAF_END - 86_400));
    assert!(is_cert_expired_at(LEAF_END, LEAF_END - 86_399));
}

#[test]
fn stored_certificates_are_loaded_before_they_end() {
    let data = archive(Some(&bytes(ROOT)));
    let (parsed, end) = load_certificate_at(&data, PASSWORD, LEAF_END - 100_000).unwrap();
    assert_eq!(end, LEAF_END);
    assert_eq!(parsed.cert_chain.len(), 2);
    assert!(load_certificate_at(&data, PASSWORD, LEAF_END).is_err());
    assert_eq!(certificate_path("/data"), "/data/hathcert.p12");
    assert!(needs_download(true, true));
    assert!(needs_download(false, false));
    assert!(!needs_download(false, true));
}

#[test]
fn issuers_are_judged_by_names_constraints_usage_and_signature() {
    assert!(judge_issuer(true, Ok(Some(true)), Ok(None), true).unwrap());
    assert!(judge_issuer(true, Ok(Some(true)), Ok(Some(true)), true).unwrap());
    assert!(!judge_issuer(false, Err("e".to_string()), Ok(None), true).unwrap());
    assert!(!judge_issuer(true, Ok(None), Ok(None), true).unwrap());
    assert!(!judge_issuer(true, Ok(Some(false)), Err("e".to_string()), true).unwrap());
    assert!(!judge_issuer(true, Ok(Some(true)), Ok(Some(false)), true).unwrap());
    assert!(!judge_issuer(true, Ok(Some(true)), Ok(None), false).unwrap());
    let e = judge_issuer(true, Err("bad".to_string()), Ok(None), true).unwrap_err();
    assert!(e.to_text().contains("invalid issuer basic constraints: bad"));
    let e = judge_issuer(true, Ok(Some(true)), Err("bad".to_string()), true).unwrap_err();
    assert!(e.to_text().contains("invalid issuer key usage: bad"));
}

#[test]
fn the_only_yes_is_picked() {
    assert_eq!(pick(vec![Ok(false), Ok(true), Ok(false)], "two").unwrap(), Some(1));
    assert_eq!(pick(vec![Ok(false)], "two").unwrap(), None);
    assert_eq!(pick(vec![], "two").unwrap(), None);
    let e = pick(vec![Ok(true), Ok(true)], "two").unwrap_err();
    assert!(matches!(&e, HathError::Tls(m) if m == "two"));
    let e = pick(vec![Ok(true), Err(HathError::CertExpired), Ok(true)], "two").unwrap_err();
    assert!(matches!(e, HathError::CertExpired));
}

#[test]
fn archives_are_checked_part_by_part() {
    let key = || Ok(vec![vec![1]]);
    let certs = || Ok(vec![vec![2], vec![3]]);
    let text = |r: Result<(Vec<u8>, Vec<Vec<u8>>), HathError>| r.unwrap_err().to_text();
    assert_eq!(check_archive(None, true, key(), certs()).unwrap(), (vec![1], vec![vec![2], vec![3]]));
    assert!(text(check_archive(Some("x".to_string()), true, key(), certs()))
        .contains("invalid PKCS12 archive: x"));
    assert!(text(check_archive(None, false, key(), certs()))
        .contains("PKCS12 archive integrity check failed"));
    assert!(text(check_archive(None, true, Err("x".to_string()), certs()))
        .contains("failed to decrypt PKCS12 private key: x"));
    assert!(text(check_archive(None, true, Ok(vec![]), Err("x".to_string())))
        .contains("failed to decrypt PKCS12 certificates: x"));
    assert!(text(check_archive(None, true, Ok(vec![]), certs()))
        .contains("PKCS12 archive must contain exactly one private key"));
}

#[test]
fn what_was_read_of_keys_and_ends_is_checked() {
    assert_eq!(check_key(Ok(Some(vec![7]))).unwrap(), vec![7]);
    assert!(check_key(Ok(None)).unwrap_err().to_text().contains("could not determine"));
    let e = check_key(Err("x".to_string())).unwrap_err();
    assert!(e.to_text().contains("invalid PKCS12 private key: x"));
    assert_eq!(check_end(Ok(5)).unwrap(), 5);
    let e = check_end(Err("x".to_string())).unwrap_err();
    assert!(e.to_text().contains("invalid leaf certificate: x"));
    let parsed = || ParsedP12Certificate { cert_chain: vec![vec![1]], private_key: vec![2] };
    let (kept, end) = accept_certificate(parsed(), 100_000, 10_000).unwrap();
    assert_eq!((kept.private_key, end), (vec![2], 100_000));
    assert!(matches!(
        accept_certificate(parsed(), 96_399, 10_000),
        Err(HathError::CertExpired)
    ));
}

fn element(tag: u8, contents: &[&[u8]]) -> Vec<u8> {
    let contents = contents.concat();
    let mut out = vec![tag];
    if contents.len() < 128 {
        out.push(contents.len() as u8);
    } else {
        out.extend([0x82, (contents.len() / 256) as u8, (contents.len() % 256) as u8]);
    }
    out.extend(contents);
    out
}

fn encryption(name: &[u8], count: &[u8]) -> Vec<u8> {
    element(0x30, &[name, &element(0x30, &[&[4, 2, 1, 2], &element(2, &[count])])])
}

fn encrypted_data(version: &[u8], kind: &[u8], algorithm: &[u8]) -> Vec<u8> {
    let inner = element(0x30, &[kind, algorithm, &[0x80, 1, 0]]);
    let data = element(0x30, &[&element(2, &[version]), &inner]);
    element(0x30, &[&ENCRYPTED_DATA_TYPE, &element(0xa0, &[&data])])
}

fn bag(name: &[u8], value: &[u8], attributes: &[u8]) -> Vec<u8> {
    element(0x30, &[&element(0x30, &[name, &element(0xa0, &[value]), attributes])])
}

/// An element that ends farther than an address can tell.
const FAR: [u8; 10] = [4, 0x88, 255, 255, 255, 255, 255, 255, 255, 240];

/// An archive, intact under the password, around some contents.
fn archive_around(contents: &[Vec<u8>]) -> Vec<u8> {
    let contents = element(0x30, &contents.iter().map(|c| c.as_slice()).collect::<Vec<_>>());
    let mac_data = p12::MacData::new(&contents, &encode_password(PASSWORD));
    let auth_safe = p12::ContentInfo::Data(contents);
    p12::PFX { version: 3, auth_safe, mac_data: Some(mac_data) }.to_der()
}

#[test]
fn elements_with_ends_out_of_reach_are_refused() {
    let data = bytes("301502010330100602\
2a03a00a0488fffffffffffffff0");
    assert_eq!(data.len(), 23);
    assert!(!check_archive_elements(&data));
    let e = parse_p12_certificate(&data, PASSWORD).unwrap_err();
    assert_eq!(e.to_text(), "TLS error: invalid PKCS12 archive: unreadable element");
    for readable in [&b""[..], b"not a p12 archive", &[0x30, 3, 4, 0x81, 200], &[0x30, 0x80, 0, 0]] {
        assert!(check_archive_elements(readable));
        let e = parse_p12_certificate(readable, PASSWORD).unwrap_err();
        assert!(!e.to_text().contains("unreadable"));
    }

    let other = [6, 2, 42, 3];
    assert!(!check_content(&element(0x30, &[&other, &element(0xa0, &[&FAR])]), 0));
    assert!(!check_contents(&element(0x30, &[&element(0x30, &[&other, &element(0xa0, &[&FAR])])])));
    assert!(!check_content(&encrypted_data(&[0], &DATA_TYPE, &element(0x30, &[&other, &FAR])), 0));
    assert!(!check_bags(&bag(&other, &FAR, &[])));
    assert!(check_bags(&bag(&CERTIFICATE_BAG, &FAR, &[])));
    // What is passed over is not looked into.
    assert!(check_bags(&bag(&other, &element(0x30, &[&FAR]), &[])));
    let attribute = |name: &[u8]| {
        element(0x31, &[&element(0x30, &[name, &element(0x31, &[&[5, 0], &FAR])])])
    };
    assert!(!check_bags(&bag(&CERTIFICATE_BAG, &[5, 0], &attribute(&other))));
    assert!(check_bags(&bag(&CERTIFICATE_BAG, &[5, 0], &attribute(&FRIENDLY_NAME))));
}

#[test]
fn heads_and_numbers_of_elements_are_read() {
    assert_eq!(read_number(&[9, 1, 2, 3, 9], 1, 4), Some(0x010203));
    assert_eq!(read_number(&[], 0, 0), Some(0));
    assert_eq!(read_number(&[1, 0, 0, 0, 0, 0, 0, 0, 0], 0, 9), None);
    assert_eq!(read_head(&[0x30, 5], 0), Some((2, 5)));
    assert_eq!(read_head(&[0, 0x1f, 0x81, 1, 0x82, 1, 2], 1), Some((7, 258)));
    assert_eq!(read_head(&[0x30, 0x82, 1], 0), None);
    assert_eq!(read_head(&[0x30, 0x81, 5], 0), None);
    assert_eq!(read_head(&[0x30, 0x81, 128], 0), Some((3, 128)));
    assert_eq!(read_head(&[0x30, 0x80], 0), None);
    assert_eq!(read_head(&[0x30, 0xff], 0), None);
    assert_eq!(read_head(&[0x1f, 0x80], 0), None);
    assert_eq!(find_contents(&[4, 2, 7, 8], 0), Some((2, 4)));
    assert_eq!(find_contents(&[4, 3, 7, 8], 0), None);
    assert_eq!(find_behind(&[0, 4, 1, 7, 8], 1), Some(4));
}

#[test]
fn counts_that_no_machine_gets_through_are_refused() {
    for name in [TRIPLE_DES, RC2_40] {
        for (count, good) in [
            (&[8][..], true),
            (&[1, 0, 0, 0, 0, 0], true),
            (&[16, 0, 0, 0, 0, 0, 0, 0], true),
            (&[16, 0, 0, 0, 0, 0, 0, 1], false),
            (&[0x7f; 8], false),
        ] {
            let algorithm = encryption(&name, count);
            assert_eq!(check_content(&encrypted_data(&[0], &DATA_TYPE, &algorithm), 0), good);
            let key = element(0x30, &[&algorithm, &[4, 0]]);
            assert_eq!(check_bags(&bag(&KEY_BAG, &key, &[])), good);
        }
    }
    assert!(check_content(&encrypted_data(&[0], &DATA_TYPE, &encryption(&SHA1, &[0x7f; 8])), 0));
}

#[test]
fn unusual_forms_are_made_usual() {
    let algorithm = encryption(&RC2_40, &[8]);
    let usual = encrypted_data(&[0], &DATA_TYPE, &algorithm);
    assert!(check_usual_content(&usual));
    assert_eq!(make_usual_content(&usual), usual);
    let long_name = element(6, &[&[42; 200]]);
    for (version, kind) in [
        (&[1][..], &DATA_TYPE[..]),
        (&[0, 200], &DATA_TYPE),
        (&[0], &ENCRYPTED_DATA_TYPE),
        (&[2], &[6, 1, 42]),
        (&[127], &long_name),
    ] {
        let unusual = encrypted_data(version, kind, &algorithm);
        assert!(!check_usual_content(&unusual));
        assert_eq!(make_usual_content(&unusual), usual);
        let list = element(0x30, &[&usual, &unusual]);
        assert!(!check_usual_contents(&list));
        assert_eq!(make_usual_contents(&list), element(0x30, &[&usual, &usual]));
        let archive = element(0x30, &[&[2, 1, 3], &unusual, &[5, 0]]);
        assert!(!check_usual_archive(&archive));
        assert_eq!(make_usual_archive(&archive), element(0x30, &[&[2, 1, 3], &usual, &[5, 0]]));
    }
    // What is no version or no name stays, so that it is refused as such.
    for (version, kind) in [
        (&[][..], &DATA_TYPE[..]),
        (&[1, 0], &DATA_TYPE),
        (&[0, 0], &DATA_TYPE),
        (&[0], &[6, 0]),
        (&[0], &[6, 2, 42, 0x83]),
        (&[0], &[6, 3, 42, 0x80, 1]),
        (&[0], &element(6, &[&[255; 10], &[1]])),
        (&[0], &[4, 1, 42]),
    ] {
        let wrong = encrypted_data(version, kind, &algorithm);
        assert!(check_usual_content(&wrong));
        assert_eq!(make_usual_content(&wrong), wrong);
    }
    let check = |name: &[u8]| {
        let digest = element(0x30, &[&element(0x30, &[name]), &[4, 1, 7]]);
        let mac = element(0x30, &[&digest, &[4, 1, 8], &[2, 1, 9]]);
        element(0x30, &[&[2, 1, 3], &usual, &mac])
    };
    assert_eq!(make_usual_check(&check(&long_name)), check(&SHA1));
    assert_eq!(make_usual_check(&check(&SHA1)), check(&SHA1));
    let without = element(0x30, &[&[2, 1, 3], &usual]);
    assert_eq!(make_usual_check(&without), without);
    assert_eq!(content_of(&without), Some(usual));
}

#[test]
fn archives_are_looked_over_before_they_are_opened() {
    let good = archive(Some(&bytes(ROOT)));
    assert_eq!(make_usual_archive(&good), good);
    assert_eq!(make_usual_check(&good), good);
    assert!(check_held(&good, PASSWORD));
    let held = match p12::PFX::parse(&good).unwrap().auth_safe {
        p12::ContentInfo::Data(held) => held,
        _ => panic!("plain contents"),
    };
    assert_eq!(find_bags_archive(&good, PASSWORD), make_plain_archive(&held));
    assert!(check_held(&make_plain_archive(&held), PASSWORD));
    let opened = p12::PFX::parse(&make_plain_archive(&held)).unwrap();
    assert_eq!(opened.key_bags(PASSWORD).unwrap(), vec![bytes(KEY)]);

    let plain = element(0x30, &[&DATA_TYPE, &element(0xa0, &[&[4, 2, 0x30, 0]])]);
    let e = parse_p12_certificate(&archive_around(&[plain.clone()]), PASSWORD).unwrap_err();
    assert_eq!(e.to_text(), "TLS error: PKCS12 archive must contain exactly one private key");

    let bags = bag(&[6, 2, 42, 3], &FAR, &[]);
    let inside = element(0x30, &[&DATA_TYPE, &element(0xa0, &[&element(4, &[&bags])])]);
    let far = archive_around(&[plain, inside]);
    assert!(!check_held(&far, PASSWORD));
    let e = parse_p12_certificate(&far, PASSWORD).unwrap_err();
    assert_eq!(
        e.to_text(),
        "TLS error: failed to decrypt PKCS12 private key: unreadable element"
    );
}

#[test]
fn versions_types_and_digests_that_are_not_used_do_not_matter() {
    let good = archive(Some(&bytes(ROOT)));
    let place = |data: &[u8], part: &[u8]| {
        (0..data.len()).rev().find(|i| data[*i..].starts_with(part)).unwrap()
    };
    let mut other_digest = good.clone();
    let at = place(&good, &SHA1);
    other_digest[at + 6] = 27;
    let parsed = parse_p12_certificate(&other_digest, PASSWORD).unwrap();
    assert_eq!(parsed.cert_chain, vec![bytes(LEAF), bytes(ROOT)]);

    let held = match p12::PFX::parse(&good).unwrap().auth_safe {
        p12::ContentInfo::Data(held) => held,
        _ => panic!("plain contents"),
    };
    let (start, end) = find_contents(&held, 0).unwrap();
    let middle = find_behind(&held, start).unwrap();
    let mut encrypted = held[start..middle].to_vec();
    let version = (0..encrypted.len()).find(|i| encrypted[*i..].starts_with(&[2, 1, 0])).unwrap();
    encrypted[version + 2] = 2;
    let kind = (0..encrypted.len()).find(|i| encrypted[*i..].starts_with(&DATA_TYPE)).unwrap();
    encrypted[kind + 10] = 2;
    assert!(!check_usual_content(&encrypted));
    let unusual = archive_around(&[encrypted, held[middle..end].to_vec()]);
    let parsed = parse_p12_certificate(&unusual, PASSWORD).unwrap();
    assert_eq!(parsed.private_key, bytes(KEY));
    assert_eq!(parsed.cert_chain, vec![bytes(LEAF), bytes(ROOT)]);
}

#[test]
fn passwords_are_encoded_in_units_of_two_bytes() {
    assert_eq!(encode_password(""), vec![0, 0]);
    assert_eq!(encode_password("a\u{20ac}"), vec![0, 0x61, 0x20, 0xac, 0, 0]);
    assert_eq!(encode_password("\u{1f600}"), vec![0xd8, 0x3d, 0xde, 0x00, 0, 0]);
}
