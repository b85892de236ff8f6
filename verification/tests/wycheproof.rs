use std::collections::HashMap;

use der_core::hexstr::{hex_blob_lines, parse_hex, to_hex};
use der_core::wycheproof::{
    case_result, dec_string, description, int_string, parse_case_result, Case, CaseResult, Group,
    Suite, TestInfo,
};
use der_core::{aead, aes_cmac, aes_siv, hkdf};

fn suite(algorithm: &str) -> Suite {
    Suite {
        algorithm: algorithm.to_string(),
        generator_version: "0.9".to_string(),
        number_of_tests: 1,
        notes: HashMap::new(),
    }
}

fn case(id: i32, comment: &str, result: CaseResult) -> Case {
    Case { case_id: id, comment: comment.to_string(), result, flags: vec![] }
}

#[test]
fn hex_parses_mixed_case() {
    assert_eq!(parse_hex("0aFf"), Some(vec![0x0A, 0xFF]));
    assert_eq!(parse_hex(""), Some(vec![]));
    assert_eq!(parse_hex("00"), Some(vec![0x00]));
}

#[test]
fn hex_rejects_odd_and_strangers() {
    assert_eq!(parse_hex("abc"), None);
    assert_eq!(parse_hex("zz"), None);
    assert_eq!(parse_hex("0g"), None);
}

#[test]
fn hex_renders_lowercase() {
    assert_eq!(to_hex(&[0xDE, 0xAD, 0x01]), "dead01");
    assert_eq!(to_hex(&[]), "");
}

#[test]
fn hex_blob_lines_per_blob() {
    let info = TestInfo { data: vec![vec![0x00], vec![0xFF, 0x10]], desc: "x".to_string() };
    let lines = hex_blob_lines(&info);
    assert_eq!(lines, vec!["00".to_string(), "ff10".to_string()]);
}

#[test]
fn case_results_parse_and_render() {
    assert_eq!(parse_case_result("valid"), Some(CaseResult::Valid));
    assert_eq!(parse_case_result("invalid"), Some(CaseResult::Invalid));
    assert_eq!(parse_case_result("acceptable"), Some(CaseResult::Acceptable));
    assert_eq!(parse_case_result("flaky"), None);
    assert_eq!(CaseResult::Valid.as_str(), "valid");
    assert_eq!(CaseResult::Invalid.as_str(), "invalid");
    assert_eq!(CaseResult::Acceptable.as_str(), "acceptable");
}

#[test]
fn case_result_bytes() {
    assert_eq!(case_result(&case(1, "", CaseResult::Valid)), 0);
    assert_eq!(case_result(&case(1, "", CaseResult::Invalid)), 1);
    assert_eq!(case_result(&case(1, "", CaseResult::Acceptable)), 2);
}

#[test]
fn decimal_rendering() {
    assert_eq!(dec_string(0), "0");
    assert_eq!(dec_string(7), "7");
    assert_eq!(dec_string(40), "40");
    assert_eq!(dec_string(1234567890), "1234567890");
    assert_eq!(int_string(-123), "-123");
    assert_eq!(int_string(0), "0");
    assert_eq!(int_string(i32::MIN), "-2147483648");
}

#[test]
fn description_line() {
    let s = suite("AES-GCM");
    let c = case(7, "empty nonce", CaseResult::Invalid);
    assert_eq!(description(&s, &c), "AES-GCM case 7: empty nonce");
}

fn aead_case(id: i32) -> aead::TestCase {
    aead::TestCase {
        case: case(id, "c", CaseResult::Valid),
        aad: vec![0xAA],
        ct: vec![0xC1, 0xC2],
        iv: vec![0x1F],
        key: vec![0x4B],
        msg: vec![0x4D],
        tag: vec![0x7A],
    }
}

#[test]
fn aead_generator_filters_and_dumps() {
    let s = aead::TestSuite {
        suite: suite("AES-GCM"),
        test_groups: vec![
            aead::TestGroup {
                group: Group { group_type: "Aead".to_string() },
                iv_size: 96,
                key_size: 128,
                tag_size: 128,
                tests: vec![aead_case(1)],
            },
            aead::TestGroup {
                group: Group { group_type: "Aead".to_string() },
                iv_size: 96,
                key_size: 64,
                tag_size: 128,
                tests: vec![aead_case(2)],
            },
        ],
    };
    let infos = aead::aes_gcm_variant(&s, "AES-GCM").expect("matching algorithm");
    assert_eq!(infos.len(), 1);
    let info = &infos[0];
    assert_eq!(
        info.data,
        vec![vec![0x4B], vec![0x1F], vec![0xAA], vec![0x4D], vec![0xC1, 0xC2, 0x7A], vec![0u8]]
    );
    assert_eq!(info.desc, "AES-GCM case 1: c");
    assert!(aead::aes_gcm_variant(&s, "AES-CMAC").is_none());
}

#[test]
fn aead_nonce_size_filter() {
    let s = aead::TestSuite {
        suite: suite("XCHACHA20-POLY1305"),
        test_groups: vec![aead::TestGroup {
            group: Group { group_type: "Aead".to_string() },
            iv_size: 96,
            key_size: 256,
            tag_size: 128,
            tests: vec![aead_case(1)],
        }],
    };
    // XChaCha20 wants 192-bit nonces: the 96-bit group is skipped.
    let infos: Vec<TestInfo> =
        aead::xchacha20_poly1305(&s, "XCHACHA20-POLY1305").expect("matching algorithm");
    assert_eq!(infos.len(), 0);
    let s2 = aead::TestSuite { suite: suite("CHACHA20-POLY1305"), test_groups: vec![] };
    assert!(aead::chacha20_poly1305(&s2, "CHACHA20-POLY1305").is_some());
}

#[test]
fn cmac_generator_checks_consistency() {
    let good = aes_cmac::TestSuite {
        suite: suite("AES-CMAC"),
        test_groups: vec![aes_cmac::TestGroup {
            group: Group { group_type: "Mac".to_string() },
            key_size: 128,
            tag_size: 128,
            tests: vec![aes_cmac::TestCase {
                case: case(3, "ok", CaseResult::Acceptable),
                key: vec![0x11; 16],
                msg: vec![0x22],
                tag: vec![0x33],
            }],
        }],
    };
    let infos = aes_cmac::generator(&good, "AES-CMAC").expect("consistent suite");
    assert_eq!(infos.len(), 1);
    assert_eq!(infos[0].data, vec![vec![0x11; 16], vec![0x22], vec![0x33], vec![2u8]]);
    assert_eq!(infos[0].desc, "AES-CMAC case 3: ok");
    assert!(aes_cmac::generator(&good, "AES-GCM").is_none());

    let bad_tag = aes_cmac::TestSuite {
        suite: suite("AES-CMAC"),
        test_groups: vec![aes_cmac::TestGroup {
            group: Group { group_type: "Mac".to_string() },
            key_size: 128,
            tag_size: 12,
            tests: vec![aes_cmac::TestCase {
                case: case(4, "bad tag size", CaseResult::Valid),
                key: vec![0x11; 16],
                msg: vec![],
                tag: vec![],
            }],
        }],
    };
    assert!(aes_cmac::generator(&bad_tag, "AES-CMAC").is_none());

    let bad_key = aes_cmac::TestSuite {
        suite: suite("AES-CMAC"),
        test_groups: vec![aes_cmac::TestGroup {
            group: Group { group_type: "Mac".to_string() },
            key_size: 128,
            tag_size: 128,
            tests: vec![aes_cmac::TestCase {
                case: case(5, "short key", CaseResult::Valid),
                key: vec![0x11; 3],
                msg: vec![],
                tag: vec![],
            }],
        }],
    };
    assert!(aes_cmac::generator(&bad_key, "AES-CMAC").is_none());
}

#[test]
fn siv_generator_keeps_only_the_big_key() {
    let s = aes_siv::TestSuite {
        suite: suite("AES-SIV-CMAC"),
        test_groups: vec![
            aes_siv::TestGroup {
                group: Group { group_type: "Daead".to_string() },
                key_size: 512,
                tests: vec![aes_siv::TestCase {
                    case: case(1, "kept", CaseResult::Valid),
                    key: vec![0x01],
                    aad: vec![0x02],
                    msg: vec![0x03],
                    ct: vec![0x04],
                }],
            },
            aes_siv::TestGroup {
                group: Group { group_type: "Daead".to_string() },
                key_size: 256,
                tests: vec![aes_siv::TestCase {
                    case: case(2, "skipped", CaseResult::Valid),
                    key: vec![0x0A],
                    aad: vec![0x0B],
                    msg: vec![0x0C],
                    ct: vec![0x0D],
                }],
            },
        ],
    };
    let infos = aes_siv::generator(&s, "AES-SIV-CMAC").expect("matching algorithm");
    assert_eq!(infos.len(), 1);
    assert_eq!(infos[0].data, vec![vec![0x01], vec![0x02], vec![0x03], vec![0x04], vec![0u8]]);
    assert!(aes_siv::generator(&s, "OTHER").is_none());
}

#[test]
fn hkdf_generator_dumps_everything() {
    let s = hkdf::TestSuite {
        suite: suite("HKDF-SHA-256"),
        test_groups: vec![hkdf::TestGroup {
            group: Group { group_type: "Hkdf".to_string() },
            key_size: 256,
            tests: vec![hkdf::TestCase {
                case: case(9, "basic", CaseResult::Invalid),
                ikm: vec![0x01, 0x02],
                salt: vec![],
                info: vec![0x03],
                size: 4,
                okm: vec![0x04, 0x05, 0x06, 0x07],
            }],
        }],
    };
    let infos = hkdf::generator(&s, "HKDF-SHA-256").expect("matching algorithm");
    assert_eq!(infos.len(), 1);
    assert_eq!(
        infos[0].data,
        vec![vec![0x01, 0x02], vec![], vec![0x03], vec![0x04, 0x05, 0x06, 0x07], vec![1u8]]
    );
    assert_eq!(infos[0].desc, "HKDF-SHA-256 case 9: basic");
}
