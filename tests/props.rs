use magisk_package::cert::apk_version_code;
use magisk_package::props::{comment_version_code, parse_decimal_i32};

fn apk_with_comment(comment: &[u8]) -> Vec<u8> {
    let mut out = vec![0u8; 30];
    out.extend_from_slice(&0x06054B50u32.to_le_bytes());
    out.extend_from_slice(&[0u8; 12]);
    out.extend_from_slice(&0u32.to_le_bytes());
    out.extend_from_slice(&(comment.len() as u16).to_le_bytes());
    out.extend_from_slice(comment);
    out
}

#[test]
fn decimals() {
    assert_eq!(parse_decimal_i32(&b"27001".to_vec()), Some(27001));
    assert_eq!(parse_decimal_i32(&b"-42".to_vec()), Some(-42));
    assert_eq!(parse_decimal_i32(&b"+7".to_vec()), Some(7));
    assert_eq!(parse_decimal_i32(&b"2147483647".to_vec()), Some(i32::MAX));
    assert_eq!(parse_decimal_i32(&b"-2147483648".to_vec()), Some(i32::MIN));
    assert_eq!(parse_decimal_i32(&b"2147483648".to_vec()), None);
    assert_eq!(parse_decimal_i32(&b"99999999999999".to_vec()), None);
    assert_eq!(parse_decimal_i32(&b"".to_vec()), None);
    assert_eq!(parse_decimal_i32(&b"-".to_vec()), None);
    assert_eq!(parse_decimal_i32(&b"12a".to_vec()), None);
}

#[test]
fn version_code_property() {
    assert_eq!(comment_version_code(&b"versionCode=27001".to_vec()), Some(27001));
    assert_eq!(comment_version_code(&b"name=x\nversionCode=30\nversionCode=31\n".to_vec()), Some(30));
    assert_eq!(comment_version_code(&b"versionCode=abc".to_vec()), Some(0));
    assert_eq!(comment_version_code(&b"version=1\nCode=2".to_vec()), None);
    assert_eq!(comment_version_code(&b"".to_vec()), None);
}

#[test]
fn version_code_from_apk() {
    assert_eq!(apk_version_code(apk_with_comment(b"versionCode=26400\n")), Some(26400));
    assert_eq!(apk_version_code(apk_with_comment(b"")), None);
    assert_eq!(apk_version_code(vec![0u8; 10]), None);
}
