use magisk_package::cert::{extract_certificate, read_certificate, CertError};

fn pair(id: u32, value: &[u8]) -> Vec<u8> {
    let mut out = Vec::new();
    out.extend_from_slice(&((value.len() + 4) as u64).to_le_bytes());
    out.extend_from_slice(&id.to_le_bytes());
    out.extend_from_slice(value);
    out
}

fn v2_value(cert: &[u8]) -> Vec<u8> {
    let digests = [9u8; 6];
    let mut v = Vec::new();
    v.extend_from_slice(&[0u8; 12]);
    v.extend_from_slice(&(digests.len() as u32).to_le_bytes());
    v.extend_from_slice(&digests);
    v.extend_from_slice(&0u32.to_le_bytes());
    v.extend_from_slice(&(cert.len() as u32).to_le_bytes());
    v.extend_from_slice(cert);
    v.extend_from_slice(&[7u8; 5]);
    v
}

fn build_apk(pairs: &[Vec<u8>], comment: &[u8]) -> Vec<u8> {
    let mut out = vec![0xAAu8; 10];
    let body: Vec<u8> = pairs.concat();
    let size = (body.len() + 24) as u64;
    out.extend_from_slice(&size.to_le_bytes());
    out.extend_from_slice(&body);
    out.extend_from_slice(&size.to_le_bytes());
    out.extend_from_slice(b"APK Sig Block 42");
    let cd = out.len() as u32;
    out.extend_from_slice(&[0x55u8; 8]);
    out.extend_from_slice(&0x06054B50u32.to_le_bytes());
    out.extend_from_slice(&[0u8; 12]);
    out.extend_from_slice(&cd.to_le_bytes());
    out.extend_from_slice(&(comment.len() as u16).to_le_bytes());
    out.extend_from_slice(comment);
    out
}

fn simple_apk(cert: &[u8]) -> Vec<u8> {
    build_apk(&[pair(0x7109871A, &v2_value(cert))], b"")
}

#[test]
fn certificate_round_trip() {
    for cert in [b"CERTIFICATE-BYTES".to_vec(), vec![0u8; 1], (0..=255u8).collect::<Vec<u8>>()] {
        let apk = simple_apk(&cert);
        assert_eq!(extract_certificate(apk.clone()), Ok(cert.clone()));
        assert_eq!(read_certificate(apk, -1), cert);
    }
}

#[test]
fn certificate_after_other_pairs_and_comment() {
    let cert = b"the-cert".to_vec();
    let apk = build_apk(
        &[pair(0x42726577, &[1, 2, 3, 4, 5]), pair(0x7109871A, &v2_value(&cert))],
        b"versionCode=27001\n",
    );
    assert_eq!(read_certificate(apk.clone(), 0), cert);
    assert_eq!(read_certificate(apk, -1), cert);
}

#[test]
fn truncation_never_yields_a_certificate() {
    let apk = simple_apk(b"CERTIFICATE-BYTES");
    for k in 0..apk.len() {
        let cut = apk[..k].to_vec();
        assert!(extract_certificate(cut.clone()).is_err(), "cut at {}", k);
        assert!(read_certificate(cut, 0).is_empty());
    }
}

#[test]
fn flipped_block_magic_is_rejected() {
    let mut apk = simple_apk(b"CERTIFICATE-BYTES");
    let at = apk.windows(16).position(|w| w == b"APK Sig Block 42").unwrap();
    apk[at] ^= 0x01;
    assert_eq!(extract_certificate(apk.clone()), Err(CertError::InvalidSigningBlockMagic));
    assert!(read_certificate(apk, 0).is_empty());
}

#[test]
fn full_length_comment_without_record_is_invalid_format() {
    let apk = vec![0u8; 22 + 65535];
    assert_eq!(extract_certificate(apk), Err(CertError::InvalidApkFormat));
}

#[test]
fn record_with_full_length_comment_is_found() {
    let comment = vec![b'x'; 65535];
    let apk = build_apk(&[pair(0x7109871A, &v2_value(b"c"))], &comment);
    assert_eq!(extract_certificate(apk), Ok(b"c".to_vec()));
}

#[test]
fn signing_block_size_mismatch() {
    let mut apk = simple_apk(b"cert");
    apk[10] ^= 0x01;
    assert_eq!(extract_certificate(apk), Err(CertError::InvalidSigningBlockSize));
}

#[test]
fn block_without_v2_record() {
    let apk = build_apk(&[pair(0x42726577, &[1, 2, 3])], b"");
    assert_eq!(extract_certificate(apk), Err(CertError::CannotFindCertificate));
}

#[test]
fn central_directory_offset_too_small() {
    let mut apk = vec![0u8; 22];
    apk[0..4].copy_from_slice(&0x06054B50u32.to_le_bytes());
    apk[16..20].copy_from_slice(&10u32.to_le_bytes());
    assert_eq!(extract_certificate(apk), Err(CertError::InvalidSeek));
}

#[test]
fn certificate_length_past_end() {
    let mut apk = simple_apk(b"cert");
    let at = apk.windows(4).position(|w| w == b"cert").unwrap();
    apk[at - 4..at].copy_from_slice(&0x0100_0000u32.to_le_bytes());
    assert_eq!(extract_certificate(apk), Err(CertError::UnexpectedEof));
}

#[test]
fn tiny_inputs() {
    assert_eq!(extract_certificate(Vec::new()), Err(CertError::InvalidSeek));
    assert_eq!(extract_certificate(vec![0u8; 2]), Err(CertError::InvalidSeek));
}
