use rantang::crypto::sign_message;
use rantang::error::ErrorKind;
use rantang::nonce::nonce_from_secs;
use rantang::pipeline::{
    authorize, get_header_value, process_upload, verify_signature_nonce_range, FilePart,
    UploadStream,
};
use rantang::store::{validate_filename, StoreConfig};

const SECRET: &str = "crMwNFYF1cPeFqC16h43viK87zSEqlvt";

fn jpeg_payload(len: usize) -> Vec<u8> {
    let mut v = vec![0xff, 0xd8, 0xff, 0xe0, 0x00, 0x10, 0x4a, 0x46, 0x49, 0x46];
    while v.len() < len {
        v.push(0x42);
    }
    v
}

fn sign_nonce(n: u64) -> String {
    sign_message(SECRET.as_bytes(), n.to_string().as_bytes())
}

fn config() -> StoreConfig {
    StoreConfig {
        default_dir: String::from("out"),
        extra_dirs: vec![(String::from("3"), String::from("alt"))],
    }
}

#[test]
fn signature_accepted_across_the_tolerance_window() {
    let n = nonce_from_secs(1_700_000_000);
    let sig = sign_nonce(n);
    for current in [n - 1, n, n + 1] {
        let window = [current - 1, current, current + 1];
        assert!(verify_signature_nonce_range(SECRET, &window, &sig));
    }
    for current in [n - 2, n + 2] {
        let window = [current - 1, current, current + 1];
        assert!(!verify_signature_nonce_range(SECRET, &window, &sig));
    }
}

#[test]
fn header_checks_report_missing_and_empty() {
    assert!(matches!(get_header_value("X-Signature", Some("abc")), Ok("abc")));
    let missing = get_header_value("X-Signature", None).unwrap_err();
    assert_eq!(missing.kind(), ErrorKind::MissingHeader);
    assert_eq!(missing.status_code(), 400);
    assert_eq!(missing.message(), "No X-Signature header");
    let empty = get_header_value("X-Nonce", Some("")).unwrap_err();
    assert_eq!(empty.kind(), ErrorKind::EmptyHeader);
    assert_eq!(empty.message(), "X-Nonce header is empty");
}

#[test]
fn authorize_accepts_a_fresh_signature_and_rejects_a_stale_one() {
    let n = 56_666_667u64;
    let sig = sign_nonce(n);
    let hint = n.to_string();
    assert!(authorize(SECRET, n, Some(&sig), Some(&hint)).is_ok());
    // The hint is advisory: a wrong hint does not break a valid signature.
    assert!(authorize(SECRET, n, Some(&sig), Some("0")).is_ok());
    let stale = authorize(SECRET, n + 2, Some(&sig), Some(&hint)).unwrap_err();
    assert_eq!(stale.kind(), ErrorKind::InvalidSignature);
    assert_eq!(stale.status_code(), 400);
}

#[test]
fn filenames_with_path_separators_are_invalid() {
    assert!(validate_filename("a.jpg"));
    assert!(validate_filename("IMG_9211.jpg"));
    assert!(!validate_filename("../evil.jpg"));
    assert!(!validate_filename("sub/dir.jpg"));
}

#[test]
fn upload_succeeds_end_to_end_with_a_signed_nonce() {
    let n = nonce_from_secs(1_700_000_000);
    let sig = sign_nonce(n);
    let hint = n.to_string();
    let part = FilePart { filename: Some(String::from("a.jpg")), chunks: vec![jpeg_payload(50)] };
    let out = process_upload(
        &config(),
        SECRET,
        n,
        n,
        Some(&sig),
        Some(&hint),
        None,
        Some(&part),
    )
    .expect("a signed valid upload succeeds");
    assert_eq!(out.nonce, n);
    assert_eq!(out.extension, "jpg");
    assert_eq!(out.sha1.len(), 40);
    assert!(out.sha1.chars().all(|c| c.is_ascii_hexdigit() && !c.is_ascii_uppercase()));
    assert_eq!(out.sha1, hex::encode(sha1_digest_of(&jpeg_payload(50))));
    assert_eq!(out.dindex, None);
    assert_eq!(out.staging_path, format!("out/tmp-{}-a.jpg", n));
    assert_eq!(out.final_path, format!("out/{}.jpg", out.sha1));
}

fn sha1_digest_of(data: &[u8]) -> Vec<u8> {
    let mut h = <sha1::Sha1 as sha1::Digest>::new();
    sha1::Digest::update(&mut h, data);
    sha1::Digest::finalize(h).to_vec()
}

#[test]
fn upload_with_traversal_filename_is_a_client_error() {
    let n = nonce_from_secs(1_700_000_000);
    let sig = sign_nonce(n);
    let hint = n.to_string();
    let part =
        FilePart { filename: Some(String::from("../evil.jpg")), chunks: vec![jpeg_payload(50)] };
    let err = process_upload(
        &config(),
        SECRET,
        n,
        n,
        Some(&sig),
        Some(&hint),
        None,
        Some(&part),
    )
    .unwrap_err();
    assert_eq!(err.kind(), ErrorKind::InvalidFilename);
    assert_eq!(err.status_code(), 400);
}

#[test]
fn identical_content_lands_on_the_same_final_path() {
    let n = nonce_from_secs(1_700_000_000);
    let sig = sign_nonce(n);
    let hint = n.to_string();
    let first = FilePart { filename: Some(String::from("a.jpg")), chunks: vec![jpeg_payload(50)] };
    let second =
        FilePart { filename: Some(String::from("other-name.jpg")), chunks: vec![jpeg_payload(50)] };
    let out1 =
        process_upload(&config(), SECRET, n, n, Some(&sig), Some(&hint), None, Some(&first))
            .unwrap();
    let out2 =
        process_upload(&config(), SECRET, n, n + 1, Some(&sig), Some(&hint), None, Some(&second))
            .unwrap();
    assert_eq!(out1.sha1, out2.sha1);
    assert_eq!(out1.final_path, out2.final_path);
    assert_ne!(out1.staging_path, out2.staging_path);
}

#[test]
fn unsupported_format_is_rejected() {
    let n = nonce_from_secs(1_700_000_000);
    let sig = sign_nonce(n);
    let hint = n.to_string();
    let part = FilePart {
        filename: Some(String::from("a.jpg")),
        chunks: vec![b"definitely not an image".to_vec()],
    };
    let err = process_upload(
        &config(),
        SECRET,
        n,
        n,
        Some(&sig),
        Some(&hint),
        None,
        Some(&part),
    )
    .unwrap_err();
    assert_eq!(err.kind(), ErrorKind::UnsupportedFormat);
    assert_eq!(err.status_code(), 400);
}

#[test]
fn oversized_upload_is_rejected_with_the_size_limit() {
    let n = nonce_from_secs(1_700_000_000);
    let sig = sign_nonce(n);
    let hint = n.to_string();
    let part = FilePart {
        filename: Some(String::from("big.jpg")),
        chunks: vec![jpeg_payload(50), vec![0u8; 21 * 1024 * 1024]],
    };
    let err = process_upload(
        &config(),
        SECRET,
        n,
        n,
        Some(&sig),
        Some(&hint),
        None,
        Some(&part),
    )
    .unwrap_err();
    assert_eq!(err.kind(), ErrorKind::SizeLimit);
}

#[test]
fn upload_at_exactly_the_cap_is_accepted() {
    let n = nonce_from_secs(1_700_000_000);
    let sig = sign_nonce(n);
    let hint = n.to_string();
    let part = FilePart {
        filename: Some(String::from("cap.jpg")),
        chunks: vec![jpeg_payload(20 * 1024 * 1024)],
    };
    assert!(
        process_upload(&config(), SECRET, n, n, Some(&sig), Some(&hint), None, Some(&part)).is_ok()
    );
}

#[test]
fn missing_file_field_and_missing_filename_are_client_errors() {
    let n = nonce_from_secs(1_700_000_000);
    let sig = sign_nonce(n);
    let hint = n.to_string();
    let none = process_upload(&config(), SECRET, n, n, Some(&sig), Some(&hint), None, None)
        .unwrap_err();
    assert_eq!(none.kind(), ErrorKind::NoFile);
    assert_eq!(none.message(), "No file uploaded");
    let anonymous = FilePart { filename: None, chunks: vec![jpeg_payload(50)] };
    let err = process_upload(
        &config(),
        SECRET,
        n,
        n,
        Some(&sig),
        Some(&hint),
        None,
        Some(&anonymous),
    )
    .unwrap_err();
    assert_eq!(err.kind(), ErrorKind::NoFilename);
}

#[test]
fn empty_body_is_rejected_as_unclassified() {
    let n = nonce_from_secs(1_700_000_000);
    let sig = sign_nonce(n);
    let hint = n.to_string();
    let part = FilePart { filename: Some(String::from("a.jpg")), chunks: vec![] };
    let err = process_upload(
        &config(),
        SECRET,
        n,
        n,
        Some(&sig),
        Some(&hint),
        None,
        Some(&part),
    )
    .unwrap_err();
    assert_eq!(err.kind(), ErrorKind::UnsupportedFormat);
}

#[test]
fn alternate_destination_roots_are_resolved_by_index() {
    let cfg = config();
    let n = nonce_from_secs(1_700_000_000);
    let sig = sign_nonce(n);
    let hint = n.to_string();
    let part = FilePart { filename: Some(String::from("a.jpg")), chunks: vec![jpeg_payload(50)] };
    let out = process_upload(&cfg, SECRET, n, n, Some(&sig), Some(&hint), Some("3"), Some(&part))
        .unwrap();
    assert_eq!(out.dindex, Some(String::from("3")));
    assert!(out.final_path.starts_with("alt/"));
    assert!(out.staging_path.starts_with("alt/"));
    let err =
        process_upload(&cfg, SECRET, n, n, Some(&sig), Some(&hint), Some("7"), Some(&part))
            .unwrap_err();
    assert_eq!(err.kind(), ErrorKind::UnknownDirIndex);
    assert_eq!(err.status_code(), 400);
    // An empty index header falls back to the default root.
    let fallback =
        process_upload(&cfg, SECRET, n, n, Some(&sig), Some(&hint), Some(""), Some(&part))
            .unwrap();
    assert_eq!(fallback.dindex, None);
    assert!(fallback.final_path.starts_with("out/"));
}

#[test]
fn missing_headers_stop_the_upload_before_the_body() {
    let n = nonce_from_secs(1_700_000_000);
    let part = FilePart { filename: Some(String::from("a.jpg")), chunks: vec![jpeg_payload(50)] };
    let err = process_upload(&config(), SECRET, n, n, None, None, None, Some(&part)).unwrap_err();
    assert_eq!(err.kind(), ErrorKind::MissingHeader);
    let sig = sign_nonce(n);
    let err2 = process_upload(
        &config(),
        SECRET,
        n,
        n,
        Some(&sig),
        Some(""),
        None,
        Some(&part),
    )
    .unwrap_err();
    assert_eq!(err2.kind(), ErrorKind::EmptyHeader);
}

#[test]
fn upload_stream_tracks_size_and_format_incrementally() {
    let mut stream = UploadStream::begin();
    assert!(stream.accept_chunk(&jpeg_payload(1024)).is_ok());
    assert!(stream.accept_chunk(&[0u8; 1024]).is_ok());
    let err = stream.accept_chunk(&vec![0u8; 21 * 1024 * 1024]).unwrap_err();
    assert_eq!(err.kind(), ErrorKind::SizeLimit);
    assert_eq!(err.message(), "File size exceeds 20 MB limit");
    let mut fresh = UploadStream::begin();
    let err2 = fresh.accept_chunk(b"plain text, not an image").unwrap_err();
    assert_eq!(err2.kind(), ErrorKind::UnsupportedFormat);
}
