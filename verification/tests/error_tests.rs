use rantang::error::{ErrorKind, MyError};

#[test]
fn client_errors_surface_as_bad_requests() {
    for kind in [
        ErrorKind::MissingHeader,
        ErrorKind::EmptyHeader,
        ErrorKind::InvalidSignature,
        ErrorKind::UnknownDirIndex,
        ErrorKind::NoFile,
        ErrorKind::NoFilename,
        ErrorKind::InvalidFilename,
        ErrorKind::UnsupportedFormat,
        ErrorKind::SizeLimit,
    ] {
        let e = MyError::new(kind, String::from("detail"));
        assert_eq!(e.status_code(), 400);
        assert_eq!(e.kind(), kind);
        assert_eq!(e.message(), "detail");
    }
}

#[test]
fn io_failures_surface_as_internal_errors() {
    let e = MyError::io(String::from("disk full"));
    assert_eq!(e.kind(), ErrorKind::Io);
    assert_eq!(e.status_code(), 500);
    assert_eq!(e.message(), "disk full");
}
