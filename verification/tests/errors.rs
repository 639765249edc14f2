use std::io;
use survive::{ignore_eof, Error};

#[test]
fn ignore_eof_passes_values_through() {
    let r = ignore_eof::<u32>(Ok(7));
    assert!(matches!(r, Ok(Some(7))));
}

#[test]
fn ignore_eof_swallows_unexpected_eof() {
    let r = ignore_eof::<u32>(Err(io::Error::new(io::ErrorKind::UnexpectedEof, "short")));
    assert!(matches!(r, Ok(None)));
}

#[test]
fn ignore_eof_keeps_other_failures() {
    let r = ignore_eof::<u32>(Err(io::Error::new(io::ErrorKind::PermissionDenied, "no")));
    match r {
        Err(Error::Io(e)) => assert_eq!(e.kind(), io::ErrorKind::PermissionDenied),
        _ => panic!("expected an I/O error"),
    }
}
