use expurgator::error::PackError;
use expurgator::sniff::{infer_input_file, same_text, sniff, MimeKind};

#[test]
fn test_infer_input_file() {
    let buf = [0x50, 0x4B, 0x3, 0x4];
    assert_eq!(infer_input_file(&buf).unwrap(), "application/zip");

    let buf = [0xFF, 0xD8, 0xFF, 0xAA];
    assert!(infer_input_file(&buf).is_err());
}

#[test]
fn sniff_tells_the_kinds_apart() {
    assert_eq!(sniff(&[0x50, 0x4B, 0x3, 0x4]), MimeKind::Zip);
    assert_eq!(sniff(&[0x1F, 0x8B, 0x08, 0x00]), MimeKind::Gzip);
    assert_eq!(sniff(b"BZh91AY&SY"), MimeKind::Bzip2);
    assert_eq!(sniff(&[0xFD, 0x37, 0x7A, 0x58, 0x5A, 0x00, 0x00]), MimeKind::Xz);
    let mut tar = vec![0u8; 512];
    tar[257..262].copy_from_slice(b"ustar");
    assert_eq!(sniff(&tar), MimeKind::Tar);
}

#[test]
fn sniff_refuses_what_is_no_archive() {
    assert_eq!(sniff(&[0xFF, 0xD8, 0xFF, 0xAA]), MimeKind::Unsupported);
    assert_eq!(sniff(&[]), MimeKind::Unsupported);
    assert_eq!(sniff(b"plain text"), MimeKind::Unsupported);
    assert!(matches!(infer_input_file(&[]), Err(PackError::UnsupportedFileType(None))));
}

#[test]
fn sniff_refuses_archives_of_other_kinds() {
    let rar = [0x52, 0x61, 0x72, 0x21, 0x1A, 0x07, 0x00, 0x00];
    assert_eq!(infer_input_file(&rar).unwrap(), "application/vnd.rar");
    assert_eq!(sniff(&rar), MimeKind::Unsupported);
}

#[test]
fn media_types_are_compared_by_their_text() {
    assert_eq!(MimeKind::from_mime("application/x-tar"), MimeKind::Tar);
    assert_eq!(MimeKind::from_mime("application/x-ta"), MimeKind::Unsupported);
    assert_eq!(MimeKind::from_mime(""), MimeKind::Unsupported);
    assert!(same_text("héllo", "héllo"));
    assert!(!same_text("héllo", "hello"));
}
