use git_hud::binary::{
    binary_check_located, binary_check_probed, binary_check_start, content_is_binary, is_binary,
    BinaryCheck,
};
use git_hud::StatusCode;

const TEXT_PROBE: &[u8] = b"text/plain; charset=us-ascii\n";

#[test]
fn deletion_is_decided_without_lookups() {
    assert_eq!(binary_check_start(StatusCode::Deleted), BinaryCheck::Known(false));
    assert_eq!(binary_check_start(StatusCode::Modified), BinaryCheck::Locate);
    assert!(!is_binary(StatusCode::Deleted, true, b"application/octet-stream; charset=binary", &[0, 1]));
}

#[test]
fn missing_file_is_not_binary() {
    assert_eq!(binary_check_located(false), BinaryCheck::Known(false));
    assert_eq!(binary_check_located(true), BinaryCheck::Probe);
    assert!(!is_binary(StatusCode::Untracked, false, b"", &[0]));
}

#[test]
fn probe_reports() {
    assert_eq!(
        binary_check_probed(b"application/zip; charset=binary\n"),
        BinaryCheck::Known(true)
    );
    assert_eq!(
        binary_check_probed(b"inode/x-empty; charset=binary\n"),
        BinaryCheck::ReadContent
    );
    assert_eq!(binary_check_probed(TEXT_PROBE), BinaryCheck::ReadContent);
    assert!(is_binary(StatusCode::Added, true, b"application/zip; charset=binary", &[0x50, 0x4B, 0x03, 0x04]));
}

#[test]
fn text_contents_are_not_binary() {
    for content in ["", "\n\n\n", "Hello, World!\n", "Hello, 世界!", "12345\n67890"] {
        assert!(!content_is_binary(content.as_bytes()), "{:?}", content);
        assert!(!is_binary(StatusCode::Untracked, true, TEXT_PROBE, content.as_bytes()));
    }
    let large = "A".repeat(100_000);
    assert!(!content_is_binary(large.as_bytes()));
    assert!(!is_binary(StatusCode::Modified, true, b"inode/x-empty; charset=binary", b""));
}

#[test]
fn binary_contents() {
    let cases: [&[u8]; 5] = [
        &[0u8, 159, 146, 150],
        &[0x89, 0x50, 0x4E, 0x47, 0x0D, 0x0A, 0x1A, 0x0A],
        &[0xFF, 0xD8, 0xFF, 0xE0],
        &[0x4D, 0x5A, 0x90, 0x00],
        b"Start\0\0End",
    ];
    for content in cases {
        assert!(content_is_binary(content), "{:?}", content);
        assert!(is_binary(StatusCode::Untracked, true, TEXT_PROBE, content));
    }
}
