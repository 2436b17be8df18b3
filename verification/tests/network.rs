use netdout::error::DownloadError;
use netdout::network::{accepts_byte_ranges, contains, parse_content_length, range_header, RemoteMetadata};

#[test]
fn probe_reads_both_headers() {
    let metadata = RemoteMetadata::from_probe(200, Some("9"), Some("bytes"));
    assert_eq!(
        metadata,
        Ok(RemoteMetadata { content_length: Some(9), range_supported: true })
    );
}

#[test]
fn probe_without_headers() {
    let metadata = RemoteMetadata::from_probe(204, None, None);
    assert_eq!(
        metadata,
        Ok(RemoteMetadata { content_length: None, range_supported: false })
    );
}

#[test]
fn probe_with_headers_that_say_nothing() {
    let metadata = RemoteMetadata::from_probe(299, Some("nine"), Some("none"));
    assert_eq!(
        metadata,
        Ok(RemoteMetadata { content_length: None, range_supported: false })
    );
}

#[test]
fn probe_fails_on_a_status_that_is_no_success() {
    for status in [100u16, 199, 300, 301, 404, 500, 0, u16::MAX] {
        assert_eq!(
            RemoteMetadata::from_probe(status, Some("9"), Some("bytes")),
            Err(DownloadError::Probe(status))
        );
    }
    assert!(RemoteMetadata::from_probe(200, None, None).is_ok());
    assert!(RemoteMetadata::from_probe(299, None, None).is_ok());
}

#[test]
fn length_header() {
    assert_eq!(parse_content_length(Some("1048576")), Some(1048576));
    assert_eq!(parse_content_length(Some("0")), Some(0));
    assert_eq!(parse_content_length(Some(" 12")), None);
    assert_eq!(parse_content_length(Some("")), None);
    assert_eq!(parse_content_length(None), None);
}

#[test]
fn ranges_header() {
    assert!(accepts_byte_ranges(Some("bytes")));
    assert!(accepts_byte_ranges(Some("none, bytes")));
    assert!(accepts_byte_ranges(Some("kilobytes")));
    assert!(!accepts_byte_ranges(Some("none")));
    assert!(!accepts_byte_ranges(Some("Bytes")));
    assert!(!accepts_byte_ranges(Some("byte")));
    assert!(!accepts_byte_ranges(Some("")));
    assert!(!accepts_byte_ranges(None));
}

#[test]
fn contains_finds_text() {
    assert!(contains("abcabd", "abd"));
    assert!(contains("abc", ""));
    assert!(contains("", ""));
    assert!(contains("aab", "ab"));
    assert!(!contains("ab", "abc"));
    assert!(!contains("abcabc", "cb"));
    assert!(contains("größe", "öß"));
}

#[test]
fn range_header_text() {
    assert_eq!(range_header(0, 3), "bytes=0-3");
    assert_eq!(range_header(4, 7), "bytes=4-7");
    assert_eq!(range_header(8, 8), "bytes=8-8");
    assert_eq!(range_header(6, 7), "bytes=6-7");
    assert_eq!(range_header(2097152, 4194303), "bytes=2097152-4194303");
}
