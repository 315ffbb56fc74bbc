use alfa::downloader::{
    compress_name, dest_file_name, progress_advance, progress_total, FetchError,
};

#[test]
fn dest_name_is_last_path_segment() {
    assert_eq!(
        dest_file_name("https://example.org/pool/gcc-13.2.0.tar.xz", None),
        "gcc-13.2.0.tar.xz"
    );
    assert_eq!(dest_file_name("a/b/c", None), "c");
}

#[test]
fn dest_name_falls_back_without_slash() {
    assert_eq!(dest_file_name("archive.tar.gz", None), "tmp.bin");
    assert_eq!(dest_file_name("", None), "tmp.bin");
}

#[test]
fn dest_name_of_trailing_slash_is_empty() {
    assert_eq!(dest_file_name("https://example.org/", None), "");
}

#[test]
fn dest_name_honours_explicit_override() {
    assert_eq!(
        dest_file_name("https://example.org/pool/x.tar", Some("renamed.tar")),
        "renamed.tar"
    );
}

#[test]
fn progress_total_from_declared_length() {
    assert_eq!(progress_total(Some(4096)), 4);
    assert_eq!(progress_total(Some(1023)), 0);
    assert_eq!(progress_total(None), u64::MAX / 1024);
}

#[test]
fn progress_advance_steps_and_clamps() {
    assert_eq!(progress_advance(0, 2048, 10), 2);
    assert_eq!(progress_advance(9, 2048, 10), 10);
    assert_eq!(progress_advance(5, 100, 10), 5);
    assert_eq!(progress_advance(10, 4096, 10), 10);
}

#[test]
fn compress_keeps_short_names() {
    assert_eq!(compress_name("short.tar", 20), "short.tar");
}

#[test]
fn compress_cuts_long_names() {
    assert_eq!(compress_name("abcdefghij.tar.xz", 10), "abcdefg...tar.xz");
}

#[test]
fn compress_squashes_dot_runs_at_the_cut() {
    assert_eq!(compress_name("abcde1234.fghi", 10), "abcde...fghi");
}

#[test]
fn fetch_error_message_names_the_url() {
    let e = FetchError::Unreachable {
        url: "https://example.org/x".to_string(),
    };
    assert_eq!(e.message(), "Failed to GET from 'https://example.org/x'");
}
