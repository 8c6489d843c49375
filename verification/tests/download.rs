use media_tool::download::{
    download_file, download_with_process, file_name_in, file_name_of, http_failure_words,
    DownloadError, HttpFailure, Shown, TIMEOUT_SECONDS,
};

#[test]
fn a_file_is_named_by_the_last_segment_of_its_url() {
    assert_eq!(file_name_of("https://example.com/a/b/movie.mp4"), "movie.mp4");
    assert_eq!(file_name_of("https://example.com/a/b/movie.mp4?x=1/2#y/z"), "movie.mp4");
    assert_eq!(file_name_of("http://example.com/a%20b.mp3"), "a%20b.mp3");
    assert_eq!(file_name_of("http://example.com/a b.mp3"), "a%20b.mp3");
    assert_eq!(file_name_of("http://example.com/x/../y.mkv"), "y.mkv");
}

#[test]
fn a_url_without_a_file_has_a_name_of_its_own() {
    for url in [
        "https://example.com", "https://example.com/", "https://example.com/dir/", "no url", "",
        "http://", "data:text/plain,hello", "http.mp4",
    ] {
        assert_eq!(file_name_of(url), "unknown.bin", "for {:?}", url);
    }
}

#[test]
fn a_name_never_leads_out_of_its_directory() {
    for url in [
        "http://h/.", "http://h/..", "https://h/a/..", "http://h/%2e", "http://h/a/%2e.", "http://h/a\\..",
        "http://h/a/.\t.", "http://h/C:/..", "http://h/.?x", "http://h/..#x", "httpx:/a/..", "httpx:/a/..//..",
        "http:..", "httpx:..", "HTTP://h/..", "HtTpS://h/a/%2E",
    ] {
        let name = file_name_of(url);
        assert!(!name.is_empty() && !name.contains('/'), "for {:?}", url);
        assert!(name != "." && name != "..", "for {:?}", url);
    }
    assert_eq!(file_name_of("http://h/a/..b"), "..b");
    assert_eq!(file_name_of("file:/C:\t."), ".");
    assert_eq!(file_name_of("file:C:\t.."), "..");
    assert_eq!(file_name_of("file:///C:\t."), "C:.");
}

#[test]
fn a_failed_request_is_put_into_words() {
    let words = |status: u16| HttpFailure { status }.words();
    assert_eq!(words(404).as_deref(), Some("http request failed: 404 Not Found"));
    assert_eq!(words(503).as_deref(), Some("http request failed: 503 Service Unavailable"));
    assert_eq!(words(999).as_deref(), Some("http request failed: 999 <unknown status code>"));
    assert_eq!(words(99), None);
    assert_eq!(words(1000), None);
    assert_eq!(http_failure_words("302 Found"), "http request failed: 302 Found");
    assert_eq!(DownloadError::<u8>::Timeout.words(), Some("download timeout"));
    assert_eq!(DownloadError::Failed(1u8).words(), None);
}

#[test]
fn the_name_is_taken_from_the_segments() {
    let list = |v: &[&str]| Some(v.iter().map(|s| s.to_string()).collect::<Vec<String>>());
    assert_eq!(file_name_in(&list(&["a", "b.mp4"])), "b.mp4");
    assert_eq!(file_name_in(&list(&["a", ""])), "unknown.bin");
    assert_eq!(file_name_in(&list(&[])), "unknown.bin");
    assert_eq!(file_name_in(&None), "unknown.bin");
}

#[test]
fn a_download_starts_on_success_alone() {
    for status in 0..1200u16 {
        match download_with_process("http://h/f.bin", status, None) {
            Ok(download) => {
                assert!(200 <= status && status <= 299, "status {}", status);
                assert_eq!(download.file_name(), "f.bin");
            }
            Err(failure) => {
                assert!(status < 200 || status > 299, "status {}", status);
                assert_eq!(failure, HttpFailure { status });
            }
        }
    }
}

#[test]
fn a_bar_shows_how_much_has_come_in() {
    let mut download = download_with_process("http://h/d/f.bin", 200, Some(100)).ok().unwrap();
    assert_eq!(download.length(), Some(100));
    assert_eq!(download.bar_message(), "Downloading f.bin");
    assert_eq!(download.receive(30, 0), Shown::Position(30));
    assert_eq!(download.receive(0, 5), Shown::Position(30));
    assert_eq!(download.receive(70, 0), Shown::Position(100));
    assert_eq!(download.finish(), "f.bin");
}

#[test]
fn without_a_length_there_is_a_word_each_second() {
    let mut download = download_with_process("http://h/f.bin", 206, None).ok().unwrap();
    assert_eq!(download.receive(3 * 1024 * 1024, 0), Shown::Nothing);
    assert_eq!(download.receive(1024 * 1024 - 1, 1), Shown::Megabytes(3));
    assert_eq!(download.receive(1, 2), Shown::Megabytes(4));
}

#[test]
fn what_has_come_in_is_the_sum_of_the_parts() {
    let mut download = download_with_process("http://h/f", 200, Some(1)).ok().unwrap();
    let parts = [5usize, 0, 17, 4096, 1];
    let mut last = Shown::Nothing;
    for part in parts {
        last = download.receive(part, 0);
    }
    assert_eq!(last, Shown::Position(parts.iter().sum::<usize>() as u64));
}

#[test]
fn a_download_ends_with_a_name_or_an_error() {
    assert_eq!(TIMEOUT_SECONDS, 600);
    assert_eq!(download_file::<u8>(Some(Ok("f".to_string()))), Ok("f".to_string()));
    assert_eq!(download_file::<u8>(Some(Err(3))), Err(DownloadError::Failed(3)));
    assert_eq!(download_file::<u8>(None), Err(DownloadError::Timeout));
}
