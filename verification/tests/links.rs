use crytter::links::detect_urls;

#[test]
fn detect_http_url() {
    let chars: Vec<char> = "visit https://example.com for info".chars().collect();
    let links = detect_urls(0, &chars);
    assert_eq!(links.len(), 1);
    assert_eq!(links[0].url, "https://example.com");
    assert_eq!(links[0].start_col, 6);
}

#[test]
fn detect_url_with_path() {
    let chars: Vec<char> = "see https://github.com/user/repo/issues/123".chars().collect();
    let links = detect_urls(0, &chars);
    assert_eq!(links.len(), 1);
    assert_eq!(links[0].url, "https://github.com/user/repo/issues/123");
}

#[test]
fn url_strips_trailing_punctuation() {
    let chars: Vec<char> = "go to https://example.com.".chars().collect();
    let links = detect_urls(0, &chars);
    assert_eq!(links.len(), 1);
    assert_eq!(links[0].url, "https://example.com");
}

#[test]
fn url_with_parens() {
    let chars: Vec<char> =
        "see https://en.wikipedia.org/wiki/Rust_(programming_language) now".chars().collect();
    let links = detect_urls(0, &chars);
    assert_eq!(links.len(), 1);
    assert!(links[0].url.contains("Rust_(programming_language)"));
}

#[test]
fn no_url() {
    let chars: Vec<char> = "just plain text".chars().collect();
    let links = detect_urls(0, &chars);
    assert!(links.is_empty());
}

#[test]
fn multiple_urls() {
    let chars: Vec<char> = "http://a.com and https://b.com here".chars().collect();
    let links = detect_urls(0, &chars);
    assert_eq!(links.len(), 2);
}

#[test]
fn url_columns_row_and_end() {
    let chars: Vec<char> = "x ftp://host/a, file:///tmp/b) y".chars().collect();
    let links = detect_urls(7, &chars);
    assert_eq!(links.len(), 2);
    assert_eq!(links[0].row, 7);
    assert_eq!(links[0].url, "ftp://host/a");
    assert_eq!((links[0].start_col, links[0].end_col), (2, 14));
    assert_eq!(links[1].url, "file:///tmp/b");
    assert_eq!((links[1].start_col, links[1].end_col), (16, 29));
}

#[test]
fn url_stops_at_quotes_and_brackets() {
    let chars: Vec<char> = "<https://q.org/x>\"https://r.org/y\"".chars().collect();
    let links = detect_urls(0, &chars);
    assert_eq!(links.len(), 2);
    assert_eq!(links[0].url, "https://q.org/x");
    assert_eq!(links[1].url, "https://r.org/y");
}

#[test]
fn scheme_alone_is_too_short() {
    // "http://" is 7 bytes of UTF-8: not longer than eight, so no link
    let chars: Vec<char> = "http:// x".chars().collect();
    assert!(detect_urls(0, &chars).is_empty());
    let chars: Vec<char> = "http://ab".chars().collect();
    assert_eq!(detect_urls(0, &chars).len(), 1);
}
