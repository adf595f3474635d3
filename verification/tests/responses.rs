use fileserver::ascii::bytes_eq;
use fileserver::html::escape_html;
use fileserver::request::get_path_from_request;
use fileserver::resolve::classify;
use fileserver::resolve::find_index_file;
use fileserver::resolve::listing_entries;
use fileserver::resolve::path_escapes_root;
use fileserver::resolve::TargetClass;
use fileserver::response::build_response;
use fileserver::response::error_response;
use fileserver::response::get_200_response;
use fileserver::response::get_400_response;
use fileserver::response::get_404_response;
use fileserver::response::get_500_response;
use fileserver::response::get_basic_http_response;
use fileserver::response::get_dir_response;
use fileserver::response::Resolved;

#[test]
fn basic_response_frames_code_and_body() {
    let r = get_basic_http_response(&b"200 OK".to_vec(), &b"hi".to_vec());
    assert_eq!(r, b"HTTP/1.1 200 OK\r\n\r\nhi".to_vec());
}

#[test]
fn file_body_round_trips_binary_bytes() {
    let contents = vec![0u8, 255, 13, 10, 0, 128];
    let r = get_200_response(&contents);
    assert_eq!(&r[..19], b"HTTP/1.1 200 OK\r\n\r\n");
    assert_eq!(&r[19..], &contents[..]);
}

#[test]
fn not_found_page_exact() {
    let r = get_404_response();
    let expected = b"HTTP/1.1 404 NOT FOUND\r\n\r\n<html><head><title>Not Found</title>\
</head><body><p>404 Not Found</p></body></html>"
        .to_vec();
    assert_eq!(r, expected);
}

#[test]
fn server_error_page_shows_message() {
    let r = get_500_response(&b"permission denied (os error 13)".to_vec());
    let expected = b"HTTP/1.1 500 INTERNAL SERVER ERROR\r\n\r\n<html><head>\
<title>Internal Server Error</title></head><body>\
<p>500 Internal Server Error: permission denied (os error 13)</p></body></html>"
        .to_vec();
    assert_eq!(r, expected);
}

#[test]
fn escaping_covers_markup_bytes() {
    let r = escape_html(&b"a<b>&\"c".to_vec());
    assert_eq!(r, b"a&lt;b&gt;&amp;&quot;c".to_vec());
}

#[test]
fn index_tie_break_takes_first_in_given_order() {
    let entries = vec![b"a.txt".to_vec(), b"index.htm".to_vec(), b"index.html".to_vec()];
    assert_eq!(find_index_file(&entries), Some(1));
}

#[test]
fn index_absent() {
    let entries = vec![b"a.txt".to_vec(), b"b.txt".to_vec()];
    assert_eq!(find_index_file(&entries), None);
}

#[test]
fn classify_covers_all_outcomes() {
    let none: Vec<Vec<u8>> = Vec::new();
    assert_eq!(classify(false, false, &none), TargetClass::Missing);
    assert_eq!(classify(true, false, &none), TargetClass::File);
    assert_eq!(classify(true, true, &none), TargetClass::Directory);
    let with_index = vec![b"index.html".to_vec()];
    assert_eq!(
        classify(true, true, &with_index),
        TargetClass::DirectoryWithIndex { index: 0 }
    );
}

#[test]
fn listing_hrefs_are_root_relative() {
    let names = vec![b"a.txt".to_vec(), b"b c".to_vec()];
    let pairs = listing_entries(&b"./docs".to_vec(), &names);
    assert_eq!(pairs.len(), 2);
    assert_eq!(pairs[0], (b"docs/a.txt".to_vec(), b"a.txt".to_vec()));
    assert_eq!(pairs[1], (b"docs/b c".to_vec(), b"b c".to_vec()));
    let at_root = listing_entries(&b"./".to_vec(), &names);
    assert_eq!(at_root[0], (b"a.txt".to_vec(), b"a.txt".to_vec()));
    let dot_only = listing_entries(&b".".to_vec(), &names);
    assert_eq!(dot_only[0], (b"a.txt".to_vec(), b"a.txt".to_vec()));
}

#[test]
fn listing_escapes_file_names() {
    let entries = vec![(b"docs/<i>".to_vec(), b"<i>&\"x".to_vec())];
    let r = get_dir_response(&b"./docs".to_vec(), &entries);
    let expected = b"HTTP/1.1 200 OK\r\n\r\n<html><head><title>./docs</title></head>\
<body><ul><li><a href=\"docs/&lt;i&gt;\">&lt;i&gt;&amp;&quot;x</a></li></ul>\
</body></html>"
        .to_vec();
    assert_eq!(r, expected);
}

#[test]
fn home_page_scenario() {
    // Root holds index.html with body "<h1>Home</h1>"; GET / serves it.
    let req = b"GET / HTTP/1.1\r\nHost: localhost\r\n\r\n".to_vec();
    let path = get_path_from_request(&req).unwrap();
    assert_eq!(path, b"./".to_vec());
    let entries = vec![b"index.html".to_vec()];
    let class = classify(true, true, &entries);
    assert_eq!(class, TargetClass::DirectoryWithIndex { index: 0 });
    let contents = b"<h1>Home</h1>".to_vec();
    let r = build_response(&Resolved::DirectoryWithIndex { contents });
    assert_eq!(r, b"HTTP/1.1 200 OK\r\n\r\n<h1>Home</h1>".to_vec());
}

#[test]
fn empty_directory_scenario() {
    // Root holds an empty subdirectory docs/; GET /docs lists nothing.
    let req = b"GET /docs HTTP/1.1\r\n\r\n".to_vec();
    let path = get_path_from_request(&req).unwrap();
    assert_eq!(path, b"./docs".to_vec());
    let entries: Vec<Vec<u8>> = Vec::new();
    assert_eq!(classify(true, true, &entries), TargetClass::Directory);
    let pairs = listing_entries(&path, &entries);
    let r = build_response(&Resolved::Directory { path, entries: pairs });
    let expected = b"HTTP/1.1 200 OK\r\n\r\n<html><head><title>./docs</title></head>\
<body><ul></ul></body></html>"
        .to_vec();
    assert_eq!(r, expected);
    let text = String::from_utf8(expected).unwrap();
    assert!(!text.contains("<li>"));
}

#[test]
fn missing_path_scenario() {
    // GET /missing.txt resolves to nothing and yields 404 NOT FOUND.
    let req = b"GET /missing.txt HTTP/1.1\r\n\r\n".to_vec();
    let path = get_path_from_request(&req).unwrap();
    assert_eq!(path, b"./missing.txt".to_vec());
    let none: Vec<Vec<u8>> = Vec::new();
    assert_eq!(classify(false, false, &none), TargetClass::Missing);
    let r = build_response(&Resolved::Missing);
    assert_eq!(&r[..26], b"HTTP/1.1 404 NOT FOUND\r\n\r\n");
}

#[test]
fn unreadable_directory_scenario() {
    // A directory whose entries cannot be read degrades to a 500 response.
    let r = get_500_response(&b"Permission denied (os error 13)".to_vec());
    assert_eq!(&r[..38], b"HTTP/1.1 500 INTERNAL SERVER ERROR\r\n\r\n");
}

#[test]
fn bad_request_page_exact() {
    let r = get_400_response(&b"no target".to_vec());
    let expected = b"HTTP/1.1 400 BAD REQUEST\r\n\r\n<html><head><title>Bad Request</title>\
</head><body><p>400 Bad Request: no target</p></body></html>"
        .to_vec();
    assert_eq!(r, expected);
}

#[test]
fn malformed_request_line_yields_bad_request() {
    let req = b"GET\r\nHost: localhost\r\n".to_vec();
    let e = get_path_from_request(&req).unwrap_err();
    let r = error_response(&e);
    assert_eq!(&r[..28], b"HTTP/1.1 400 BAD REQUEST\r\n\r\n");
    let text = String::from_utf8(r).unwrap();
    assert!(text.contains("Couldn't find the URL part of the request"));
}

#[test]
fn empty_request_yields_bad_request() {
    let e = get_path_from_request(&Vec::new()).unwrap_err();
    let r = error_response(&e);
    assert_eq!(&r[..28], b"HTTP/1.1 400 BAD REQUEST\r\n\r\n");
    let text = String::from_utf8(r).unwrap();
    assert!(text.contains("Request was empty."));
}

#[test]
fn parent_segments_are_detected() {
    assert!(path_escapes_root(&b"./..".to_vec()));
    assert!(path_escapes_root(&b"./../secret".to_vec()));
    assert!(path_escapes_root(&b"./a/../b".to_vec()));
    assert!(path_escapes_root(&b"./docs/..".to_vec()));
    assert!(!path_escapes_root(&b"./".to_vec()));
    assert!(!path_escapes_root(&b"./docs/a.txt".to_vec()));
    // Dots inside a name are not a parent segment.
    assert!(!path_escapes_root(&b"./..hidden".to_vec()));
    assert!(!path_escapes_root(&b"./a..b".to_vec()));
    assert!(!path_escapes_root(&b"./notes..".to_vec()));
}

#[test]
fn traversal_attempt_scenario() {
    // GET /../secret must never reach the filesystem above the root:
    // the candidate is refused and the client sees the not-found page.
    let req = b"GET /../secret HTTP/1.1\r\n\r\n".to_vec();
    let path = get_path_from_request(&req).unwrap();
    assert_eq!(path, b"./../secret".to_vec());
    assert!(path_escapes_root(&path));
    let r = build_response(&Resolved::Missing);
    assert_eq!(&r[..26], b"HTTP/1.1 404 NOT FOUND\r\n\r\n");
}

#[test]
fn page_wraps_title_and_content() {
    let r = fileserver::html::get_basic_response_body(&b"A & B".to_vec(), &b"<p>x</p>".to_vec());
    assert_eq!(
        r,
        b"<html><head><title>A &amp; B</title></head><body><p>x</p></body></html>".to_vec()
    );
}

#[test]
fn build_response_serves_file_bytes() {
    let contents = b"plain file".to_vec();
    let r = build_response(&Resolved::File { contents });
    assert_eq!(r, b"HTTP/1.1 200 OK\r\n\r\nplain file".to_vec());
}

#[test]
fn index_page_answers_like_the_file_itself() {
    let contents = b"<h1>idx</h1>".to_vec();
    let via_dir = build_response(&Resolved::DirectoryWithIndex { contents: contents.clone() });
    let direct = build_response(&Resolved::File { contents });
    assert_eq!(via_dir, direct);
}

#[test]
fn byte_vector_comparison() {
    assert!(bytes_eq(&b"abc".to_vec(), &b"abc".to_vec()));
    assert!(!bytes_eq(&b"abc".to_vec(), &b"abd".to_vec()));
    assert!(!bytes_eq(&b"abc".to_vec(), &b"ab".to_vec()));
}
