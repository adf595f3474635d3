use fileserver::request::get_path_from_request;
use fileserver::request::RequestError;

#[test]
fn parse_root_request() {
    let req = b"GET / HTTP/1.1\r\nHost: localhost\r\n\r\n".to_vec();
    assert_eq!(get_path_from_request(&req), Ok(b"./".to_vec()));
}

#[test]
fn parse_nested_target() {
    let req = b"GET /docs/a.txt HTTP/1.1\r\n\r\n".to_vec();
    assert_eq!(get_path_from_request(&req), Ok(b"./docs/a.txt".to_vec()));
}

#[test]
fn parse_without_version_token() {
    // No space after the target: the token runs to the end of the line.
    let req = b"GET /x\r\n".to_vec();
    assert_eq!(get_path_from_request(&req), Ok(b"./x".to_vec()));
}

#[test]
fn parse_without_any_newline() {
    let req = b"GET /x HTTP/1.1".to_vec();
    assert_eq!(get_path_from_request(&req), Ok(b"./x".to_vec()));
}

#[test]
fn parse_double_space_gives_empty_target() {
    let req = b"GET  HTTP/1.1\r\n".to_vec();
    assert_eq!(get_path_from_request(&req), Ok(b".".to_vec()));
}

#[test]
fn parse_missing_target() {
    let req = b"GET\r\nHost: localhost\r\n".to_vec();
    assert_eq!(get_path_from_request(&req), Err(RequestError::MissingTarget));
}

#[test]
fn parse_space_on_later_line_only() {
    // The split must happen on the first line alone.
    let req = b"GET\r\nHost: local host\r\n".to_vec();
    assert_eq!(get_path_from_request(&req), Err(RequestError::MissingTarget));
}

#[test]
fn parse_empty_request() {
    let req = Vec::new();
    assert_eq!(get_path_from_request(&req), Err(RequestError::Empty));
}

#[test]
fn error_messages() {
    assert_eq!(RequestError::Empty.message(), b"Request was empty.".to_vec());
    assert_eq!(
        RequestError::MissingTarget.message(),
        b"Couldn't find the URL part of the request".to_vec()
    );
}
