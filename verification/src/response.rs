//! The response builder: a pure function from a resolved target (or an
//! error) to wire bytes. Every response is a status line, a blank-line
//! separator, and a body; body bytes of served files are never transcoded.

use vstd::prelude::*;
use crate::ascii::ascii_bytes;
use crate::ascii::ascii_to_vec;
use crate::ascii::append_ascii;
use crate::ascii::append_bytes;
use crate::html::append_escaped;
use crate::html::get_basic_response_body;
use crate::html::render_listing;
use crate::html::escaped;
use crate::html::page_bytes;
use crate::html::listing_bytes;
use crate::html::pair_views;
use crate::request::error_message;
use crate::request::RequestError;

verus! {

/// The status line and blank-line separator that precede every body.
pub open spec fn response_header(code: Seq<u8>) -> Seq<u8> {
    ascii_bytes("HTTP/1.1 "@) + code + ascii_bytes("\r\n\r\n"@)
}

/// A whole response: header for `code`, then the body bytes.
pub open spec fn http_response_bytes(code: Seq<u8>, body: Seq<u8>) -> Seq<u8> {
    response_header(code) + body
}

/// Frames a status code and an already rendered body as wire bytes.
pub fn get_basic_http_response(response_code: &Vec<u8>, response_body: &Vec<u8>) -> (r: Vec<u8>)
    ensures
        r@ == http_response_bytes(response_code@, response_body@),
{
    proof {
        reveal_strlit("HTTP/1.1 ");
        reveal_strlit("\r\n\r\n");
    }
    let mut out: Vec<u8> = Vec::new();
    append_ascii(&mut out, "HTTP/1.1 ");
    append_bytes(&mut out, response_code);
    append_ascii(&mut out, "\r\n\r\n");
    append_bytes(&mut out, response_body);
    assert(out@ =~= http_response_bytes(response_code@, response_body@));
    out
}

/// A success response: its body is exactly the served bytes.
pub open spec fn ok_response_bytes(body: Seq<u8>) -> Seq<u8> {
    http_response_bytes(ascii_bytes("200 OK"@), body)
}

/// Frames file contents as a success response, leaving the bytes intact.
pub fn get_200_response(contents: &Vec<u8>) -> (r: Vec<u8>)
    ensures
        r@ == ok_response_bytes(contents@),
{
    proof {
        reveal_strlit("200 OK");
        assert("200 OK".is_ascii());
    }
    let code = ascii_to_vec("200 OK");
    get_basic_http_response(&code, contents)
}

/// The fixed not-found response.
pub open spec fn not_found_response_bytes() -> Seq<u8> {
    http_response_bytes(
        ascii_bytes("404 NOT FOUND"@),
        page_bytes(ascii_bytes("Not Found"@), ascii_bytes("<p>404 Not Found</p>"@)),
    )
}

/// Renders the not-found page.
pub fn get_404_response() -> (r: Vec<u8>)
    ensures
        r@ == not_found_response_bytes(),
{
    proof {
        reveal_strlit("404 NOT FOUND");
        reveal_strlit("Not Found");
        reveal_strlit("<p>404 Not Found</p>");
        assert("404 NOT FOUND".is_ascii());
        assert("Not Found".is_ascii());
        assert("<p>404 Not Found</p>".is_ascii());
    }
    let code = ascii_to_vec("404 NOT FOUND");
    let title = ascii_to_vec("Not Found");
    let content = ascii_to_vec("<p>404 Not Found</p>");
    let body = get_basic_response_body(&title, &content);
    get_basic_http_response(&code, &body)
}

/// The bad-request response for a request whose line could not be parsed,
/// described by `message`.
pub open spec fn bad_request_response_bytes(message: Seq<u8>) -> Seq<u8> {
    http_response_bytes(
        ascii_bytes("400 BAD REQUEST"@),
        page_bytes(
            ascii_bytes("Bad Request"@),
            ascii_bytes("<p>400 Bad Request: "@) + escaped(message) + ascii_bytes("</p>"@),
        ),
    )
}

/// Renders the bad-request page around a failure description.
pub fn get_400_response(message: &Vec<u8>) -> (r: Vec<u8>)
    ensures
        r@ == bad_request_response_bytes(message@),
{
    proof {
        reveal_strlit("400 BAD REQUEST");
        reveal_strlit("Bad Request");
        reveal_strlit("<p>400 Bad Request: ");
        reveal_strlit("</p>");
        assert("400 BAD REQUEST".is_ascii());
        assert("Bad Request".is_ascii());
        assert("<p>400 Bad Request: ".is_ascii());
        assert("</p>".is_ascii());
    }
    let code = ascii_to_vec("400 BAD REQUEST");
    let title = ascii_to_vec("Bad Request");
    let mut content: Vec<u8> = Vec::new();
    append_ascii(&mut content, "<p>400 Bad Request: ");
    append_escaped(&mut content, message);
    append_ascii(&mut content, "</p>");
    let body = get_basic_response_body(&title, &content);
    assert(body@ =~= page_bytes(
        ascii_bytes("Bad Request"@),
        ascii_bytes("<p>400 Bad Request: "@) + escaped(message@) + ascii_bytes("</p>"@),
    ));
    get_basic_http_response(&code, &body)
}

/// A malformed request line is a client error: each request error is
/// answered with the bad-request page describing it.
pub fn error_response(e: &RequestError) -> (r: Vec<u8>)
    ensures
        r@ == bad_request_response_bytes(error_message(*e)),
{
    let message = e.message();
    get_400_response(&message)
}

/// The server-error response for a failure described by `message`.
pub open spec fn server_error_response_bytes(message: Seq<u8>) -> Seq<u8> {
    http_response_bytes(
        ascii_bytes("500 INTERNAL SERVER ERROR"@),
        page_bytes(
            ascii_bytes("Internal Server Error"@),
            ascii_bytes("<p>500 Internal Server Error: "@) + escaped(message) + ascii_bytes(
                "</p>"@,
            ),
        ),
    )
}

/// Renders the server-error page around a failure description.
pub fn get_500_response(message: &Vec<u8>) -> (r: Vec<u8>)
    ensures
        r@ == server_error_response_bytes(message@),
{
    proof {
        reveal_strlit("500 INTERNAL SERVER ERROR");
        reveal_strlit("Internal Server Error");
        reveal_strlit("<p>500 Internal Server Error: ");
        reveal_strlit("</p>");
        assert("500 INTERNAL SERVER ERROR".is_ascii());
        assert("Internal Server Error".is_ascii());
        assert("<p>500 Internal Server Error: ".is_ascii());
        assert("</p>".is_ascii());
    }
    let code = ascii_to_vec("500 INTERNAL SERVER ERROR");
    let title = ascii_to_vec("Internal Server Error");
    let mut content: Vec<u8> = Vec::new();
    append_ascii(&mut content, "<p>500 Internal Server Error: ");
    append_escaped(&mut content, message);
    append_ascii(&mut content, "</p>");
    let body = get_basic_response_body(&title, &content);
    assert(body@ =~= page_bytes(
        ascii_bytes("Internal Server Error"@),
        ascii_bytes("<p>500 Internal Server Error: "@) + escaped(message@) + ascii_bytes("</p>"@),
    ));
    get_basic_http_response(&code, &body)
}

/// The listing response for a directory without an index page: the page
/// title is the directory's path, the body its entries' links.
pub open spec fn directory_response_bytes(
    dir_path: Seq<u8>,
    entries: Seq<(Seq<u8>, Seq<u8>)>,
) -> Seq<u8> {
    http_response_bytes(
        ascii_bytes("200 OK"@),
        page_bytes(dir_path, listing_bytes(entries)),
    )
}

/// Renders the listing for a directory's (href, label) entries.
pub fn get_dir_response(dir_path: &Vec<u8>, entries: &Vec<(Vec<u8>, Vec<u8>)>) -> (r: Vec<u8>)
    ensures
        r@ == directory_response_bytes(dir_path@, pair_views(entries@)),
{
    proof {
        reveal_strlit("200 OK");
        assert("200 OK".is_ascii());
    }
    let code = ascii_to_vec("200 OK");
    let listing = render_listing(entries);
    let body = get_basic_response_body(dir_path, &listing);
    get_basic_http_response(&code, &body)
}

/// A fully resolved target, carrying everything its response needs.
pub enum Resolved {
    /// No such path.
    Missing,
    /// A regular file and its bytes.
    File { contents: Vec<u8> },
    /// A directory whose index page holds these bytes.
    DirectoryWithIndex { contents: Vec<u8> },
    /// A directory without an index page: its path and the (href, label)
    /// pairs of its immediate entries.
    Directory { path: Vec<u8>, entries: Vec<(Vec<u8>, Vec<u8>)> },
}

/// The response owed to each resolved target.
pub open spec fn resolved_response_bytes(target: Resolved) -> Seq<u8> {
    match target {
        Resolved::Missing => not_found_response_bytes(),
        Resolved::File { contents } => ok_response_bytes(contents@),
        Resolved::DirectoryWithIndex { contents } => ok_response_bytes(contents@),
        Resolved::Directory { path, entries } => directory_response_bytes(
            path@,
            pair_views(entries@),
        ),
    }
}

/// Builds the response for a resolved target.
pub fn build_response(target: &Resolved) -> (r: Vec<u8>)
    ensures
        r@ == resolved_response_bytes(*target),
{
    match target {
        Resolved::Missing => get_404_response(),
        Resolved::File { contents } => get_200_response(contents),
        Resolved::DirectoryWithIndex { contents } => get_200_response(contents),
        Resolved::Directory { path, entries } => get_dir_response(path, entries),
    }
}

} // verus!
