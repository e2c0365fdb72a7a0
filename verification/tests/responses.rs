//! Response building, serialization, and content types.

use catshell::content_type::get_content_type;
use catshell::path::ResolvedTarget;
use catshell::response::{build_response, response_bytes, Status};

fn v(s: &[u8]) -> Vec<u8> {
    s.to_vec()
}

const NOT_FOUND_BODY: &[u8] =
    b"<html><body><h1>404 Not Found</h1><p>The requested resource does not exist.</p></body></html>";
const ERROR_BODY: &[u8] =
    b"<html><body><h1>500 Internal Server Error</h1><p>The server failed to read the requested resource.</p></body></html>";

#[test]
fn css_maps_to_text_css() {
    assert_eq!(get_content_type(&v(b"a.css")), b"text/css".to_vec());
}

#[test]
fn json_maps_to_application_json() {
    assert_eq!(get_content_type(&v(b"a.json")), b"application/json".to_vec());
}

#[test]
fn unknown_extension_maps_to_octet_stream() {
    assert_eq!(get_content_type(&v(b"a.unknownext")), b"application/octet-stream".to_vec());
}

#[test]
fn whole_extension_table() {
    let cases: Vec<(&[u8], &[u8])> = vec![
        (b"i.html", b"text/html"),
        (b"i.htm", b"text/html"),
        (b"s.css", b"text/css"),
        (b"s.js", b"application/javascript"),
        (b"d.json", b"application/json"),
        (b"p.png", b"image/png"),
        (b"p.jpg", b"image/jpeg"),
        (b"p.jpeg", b"image/jpeg"),
        (b"p.gif", b"image/gif"),
        (b"p.svg", b"image/svg+xml"),
        (b"t.txt", b"text/plain"),
    ];
    for (path, mime) in cases {
        assert_eq!(get_content_type(&path.to_vec()), mime.to_vec());
    }
}

#[test]
fn extension_lookup_ignores_case() {
    assert_eq!(get_content_type(&v(b"A.HTML")), b"text/html".to_vec());
    assert_eq!(get_content_type(&v(b"a.TxT")), b"text/plain".to_vec());
}

#[test]
fn missing_extension_maps_to_octet_stream() {
    assert_eq!(get_content_type(&v(b"README")), b"application/octet-stream".to_vec());
    assert_eq!(get_content_type(&v(b"/srv/.bashrc")), b"application/octet-stream".to_vec());
}

#[test]
fn extension_is_taken_after_the_last_dot() {
    assert_eq!(get_content_type(&v(b"a.tar.txt")), b"text/plain".to_vec());
}

#[test]
fn dots_in_directories_do_not_count() {
    assert_eq!(get_content_type(&v(b"/srv/v1.2/file")), b"application/octet-stream".to_vec());
}

#[test]
fn served_index_file_round_trip() {
    let body = b"<h1>hi</h1>".to_vec();
    let r = build_response(&ResolvedTarget::File(v(b"/srv/index.html")), Some(body.clone()));
    assert_eq!(r.status, Status::Success);
    assert_eq!(r.status.code(), 200);
    assert_eq!(r.content_type, b"text/html".to_vec());
    assert_eq!(r.body, body);
    let out = response_bytes(&r);
    let expected: Vec<u8> =
        b"HTTP/1.1 200 OK\r\nContent-Type: text/html\r\nContent-Length: 11\r\n\r\n<h1>hi</h1>"
            .to_vec();
    assert_eq!(out, expected);
}

#[test]
fn missing_file_yields_the_fixed_not_found_response() {
    let r = build_response(&ResolvedTarget::NotFound, None);
    assert_eq!(r.status, Status::NotFound);
    assert_eq!(r.status.code(), 404);
    assert_eq!(r.content_type, b"text/html".to_vec());
    assert_eq!(r.body, NOT_FOUND_BODY.to_vec());
    let out = response_bytes(&r);
    assert!(out.starts_with(b"HTTP/1.1 404 Not Found\r\nContent-Type: text/html\r\nContent-Length: 93\r\n\r\n"));
    assert!(out.ends_with(NOT_FOUND_BODY));
}

#[test]
fn listing_fallback_is_served_as_not_found() {
    let r = build_response(&ResolvedTarget::DirectoryListing, None);
    assert_eq!(r.status, Status::NotFound);
    assert_eq!(r.body, NOT_FOUND_BODY.to_vec());
}

#[test]
fn failed_read_yields_the_fixed_error_response() {
    let r = build_response(&ResolvedTarget::File(v(b"/srv/a.txt")), None);
    assert_eq!(r.status, Status::InternalError);
    assert_eq!(r.status.code(), 500);
    assert_eq!(r.content_type, b"text/html".to_vec());
    assert_eq!(r.body, ERROR_BODY.to_vec());
    let out = response_bytes(&r);
    assert!(out.starts_with(b"HTTP/1.1 500 Internal Server Error\r\n"));
}

#[test]
fn content_length_is_exactly_the_body_length() {
    let bodies: Vec<Vec<u8>> = vec![
        b"".to_vec(),
        b"x".to_vec(),
        vec![0u8; 1000],
        b"0123456789".repeat(100),
    ];
    for body in bodies {
        let r = build_response(&ResolvedTarget::File(v(b"/srv/a.bin")), Some(body.clone()));
        let out = response_bytes(&r);
        let header_end = out.windows(4).position(|w| w == b"\r\n\r\n").unwrap();
        let head = &out[..header_end];
        let sent_body = &out[header_end + 4..];
        assert_eq!(sent_body, &body[..]);
        let head_str = String::from_utf8(head.to_vec()).unwrap();
        let len_field = head_str
            .lines()
            .find(|l| l.starts_with("Content-Length: "))
            .unwrap()
            .trim_start_matches("Content-Length: ")
            .to_string();
        assert_eq!(len_field, body.len().to_string());
    }
}

#[test]
fn distinct_files_get_distinct_byte_exact_responses() {
    let root = v(b"/srv/site");
    let files: Vec<(Vec<u8>, Vec<u8>)> = (0..20)
        .map(|i| {
            let name = format!("/file{}.txt", i).into_bytes();
            let content = format!("content of file number {}", i).repeat(i + 1).into_bytes();
            (name, content)
        })
        .collect();
    for (name, content) in &files {
        let req = {
            let mut r = b"GET ".to_vec();
            r.extend_from_slice(name);
            r.extend_from_slice(b" HTTP/1.1\r\n\r\n");
            r
        };
        let parsed = catshell::request::parse_request(&req);
        let cs = catshell::path::candidate_paths(&root, &parsed.path);
        assert_eq!(cs.len(), 1);
        let t = catshell::path::select_target(&parsed.path, &cs, &vec![true]);
        let r = build_response(&t, Some(content.clone()));
        let out = response_bytes(&r);
        let header_end = out.windows(4).position(|w| w == b"\r\n\r\n").unwrap();
        assert_eq!(&out[header_end + 4..], &content[..]);
        assert_eq!(r.content_type, b"text/plain".to_vec());
        assert!(out.starts_with(b"HTTP/1.1 200 OK\r\n"));
    }
}
