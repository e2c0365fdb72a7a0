//! Request parsing and path resolution.

use catshell::path::{build_file_path, candidate_paths, sanitize_path, select_target, ResolvedTarget};
use catshell::request::parse_request;

fn v(s: &[u8]) -> Vec<u8> {
    s.to_vec()
}

#[test]
fn parse_plain_get() {
    let r = parse_request(&v(b"GET /foo.txt HTTP/1.1\r\nHost: x\r\n\r\n"));
    assert_eq!(r.method, b"GET".to_vec());
    assert_eq!(r.path, b"/foo.txt".to_vec());
}

#[test]
fn parse_ignores_later_lines() {
    let r = parse_request(&v(b"POST /a HTTP/1.1\r\nX: /other\r\n"));
    assert_eq!(r.method, b"POST".to_vec());
    assert_eq!(r.path, b"/a".to_vec());
}

#[test]
fn parse_empty_input_defaults() {
    let r = parse_request(&v(b""));
    assert_eq!(r.method, b"".to_vec());
    assert_eq!(r.path, b"/".to_vec());
}

#[test]
fn parse_missing_path_defaults_to_root() {
    let r = parse_request(&v(b"GET\r\n"));
    assert_eq!(r.method, b"GET".to_vec());
    assert_eq!(r.path, b"/".to_vec());
}

#[test]
fn parse_tolerates_extra_whitespace() {
    let r = parse_request(&v(b"  GET   /x.html   HTTP/1.1\r\n"));
    assert_eq!(r.method, b"GET".to_vec());
    assert_eq!(r.path, b"/x.html".to_vec());
}

#[test]
fn parse_empty_first_line() {
    let r = parse_request(&v(b"\nGET /x HTTP/1.1\r\n"));
    assert_eq!(r.method, b"".to_vec());
    assert_eq!(r.path, b"/".to_vec());
}

#[test]
fn sanitize_drops_parent_segments() {
    assert_eq!(sanitize_path(&v(b"/../../etc/passwd")), b"etc/passwd".to_vec());
}

#[test]
fn sanitize_drops_inner_parent_segments() {
    assert_eq!(sanitize_path(&v(b"/a/../../b")), b"a/b".to_vec());
}

#[test]
fn sanitize_drops_empty_segments() {
    assert_eq!(sanitize_path(&v(b"//a///b/")), b"a/b".to_vec());
}

#[test]
fn sanitize_keeps_dots_inside_names() {
    assert_eq!(sanitize_path(&v(b"/a..b/.c/d.txt")), b"a..b/.c/d.txt".to_vec());
}

#[test]
fn sanitize_of_root_is_empty() {
    assert_eq!(sanitize_path(&v(b"/")), b"".to_vec());
}

#[test]
fn build_keeps_traversal_inside_root() {
    let root = v(b"/srv/site");
    let p = build_file_path(&root, &v(b"/../../etc/passwd"));
    assert_eq!(p, b"/srv/site/etc/passwd".to_vec());
    assert!(p.starts_with(b"/srv/site"));
}

#[test]
fn build_joins_plain_paths() {
    let p = build_file_path(&v(b"/srv"), &v(b"/a/b.css"));
    assert_eq!(p, b"/srv/a/b.css".to_vec());
}

#[test]
fn resolved_paths_always_start_with_root() {
    let root = v(b"/srv/site");
    let attempts: Vec<&[u8]> = vec![
        b"/../../etc/passwd",
        b"/..",
        b"/../..",
        b"/a/../../b",
        b"/....//..../x",
        b"/./a",
        b"/",
    ];
    for a in attempts {
        let p = build_file_path(&root, &v(a));
        assert!(p.starts_with(b"/srv/site"));
    }
}

#[test]
fn root_request_tries_both_index_files() {
    let cs = candidate_paths(&v(b"/srv"), &v(b"/"));
    assert_eq!(cs.len(), 2);
    assert_eq!(cs[0], b"/srv/index.html".to_vec());
    assert_eq!(cs[1], b"/srv/index.htm".to_vec());
}

#[test]
fn other_request_has_one_candidate() {
    let cs = candidate_paths(&v(b"/srv"), &v(b"/foo.txt"));
    assert_eq!(cs.len(), 1);
    assert_eq!(cs[0], b"/srv/foo.txt".to_vec());
}

#[test]
fn first_servable_candidate_wins() {
    let cs = candidate_paths(&v(b"/srv"), &v(b"/"));
    match select_target(&v(b"/"), &cs, &vec![true, true]) {
        ResolvedTarget::File(p) => assert_eq!(p, b"/srv/index.html".to_vec()),
        _ => panic!("expected a file target"),
    }
    match select_target(&v(b"/"), &cs, &vec![false, true]) {
        ResolvedTarget::File(p) => assert_eq!(p, b"/srv/index.htm".to_vec()),
        _ => panic!("expected a file target"),
    }
}

#[test]
fn root_without_index_falls_back_to_listing() {
    let cs = candidate_paths(&v(b"/srv"), &v(b"/"));
    match select_target(&v(b"/"), &cs, &vec![false, false]) {
        ResolvedTarget::DirectoryListing => {}
        _ => panic!("expected the directory-listing fallback"),
    }
}

#[test]
fn missing_file_is_not_found() {
    let cs = candidate_paths(&v(b"/srv"), &v(b"/foo.txt"));
    match select_target(&v(b"/foo.txt"), &cs, &vec![false]) {
        ResolvedTarget::NotFound => {}
        _ => panic!("expected not-found"),
    }
}

#[test]
fn encoded_traversal_is_not_decoded() {
    // Percent-encoded sequences are kept as literal bytes; the segment
    // filter never decodes them, so they name a (missing) file under
    // the root rather than an ancestor.
    assert_eq!(sanitize_path(&v(b"/%2e%2e/x")), b"%2e%2e/x".to_vec());
    let p = build_file_path(&v(b"/srv"), &v(b"/%2e%2e/x"));
    assert!(p.starts_with(b"/srv/"));
}

#[test]
fn parse_splits_on_tabs_too() {
    let r = parse_request(&v(b"GET\t/a.png\tHTTP/1.1\r\n"));
    assert_eq!(r.method, b"GET".to_vec());
    assert_eq!(r.path, b"/a.png".to_vec());
}
