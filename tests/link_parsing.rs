use baobab::github::{check_status, search_url, Issue, IssuesResponse, IssuesSearchResult};
use baobab::link::{parse_link, ParseError};

#[test]
fn parses_next_and_prev() {
    let l = parse_link("<https://x/2>; rel=\"next\", <https://x/0>; rel=\"prev\"".to_string()).unwrap();
    assert_eq!(l.next.as_deref(), Some("https://x/2"));
    assert_eq!(l.prev.as_deref(), Some("https://x/0"));
}

#[test]
fn next_only_has_no_prev() {
    let l = parse_link("<https://x/2>; rel=\"next\"".to_string()).unwrap();
    assert_eq!(l.next.as_deref(), Some("https://x/2"));
    assert_eq!(l.prev, None);
}

#[test]
fn whitespace_around_parts_is_trimmed() {
    let l = parse_link("  <https://x/3>  ;\trel=\"prev\"  ".to_string()).unwrap();
    assert_eq!(l.prev.as_deref(), Some("https://x/3"));
    assert_eq!(l.next, None);
}

#[test]
fn later_segment_replaces_earlier() {
    let l = parse_link("<a1>; rel=\"next\", <a2>; rel=\"next\", <b>; rel=\"last\"".to_string()).unwrap();
    assert_eq!(l.next.as_deref(), Some("a2"));
    assert_eq!(l.prev, None);
}

#[test]
fn segment_without_semicolon_is_an_error() {
    assert!(matches!(parse_link("<https://x/2>".to_string()), Err(ParseError)));
}

#[test]
fn segment_with_two_semicolons_is_an_error() {
    assert!(parse_link("<u>; rel=\"next\"; x".to_string()).is_err());
}

#[test]
fn empty_header_is_an_error() {
    assert!(parse_link(String::new()).is_err());
}

#[test]
fn url_too_short_is_an_error() {
    assert!(parse_link("<; rel=\"next\"".to_string()).is_err());
}

#[test]
fn search_url_names_user() {
    assert_eq!(
        search_url("https://gh", "bob"),
        "https://gh/api/v3/search/issues?q=author:bob+is:open+is:pr+archived:false"
    );
}

#[test]
fn status_200_passes() {
    assert!(check_status(200, Ok("x".to_string())).is_ok());
}

#[test]
fn other_status_carries_body() {
    let e = check_status(404, Ok("nope".to_string())).unwrap_err();
    assert_eq!(e.status, 404);
    assert_eq!(e.message, "body: nope");
    let e = check_status(500, Err("eof".to_string())).unwrap_err();
    assert_eq!(e.message, "failed to read body: eof");
}

fn page(ids: &[u64]) -> IssuesResponse {
    IssuesResponse {
        total_count: 3,
        incomplete_results: false,
        items: ids
            .iter()
            .map(|i| Issue { url: format!("u{}", i), id: *i, title: format!("t{}", i) })
            .collect(),
    }
}

fn serve(url: &str) -> IssuesSearchResult {
    match url {
        "p1" => IssuesSearchResult::new(page(&[1]), Some("<p2>; rel=\"next\"".to_string())),
        "p2" => IssuesSearchResult::new(
            page(&[2]),
            Some("<p3>; rel=\"next\", <p1>; rel=\"prev\"".to_string()),
        ),
        _ => IssuesSearchResult::new(page(&[3]), Some("<p2>; rel=\"prev\"".to_string())),
    }
}

#[test]
fn three_pages_in_order_then_none() {
    let mut seen = Vec::new();
    let mut current = serve("p1");
    loop {
        seen.push(current.issues()[0].id);
        match current.next_page() {
            None => break,
            Some(url) => current = serve(&url),
        }
    }
    assert_eq!(seen, vec![1, 2, 3]);
}

#[test]
fn malformed_header_keeps_items_and_ends_traversal() {
    let p = IssuesSearchResult::new(page(&[7, 8]), Some("garbage".to_string()));
    assert_eq!(p.issues().len(), 2);
    assert!(p.next_page().is_none());
}

#[test]
fn no_header_means_no_next_page() {
    let p = IssuesSearchResult::new(page(&[1]), None);
    assert!(p.next_page().is_none());
}
