use crawl_session::links::{
    accept_root, follow_link, link_to_follow, parse_root_url, resolve_link, SiteUrl,
};

#[test]
fn relative_link_resolves_on_the_same_domain() {
    assert_eq!(
        link_to_follow("http://x.com/dir/page", "/about", "x.com"),
        Some("http://x.com/about".to_string())
    );
}

#[test]
fn link_to_another_domain_is_discarded() {
    assert_eq!(link_to_follow("http://x.com/dir/page", "http://y.com/z", "x.com"), None);
}

#[test]
fn relative_path_resolves_against_the_page() {
    let resolved = resolve_link("http://x.com/dir/page", "other").unwrap();
    assert_eq!(resolved.text, "http://x.com/dir/other");
    assert_eq!(resolved.scheme, "http");
    assert_eq!(resolved.domain, Some("x.com".to_string()));
}

#[test]
fn link_on_an_unparsable_page_is_discarded() {
    assert_eq!(resolve_link("not a url", "/about"), None);
    assert_eq!(link_to_follow("not a url", "/about", "x.com"), None);
}

#[test]
fn malformed_link_is_discarded() {
    assert_eq!(link_to_follow("http://x.com/", "http://[broken", "x.com"), None);
}

#[test]
fn link_without_a_domain_is_discarded() {
    assert_eq!(link_to_follow("http://x.com/", "mailto:someone@x.com", "x.com"), None);
    assert_eq!(link_to_follow("http://x.com/", "http://127.0.0.1/a", "x.com"), None);
}

#[test]
fn subdomain_is_another_domain() {
    assert_eq!(link_to_follow("http://x.com/", "http://www.x.com/a", "x.com"), None);
}

#[test]
fn root_url_is_parsed_and_normalized() {
    let root = parse_root_url("HTTP://X.com").unwrap();
    assert_eq!(root.text, "http://x.com/");
    assert_eq!(root.scheme, "http");
    assert_eq!(root.domain, Some("x.com".to_string()));
    assert_eq!(root.root_domain(), "x.com");
    assert!(root.is_web());
}

#[test]
fn https_root_is_accepted() {
    let root = parse_root_url("https://example.net/a?b=c").unwrap();
    assert_eq!(root.scheme, "https");
    assert_eq!(root.text, "https://example.net/a?b=c");
}

#[test]
fn other_schemes_are_rejected() {
    assert_eq!(parse_root_url("ftp://example.net/"), None);
    assert_eq!(parse_root_url("file:///tmp/x"), None);
    assert_eq!(parse_root_url("mailto:a@b.c"), None);
}

#[test]
fn malformed_root_is_rejected() {
    assert_eq!(parse_root_url(""), None);
    assert_eq!(parse_root_url("example.net"), None);
    assert_eq!(parse_root_url("/relative/path"), None);
}

#[test]
fn root_on_an_address_has_the_empty_domain() {
    let root = parse_root_url("http://127.0.0.1:8080/").unwrap();
    assert_eq!(root.domain, None);
    assert_eq!(root.root_domain(), "");
}

#[test]
fn accept_root_goes_by_the_scheme() {
    let web = SiteUrl {
        text: "https://x.com/".to_string(),
        scheme: "https".to_string(),
        domain: Some("x.com".to_string()),
    };
    let other = SiteUrl {
        text: "gopher://x.com/".to_string(),
        scheme: "gopher".to_string(),
        domain: Some("x.com".to_string()),
    };
    assert_eq!(accept_root(Some(web.clone())), Some(web));
    assert_eq!(accept_root(Some(other)), None);
    assert_eq!(accept_root(None), None);
}

#[test]
fn follow_link_goes_by_the_domain() {
    let link = SiteUrl {
        text: "http://x.com/a".to_string(),
        scheme: "http".to_string(),
        domain: Some("x.com".to_string()),
    };
    assert_eq!(follow_link(Some(link.clone()), "x.com"), Some("http://x.com/a".to_string()));
    assert_eq!(follow_link(Some(link), "y.com"), None);
    assert_eq!(follow_link(None, "x.com"), None);
    let bare = SiteUrl {
        text: "http://10.0.0.1/".to_string(),
        scheme: "http".to_string(),
        domain: None,
    };
    assert_eq!(follow_link(Some(bare), ""), None);
}
