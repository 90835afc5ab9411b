use kenja_spider::url::{check_url, probes, Parent, Reach, UrlOut, UrlSrc, TIMEOUT_SECS};

fn target(url: &str) -> UrlSrc {
    UrlSrc {
        mal_id: 7,
        url: url.to_string(),
        parent: Parent { name: "Studio".to_string(), name_japanese: Some("スタジオ".to_string()) },
    }
}

#[test]
fn https_address_is_probed_alone() {
    assert_eq!(probes("https://example.com/"), vec!["https://example.com/"]);
}

#[test]
fn http_address_is_probed_upgraded_first() {
    assert_eq!(probes("http://example.com/"), vec!["https://example.com/", "http://example.com/"]);
}

#[test]
fn upgrade_rewrites_every_occurrence() {
    assert_eq!(
        probes("http://example.com/?next=http://example.org"),
        vec![
            "https://example.com/?next=https://example.org",
            "http://example.com/?next=http://example.org"
        ]
    );
}

#[test]
fn other_addresses_are_not_probed() {
    assert_eq!(probes("ftp://example.com/"), Vec::<String>::new());
    assert_eq!(probes("example.com"), Vec::<String>::new());
    assert_eq!(probes("HTTP://example.com"), Vec::<String>::new());
    assert_eq!(probes(""), Vec::<String>::new());
}

#[test]
fn https_target_that_answers() {
    let out = check_url(target("https://example.com/"), Some(0));
    assert_eq!(out.mal_id, 7);
    assert_eq!(out.url, "https://example.com/");
    assert_eq!(out.https.as_deref(), Some("https://example.com/"));
    assert_eq!(out.http, None);
    assert_eq!(out.parent.name, "Studio");
    assert_eq!(out.parent.name_japanese.as_deref(), Some("スタジオ"));
    assert_eq!(out.reach(), Reach::Https);
}

#[test]
fn http_target_that_answers_over_tls() {
    let out = check_url(target("http://example.com/"), Some(0));
    assert_eq!(out.url, "http://example.com/");
    assert_eq!(out.https.as_deref(), Some("https://example.com/"));
    assert_eq!(out.http, None);
    assert_eq!(out.reach(), Reach::Https);
}

#[test]
fn http_target_that_answers_in_the_clear_only() {
    let out = check_url(target("http://example.com/"), Some(1));
    assert_eq!(out.https, None);
    assert_eq!(out.http.as_deref(), Some("http://example.com/"));
    assert_eq!(out.reach(), Reach::Http);
}

#[test]
fn target_that_does_not_answer() {
    for url in ["https://example.com/", "http://example.com/", "gopher://example.com/"] {
        let out = check_url(target(url), None);
        assert_eq!(out.url, url);
        assert_eq!(out.https, None);
        assert_eq!(out.http, None);
        assert_eq!(out.reach(), Reach::Unknown);
    }
}

#[test]
fn answer_from_a_probe_that_was_never_made_counts_for_nothing() {
    let out = check_url(target("https://example.com/"), Some(1));
    assert_eq!((out.https, out.http), (None, None));
    let out = check_url(target("ftp://example.com/"), Some(0));
    assert_eq!((out.https, out.http), (None, None));
    let out = check_url(target("http://example.com/"), Some(2));
    assert_eq!((out.https, out.http), (None, None));
}

#[test]
fn filed_under_https_before_http() {
    let parent = Parent { name: String::new(), name_japanese: None };
    let both = UrlOut {
        mal_id: 1,
        url: String::new(),
        https: Some("https://a".to_string()),
        http: Some("http://a".to_string()),
        parent,
    };
    assert_eq!(both.reach(), Reach::Https);
}

#[test]
fn probes_are_given_three_seconds() {
    assert_eq!(TIMEOUT_SECS, 3);
}
