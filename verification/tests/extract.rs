use kenja_spider::extract::{
    extract_link, extract_video, scrape_links, scrape_videos, AttrRead, ElementError, PageError,
};

fn value(s: &str) -> AttrRead {
    AttrRead::Value(s.to_string())
}

#[test]
fn video_id_is_the_second_path_segment() {
    assert_eq!(
        extract_video(&value("https://www.youtube.com/embed/dQw4w9WgXcQ")),
        Ok(Some("dQw4w9WgXcQ".to_string()))
    );
    assert_eq!(
        extract_video(&value("https://www.youtube-nocookie.com/embed/abc_123")),
        Ok(Some("abc_123".to_string()))
    );
}

#[test]
fn video_id_leaves_out_query_and_further_segments() {
    assert_eq!(
        extract_video(&value("https://www.youtube.com/embed/abc?rel=0&start=10")),
        Ok(Some("abc".to_string()))
    );
    assert_eq!(
        extract_video(&value("https://www.youtube.com/embed/abc/more#t")),
        Ok(Some("abc".to_string()))
    );
}

#[test]
fn video_id_may_be_empty() {
    assert_eq!(extract_video(&value("https://www.youtube.com/embed/")), Ok(Some(String::new())));
}

#[test]
fn other_origins_are_passed_over() {
    assert_eq!(extract_video(&value("https://player.vimeo.com/video/1")), Ok(None));
    assert_eq!(extract_video(&value("http://www.youtube.com/embed/abc")), Ok(None));
    assert_eq!(extract_video(&value("https://youtube.com/embed/abc")), Ok(None));
    assert_eq!(extract_video(&value("https://www.youtube.com/watch?v=abc")), Ok(None));
    assert_eq!(extract_video(&value("")), Ok(None));
}

#[test]
fn iframe_without_src_is_faulty() {
    assert_eq!(extract_video(&AttrRead::Missing), Err(ElementError::MissingAttribute));
    assert_eq!(extract_video(&AttrRead::Failed), Err(ElementError::UnreadableAttribute));
}

#[test]
fn embed_whose_path_loses_its_id_is_faulty() {
    // The dot segments take the path back to a single segment.
    assert_eq!(
        extract_video(&value("https://www.youtube.com/embed/../x")),
        Err(ElementError::NoVideoId)
    );
}

#[test]
fn absolute_web_addresses_stand_as_they_are() {
    let page = "https://example.com/a";
    assert_eq!(
        extract_link(&value("https://example.com/b?x=1#y"), page),
        Ok(Some("https://example.com/b?x=1#y".to_string()))
    );
    assert_eq!(
        extract_link(&value("http://other.org"), page),
        Ok(Some("http://other.org".to_string()))
    );
    // Not even made canonical.
    assert_eq!(
        extract_link(&value("https://EXAMPLE.com/../b"), page),
        Ok(Some("https://EXAMPLE.com/../b".to_string()))
    );
}

#[test]
fn references_without_scheme_are_resolved() {
    assert_eq!(
        extract_link(&value("/b"), "https://example.com/a"),
        Ok(Some("https://example.com/b".to_string()))
    );
    assert_eq!(
        extract_link(&value("c.html"), "https://example.com/a/b.html"),
        Ok(Some("https://example.com/a/c.html".to_string()))
    );
    assert_eq!(
        extract_link(&value("../up"), "https://example.com/a/b/c"),
        Ok(Some("https://example.com/a/up".to_string()))
    );
    assert_eq!(
        extract_link(&value("//cdn.example.net/x"), "https://example.com/a"),
        Ok(Some("https://cdn.example.net/x".to_string()))
    );
    assert_eq!(
        extract_link(&value("#top"), "https://example.com/a"),
        Ok(Some("https://example.com/a#top".to_string()))
    );
    assert_eq!(
        extract_link(&value(""), "https://example.com/a"),
        Ok(Some("https://example.com/a".to_string()))
    );
}

#[test]
fn other_schemes_are_passed_over() {
    let page = "https://example.com/a";
    assert_eq!(extract_link(&value("mailto:me@example.com"), page), Ok(None));
    assert_eq!(extract_link(&value("javascript:void(0)"), page), Ok(None));
    assert_eq!(extract_link(&value("tel:+123"), page), Ok(None));
    assert_eq!(extract_link(&value("ftp://example.com/f"), page), Ok(None));
    assert_eq!(extract_link(&value("HTTPS://example.com/b"), page), Ok(None));
    assert_eq!(extract_link(&value("/b?t=12:30"), page), Ok(None));
}

#[test]
fn anchor_without_href_is_faulty() {
    assert_eq!(
        extract_link(&AttrRead::Missing, "https://example.com/a"),
        Err(ElementError::MissingAttribute)
    );
    assert_eq!(
        extract_link(&AttrRead::Failed, "https://example.com/a"),
        Err(ElementError::UnreadableAttribute)
    );
}

#[test]
fn reference_that_does_not_resolve_is_faulty() {
    assert_eq!(
        extract_link(&value("//exa mple.com/"), "https://example.com/a"),
        Err(ElementError::MalformedUrl)
    );
    assert_eq!(extract_link(&value("/b"), "not a url"), Err(ElementError::MalformedUrl));
}

#[test]
fn videos_come_in_document_order_and_faults_are_skipped() {
    let iframes = vec![
        value("https://www.youtube.com/embed/one"),
        AttrRead::Missing,
        value("https://ads.example.com/frame"),
        value("https://www.youtube.com/embed/../lost"),
        AttrRead::Failed,
        value("https://www.youtube-nocookie.com/embed/two"),
        value("https://www.youtube.com/embed/one"),
    ];
    assert_eq!(scrape_videos(&iframes), vec!["one", "two", "one"]);
    assert_eq!(scrape_videos(&Vec::new()), Vec::<String>::new());
}

#[test]
fn links_stay_on_the_domain_of_the_page() {
    let anchors = vec![
        value("/b"),
        value("https://example.com/c"),
        value("https://other.com/d"),
        value("https://sub.example.com/e"),
        value("https://example.com.evil.org/f"),
        value("mailto:me@example.com"),
        AttrRead::Missing,
        value("//exa mple.com/"),
        value("http://example.com/over-http"),
        value("//example.com/g"),
        value("//other.com/h"),
        AttrRead::Failed,
        value("https://EXAMPLE.com/i"),
        value("http://127.0.0.1/j"),
        value("https://not a url"),
    ];
    assert_eq!(
        scrape_links(&anchors, "https://example.com/a"),
        Ok(vec![
            "https://example.com/b".to_string(),
            "https://example.com/c".to_string(),
            "http://example.com/over-http".to_string(),
            "https://example.com/g".to_string(),
            "https://EXAMPLE.com/i".to_string(),
        ])
    );
}

#[test]
fn every_kept_link_has_the_domain_of_the_page() {
    let anchors = vec![
        value("/b"),
        value("https://example.com/c"),
        value("https://other.com/d"),
        value("x/y/z"),
        value("https://www.example.com/"),
    ];
    let page = "https://example.com/dir/page";
    let links = scrape_links(&anchors, page).unwrap();
    assert_eq!(links.len(), 3);
    for link in links {
        let parsed = url::Url::parse(&link).unwrap();
        assert_eq!(parsed.domain(), Some("example.com"));
    }
}

#[test]
fn duplicates_among_links_are_kept() {
    let anchors = vec![value("/b"), value("/b"), value("https://example.com/b")];
    assert_eq!(
        scrape_links(&anchors, "https://example.com/a"),
        Ok(vec![
            "https://example.com/b".to_string(),
            "https://example.com/b".to_string(),
            "https://example.com/b".to_string(),
        ])
    );
}

#[test]
fn page_that_is_not_a_url_fails() {
    assert_eq!(scrape_links(&vec![value("/b")], "not a url"), Err(PageError::MalformedUrl));
    assert_eq!(scrape_links(&Vec::new(), ""), Err(PageError::MalformedUrl));
}

#[test]
fn page_without_domain_fails() {
    assert_eq!(scrape_links(&vec![value("/b")], "http://127.0.0.1/a"), Err(PageError::NoDomain));
    assert_eq!(scrape_links(&Vec::new(), "mailto:me@example.com"), Err(PageError::NoDomain));
}

#[test]
fn page_with_no_anchors_has_no_links() {
    assert_eq!(scrape_links(&Vec::new(), "https://example.com/"), Ok(Vec::new()));
}
