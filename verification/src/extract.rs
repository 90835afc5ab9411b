//! The three extractors: what the image, iframe and anchor elements of one
//! page contribute to a crawl.
//!
//! A caller reads the attributes off the page and hands them over as
//! [`AttrRead`] values, one per element in document order. Each element
//! either yields a reference, is passed over without comment, or is faulty;
//! a faulty element is skipped like any other and never fails the page.

use crate::locator::{
    join, parse_domain, parse_path_segments, url_domain, url_joined, url_parses,
    url_path_segments,
};
use crate::text::{chars_of, contains_char, starts_with};
use vstd::prelude::*;

verus! {

/// What reading one attribute of one element gave.
#[derive(Clone, Debug)]
pub enum AttrRead {
    /// The attribute is there, with this value.
    Value(String),
    /// The element does not carry the attribute.
    Missing,
    /// The lookup itself failed.
    Failed,
}

/// Why a single element yields nothing. None of these stops the page.
#[derive(Clone, Copy, Debug, PartialEq, Eq, Structural)]
pub enum ElementError {
    /// The attribute could not be read.
    UnreadableAttribute,
    /// The element has no such attribute.
    MissingAttribute,
    /// The reference is not a URL, or does not resolve to one.
    MalformedUrl,
    /// A video embed whose path does not reach as far as the video's id.
    NoVideoId,
    /// It could not be found out whether the image is on disk already.
    StoreUnreadable,
    /// The request for the image did not complete.
    FetchFailed,
    /// The server answered the request for the image with this status.
    BadStatus(u16),
    /// The bytes received are not an image that can be decoded.
    Undecodable,
    /// The image could not be written in the encoding its extension asks
    /// for.
    Unencodable,
}

/// Why a whole page, and with it the traversal of its target, fails.
#[derive(Clone, Copy, Debug, PartialEq, Eq, Structural)]
pub enum PageError {
    /// The page's own address is not a URL.
    MalformedUrl,
    /// The page's address names no domain to confine the traversal to.
    NoDomain,
}

/// What one element yields, with strings read as character sequences.
pub open spec fn outcome_text(r: Result<Option<String>, ElementError>) -> Result<
    Option<Seq<char>>,
    ElementError,
> {
    match r {
        Ok(Some(s)) => Ok(Some(s@)),
        Ok(None) => Ok(None),
        Err(e) => Err(e),
    }
}

/// The reference that an element contributes, if it contributes one.
pub open spec fn accepted(outcome: Result<Option<Seq<char>>, ElementError>) -> Option<Seq<char>> {
    match outcome {
        Ok(Some(s)) => Some(s),
        _ => None,
    }
}

/// Whether `src` points into one of the two embed origins of the video
/// platform.
pub open spec fn is_video_embed(src: Seq<char>) -> bool {
    ||| "https://www.youtube.com/embed/"@.is_prefix_of(src)
    ||| "https://www.youtube-nocookie.com/embed/"@.is_prefix_of(src)
}

/// What one iframe yields: the second segment of the path of an embed URL.
pub open spec fn video_of(iframe: AttrRead) -> Result<Option<Seq<char>>, ElementError> {
    match iframe {
        AttrRead::Failed => Err(ElementError::UnreadableAttribute),
        AttrRead::Missing => Err(ElementError::MissingAttribute),
        AttrRead::Value(src) => {
            if !is_video_embed(src@) {
                Ok(None)
            } else if !url_parses(src@) {
                Err(ElementError::MalformedUrl)
            } else {
                match url_path_segments(src@) {
                    Some(segments) if segments.len() >= 2 => Ok(Some(segments[1])),
                    _ => Err(ElementError::NoVideoId),
                }
            }
        },
    }
}

/// Whether `href` already carries the scheme of an absolute web address.
pub open spec fn is_web_address(href: Seq<char>) -> bool {
    "https:"@.is_prefix_of(href) || "http:"@.is_prefix_of(href)
}

/// What one anchor yields before the domain is looked at: an absolute web
/// address as it stands, a reference without any scheme resolved against the
/// page, and nothing for a reference with another scheme.
pub open spec fn link_of(anchor: AttrRead, current_url: Seq<char>) -> Result<
    Option<Seq<char>>,
    ElementError,
> {
    match anchor {
        AttrRead::Failed => Err(ElementError::UnreadableAttribute),
        AttrRead::Missing => Err(ElementError::MissingAttribute),
        AttrRead::Value(href) => {
            if is_web_address(href@) {
                Ok(Some(href@))
            } else if !href@.contains(':') {
                match url_joined(current_url, href@) {
                    Some(joined) => Ok(Some(joined)),
                    None => Err(ElementError::MalformedUrl),
                }
            } else {
                Ok(None)
            }
        },
    }
}

/// Whether `link` is a URL on the very domain of `current_url`.
pub open spec fn confined(link: Seq<char>, current_url: Seq<char>) -> bool {
    &&& url_parses(link)
    &&& url_domain(link) is Some
    &&& url_domain(link) == url_domain(current_url)
}

/// The link that one anchor adds to the frontier, if it adds one.
pub open spec fn kept_link(anchor: AttrRead, current_url: Seq<char>) -> Option<Seq<char>> {
    match accepted(link_of(anchor, current_url)) {
        Some(link) => if confined(link, current_url) {
            Some(link)
        } else {
            None
        },
        None => None,
    }
}

/// The video ids of a page, in document order.
pub open spec fn videos_of(iframes: Seq<AttrRead>) -> Seq<Seq<char>> {
    iframes.filter_map(|iframe: AttrRead| accepted(video_of(iframe)))
}

/// The links of a page that stay on its domain, in document order.
pub open spec fn links_of(anchors: Seq<AttrRead>, current_url: Seq<char>) -> Seq<Seq<char>> {
    anchors.filter_map(|anchor: AttrRead| kept_link(anchor, current_url))
}

/// Why the page at `current_url` cannot be crawled, if it cannot.
pub open spec fn page_fault(current_url: Seq<char>) -> Option<PageError> {
    if !url_parses(current_url) {
        Some(PageError::MalformedUrl)
    } else if url_domain(current_url) is None {
        Some(PageError::NoDomain)
    } else {
        None
    }
}

/// The video that one iframe embeds.
pub fn extract_video(iframe: &AttrRead) -> (r: Result<Option<String>, ElementError>)
    ensures
        outcome_text(r) == video_of(*iframe),
{
    let src = match iframe {
        AttrRead::Value(src) => src,
        AttrRead::Missing => {
            return Err(ElementError::MissingAttribute);
        },
        AttrRead::Failed => {
            return Err(ElementError::UnreadableAttribute);
        },
    };
    let chars = chars_of(src.as_str());
    if !starts_with(&chars, "https://www.youtube.com/embed/") && !starts_with(
        &chars,
        "https://www.youtube-nocookie.com/embed/",
    ) {
        return Ok(None);
    }
    let segments = match parse_path_segments(src.as_str()) {
        Err(_) => {
            return Err(ElementError::MalformedUrl);
        },
        Ok(None) => {
            return Err(ElementError::NoVideoId);
        },
        Ok(Some(segments)) => segments,
    };
    if segments.len() < 2 {
        return Err(ElementError::NoVideoId);
    }
    let id = segments[1].clone();
    Ok(Some(id))
}

/// The address that one anchor points to, made absolute.
pub fn extract_link(anchor: &AttrRead, current_url: &str) -> (r: Result<
    Option<String>,
    ElementError,
>)
    ensures
        outcome_text(r) == link_of(*anchor, current_url@),
{
    let href = match anchor {
        AttrRead::Value(href) => href,
        AttrRead::Missing => {
            return Err(ElementError::MissingAttribute);
        },
        AttrRead::Failed => {
            return Err(ElementError::UnreadableAttribute);
        },
    };
    let chars = chars_of(href.as_str());
    if starts_with(&chars, "https:") || starts_with(&chars, "http:") {
        return Ok(Some(href.clone()));
    }
    if !contains_char(&chars, ':') {
        return match join(current_url, href.as_str()) {
            Ok(joined) => Ok(Some(joined)),
            Err(_) => Err(ElementError::MalformedUrl),
        };
    }
    Ok(None)
}

/// The ids of the videos that the iframes of a page embed, in document
/// order. A faulty iframe contributes nothing and stops nothing.
pub fn scrape_videos(iframes: &Vec<AttrRead>) -> (r: Vec<String>)
    ensures
        r.deep_view() == videos_of(iframes@),
{
    let mut output: Vec<String> = Vec::new();
    let mut i: usize = 0;
    assert(iframes@.take(0) =~= Seq::<AttrRead>::empty());
    assert(output.deep_view() =~= videos_of(iframes@.take(0)));
    while i < iframes.len()
        invariant
            i <= iframes.len(),
            output.deep_view() == videos_of(iframes@.take(i as int)),
        decreases iframes.len() - i,
    {
        let ghost before = output.deep_view();
        let found = extract_video(&iframes[i]);
        proof {
            let next = iframes@.take(i + 1);
            assert(next.drop_last() =~= iframes@.take(i as int));
            assert(next.last() == iframes@[i as int]);
        }
        match found {
            Ok(Some(id)) => {
                output.push(id);
                assert(output.deep_view() =~= before + seq![id@]);
            },
            _ => {},
        }
        i = i + 1;
    }
    assert(iframes@.take(i as int) =~= iframes@);
    output
}

/// The links of a page that the traversal follows: those of its anchors that
/// resolve to an address on the page's own domain, in document order.
///
/// Fails only for what is wrong with the page's own address. A faulty or
/// foreign anchor contributes nothing and stops nothing.
pub fn scrape_links(anchors: &Vec<AttrRead>, current_url: &str) -> (r: Result<
    Vec<String>,
    PageError,
>)
    ensures
        match r {
            Ok(links) => {
                &&& page_fault(current_url@) is None
                &&& links.deep_view() == links_of(anchors@, current_url@)
                &&& forall|k: int|
                    0 <= k < links.len() ==> confined(#[trigger] links[k]@, current_url@)
            },
            Err(e) => page_fault(current_url@) == Some(e),
        },
{
    let domain = match parse_domain(current_url) {
        Err(_) => {
            return Err(PageError::MalformedUrl);
        },
        Ok(None) => {
            return Err(PageError::NoDomain);
        },
        Ok(Some(domain)) => domain,
    };
    let mut output: Vec<String> = Vec::new();
    let mut i: usize = 0;
    assert(anchors@.take(0) =~= Seq::<AttrRead>::empty());
    assert(output.deep_view() =~= links_of(anchors@.take(0), current_url@));
    while i < anchors.len()
        invariant
            i <= anchors.len(),
            url_parses(current_url@),
            url_domain(current_url@) == Some(domain@),
            output.deep_view() == links_of(anchors@.take(i as int), current_url@),
            forall|k: int| 0 <= k < output.len() ==> confined(#[trigger] output[k]@, current_url@),
        decreases anchors.len() - i,
    {
        let ghost before = output.deep_view();
        let found = extract_link(&anchors[i], current_url);
        proof {
            let next = anchors@.take(i + 1);
            assert(next.drop_last() =~= anchors@.take(i as int));
            assert(next.last() == anchors@[i as int]);
        }
        match found {
            Ok(Some(link)) => {
                let on_domain = match parse_domain(link.as_str()) {
                    Ok(Some(d)) => d == domain,
                    _ => false,
                };
                if on_domain {
                    output.push(link);
                    assert(output.deep_view() =~= before + seq![link@]);
                }
            },
            _ => {},
        }
        i = i + 1;
    }
    assert(anchors@.take(i as int) =~= anchors@);
    Ok(output)
}

/// Domain confinement: every link that a page adds to the frontier is a URL
/// whose domain is the domain of that page.
pub proof fn lemma_links_confined(anchors: Seq<AttrRead>, current_url: Seq<char>)
    ensures
        forall|k: int|
            0 <= k < links_of(anchors, current_url).len() ==> confined(
                #[trigger] links_of(anchors, current_url)[k],
                current_url,
            ),
    decreases anchors.len(),
{
    if anchors.len() > 0 {
        let front = links_of(anchors.drop_last(), current_url);
        lemma_links_confined(anchors.drop_last(), current_url);
        let all = links_of(anchors, current_url);
        assert forall|k: int| 0 <= k < all.len() implies confined(#[trigger] all[k], current_url) by {
            if k < front.len() {
                assert(all[k] == front[k]);
            }
        }
    }
}

/// An anchor whose reference carries a scheme other than `http` or `https`
/// adds nothing to the frontier.
pub proof fn lemma_foreign_scheme_dropped(href: String, current_url: Seq<char>)
    requires
        href@.contains(':'),
        !is_web_address(href@),
    ensures
        kept_link(AttrRead::Value(href), current_url) is None,
{
}

} // verus!
