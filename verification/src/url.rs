//! The reachability check of a target's address: which of its `https` and
//! `http` forms answers.
//!
//! The check itself is a handful of requests, which the caller makes. What
//! is decided here is which addresses to try, in which order, and what the
//! first one to answer says about the target.

pub use crate::documents::{Parent, UrlSrc};
use crate::locator::option_text;
use crate::text::{chars_of, replace, replace_all, starts_with};
use vstd::prelude::*;
use vstd::string::*;

verus! {

/// What the check found for one target: the address that answered over
/// `https`, or else the one that answered over `http`.
pub struct UrlOut {
    pub mal_id: i64,
    pub url: String,
    pub https: Option<String>,
    pub http: Option<String>,
    pub parent: Parent,
}

/// How a checked target is filed.
#[derive(Clone, Copy, Debug, PartialEq, Eq, Structural)]
pub enum Reach {
    Https,
    Http,
    Unknown,
}

/// The number of seconds after which a probe is given up.
pub const TIMEOUT_SECS: u64 = 3;

/// `url` with every `http:` in it turned into `https:`.
pub open spec fn upgraded(url: Seq<char>) -> Seq<char> {
    replace_all(url, "http:"@, "https:"@)
}

/// The addresses to try for `url`, in order: an `https` address alone; for
/// an `http` address its upgrade first and then itself; nothing for any
/// other.
pub open spec fn probes_of(url: Seq<char>) -> Seq<Seq<char>> {
    if "https:"@.is_prefix_of(url) {
        seq![url]
    } else if "http:"@.is_prefix_of(url) {
        seq![upgraded(url), url]
    } else {
        Seq::empty()
    }
}

/// What the target's `https` field holds when the probe at index `reached`
/// was the first to answer.
pub open spec fn https_of(url: Seq<char>, reached: Option<usize>) -> Option<Seq<char>> {
    if reached == Some(0usize) && probes_of(url).len() > 0 {
        Some(probes_of(url)[0])
    } else {
        None
    }
}

/// What the target's `http` field holds when the probe at index `reached`
/// was the first to answer.
pub open spec fn http_of(url: Seq<char>, reached: Option<usize>) -> Option<Seq<char>> {
    if reached == Some(1usize) && probes_of(url).len() > 1 {
        Some(url)
    } else {
        None
    }
}

/// The addresses to try for `url`, in order.
pub fn probes(url: &str) -> (r: Vec<String>)
    ensures
        r.deep_view() == probes_of(url@),
{
    let chars = chars_of(url);
    let mut out: Vec<String> = Vec::new();
    if starts_with(&chars, "https:") {
        out.push(String::from_str(url));
        assert(out.deep_view() =~= seq![url@]);
    } else if starts_with(&chars, "http:") {
        let tls = replace(url, "http:", "https:");
        out.push(tls);
        out.push(String::from_str(url));
        assert(out.deep_view() =~= seq![upgraded(url@), url@]);
    } else {
        assert(out.deep_view() =~= Seq::<Seq<char>>::empty());
    }
    out
}

/// What the check says about a target, given which of its probes was the
/// first to answer with status 200, if any was.
///
/// The first probe of any target is an `https` address; the second, where
/// there is one, is the target's own `http` address.
pub fn check_url(url_src: UrlSrc, reached: Option<usize>) -> (r: UrlOut)
    ensures
        r.mal_id == url_src.mal_id,
        r.url@ == url_src.url@,
        r.parent == url_src.parent,
        option_text(r.https) == https_of(url_src.url@, reached),
        option_text(r.http) == http_of(url_src.url@, reached),
{
    let candidates = probes(url_src.url.as_str());
    let mut https: Option<String> = None;
    let mut http: Option<String> = None;
    match reached {
        Some(index) => {
            if index == 0 && candidates.len() > 0 {
                https = Some(candidates[0].clone());
            } else if index == 1 && candidates.len() > 1 {
                http = Some(candidates[1].clone());
            }
        },
        None => {},
    }
    UrlOut { mal_id: url_src.mal_id, url: url_src.url, https, http, parent: url_src.parent }
}

impl UrlOut {
    /// How this result is filed: under `https` if that answered, else under
    /// `http` if that did, else as unknown.
    pub fn reach(&self) -> (r: Reach)
        ensures
            r == (if self.https is Some {
                Reach::Https
            } else if self.http is Some {
                Reach::Http
            } else {
                Reach::Unknown
            }),
    {
        if self.https.is_some() {
            Reach::Https
        } else if self.http.is_some() {
            Reach::Http
        } else {
            Reach::Unknown
        }
    }
}

/// A target is never filed under both schemes.
pub proof fn lemma_one_scheme(url: Seq<char>, reached: Option<usize>)
    ensures
        !(https_of(url, reached) is Some && http_of(url, reached) is Some),
{
}

} // verus!
