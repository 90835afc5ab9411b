//! The records that go into and come out of a crawl.

use vstd::prelude::*;

verus! {

/// The entity a target belongs to.
#[derive(Clone)]
pub struct Parent {
    pub name: String,
    pub name_japanese: Option<String>,
}

/// One target of a crawl: an id and the page at which its traversal starts.
pub struct UrlSrc {
    pub mal_id: i64,
    pub url: String,
    pub parent: Parent,
}

/// What a reachability check found for one target.
pub struct UrlCheckOutput {
    pub mal_id: i64,
    pub url: String,
    pub https: Option<String>,
    pub http: Option<String>,
    pub parent: Parent,
}

/// What the traversal of one target gathered: the local names of the images
/// it stored and the ids of the videos it met, both in the order of
/// discovery.
pub struct SpiderOutput {
    pub mal_id: i64,
    pub url: String,
    pub images: Vec<String>,
    pub videos: Vec<String>,
    pub parent: Parent,
}

/// The largest width and height a stored image may have.
#[derive(Clone, Copy)]
pub struct Size {
    pub w: u32,
    pub h: u32,
}

impl Size {
    /// Whether an image of `width` by `height` is larger than these bounds in
    /// either direction.
    pub open spec fn exceeded_by(self, width: u32, height: u32) -> bool {
        width > self.w || height > self.h
    }

    /// Whether an image of `width` by `height` lies within these bounds.
    pub open spec fn holds(self, width: u32, height: u32) -> bool {
        width <= self.w && height <= self.h
    }
}

} // verus!
