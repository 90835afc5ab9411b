//! The crawl engine of a same-domain web spider: what a page yields, how a
//! remote image gets its local name, how a traversal keeps track of the pages
//! it has seen. Nothing here touches the network or the disk; callers perform
//! the actions that the engine hands out and report back what happened.

pub mod address;
pub mod documents;
pub mod extract;
pub mod images;
pub mod locator;
pub mod normalize;
pub mod spider;
pub mod text;
pub mod url;
