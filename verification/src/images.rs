//! The image pipeline, one element at a time.
//!
//! An image is requested in steps, and between the steps the caller does
//! what only it can do:
//!
//! 1. [`ImageRequest::open`] looks at the element's `src` and says under
//!    which name and path the image would be kept;
//! 2. the caller looks whether a file is at that path;
//! 3. [`ImageRequest::fetch_url`] says what to fetch, or that nothing is to
//!    be fetched because the file is there;
//! 4. the caller fetches;
//! 5. [`ImageRequest::accept`] takes the answer in; the body then goes
//!    through [`resized_img`](crate::normalize::resized_img) and onto disk.
//!
//! Whatever goes wrong on the way is an [`ElementError`]: the element yields
//! nothing and the page goes on.

use crate::address::{
    encoding_of, image_name, image_path, path_in, rename_img, supported_encoding,
    supported_reference, Encoding,
};
use crate::extract::{accepted, outcome_text, AttrRead, ElementError};
use crate::locator::{join, url_joined};
use vstd::prelude::*;

verus! {

/// An image that the crawler is about to look for.
pub struct ImageRequest {
    /// The reference as it stands in the page.
    pub src: String,
    /// The name under which the image is kept.
    pub img_name: String,
    /// Where the image is kept.
    pub img_path: String,
    /// The encoding in which it is kept.
    pub encoding: Encoding,
}

/// How a request for an image ended.
pub enum Fetched {
    /// The request did not complete.
    Failed,
    /// The server answered.
    Answered { status: u16, body: Vec<u8> },
}

/// An image that has arrived and waits to be written.
pub struct ImgReqOutput {
    pub img_name: String,
    pub img_path: String,
    pub encoding: Encoding,
    pub body: Vec<u8>,
}

/// The status with which a server hands out what was asked for.
pub const STATUS_OK: u16 = 200;

/// The reference that an image element asks for, if it asks for one that
/// the crawler keeps.
pub open spec fn request_of(img: AttrRead) -> Result<Option<Seq<char>>, ElementError> {
    match img {
        AttrRead::Failed => Err(ElementError::UnreadableAttribute),
        AttrRead::Missing => Err(ElementError::MissingAttribute),
        AttrRead::Value(src) => if supported_reference(src@) {
            Ok(Some(src@))
        } else {
            Ok(None)
        },
    }
}

/// What to fetch for the reference `src` on the page `current_url`: nothing
/// when the image is on disk already, else the reference made absolute.
/// `exists` is what looking at the disk gave, `None` where the look failed.
pub open spec fn fetch_plan(
    src: Seq<char>,
    current_url: Seq<char>,
    exists: Option<bool>,
) -> Result<Option<Seq<char>>, ElementError> {
    match exists {
        None => Err(ElementError::StoreUnreadable),
        Some(true) => Ok(None),
        Some(false) => match url_joined(current_url, src) {
            Some(url) => Ok(Some(url)),
            None => Err(ElementError::MalformedUrl),
        },
    }
}

/// What is wrong with the answer to a request, if anything is.
pub open spec fn response_fault(fetched: Fetched) -> Option<ElementError> {
    match fetched {
        Fetched::Failed => Some(ElementError::FetchFailed),
        Fetched::Answered { status, body } => if status == STATUS_OK {
            None
        } else {
            Some(ElementError::BadStatus(status))
        },
    }
}

/// The names of the images that a page adds to the output, in document
/// order: one for each element whose image was stored.
pub open spec fn images_of(outcomes: Seq<Result<Option<String>, ElementError>>) -> Seq<Seq<char>> {
    outcomes.filter_map(|o: Result<Option<String>, ElementError>| accepted(outcome_text(o)))
}

/// Whether a server's answer carries the image: only status 200 does. A
/// caller that asks before it reads the body spares itself the bodies of
/// the others.
pub fn check_status(status: u16) -> (r: Result<(), ElementError>)
    ensures
        r is Ok <==> status == STATUS_OK,
        r matches Err(e) ==> e == ElementError::BadStatus(status),
{
    if status != STATUS_OK {
        return Err(ElementError::BadStatus(status));
    }
    Ok(())
}

impl ImageRequest {
    /// Whether name, path and encoding are those that belong to the
    /// reference, for images kept below `image_root`.
    pub open spec fn describes(self, image_root: Seq<char>) -> bool {
        &&& self.img_name@ == image_name(self.src@)
        &&& self.img_path@ == image_path(image_root, self.img_name@)
        &&& Some(self.encoding) == encoding_of(self.src@)
    }

    /// Looks at the `src` of an image element and, if it refers to an image
    /// that the crawler keeps, says where.
    pub fn open(img: &AttrRead, image_root: &str) -> (r: Result<Option<ImageRequest>, ElementError>)
        ensures
            match r {
                Ok(Some(request)) => {
                    &&& request_of(*img) == Ok::<Option<Seq<char>>, ElementError>(
                        Some(request.src@),
                    )
                    &&& request.describes(image_root@)
                },
                Ok(None) => request_of(*img) == Ok::<Option<Seq<char>>, ElementError>(None),
                Err(e) => request_of(*img) == Err::<Option<Seq<char>>, ElementError>(e),
            },
    {
        let src = match img {
            AttrRead::Value(src) => src,
            AttrRead::Missing => {
                return Err(ElementError::MissingAttribute);
            },
            AttrRead::Failed => {
                return Err(ElementError::UnreadableAttribute);
            },
        };
        let encoding = match supported_encoding(src.as_str()) {
            Some(encoding) => encoding,
            None => {
                return Ok(None);
            },
        };
        let img_name = rename_img(src.as_str());
        let img_path = path_in(image_root, img_name.as_str());
        Ok(Some(ImageRequest { src: src.clone(), img_name, img_path, encoding }))
    }

    /// What to fetch, once the caller has looked whether the file exists:
    /// nothing if it does, else the reference resolved against the page's
    /// address. Where the look itself failed (`None`), the element is given
    /// up.
    pub fn fetch_url(&self, current_url: &str, exists: Option<bool>) -> (r: Result<
        Option<String>,
        ElementError,
    >)
        ensures
            outcome_text(r) == fetch_plan(self.src@, current_url@, exists),
    {
        match exists {
            None => Err(ElementError::StoreUnreadable),
            Some(true) => Ok(None),
            Some(false) => match join(current_url, self.src.as_str()) {
                Ok(url) => Ok(Some(url)),
                Err(_) => Err(ElementError::MalformedUrl),
            },
        }
    }

    /// Takes in the answer to the request. Only a body that came with status
    /// 200 is an image to write.
    pub fn accept(self, fetched: Fetched) -> (r: Result<ImgReqOutput, ElementError>)
        ensures
            match r {
                Ok(out) => {
                    &&& fetched matches Fetched::Answered { status, body }
                    &&& status == STATUS_OK
                    &&& out.body == body
                    &&& out.img_name == self.img_name
                    &&& out.img_path == self.img_path
                    &&& out.encoding == self.encoding
                },
                Err(e) => response_fault(fetched) == Some(e),
            },
    {
        match fetched {
            Fetched::Failed => Err(ElementError::FetchFailed),
            Fetched::Answered { status, body } => {
                match check_status(status) {
                    Err(e) => {
                        return Err(e);
                    },
                    Ok(()) => {},
                }
                Ok(
                    ImgReqOutput {
                        img_name: self.img_name,
                        img_path: self.img_path,
                        encoding: self.encoding,
                        body,
                    },
                )
            },
        }
    }
}

/// The names of the images stored for a page, given how each of its image
/// elements fared, in document order. An element that was skipped, for
/// whatever reason, is not in the list and does not shorten it otherwise.
pub fn scrape_imgs(outcomes: &Vec<Result<Option<String>, ElementError>>) -> (r: Vec<String>)
    ensures
        r.deep_view() == images_of(outcomes@),
{
    let mut output: Vec<String> = Vec::new();
    let mut i: usize = 0;
    assert(outcomes@.take(0) =~= Seq::<Result<Option<String>, ElementError>>::empty());
    assert(output.deep_view() =~= images_of(outcomes@.take(0)));
    while i < outcomes.len()
        invariant
            i <= outcomes.len(),
            output.deep_view() == images_of(outcomes@.take(i as int)),
        decreases outcomes.len() - i,
    {
        let ghost before = output.deep_view();
        proof {
            let next = outcomes@.take(i + 1);
            assert(next.drop_last() =~= outcomes@.take(i as int));
            assert(next.last() == outcomes@[i as int]);
        }
        match &outcomes[i] {
            Ok(Some(name)) => {
                output.push(name.clone());
                assert(output.deep_view() =~= before + seq![name@]);
            },
            _ => {},
        }
        i = i + 1;
    }
    assert(outcomes@.take(i as int) =~= outcomes@);
    output
}

/// What one request does to the image directory and to the network.
pub struct Effect {
    /// The paths at which a file exists afterwards.
    pub disk: Set<Seq<char>>,
    /// How many requests went out.
    pub fetches: nat,
    /// How many files were written.
    pub writes: nat,
    /// The name added to the page's images.
    pub emitted: Option<Seq<char>>,
}

/// The effect of one request for the image element `img`, met on the page
/// `current_url`, on a directory `image_root` in which the files `disk`
/// exist. `delivered` says whether the image, if it is fetched, arrives,
/// decodes and is written.
pub open spec fn request_effect(
    disk: Set<Seq<char>>,
    img: AttrRead,
    image_root: Seq<char>,
    current_url: Seq<char>,
    delivered: bool,
) -> Effect {
    let idle = Effect { disk, fetches: 0, writes: 0, emitted: None };
    match request_of(img) {
        Ok(Some(src)) => {
            let name = image_name(src);
            let path = image_path(image_root, name);
            match fetch_plan(src, current_url, Some(disk.contains(path))) {
                Ok(Some(url)) => if delivered {
                    Effect { disk: disk.insert(path), fetches: 1, writes: 1, emitted: Some(name) }
                } else {
                    Effect { disk, fetches: 1, writes: 0, emitted: None }
                },
                _ => idle,
            }
        },
        _ => idle,
    }
}

/// Dedup idempotence: once a request has stored an image, a second request
/// with the same reference finds it, fetches nothing, writes nothing and
/// adds nothing; the two together made one fetch and one write.
pub proof fn lemma_second_request_is_free(
    disk: Set<Seq<char>>,
    img: AttrRead,
    image_root: Seq<char>,
    first_page: Seq<char>,
    second_page: Seq<char>,
    delivered_again: bool,
)
    requires
        request_effect(disk, img, image_root, first_page, true).emitted is Some,
    ensures
        ({
            let first = request_effect(disk, img, image_root, first_page, true);
            let second = request_effect(
                first.disk,
                img,
                image_root,
                second_page,
                delivered_again,
            );
            &&& first.fetches == 1
            &&& first.writes == 1
            &&& second.fetches == 0
            &&& second.writes == 0
            &&& second.emitted is None
            &&& second.disk == first.disk
        }),
{
}

/// Fault isolation: an element that yields nothing, put anywhere among the
/// others, leaves the page's images as they are without it.
pub proof fn lemma_faulty_element_adds_nothing(
    before: Seq<Result<Option<String>, ElementError>>,
    faulty: Result<Option<String>, ElementError>,
    after: Seq<Result<Option<String>, ElementError>>,
)
    requires
        accepted(outcome_text(faulty)) is None,
    ensures
        images_of(before + seq![faulty] + after) == images_of(before + after),
    decreases after.len(),
{
    let f = |o: Result<Option<String>, ElementError>| accepted(outcome_text(o));
    if after.len() == 0 {
        assert(before + seq![faulty] + after =~= before + seq![faulty]);
        assert((before + seq![faulty]).drop_last() =~= before);
        assert(before + after =~= before);
    } else {
        let with = before + seq![faulty] + after;
        let without = before + after;
        lemma_faulty_element_adds_nothing(before, faulty, after.drop_last());
        assert(with.drop_last() =~= before + seq![faulty] + after.drop_last());
        assert(without.drop_last() =~= before + after.drop_last());
        assert(with.last() == after.last());
        assert(without.last() == after.last());
    }
}

/// Where every element's image is stored, the page has as many images as
/// elements.
pub proof fn lemma_valid_elements_all_count(outcomes: Seq<Result<Option<String>, ElementError>>)
    requires
        forall|i: int|
            0 <= i < outcomes.len() ==> accepted(outcome_text(#[trigger] outcomes[i])) is Some,
    ensures
        images_of(outcomes).len() == outcomes.len(),
    decreases outcomes.len(),
{
    if outcomes.len() > 0 {
        let front = outcomes.drop_last();
        assert forall|i: int| 0 <= i < front.len() implies accepted(
            outcome_text(#[trigger] front[i]),
        ) is Some by {
            assert(front[i] == outcomes[i]);
        }
        lemma_valid_elements_all_count(front);
        assert(accepted(outcome_text(outcomes[outcomes.len() - 1])) is Some);
    }
}

} // verus!
