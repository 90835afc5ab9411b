//! The traversal of one target: breadth first over the pages of its domain.
//!
//! A [`Traversal`] owns the frontier, the set of pages already processed and
//! the output gathered so far. It never loads a page itself. [`advance`]
//! hands out the next page to load, as a [`Visit`]; the caller loads it,
//! reads its elements, and gives what it read to [`record`], which yields the
//! traversal to go on with. The traversal is over when [`advance`] returns
//! [`Step::Done`].
//!
//! An address may stand in the frontier any number of times. It is looked up
//! among the processed pages when it reaches the front, not when it is put
//! in, and so is processed once.
//!
//! [`advance`]: Traversal::advance
//! [`record`]: Visit::record

use crate::documents::{SpiderOutput, UrlSrc};
use crate::extract::{
    confined, links_of, page_fault, scrape_links, scrape_videos, videos_of, AttrRead,
    ElementError, PageError,
};
use crate::images::{images_of, scrape_imgs};
use crate::locator::{parse_domain, url_parses};
use std::collections::VecDeque;
use vstd::hash_map::StringHashMap;
use vstd::prelude::*;

verus! {

/// `frontier` without the processed addresses at its front: what is left
/// begins with the next page to process, or is empty.
pub open spec fn skip_visited(frontier: Seq<Seq<char>>, visited: Set<Seq<char>>) -> Seq<Seq<char>>
    decreases frontier.len(),
{
    if frontier.len() > 0 && visited.contains(frontier[0]) {
        skip_visited(frontier.skip(1), visited)
    } else {
        frontier
    }
}

/// The state of one target's traversal between two pages.
pub struct Traversal {
    output: SpiderOutput,
    frontier: VecDeque<String>,
    crawled: StringHashMap<bool>,
    pages: Ghost<Seq<Seq<char>>>,
    discovered: Ghost<Seq<Seq<char>>>,
}

/// A traversal that has handed out a page and waits for what was found on
/// it.
pub struct Visit {
    traversal: Traversal,
    url: String,
}

/// What a traversal does next.
pub enum Step {
    /// Load this page and record what is on it.
    Visit(Visit),
    /// Nothing is left to load: this is the result.
    Done(SpiderOutput),
}

impl Traversal {
    /// The address at which the traversal started.
    pub closed spec fn seed(self) -> Seq<char> {
        self.output.url@
    }

    /// The addresses waiting to be looked at, the next one first.
    pub closed spec fn frontier(self) -> Seq<Seq<char>> {
        self.frontier.deep_view()
    }

    /// The addresses of the pages processed so far.
    pub closed spec fn visited(self) -> Set<Seq<char>> {
        Set::new(|url: Seq<char>| self.crawled@.contains_key(url) && self.crawled@[url])
    }

    /// The pages processed so far, in the order in which they were processed.
    pub closed spec fn pages(self) -> Seq<Seq<char>> {
        self.pages@
    }

    /// Every address that was ever put into the frontier, in that order: the
    /// seed first, then the links of each processed page.
    pub closed spec fn discovered(self) -> Seq<Seq<char>> {
        self.discovered@
    }

    /// What has been gathered so far.
    pub closed spec fn output(self) -> SpiderOutput {
        self.output
    }

    /// What holds of every traversal, between any two steps.
    ///
    /// No page has been processed twice, and the processed pages are exactly
    /// the visited set. The frontier is the tail of what was discovered, and
    /// whatever left the frontier has been processed. Every processed page
    /// was discovered. Apart from the seed, every discovered address is a
    /// URL on the seed's domain.
    #[verifier::type_invariant]
    pub closed spec fn wf(self) -> bool {
        let frontier = self.frontier.deep_view();
        let consumed = self.discovered@.len() - frontier.len();
        &&& self.pages@.no_duplicates()
        &&& self.visited() =~= self.pages@.to_set()
        &&& frontier.len() <= self.discovered@.len()
        &&& frontier =~= self.discovered@.skip(consumed)
        &&& forall|i: int| 0 <= i < consumed ==> self.visited().contains(#[trigger] self.discovered@[i])
        &&& forall|i: int|
            0 <= i < self.pages@.len() ==> self.discovered@.contains(#[trigger] self.pages@[i])
        &&& self.discovered@.len() > 0
        &&& self.discovered@[0] == self.output.url@
        &&& forall|i: int|
            1 <= i < self.discovered@.len() ==> confined(
                #[trigger] self.discovered@[i],
                self.output.url@,
            )
    }

    /// A traversal of `target` that has not loaded any page yet: the seed
    /// alone is in the frontier.
    pub fn new(target: UrlSrc) -> (r: Traversal)
        ensures
            r.wf(),
            r.seed() == target.url@,
            r.frontier() == seq![target.url@],
            r.visited() == Set::<Seq<char>>::empty(),
            r.pages() == Seq::<Seq<char>>::empty(),
            r.discovered() == seq![target.url@],
            r.output().mal_id == target.mal_id,
            r.output().url@ == target.url@,
            r.output().images@ == Seq::<String>::empty(),
            r.output().videos@ == Seq::<String>::empty(),
            r.output().parent == target.parent,
    {
        let ghost seed = target.url@;
        let ghost found = seq![seed];
        let output = SpiderOutput {
            mal_id: target.mal_id,
            url: target.url.clone(),
            images: Vec::new(),
            videos: Vec::new(),
            parent: target.parent,
        };
        let mut frontier: VecDeque<String> = VecDeque::new();
        frontier.push_back(target.url);
        let crawled: StringHashMap<bool> = StringHashMap::new();
        let r = Traversal {
            output,
            frontier,
            crawled,
            pages: Ghost(Seq::empty()),
            discovered: Ghost(found),
        };
        assert(r.frontier.deep_view() =~= seq![seed]);
        assert(r.visited() =~= Set::<Seq<char>>::empty());
        assert(r.discovered@.skip(0) =~= r.discovered@);
        r
    }

    /// How many addresses wait in the frontier.
    pub fn pending(&self) -> (r: usize)
        ensures
            r == self.frontier().len(),
    {
        self.frontier.len()
    }

    /// Whether the page at `url` has been processed.
    pub fn is_visited(&self, url: &str) -> (r: bool)
        ensures
            r == self.visited().contains(url@),
    {
        match self.crawled.get(url) {
            Some(done) => *done,
            None => false,
        }
    }

    /// The next step: the first address of the frontier that has not been
    /// processed, or the result when there is none.
    ///
    /// Addresses in front of it were processed earlier and are dropped. The
    /// step fails when the address found is not a URL; only the seed can be
    /// such.
    pub fn advance(self) -> (r: Result<Step, PageError>)
        ensures
            ({
                let rest = skip_visited(self.frontier(), self.visited());
                match r {
                    Ok(Step::Done(output)) => {
                        &&& rest.len() == 0
                        &&& output == self.output()
                        &&& self.discovered().to_set() == self.pages().to_set()
                    },
                    Ok(Step::Visit(visit)) => {
                        &&& rest.len() > 0
                        &&& url_parses(rest[0])
                        &&& visit.wf()
                        &&& visit.page() == rest[0]
                        &&& visit.state().wf()
                        &&& visit.state().frontier() == rest
                        &&& visit.state().visited() == self.visited()
                        &&& visit.state().pages() == self.pages()
                        &&& visit.state().discovered() == self.discovered()
                        &&& visit.state().output() == self.output()
                    },
                    Err(e) => {
                        &&& rest.len() > 0
                        &&& !url_parses(rest[0])
                        &&& e == PageError::MalformedUrl
                    },
                }
            }),
    {
        proof {
            use_type_invariant(&self);
        }
        let ghost start = self;
        let Traversal { output, mut frontier, crawled, pages, discovered } = self;
        let ghost visited = start.visited();
        loop
            invariant
                frontier.deep_view().len() <= discovered@.len(),
                frontier.deep_view() =~= discovered@.skip(
                    discovered@.len() - frontier.deep_view().len(),
                ),
                forall|i: int|
                    0 <= i < discovered@.len() - frontier.deep_view().len() ==> visited.contains(
                        #[trigger] discovered@[i],
                    ),
                skip_visited(frontier.deep_view(), visited) == skip_visited(
                    start.frontier(),
                    visited,
                ),
                visited == Set::new(
                    |url: Seq<char>| crawled@.contains_key(url) && crawled@[url],
                ),
            ensures
                frontier.deep_view().len() == 0 || !visited.contains(frontier.deep_view()[0]),
            decreases frontier.len(),
        {
            if frontier.len() == 0 {
                break ;
            }
            let done = match crawled.get(frontier[0].as_str()) {
                Some(done) => *done,
                None => false,
            };
            assert(frontier.deep_view()[0] == frontier@[0]@);
            if !done {
                break ;
            }
            let ghost before = frontier.deep_view();
            let ghost consumed = discovered@.len() - before.len();
            frontier.pop_front();
            assert(frontier.deep_view() =~= before.skip(1));
            assert(discovered@[consumed] == before[0]);
        }
        let ghost rest = frontier.deep_view();
        assert(rest == skip_visited(start.frontier(), visited));
        if frontier.len() == 0 {
            proof {
                let all = discovered@;
                assert forall|u: Seq<char>| all.to_set().contains(u) == pages@.to_set().contains(
                    u,
                ) by {
                    if all.contains(u) {
                        let i = choose|i: int| 0 <= i < all.len() && all[i] == u;
                        assert(visited.contains(all[i]));
                    }
                    if pages@.contains(u) {
                        let i = choose|i: int| 0 <= i < pages@.len() && pages@[i] == u;
                        assert(all.contains(pages@[i]));
                    }
                }
                assert(all.to_set() =~= pages@.to_set());
            }
            return Ok(Step::Done(output));
        }
        let url = frontier[0].clone();
        assert(url@ == rest[0]);
        if parse_domain(url.as_str()).is_err() {
            return Err(PageError::MalformedUrl);
        }
        let traversal = Traversal { output, frontier, crawled, pages, discovered };
        assert(traversal.visited() =~= visited);
        Ok(Step::Visit(Visit { traversal, url }))
    }
}

impl Visit {
    /// The address of the page to load.
    pub closed spec fn page(self) -> Seq<char> {
        self.url@
    }

    /// The traversal as it stands while the page is being loaded. The page
    /// is still at the front of its frontier.
    pub closed spec fn state(self) -> Traversal {
        self.traversal
    }

    /// The page handed out is a URL, has not been processed, and stands at
    /// the front of the frontier.
    #[verifier::type_invariant]
    pub closed spec fn wf(self) -> bool {
        &&& self.traversal.wf()
        &&& self.traversal.frontier().len() > 0
        &&& self.traversal.frontier()[0] == self.url@
        &&& !self.traversal.visited().contains(self.url@)
        &&& url_parses(self.url@)
    }

    /// The address of the page to load.
    pub fn url(&self) -> (r: &str)
        ensures
            r@ == self.page(),
    {
        self.url.as_str()
    }

    /// Takes in what was found on the page and yields the traversal to go on
    /// with.
    ///
    /// `imgs` says how each image element of the page fared, `iframes` and
    /// `anchors` are the `src` and `href` attributes as read off the page,
    /// all in document order. The images and the videos of the page go to
    /// the end of the output, its links to the end of the frontier, and the
    /// page itself among the processed pages.
    ///
    /// Fails only when the page's address names no domain. No element, in
    /// whatever state it is handed over, makes the page fail.
    pub fn record(
        self,
        imgs: &Vec<Result<Option<String>, ElementError>>,
        iframes: &Vec<AttrRead>,
        anchors: &Vec<AttrRead>,
    ) -> (r: Result<Traversal, PageError>)
        ensures
            match r {
                Ok(next) => {
                    let links = links_of(anchors@, self.page());
                    &&& page_fault(self.page()) is None
                    &&& next.wf()
                    &&& next.seed() == self.state().seed()
                    &&& next.frontier() == self.state().frontier().skip(1) + links
                    &&& next.visited() == self.state().visited().insert(self.page())
                    &&& next.pages() == self.state().pages().push(self.page())
                    &&& next.discovered() == self.state().discovered() + links
                    &&& next.output().images.deep_view() == self.state().output().images.deep_view()
                        + images_of(imgs@)
                    &&& next.output().videos.deep_view() == self.state().output().videos.deep_view()
                        + videos_of(iframes@)
                    &&& next.output().mal_id == self.state().output().mal_id
                    &&& next.output().url == self.state().output().url
                    &&& next.output().parent == self.state().output().parent
                },
                Err(e) => page_fault(self.page()) == Some(e),
            },
    {
        proof {
            use_type_invariant(&self);
            use_type_invariant(&self.traversal);
        }
        let ghost start = self.traversal;
        let Visit { traversal, url } = self;
        let mut images = scrape_imgs(imgs);
        let mut videos = scrape_videos(iframes);
        let links = match scrape_links(anchors, url.as_str()) {
            Ok(links) => links,
            Err(e) => {
                return Err(e);
            },
        };
        let Traversal { output, mut frontier, mut crawled, pages, discovered } = traversal;
        let SpiderOutput { mal_id, url: seed, images: mut all_images, videos: mut all_videos, parent } =
            output;
        let ghost images_before = all_images.deep_view();
        let ghost videos_before = all_videos.deep_view();
        let ghost new_images = images.deep_view();
        let ghost new_videos = videos.deep_view();
        all_images.append(&mut images);
        all_videos.append(&mut videos);
        assert(all_images.deep_view() =~= images_before + new_images);
        assert(all_videos.deep_view() =~= videos_before + new_videos);

        let ghost old_frontier = frontier.deep_view();
        let ghost consumed = discovered@.len() - old_frontier.len();
        frontier.pop_front();
        assert(frontier.deep_view() =~= old_frontier.skip(1));
        let ghost tail = frontier.deep_view();
        let mut i: usize = 0;
        assert(links.deep_view().take(0) =~= Seq::<Seq<char>>::empty());
        while i < links.len()
            invariant
                i <= links.len(),
                frontier.deep_view() =~= tail + links.deep_view().take(i as int),
            decreases links.len() - i,
        {
            let ghost before = frontier.deep_view();
            let link = links[i].clone();
            frontier.push_back(link);
            assert(frontier.deep_view() =~= before.push(link@));
            assert(links.deep_view().take(i + 1) =~= links.deep_view().take(i as int).push(
                links[i as int]@,
            ));
            i = i + 1;
        }
        assert(links.deep_view().take(i as int) =~= links.deep_view());
        let ghost page = url@;
        crawled.insert(url, true);
        let ghost found = links.deep_view();
        let ghost old_pages = pages@;
        let ghost old_found = discovered@;
        let ghost new_pages = old_pages.push(page);
        let ghost new_found = old_found + found;
        let ghost new_visited = Set::new(
            |u: Seq<char>| crawled@.contains_key(u) && crawled@[u],
        );
        proof {
            assert(old_found[consumed] == old_frontier[0]);
            assert(new_visited =~= start.visited().insert(page));
            // The page was not among the processed pages, so it is new to them.
            assert(!old_pages.contains(page)) by {
                if old_pages.contains(page) {
                    assert(old_pages.to_set().contains(page));
                }
            }
            assert(new_pages.no_duplicates());
            assert(new_pages.to_set() =~= old_pages.to_set().insert(page)) by {
                assert forall|u: Seq<char>| new_pages.to_set().contains(u) == old_pages.to_set().insert(
                    page,
                ).contains(u) by {
                    if new_pages.contains(u) {
                        let k = choose|k: int| 0 <= k < new_pages.len() && new_pages[k] == u;
                        if k < old_pages.len() {
                            assert(old_pages[k] == u);
                            assert(old_pages.contains(u));
                        }
                    }
                    if old_pages.contains(u) {
                        let k = choose|k: int| 0 <= k < old_pages.len() && old_pages[k] == u;
                        assert(new_pages[k] == u);
                    }
                    if u == page {
                        assert(new_pages[old_pages.len() as int] == u);
                    }
                }
            }
            assert(frontier.deep_view() =~= new_found.skip(consumed + 1));
            assert forall|k: int| 0 <= k < consumed + 1 implies new_visited.contains(
                #[trigger] new_found[k],
            ) by {
                assert(new_found[k] == old_found[k]);
                if k < consumed {
                    assert(start.visited().contains(old_found[k]));
                }
            }
            assert forall|k: int| 0 <= k < new_pages.len() implies new_found.contains(
                #[trigger] new_pages[k],
            ) by {
                if k < old_pages.len() {
                    assert(old_found.contains(old_pages[k]));
                    let j = choose|j: int| 0 <= j < old_found.len() && old_found[j] == old_pages[k];
                    assert(new_found[j] == old_pages[k]);
                } else {
                    assert(new_found[consumed] == page);
                }
            }
            assert forall|k: int| 1 <= k < new_found.len() implies confined(
                #[trigger] new_found[k],
                seed@,
            ) by {
                if k < old_found.len() {
                    assert(new_found[k] == old_found[k]);
                } else {
                    assert(new_found[k] == found[k - old_found.len()]);
                    assert(confined(links[k - old_found.len()]@, page));
                    if consumed > 0 {
                        assert(confined(old_found[consumed], start.seed()));
                    }
                }
            }
        }
        let next = Traversal {
            output: SpiderOutput {
                mal_id,
                url: seed,
                images: all_images,
                videos: all_videos,
                parent,
            },
            frontier,
            crawled,
            pages: Ghost(new_pages),
            discovered: Ghost(new_found),
        };
        assert(next.visited() =~= new_visited);
        Ok(next)
    }
}

/// No duplicate processing: no page is processed twice, however often its
/// address was put into the frontier, and the visited set holds exactly the
/// processed pages.
pub proof fn lemma_no_page_twice(t: Traversal)
    requires
        t.wf(),
    ensures
        t.pages().no_duplicates(),
        t.visited() == t.pages().to_set(),
        forall|i: int, j: int|
            0 <= i < j < t.pages().len() ==> #[trigger] t.pages()[i] != #[trigger] t.pages()[j],
{
}

/// When nothing unprocessed is left in the frontier, every address that was
/// ever discovered has been processed, and, with the lemma before, exactly
/// once.
pub proof fn lemma_finished_covers_all(t: Traversal)
    requires
        t.wf(),
        skip_visited(t.frontier(), t.visited()).len() == 0,
    ensures
        forall|url: Seq<char>| t.discovered().contains(url) <==> t.pages().contains(url),
{
    let all = t.discovered();
    let frontier = t.frontier();
    let consumed = all.len() - frontier.len();
    lemma_skip_visited_empty(frontier, t.visited());
    assert forall|url: Seq<char>| all.contains(url) <==> t.pages().contains(url) by {
        if all.contains(url) {
            let i = choose|i: int| 0 <= i < all.len() && all[i] == url;
            if i >= consumed {
                assert(frontier[i - consumed] == all[i]);
            }
            assert(t.visited().contains(all[i]));
            assert(t.pages().to_set().contains(url));
        }
        if t.pages().contains(url) {
            let i = choose|i: int| 0 <= i < t.pages().len() && t.pages()[i] == url;
            assert(all.contains(t.pages()[i]));
        }
    }
}

/// Where dropping the processed front of a frontier leaves nothing, all of
/// it was processed.
pub proof fn lemma_skip_visited_empty(frontier: Seq<Seq<char>>, visited: Set<Seq<char>>)
    requires
        skip_visited(frontier, visited).len() == 0,
    ensures
        forall|i: int| 0 <= i < frontier.len() ==> visited.contains(#[trigger] frontier[i]),
    decreases frontier.len(),
{
    if frontier.len() > 0 {
        let rest = frontier.skip(1);
        lemma_skip_visited_empty(rest, visited);
        assert forall|i: int| 0 <= i < frontier.len() implies visited.contains(
            #[trigger] frontier[i],
        ) by {
            if i > 0 {
                assert(frontier[i] == rest[i - 1]);
            }
        }
    }
}

/// Domain confinement of the frontier: whatever waits in the frontier is the
/// seed itself or a URL on the seed's domain.
pub proof fn lemma_frontier_confined(t: Traversal)
    requires
        t.wf(),
    ensures
        forall|i: int|
            0 <= i < t.frontier().len() ==> {
                ||| #[trigger] t.frontier()[i] == t.seed()
                ||| confined(t.frontier()[i], t.seed())
            },
{
    let all = t.discovered();
    let frontier = t.frontier();
    let consumed = all.len() - frontier.len();
    assert forall|i: int| 0 <= i < frontier.len() implies {
        ||| #[trigger] frontier[i] == t.seed()
        ||| confined(frontier[i], t.seed())
    } by {
        assert(frontier[i] == all[consumed + i]);
    }
}

} // verus!
