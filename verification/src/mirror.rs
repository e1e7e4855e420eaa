//! The decisions of the mirroring client: which page of which upstream
//! resource to ask for next, when to save, and when the mirror is complete.
//!
//! The client itself fetches, stores and sleeps. After every page it tells
//! the crawl how many items the page held and how many items of the
//! resource it had before and has now; the crawl answers with what to do.
use vstd::prelude::*;

verus! {

/// The number of items that a full page holds.
pub const PAGE_SIZE: usize = 200;

/// While older items are fetched, the resource is saved every so many
/// pages.
pub const PAGES_PER_SAVE: usize = 256;

/// How long to wait between two pages, in seconds.
pub const PAUSE_SECS: u64 = 4;

/// How long to wait before a page that failed is asked for again, in
/// seconds.
pub const RETRY_SECS: u64 = 32;

/// An upstream resource that is mirrored.
#[derive(Debug, Clone, Copy, PartialEq, Eq, Structural, Hash)]
pub enum Resource {
    Games,
    Users,
    Runs,
}

impl Resource {
    /// The resource that is mirrored first.
    pub fn first() -> (resource: Resource)
        ensures
            resource == Resource::Games,
    {
        Resource::Games
    }

    /// The resource that is mirrored after this one, if any.
    pub open spec fn spec_next(self) -> Option<Resource> {
        match self {
            Resource::Games => Some(Resource::Users),
            Resource::Users => Some(Resource::Runs),
            Resource::Runs => None,
        }
    }

    #[verifier::when_used_as_spec(spec_next)]
    pub fn next(self) -> (next: Option<Resource>)
        ensures
            next == self.spec_next(),
    {
        match self {
            Resource::Games => Some(Resource::Users),
            Resource::Users => Some(Resource::Runs),
            Resource::Runs => None,
        }
    }

    /// The resource's name in upstream paths and in file names.
    pub fn id(self) -> (id: &'static str)
        ensures
            id@ == (match self {
                Resource::Games => "games"@,
                Resource::Users => "users"@,
                Resource::Runs => "runs"@,
            }),
    {
        match self {
            Resource::Games => "games",
            Resource::Users => "users",
            Resource::Runs => "runs",
        }
    }

    /// The upstream field that pages of the resource are ordered by.
    pub fn order(self) -> (order: &'static str)
        ensures
            order@ == (match self {
                Resource::Games => "created"@,
                Resource::Users => "signup"@,
                Resource::Runs => "submitted"@,
            }),
    {
        match self {
            Resource::Games => "created",
            Resource::Users => "signup",
            Resource::Runs => "submitted",
        }
    }

    /// What the upstream service is asked to embed in each item.
    pub fn embed(self) -> (embed: &'static str)
        ensures
            embed@ == (match self {
                Resource::Games => "levels,categories,variables,gametypes,platforms,regions,genres,engines,developers,publishers"@,
                Resource::Users => ""@,
                Resource::Runs => ""@,
            }),
    {
        match self {
            Resource::Games => "levels,categories,variables,gametypes,platforms,regions,genres,engines,developers,publishers",
            Resource::Users => "",
            Resource::Runs => "",
        }
    }

    /// The resource with the given name, if there is one.
    pub fn from_id(id: &str) -> (resource: Option<Resource>)
        ensures
            resource == (if id@ == "games"@ {
                Some(Resource::Games)
            } else if id@ == "users"@ {
                Some(Resource::Users)
            } else if id@ == "runs"@ {
                Some(Resource::Runs)
            } else {
                None
            }),
    {
        if same_text(id, "games") {
            Some(Resource::Games)
        } else if same_text(id, "users") {
            Some(Resource::Users)
        } else if same_text(id, "runs") {
            Some(Resource::Runs)
        } else {
            None
        }
    }
}

/// Whether two texts hold the same characters.
fn same_text(a: &str, b: &str) -> (same: bool)
    ensures
        same == (a@ == b@),
{
    let a = a.to_owned();
    let b = b.to_owned();
    a == b
}

/// The direction in which a resource is crawled.
#[derive(Debug, Clone, Copy, PartialEq, Eq, Structural, Hash)]
pub enum Phase {
    /// From the newest item on, page by page, until a page brings nothing
    /// new.
    Newest,
    /// From the number of items held on, until a page is not full.
    Oldest,
}

/// Where the crawl stands: the resource, the direction, and the number of
/// pages fetched in this direction.
#[derive(Debug, Clone, Copy, PartialEq, Eq, Structural, Hash)]
pub struct Crawl {
    pub resource: Resource,
    pub phase: Phase,
    pub page: usize,
}

/// What the client does after a page.
#[derive(Debug, Clone, Copy, PartialEq, Eq, Structural, Hash)]
pub struct Advance {
    /// Whether to save the resource that the page belongs to.
    pub save: bool,
    /// How long to wait before the next page, in seconds.
    pub pause_secs: u64,
    /// Where the crawl stands now; `None` when the mirror is complete.
    pub next: Option<Crawl>,
}

impl Crawl {
    /// The crawl before its first page.
    pub fn start() -> (crawl: Crawl)
        ensures
            crawl == (Crawl { resource: Resource::Games, phase: Phase::Newest, page: 0 }),
    {
        Crawl { resource: Resource::Games, phase: Phase::Newest, page: 0 }
    }

    /// The offset of the page to ask for, where the client holds `held`
    /// items of the resource. `None` where the offset is too large to
    /// write.
    pub open spec fn spec_offset(self, held: usize) -> Option<usize> {
        match self.phase {
            Phase::Newest => if self.page * PAGE_SIZE <= usize::MAX {
                Some((self.page * PAGE_SIZE) as usize)
            } else {
                None
            },
            Phase::Oldest => Some(held),
        }
    }

    pub fn offset(&self, held: usize) -> (offset: Option<usize>)
        ensures
            offset == self.spec_offset(held),
    {
        match self.phase {
            Phase::Newest => self.page.checked_mul(PAGE_SIZE),
            Phase::Oldest => Some(held),
        }
    }

    /// The crawl at the start of the direction that follows this one: the
    /// older items of the same resource, or the newest of the next
    /// resource. `None` after the last.
    pub open spec fn turned(self) -> Option<Crawl> {
        match self.phase {
            Phase::Newest => Some(Crawl { resource: self.resource, phase: Phase::Oldest, page: 0 }),
            Phase::Oldest => match self.resource.spec_next() {
                Some(resource) => Some(Crawl { resource, phase: Phase::Newest, page: 0 }),
                None => None,
            },
        }
    }

    /// Whether the page that was fetched ends this direction: a page from
    /// the newest end that brought nothing new, a page from the oldest end
    /// that was not full, or the last page that can be counted.
    pub open spec fn ends(self, items: usize, before: usize, after: usize) -> bool {
        ||| self.phase == Phase::Newest && after == before
        ||| self.phase == Phase::Oldest && items < PAGE_SIZE
        ||| self.page == usize::MAX
    }

    /// What follows a page that held `items` items, where the client held
    /// `before` items of the resource before it and holds `after` now.
    ///
    /// A page that ends its direction is followed at once by the next
    /// direction, and the resource is saved when its last direction ends.
    /// Any other page is followed, after a pause, by the next page in the
    /// same direction; going through older items, the resource is saved
    /// after every 256th page, counting from the first.
    pub open spec fn spec_after_page(self, items: usize, before: usize, after: usize) -> Advance {
        if self.ends(items, before, after) {
            Advance { save: self.phase == Phase::Oldest, pause_secs: 0, next: self.turned() }
        } else {
            Advance {
                save: self.phase == Phase::Oldest && self.page % PAGES_PER_SAVE == 0,
                pause_secs: PAUSE_SECS,
                next: Some(
                    Crawl {
                        resource: self.resource,
                        phase: self.phase,
                        page: (self.page + 1) as usize,
                    },
                ),
            }
        }
    }

    pub fn after_page(&self, items: usize, before: usize, after: usize) -> (advance: Advance)
        ensures
            advance == self.spec_after_page(items, before, after),
    {
        let ends = match self.phase {
            Phase::Newest => after == before,
            Phase::Oldest => items < PAGE_SIZE,
        };
        if ends || self.page == usize::MAX {
            let next = match self.phase {
                Phase::Newest => Some(
                    Crawl { resource: self.resource, phase: Phase::Oldest, page: 0 },
                ),
                Phase::Oldest => match self.resource.next() {
                    Some(resource) => Some(Crawl { resource, phase: Phase::Newest, page: 0 }),
                    None => None,
                },
            };
            Advance { save: self.is_oldest(), pause_secs: 0, next }
        } else {
            Advance {
                save: self.is_oldest() && self.page % PAGES_PER_SAVE == 0,
                pause_secs: PAUSE_SECS,
                next: Some(
                    Crawl { resource: self.resource, phase: self.phase, page: self.page + 1 },
                ),
            }
        }
    }

    fn is_oldest(&self) -> (oldest: bool)
        ensures
            oldest == (self.phase == Phase::Oldest),
    {
        match self.phase {
            Phase::Newest => false,
            Phase::Oldest => true,
        }
    }

    /// How far the crawl is from its end, as a triple that every turn and
    /// every page makes smaller: directions left, then pages left.
    pub open spec fn directions_left(self) -> nat {
        let resources: nat = match self.resource {
            Resource::Games => 2,
            Resource::Users => 1,
            Resource::Runs => 0,
        };
        let phases: nat = match self.phase {
            Phase::Newest => 1,
            Phase::Oldest => 0,
        };
        resources * 2 + phases
    }
}

/// The crawl ends: every page leaves either fewer directions to go, or the
/// same direction with fewer pages that can still be counted.
pub proof fn lemma_crawl_progresses(crawl: Crawl, items: usize, before: usize, after: usize)
    ensures
        match crawl.spec_after_page(items, before, after).next {
            Some(next) => next.directions_left() < crawl.directions_left() || (
            next.directions_left() == crawl.directions_left() && usize::MAX - next.page
                < usize::MAX - crawl.page),
            None => crawl.directions_left() == 0,
        },
{
}

} // verus!
