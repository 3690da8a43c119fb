//! The paginated repository source: a cursor over the pages of one
//! owner's listing.
//!
//! The cursor is driven by pulls. A pull yields a buffered
//! descriptor, asks for the next page when the buffer is empty and
//! pages remain, or reports exhaustion. The shell fetches the page
//! it was asked for and applies the response; on the first page the
//! response's link header fixes the number of the last page, and a
//! missing header means the listing has exactly one page. A fetch
//! that fails is terminal: the cursor is marked and yields nothing
//! further, so a permanently failing page is never retried.
//!
//! Pulling requires exclusive access to the cursor, so any number of
//! consuming workers devolves to one serial sequence of pulls; the
//! lemmas at the end of the module show that over such a sequence a
//! listing of `T` descriptors is yielded exactly once each, in
//! order, using one page request per page of the listing.

use vstd::prelude::*;

use crate::github::{page_url, listing_path, spec_listing_path, spec_page_url, PER_PAGE};
use crate::link::{link_last_page, last_page_of_link, LinkHeaderError};
use crate::repo::{Repo, RepoType};

verus! {

/// What one pull of the cursor produced.
pub enum PullStep {
    /// The next descriptor of the listing.
    Item(Repo),
    /// Nothing is buffered: the given page must be fetched and
    /// applied before the next descriptor can be yielded.
    NeedPage(u32),
    /// The listing is over: every page was consumed, or the cursor
    /// was marked failed.
    Exhausted,
}

/// The cursor over one owner's repository listing.
pub struct GithubRepos {
    path: String,
    buf: Vec<Repo>,
    page: u32,
    last: u32,
    failed: bool,
}

impl GithubRepos {
    /// The listing path the cursor requests pages of.
    pub closed spec fn listing(self) -> Seq<char> {
        self.path@
    }

    /// The descriptors of the current page not yet yielded.
    pub closed spec fn buffered(self) -> Seq<Repo> {
        self.buf@
    }

    /// The number of the page fetched last; zero before the first
    /// fetch. Every fetched page was applied, so this also counts
    /// the page requests made.
    pub closed spec fn cur_page(self) -> int {
        self.page as int
    }

    /// The last page number the link header reported; zero while
    /// unknown.
    pub closed spec fn last_page(self) -> int {
        self.last as int
    }

    /// Whether a page fetch failed; a failed cursor yields nothing.
    pub closed spec fn is_failed(self) -> bool {
        self.failed
    }

    /// A fresh cursor for one owner's listing.
    pub fn new(name: &str, rt: RepoType) -> (s: Self)
        ensures
            s.listing() == spec_listing_path(rt, name@),
            s.buffered() == Seq::<Repo>::empty(),
            s.cur_page() == 0,
            s.last_page() == 0,
            !s.is_failed(),
    {
        let s = GithubRepos {
            path: listing_path(name, rt),
            buf: Vec::new(),
            page: 0,
            last: 0,
            failed: false,
        };
        proof {
            assert(s.buffered() =~= Seq::<Repo>::empty());
        }
        s
    }

    /// The URL to fetch page `n` of this listing from.
    pub fn page_request(&self, n: u32) -> (u: String)
        ensures
            u@ == spec_page_url(self.listing(), PER_PAGE as nat, n as nat),
    {
        page_url(self.path.as_str(), PER_PAGE, n)
    }

    /// One pull: the next buffered descriptor if there is one; else
    /// the number of the page to fetch, when none was fetched yet or
    /// fetched pages remain; else exhaustion. Only yielding a
    /// descriptor changes the cursor.
    pub fn pull(&mut self) -> (step: PullStep)
        ensures
            final(self).listing() == old(self).listing(),
            final(self).cur_page() == old(self).cur_page(),
            final(self).last_page() == old(self).last_page(),
            final(self).is_failed() == old(self).is_failed(),
            old(self).is_failed() ==> step == PullStep::Exhausted && final(self).buffered()
                == old(self).buffered(),
            !old(self).is_failed() && old(self).buffered().len() > 0 ==> step == PullStep::Item(
                old(self).buffered()[0],
            ) && final(self).buffered() == old(self).buffered().skip(1),
            !old(self).is_failed() && old(self).buffered().len() == 0 ==> final(self).buffered()
                == old(self).buffered() && (if old(self).cur_page() == 0 || old(self).cur_page()
                < old(self).last_page() {
                step == PullStep::NeedPage((old(self).cur_page() + 1) as u32)
            } else {
                step == PullStep::Exhausted
            }),
    {
        if self.failed {
            PullStep::Exhausted
        } else if self.buf.len() > 0 {
            let r = self.buf.remove(0);
            proof {
                assert(self.buf@ =~= old(self).buf@.skip(1));
            }
            PullStep::Item(r)
        } else if self.page == 0 || self.page < self.last {
            PullStep::NeedPage(self.page + 1)
        } else {
            PullStep::Exhausted
        }
    }

    /// Applies the response to the page request the last pull asked
    /// for: the page's descriptors refill the buffer, the page
    /// counter advances, and the link header fixes the last page
    /// number — a missing header means this is the only page, a
    /// header without a `last` link leaves the number as it was. A
    /// malformed header fails the cursor instead.
    pub fn apply_page(&mut self, items: Vec<Repo>, link: Option<&str>) -> (r: Result<
        (),
        LinkHeaderError,
    >)
        requires
            !old(self).is_failed(),
            old(self).buffered().len() == 0,
            old(self).cur_page() == 0 || old(self).cur_page() < old(self).last_page(),
        ensures
            final(self).listing() == old(self).listing(),
            match link {
                None => r is Ok && !final(self).is_failed() && final(self).buffered() == items@
                    && final(self).cur_page() == old(self).cur_page() + 1 && final(self).last_page() == 1,
                Some(h) => match link_last_page(h@) {
                    Err(_) => r is Err && final(self).is_failed() && final(self).buffered()
                        == old(self).buffered() && final(self).cur_page() == old(self).cur_page()
                        && final(self).last_page() == old(self).last_page(),
                    Ok(v) => r is Ok && !final(self).is_failed() && final(self).buffered()
                        == items@ && final(self).cur_page() == old(self).cur_page() + 1 && final(self).last_page() == (match v {
                        Some(w) => w as int,
                        None => old(self).last_page(),
                    }),
                },
            },
    {
        match link {
            None => {
                self.page = self.page + 1;
                self.buf = items;
                self.last = 1;
                Ok(())
            },
            Some(h) => match last_page_of_link(h) {
                Err(e) => {
                    self.failed = true;
                    Err(e)
                },
                Ok(v) => {
                    self.page = self.page + 1;
                    self.buf = items;
                    if let Some(w) = v {
                        self.last = w;
                    }
                    Ok(())
                },
            },
        }
    }

    /// Marks the cursor failed after a page fetch error: the listing
    /// has produced its one terminal error and yields nothing more.
    pub fn mark_failed(&mut self)
        ensures
            final(self).listing() == old(self).listing(),
            final(self).buffered() == old(self).buffered(),
            final(self).cur_page() == old(self).cur_page(),
            final(self).last_page() == old(self).last_page(),
            final(self).is_failed(),
    {
        self.failed = true;
    }
}

/// How many pages a listing of `total` descriptors occupies at
/// `per` descriptors per page: the ceiling of `total / per`, except
/// that an empty listing still occupies the one page that must be
/// fetched to discover that it is empty.
pub open spec fn page_count(total: int, per: int) -> int
    decreases total,
{
    if per < 1 || total <= per {
        1
    } else {
        1 + page_count(total - per, per)
    }
}

/// Page `i` (numbered from one) of the listing `all` cut into pages
/// of `per` descriptors.
pub open spec fn page_slice(all: Seq<Repo>, per: int, i: int) -> Seq<Repo> {
    all.subrange(
        (i - 1) * per,
        if i * per <= all.len() {
            i * per
        } else {
            all.len() as int
        },
    )
}

/// The page count is at least one, its pages cover the listing, and
/// every page before the final one is full.
pub proof fn lemma_page_count_bounds(total: int, per: int)
    requires
        per >= 1,
        total >= 0,
    ensures
        page_count(total, per) >= 1,
        total <= page_count(total, per) * per,
        total >= 1 ==> (page_count(total, per) - 1) * per < total,
    decreases total,
{
    if total <= per {
        assert(page_count(total, per) == 1);
        assert(1 * per == per) by (nonlinear_arith);
    } else {
        lemma_page_count_bounds(total - per, per);
        let lp = page_count(total - per, per);
        assert((lp + 1) * per == lp * per + per) by (nonlinear_arith);
        assert(((lp + 1) - 1) * per == (lp - 1) * per + per) by (nonlinear_arith);
    }
}

/// The cursor's state part-way through consuming the listing `all`,
/// paged at `per` descriptors, after having yielded `yielded`: the
/// descriptors yielded so far followed by the buffered ones are
/// exactly the descriptors of the pages fetched so far, and once a
/// page was fetched the last page number is the page count.
pub open spec fn listing_inv(src: GithubRepos, all: Seq<Repo>, per: int, yielded: Seq<
    Repo,
>) -> bool {
    let t = all.len() as int;
    let l = page_count(t, per);
    &&& per >= 1
    &&& !src.is_failed()
    &&& 0 <= src.cur_page() <= l
    &&& (src.cur_page() == 0 ==> yielded.len() == 0 && src.buffered().len() == 0)
    &&& (src.cur_page() >= 1 ==> src.last_page() == l && yielded + src.buffered() == all.take(
        if src.cur_page() * per <= t {
            src.cur_page() * per
        } else {
            t
        },
    ))
}

/// A fresh cursor is at the start of any listing: nothing yielded,
/// nothing buffered, no page fetched.
pub proof fn lemma_listing_start(src: GithubRepos, all: Seq<Repo>, per: int)
    requires
        per >= 1,
        !src.is_failed(),
        src.cur_page() == 0,
        src.buffered().len() == 0,
    ensures
        listing_inv(src, all, per, Seq::<Repo>::empty()),
{
    lemma_page_count_bounds(all.len() as int, per);
}

/// Yielding never duplicates and never drops: the descriptor a pull
/// yields is exactly the next descriptor of the listing, in the
/// listing's order.
pub proof fn lemma_listing_yield(
    pre: GithubRepos,
    post: GithubRepos,
    r: Repo,
    all: Seq<Repo>,
    per: int,
    yielded: Seq<Repo>,
)
    requires
        listing_inv(pre, all, per, yielded),
        pre.buffered().len() > 0,
        r == pre.buffered()[0],
        post.buffered() == pre.buffered().skip(1),
        post.cur_page() == pre.cur_page(),
        post.last_page() == pre.last_page(),
        !post.is_failed(),
    ensures
        listing_inv(post, all, per, yielded.push(r)),
        yielded.len() < all.len(),
        r == all[yielded.len() as int],
{
    let t = all.len() as int;
    let s = if pre.cur_page() * per <= t {
        pre.cur_page() * per
    } else {
        t
    };
    assert(yielded + pre.buffered() == all.take(s));
    assert((yielded + pre.buffered())[yielded.len() as int] == r);
    assert(all.take(s)[yielded.len() as int] == all[yielded.len() as int]);
    assert(yielded.push(r) + post.buffered() =~= yielded + pre.buffered());
}

/// Applying the next page keeps the account straight: the fetched
/// page brings exactly the next `per` descriptors of the listing
/// (fewer on the final page), and the page counter — the number of
/// page requests made — advances by one.
pub proof fn lemma_listing_fetch(
    pre: GithubRepos,
    post: GithubRepos,
    items: Seq<Repo>,
    all: Seq<Repo>,
    per: int,
    yielded: Seq<Repo>,
)
    requires
        listing_inv(pre, all, per, yielded),
        pre.buffered().len() == 0,
        pre.cur_page() == 0 || pre.cur_page() < pre.last_page(),
        items == page_slice(all, per, pre.cur_page() + 1),
        post.buffered() == items,
        post.cur_page() == pre.cur_page() + 1,
        post.last_page() == page_count(all.len() as int, per),
        !post.is_failed(),
    ensures
        listing_inv(post, all, per, yielded),
{
    let t = all.len() as int;
    let l = page_count(t, per);
    let p = pre.cur_page();
    lemma_page_count_bounds(t, per);
    if p == 0 {
        assert(yielded + post.buffered() =~= page_slice(all, per, 1));
        assert(1 * per == per) by (nonlinear_arith);
        assert((1 - 1) * per == 0) by (nonlinear_arith);
        assert(page_slice(all, per, 1) =~= all.take(
            if 1 * per <= t {
                1 * per
            } else {
                t
            },
        ));
    } else {
        assert(pre.last_page() == l);
        assert(p + 1 <= l);
        assert(p * per <= (l - 1) * per) by (nonlinear_arith)
            requires
                p <= l - 1,
                per >= 1,
        ;
        if t >= 1 {
            assert((l - 1) * per < t);
        } else {
            assert(l == 1);
            assert(p < l);
        }
        assert(p * per <= t);
        assert(yielded + pre.buffered() == all.take(p * per));
        assert(yielded =~= all.take(p * per));
        assert((p + 1) * per == p * per + per) by (nonlinear_arith);
        let s2 = if (p + 1) * per <= t {
            (p + 1) * per
        } else {
            t
        };
        assert(items == all.subrange(p * per, s2));
        assert(yielded + post.buffered() =~= all.take(s2));
    }
}

/// When the cursor reports exhaustion it has yielded every
/// descriptor of the listing exactly once, in order, and has made
/// exactly one page request per page of the listing.
pub proof fn lemma_listing_done(src: GithubRepos, all: Seq<Repo>, per: int, yielded: Seq<Repo>)
    requires
        listing_inv(src, all, per, yielded),
        src.buffered().len() == 0,
        src.cur_page() != 0,
        !(src.cur_page() < src.last_page()),
    ensures
        yielded == all,
        src.cur_page() == page_count(all.len() as int, per),
{
    let t = all.len() as int;
    let l = page_count(t, per);
    lemma_page_count_bounds(t, per);
    assert(src.cur_page() == l);
    assert(l * per >= t);
    assert(yielded + src.buffered() == all.take(t));
    assert(yielded =~= all.take(t));
    assert(yielded =~= all);
}

} // verus!
