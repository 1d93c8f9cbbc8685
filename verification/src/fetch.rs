use vstd::prelude::*;

use crate::model::{Dispute, Disputes};
use vstd::string::StrSliceExecFns;

verus! {

/// One page of a paginated resource collection: its items, and the opaque
/// link to the next page. Absence of the link signals the final page.
pub struct Page<T> {
    pub items: Vec<T>,
    pub next: Option<String>,
}

/// Whether a run of pages, consumed in order, reaches a final page (one
/// without a next-link) before the run is exhausted.
pub open spec fn spec_complete<T>(pages: Seq<Page<T>>) -> bool
    decreases pages.len(),
{
    if pages.len() == 0 {
        false
    } else if pages[0].next is None {
        true
    } else {
        spec_complete(pages.drop_first())
    }
}

/// The items of a run of pages up to and including its first final page,
/// in page order.
pub open spec fn spec_collect<T>(pages: Seq<Page<T>>) -> Seq<T>
    decreases pages.len(),
{
    if pages.len() == 0 {
        Seq::empty()
    } else if pages[0].next is None {
        pages[0].items@
    } else {
        pages[0].items@ + spec_collect(pages.drop_first())
    }
}

/// The state of one paginated fetch: the items accumulated so far, and the
/// link still to be followed. `next` of `None` means the fetch is finished;
/// the sole termination signal is a page that carries no link.
pub struct Fetcher<T> {
    pub items: Vec<T>,
    pub next: Option<String>,
}

impl<T> Fetcher<T> {
    /// A fetch about to request its first page.
    pub fn new(start_url: String) -> (r: Self)
        ensures
            r.items@ == Seq::<T>::empty(),
            r.next == Option::Some(start_url),
    {
        let r = Fetcher { items: Vec::new(), next: Option::Some(start_url) };
        proof {
            assert(r.items@ =~= Seq::<T>::empty());
        }
        r
    }

    /// Whether the fetch has consumed a final page.
    pub fn done(&self) -> (r: bool)
        ensures
            r == (self.next is None),
    {
        match &self.next {
            Option::None => true,
            Option::Some(_) => false,
        }
    }

    /// Consume one fetched page: append its items in order, and follow its
    /// link, or finish when it carries none. All-or-nothing failure is the
    /// caller's part: a page that cannot be fetched or decoded aborts the
    /// whole fetch and discards this state.
    pub fn ingest(&mut self, page: Page<T>)
        requires
            old(self).next is Some,
        ensures
            final(self).items@ == old(self).items@ + page.items@,
            final(self).next == page.next,
    {
        let mut items = page.items;
        self.items.append(&mut items);
        self.next = page.next;
    }
}

/// Fold an in-order run of already-fetched pages exactly as the paginated
/// fetch consumes them: items accumulate in page order until the first page
/// without a next-link; a run that ends while a link is still pending
/// yields nothing at all.
#[verifier::loop_isolation(false)]
pub fn fetch_all_from<T>(pages: Vec<Page<T>>) -> (r: Option<Vec<T>>)
    ensures
        spec_complete(pages@) ==> match r {
            Option::Some(v) => v@ == spec_collect(pages@),
            Option::None => false,
        },
        !spec_complete(pages@) ==> r is None,
{
    let ghost orig = pages@;
    let mut pages = pages;
    let mut acc: Vec<T> = Vec::new();
    proof {
        assert(acc@ =~= Seq::<T>::empty());
        assert(Seq::<T>::empty() + spec_collect(pages@) =~= spec_collect(pages@));
    }
    while pages.len() > 0
        invariant
            spec_complete(orig) == spec_complete(pages@),
            spec_complete(orig) ==> spec_collect(orig) == acc@ + spec_collect(pages@),
        decreases pages@.len(),
    {
        let ghost before = pages@;
        let mut page = pages.remove(0);
        proof {
            assert(before.remove(0) =~= before.drop_first());
            assert(before[0] == page);
        }
        let terminal = match &page.next {
            Option::None => true,
            Option::Some(_) => false,
        };
        let ghost acc_before = acc@;
        acc.append(&mut page.items);
        if terminal {
            proof {
                assert(spec_complete(before));
                assert(spec_collect(before) == before[0].items@);
                assert(acc@ =~= acc_before + spec_collect(before));
            }
            return Option::Some(acc);
        }
        proof {
            assert(spec_complete(before) == spec_complete(before.drop_first()));
            if spec_complete(orig) {
                assert(spec_collect(before) == before[0].items@ + spec_collect(
                    before.drop_first(),
                ));
                assert(acc@ + spec_collect(pages@) =~= acc_before + spec_collect(before));
            }
        }
    }
    proof {
        assert(!spec_complete(pages@));
    }
    Option::None
}

/// Whether `needle` occurs in `hay` as a contiguous run of characters.
pub open spec fn contains_sub(hay: Seq<char>, needle: Seq<char>) -> bool {
    exists|i: int|
        0 <= i && i + needle.len() <= hay.len() && #[trigger] hay.subrange(i, i + needle.len())
            == needle
}

/// Whether `needle` occurs in `hay` starting at `i`.
fn match_at(hay: &str, needle: &str, i: usize, hlen: usize, nlen: usize) -> (r: bool)
    requires
        hlen == hay@.len(),
        nlen == needle@.len(),
        i + nlen <= hlen,
    ensures
        r == (hay@.subrange(i as int, i + needle@.len()) == needle@),
{
    let mut j: usize = 0;
    while j < nlen
        invariant
            j <= nlen,
            hlen == hay@.len(),
            nlen == needle@.len(),
            i + nlen <= hlen,
            forall|m: int| 0 <= m < j ==> hay@[i + m] == needle@[m],
        decreases nlen - j,
    {
        if hay.get_char(i + j) != needle.get_char(j) {
            proof {
                assert(hay@.subrange(i as int, i + needle@.len())[j as int] == hay@[i + j]);
            }
            return false;
        }
        j += 1;
    }
    proof {
        assert(hay@.subrange(i as int, i + needle@.len()) =~= needle@);
    }
    true
}

/// Whether `needle` occurs anywhere in `hay`.
pub fn contains_sub_exec(hay: &str, needle: &str) -> (r: bool)
    ensures
        r == contains_sub(hay@, needle@),
{
    let hlen = hay.unicode_len();
    let nlen = needle.unicode_len();
    if nlen > hlen {
        return false;
    }
    if nlen == 0 {
        proof {
            let i: int = 0;
            assert(hay@.subrange(i, i + needle@.len()) =~= needle@);
        }
        return true;
    }
    let mut i: usize = 0;
    while i <= hlen - nlen
        invariant
            0 < nlen <= hlen,
            hlen == hay@.len(),
            nlen == needle@.len(),
            i <= hlen - nlen + 1,
            forall|m: int|
                0 <= m < i ==> #[trigger] hay@.subrange(m, m + needle@.len()) != needle@,
        decreases hlen - i,
    {
        if match_at(hay, needle, i, hlen, nlen) {
            return true;
        }
        i += 1;
    }
    false
}

/// The content-type under which a disputes response carries JSON at all.
/// A response whose content-type does not say so is the platform's way of
/// reporting zero disputes: it is an empty collection, not an error.
pub fn disputes_body_is_empty(content_type: &Option<String>) -> (r: bool)
    ensures
        r == match *content_type {
            Option::None => true,
            Option::Some(ct) => !contains_sub(ct@, "application/json"@),
        },
{
    match content_type {
        Option::None => true,
        Option::Some(ct) => !contains_sub_exec(ct.as_str(), "application/json"),
    }
}

impl Disputes {
    /// The empty collection a store without disputes yields.
    pub fn empty() -> (r: Disputes)
        ensures
            r@ == Seq::<crate::model::DisputeV>::empty(),
    {
        let r = Disputes { disputes: Vec::<Dispute>::new() };
        proof {
            assert(r@ =~= Seq::<crate::model::DisputeV>::empty());
        }
        r
    }
}

} // verus!
