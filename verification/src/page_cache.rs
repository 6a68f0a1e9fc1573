//! The rendered pages of the open document, keyed by page index, and the
//! window of pages around a requested one that still have to be rendered.

use crate::domain::{share, Bitmap, BitmapView, Page, PageView};
use std::collections::HashMap;
use std::sync::Arc;
use vstd::prelude::*;
use vstd::std_specs::hash::*;

verus! {

/// How far the window reaches to either side of the requested page.
pub const WINDOW_REACH: i32 = 5;

/// The first index of the window around `center`: `center - 5`, but not below
/// the first page.
pub open spec fn window_start(center: i32) -> int {
    if center - WINDOW_REACH > 0 {
        center - WINDOW_REACH
    } else {
        0
    }
}

/// The index after the last one of the window around `center`: `center + 5`,
/// but not beyond the last page.
pub open spec fn window_end(center: i32, page_count: i32) -> int {
    if center + WINDOW_REACH < page_count {
        center + WINDOW_REACH
    } else {
        page_count as int
    }
}

/// The indices of the window around `center`, ascending. The window is empty
/// where its end does not lie after its start.
pub open spec fn window(center: i32, page_count: i32) -> Seq<i32> {
    let start = window_start(center);
    let end = window_end(center, page_count);
    Seq::new(
        if end > start {
            (end - start) as nat
        } else {
            0
        },
        |k: int| (start + k) as i32,
    )
}

/// The indices of the window around `center` that `cached` does not hold,
/// ascending.
pub open spec fn missing(cached: Set<i32>, center: i32, page_count: i32) -> Seq<i32> {
    window(center, page_count).filter(|index: i32| !cached.contains(index))
}

/// The cache after `page` is handed in: a page with an image is kept under its
/// index, a page without one changes nothing.
pub open spec fn with_page(cache: Map<i32, BitmapView>, page: PageView) -> Map<i32, BitmapView> {
    match page.image {
        Some(image) => cache.insert(page.index, image),
        None => cache,
    }
}

/// The cache after each of `pages` is handed in, in order.
pub open spec fn with_pages(cache: Map<i32, BitmapView>, pages: Seq<PageView>) -> Map<
    i32,
    BitmapView,
>
    decreases pages.len(),
{
    if pages.len() == 0 {
        cache
    } else {
        with_page(with_pages(cache, pages.drop_last()), pages.last())
    }
}

/// Whether `indices` ascends strictly.
pub open spec fn ascending(indices: Seq<i32>) -> bool {
    forall|j: int, k: int| 0 <= j < k < indices.len() ==> indices[j] < indices[k]
}

/// The indices under which `pages` carry an image.
pub open spec fn rendered_indices(pages: Seq<PageView>) -> Set<i32> {
    Set::new(
        |index: i32|
            exists|k: int|
                0 <= k < pages.len() && (#[trigger] pages[k]).index == index && pages[k].image
                    is Some,
    )
}

/// Filtering a strictly ascending list leaves a strictly ascending list of
/// exactly those of its elements that pass.
proof fn lemma_filter_ascending(indices: Seq<i32>, keep: spec_fn(i32) -> bool)
    requires
        ascending(indices),
    ensures
        ascending(indices.filter(keep)),
        forall|index: i32| #[trigger]
            indices.filter(keep).contains(index) <==> indices.contains(index) && keep(index),
    decreases indices.len(),
{
    reveal(Seq::filter);
    if indices.len() > 0 {
        let front = indices.drop_last();
        let last = indices.last();
        let kept = front.filter(keep);
        lemma_filter_ascending(front, keep);
        assert forall|index: i32| #[trigger]
            indices.filter(keep).contains(index) <==> indices.contains(index) && keep(
                index,
            ) by {
            if indices.filter(keep).contains(index) {
                let k = choose|k: int|
                    0 <= k < indices.filter(keep).len() && indices.filter(keep)[k] == index;
                if k < kept.len() {
                    assert(kept[k] == index);
                    assert(kept.contains(index));
                    let i = choose|i: int| 0 <= i < front.len() && front[i] == index;
                    assert(indices[i] == index);
                } else {
                    assert(indices[indices.len() - 1] == index);
                }
            }
            if indices.contains(index) && keep(index) {
                let i = choose|i: int| 0 <= i < indices.len() && indices[i] == index;
                if i < front.len() {
                    assert(front[i] == index);
                    assert(front.contains(index));
                    assert(kept.contains(index));
                    let k = choose|k: int| 0 <= k < kept.len() && kept[k] == index;
                    assert(indices.filter(keep)[k] == index);
                } else {
                    assert(indices.filter(keep)[kept.len() as int] == index);
                }
            }
        }
        assert forall|j: int, k: int| 0 <= j < k < indices.filter(keep).len() implies indices.filter(
            keep,
        )[j] < indices.filter(keep)[k] by {
            if k == kept.len() {
                assert(kept.contains(kept[j]));
                let i = choose|i: int| 0 <= i < front.len() && front[i] == kept[j];
                assert(indices[i] < indices[indices.len() - 1]);
            }
        }
    }
}

/// What a request renders: exactly the indices of the window that are not
/// held, each once, ascending. No index that is held is rendered again.
pub proof fn lemma_missing(cached: Set<i32>, center: i32, page_count: i32)
    ensures
        ascending(missing(cached, center, page_count)),
        forall|index: i32| #[trigger]
            missing(cached, center, page_count).contains(index) <==> {
                &&& window_start(center) <= index < window_end(center, page_count)
                &&& !cached.contains(index)
            },
{
    let all = window(center, page_count);
    lemma_filter_ascending(all, |index: i32| !cached.contains(index));
    assert forall|index: i32| #[trigger]
        all.contains(index) <==> window_start(center) <= index < window_end(
            center,
            page_count,
        ) by {
        if window_start(center) <= index < window_end(center, page_count) {
            assert(all[index - window_start(center)] == index);
        }
    }
}

/// The indices that a cache holds after pages were handed in: those it held,
/// and those under which a page came with an image.
pub proof fn lemma_with_pages_holds(cache: Map<i32, BitmapView>, pages: Seq<PageView>)
    ensures
        with_pages(cache, pages).dom() == cache.dom().union(rendered_indices(pages)),
    decreases pages.len(),
{
    if pages.len() == 0 {
        assert(with_pages(cache, pages).dom() =~= cache.dom().union(rendered_indices(pages)));
    } else {
        let front = pages.drop_last();
        lemma_with_pages_holds(cache, front);
        assert forall|index: i32|
            rendered_indices(pages).contains(index) <==> rendered_indices(front).contains(index)
                || (pages.last().index == index && pages.last().image is Some) by {
            if rendered_indices(front).contains(index) {
                let k = choose|k: int|
                    0 <= k < front.len() && (#[trigger] front[k]).index == index && front[k].image
                        is Some;
                assert(pages[k].index == index);
            }
            if pages.last().index == index && pages.last().image is Some {
                assert(pages[pages.len() - 1].index == index);
            }
            if rendered_indices(pages).contains(index) {
                let k = choose|k: int|
                    0 <= k < pages.len() && (#[trigger] pages[k]).index == index && pages[k].image
                        is Some;
                if k < front.len() {
                    assert(front[k].index == index);
                }
            }
        }
        assert(with_pages(cache, pages).dom() =~= cache.dom().union(rendered_indices(pages)));
    }
}

/// A request that is repeated renders nothing: once every page that the first
/// request found missing has come back with an image, the same request finds
/// no page missing.
pub proof fn lemma_repeated_request_is_empty(
    cache: Map<i32, BitmapView>,
    center: i32,
    page_count: i32,
    pages: Seq<PageView>,
)
    requires
        forall|index: i32| #[trigger]
            missing(cache.dom(), center, page_count).contains(index) ==> rendered_indices(
                pages,
            ).contains(index),
    ensures
        missing(with_pages(cache, pages).dom(), center, page_count) == Seq::<i32>::empty(),
{
    let held = with_pages(cache, pages).dom();
    lemma_with_pages_holds(cache, pages);
    lemma_missing(cache.dom(), center, page_count);
    lemma_missing(held, center, page_count);
    let again = missing(held, center, page_count);
    if again.len() > 0 {
        assert(again.contains(again[0]));
        assert(missing(cache.dom(), center, page_count).contains(again[0]));
    }
    assert(again =~= Seq::<i32>::empty());
}

/// The rendered pages of one document.
pub struct PageCache {
    images: HashMap<i32, Arc<Bitmap>>,
}

impl View for PageCache {
    type V = Map<i32, BitmapView>;

    closed spec fn view(&self) -> Map<i32, BitmapView> {
        Map::new(|index: i32| self.images@.contains_key(index), |index: i32| self.images@[index]@)
    }
}

impl PageCache {
    /// A cache that holds no page.
    pub fn new() -> (cache: Self)
        ensures
            cache@ == Map::<i32, BitmapView>::empty(),
    {
        let cache = PageCache { images: HashMap::new() };
        assert(cache@ =~= Map::<i32, BitmapView>::empty());
        cache
    }

    /// Forgets every page.
    pub fn clear(&mut self)
        ensures
            final(self)@ == Map::<i32, BitmapView>::empty(),
    {
        self.images.clear();
        assert(self@ =~= Map::<i32, BitmapView>::empty());
    }

    /// Whether the page `index` is held.
    pub fn contains(&self, index: i32) -> (held: bool)
        ensures
            held == self@.contains_key(index),
    {
        broadcast use group_hash_axioms;

        self.images.contains_key(&index)
    }

    /// The indices of the window around `page_index` that are not held,
    /// ascending: what a request for that page has to render.
    pub fn missing_pages(&self, page_index: i32, pages_count: i32) -> (indices: Vec<i32>)
        ensures
            indices@ == missing(self@.dom(), page_index, pages_count),
    {
        let start: i32 = if page_index > WINDOW_REACH {
            page_index - WINDOW_REACH
        } else {
            0
        };
        let reach: i64 = page_index as i64 + WINDOW_REACH as i64;
        let end: i32 = if reach < pages_count as i64 {
            reach as i32
        } else {
            pages_count
        };
        assert(start == window_start(page_index));
        assert(end == window_end(page_index, pages_count));
        let ghost all = window(page_index, pages_count);
        let ghost cached = self@.dom();
        let mut indices: Vec<i32> = Vec::new();
        let mut index: i32 = start;
        while index < end
            invariant
                start <= index,
                index <= end || index == start,
                start == window_start(page_index),
                end == window_end(page_index, pages_count),
                all == window(page_index, pages_count),
                cached == self@.dom(),
                indices@ == all.subrange(0, index - start).filter(
                    |index: i32| !cached.contains(index),
                ),
            decreases end - index,
        {
            proof {
                reveal(Seq::filter);
                assert(all.subrange(0, index - start + 1).drop_last() =~= all.subrange(
                    0,
                    index - start,
                ));
                assert(all.subrange(0, index - start + 1).last() == index);
            }
            if !self.contains(index) {
                indices.push(index);
            }
            index += 1;
        }
        proof {
            reveal(Seq::filter);
            assert(all.subrange(0, index - start) =~= all);
        }
        indices
    }

    /// Takes in freshly rendered pages: each page that has an image is kept
    /// under its index.
    pub fn record(&mut self, pages: &Vec<Arc<Page>>)
        ensures
            final(self)@ == with_pages(old(self)@, crate::domain::pages_view(pages@)),
    {
        broadcast use group_hash_axioms;

        let ghost before = self@;
        let ghost incoming = crate::domain::pages_view(pages@);
        let mut k: usize = 0;
        while k < pages.len()
            invariant
                k <= pages.len(),
                incoming == crate::domain::pages_view(pages@),
                self@ == with_pages(before, incoming.subrange(0, k as int)),
            decreases pages.len() - k,
        {
            proof {
                assert(incoming.subrange(0, k + 1).drop_last() =~= incoming.subrange(0, k as int));
                assert(incoming.subrange(0, k + 1).last() == pages@[k as int]@);
            }
            let page: &Page = &pages[k];
            let ghost held = self@;
            match &page.image {
                Some(image) => {
                    self.images.insert(page.index, share(image));
                    assert(self@ =~= held.insert(page.index, image@));
                },
                None => {},
            }
            k += 1;
        }
        assert(incoming.subrange(0, k as int) =~= incoming);
    }
}

} // verus!
