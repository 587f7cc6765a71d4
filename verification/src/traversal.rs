//! The model of a pagination traversal: a cursor that names the page to fetch
//! next, and the items taken up so far.
//!
//! The listing traversal and the gallery traversal are both instances. Each
//! takes up one page per step; the laws here say what a run of steps amounts
//! to.

use vstd::prelude::*;

verus! {

/// What a page gives to a traversal: its items in page order, and the address
/// of the page after it, if the traversal is to go on.
pub struct Page<T> {
    pub items: Seq<T>,
    pub next: Option<Seq<char>>,
}

/// The state of a traversal. A traversal whose cursor is `None` has ended.
pub struct Traversal<T> {
    pub items: Seq<T>,
    pub cursor: Option<Seq<char>>,
}

/// A traversal that is about to fetch its first page.
pub open spec fn begin<T>(items: Seq<T>, url: Seq<char>) -> Traversal<T> {
    Traversal { items, cursor: Some(url) }
}

/// One step: a running traversal appends the page's items and moves its
/// cursor to the page's successor; a traversal that has ended takes up
/// nothing.
pub open spec fn take_up<T>(state: Traversal<T>, page: Page<T>) -> Traversal<T> {
    if state.cursor is Some {
        Traversal { items: state.items + page.items, cursor: page.next }
    } else {
        state
    }
}

/// The state after the pages were handed to the traversal one by one.
pub open spec fn traverse<T>(state: Traversal<T>, pages: Seq<Page<T>>) -> Traversal<T>
    decreases pages.len(),
{
    if pages.len() == 0 {
        state
    } else {
        traverse(take_up(state, pages.first()), pages.drop_first())
    }
}

/// The items of all the pages, page after page.
pub open spec fn all_items<T>(pages: Seq<Page<T>>) -> Seq<T>
    decreases pages.len(),
{
    if pages.len() == 0 {
        Seq::empty()
    } else {
        pages.first().items + all_items(pages.drop_first())
    }
}

/// Every page but the last names a successor.
pub open spec fn is_chain<T>(pages: Seq<Page<T>>) -> bool {
    forall|i: int| 0 <= i < pages.len() - 1 ==> (#[trigger] pages[i]).next is Some
}

/// A traversal that has ended stays as it is, whatever pages it is handed.
pub proof fn law_ended_stays<T>(state: Traversal<T>, pages: Seq<Page<T>>)
    requires
        state.cursor is None,
    ensures
        traverse(state, pages) == state,
    decreases pages.len(),
{
    if pages.len() > 0 {
        law_ended_stays(state, pages.drop_first());
    }
}

/// Page order is kept: a running traversal that is handed a chain of pages
/// ends up with what it had, followed by the items of the first page, then
/// those of the second, and so on; its cursor is the successor that the last
/// page names.
pub proof fn law_page_order<T>(state: Traversal<T>, pages: Seq<Page<T>>)
    requires
        state.cursor is Some,
        pages.len() > 0,
        is_chain(pages),
    ensures
        traverse(state, pages).items == state.items + all_items(pages),
        traverse(state, pages).cursor == pages.last().next,
    decreases pages.len(),
{
    let first = pages.first();
    let rest = pages.drop_first();
    let after = take_up(state, first);
    if rest.len() == 0 {
        assert(all_items(rest) =~= Seq::<T>::empty());
        assert(after.items =~= state.items + all_items(pages));
    } else {
        assert(pages[0].next is Some);
        assert forall|i: int| 0 <= i < rest.len() - 1 implies (#[trigger] rest[i]).next is Some by {
            assert(rest[i] == pages[i + 1]);
        }
        law_page_order(after, rest);
        assert(rest.last() == pages.last());
        assert(traverse(state, pages).items =~= state.items + all_items(pages));
    }
}

/// The traversal stops at the first page that names no successor: it ends
/// there, and the pages handed to it afterwards change nothing.
pub proof fn law_stops_at_last_page<T>(state: Traversal<T>, pages: Seq<Page<T>>, last: int)
    requires
        state.cursor is Some,
        0 <= last < pages.len(),
        pages[last].next is None,
        forall|i: int| 0 <= i < last ==> (#[trigger] pages[i]).next is Some,
    ensures
        traverse(state, pages).cursor is None,
        traverse(state, pages) == traverse(state, pages.take(last + 1)),
        traverse(state, pages).items == state.items + all_items(pages.take(last + 1)),
{
    let head = pages.take(last + 1);
    let tail = pages.skip(last + 1);
    assert(head.last() == pages[last]);
    assert forall|i: int| 0 <= i < head.len() - 1 implies (#[trigger] head[i]).next is Some by {
        assert(head[i] == pages[i]);
    }
    law_page_order(state, head);
    lemma_traverse_split(state, head, tail);
    assert(head + tail =~= pages);
    law_ended_stays(traverse(state, head), tail);
}

/// Handing over two runs of pages in turn is handing over their
/// concatenation.
proof fn lemma_traverse_split<T>(state: Traversal<T>, head: Seq<Page<T>>, tail: Seq<Page<T>>)
    ensures
        traverse(state, head + tail) == traverse(traverse(state, head), tail),
    decreases head.len(),
{
    if head.len() == 0 {
        assert(head + tail =~= tail);
    } else {
        assert((head + tail).first() == head.first());
        assert((head + tail).drop_first() =~= head.drop_first() + tail);
        lemma_traverse_split(take_up(state, head.first()), head.drop_first(), tail);
    }
}

} // verus!
