//! The traversal of a gallery's paginated detail pages.
//!
//! The caller fetches the page at the cursor and hands its body to
//! [`parse_gallery`], which appends the image pages that the page lists to
//! the gallery and moves the cursor to the page after it, or ends the
//! traversal. What a run of such steps amounts to is stated in
//! [`crate::traversal`].

use crate::gallery::Gallery;
use crate::markup::{
    document_fits, first_of, first_value, fits, select_attrs, selected_attrs, DETAIL_IMAGE,
    DETAIL_NEXT, HREF,
};
use crate::traversal::{all_items, take_up, Page, Traversal};
use vstd::prelude::*;

verus! {

/// The addresses among `links`, in their order. A link without an address is
/// passed over.
pub open spec fn addresses(links: Seq<Option<Seq<char>>>) -> Seq<Seq<char>> {
    links.filter_map(|link: Option<Seq<char>>| link)
}

/// The page to fetch after the page at `cursor`: the one that the first next
/// link names. The traversal ends where there is no such link, where the
/// first such link has no address, and where its address is `cursor` itself.
pub open spec fn detail_next(next_links: Seq<Option<Seq<char>>>, cursor: Seq<char>) -> Option<
    Seq<char>,
> {
    match first_value(next_links) {
        Some(href) => if href == cursor {
            None
        } else {
            Some(href)
        },
        None => None,
    }
}

/// The page, fetched from `cursor`, that the image links and the next links
/// found in a document make up.
pub open spec fn detail_page(
    links: Seq<Option<Seq<char>>>,
    next_links: Seq<Option<Seq<char>>>,
    cursor: Seq<char>,
) -> Page<Seq<char>> {
    Page { items: addresses(links), next: detail_next(next_links, cursor) }
}

/// What a detail page holds.
#[derive(Clone, Debug, PartialEq, Eq)]
pub struct DetailPage {
    /// The addresses of the image pages that the page lists, in its order.
    pub images: Vec<String>,
    /// The address of the detail page after this one.
    pub next: Option<String>,
}

impl View for DetailPage {
    type V = Page<Seq<char>>;

    open spec fn view(&self) -> Page<Seq<char>> {
        Page { items: self.images.deep_view(), next: self.next.deep_view() }
    }
}

/// The cycle guard: a detail page whose next link names the page itself ends
/// the traversal.
pub proof fn law_cycle_guard(
    state: Traversal<Seq<char>>,
    links: Seq<Option<Seq<char>>>,
    next_links: Seq<Option<Seq<char>>>,
    cursor: Seq<char>,
)
    requires
        first_value(next_links) == Some(cursor),
    ensures
        detail_page(links, next_links, cursor).next is None,
        take_up(state, detail_page(links, next_links, cursor)).cursor is None,
{
}

/// A traversal never moves from a page to the same page.
pub proof fn law_cursor_moves(
    links: Seq<Option<Seq<char>>>,
    next_links: Seq<Option<Seq<char>>>,
    cursor: Seq<char>,
)
    ensures
        detail_page(links, next_links, cursor).next != Some(cursor),
{
}

/// Makes up a detail page from what was found in the document fetched from
/// `cursor`: the addresses of the image links and of the next links.
pub fn detail_from(links: &Vec<Option<String>>, next_links: &Vec<Option<String>>, cursor: &str) -> (page:
    DetailPage)
    ensures
        page@ == detail_page(links.deep_view(), next_links.deep_view(), cursor@),
{
    let ghost found = links.deep_view();
    let ghost pick = |link: Option<Seq<char>>| link;
    let mut images: Vec<String> = Vec::new();
    let mut i: usize = 0;
    while i < links.len()
        invariant
            i <= links.len(),
            found == links.deep_view(),
            pick == |link: Option<Seq<char>>| link,
            images.deep_view() == found.take(i as int).filter_map(pick),
        decreases links.len() - i,
    {
        proof {
            found.lemma_filter_map_take_succ(pick, i as int);
        }
        let ghost before = images.deep_view();
        match &links[i] {
            Some(href) => {
                images.push(href.clone());
                assert(images.deep_view() =~= before + seq![href@]);
            },
            None => {},
        }
        i += 1;
    }
    assert(found.take(i as int) =~= found);
    let here = cursor.to_owned();
    let next = match first_of(next_links) {
        Some(href) => if href == here {
            None
        } else {
            Some(href)
        },
        None => None,
    };
    DetailPage { images, next }
}

/// Why a detail page cannot be taken up.
#[derive(Clone, Copy, Debug, PartialEq, Eq, Structural)]
pub enum DetailError {
    /// The document is too long to be parsed.
    TooLarge,
}

/// The page that the document `html`, fetched from `cursor`, makes up as a
/// detail page.
pub open spec fn detail_page_in(html: Seq<char>, cursor: Seq<char>) -> Page<Seq<char>> {
    detail_page(
        selected_attrs(html, DETAIL_IMAGE@, HREF@),
        selected_attrs(html, DETAIL_NEXT@, HREF@),
        cursor,
    )
}

/// One step of the gallery traversal on the document `html`. A traversal
/// that has ended does not look at the document. A running one takes the page
/// up, or fails where the document is too long.
pub open spec fn gallery_step(state: Traversal<Seq<char>>, html: Seq<char>) -> Result<
    Traversal<Seq<char>>,
    DetailError,
> {
    match state.cursor {
        Some(cursor) => if fits(html) {
            Ok(take_up(state, detail_page_in(html, cursor)))
        } else {
            Err(DetailError::TooLarge)
        },
        None => Ok(state),
    }
}

/// A run of the gallery traversal: the documents are handed to it one by one,
/// each the body of the page at the cursor. The run fails with the first
/// document that is too long.
pub open spec fn gallery_run(state: Traversal<Seq<char>>, bodies: Seq<Seq<char>>) -> Result<
    Traversal<Seq<char>>,
    DetailError,
>
    decreases bodies.len(),
{
    if bodies.len() == 0 {
        Ok(state)
    } else {
        match gallery_step(state, bodies.first()) {
            Ok(next) => gallery_run(next, bodies.drop_first()),
            Err(e) => Err(e),
        }
    }
}

/// A gallery traversal that has ended takes up nothing more and cannot fail,
/// whatever documents it is handed.
pub proof fn law_gallery_ended(state: Traversal<Seq<char>>, bodies: Seq<Seq<char>>)
    requires
        state.cursor is None,
    ensures
        gallery_run(state, bodies) == Ok::<Traversal<Seq<char>>, DetailError>(state),
    decreases bodies.len(),
{
    if bodies.len() > 0 {
        law_gallery_ended(state, bodies.drop_first());
    }
}

/// The cycle guard ends the run: where the next link of the page at the
/// cursor names that same page, the traversal takes the page up and
/// terminates. The documents in `rest`, handed over afterwards, are not
/// looked at, so the traversal cannot loop.
pub proof fn law_cycle_ends_run(
    state: Traversal<Seq<char>>,
    html: Seq<char>,
    rest: Seq<Seq<char>>,
)
    requires
        state.cursor is Some,
        fits(html),
        first_value(selected_attrs(html, DETAIL_NEXT@, HREF@)) == state.cursor,
    ensures
        gallery_run(state, seq![html] + rest) == Ok::<Traversal<Seq<char>>, DetailError>(
            Traversal {
                items: state.items + addresses(selected_attrs(html, DETAIL_IMAGE@, HREF@)),
                cursor: None,
            },
        ),
{
    let all = seq![html] + rest;
    assert(all.first() == html);
    assert(all.drop_first() =~= rest);
    let after = take_up(state, detail_page_in(html, state.cursor->0));
    assert(gallery_step(state, html) == Ok::<Traversal<Seq<char>>, DetailError>(after));
    law_gallery_ended(after, rest);
}

/// The image pages of a gallery are taken up in page order, and the
/// traversal stops at the first page that ends it. Let `bodies`, each short
/// enough to be parsed, make up the pages `pages`, each read at the cursor
/// that the page before it moved to. A running traversal that is handed
/// `bodies` ends up with what it had, then the image pages of the first page
/// in page order, then those of the second page, and so on. Where the last of
/// the pages ends the traversal, the documents in `rest`, handed over
/// afterwards, are not looked at.
pub proof fn law_gallery_order(
    state: Traversal<Seq<char>>,
    bodies: Seq<Seq<char>>,
    pages: Seq<Page<Seq<char>>>,
    rest: Seq<Seq<char>>,
)
    requires
        state.cursor is Some,
        bodies.len() == pages.len(),
        pages.len() > 0,
        forall|i: int| 0 <= i < bodies.len() ==> fits(#[trigger] bodies[i]),
        pages[0] == detail_page_in(bodies[0], state.cursor->0),
        forall|i: int|
            0 <= i < pages.len() - 1 ==> (#[trigger] pages[i]).next is Some && pages[i + 1]
                == detail_page_in(bodies[i + 1], pages[i].next->0),
        rest.len() > 0 ==> pages.last().next is None,
    ensures
        gallery_run(state, bodies + rest) == Ok::<Traversal<Seq<char>>, DetailError>(
            Traversal { items: state.items + all_items(pages), cursor: pages.last().next },
        ),
    decreases bodies.len(),
{
    let all = bodies + rest;
    let after = take_up(state, pages[0]);
    assert(all.first() == bodies[0]);
    assert(all.drop_first() =~= bodies.drop_first() + rest);
    assert(fits(bodies[0]));
    assert(gallery_step(state, bodies[0]) == Ok::<Traversal<Seq<char>>, DetailError>(after));
    assert(gallery_run(state, all) == gallery_run(after, all.drop_first()));
    let later = pages.drop_first();
    if bodies.len() == 1 {
        assert(bodies.drop_first() + rest =~= rest);
        assert(all_items(later) =~= Seq::<Seq<char>>::empty());
        assert(after.items =~= state.items + all_items(pages));
        if rest.len() > 0 {
            law_gallery_ended(after, rest);
        } else {
            assert(gallery_run(after, rest) == Ok::<Traversal<Seq<char>>, DetailError>(after));
        }
    } else {
        let left = bodies.drop_first();
        assert(pages[0].next is Some);
        assert(later[0] == pages[1]);
        assert(left[0] == bodies[1]);
        assert forall|i: int| 0 <= i < left.len() implies fits(#[trigger] left[i]) by {
            assert(left[i] == bodies[i + 1]);
        }
        assert forall|i: int| 0 <= i < later.len() - 1 implies (#[trigger] later[i]).next is Some
            && later[i + 1] == detail_page_in(left[i + 1], later[i].next->0) by {
            assert(later[i] == pages[i + 1]);
            assert(later[i + 1] == pages[i + 2]);
            assert(left[i + 1] == bodies[i + 2]);
        }
        assert(later.last() == pages.last());
        law_gallery_order(after, left, later, rest);
        assert(after.items + all_items(later) =~= state.items + all_items(pages));
    }
}

/// One step of the gallery traversal: `html` is the body of the detail page
/// at `cursor`. Appends the addresses of the image pages that the page lists
/// to the gallery's images, in page order, and moves `cursor` to the next
/// detail page, or to `None` where this page is the last. What the gallery
/// held before stays, and so do its address and its title. Where the
/// document is too long, and where the traversal had ended before, the
/// gallery and the cursor are left as they were.
pub fn parse_gallery(gallery: &mut Gallery, cursor: &mut Option<String>, html: &str) -> (taken:
    Result<(), DetailError>)
    ensures
        final(gallery).url == old(gallery).url,
        final(gallery).title == old(gallery).title,
        old(gallery).wf() ==> final(gallery).wf(),
        match gallery_step(
            Traversal { items: old(gallery).images.deep_view(), cursor: old(cursor).deep_view() },
            html@,
        ) {
            Ok(state) => {
                &&& taken is Ok
                &&& final(gallery).images.deep_view() == state.items
                &&& final(cursor).deep_view() == state.cursor
            },
            Err(e) => {
                &&& taken == Err::<(), DetailError>(e)
                &&& *final(gallery) == *old(gallery)
                &&& *final(cursor) == *old(cursor)
            },
        },
{
    let page = match cursor {
        Some(at) => {
            if !document_fits(html) {
                return Err(DetailError::TooLarge);
            }
            let links = select_attrs(html, DETAIL_IMAGE, HREF);
            let next_links = select_attrs(html, DETAIL_NEXT, HREF);
            detail_from(&links, &next_links, at.as_str())
        },
        None => {
            return Ok(());
        },
    };
    let DetailPage { images: mut found, next } = page;
    let ghost before = gallery.images.deep_view();
    let ghost added = found.deep_view();
    gallery.images.append(&mut found);
    assert(gallery.images.deep_view() =~= before + added);
    *cursor = next;
    Ok(())
}

} // verus!
