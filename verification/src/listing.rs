//! The traversal of the paginated gallery listing.
//!
//! The caller fetches the page at the cursor and hands its body to
//! [`parse_list`], which takes up the galleries that the page announces and
//! moves the cursor to the page after it, or ends the traversal. What a run
//! of such steps amounts to is stated in [`crate::traversal`].

use crate::gallery::{sanitized, Gallery, GalleryView};
use crate::markup::{
    document_fits, first_of, first_value, fits, select_attrs, select_entries, selected_attrs,
    selected_entries, HREF, LISTING_ENTRY, LISTING_LINK, LISTING_NEXT, LISTING_TITLE,
};
use crate::traversal::{all_items, is_chain, take_up, Page, Traversal};
use vstd::prelude::*;

verus! {

/// Why a listing page cannot be taken up. `entry` counts the gallery entries
/// of the page from zero.
#[derive(Clone, Copy, Debug, PartialEq, Eq, Structural)]
pub enum PageError {
    /// The document is too long to be parsed.
    TooLarge,
    /// The entry holds no title element.
    MissingTitle { entry: usize },
    /// The entry holds no link, or its first link has no address.
    MissingLink { entry: usize },
}

/// What a gallery entry holds: the text of each title element in it, and the
/// address, if any, of each link in it.
pub type EntryFields = (Seq<Seq<char>>, Seq<Option<Seq<char>>>);

/// The entry holds both a title element and a link with an address.
pub open spec fn is_complete(fields: EntryFields) -> bool {
    fields.0.len() > 0 && first_value(fields.1) is Some
}

/// The stub that a complete entry announces: the address of its first link
/// and the sanitized text of its first title element.
pub open spec fn stub_of(fields: EntryFields) -> GalleryView {
    GalleryView {
        url: first_value(fields.1)->0,
        title: sanitized(fields.0[0]),
        images: Seq::empty(),
    }
}

/// What is wrong with the incomplete entry number `entry`. A missing title is
/// reported before a missing link.
pub open spec fn defect_of(fields: EntryFields, entry: usize) -> PageError {
    if fields.0.len() == 0 {
        PageError::MissingTitle { entry }
    } else {
        PageError::MissingLink { entry }
    }
}

/// The number of complete entries at the head of `entries`: the index of the
/// first incomplete entry, or the length where every entry is complete.
pub open spec fn first_incomplete(entries: Seq<EntryFields>) -> int
    decreases entries.len(),
{
    if entries.len() == 0 || !is_complete(entries.first()) {
        0
    } else {
        1 + first_incomplete(entries.drop_first())
    }
}

/// What a listing page holds.
#[derive(Clone, Debug, PartialEq, Eq)]
pub struct ListingPage {
    /// The galleries that the page announces, in the order of its entries.
    pub galleries: Vec<Gallery>,
    /// The address of the listing page after this one.
    pub next: Option<String>,
}

impl View for ListingPage {
    type V = Page<GalleryView>;

    open spec fn view(&self) -> Page<GalleryView> {
        Page { items: self.galleries.deep_view(), next: self.next.deep_view() }
    }
}

/// The page that the entries and the next links found in a document make up.
/// A page with an incomplete entry is refused as a whole, with the defect of
/// the first such entry. The next page is the one that the first next link
/// names; a page without such a link, or whose first such link has no
/// address, is the last.
pub open spec fn listing_page(entries: Seq<EntryFields>, next_links: Seq<Option<Seq<char>>>) -> Result<
    Page<GalleryView>,
    PageError,
> {
    let at = first_incomplete(entries);
    if at < entries.len() {
        Err(defect_of(entries[at], at as usize))
    } else {
        Ok(
            Page {
                items: Seq::new(entries.len(), |i: int| stub_of(entries[i])),
                next: first_value(next_links),
            },
        )
    }
}

/// `first_incomplete` is the one index before which every entry is complete
/// and at which, unless it is the length, the entry is not.
proof fn lemma_first_incomplete(entries: Seq<EntryFields>, at: int)
    requires
        0 <= at <= entries.len(),
        forall|j: int| 0 <= j < at ==> is_complete(#[trigger] entries[j]),
        at < entries.len() ==> !is_complete(entries[at]),
    ensures
        first_incomplete(entries) == at,
    decreases at,
{
    if at > 0 {
        let rest = entries.drop_first();
        assert(is_complete(entries[0]));
        assert forall|j: int| 0 <= j < at - 1 implies is_complete(#[trigger] rest[j]) by {
            assert(rest[j] == entries[j + 1]);
        }
        lemma_first_incomplete(rest, at - 1);
    }
}

/// Makes up a listing page from what was found in a document: for each
/// gallery entry its title texts and link addresses, and the addresses of the
/// next links.
pub fn listing_from(
    entries: &Vec<(Vec<String>, Vec<Option<String>>)>,
    next_links: &Vec<Option<String>>,
) -> (page: Result<ListingPage, PageError>)
    ensures
        match page {
            Ok(page) => listing_page(entries.deep_view(), next_links.deep_view()) == Ok::<
                Page<GalleryView>,
                PageError,
            >(page@) && forall|i: int| 0 <= i < page.galleries.len() ==> page.galleries[i].wf(),
            Err(e) => listing_page(entries.deep_view(), next_links.deep_view()) == Err::<
                Page<GalleryView>,
                PageError,
            >(e),
        },
{
    let ghost found = entries.deep_view();
    let mut galleries: Vec<Gallery> = Vec::new();
    let mut i: usize = 0;
    while i < entries.len()
        invariant
            i <= entries.len(),
            found == entries.deep_view(),
            forall|j: int| 0 <= j < i ==> is_complete(#[trigger] found[j]),
            galleries.len() == i,
            forall|j: int| 0 <= j < i ==> (#[trigger] galleries[j])@ == stub_of(found[j]),
            forall|j: int| 0 <= j < i ==> (#[trigger] galleries[j]).wf(),
        decreases entries.len() - i,
    {
        let fields = &entries[i];
        assert(found[i as int] == (fields.0.deep_view(), fields.1.deep_view()));
        if fields.0.len() == 0 {
            proof {
                lemma_first_incomplete(found, i as int);
            }
            return Err(PageError::MissingTitle { entry: i });
        }
        let url = match first_of(&fields.1) {
            Some(url) => url,
            None => {
                proof {
                    lemma_first_incomplete(found, i as int);
                }
                return Err(PageError::MissingLink { entry: i });
            },
        };
        assert(fields.0.deep_view()[0] == fields.0[0]@);
        let gallery = Gallery::new(url, fields.0[0].as_str());
        galleries.push(gallery);
        i += 1;
    }
    proof {
        lemma_first_incomplete(found, i as int);
    }
    let next = first_of(next_links);
    let page = ListingPage { galleries, next };
    assert(page@.items =~= Seq::new(found.len(), |i: int| stub_of(found[i])));
    Ok(page)
}

/// The page that the document `html` makes up as a listing page.
pub open spec fn listing_page_in(html: Seq<char>) -> Result<Page<GalleryView>, PageError> {
    listing_page(
        selected_entries(html, LISTING_ENTRY@, LISTING_TITLE@, LISTING_LINK@, HREF@),
        selected_attrs(html, LISTING_NEXT@, HREF@),
    )
}

/// One step of the listing traversal on the document `html`. A traversal
/// that has ended does not look at the document. A running one takes the page
/// up, or fails where the document is too long or the page is refused.
pub open spec fn listing_step(state: Traversal<GalleryView>, html: Seq<char>) -> Result<
    Traversal<GalleryView>,
    PageError,
> {
    if state.cursor is None {
        Ok(state)
    } else if !fits(html) {
        Err(PageError::TooLarge)
    } else {
        match listing_page_in(html) {
            Ok(page) => Ok(take_up(state, page)),
            Err(e) => Err(e),
        }
    }
}

/// One step of the listing traversal: `html` is the body of the page at
/// `cursor`. Appends the galleries that the page announces to `galleries`, in
/// the order of its entries, and moves `cursor` to the next listing page, or
/// to `None` where this page is the last. Where the document is too long or
/// the page is refused, and where the traversal had ended before, both are
/// left as they were.
pub fn parse_list(galleries: &mut Vec<Gallery>, cursor: &mut Option<String>, html: &str) -> (taken:
    Result<(), PageError>)
    ensures
        match listing_step(
            Traversal { items: old(galleries).deep_view(), cursor: old(cursor).deep_view() },
            html@,
        ) {
            Ok(state) => {
                &&& taken is Ok
                &&& final(galleries).deep_view() == state.items
                &&& final(cursor).deep_view() == state.cursor
            },
            Err(e) => {
                &&& taken == Err::<(), PageError>(e)
                &&& *final(galleries) == *old(galleries)
                &&& *final(cursor) == *old(cursor)
            },
        },
{
    if cursor.is_none() {
        return Ok(());
    }
    if !document_fits(html) {
        return Err(PageError::TooLarge);
    }
    let entries = select_entries(html, LISTING_ENTRY, LISTING_TITLE, LISTING_LINK, HREF);
    let next_links = select_attrs(html, LISTING_NEXT, HREF);
    match listing_from(&entries, &next_links) {
        Ok(page) => {
            let ListingPage { galleries: mut found, next } = page;
            let ghost before = galleries.deep_view();
            let ghost added = found.deep_view();
            galleries.append(&mut found);
            assert(galleries.deep_view() =~= before + added);
            *cursor = next;
            Ok(())
        },
        Err(e) => Err(e),
    }
}

/// A run of the listing traversal: the documents are handed to it one by one,
/// each the body of the page at the cursor. The run fails with the first page
/// that is refused.
pub open spec fn listing_run(state: Traversal<GalleryView>, bodies: Seq<Seq<char>>) -> Result<
    Traversal<GalleryView>,
    PageError,
>
    decreases bodies.len(),
{
    if bodies.len() == 0 {
        Ok(state)
    } else {
        match listing_step(state, bodies.first()) {
            Ok(next) => listing_run(next, bodies.drop_first()),
            Err(e) => Err(e),
        }
    }
}

/// A listing traversal that has ended takes up nothing more and cannot fail,
/// whatever documents it is handed.
pub proof fn law_listing_ended(state: Traversal<GalleryView>, bodies: Seq<Seq<char>>)
    requires
        state.cursor is None,
    ensures
        listing_run(state, bodies) == Ok::<Traversal<GalleryView>, PageError>(state),
    decreases bodies.len(),
{
    if bodies.len() > 0 {
        law_listing_ended(state, bodies.drop_first());
    }
}

/// The listing is taken up in page order, and the traversal stops at the
/// first page without a next link. Let `bodies`, each short enough to be
/// parsed, make up the pages `pages`, each but the last with a next link. A running traversal that is handed
/// `bodies` ends up with what it had, then the galleries of the first page in
/// the order of its entries, then those of the second page, and so on. Where
/// the last of the pages has no next link, the documents in `rest`, handed
/// over afterwards, are not looked at.
pub proof fn law_listing_order(
    state: Traversal<GalleryView>,
    bodies: Seq<Seq<char>>,
    pages: Seq<Page<GalleryView>>,
    rest: Seq<Seq<char>>,
)
    requires
        state.cursor is Some,
        bodies.len() == pages.len(),
        pages.len() > 0,
        forall|i: int|
            0 <= i < bodies.len() ==> fits(#[trigger] bodies[i]) && listing_page_in(bodies[i])
                == Ok::<Page<GalleryView>, PageError>(pages[i]),
        is_chain(pages),
        rest.len() > 0 ==> pages.last().next is None,
    ensures
        listing_run(state, bodies + rest) == Ok::<Traversal<GalleryView>, PageError>(
            Traversal { items: state.items + all_items(pages), cursor: pages.last().next },
        ),
    decreases bodies.len(),
{
    let all = bodies + rest;
    let after = take_up(state, pages[0]);
    assert(all.first() == bodies[0]);
    assert(all.drop_first() =~= bodies.drop_first() + rest);
    assert(listing_step(state, bodies[0]) == Ok::<Traversal<GalleryView>, PageError>(after));
    let later = pages.drop_first();
    if bodies.len() == 1 {
        assert(bodies.drop_first() + rest =~= rest);
        assert(all_items(later) =~= Seq::<GalleryView>::empty());
        assert(after.items =~= state.items + all_items(pages));
        if rest.len() > 0 {
            law_listing_ended(after, rest);
        }
    } else {
        let left = bodies.drop_first();
        assert(pages[0].next is Some);
        assert forall|i: int| 0 <= i < left.len() implies fits(#[trigger] left[i])
            && listing_page_in(left[i]) == Ok::<Page<GalleryView>, PageError>(later[i]) by {
            assert(left[i] == bodies[i + 1]);
        }
        assert forall|i: int| 0 <= i < later.len() - 1 implies (#[trigger] later[i]).next is Some by {
            assert(later[i] == pages[i + 1]);
        }
        assert(later.last() == pages.last());
        law_listing_order(after, left, later, rest);
        assert(after.items + all_items(later) =~= state.items + all_items(pages));
    }
}

} // verus!
