//! Queries on HTML text, answered by the `scraper` crate.
//!
//! What a selector picks out of a document is a matter of the HTML parsing
//! rules and of CSS matching. This crate does not restate either: each query
//! has a name for its answer, and the logic built on top is stated over those
//! names.

use vstd::prelude::*;
use vstd::utf8::encode_utf8;

verus! {

/// The longest document, in bytes, that is handed to the parser: 256 MiB.
pub const MAX_DOCUMENT_BYTES: usize = 0x1000_0000;

/// The document is short enough to be parsed.
pub open spec fn fits(html: Seq<char>) -> bool {
    encode_utf8(html).len() <= MAX_DOCUMENT_BYTES
}

/// Whether the document is short enough to be parsed.
pub fn document_fits(html: &str) -> (ok: bool)
    ensures
        ok == fits(html@),
{
    html.as_bytes().len() <= MAX_DOCUMENT_BYTES
}

/// The gallery entries of a listing page.
pub const LISTING_ENTRY: &'static str = ".gl2e";

/// Inside a gallery entry, the element that carries the title text.
pub const LISTING_TITLE: &'static str = ".glink";

/// Inside a gallery entry, the link to the gallery's first detail page.
pub const LISTING_LINK: &'static str = ".gl2e > div > a";

/// The link from a listing page to the one after it.
pub const LISTING_NEXT: &'static str = "#dnext";

/// The links from a detail page to its image pages.
pub const DETAIL_IMAGE: &'static str = ".gt200 > a";

/// The link in the last cell of a detail page's pagination row.
pub const DETAIL_NEXT: &'static str = "table.ptt > tbody > tr > td:last-child > a";

/// The link from an image page to the page of the original image.
pub const IMAGE_ORIGINAL: &'static str = "div#i6 div:last-child a";

/// The element that displays the image on an image page.
pub const IMAGE_DISPLAY: &'static str = "#img";

/// The attribute that holds a link's target.
pub const HREF: &'static str = "href";

/// The attribute that holds an image's source.
pub const SRC: &'static str = "src";

/// The selectors that this crate puts to a document.
pub open spec fn is_query(selector: Seq<char>) -> bool {
    ||| selector == LISTING_ENTRY@
    ||| selector == LISTING_TITLE@
    ||| selector == LISTING_LINK@
    ||| selector == LISTING_NEXT@
    ||| selector == DETAIL_IMAGE@
    ||| selector == DETAIL_NEXT@
    ||| selector == IMAGE_ORIGINAL@
    ||| selector == IMAGE_DISPLAY@
}

/// For each element of the document `html` that `selector` matches, in the
/// order in which `scraper` yields them: the value of its attribute `attr`,
/// if it has that attribute.
pub uninterp spec fn selected_attrs(html: Seq<char>, selector: Seq<char>, attr: Seq<char>) -> Seq<
    Option<Seq<char>>,
>;

/// For each element of the document `html` that `entry` matches, in the order
/// in which `scraper` yields them, a pair: the text of each of its descendants
/// that `title` matches, and the value of the attribute `attr`, if present, of
/// each of its descendants that `link` matches.
pub uninterp spec fn selected_entries(
    html: Seq<char>,
    entry: Seq<char>,
    title: Seq<char>,
    link: Seq<char>,
    attr: Seq<char>,
) -> Seq<(Seq<Seq<char>>, Seq<Option<Seq<char>>>)>;

/// Trusted: `scraper::Html::parse_document`, `scraper::Selector::parse`,
/// `scraper::Html::select` and `scraper::node::Element::attr`. The contract
/// claims only that the answer is a function of the three texts, and names
/// it. `Selector::parse` is unwrapped; the selectors that `is_query` admits
/// all parse. The parser keeps text in buffers that panic where one would
/// grow past 2 GiB, and the text of a parsed document can be up to three
/// times as long as its source, since a NUL byte becomes a replacement
/// character of three bytes. A document that `fits` stays below a gigabyte.
#[verifier::external_body]
pub(crate) fn select_attrs(html: &str, selector: &str, attr: &str) -> (found: Vec<Option<String>>)
    requires
        fits(html@),
        is_query(selector@),
    ensures
        found.deep_view() == selected_attrs(html@, selector@, attr@),
{
    let document = scraper::Html::parse_document(html);
    let selector = scraper::Selector::parse(selector).unwrap();
    document.select(&selector).map(|e| e.value().attr(attr).map(String::from)).collect()
}

/// Trusted: `scraper::Html::parse_document`, `scraper::Selector::parse`,
/// `scraper::Html::select`, `scraper::ElementRef::select`,
/// `scraper::ElementRef::text` and `scraper::node::Element::attr`. The
/// contract claims only that the answer is a function of the five texts, and
/// names it. `Selector::parse` is unwrapped; the selectors that `is_query`
/// admits all parse. The document must fit, for the reason given at
/// `select_attrs`.
#[verifier::external_body]
pub(crate) fn select_entries(html: &str, entry: &str, title: &str, link: &str, attr: &str) -> (found:
    Vec<(Vec<String>, Vec<Option<String>>)>)
    requires
        fits(html@),
        is_query(entry@),
        is_query(title@),
        is_query(link@),
    ensures
        found.deep_view() == selected_entries(html@, entry@, title@, link@, attr@),
{
    let document = scraper::Html::parse_document(html);
    let entry = scraper::Selector::parse(entry).unwrap();
    let title = scraper::Selector::parse(title).unwrap();
    let link = scraper::Selector::parse(link).unwrap();
    document.select(&entry).map(|e| (
        e.select(&title).map(|t| t.text().collect()).collect(),
        e.select(&link).map(|a| a.value().attr(attr).map(String::from)).collect(),
    )).collect()
}

/// The first item of `found`, if it is there and holds a value.
pub open spec fn first_value(found: Seq<Option<Seq<char>>>) -> Option<Seq<char>> {
    if found.len() > 0 {
        found[0]
    } else {
        None
    }
}

/// The attribute value of the first element found, if there is an element
/// and it has the attribute.
pub fn first_of(found: &Vec<Option<String>>) -> (value: Option<String>)
    ensures
        value.deep_view() == first_value(found.deep_view()),
{
    if found.len() > 0 {
        match &found[0] {
            Some(text) => Some(text.clone()),
            None => None,
        }
    } else {
        None
    }
}

} // verus!
