//! The resolution of an image page to the address of the image itself.
//!
//! The caller fetches the image page and hands its body to
//! [`parse_real_image`]. The answer is either settled, or it names an address
//! to probe for the original image. In that case the caller requests that
//! address and hands the status of the response and its `Location` header to
//! [`resolve_probed`]: a redirect resolves to its target, any other answer to
//! the image that the page displays.

use crate::markup::{
    document_fits, first_of, first_value, fits, select_attrs, selected_attrs, HREF, IMAGE_DISPLAY,
    IMAGE_ORIGINAL, SRC,
};
use vstd::prelude::*;

verus! {

/// The serialization of `text` parsed as an absolute URL; `None` where `text`
/// is no absolute URL.
pub uninterp spec fn absolute_url(text: Seq<char>) -> Option<Seq<char>>;

/// Trusted: `url::Url::parse` and the conversion of a `url::Url` into its
/// serialization. The contract claims only that the answer is a function of
/// the text, and names it. A parse error becomes `None`.
#[verifier::external_body]
pub(crate) fn parse_absolute(text: &str) -> (url: Option<String>)
    ensures
        url.deep_view() == absolute_url(text@),
{
    url::Url::parse(text).ok().map(String::from)
}

/// Why an image page could not be resolved.
#[derive(Clone, Copy, Debug, PartialEq, Eq, Structural)]
pub enum ResolveError {
    /// The page holds no image element, or its first image element has no
    /// source.
    ImageNotFound,
    /// The document is too long to be parsed.
    PageTooLarge,
    /// The image page, or the address probed for the original, could not be
    /// fetched.
    FetchFailed,
}

/// Where the resolution of an image page stands once the page was read.
#[derive(Debug, PartialEq, Eq)]
pub enum Resolution {
    /// The address to request next; the response decides.
    Probe(String),
    /// The outcome.
    Settled(Result<String, ResolveError>),
}

/// What a `Resolution` stands for.
pub enum ResolutionView {
    Probe(Seq<char>),
    Settled(Result<Seq<char>, ResolveError>),
}

/// What a resolved address, or the failure to find one, stands for.
pub open spec fn outcome_view(outcome: Result<String, ResolveError>) -> Result<
    Seq<char>,
    ResolveError,
> {
    match outcome {
        Ok(url) => Ok(url@),
        Err(e) => Err(e),
    }
}

impl View for Resolution {
    type V = ResolutionView;

    open spec fn view(&self) -> ResolutionView {
        match self {
            Resolution::Probe(url) => ResolutionView::Probe(url@),
            Resolution::Settled(outcome) => ResolutionView::Settled(outcome_view(*outcome)),
        }
    }
}

/// The address of the displayed image: the source of the first image element
/// found.
pub open spec fn displayed(sources: Seq<Option<Seq<char>>>) -> Result<Seq<char>, ResolveError> {
    match first_value(sources) {
        Some(src) => Ok(src),
        None => Err(ResolveError::ImageNotFound),
    }
}

/// Where the resolution stands, given the address to probe, if any, and the
/// sources of the image elements found. An address to probe supersedes the
/// displayed image.
pub open spec fn resolution(probe: Option<Seq<char>>, sources: Seq<Option<Seq<char>>>) -> ResolutionView {
    match probe {
        Some(url) => ResolutionView::Probe(url),
        None => ResolutionView::Settled(displayed(sources)),
    }
}

/// The address to probe for the original image of the image page `html`: the
/// address of the first link to an original, where there is such a link, it
/// has an address, and that address is an absolute URL.
pub open spec fn probe_target(html: Seq<char>) -> Option<Seq<char>> {
    match first_value(selected_attrs(html, IMAGE_ORIGINAL@, HREF@)) {
        Some(href) => absolute_url(href),
        None => None,
    }
}

/// Where the resolution of the image page `html` stands once the page was
/// read. A document that is too long is not read. The original is looked for
/// only where it is wanted.
pub open spec fn first_resolution(html: Seq<char>, want_original: bool) -> ResolutionView {
    if !fits(html) {
        ResolutionView::Settled(Err(ResolveError::PageTooLarge))
    } else {
        resolution(
            if want_original {
                probe_target(html)
            } else {
                None
            },
            selected_attrs(html, IMAGE_DISPLAY@, SRC@),
        )
    }
}

/// A status in the range of redirections, 300 to 399.
pub open spec fn is_redirect(status: u16) -> bool {
    300 <= status < 400
}

/// Where a response redirects to: its `Location`, where its status is a
/// redirection and it has one.
pub open spec fn redirect_of(status: u16, location: Option<Seq<char>>) -> Option<Seq<char>> {
    if is_redirect(status) {
        location
    } else {
        None
    }
}

/// The outcome once the probe was answered: the target of the redirect
/// where the answer is one, the displayed image of the image page where it
/// is none.
pub open spec fn probed(target: Option<Seq<char>>, sources: Seq<Option<Seq<char>>>) -> Result<
    Seq<char>,
    ResolveError,
> {
    match target {
        Some(target) => Ok(target),
        None => displayed(sources),
    }
}

/// The outcome for the image page `html` once its probe was answered with
/// `status` and `location`. A redirect supersedes the displayed image; an
/// answer that is no redirect falls through to it, whatever headers it
/// carries.
pub open spec fn probed_in(html: Seq<char>, status: u16, location: Option<Seq<char>>) -> Result<
    Seq<char>,
    ResolveError,
> {
    match redirect_of(status, location) {
        Some(target) => Ok(target),
        None => if fits(html) {
            displayed(selected_attrs(html, IMAGE_DISPLAY@, SRC@))
        } else {
            Err(ResolveError::PageTooLarge)
        },
    }
}

/// An answer that is no redirect never resolves to its `Location`: the
/// outcome is that of the displayed image.
pub proof fn law_only_redirects_resolve(html: Seq<char>, status: u16, location: Option<Seq<char>>)
    requires
        !is_redirect(status),
        fits(html),
    ensures
        probed_in(html, status, location) == displayed(selected_attrs(html, IMAGE_DISPLAY@, SRC@)),
{
}

/// Picks the address of the displayed image from the sources of the image
/// elements found.
pub fn displayed_from(sources: &Vec<Option<String>>) -> (outcome: Result<String, ResolveError>)
    ensures
        outcome_view(outcome) == displayed(sources.deep_view()),
{
    match first_of(sources) {
        Some(src) => Ok(src),
        None => Err(ResolveError::ImageNotFound),
    }
}

/// Says where the resolution stands, given the address to probe, if any, and
/// the sources of the image elements found.
pub fn resolution_from(probe: Option<String>, sources: &Vec<Option<String>>) -> (step: Resolution)
    ensures
        step@ == resolution(probe.deep_view(), sources.deep_view()),
{
    match probe {
        Some(url) => Resolution::Probe(url),
        None => Resolution::Settled(displayed_from(sources)),
    }
}

/// Says where a response redirects to, given its status and its `Location`
/// header, if any.
pub fn redirect_target(status: u16, location: Option<String>) -> (target: Option<String>)
    ensures
        target.deep_view() == redirect_of(status, location.deep_view()),
{
    if 300 <= status && status < 400 {
        location
    } else {
        None
    }
}

/// Says what the answer to a probe settles, given the target of the
/// redirect, if the answer is one, and the sources of the image elements
/// found on the image page.
pub fn probed_from(target: Option<String>, sources: &Vec<Option<String>>) -> (outcome: Result<
    String,
    ResolveError,
>)
    ensures
        outcome_view(outcome) == probed(target.deep_view(), sources.deep_view()),
{
    match target {
        Some(target) => Ok(target),
        None => displayed_from(sources),
    }
}

/// Reads an image page. Where the original is wanted and the page links to
/// one by an absolute URL, the answer is that URL, to be probed. Otherwise
/// the answer is settled: the source of the displayed image, or the failure
/// to find one. A document that is too long settles as a failure.
pub fn parse_real_image(html: &str, want_original: bool) -> (step: Resolution)
    ensures
        step@ == first_resolution(html@, want_original),
{
    if !document_fits(html) {
        return Resolution::Settled(Err(ResolveError::PageTooLarge));
    }
    if want_original {
        let links = select_attrs(html, IMAGE_ORIGINAL, HREF);
        let probe = match first_of(&links) {
            Some(href) => parse_absolute(href.as_str()),
            None => None,
        };
        if probe.is_some() {
            return Resolution::Probe(probe.unwrap());
        }
    }
    let sources = select_attrs(html, IMAGE_DISPLAY, SRC);
    resolution_from(None, &sources)
}

/// Settles the resolution of the image page `html` once its probe was
/// answered with `status` and, if the response has one, the `Location`
/// header `location`. Where the answer is a redirect with a target, the
/// target is the resolved address. Any other answer falls through to the
/// displayed image of the page.
pub fn resolve_probed(html: &str, status: u16, location: Option<String>) -> (outcome: Result<
    String,
    ResolveError,
>)
    ensures
        outcome_view(outcome) == probed_in(html@, status, location.deep_view()),
{
    match redirect_target(status, location) {
        Some(target) => Ok(target),
        None => {
            if !document_fits(html) {
                return Err(ResolveError::PageTooLarge);
            }
            let sources = select_attrs(html, IMAGE_DISPLAY, SRC);
            probed_from(None, &sources)
        },
    }
}

} // verus!
