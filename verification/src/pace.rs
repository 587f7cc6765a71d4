//! The pauses between requests.

use vstd::prelude::*;

verus! {

/// The pause between two fetches of listing pages, in milliseconds.
pub const LISTING_DELAY_MS: u64 = 500;

/// The shortest pause between two fetches of detail pages, and between two
/// galleries, in milliseconds.
pub const PAGE_DELAY_MIN_MS: u64 = 500;

/// The longest such pause, in milliseconds.
pub const PAGE_DELAY_MAX_MS: u64 = 1000;

/// Trusted: `rand::rng` and `rand::Rng::random_range` on an inclusive range.
/// The contract claims that the number drawn lies in the range, and nothing
/// about which number it is. `random_range` panics on an empty range, which
/// `low <= high` rules out.
#[verifier::external_body]
fn random_between(low: u64, high: u64) -> (pick: u64)
    requires
        low <= high,
    ensures
        low <= pick <= high,
{
    rand::Rng::random_range(&mut rand::rng(), low..=high)
}

/// Draws the pause before the next detail page, or the next gallery: a
/// number of milliseconds between the two bounds, both included. The cadence
/// of the requests is random so that it is harder to recognise.
pub fn page_delay_ms() -> (ms: u64)
    ensures
        PAGE_DELAY_MIN_MS <= ms <= PAGE_DELAY_MAX_MS,
{
    random_between(PAGE_DELAY_MIN_MS, PAGE_DELAY_MAX_MS)
}

} // verus!
