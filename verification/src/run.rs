//! The order of a run: the listing is traversed, then every gallery's detail
//! pages, then every gallery is downloaded.

use vstd::prelude::*;

verus! {

/// Where a run stands: what the caller is doing now.
#[derive(Clone, Copy, Debug, PartialEq, Eq, Structural)]
pub enum Stage {
    /// Traversing the listing.
    Listing,
    /// Traversing the detail pages of the gallery with this number.
    Detailing(usize),
    /// Downloading the images of the gallery with this number.
    Downloading(usize),
    /// Nothing is left to do.
    Finished,
}

/// The stage that follows `stage` in a run over `galleries` galleries.
pub open spec fn next_stage(stage: Stage, galleries: nat) -> Stage {
    match stage {
        Stage::Listing => if galleries > 0 {
            Stage::Detailing(0)
        } else {
            Stage::Finished
        },
        Stage::Detailing(i) => if i + 1 < galleries {
            Stage::Detailing((i + 1) as usize)
        } else if galleries > 0 {
            Stage::Downloading(0)
        } else {
            Stage::Finished
        },
        Stage::Downloading(i) => if i + 1 < galleries {
            Stage::Downloading((i + 1) as usize)
        } else {
            Stage::Finished
        },
        Stage::Finished => Stage::Finished,
    }
}

/// The stage that a run over `galleries` galleries is in after `steps`
/// stages were completed.
pub open spec fn stage_after(steps: nat, galleries: nat) -> Stage
    decreases steps,
{
    if steps == 0 {
        Stage::Listing
    } else {
        next_stage(stage_after((steps - 1) as nat, galleries), galleries)
    }
}

/// The stage that is number `step` on the plan of a run over `galleries`
/// galleries: the listing first, then the galleries' detail pages in listing
/// order, then their downloads in listing order.
pub open spec fn planned(step: nat, galleries: nat) -> Stage {
    if step == 0 {
        Stage::Listing
    } else if step <= galleries {
        Stage::Detailing((step - 1) as usize)
    } else if step <= 2 * galleries {
        Stage::Downloading((step - 1 - galleries) as usize)
    } else {
        Stage::Finished
    }
}

/// A run follows its plan: every gallery is traversed once and downloaded
/// once, in listing order, and no download begins before every gallery was
/// traversed.
pub proof fn law_run_follows_plan(steps: nat, galleries: nat)
    requires
        galleries <= usize::MAX,
    ensures
        stage_after(steps, galleries) == planned(steps, galleries),
    decreases steps,
{
    if steps > 0 {
        law_run_follows_plan((steps - 1) as nat, galleries);
    }
}

/// Says what to do once the work of `stage` is complete, in a run whose
/// listing announced `galleries` galleries.
pub fn run(stage: Stage, galleries: usize) -> (next: Stage)
    ensures
        next == next_stage(stage, galleries as nat),
{
    match stage {
        Stage::Listing => if galleries > 0 {
            Stage::Detailing(0)
        } else {
            Stage::Finished
        },
        Stage::Detailing(i) => if i < galleries && i + 1 < galleries {
            Stage::Detailing(i + 1)
        } else if galleries > 0 {
            Stage::Downloading(0)
        } else {
            Stage::Finished
        },
        Stage::Downloading(i) => if i < galleries && i + 1 < galleries {
            Stage::Downloading(i + 1)
        } else {
            Stage::Finished
        },
        Stage::Finished => Stage::Finished,
    }
}

} // verus!
