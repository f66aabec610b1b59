//! Self-update decisions and the monotone `did_update` flag.
//!
//! The flag records that this process replaced its own binary while a
//! connection lived; once set it stays set, and observing it set at
//! connection close forces the outer loop to respawn the process.

use vstd::prelude::*;
use crate::protocol::UpdateResult;

verus! {

/// The per-connection update flag. No operation clears it: once set it
/// stays set.
pub struct DidUpdate {
    value: bool,
}

impl DidUpdate {
    /// Whether an update has happened.
    pub closed spec fn is_set(self) -> bool {
        self.value
    }

    pub fn new() -> (r: DidUpdate)
        ensures
            !r.is_set(),
    {
        DidUpdate { value: false }
    }

    pub fn load(&self) -> (r: bool)
        ensures
            r == self.is_set(),
    {
        self.value
    }

    /// Set the flag, reporting whether this call was the one that set it.
    pub fn try_set(&mut self) -> (r: bool)
        ensures
            final(self).is_set(),
            r == !old(self).is_set(),
    {
        let was = self.value;
        self.value = true;
        !was
    }
}

/// What to do before consulting the update service.
pub enum UpdatePhase {
    /// Answer at once, with this result.
    Done(UpdateResult),
    /// Ask the update service for the latest release, then resolve.
    CheckLatest,
}

/// The first half of the `update` handler: a CLI integrated into another
/// product, or one that already updated, reports itself up to date without
/// consulting the update service.
pub fn update_precheck(integrated_cli: bool, did: &DidUpdate) -> (r: UpdatePhase)
    ensures
        (integrated_cli || did.is_set()) ==> (r matches UpdatePhase::Done(u) && u.up_to_date
            && !u.did_update),
        !(integrated_cli || did.is_set()) ==> r is CheckLatest,
{
    if integrated_cli || did.load() {
        UpdatePhase::Done(UpdateResult { up_to_date: true, did_update: false })
    } else {
        UpdatePhase::CheckLatest
    }
}

/// What to do once the latest release is known.
pub enum UpdateDecision {
    /// Answer at once, with this result.
    Done(UpdateResult),
    /// Perform the update; on success answer with `update_finish`.
    Perform,
}

/// The second half of the `update` handler: decide from the freshness of
/// this build and the request whether to update, and claim the flag. The
/// flag never goes back, whichever branch is taken.
pub fn update_resolve(did: &mut DidUpdate, do_update: bool, up_to_date: bool) -> (r: UpdateDecision)
    ensures
        old(did).is_set() ==> final(did).is_set(),
        (!do_update || up_to_date) ==> (r matches UpdateDecision::Done(u) && u.up_to_date
            == up_to_date && !u.did_update && *final(did) == *old(did)),
        (do_update && !up_to_date && old(did).is_set()) ==> (r matches UpdateDecision::Done(u)
            && u.up_to_date && u.did_update && final(did).is_set()),
        (do_update && !up_to_date && !old(did).is_set()) ==> (r is Perform && final(did).is_set()),
{
    if !do_update || up_to_date {
        return UpdateDecision::Done(UpdateResult { up_to_date, did_update: false });
    }
    if !did.try_set() {
        // Another task updated first: same difference for the caller.
        return UpdateDecision::Done(UpdateResult { up_to_date: true, did_update: true });
    }
    UpdateDecision::Perform
}

/// The result reported after the updater succeeded.
pub fn update_finish() -> (r: UpdateResult)
    ensures
        r.up_to_date,
        r.did_update,
{
    UpdateResult { up_to_date: true, did_update: true }
}

} // verus!
