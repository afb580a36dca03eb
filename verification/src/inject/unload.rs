//! Taking injected code out again.

use vstd::prelude::*;

use super::plt::{map_views, restore_all_hooks, restores, MapInfo, PltHookEntry, Restore};

verus! {

/// How calls are put back.
pub struct Unhooking {
    /// The calls to be put back, in this order.
    pub restores: Vec<Restore>,
    /// What the caller is told when that is done.
    pub result: bool,
}

/// Plans how the calls that were redirected are put back. The caller is told that
/// it was done, whatever becomes of a single call.
pub fn unhook_functions(list: &[PltHookEntry], maps: &[MapInfo]) -> (r: Unhooking)
    ensures
        r.restores@ == restores(list@, map_views(maps@)),
        r.result,
{
    Unhooking { restores: restore_all_hooks(list, maps), result: true }
}

} // verus!
