//! Which camera to look through.

use vstd::prelude::*;

verus! {

/// True when an active camera is set and is one of `cameras`.
pub open spec fn active_is_listed(active: Option<u32>, cameras: Seq<u32>) -> bool {
    active is Some && cameras.contains(active->0)
}

/// The position in `cameras` of the camera to look through: that of the
/// active camera where one is set and is among `cameras`, else the first
/// camera, else none.
pub open spec fn spec_select_camera(active: Option<u32>, cameras: Seq<u32>) -> Option<int> {
    if active_is_listed(active, cameras) {
        cameras.index_of_first(active->0)
    } else if cameras.len() > 0 {
        Some(0)
    } else {
        None
    }
}

/// Picks the camera to look through. `cameras` holds the identifiers of the
/// entities that can serve as a camera, in the order in which they were
/// found, and `active` the identifier of the active camera, if one is set.
///
/// The active camera is taken where it is one of `cameras`. Without an
/// active camera, or with one that cannot serve, the first camera found is
/// taken. Without any camera there is nothing to take.
pub fn select_camera(active: Option<u32>, cameras: &[u32]) -> (chosen: Option<usize>)
    ensures
        match chosen {
            Some(i) => i < cameras@.len() && spec_select_camera(active, cameras@) == Some(i as int),
            None => spec_select_camera(active, cameras@) is None,
        },
        chosen is Some <==> cameras@.len() > 0,
        active_is_listed(active, cameras@) ==> cameras@[chosen->0 as int] == active->0 && forall|
            j: int,
        |
            0 <= j < chosen->0 ==> cameras@[j] != active->0,
        !active_is_listed(active, cameras@) && cameras@.len() > 0 ==> chosen == Some(0usize),
{
    if let Some(id) = active {
        let mut i: usize = 0;
        while i < cameras.len()
            invariant
                active == Some(id),
                i <= cameras@.len(),
                forall|j: int| 0 <= j < i ==> cameras@[j] != id,
            decreases cameras@.len() - i,
        {
            if cameras[i] == id {
                proof {
                    cameras@.index_of_first_ensures(id);
                }
                return Some(i);
            }
            i = i + 1;
        }
    }
    if cameras.len() > 0 {
        Some(0)
    } else {
        None
    }
}

} // verus!
