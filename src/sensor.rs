//! Ground sensing from the hits of a downward ray probe.
use vstd::prelude::*;

verus! {

/// One hit of the ground probe.
#[derive(Clone, Copy, Debug, PartialEq, Eq, Structural)]
pub struct RayHit {
    /// Distance from the probe's origin to the hit, in mm.
    pub distance: u32,
    /// Identifier of the entity that was hit.
    pub entity: u64,
}

/// Whether the probe's hits put the body on the ground: the nearest hit lies
/// within `ground_distance`, which holds exactly when some hit does. No hit
/// means no ground.
pub open spec fn grounded_by(hits: Seq<RayHit>, ground_distance: u32) -> bool {
    exists|i: int| 0 <= i < hits.len() && #[trigger] hits[i].distance <= ground_distance
}

/// The hits are listed nearest first, as the probe reports them.
pub open spec fn sorted_by_distance(hits: Seq<RayHit>) -> bool {
    forall|i: int, j: int| 0 <= i <= j < hits.len() ==> hits[i].distance <= hits[j].distance
}

/// Decides ground contact from the probe's hits, in any order.
pub fn ground_contact(hits: &[RayHit], ground_distance: u32) -> (r: bool)
    ensures
        r == grounded_by(hits@, ground_distance),
        hits@.len() == 0 ==> !r,
        sorted_by_distance(hits@) && hits@.len() > 0 ==> (r <==> hits@[0].distance
            <= ground_distance),
{
    let mut i: usize = 0;
    while i < hits.len()
        invariant
            i <= hits@.len(),
            forall|k: int| 0 <= k < i ==> #[trigger] hits@[k].distance > ground_distance,
        decreases hits@.len() - i,
    {
        if hits[i].distance <= ground_distance {
            return true;
        }
        i = i + 1;
    }
    proof {
        if hits@.len() > 0 && sorted_by_distance(hits@) {
            assert(hits@[0].distance > ground_distance);
        }
    }
    false
}

} // verus!
