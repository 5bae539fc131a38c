//! Convergence of the recipe map: concurrent operations commute.

use vstd::prelude::*;

use crate::state::lww::orders_strictly;
use crate::state::recipe::lemma_recipe_apply_commutes;
use crate::state::recipes::{RecipeMapModel, RecipeMapOp};
use crate::time::Time;

verus! {

/// Whether the writes of two edits of the same recipe carry times that
/// differ from each other and from every write the recipe holds, and that
/// `precedes` orders strictly together with those.
pub open spec fn edits_are_ordered(
    x: RecipeMapModel,
    a: RecipeMapOp<Time>,
    b: RecipeMapOp<Time>,
    precedes: spec_fn(Time, Time) -> bool,
) -> bool {
    match (a, b) {
        (
            RecipeMapOp::Apply { key: ka, operation: oa },
            RecipeMapOp::Apply { key: kb, operation: ob },
        ) => (ka == kb && x.recipes.dom().contains(ka) && !x.tombstones.contains(ka)) ==> {
            let r = x.recipes[ka];
            &&& !r.times().contains(oa.spec_time())
            &&& !r.times().contains(ob.spec_time())
            &&& oa.spec_time() != ob.spec_time()
            &&& orders_strictly(precedes, r.times().insert(oa.spec_time()).insert(ob.spec_time()))
        },
        _ => true,
    }
}

/// The recipe map converges: two operations that may be applied in either
/// order give the same recipes and the same deleted ids in both orders,
/// whenever edits of the same recipe are ordered strictly.
pub proof fn lemma_recipe_map_apply_commutes(
    x: RecipeMapModel,
    a: RecipeMapOp<Time>,
    b: RecipeMapOp<Time>,
    precedes: spec_fn(Time, Time) -> bool,
)
    requires
        x.op_is_valid(a),
        x.op_is_valid(b),
        x.merge(a, precedes).op_is_valid(b),
        x.merge(b, precedes).op_is_valid(a),
        edits_are_ordered(x, a, b, precedes),
    ensures
        x.merge(a, precedes).merge(b, precedes) == x.merge(b, precedes).merge(a, precedes),
{
    let ab = x.merge(a, precedes).merge(b, precedes);
    let ba = x.merge(b, precedes).merge(a, precedes);
    let ka = a.spec_key();
    let kb = b.spec_key();
    if ka != kb {
        assert(ab.recipes =~= ba.recipes);
        assert(ab.tombstones =~= ba.tombstones);
        assert(ab =~= ba);
    } else if x.tombstones.contains(ka) {
        assert(ab =~= ba);
    } else {
        match (a, b) {
            (
                RecipeMapOp::Apply { key: k, operation: oa },
                RecipeMapOp::Apply { operation: ob, .. },
            ) => {
                lemma_recipe_apply_commutes(x.recipes[k], oa, ob, precedes);
                assert(ab.recipes =~= ba.recipes);
                assert(ab =~= ba);
            },
            _ => {
                assert(ab.recipes =~= ba.recipes);
                assert(ab.tombstones =~= ba.tombstones);
                assert(ab =~= ba);
            },
        }
    }
}

} // verus!

verus! {

/// Once deleted, a recipe id stays deleted: any operation on a deleted id
/// leaves the map as it is.
pub proof fn lemma_deleted_id_ignored(x: RecipeMapModel, current_precedes: bool, op: RecipeMapOp<Time>)
    requires
        x.tombstones.contains(op.spec_key()),
    ensures
        x.spec_apply(current_precedes, op) == x,
{
}

/// Every operation keeps the deleted ids, and keeps deleted ids out of the
/// recipes.
pub proof fn lemma_apply_keeps_tombstones(
    x: RecipeMapModel,
    current_precedes: bool,
    op: RecipeMapOp<Time>,
)
    requires
        forall|k: Time| x.tombstones.contains(k) ==> !x.recipes.dom().contains(k),
    ensures
        x.tombstones.subset_of(x.spec_apply(current_precedes, op).tombstones),
        forall|k: Time|
            x.spec_apply(current_precedes, op).tombstones.contains(k) ==> !x.spec_apply(
                current_precedes,
                op,
            ).recipes.dom().contains(k),
{
}

} // verus!

verus! {

/// A read gives back what a write wrote: after inserting a recipe under an
/// id that is not deleted, the id holds that recipe; after deleting an id,
/// it holds nothing and is deleted; other ids keep what they held.
pub proof fn lemma_recipe_map_read_after_write(
    x: RecipeMapModel,
    current_precedes: bool,
    op: RecipeMapOp<Time>,
    other: Time,
)
    requires
        !x.tombstones.contains(op.spec_key()),
        other != op.spec_key(),
    ensures
        op matches RecipeMapOp::Insert { key, value } ==> x.spec_apply(
            current_precedes,
            op,
        ).recipes.dom().contains(key) && x.spec_apply(current_precedes, op).recipes[key] == value,
        op matches RecipeMapOp::Delete { key } ==> !x.spec_apply(
            current_precedes,
            op,
        ).recipes.dom().contains(key) && x.spec_apply(current_precedes, op).tombstones.contains(key),
        x.spec_apply(current_precedes, op).recipes.dom().contains(other) == x.recipes.dom().contains(other),
        x.recipes.dom().contains(other) ==> x.spec_apply(current_precedes, op).recipes[other]
            == x.recipes[other],
{
}

} // verus!
