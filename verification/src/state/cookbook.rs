//! A cookbook: a title register and the map of its recipes.

use vstd::prelude::*;

use crate::state::lww::{orders_strictly, lemma_lww_apply_commutes, Lww};
use crate::state::recipe::{same_content, RecipeOp};
use crate::state::recipes::{RecipeMap, RecipeMapModel, RecipeMapOp};
use crate::state::recipes_law::{edits_are_ordered, lemma_recipe_map_apply_commutes};
use crate::time::{time_equal, Time};

verus! {

/// Identifies a cookbook among those the user has open.
pub type CookbookId = usize;

/// Identifies a recipe: the time of the operation that inserted it.
pub type RecipeId = Time;

/// A cookbook: its title and its recipes.
#[derive(Debug)]
pub struct Cookbook {
    pub title: Lww<Time, String>,
    pub recipes: RecipeMap,
}

/// An operation on a cookbook: a new title, or an operation on its recipes.
#[derive(Clone, Debug, PartialEq)]
pub enum CookbookOp<T> {
    Title(Lww<T, String>),
    Recipes(RecipeMapOp<T>),
}

impl<T> CookbookOp<T> {
    /// The time of the write that the operation carries, for the
    /// operations that compete with a held write: a new title, and an edit
    /// of a recipe.
    pub open spec fn spec_write_time(self) -> Option<T> {
        match self {
            CookbookOp::Title(w) => Some(w.time),
            CookbookOp::Recipes(RecipeMapOp::Apply { operation, .. }) => Some(operation.spec_time()),
            _ => None,
        }
    }

    /// The time of the write that the operation carries, for the
    /// operations that compete with a held write.
    pub fn write_time(&self) -> (r: Option<&T>)
        ensures
            r matches Some(t) ==> self.spec_write_time() == Some(*t),
            r is None ==> self.spec_write_time() is None,
    {
        match self {
            CookbookOp::Title(w) => Some(&w.time),
            CookbookOp::Recipes(RecipeMapOp::Apply { operation, .. }) => Some(operation.time()),
            _ => None,
        }
    }

    /// The operation with every time mapped through `g`.
    pub open spec fn spec_fmap<U>(self, g: spec_fn(T) -> U) -> CookbookOp<U> {
        match self {
            CookbookOp::Title(w) => CookbookOp::Title(w.spec_fmap(g)),
            CookbookOp::Recipes(op) => CookbookOp::Recipes(op.spec_fmap(g)),
        }
    }

    /// Whether `r` is the same kind of operation with the same values, at
    /// times that `rel` relates to this operation's.
    pub open spec fn maps_times_by<U>(self, r: CookbookOp<U>, rel: spec_fn(T, U) -> bool) -> bool {
        match (self, r) {
            (CookbookOp::Title(a), CookbookOp::Title(b)) => a.maps_time_by(b, rel),
            (CookbookOp::Recipes(a), CookbookOp::Recipes(b)) => a.maps_times_by(b, rel),
            _ => false,
        }
    }

    /// Maps every time of the operation through `f`.
    pub fn fmap<U>(self, f: impl Fn(T) -> U) -> (r: CookbookOp<U>)
        requires
            forall|t: T| f.requires((t,)),
        ensures
            self.maps_times_by(r, |t: T, u: U| f.ensures((t,), u)),
            forall|g: spec_fn(T) -> U|
                (forall|t: T, u: U| f.ensures((t,), u) ==> u == g(t)) ==> #[trigger] self.spec_fmap(
                    g,
                ) == r,
    {
        match self {
            CookbookOp::Title(w) => CookbookOp::Title(w.fmap(f)),
            CookbookOp::Recipes(op) => CookbookOp::Recipes(op.fmap(f)),
        }
    }
}

/// What a cookbook stands for: its title register and its recipe map.
#[verifier::ext_equal]
pub struct CookbookModel {
    pub title: Lww<Time, String>,
    pub recipes: RecipeMapModel,
}

impl CookbookModel {
    /// Whether `op` may be applied: a new title carries a time other than
    /// that of the held title; an operation on the recipes must be valid there.
    pub open spec fn op_is_valid(self, op: CookbookOp<Time>) -> bool {
        match op {
            CookbookOp::Title(w) => self.title.time != w.time,
            CookbookOp::Recipes(o) => self.recipes.op_is_valid(o),
        }
    }

    /// The time against which `op` competes, if it competes with a write.
    pub open spec fn competing(self, op: CookbookOp<Time>) -> Option<Time> {
        match op {
            CookbookOp::Title(_) => Some(self.title.time),
            CookbookOp::Recipes(o) => self.recipes.competing(o),
        }
    }

    /// The cookbook after `op`, where `current_precedes` tells whether the
    /// write that `op` competes with comes before it.
    pub open spec fn spec_apply(self, current_precedes: bool, op: CookbookOp<Time>) -> Self {
        match op {
            CookbookOp::Title(w) => CookbookModel {
                title: self.title.spec_apply(current_precedes, w),
                recipes: self.recipes,
            },
            CookbookOp::Recipes(o) => CookbookModel {
                title: self.title,
                recipes: self.recipes.spec_apply(current_precedes, o),
            },
        }
    }

    /// Applying `op` with the precedence that `precedes` decides.
    pub open spec fn merge(self, op: CookbookOp<Time>, precedes: spec_fn(Time, Time) -> bool) -> Self {
        match op {
            CookbookOp::Title(w) => CookbookModel {
                title: self.title.merge(w, precedes),
                recipes: self.recipes,
            },
            CookbookOp::Recipes(o) => CookbookModel {
                title: self.title,
                recipes: self.recipes.merge(o, precedes),
            },
        }
    }
}

impl View for Cookbook {
    type V = CookbookModel;

    open spec fn view(&self) -> CookbookModel {
        CookbookModel { title: self.title, recipes: self.recipes@ }
    }
}

impl Cookbook {
    /// The time against which `op` competes, if it competes with a write:
    /// the time of the held title for a new title; for an edit of a recipe
    /// that is present, the time of the write held by the field it writes.
    pub fn competing_time(&self, op: &CookbookOp<Time>) -> (r: Option<Time>)
        ensures
            r == self@.competing(*op),
    {
        match op {
            CookbookOp::Title(_) => Some(self.title.time),
            CookbookOp::Recipes(o) => self.recipes.competing_time(o),
        }
    }

    /// A copy of the cookbook: the same title, the same recipe ids with
    /// recipes of the same content, the same deleted ids.
    pub fn duplicate(&self) -> (r: Self)
        ensures
            r.title == self.title,
            r@.recipes.tombstones == self@.recipes.tombstones,
            r@.recipes.recipes.dom() == self@.recipes.recipes.dom(),
            forall|k: Time| #[trigger]
                self@.recipes.recipes.dom().contains(k) ==> same_content(
                    r@.recipes.recipes[k],
                    self@.recipes.recipes[k],
                ),
    {
        Cookbook {
            title: Lww::new(self.title.time, self.title.value.clone()),
            recipes: self.recipes.duplicate(),
        }
    }

    /// Whether `op` may be applied (see `CookbookModel::op_is_valid`).
    pub fn op_is_valid(&self, op: &CookbookOp<Time>) -> (r: bool)
        ensures
            r == self@.op_is_valid(*op),
    {
        match op {
            CookbookOp::Title(w) => !time_equal(&self.title.time, &w.time),
            CookbookOp::Recipes(o) => self.recipes.op_is_valid(o),
        }
    }

    /// Applies `op`: a new title goes to the title register, an operation on
    /// the recipes to the recipe map. `current_precedes` is the outcome of
    /// comparing the time of the write that `op` competes with with the
    /// time of `op`, in the causal order with ties broken by time.
    pub fn apply(self, current_precedes: bool, op: CookbookOp<Time>) -> (r: Self)
        requires
            self@.op_is_valid(op),
        ensures
            r@ == self@.spec_apply(current_precedes, op),
    {
        let Cookbook { title, recipes } = self;
        match op {
            CookbookOp::Title(w) => Cookbook { title: title.apply(current_precedes, w), recipes },
            CookbookOp::Recipes(o) => Cookbook {
                title,
                recipes: recipes.apply(current_precedes, o),
            },
        }
    }
}

/// The cookbook converges: two operations that may be applied in either
/// order give the same cookbook in both orders, whenever competing writes
/// carry distinct times that the causal order with its tie-break orders
/// strictly.
pub proof fn lemma_cookbook_apply_commutes(
    x: CookbookModel,
    a: CookbookOp<Time>,
    b: CookbookOp<Time>,
    precedes: spec_fn(Time, Time) -> bool,
)
    requires
        x.op_is_valid(a),
        x.op_is_valid(b),
        x.merge(a, precedes).op_is_valid(b),
        x.merge(b, precedes).op_is_valid(a),
        match (a, b) {
            (CookbookOp::Title(wa), CookbookOp::Title(wb)) => wa.time != wb.time && orders_strictly(
                precedes,
                set![x.title.time, wa.time, wb.time],
            ),
            (CookbookOp::Recipes(oa), CookbookOp::Recipes(ob)) => edits_are_ordered(
                x.recipes,
                oa,
                ob,
                precedes,
            ),
            _ => true,
        },
    ensures
        x.merge(a, precedes).merge(b, precedes) == x.merge(b, precedes).merge(a, precedes),
{
    match (a, b) {
        (CookbookOp::Title(wa), CookbookOp::Title(wb)) => {
            lemma_lww_apply_commutes(x.title, wa, wb, precedes);
        },
        (CookbookOp::Recipes(oa), CookbookOp::Recipes(ob)) => {
            lemma_recipe_map_apply_commutes(x.recipes, oa, ob, precedes);
        },
        _ => {},
    }
}

} // verus!

verus! {

/// Mapping the times of an operation with the identity changes nothing.
pub proof fn lemma_cookbook_op_fmap_identity<T>(op: CookbookOp<T>)
    ensures
        op.spec_fmap(|t: T| t) == op,
{
    match op {
        CookbookOp::Title(w) => {},
        CookbookOp::Recipes(o) => match o {
            RecipeMapOp::Insert { key, value } => {
                assert(value.spec_fmap(|t: T| t) == value);
            },
            RecipeMapOp::Apply { key, operation } => {
                assert(operation.spec_fmap(|t: T| t) == operation);
            },
            RecipeMapOp::Delete { key } => {},
        },
    }
}

/// Mapping the times of an operation with `f` and then `g` is mapping them
/// with the composition of the two.
pub proof fn lemma_cookbook_op_fmap_compose<T, U, W>(
    op: CookbookOp<T>,
    f: spec_fn(T) -> U,
    g: spec_fn(U) -> W,
)
    ensures
        op.spec_fmap(f).spec_fmap(g) == op.spec_fmap(|t: T| g(f(t))),
{
    let h = |t: T| g(f(t));
    match op {
        CookbookOp::Title(w) => {},
        CookbookOp::Recipes(o) => match o {
            RecipeMapOp::Insert { key, value } => {
                assert(value.spec_fmap(f).spec_fmap(g) == value.spec_fmap(h));
            },
            RecipeMapOp::Apply { key, operation } => {
                assert(operation.spec_fmap(f).spec_fmap(g) == operation.spec_fmap(h));
            },
            RecipeMapOp::Delete { key } => {},
        },
    }
}

} // verus!

verus! {

/// Applying an operation with the precedence of the write it competes with
/// is merging it: `apply`, fed the comparison of `competing_time` with
/// `write_time`, gives what the last-writer-wins order gives.
pub proof fn lemma_cookbook_apply_is_merge(
    x: CookbookModel,
    op: CookbookOp<Time>,
    precedes: spec_fn(Time, Time) -> bool,
)
    ensures
        x.spec_apply(
            match (x.competing(op), op.spec_write_time()) {
                (Some(c), Some(w)) => precedes(c, w),
                _ => false,
            },
            op,
        ) == x.merge(op, precedes),
{
    match op {
        CookbookOp::Title(w) => {},
        CookbookOp::Recipes(o) => {
            let a = x.spec_apply(
                match (x.competing(op), op.spec_write_time()) {
                    (Some(c), Some(w)) => precedes(c, w),
                    _ => false,
                },
                op,
            );
            assert(a.recipes =~= x.merge(op, precedes).recipes);
        },
    }
}

/// An edit of a field of a recipe that is present and not deleted competes
/// with the write that field holds, whichever field it writes.
pub proof fn lemma_cookbook_edit_competes_with_field(
    x: CookbookModel,
    key: Time,
    operation: RecipeOp<Time>,
)
    requires
        x.recipes.recipes.dom().contains(key),
        !x.recipes.tombstones.contains(key),
    ensures
        x.competing(CookbookOp::Recipes(RecipeMapOp::Apply { key, operation })) == Some(
            match operation {
                RecipeOp::Title(_) => x.recipes.recipes[key].title.time,
                RecipeOp::Ingredients(_) => x.recipes.recipes[key].ingredients.time,
                RecipeOp::Instructions(_) => x.recipes.recipes[key].instructions.time,
            },
        ),
        x.competing(CookbookOp::Recipes(RecipeMapOp::Apply { key, operation })).is_some(),
{
}

/// A new title competes with the held title.
pub proof fn lemma_cookbook_title_competes_with_title(x: CookbookModel, w: Lww<Time, String>)
    ensures
        x.competing(CookbookOp::Title(w)) == Some(x.title.time),
{
}

/// The last writer wins in a cookbook: an edit of a present recipe's field
/// puts its write in that field exactly when the held write precedes it,
/// and otherwise leaves the recipe as it was; other recipes, the deleted ids
/// and the title are untouched.
pub proof fn lemma_cookbook_edit_last_writer_wins(
    x: CookbookModel,
    current_precedes: bool,
    key: Time,
    operation: RecipeOp<Time>,
    other: Time,
)
    requires
        x.recipes.recipes.dom().contains(key),
        !x.recipes.tombstones.contains(key),
        other != key,
    ensures
        ({
            let y = x.spec_apply(
                current_precedes,
                CookbookOp::Recipes(RecipeMapOp::Apply { key, operation }),
            );
            let old_r = x.recipes.recipes[key];
            let new_r = y.recipes.recipes[key];
            &&& y.recipes.recipes.dom().contains(key)
            &&& y.title == x.title
            &&& y.recipes.tombstones == x.recipes.tombstones
            &&& (y.recipes.recipes.dom().contains(other) == x.recipes.recipes.dom().contains(other))
            &&& (x.recipes.recipes.dom().contains(other) ==> y.recipes.recipes[other]
                == x.recipes.recipes[other])
            &&& !current_precedes ==> new_r == old_r
            &&& match operation {
                RecipeOp::Title(w) => current_precedes ==> new_r.title == w && new_r.ingredients
                    == old_r.ingredients && new_r.instructions == old_r.instructions,
                RecipeOp::Ingredients(w) => current_precedes ==> new_r.ingredients == w
                    && new_r.title == old_r.title && new_r.instructions == old_r.instructions,
                RecipeOp::Instructions(w) => current_precedes ==> new_r.instructions == w
                    && new_r.title == old_r.title && new_r.ingredients == old_r.ingredients,
            }
        }),
{
}

/// The last writer wins for the title: a new title replaces the held one
/// exactly when the held one precedes it; the recipes are untouched.
pub proof fn lemma_cookbook_title_last_writer_wins(
    x: CookbookModel,
    current_precedes: bool,
    w: Lww<Time, String>,
)
    ensures
        x.spec_apply(current_precedes, CookbookOp::Title(w)).title == (if current_precedes {
            w
        } else {
            x.title
        }),
        x.spec_apply(current_precedes, CookbookOp::Title(w)).recipes == x.recipes,
{
}

/// Any new title whose time differs from the held title's may be applied,
/// whether it is earlier or later: an older title simply loses.
pub proof fn lemma_cookbook_title_valid_when_times_differ(
    x: CookbookModel,
    w: Lww<Time, String>,
)
    requires
        w.time != x.title.time,
    ensures
        x.op_is_valid(CookbookOp::Title(w)),
        x.with_title_time_swapped(w).op_is_valid(
            CookbookOp::Title(Lww { time: x.title.time, value: w.value }),
        ),
{
}

impl CookbookModel {
    /// The cookbook with its title written at the time of `w` instead.
    pub open spec fn with_title_time_swapped(self, w: Lww<Time, String>) -> Self {
        CookbookModel { title: Lww { time: w.time, value: self.title.value }, recipes: self.recipes }
    }
}

} // verus!
