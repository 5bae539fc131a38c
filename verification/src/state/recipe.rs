//! A recipe: three last-writer-wins registers, and the operations on them.

use vstd::prelude::*;

use crate::state::lww::{orders_strictly, Lww};

verus! {

/// A recipe of the cookbook. Each field is a register of its own, so that
/// concurrent edits of different fields are all kept.
#[derive(Clone, Debug, PartialEq)]
pub struct Recipe<T> {
    pub title: Lww<T, String>,
    pub ingredients: Lww<T, Vec<String>>,
    pub instructions: Lww<T, String>,
}

/// An operation on a recipe: a new write to one of its fields.
#[derive(Clone, Debug, PartialEq)]
pub enum RecipeOp<T> {
    Title(Lww<T, String>),
    Ingredients(Lww<T, Vec<String>>),
    Instructions(Lww<T, String>),
}

impl<T> RecipeOp<T> {
    /// The time of the write that the operation carries.
    pub open spec fn spec_time(self) -> T {
        match self {
            RecipeOp::Title(w) => w.time,
            RecipeOp::Ingredients(w) => w.time,
            RecipeOp::Instructions(w) => w.time,
        }
    }

    /// The time of the write that the operation carries.
    pub fn time(&self) -> (r: &T)
        ensures
            *r == self.spec_time(),
    {
        match self {
            RecipeOp::Title(w) => &w.time,
            RecipeOp::Ingredients(w) => &w.time,
            RecipeOp::Instructions(w) => &w.time,
        }
    }

    /// The operation with its time mapped through `g`.
    pub open spec fn spec_fmap<U>(self, g: spec_fn(T) -> U) -> RecipeOp<U> {
        match self {
            RecipeOp::Title(w) => RecipeOp::Title(w.spec_fmap(g)),
            RecipeOp::Ingredients(w) => RecipeOp::Ingredients(w.spec_fmap(g)),
            RecipeOp::Instructions(w) => RecipeOp::Instructions(w.spec_fmap(g)),
        }
    }

    /// Whether `r` writes the same field with the same value, at a time
    /// that `rel` relates to this operation's time.
    pub open spec fn maps_time_by<U>(self, r: RecipeOp<U>, rel: spec_fn(T, U) -> bool) -> bool {
        match (self, r) {
            (RecipeOp::Title(a), RecipeOp::Title(b)) => a.maps_time_by(b, rel),
            (RecipeOp::Ingredients(a), RecipeOp::Ingredients(b)) => a.maps_time_by(b, rel),
            (RecipeOp::Instructions(a), RecipeOp::Instructions(b)) => a.maps_time_by(b, rel),
            _ => false,
        }
    }

    /// Maps the time of the operation through `f`; the field and the value
    /// stay as they are.
    pub fn fmap<U>(self, f: impl Fn(T) -> U) -> (r: RecipeOp<U>)
        requires
            forall|t: T| f.requires((t,)),
        ensures
            self.maps_time_by(r, |t: T, u: U| f.ensures((t,), u)),
            forall|g: spec_fn(T) -> U|
                (forall|t: T, u: U| f.ensures((t,), u) ==> u == g(t)) ==> #[trigger] self.spec_fmap(
                    g,
                ) == r,
    {
        match self {
            RecipeOp::Title(w) => RecipeOp::Title(w.fmap(f)),
            RecipeOp::Ingredients(w) => RecipeOp::Ingredients(w.fmap(f)),
            RecipeOp::Instructions(w) => RecipeOp::Instructions(w.fmap(f)),
        }
    }
}

/// Whether two recipes hold the same writes: the same times and the same
/// strings.
pub open spec fn same_content<T>(a: Recipe<T>, b: Recipe<T>) -> bool {
    &&& a.title == b.title
    &&& a.ingredients.time == b.ingredients.time
    &&& a.ingredients.value@ == b.ingredients.value@
    &&& a.instructions == b.instructions
}

impl<T: Copy> Recipe<T> {
    /// A copy of the recipe: the same times, the same strings.
    pub fn duplicate(&self) -> (r: Self)
        ensures
            same_content(r, *self),
    {
        Recipe {
            title: Lww::new(self.title.time, self.title.value.clone()),
            ingredients: Lww::new(self.ingredients.time, copy_strings(&self.ingredients.value)),
            instructions: Lww::new(self.instructions.time, self.instructions.value.clone()),
        }
    }
}

/// A copy of a list of strings.
pub fn copy_strings(v: &Vec<String>) -> (r: Vec<String>)
    ensures
        r@ == v@,
{
    let mut r: Vec<String> = Vec::new();
    let mut i: usize = 0;
    while i < v.len()
        invariant
            i <= v@.len(),
            r@ == v@.subrange(0, i as int),
        decreases v@.len() - i,
    {
        r.push(v[i].clone());
        assert(r@ =~= v@.subrange(0, i + 1));
        i += 1;
    }
    assert(r@ =~= v@);
    r
}

impl<T> Recipe<T> {
    /// The time of the write currently held by the field that `op` writes.
    pub open spec fn target_time(self, op: RecipeOp<T>) -> T {
        match op {
            RecipeOp::Title(_) => self.title.time,
            RecipeOp::Ingredients(_) => self.ingredients.time,
            RecipeOp::Instructions(_) => self.instructions.time,
        }
    }

    /// The time against which `op` competes: that of the write held by the
    /// field it writes.
    pub fn competing_time(&self, op: &RecipeOp<T>) -> (r: &T)
        ensures
            *r == self.target_time(*op),
    {
        match op {
            RecipeOp::Title(_) => &self.title.time,
            RecipeOp::Ingredients(_) => &self.ingredients.time,
            RecipeOp::Instructions(_) => &self.instructions.time,
        }
    }

    /// The recipe after `op`, where `current_precedes` tells whether the
    /// write held by the targeted field comes before `op`.
    pub open spec fn spec_apply(self, current_precedes: bool, op: RecipeOp<T>) -> Self {
        match op {
            RecipeOp::Title(w) => Recipe {
                title: self.title.spec_apply(current_precedes, w),
                ..self
            },
            RecipeOp::Ingredients(w) => Recipe {
                ingredients: self.ingredients.spec_apply(current_precedes, w),
                ..self
            },
            RecipeOp::Instructions(w) => Recipe {
                instructions: self.instructions.spec_apply(current_precedes, w),
                ..self
            },
        }
    }

    /// Applying `op` with the precedence that `precedes` decides.
    pub open spec fn merge(self, op: RecipeOp<T>, precedes: spec_fn(T, T) -> bool) -> Self {
        self.spec_apply(precedes(self.target_time(op), op.spec_time()), op)
    }

    /// The times of the writes that the recipe holds.
    pub open spec fn times(self) -> Set<T> {
        set![self.title.time, self.ingredients.time, self.instructions.time]
    }

    /// Applies `op` to the field it writes; the other fields stay.
    /// `current_precedes` is the outcome of comparing the time of the
    /// write held by that field with the time of `op`.
    pub fn apply(self, current_precedes: bool, op: RecipeOp<T>) -> (r: Self)
        requires
            self.target_time(op) != op.spec_time(),
        ensures
            r == self.spec_apply(current_precedes, op),
    {
        let Recipe { title, ingredients, instructions } = self;
        match op {
            RecipeOp::Title(w) => Recipe {
                title: title.apply(current_precedes, w),
                ingredients,
                instructions,
            },
            RecipeOp::Ingredients(w) => Recipe {
                title,
                ingredients: ingredients.apply(current_precedes, w),
                instructions,
            },
            RecipeOp::Instructions(w) => Recipe {
                title,
                ingredients,
                instructions: instructions.apply(current_precedes, w),
            },
        }
    }

    /// The recipe with every time mapped through `g`.
    pub open spec fn spec_fmap<U>(self, g: spec_fn(T) -> U) -> Recipe<U> {
        Recipe {
            title: self.title.spec_fmap(g),
            ingredients: self.ingredients.spec_fmap(g),
            instructions: self.instructions.spec_fmap(g),
        }
    }

    /// Whether `r` holds the same values, each at a time that `rel` relates
    /// to the time of the corresponding write here.
    pub open spec fn maps_times_by<U>(self, r: Recipe<U>, rel: spec_fn(T, U) -> bool) -> bool {
        &&& self.title.maps_time_by(r.title, rel)
        &&& self.ingredients.maps_time_by(r.ingredients, rel)
        &&& self.instructions.maps_time_by(r.instructions, rel)
    }

    /// Maps every time of the recipe through `f`; the values stay.
    pub fn fmap<U>(self, f: impl Fn(T) -> U) -> (r: Recipe<U>)
        requires
            forall|t: T| f.requires((t,)),
        ensures
            self.maps_times_by(r, |t: T, u: U| f.ensures((t,), u)),
            forall|g: spec_fn(T) -> U|
                (forall|t: T, u: U| f.ensures((t,), u) ==> u == g(t)) ==> #[trigger] self.spec_fmap(
                    g,
                ) == r,
    {
        let Recipe { title, ingredients, instructions } = self;
        let title = title.fmap(&f);
        let ingredients = ingredients.fmap(&f);
        let instructions = instructions.fmap(&f);
        Recipe { title, ingredients, instructions }
    }
}

/// Two edits of a recipe give the same recipe in either order, whenever the
/// causal order with its tie-break orders all the times involved strictly
/// and no two writes share a time.
pub proof fn lemma_recipe_apply_commutes<T>(
    x: Recipe<T>,
    a: RecipeOp<T>,
    b: RecipeOp<T>,
    precedes: spec_fn(T, T) -> bool,
)
    requires
        !x.times().contains(a.spec_time()),
        !x.times().contains(b.spec_time()),
        a.spec_time() != b.spec_time(),
        orders_strictly(precedes, x.times().insert(a.spec_time()).insert(b.spec_time())),
    ensures
        x.merge(a, precedes).merge(b, precedes) == x.merge(b, precedes).merge(a, precedes),
{
    let s = x.times().insert(a.spec_time()).insert(b.spec_time());
    assert(s.contains(x.title.time) && s.contains(x.ingredients.time) && s.contains(
        x.instructions.time,
    ));
    assert(s.contains(a.spec_time()) && s.contains(b.spec_time()));
    let ta = a.spec_time();
    let tb = b.spec_time();
    let xa = x.target_time(a);
    let xb = x.target_time(b);
    let _ = precedes(xa, ta);
    let _ = precedes(ta, xa);
    let _ = precedes(xb, tb);
    let _ = precedes(tb, xb);
    let _ = precedes(ta, tb);
    let _ = precedes(tb, ta);
    let _ = precedes(xa, tb);
    let _ = precedes(tb, xa);
    let _ = precedes(xb, ta);
    let _ = precedes(ta, xb);
}

} // verus!
