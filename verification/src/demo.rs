//! The cookbook that a new installation starts with.

use vstd::prelude::*;
use vstd::string::StringExecFns;

use crate::state::cookbook::Cookbook;
use crate::state::lww::Lww;
use crate::state::recipe::Recipe;
use crate::state::recipes::RecipeMap;
use crate::time::Time;

verus! {

/// The time at `position` in the initial state.
pub open spec fn initial_time(position: u8) -> Time {
    Time { header: None, position }
}

/// Whether `r` is the demonstration recipe, written at the first three
/// initial times.
pub open spec fn is_demo_recipe(r: Recipe<Time>) -> bool {
    &&& r.title.time == initial_time(0)
    &&& r.title.value@ == "Kalbi"@
    &&& r.ingredients.time == initial_time(1)
    &&& r.ingredients.value.deep_view() == seq!["1oz Soy sauce"@, "1lb Beef Ribs"@]
    &&& r.instructions.time == initial_time(2)
    &&& r.instructions.value@ == "1. Grill meat\n2. Eat\n3. ..."@
}

/// Hands out the initial times in order.
struct Clock {
    next: u8,
}

impl Clock {
    fn tick(&mut self) -> (t: Time)
        requires
            old(self).next < 255,
        ensures
            t == initial_time(old(self).next),
            final(self).next == old(self).next + 1,
    {
        let x = self.next;
        self.next = self.next + 1;
        Time { header: None, position: x }
    }
}

/// The demonstration cookbook: "My Recipes", titled at the ninth initial
/// time, holding five copies of the demonstration recipe under the ids of
/// the fourth to the eighth initial times.
pub fn initial_demo_state() -> (r: Cookbook)
    ensures
        r.title.time == initial_time(8),
        r.title.value@ == "My Recipes"@,
        r@.recipes.tombstones == Set::<Time>::empty(),
        r@.recipes.recipes.dom() == set![
            initial_time(3),
            initial_time(4),
            initial_time(5),
            initial_time(6),
            initial_time(7),
        ],
        forall|k: Time| #[trigger]
            r@.recipes.recipes.dom().contains(k) ==> is_demo_recipe(r@.recipes.recipes[k]),
{
    let mut l = Clock { next: 0 };
    let mut ingredients: Vec<String> = Vec::new();
    ingredients.push(String::from_str("1oz Soy sauce"));
    ingredients.push(String::from_str("1lb Beef Ribs"));
    let recipe = Recipe {
        title: Lww::new(l.tick(), String::from_str("Kalbi")),
        ingredients: Lww::new(l.tick(), ingredients),
        instructions: Lww::new(l.tick(), String::from_str("1. Grill meat\n2. Eat\n3. ...")),
    };
    assert(recipe.ingredients.value.deep_view() =~= seq!["1oz Soy sauce"@, "1lb Beef Ribs"@]);
    assert(is_demo_recipe(recipe));
    let mut recipes = RecipeMap::new();
    let mut i: usize = 0;
    while i < 5
        invariant
            i <= 5,
            l.next == 3 + i,
            is_demo_recipe(recipe),
            recipes@.tombstones == Set::<Time>::empty(),
            forall|k: Time| #[trigger]
                recipes@.recipes.dom().contains(k) <==> (k.header is None && 3 <= k.position < l.next),
            forall|k: Time| #[trigger]
                recipes@.recipes.dom().contains(k) ==> is_demo_recipe(recipes@.recipes[k]),
        decreases 5 - i,
    {
        let key = l.tick();
        let copy = recipe.duplicate();
        assert(copy.ingredients.value.deep_view() =~= recipe.ingredients.value.deep_view());
        recipes = recipes.apply(false, RecipeMap::insert(key, copy));
        i += 1;
    }
    let title = Lww::new(l.tick(), String::from_str("My Recipes"));
    let r = Cookbook { title, recipes };
    assert(r@.recipes.recipes.dom() =~= set![
        initial_time(3),
        initial_time(4),
        initial_time(5),
        initial_time(6),
        initial_time(7),
    ]);
    r
}

} // verus!
