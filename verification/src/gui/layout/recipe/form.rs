//! The form that creates or edits a recipe, and the operations it yields.

use vstd::prelude::*;

use crate::state::cookbook::CookbookOp;
use crate::state::lww::Lww;
use crate::state::recipe::{copy_strings, Recipe, RecipeOp};
use crate::state::recipes::RecipeMapOp;

verus! {

/// The state of the form that creates or edits a recipe.
#[derive(Clone, Debug, PartialEq)]
pub struct RecipeForm {
    pub name: String,
    pub ingredients: Vec<String>,
    pub instructions: String,
}

/// The message shown when a recipe has no name.
pub open spec fn missing_name_message() -> Seq<char> {
    "Please enter a name."@
}

/// The message shown when a recipe has no instructions.
pub open spec fn missing_instructions_message() -> Seq<char> {
    "Please enter instructions."@
}

/// Whether a recipe form holds a valid recipe: a name and instructions.
/// Any ingredient is accepted.
pub open spec fn recipe_form_is_valid(name: Seq<char>, instructions: Seq<char>) -> bool {
    name.len() > 0 && instructions.len() > 0
}

/// Checks the name of a recipe: it must not be empty.
pub fn validate_name(name: &str) -> (r: Result<(), &'static str>)
    ensures
        r is Ok <==> name@.len() > 0,
        r matches Err(m) ==> m@ == missing_name_message(),
{
    if name.is_empty() {
        Err("Please enter a name.")
    } else {
        Ok(())
    }
}

/// Checks an ingredient: every ingredient is accepted.
pub fn validate_ingredient(ingredient: &str) -> (r: Result<(), &'static str>)
    ensures
        r is Ok,
{
    Ok(())
}

/// Checks the instructions of a recipe: they must not be empty.
pub fn validate_instructions(instructions: &str) -> (r: Result<(), &'static str>)
    ensures
        r is Ok <==> instructions@.len() > 0,
        r matches Err(m) ==> m@ == missing_instructions_message(),
{
    if instructions.is_empty() {
        Err("Please enter instructions.")
    } else {
        Ok(())
    }
}

/// Whether the form may be submitted: the name, every ingredient and the
/// instructions are valid.
pub fn valid_recipe_form(recipe_form: &RecipeForm) -> (r: bool)
    ensures
        r == recipe_form_is_valid(recipe_form.name@, recipe_form.instructions@),
{
    let mut ingredient_err = false;
    let mut i: usize = 0;
    while i < recipe_form.ingredients.len()
        invariant
            i <= recipe_form.ingredients@.len(),
            !ingredient_err,
        decreases recipe_form.ingredients@.len() - i,
    {
        if validate_ingredient(recipe_form.ingredients[i].as_str()).is_err() {
            ingredient_err = true;
        }
        i += 1;
    }
    let is_err = validate_name(recipe_form.name.as_str()).is_err() || ingredient_err
        || validate_instructions(recipe_form.instructions.as_str()).is_err();
    !is_err
}

/// The form as it starts: empty when creating a recipe, holding the
/// recipe's current values when editing one.
pub fn recipe_form<T>(initial_recipe: Option<&Recipe<T>>) -> (r: RecipeForm)
    ensures
        initial_recipe matches Some(recipe) ==> {
            &&& r.name == recipe.title.value
            &&& r.ingredients@ == recipe.ingredients.value@
            &&& r.instructions == recipe.instructions.value
        },
        initial_recipe is None ==> {
            &&& r.name@ == Seq::<char>::empty()
            &&& r.ingredients@ == Seq::<String>::empty()
            &&& r.instructions@ == Seq::<char>::empty()
        },
{
    match initial_recipe {
        Some(recipe) => RecipeForm {
            name: recipe.title.value.clone(),
            ingredients: copy_strings(&recipe.ingredients.value),
            instructions: recipe.instructions.value.clone(),
        },
        None => RecipeForm { name: String::new(), ingredients: Vec::new(), instructions: String::new() },
    }
}

/// Handles a key press in the field of a new ingredient: on Enter, a valid
/// ingredient is appended to the list and the field is cleared; otherwise
/// nothing changes.
pub fn submit_new_ingredient(
    ingredients: &mut Vec<String>,
    new_ingredient: &mut String,
    enter_pressed: bool,
)
    ensures
        enter_pressed ==> final(ingredients)@ == old(ingredients)@.push(*old(new_ingredient))
            && final(new_ingredient)@ == Seq::<char>::empty(),
        !enter_pressed ==> final(ingredients)@ == old(ingredients)@ && *final(new_ingredient)
            == *old(new_ingredient),
{
    let i = new_ingredient.clone();
    if enter_pressed && validate_ingredient(i.as_str()).is_ok() {
        ingredients.push(i);
        *new_ingredient = String::new();
    }
}

/// A change of one field of a recipe, made in the edit form.
#[derive(Debug, PartialEq)]
pub enum RecipeChange {
    Title(String),
    Ingredients(Vec<String>),
    Instructions(String),
}

/// The changes that saving the edit form makes to `old`: one for each field
/// whose value in the form differs from the recipe's, in the order title,
/// ingredients, instructions.
pub open spec fn spec_recipe_changes<T>(old: Recipe<T>, form: RecipeForm) -> Seq<RecipeChange> {
    let title = if old.title.value@ != form.name@ {
        seq![RecipeChange::Title(form.name)]
    } else {
        Seq::empty()
    };
    let ingredients = if old.ingredients.value.deep_view() != form.ingredients.deep_view() {
        seq![RecipeChange::Ingredients(form.ingredients)]
    } else {
        Seq::empty()
    };
    let instructions = if old.instructions.value@ != form.instructions@ {
        seq![RecipeChange::Instructions(form.instructions)]
    } else {
        Seq::empty()
    };
    title + ingredients + instructions
}

/// Whether two lists of strings hold the same strings.
pub fn strings_equal(a: &Vec<String>, b: &Vec<String>) -> (r: bool)
    ensures
        r == (a.deep_view() == b.deep_view()),
{
    if a.len() != b.len() {
        assert(a.deep_view().len() != b.deep_view().len());
        return false;
    }
    let mut i: usize = 0;
    while i < a.len()
        invariant
            i <= a@.len(),
            a@.len() == b@.len(),
            forall|j: int| 0 <= j < i ==> a@[j]@ == b@[j]@,
        decreases a@.len() - i,
    {
        if a[i] != b[i] {
            assert(a.deep_view()[i as int] != b.deep_view()[i as int]);
            return false;
        }
        i += 1;
    }
    assert(a.deep_view() =~= b.deep_view());
    true
}

/// The changes that saving the edit form makes to the recipe `old`.
pub fn recipe_changes<T>(old: &Recipe<T>, recipe_form: &RecipeForm) -> (r: Vec<RecipeChange>)
    ensures
        r@.len() == spec_recipe_changes(*old, *recipe_form).len(),
        forall|i: int|
            0 <= i < r@.len() ==> same_change(#[trigger] r@[i], spec_recipe_changes(*old, *recipe_form)[i]),
{
    let mut r: Vec<RecipeChange> = Vec::new();
    if old.title.value != recipe_form.name {
        r.push(RecipeChange::Title(recipe_form.name.clone()));
    }
    if !strings_equal(&old.ingredients.value, &recipe_form.ingredients) {
        r.push(RecipeChange::Ingredients(copy_strings(&recipe_form.ingredients)));
    }
    if old.instructions.value != recipe_form.instructions {
        r.push(RecipeChange::Instructions(recipe_form.instructions.clone()));
    }
    r
}

/// Whether two changes write the same field with the same value.
pub open spec fn same_change(a: RecipeChange, b: RecipeChange) -> bool {
    match (a, b) {
        (RecipeChange::Title(x), RecipeChange::Title(y)) => x@ == y@,
        (RecipeChange::Ingredients(x), RecipeChange::Ingredients(y)) => x@ == y@,
        (RecipeChange::Instructions(x), RecipeChange::Instructions(y)) => x@ == y@,
        _ => false,
    }
}

impl RecipeChange {
    /// The operation that writes this change at `time`.
    pub fn into_op<T>(self, time: T) -> (r: RecipeOp<T>)
        ensures
            r == (match self {
                RecipeChange::Title(v) => RecipeOp::Title(Lww { time, value: v }),
                RecipeChange::Ingredients(v) => RecipeOp::Ingredients(Lww { time, value: v }),
                RecipeChange::Instructions(v) => RecipeOp::Instructions(Lww { time, value: v }),
            }),
    {
        match self {
            RecipeChange::Title(v) => RecipeOp::Title(Lww::new(time, v)),
            RecipeChange::Ingredients(v) => RecipeOp::Ingredients(Lww::new(time, v)),
            RecipeChange::Instructions(v) => RecipeOp::Instructions(Lww::new(time, v)),
        }
    }
}

/// The cookbook operation that writes `change` at `time` to the recipe
/// with id `recipe_id`.
pub fn recipe_update_op<T>(recipe_id: T, change: RecipeChange, time: T) -> (r: CookbookOp<T>)
    ensures
        r == CookbookOp::Recipes(
            RecipeMapOp::Apply { key: recipe_id, operation: change.into_op_spec(time) },
        ),
{
    CookbookOp::Recipes(RecipeMapOp::Apply { key: recipe_id, operation: change.into_op(time) })
}

impl RecipeChange {
    /// The operation that writes this change at `time`.
    pub open spec fn into_op_spec<T>(self, time: T) -> RecipeOp<T> {
        match self {
            RecipeChange::Title(v) => RecipeOp::Title(Lww { time, value: v }),
            RecipeChange::Ingredients(v) => RecipeOp::Ingredients(Lww { time, value: v }),
            RecipeChange::Instructions(v) => RecipeOp::Instructions(Lww { time, value: v }),
        }
    }
}

/// The cookbook operation that creates a recipe from the form at `time`:
/// the recipe gets `time` as its id and as the time of each of its fields.
pub fn recipe_insert_op<T: Copy>(recipe_form: &RecipeForm, time: T) -> (r: CookbookOp<T>)
    ensures
        r matches CookbookOp::Recipes(RecipeMapOp::Insert { key, value }) && key == time
            && value.title.time == time && value.title.value == recipe_form.name
            && value.ingredients.time == time && value.ingredients.value@
            == recipe_form.ingredients@ && value.instructions.time == time
            && value.instructions.value == recipe_form.instructions,
{
    let recipe = Recipe {
        title: Lww::new(time, recipe_form.name.clone()),
        ingredients: Lww::new(time, copy_strings(&recipe_form.ingredients)),
        instructions: Lww::new(time, recipe_form.instructions.clone()),
    };
    CookbookOp::Recipes(RecipeMapOp::Insert { key: time, value: recipe })
}

} // verus!

verus! {

/// The recipe after writing `changes` in order, the i-th at `times[i]`,
/// each write coming after the one it competes with.
pub open spec fn apply_later_changes<T>(r: Recipe<T>, changes: Seq<RecipeChange>, times: Seq<T>) -> Recipe<T>
    decreases changes.len(),
{
    if changes.len() == 0 {
        r
    } else {
        apply_later_changes(
            r.spec_apply(true, changes[0].into_op_spec(times[0])),
            changes.drop_first(),
            times.drop_first(),
        )
    }
}

/// Saving the edit form takes effect: when each change it yields is written
/// later than the write it competes with, the recipe ends up with exactly
/// the values of the form.
pub proof fn lemma_saved_changes_take_effect<T>(old: Recipe<T>, form: RecipeForm, times: Seq<T>)
    ensures
        apply_later_changes(old, spec_recipe_changes(old, form), times).title.value@ == form.name@,
        apply_later_changes(old, spec_recipe_changes(old, form), times).ingredients.value.deep_view()
            == form.ingredients.deep_view(),
        apply_later_changes(old, spec_recipe_changes(old, form), times).instructions.value@
            == form.instructions@,
{
    reveal_with_fuel(apply_later_changes, 4);
    let c = spec_recipe_changes(old, form);
    let t = if old.title.value@ != form.name@ {
        seq![RecipeChange::Title(form.name)]
    } else {
        Seq::empty()
    };
    let g = if old.ingredients.value.deep_view() != form.ingredients.deep_view() {
        seq![RecipeChange::Ingredients(form.ingredients)]
    } else {
        Seq::empty()
    };
    let n = if old.instructions.value@ != form.instructions@ {
        seq![RecipeChange::Instructions(form.instructions)]
    } else {
        Seq::empty()
    };
    assert(c == t + g + n);
    if c.len() > 0 {
        assert(c.drop_first() =~= c.subrange(1, c.len() as int));
    }
    if c.len() > 1 {
        assert(c.drop_first().drop_first() =~= c.subrange(2, c.len() as int));
    }
    if c.len() > 2 {
        assert(c.drop_first().drop_first().drop_first() =~= c.subrange(3, c.len() as int));
    }
}

} // verus!

verus! {

/// Saving the edit form writes a field exactly when the form changed it:
/// the changes hold a title change if and only if the form's name differs
/// from the recipe's title, an ingredients change if and only if the
/// ingredient lists differ, an instructions change if and only if the
/// instructions differ; each change carries the form's value, and no field
/// is written twice.
pub proof fn lemma_changes_exactly_the_changed_fields<T>(old: Recipe<T>, form: RecipeForm)
    ensures
        ({
            let c = spec_recipe_changes(old, form);
            &&& (exists|i: int| 0 <= i < c.len() && #[trigger] c[i] is Title) <==> old.title.value@
                != form.name@
            &&& (exists|i: int| 0 <= i < c.len() && #[trigger] c[i] is Ingredients)
                <==> old.ingredients.value.deep_view() != form.ingredients.deep_view()
            &&& (exists|i: int| 0 <= i < c.len() && #[trigger] c[i] is Instructions)
                <==> old.instructions.value@ != form.instructions@
            &&& forall|i: int|
                0 <= i < c.len() ==> match #[trigger] c[i] {
                    RecipeChange::Title(v) => v == form.name,
                    RecipeChange::Ingredients(v) => v == form.ingredients,
                    RecipeChange::Instructions(v) => v == form.instructions,
                }
            &&& forall|i: int, j: int|
                0 <= i < j < c.len() ==> !((#[trigger] c[i] is Title && #[trigger] c[j] is Title)
                    || (c[i] is Ingredients && c[j] is Ingredients) || (c[i] is Instructions
                    && c[j] is Instructions))
        }),
{
    let c = spec_recipe_changes(old, form);
    let t = if old.title.value@ != form.name@ {
        seq![RecipeChange::Title(form.name)]
    } else {
        Seq::empty()
    };
    let g = if old.ingredients.value.deep_view() != form.ingredients.deep_view() {
        seq![RecipeChange::Ingredients(form.ingredients)]
    } else {
        Seq::empty()
    };
    let n = if old.instructions.value@ != form.instructions@ {
        seq![RecipeChange::Instructions(form.instructions)]
    } else {
        Seq::empty()
    };
    assert(c == t + g + n);
    assert forall|i: int| 0 <= i < c.len() implies (c[i] is Title ==> i == 0 && t.len() == 1) && (
    c[i] is Ingredients ==> i == t.len() && g.len() == 1) && (c[i] is Instructions ==> i == t.len()
        + g.len() && n.len() == 1) by {
        if i < t.len() {
            assert(c[i] == t[i]);
        } else if i < t.len() + g.len() {
            assert(c[i] == g[i - t.len()]);
        } else {
            assert(c[i] == n[i - t.len() - g.len()]);
        }
    }
    if t.len() == 1 {
        assert(c[0] == t[0]);
    }
    if g.len() == 1 {
        assert(c[t.len() as int] == g[0]);
    }
    if n.len() == 1 {
        assert(c[(t.len() + g.len()) as int] == n[0]);
    }
}

} // verus!
