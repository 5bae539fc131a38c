//! The views of the application and the decisions taken when moving
//! between them.

pub mod cookbook;
pub mod recipe;

use vstd::prelude::*;
use vstd::string::StringExecFns;

use crate::gui::layout::cookbook::form::{valid_new_cookbook_form, NewCookbookForm};
use crate::state::cookbook::{Cookbook, CookbookId, RecipeId};
use crate::state::lww::Lww;
use crate::state::recipe::Recipe;
use crate::state::recipes::RecipeMap;
use crate::time::Time;

verus! {

/// What the main window shows: the view that the user has navigated to.
#[derive(Clone, Copy, Debug, PartialEq, Eq)]
pub enum Screen {
    Login,
    NoSelection,
    CookbookNew,
    Cookbook(CookbookId),
    CookbookRecipe(CookbookId, RecipeId),
    CookbookRecipeNew(CookbookId),
    CookbookRecipeEdit(CookbookId, RecipeId),
    Connections,
}

impl Screen {
    /// The cookbook that the view shows, or shows a recipe of.
    pub open spec fn spec_selected_cookbook(self) -> Option<CookbookId> {
        match self {
            Screen::Login => None,
            Screen::NoSelection => None,
            Screen::CookbookNew => None,
            Screen::Connections => None,
            Screen::Cookbook(vid) => Some(vid),
            Screen::CookbookRecipe(vid, _rid) => Some(vid),
            Screen::CookbookRecipeNew(vid) => Some(vid),
            Screen::CookbookRecipeEdit(vid, _rid) => Some(vid),
        }
    }

    /// The cookbook that the view shows, or shows a recipe of.
    pub fn selected_cookbook(&self) -> (r: Option<&CookbookId>)
        ensures
            r matches Some(c) ==> self.spec_selected_cookbook() == Some(*c),
            r is None ==> self.spec_selected_cookbook() is None,
    {
        match self {
            Screen::Login => None,
            Screen::NoSelection => None,
            Screen::CookbookNew => None,
            Screen::Connections => None,
            Screen::Cookbook(vid) => Some(vid),
            Screen::CookbookRecipe(vid, _rid) => Some(vid),
            Screen::CookbookRecipeNew(vid) => Some(vid),
            Screen::CookbookRecipeEdit(vid, _rid) => Some(vid),
        }
    }
}

/// Whether the view has the cookbook `cid` selected.
pub fn is_cookbook_selected(view: &Screen, cid: CookbookId) -> (r: bool)
    ensures
        r == (view.spec_selected_cookbook() == Some(cid)),
{
    match view.selected_cookbook() {
        Some(vid) => *vid == cid,
        None => false,
    }
}

/// The store of the cookbook `cookbook_id` among the open ones. When there
/// is none, the view falls back to showing no selection.
pub fn get_cookbook_store<'a, S>(view: &mut Screen, state: &'a Vec<S>, cookbook_id: CookbookId) -> (r:
    Option<&'a S>)
    ensures
        cookbook_id < state@.len() ==> r == Some(&state@[cookbook_id as int]) && *final(view)
            == *old(view),
        cookbook_id >= state@.len() ==> r is None && *final(view) == Screen::NoSelection,
{
    if cookbook_id < state.len() {
        Some(&state[cookbook_id])
    } else {
        *view = Screen::NoSelection;
        None
    }
}

/// The recipe `recipe_id` of the cookbook, if it has one.
pub fn get_recipe(cookbook: &Cookbook, recipe_id: RecipeId) -> (r: Option<&Recipe<Time>>)
    ensures
        r is Some <==> cookbook@.recipes.recipes.dom().contains(recipe_id),
        r matches Some(v) ==> *v == cookbook@.recipes.recipes[recipe_id],
{
    cookbook.recipes.get(&recipe_id)
}

/// Opens a cookbook store: it is added after the open ones and the view
/// switches to it.
pub fn add_cookbook<S>(state: &mut Vec<S>, store: S, view: &mut Screen)
    ensures
        final(state)@ == old(state)@.push(store),
        *final(view) == Screen::Cookbook(old(state)@.len() as CookbookId),
{
    let cookbook_id = state.len();
    state.push(store);
    *view = Screen::Cookbook(cookbook_id);
}

/// The cookbook that the creation form describes, if the form is valid: it
/// has the form's name as title, written at the initial time, and no recipes.
pub fn new_cookbook(form_state: &NewCookbookForm) -> (r: Option<Cookbook>)
    ensures
        r is Some <==> form_state.name@.len() > 0,
        r matches Some(c) ==> {
            &&& c.title.time == (Time { header: None, position: 0 })
            &&& c.title.value == form_state.name
            &&& c@.recipes.recipes == Map::<Time, Recipe<Time>>::empty()
            &&& c@.recipes.tombstones == Set::<Time>::empty()
        },
{
    if !valid_new_cookbook_form(form_state) {
        return None;
    }
    Some(
        Cookbook {
            title: Lww::new(Time { header: None, position: 0 }, form_state.name.clone()),
            recipes: RecipeMap::new(),
        },
    )
}

/// An entry of the sidebar's list of cookbooks.
#[derive(Clone, Debug, PartialEq)]
pub struct SidebarItemProps {
    pub title: String,
    pub selected: bool,
}

/// The title shown for a cookbook whose state has not arrived yet.
pub open spec fn downloading_title() -> Seq<char> {
    "Downloading..."@
}

/// The sidebar's list of cookbooks: one entry for each open cookbook, with
/// its title (or a placeholder while its state has not arrived), selected
/// when the view has that cookbook selected.
pub fn cookbook_sidebar_items(view: &Screen, titles: &Vec<Option<String>>) -> (r: Vec<SidebarItemProps>)
    ensures
        r@.len() == titles@.len(),
        forall|i: int|
            0 <= i < titles@.len() ==> {
                &&& (#[trigger] r@[i]).selected == (view.spec_selected_cookbook() == Some(
                    i as CookbookId,
                ))
                &&& r@[i].title@ == match titles@[i] {
                    Some(t) => t@,
                    None => downloading_title(),
                }
            },
{
    let mut r: Vec<SidebarItemProps> = Vec::new();
    let mut i: usize = 0;
    while i < titles.len()
        invariant
            i <= titles@.len(),
            r@.len() == i,
            forall|j: int|
                0 <= j < i ==> {
                    &&& (#[trigger] r@[j]).selected == (view.spec_selected_cookbook() == Some(
                        j as CookbookId,
                    ))
                    &&& r@[j].title@ == match titles@[j] {
                        Some(t) => t@,
                        None => downloading_title(),
                    }
                },
        decreases titles@.len() - i,
    {
        let title = match &titles[i] {
            Some(t) => t.clone(),
            None => String::from_str("Downloading..."),
        };
        let selected = is_cookbook_selected(view, i);
        r.push(SidebarItemProps { title, selected });
        i += 1;
    }
    r
}

/// Checks a store id typed by the user: every store id is accepted here,
/// and parsing decides.
pub fn validate_store_id(store_id: &str) -> (r: Result<(), &'static str>)
    ensures
        r is Ok,
{
    Ok(())
}

} // verus!

verus! {

/// Every screen about a cookbook, its recipes or a recipe of it selects
/// that cookbook, whatever the recipe; the other screens select none.
pub proof fn lemma_screen_selects_its_cookbook(c: CookbookId, rid: RecipeId)
    ensures
        Screen::Cookbook(c).spec_selected_cookbook() == Some(c),
        Screen::CookbookRecipe(c, rid).spec_selected_cookbook() == Some(c),
        Screen::CookbookRecipeNew(c).spec_selected_cookbook() == Some(c),
        Screen::CookbookRecipeEdit(c, rid).spec_selected_cookbook() == Some(c),
        Screen::Login.spec_selected_cookbook() is None,
        Screen::NoSelection.spec_selected_cookbook() is None,
        Screen::CookbookNew.spec_selected_cookbook() is None,
        Screen::Connections.spec_selected_cookbook() is None,
{
}

} // verus!
