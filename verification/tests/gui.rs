use ossa_cookbook::gui::form::field_error;
use ossa_cookbook::gui::layout::cookbook::form as cookbook_form;
use ossa_cookbook::gui::layout::recipe::form::{
    recipe_changes, recipe_form, recipe_insert_op, recipe_update_op, strings_equal,
    submit_new_ingredient, valid_recipe_form, validate_ingredient, validate_instructions,
    validate_name, RecipeChange, RecipeForm,
};
use ossa_cookbook::gui::layout::{
    add_cookbook, cookbook_sidebar_items, get_cookbook_store, get_recipe, is_cookbook_selected,
    new_cookbook, validate_store_id, Screen, SidebarItemProps,
};
use ossa_cookbook::state::cookbook::{Cookbook, CookbookOp};
use ossa_cookbook::state::lww::Lww;
use ossa_cookbook::state::recipe::{Recipe, RecipeOp};
use ossa_cookbook::state::recipes::{RecipeMap, RecipeMapOp};
use ossa_cookbook::time::Time;

fn t(position: u8) -> Time {
    Time { header: None, position }
}

fn form(name: &str, ingredients: &[&str], instructions: &str) -> RecipeForm {
    RecipeForm {
        name: name.to_string(),
        ingredients: ingredients.iter().map(|s| s.to_string()).collect(),
        instructions: instructions.to_string(),
    }
}

#[test]
fn recipe_validators() {
    assert_eq!(validate_name(""), Err("Please enter a name."));
    assert_eq!(validate_name("Soup"), Ok(()));
    assert_eq!(validate_instructions(""), Err("Please enter instructions."));
    assert_eq!(validate_instructions("Boil."), Ok(()));
    assert_eq!(validate_ingredient(""), Ok(()));
    assert_eq!(validate_ingredient("salt"), Ok(()));
}

#[test]
fn recipe_form_validity() {
    assert!(valid_recipe_form(&form("Soup", &["", "salt"], "Boil.")));
    assert!(!valid_recipe_form(&form("", &["salt"], "Boil.")));
    assert!(!valid_recipe_form(&form("Soup", &[], "")));
    assert!(valid_recipe_form(&form("Soup", &[], "Boil.")));
}

#[test]
fn cookbook_form_validity() {
    assert_eq!(cookbook_form::validate_name(""), Err("Please enter a name."));
    assert_eq!(cookbook_form::validate_name("Family"), Ok(()));
    let f = cookbook_form::new_cookbook_form();
    assert_eq!(f.name, "");
    assert!(!cookbook_form::valid_new_cookbook_form(&f));
    let f = cookbook_form::NewCookbookForm { name: "Family".to_string() };
    assert!(cookbook_form::valid_new_cookbook_form(&f));
}

#[test]
fn text_field_shows_error_once_modified() {
    assert_eq!(field_error(false, Err("bad")), Ok(()));
    assert_eq!(field_error(true, Err("bad")), Err("bad"));
    assert_eq!(field_error(true, Ok(())), Ok(()));
}

#[test]
fn recipe_form_starts_from_recipe() {
    let r = Recipe {
        title: Lww::new(t(0), "Kalbi".to_string()),
        ingredients: Lww::new(t(1), vec!["ribs".to_string()]),
        instructions: Lww::new(t(2), "grill".to_string()),
    };
    assert_eq!(recipe_form(Some(&r)), form("Kalbi", &["ribs"], "grill"));
    assert_eq!(recipe_form::<Time>(None), form("", &[], ""));
}

#[test]
fn new_ingredient_added_on_enter() {
    let mut ingredients = vec!["a".to_string()];
    let mut new_ingredient = "b".to_string();
    submit_new_ingredient(&mut ingredients, &mut new_ingredient, false);
    assert_eq!(ingredients, vec!["a".to_string()]);
    assert_eq!(new_ingredient, "b");
    submit_new_ingredient(&mut ingredients, &mut new_ingredient, true);
    assert_eq!(ingredients, vec!["a".to_string(), "b".to_string()]);
    assert_eq!(new_ingredient, "");
}

#[test]
fn edit_form_yields_changed_fields_only() {
    let r = Recipe {
        title: Lww::new(t(0), "Kalbi".to_string()),
        ingredients: Lww::new(t(1), vec!["ribs".to_string()]),
        instructions: Lww::new(t(2), "grill".to_string()),
    };
    assert!(recipe_changes(&r, &form("Kalbi", &["ribs"], "grill")).is_empty());
    assert_eq!(
        recipe_changes(&r, &form("Galbi", &["ribs"], "grill")),
        vec![RecipeChange::Title("Galbi".to_string())]
    );
    assert_eq!(
        recipe_changes(&r, &form("Galbi", &["ribs", "soy"], "grill well")),
        vec![
            RecipeChange::Title("Galbi".to_string()),
            RecipeChange::Ingredients(vec!["ribs".to_string(), "soy".to_string()]),
            RecipeChange::Instructions("grill well".to_string()),
        ]
    );
    assert!(strings_equal(&vec!["x".to_string()], &vec!["x".to_string()]));
    assert!(!strings_equal(&vec!["x".to_string()], &vec![]));
}

#[test]
fn edit_ops_target_the_recipe() {
    let op = recipe_update_op(t(3), RecipeChange::Instructions("stir".to_string()), t(9));
    assert_eq!(
        op,
        CookbookOp::Recipes(RecipeMapOp::Apply {
            key: t(3),
            operation: RecipeOp::Instructions(Lww::new(t(9), "stir".to_string())),
        })
    );
    assert_eq!(
        RecipeChange::Title("T".to_string()).into_op(5u8),
        RecipeOp::Title(Lww::new(5u8, "T".to_string()))
    );
}

#[test]
fn saving_edits_then_applying_gives_form_values() {
    let r = Recipe {
        title: Lww::new(t(0), "Kalbi".to_string()),
        ingredients: Lww::new(t(1), vec!["ribs".to_string()]),
        instructions: Lww::new(t(2), "grill".to_string()),
    };
    let f = form("Galbi", &["ribs"], "grill well");
    let mut cur = r;
    let mut time = 10u8;
    for change in recipe_changes(&cur.clone(), &f) {
        let op = change.into_op(t(time));
        cur = cur.apply(true, op);
        time += 1;
    }
    assert_eq!(cur.title.value, f.name);
    assert_eq!(cur.ingredients.value, f.ingredients);
    assert_eq!(cur.instructions.value, f.instructions);
}

#[test]
fn create_op_inserts_the_form() {
    let f = form("Soup", &["water"], "Boil.");
    let op = recipe_insert_op(&f, t(4));
    match &op {
        CookbookOp::Recipes(RecipeMapOp::Insert { key, value }) => {
            assert_eq!(*key, t(4));
            assert_eq!(value.title, Lww::new(t(4), "Soup".to_string()));
            assert_eq!(value.ingredients, Lww::new(t(4), vec!["water".to_string()]));
            assert_eq!(value.instructions, Lww::new(t(4), "Boil.".to_string()));
        },
        _ => panic!("not an insertion"),
    }
    let c = new_cookbook(&cookbook_form::NewCookbookForm { name: "Book".to_string() }).unwrap();
    let c = c.apply(false, op);
    let got = get_recipe(&c, t(4)).unwrap();
    assert_eq!(got.title.value, "Soup");
    assert!(get_recipe(&c, t(5)).is_none());
}

#[test]
fn screen_selection() {
    assert_eq!(Screen::Cookbook(2).selected_cookbook(), Some(&2));
    assert_eq!(Screen::CookbookRecipe(1, t(0)).selected_cookbook(), Some(&1));
    assert_eq!(Screen::CookbookRecipeNew(4).selected_cookbook(), Some(&4));
    assert_eq!(Screen::CookbookRecipeEdit(5, t(0)).selected_cookbook(), Some(&5));
    assert_eq!(Screen::NoSelection.selected_cookbook(), None);
    assert_eq!(Screen::Login.selected_cookbook(), None);
    assert_eq!(Screen::CookbookNew.selected_cookbook(), None);
    assert_eq!(Screen::Connections.selected_cookbook(), None);
    assert!(is_cookbook_selected(&Screen::Cookbook(2), 2));
    assert!(!is_cookbook_selected(&Screen::Cookbook(2), 3));
    assert!(!is_cookbook_selected(&Screen::NoSelection, 0));
}

#[test]
fn missing_cookbook_falls_back_to_no_selection() {
    let state = vec!["a", "b"];
    let mut screen = Screen::Cookbook(1);
    assert_eq!(get_cookbook_store(&mut screen, &state, 1), Some(&"b"));
    assert_eq!(screen, Screen::Cookbook(1));
    assert_eq!(get_cookbook_store(&mut screen, &state, 2), None);
    assert_eq!(screen, Screen::NoSelection);
}

#[test]
fn adding_a_cookbook_selects_it() {
    let mut state = vec!["a"];
    let mut screen = Screen::CookbookNew;
    add_cookbook(&mut state, "b", &mut screen);
    assert_eq!(state, vec!["a", "b"]);
    assert_eq!(screen, Screen::Cookbook(1));
}

#[test]
fn new_cookbook_needs_a_name() {
    assert!(new_cookbook(&cookbook_form::NewCookbookForm { name: String::new() }).is_none());
    let c: Cookbook =
        new_cookbook(&cookbook_form::NewCookbookForm { name: "Mine".to_string() }).unwrap();
    assert_eq!(c.title, Lww::new(Time { header: None, position: 0 }, "Mine".to_string()));
    assert!(c.recipes.entries().is_empty());
    let _ = RecipeMap::new();
}

#[test]
fn sidebar_lists_cookbooks() {
    let titles = vec![Some("Family".to_string()), None];
    let items = cookbook_sidebar_items(&Screen::CookbookRecipe(1, t(0)), &titles);
    assert_eq!(
        items,
        vec![
            SidebarItemProps { title: "Family".to_string(), selected: false },
            SidebarItemProps { title: "Downloading...".to_string(), selected: true },
        ]
    );
}

#[test]
fn store_ids_are_accepted() {
    assert_eq!(validate_store_id(""), Ok(()));
    assert_eq!(validate_store_id("abc"), Ok(()));
}
