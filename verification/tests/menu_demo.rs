use ossa_cookbook::demo::initial_demo_state;
use ossa_cookbook::gui::layout::Screen;
use ossa_cookbook::menu::{menu_event_screen, MenuMap, MenuOperation};
use ossa_cookbook::time::Time;

fn t(position: u8) -> Time {
    Time { header: None, position }
}

#[test]
fn menu_map_returns_recorded_operations() {
    let mut m = MenuMap::new();
    assert_eq!(m.get_op(&"1".to_string()), None);
    m.insert("1".to_string(), MenuOperation::NewCookbook);
    m.insert("2".to_string(), MenuOperation::NewCookbookRecipe);
    assert_eq!(m.get_op(&"1".to_string()), Some(MenuOperation::NewCookbook));
    assert_eq!(m.get_op(&"2".to_string()), Some(MenuOperation::NewCookbookRecipe));
    assert_eq!(m.get_op(&"3".to_string()), None);
}

#[test]
fn menu_operations_lead_to_forms() {
    assert_eq!(menu_event_screen(&Screen::NoSelection, MenuOperation::NewCookbook), Screen::CookbookNew);
    assert_eq!(
        menu_event_screen(&Screen::CookbookRecipe(3, t(1)), MenuOperation::NewCookbookRecipe),
        Screen::CookbookRecipeNew(3)
    );
}

#[test]
fn demo_state_holds_five_recipes() {
    let c = initial_demo_state();
    assert_eq!(c.title.time, t(8));
    assert_eq!(c.title.value, "My Recipes");
    let entries = c.recipes.entries();
    let keys: Vec<Time> = entries.iter().map(|(k, _)| *k).collect();
    assert_eq!(keys, vec![t(3), t(4), t(5), t(6), t(7)]);
    for (_, r) in entries.iter() {
        assert_eq!(r.title.time, t(0));
        assert_eq!(r.title.value, "Kalbi");
        assert_eq!(r.ingredients.time, t(1));
        assert_eq!(r.ingredients.value, vec!["1oz Soy sauce".to_string(), "1lb Beef Ribs".to_string()]);
        assert_eq!(r.instructions.time, t(2));
        assert_eq!(r.instructions.value, "1. Grill meat\n2. Eat\n3. ...");
    }
}
