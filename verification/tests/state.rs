use ossa_cookbook::state::cookbook::{Cookbook, CookbookOp};
use ossa_cookbook::state::lww::Lww;
use ossa_cookbook::state::recipe::{copy_strings, Recipe, RecipeOp};
use ossa_cookbook::state::recipes::{RecipeMap, RecipeMapOp};
use ossa_cookbook::time::{hash_equal, hash_less, time_equal, time_less, Time};

fn t(position: u8) -> Time {
    Time { header: None, position }
}

fn th(byte: u8, position: u8) -> Time {
    let mut hash = [0u8; 32];
    hash[31] = byte;
    Time { header: Some(hash), position }
}

fn recipe(time: Time, title: &str) -> Recipe<Time> {
    Recipe {
        title: Lww::new(time, title.to_string()),
        ingredients: Lww::new(time, vec!["salt".to_string()]),
        instructions: Lww::new(time, "cook".to_string()),
    }
}

fn keys(m: &RecipeMap) -> Vec<Time> {
    m.entries().iter().map(|(k, _)| *k).collect()
}

#[test]
fn time_order_follows_header_then_position() {
    assert!(time_less(&t(1), &t(2)));
    assert!(!time_less(&t(2), &t(1)));
    assert!(!time_less(&t(2), &t(2)));
    assert!(time_less(&t(200), &th(0, 0)));
    assert!(!time_less(&th(0, 0), &t(200)));
    assert!(time_less(&th(1, 9), &th(2, 0)));
    assert!(time_less(&th(3, 1), &th(3, 2)));
    assert!(time_equal(&th(3, 1), &th(3, 1)));
    assert!(!time_equal(&th(3, 1), &th(4, 1)));
    assert!(!time_equal(&t(1), &th(0, 1)));
}

#[test]
fn hash_order_is_lexicographic() {
    let mut a = [0u8; 32];
    let mut b = [0u8; 32];
    a[0] = 1;
    b[0] = 1;
    b[5] = 2;
    a[6] = 9;
    assert!(hash_less(&a, &b));
    assert!(!hash_less(&b, &a));
    assert!(!hash_less(&a, &a));
    assert!(hash_equal(&a, &a));
    assert!(!hash_equal(&a, &b));
}

#[test]
fn lww_later_write_wins() {
    let held = Lww::new(t(1), "old".to_string());
    let incoming = Lww::new(t(2), "new".to_string());
    assert_eq!(held.clone().apply(true, incoming.clone()), incoming);
    assert_eq!(held.clone().apply(false, incoming.clone()), held);
    assert_eq!(*held.time(), t(1));
    assert_eq!(held.value(), "old");
}

#[test]
fn lww_apply_commutes_on_concrete_writes() {
    // Order by position: 1 < 2 < 3.
    let x = Lww::new(t(1), 10u32);
    let a = Lww::new(t(3), 30u32);
    let b = Lww::new(t(2), 20u32);
    let xa = x.clone().apply(time_less(&x.time, &a.time), a.clone());
    let xab = xa.clone().apply(time_less(&xa.time, &b.time), b.clone());
    let xb = x.clone().apply(time_less(&x.time, &b.time), b.clone());
    let xba = xb.clone().apply(time_less(&xb.time, &a.time), a.clone());
    assert_eq!(xab, xba);
    assert_eq!(xab, a);
}

#[test]
fn lww_fmap_maps_the_time_only() {
    let w = Lww::new(4u8, "v".to_string());
    let m = w.fmap(|x: u8| x as u32 * 10);
    assert_eq!(m, Lww::new(40u32, "v".to_string()));
}

#[test]
fn recipe_apply_writes_one_field() {
    let r = recipe(t(0), "Soup");
    let op = RecipeOp::Title(Lww::new(t(5), "Stew".to_string()));
    assert_eq!(*r.competing_time(&op), t(0));
    assert_eq!(*op.time(), t(5));
    let r2 = r.clone().apply(true, op.clone());
    assert_eq!(r2.title.value, "Stew");
    assert_eq!(r2.ingredients, r.ingredients);
    assert_eq!(r2.instructions, r.instructions);
    let r3 = r.clone().apply(false, op);
    assert_eq!(r3, r);

    let op = RecipeOp::Ingredients(Lww::new(t(6), vec!["a".to_string(), "b".to_string()]));
    let r4 = r.clone().apply(true, op);
    assert_eq!(r4.ingredients.value, vec!["a".to_string(), "b".to_string()]);
    assert_eq!(r4.title, r.title);

    let op = RecipeOp::Instructions(Lww::new(t(7), "boil".to_string()));
    assert_eq!(*r.competing_time(&op), t(0));
    let r5 = r.clone().apply(true, op);
    assert_eq!(r5.instructions.value, "boil");
}

#[test]
fn recipe_duplicate_and_copy_strings() {
    let r = recipe(t(2), "Pie");
    let d = r.duplicate();
    assert_eq!(d, r);
    let v = vec!["x".to_string(), "y".to_string()];
    assert_eq!(copy_strings(&v), v);
}

#[test]
fn recipe_op_fmap() {
    let op = RecipeOp::Instructions(Lww::new(3u8, "i".to_string()));
    assert_eq!(op.fmap(|x: u8| x as u16 + 1), RecipeOp::Instructions(Lww::new(4u16, "i".to_string())));
    let r = Recipe {
        title: Lww::new(1u8, "t".to_string()),
        ingredients: Lww::new(2u8, vec![]),
        instructions: Lww::new(3u8, "i".to_string()),
    };
    let m = r.fmap(|x: u8| x as u16 * 2);
    assert_eq!(m.title.time, 2u16);
    assert_eq!(m.ingredients.time, 4u16);
    assert_eq!(m.instructions.time, 6u16);
}

#[test]
fn recipe_map_keeps_recipes_in_id_order() {
    let mut m = RecipeMap::new();
    assert!(m.entries().is_empty());
    for p in [5u8, 1, 3] {
        m = m.apply(false, RecipeMap::insert(t(p), recipe(t(p), "R")));
    }
    m = m.apply(false, RecipeMap::insert(th(0, 0), recipe(th(0, 0), "H")));
    assert_eq!(keys(&m), vec![t(1), t(3), t(5), th(0, 0)]);
    assert_eq!(m.get(&t(3)).unwrap().title.value, "R");
    assert!(m.get(&t(4)).is_none());
}

#[test]
fn recipe_map_edit_and_delete() {
    let mut m = RecipeMap::new();
    m = m.apply(false, RecipeMap::insert(t(1), recipe(t(1), "Old")));
    let edit = RecipeMapOp::Apply {
        key: t(1),
        operation: RecipeOp::Title(Lww::new(t(2), "New".to_string())),
    };
    assert_eq!(m.competing_time(&edit), Some(t(1)));
    m = m.apply(true, edit);
    assert_eq!(m.get(&t(1)).unwrap().title.value, "New");
    assert_eq!(m.get(&t(1)).unwrap().title.time, t(2));

    m = m.apply(false, RecipeMapOp::Delete { key: t(1) });
    assert!(m.get(&t(1)).is_none());
    assert!(m.is_deleted(&t(1)));
    assert!(m.entries().is_empty());

    // Operations on a deleted id are ignored.
    let edit = RecipeMapOp::Apply {
        key: t(1),
        operation: RecipeOp::Title(Lww::new(t(3), "Again".to_string())),
    };
    assert_eq!(m.competing_time(&edit), None);
    m = m.apply(true, edit);
    m = m.apply(false, RecipeMap::insert(t(1), recipe(t(4), "Back")));
    assert!(m.get(&t(1)).is_none());
    assert!(m.entries().is_empty());

    // Deleting an id that was never inserted marks it deleted.
    m = m.apply(false, RecipeMapOp::Delete { key: t(9) });
    assert!(m.is_deleted(&t(9)));
    m = m.apply(false, RecipeMap::insert(t(9), recipe(t(9), "Late")));
    assert!(m.get(&t(9)).is_none());
}

#[test]
fn recipe_map_insert_and_delete_commute() {
    let ins = || RecipeMap::insert(t(1), recipe(t(1), "R"));
    let del = || RecipeMapOp::Delete { key: t(1) };
    let a = RecipeMap::new().apply(false, ins()).apply(false, del());
    let b = RecipeMap::new().apply(false, del()).apply(false, ins());
    assert_eq!(keys(&a), keys(&b));
    assert!(a.is_deleted(&t(1)) && b.is_deleted(&t(1)));

    let i2 = || RecipeMap::insert(t(2), recipe(t(2), "S"));
    let c = RecipeMap::new().apply(false, ins()).apply(false, i2());
    let d = RecipeMap::new().apply(false, i2()).apply(false, ins());
    assert_eq!(keys(&c), keys(&d));
}

#[test]
fn recipe_map_op_fmap() {
    let op = RecipeMapOp::Delete { key: 7u8 };
    assert_eq!(op.fmap(|x: u8| x as u32), RecipeMapOp::Delete { key: 7u32 });
    let op = RecipeMapOp::Apply {
        key: 1u8,
        operation: RecipeOp::Title(Lww::new(2u8, "t".to_string())),
    };
    assert_eq!(*op.key(), 1u8);
    assert_eq!(
        op.fmap(|x: u8| x as u32 + 100),
        RecipeMapOp::Apply {
            key: 101u32,
            operation: RecipeOp::Title(Lww::new(102u32, "t".to_string())),
        }
    );
}

#[test]
fn cookbook_apply_title_and_recipes() {
    let c = Cookbook { title: Lww::new(t(0), "Book".to_string()), recipes: RecipeMap::new() };
    let op = CookbookOp::Title(Lww::new(t(1), "Renamed".to_string()));
    assert_eq!(c.competing_time(&op), Some(t(0)));
    let c = c.apply(true, op);
    assert_eq!(c.title.value, "Renamed");
    let op = CookbookOp::Recipes(RecipeMap::insert(t(2), recipe(t(2), "R")));
    assert_eq!(c.competing_time(&op), None);
    let c = c.apply(false, op);
    assert_eq!(c.recipes.get(&t(2)).unwrap().title.value, "R");
    // An older title loses.
    let op = CookbookOp::Title(Lww::new(t(0), "Stale".to_string()));
    let cur = c.competing_time(&op).unwrap();
    let c = c.apply(time_less(&cur, &t(0)), op);
    assert_eq!(c.title.value, "Renamed");
}

#[test]
fn cookbook_op_fmap() {
    let op = CookbookOp::Title(Lww::new(1u8, "x".to_string()));
    assert_eq!(op.fmap(|x: u8| x as u64 + 1), CookbookOp::Title(Lww::new(2u64, "x".to_string())));
}

#[test]
fn validity_of_operations() {
    let c = Cookbook { title: Lww::new(t(0), "Book".to_string()), recipes: RecipeMap::new() };
    assert!(!c.op_is_valid(&CookbookOp::Title(Lww::new(t(0), "Same time".to_string()))));
    assert!(c.op_is_valid(&CookbookOp::Title(Lww::new(t(1), "Later".to_string()))));
    let edit = |key: Time, time: Time| {
        CookbookOp::Recipes(RecipeMapOp::Apply {
            key,
            operation: RecipeOp::Title(Lww::new(time, "x".to_string())),
        })
    };
    // Editing a missing recipe is not valid.
    assert!(!c.op_is_valid(&edit(t(2), t(3))));
    let c = c.apply(false, CookbookOp::Recipes(RecipeMap::insert(t(2), recipe(t(2), "R"))));
    assert!(c.op_is_valid(&edit(t(2), t(3))));
    assert!(!c.op_is_valid(&edit(t(2), t(2))));
    // Inserting an id twice is not valid.
    assert!(!c.op_is_valid(&CookbookOp::Recipes(RecipeMap::insert(t(2), recipe(t(2), "R")))));
    // Everything on a deleted id is valid, and ignored.
    let c = c.apply(false, CookbookOp::Recipes(RecipeMapOp::Delete { key: t(2) }));
    assert!(c.op_is_valid(&edit(t(2), t(2))));
    assert!(c.recipes.op_is_valid(&RecipeMap::insert(t(2), recipe(t(2), "R"))));
}

#[test]
fn write_time_of_operations() {
    assert_eq!(CookbookOp::Title(Lww::new(t(4), "x".to_string())).write_time(), Some(&t(4)));
    let edit = CookbookOp::Recipes(RecipeMapOp::Apply {
        key: t(1),
        operation: RecipeOp::Ingredients(Lww::new(t(6), vec![])),
    });
    assert_eq!(edit.write_time(), Some(&t(6)));
    let ins = CookbookOp::Recipes(RecipeMap::insert(t(2), recipe(t(2), "R")));
    assert_eq!(ins.write_time(), None);
    let del: CookbookOp<Time> = CookbookOp::Recipes(RecipeMapOp::Delete { key: t(2) });
    assert_eq!(del.write_time(), None);
}

#[test]
fn duplicates_hold_the_same_content() {
    let c = Cookbook { title: Lww::new(t(0), "Book".to_string()), recipes: RecipeMap::new() };
    let c = c.apply(false, CookbookOp::Recipes(RecipeMap::insert(t(3), recipe(t(3), "A"))));
    let c = c.apply(false, CookbookOp::Recipes(RecipeMap::insert(t(1), recipe(t(1), "B"))));
    let c = c.apply(false, CookbookOp::Recipes(RecipeMapOp::Delete { key: t(7) }));
    let d = c.duplicate();
    assert_eq!(d.title, c.title);
    assert_eq!(d.recipes.entries(), c.recipes.entries());
    assert!(d.recipes.is_deleted(&t(7)));
    assert!(!d.recipes.is_deleted(&t(3)));
}
