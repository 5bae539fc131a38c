//! The application menu: which operation each menu item stands for, and
//! where choosing one leads.

use vstd::prelude::*;

use crate::gui::layout::Screen;

verus! {

/// An operation offered by the application menu.
#[derive(Clone, Copy, Debug, PartialEq, Eq, PartialOrd, Ord)]
pub enum MenuOperation {
    NewCookbook,
    NewCookbookRecipe,
}

/// Whether some entry of `s` has the menu id `k`.
pub open spec fn has_menu_id(s: Seq<(String, MenuOperation)>, k: Seq<char>) -> bool {
    exists|i: int| 0 <= i < s.len() && #[trigger] s[i].0@ == k
}

/// The operations of the menu items, by menu item id.
pub struct MenuMap {
    id_to_op: Vec<(String, MenuOperation)>,
}

impl View for MenuMap {
    type V = Map<Seq<char>, MenuOperation>;

    closed spec fn view(&self) -> Map<Seq<char>, MenuOperation> {
        Map::new(
            |k: Seq<char>| has_menu_id(self.id_to_op@, k),
            |k: Seq<char>|
                self.id_to_op@[choose|i: int|
                    0 <= i < self.id_to_op@.len() && #[trigger] self.id_to_op@[i].0@ == k].1,
        )
    }
}

impl MenuMap {
    #[verifier::type_invariant]
    spec fn ids_distinct(self) -> bool {
        forall|i: int, j: int|
            0 <= i < j < self.id_to_op@.len() ==> (#[trigger] self.id_to_op@[i]).0@ != (
            #[trigger] self.id_to_op@[j]).0@
    }

    /// A map with no menu items.
    pub fn new() -> (r: Self)
        ensures
            r@ == Map::<Seq<char>, MenuOperation>::empty(),
    {
        let r = MenuMap { id_to_op: Vec::new() };
        assert(r@ =~= Map::<Seq<char>, MenuOperation>::empty());
        r
    }

    /// The position of the entry with id `menu_id`, if there is one.
    fn find(&self, menu_id: &String) -> (r: Option<usize>)
        ensures
            r matches Some(i) ==> i < self.id_to_op@.len() && self.id_to_op@[i as int].0@
                == menu_id@,
            r is None ==> !has_menu_id(self.id_to_op@, menu_id@),
    {
        let mut i: usize = 0;
        while i < self.id_to_op.len()
            invariant
                i <= self.id_to_op@.len(),
                forall|j: int| 0 <= j < i ==> self.id_to_op@[j].0@ != menu_id@,
            decreases self.id_to_op@.len() - i,
        {
            if self.id_to_op[i].0 == *menu_id {
                return Some(i);
            }
            i += 1;
        }
        None
    }

    /// Records that the menu item `menu_id` stands for `operation`. Each
    /// menu item is recorded once.
    pub fn insert(&mut self, menu_id: String, operation: MenuOperation)
        requires
            !old(self)@.dom().contains(menu_id@),
        ensures
            final(self)@ == old(self)@.insert(menu_id@, operation),
    {
        proof {
            use_type_invariant(&*self);
        }
        let ghost old_s = self.id_to_op@;
        let ghost k = menu_id@;
        let mut entries: Vec<(String, MenuOperation)> = Vec::new();
        std::mem::swap(&mut entries, &mut self.id_to_op);
        entries.push((menu_id, operation));
        proof {
            let s = entries@;
            assert forall|i: int, j: int| 0 <= i < j < s.len() implies (#[trigger] s[i]).0@ != (
            #[trigger] s[j]).0@ by {
                if j == old_s.len() {
                    assert(has_menu_id(old_s, old_s[i].0@));
                }
            }
        }
        self.id_to_op = entries;
        proof {
            let s = self.id_to_op@;
            assert(s[old_s.len() as int].0@ == k);
            assert forall|x: Seq<char>| #[trigger] has_menu_id(s, x) == (has_menu_id(old_s, x) || x == k) by {
                if has_menu_id(s, x) {
                    let i = choose|i: int| 0 <= i < s.len() && #[trigger] s[i].0@ == x;
                    if i < old_s.len() {
                        assert(old_s[i].0@ == x);
                    }
                }
                if has_menu_id(old_s, x) {
                    let i = choose|i: int| 0 <= i < old_s.len() && #[trigger] old_s[i].0@ == x;
                    assert(s[i].0@ == x);
                }
            }
        }
        proof {
            let s = self.id_to_op@;
            assert forall|x: Seq<char>| #[trigger] has_menu_id(s, x) implies self@[x]
                == old(self)@.insert(k, operation)[x] by {
                let i = choose|i: int| 0 <= i < s.len() && #[trigger] s[i].0@ == x;
                if x == k {
                    assert(i == old_s.len());
                } else {
                    let j = choose|j: int| 0 <= j < old_s.len() && #[trigger] old_s[j].0@ == x;
                    assert(s[j].0@ == x);
                    if i != j {
                        assert(s[i].0@ != s[j].0@);
                    }
                }
            }
            assert(self@ =~= old(self)@.insert(k, operation));
        }
    }

    /// The operation that the menu item `menu_id` stands for, if any.
    pub fn get_op(&self, menu_id: &String) -> (r: Option<MenuOperation>)
        ensures
            r == (if self@.dom().contains(menu_id@) {
                Some(self@[menu_id@])
            } else {
                None
            }),
    {
        proof {
            use_type_invariant(self);
        }
        match self.find(menu_id) {
            Some(i) => {
                proof {
                    let s = self.id_to_op@;
                    let j = choose|j: int| 0 <= j < s.len() && #[trigger] s[j].0@ == menu_id@;
                    if i != j {
                        assert(s[i as int].0@ != s[j].0@);
                    }
                }
                Some(self.id_to_op[i].1)
            },
            None => None,
        }
    }
}

/// Where choosing a menu operation leads: a new cookbook opens the creation
/// form; a new recipe opens the recipe form of the selected cookbook, and is
/// offered only while a cookbook is selected.
pub fn menu_event_screen(screen: &Screen, operation: MenuOperation) -> (r: Screen)
    requires
        operation is NewCookbookRecipe ==> screen.spec_selected_cookbook() is Some,
    ensures
        operation is NewCookbook ==> r == Screen::CookbookNew,
        operation is NewCookbookRecipe ==> r == Screen::CookbookRecipeNew(
            screen.spec_selected_cookbook().unwrap(),
        ),
{
    match operation {
        MenuOperation::NewCookbook => Screen::CookbookNew,
        MenuOperation::NewCookbookRecipe => {
            let cookbook_id = *screen.selected_cookbook().unwrap();
            Screen::CookbookRecipeNew(cookbook_id)
        },
    }
}

} // verus!
