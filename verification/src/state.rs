//! The replicated state of a cookbook and the operations that change it.

pub mod lww;
pub mod recipe;

pub use lww::Lww;
pub use recipe::{Recipe, RecipeOp};
pub mod recipes;

pub use recipes::{RecipeMap, RecipeMapModel, RecipeMapOp};
pub mod recipes_law;
pub mod cookbook;

pub use cookbook::{Cookbook, CookbookId, CookbookModel, CookbookOp, RecipeId};
