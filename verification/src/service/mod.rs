pub mod category;
pub mod recipe;

pub use category::CategoryService;
pub use recipe::RecipeService;
