pub mod category;
pub mod recipe;

pub use category::{
    Category, CategoryQuery, CategorySearchQuery, CategoryView, CreateCategoryCommand,
    DeleteCategoryCommand, UpdateCategoryCommand,
};
pub use recipe::{
    CreateRecipeCommand, DeleteRecipeCommand, Nutrients, NutrientsView, Recipe, RecipeQuery,
    RecipeSearchQuery, RecipeView, UpdateNutrients, UpdateRecipeCommand,
};

use vstd::prelude::*;
use vstd::string::StringExecFns;

verus! {

/// The outcome of a `search` operation: the matching rows together with how
/// many there are. `count` always equals the number of items.
#[derive(Debug, Clone, PartialEq)]
pub struct SearchResult<T> {
    pub count: i64,
    pub items: Vec<T>,
}

/// The failures a store or a service can report.
///
/// `NotFound` is a row absent from a store. `Validation` is a rejected recipe
/// creation, carrying the category identifier that does not exist. `Store` is
/// a failure of the backing store itself, such as an identifier collision.
#[derive(Debug, Clone, PartialEq)]
pub enum AppError {
    NotFound,
    Validation { category_id: String },
    Store { msg: String },
}

/// The text of a `Validation` failure: it names the missing category id.
pub open spec fn validation_message(category_id: Seq<char>) -> Seq<char> {
    "category with id "@ + category_id + " not found"@
}

impl AppError {
    /// What `message` returns for each failure.
    pub open spec fn message_spec(&self) -> Seq<char> {
        match self {
            AppError::NotFound => "not found"@,
            AppError::Validation { category_id } => validation_message(category_id@),
            AppError::Store { msg } => msg@,
        }
    }

    /// A human-readable description of the failure. A `Validation` failure
    /// names the missing category id.
    pub fn message(&self) -> (r: String)
        ensures
            r@ == self.message_spec(),
    {
        match self {
            AppError::NotFound => String::from_str("not found"),
            AppError::Validation { category_id } => String::from_str("category with id ")
                .concat(category_id.as_str())
                .concat(" not found"),
            AppError::Store { msg } => msg.clone(),
        }
    }
}

} // verus!
