use vstd::prelude::*;

use crate::model::category::CategoryView;
use crate::model::recipe::RecipeView;
use crate::service::category::{self, CategoryService};
use crate::service::recipe::{self, RecipeService};
use crate::store::category::CategoryStore;
use crate::store::recipe::RecipeStore;

verus! {

/// The application's state. The recipe service owns the category service,
/// which owns the category store, so a single owner holds every row;
/// category operations are reached through `recipe_service.category_service`.
pub struct AppState {
    pub recipe_service: RecipeService,
}

impl AppState {
    /// Well-formedness of everything the state owns.
    pub open spec fn wf(self) -> bool {
        self.recipe_service.wf()
    }

    /// A state over empty stores, wired as the services expect: the category
    /// store behind the category service, and both behind the recipe
    /// service.
    pub fn new() -> (s: Self)
        ensures
            s.wf(),
            s.recipe_service.recipes() == Seq::<RecipeView>::empty(),
            s.recipe_service.cats() == Seq::<CategoryView>::empty(),
    {
        let category_storage = CategoryStore::new();
        let category_service = CategoryService::new(category::Config { category_storage });
        let recipe_storage = RecipeStore::new();
        let recipe_service = RecipeService::new(
            recipe::Config { category_service, recipe_storage },
        );
        AppState { recipe_service }
    }
}

} // verus!
