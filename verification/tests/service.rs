use recipes::model::category::{
    CategoryQuery, CategorySearchQuery, CreateCategoryCommand, DeleteCategoryCommand,
};
use recipes::model::recipe::{
    CreateRecipeCommand, DeleteRecipeCommand, Nutrients, RecipeQuery, RecipeSearchQuery,
    UpdateNutrients, UpdateRecipeCommand,
};
use recipes::model::AppError;
use recipes::state::AppState;

fn cat_cmd(name: &str) -> CreateCategoryCommand {
    CreateCategoryCommand { name: name.to_string() }
}

fn recipe_cmd(title: &str, category: &str) -> CreateRecipeCommand {
    CreateRecipeCommand {
        cover: vec![7, 7, 7],
        title: title.to_string(),
        description: format!("about {}", title),
        time_to_cook: 30,
        difficulty: "medium".to_string(),
        servings: 4,
        category: category.to_string(),
        ingredients: vec!["water".to_string(), "salt".to_string()],
        nutrients: Nutrients { proteins: 5, fats: 2500, carbohydrates: 30000, fiber: 2, kcal: 180 },
        guideline: "simmer gently".to_string(),
    }
}

#[test]
fn create_recipe_with_missing_category_fails_and_writes_nothing() {
    let mut state = AppState::new();
    let err = state.recipe_service.create(recipe_cmd("Cake", "no-such-category")).unwrap_err();
    assert_eq!(err, AppError::Validation { category_id: "no-such-category".to_string() });
    assert_eq!(err.message(), "category with id no-such-category not found");
    let all = state.recipe_service.search(RecipeSearchQuery { category_id: None }).unwrap();
    assert_eq!(all.count, 0);
    assert!(all.items.is_empty());
}

#[test]
fn create_recipe_attaches_current_category_name() {
    let mut state = AppState::new();
    let cat = state.recipe_service.category_service.create(cat_cmd("Desserts")).unwrap();
    let rec = state.recipe_service.create(recipe_cmd("Cake", &cat.id)).unwrap();
    assert_eq!(rec.category.id, cat.id);
    assert_eq!(rec.category.name, "Desserts");
    assert_eq!(rec.title, "Cake");
}

#[test]
fn fetch_resolves_the_category() {
    let mut state = AppState::new();
    let cat = state.recipe_service.category_service.create(cat_cmd("Soups")).unwrap();
    let rec = state.recipe_service.create(recipe_cmd("Broth", &cat.id)).unwrap();
    let fetched = state.recipe_service.fetch(RecipeQuery { id: rec.id.clone() }).unwrap();
    assert_eq!(fetched.category.id, cat.id);
    assert_eq!(fetched.category.name, "Soups");
}

#[test]
fn fetch_after_category_deleted_fails() {
    let mut state = AppState::new();
    let cat = state.recipe_service.category_service.create(cat_cmd("Soups")).unwrap();
    let rec = state.recipe_service.create(recipe_cmd("Broth", &cat.id)).unwrap();
    state
        .recipe_service
        .category_service
        .delete(DeleteCategoryCommand { id: cat.id })
        .unwrap();
    let err = state.recipe_service.fetch(RecipeQuery { id: rec.id }).unwrap_err();
    assert_eq!(err, AppError::NotFound);
}

#[test]
fn create_then_fetch_round_trip() {
    let mut state = AppState::new();
    let cat = state.recipe_service.category_service.create(cat_cmd("Desserts")).unwrap();
    let cmd = recipe_cmd("Cake", &cat.id);
    let created = state.recipe_service.create(cmd.clone()).unwrap();
    let fetched = state.recipe_service.fetch(RecipeQuery { id: created.id.clone() }).unwrap();
    assert_eq!(fetched, created);
    assert_eq!(fetched.cover, cmd.cover);
    assert_eq!(fetched.title, cmd.title);
    assert_eq!(fetched.description, cmd.description);
    assert_eq!(fetched.time_to_cook, cmd.time_to_cook);
    assert_eq!(fetched.difficulty, cmd.difficulty);
    assert_eq!(fetched.servings, cmd.servings);
    assert_eq!(fetched.ingredients, cmd.ingredients);
    assert_eq!(fetched.nutrients, cmd.nutrients);
    assert_eq!(fetched.guideline, cmd.guideline);
    assert_eq!(fetched.category.id, cmd.category);
    assert_eq!(fetched.category.name, "Desserts");
}

#[test]
fn search_with_filter_returns_only_that_category() {
    let mut state = AppState::new();
    let desserts = state.recipe_service.category_service.create(cat_cmd("Desserts")).unwrap();
    let soups = state.recipe_service.category_service.create(cat_cmd("Soups")).unwrap();
    let cake = state.recipe_service.create(recipe_cmd("Cake", &desserts.id)).unwrap();
    let _broth = state.recipe_service.create(recipe_cmd("Broth", &soups.id)).unwrap();
    let pie = state.recipe_service.create(recipe_cmd("Pie", &desserts.id)).unwrap();
    let res = state
        .recipe_service
        .search(RecipeSearchQuery { category_id: Some(desserts.id.clone()) })
        .unwrap();
    assert_eq!(res.count, 2);
    assert_eq!(res.items.len(), 2);
    for item in &res.items {
        assert_eq!(item.category.id, desserts.id);
        assert_eq!(item.category.name, "Desserts");
    }
    assert_eq!(res.items[0].id, cake.id);
    assert_eq!(res.items[1].id, pie.id);
}

#[test]
fn search_without_filter_resolves_every_name() {
    let mut state = AppState::new();
    let desserts = state.recipe_service.category_service.create(cat_cmd("Desserts")).unwrap();
    let soups = state.recipe_service.category_service.create(cat_cmd("Soups")).unwrap();
    let cake = state.recipe_service.create(recipe_cmd("Cake", &desserts.id)).unwrap();
    let broth = state.recipe_service.create(recipe_cmd("Broth", &soups.id)).unwrap();
    let res = state.recipe_service.search(RecipeSearchQuery { category_id: None }).unwrap();
    assert_eq!(res.count, 2);
    assert_eq!(res.items, vec![cake, broth]);
    assert_eq!(res.items[0].category.name, "Desserts");
    assert_eq!(res.items[1].category.name, "Soups");
}

#[test]
fn search_fails_when_a_referenced_category_is_gone() {
    let mut state = AppState::new();
    let desserts = state.recipe_service.category_service.create(cat_cmd("Desserts")).unwrap();
    let soups = state.recipe_service.category_service.create(cat_cmd("Soups")).unwrap();
    state.recipe_service.create(recipe_cmd("Cake", &desserts.id)).unwrap();
    state.recipe_service.create(recipe_cmd("Broth", &soups.id)).unwrap();
    state
        .recipe_service
        .category_service
        .delete(DeleteCategoryCommand { id: soups.id })
        .unwrap();
    let err = state
        .recipe_service
        .search(RecipeSearchQuery { category_id: None })
        .unwrap_err();
    assert_eq!(err, AppError::NotFound);
}

#[test]
fn service_update_does_not_reattach_the_name() {
    let mut state = AppState::new();
    let cat = state.recipe_service.category_service.create(cat_cmd("Desserts")).unwrap();
    let rec = state.recipe_service.create(recipe_cmd("Cake", &cat.id)).unwrap();
    let updated = state
        .recipe_service
        .update(UpdateRecipeCommand {
            id: rec.id.clone(),
            cover: None,
            title: Some("Torte".to_string()),
            description: None,
            time_to_cook: None,
            difficulty: None,
            servings: None,
            category: None,
            ingredients: None,
            nutrients: UpdateNutrients {
                proteins: None,
                fats: None,
                carbohydrates: None,
                fiber: None,
                kcal: None,
            },
            guideline: None,
        })
        .unwrap();
    assert_eq!(updated.title, "Torte");
    assert_eq!(updated.category.id, cat.id);
    assert_eq!(updated.category.name, "");
}

#[test]
fn service_delete_passes_through() {
    let mut state = AppState::new();
    let cat = state.recipe_service.category_service.create(cat_cmd("Desserts")).unwrap();
    let rec = state.recipe_service.create(recipe_cmd("Cake", &cat.id)).unwrap();
    let deleted = state
        .recipe_service
        .delete(DeleteRecipeCommand { id: rec.id.clone() })
        .unwrap();
    assert_eq!(deleted.id, rec.id);
    assert_eq!(deleted.category.id, cat.id);
    assert_eq!(deleted.category.name, "");
    let err = state.recipe_service.fetch(RecipeQuery { id: rec.id }).unwrap_err();
    assert_eq!(err, AppError::NotFound);
}

#[test]
fn category_service_forwards_search_filters() {
    let mut state = AppState::new();
    let a = state.recipe_service.category_service.create(cat_cmd("Desserts")).unwrap();
    let _b = state.recipe_service.category_service.create(cat_cmd("Soups")).unwrap();
    let res = state
        .recipe_service
        .category_service
        .search(CategorySearchQuery { ids: Some(vec![a.id.clone(), "ghost-id".to_string()]) })
        .unwrap();
    assert_eq!(res.count, 1);
    assert_eq!(res.items, vec![a]);
}

#[test]
fn desserts_cake_scenario() {
    let mut state = AppState::new();
    let c1 = state
        .recipe_service
        .category_service
        .create(CreateCategoryCommand { name: "Desserts".to_string() })
        .unwrap();
    assert!(!c1.id.is_empty());
    let cake = state.recipe_service.create(recipe_cmd("Cake", &c1.id)).unwrap();
    assert_eq!(cake.category.id, c1.id);
    assert_eq!(cake.category.name, "Desserts");
    assert_eq!(cake.servings, 4);
    let fetched_cat = state
        .recipe_service
        .category_service
        .fetch(CategoryQuery { id: c1.id.clone() })
        .unwrap();
    assert_eq!(fetched_cat.name, "Desserts");
    state
        .recipe_service
        .category_service
        .delete(DeleteCategoryCommand { id: c1.id })
        .unwrap();
    let err = state.recipe_service.fetch(RecipeQuery { id: cake.id }).unwrap_err();
    assert_eq!(err, AppError::NotFound);
}
