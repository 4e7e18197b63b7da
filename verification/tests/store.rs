use recipes::model::category::{
    CategoryQuery, CategorySearchQuery, CreateCategoryCommand, DeleteCategoryCommand,
    UpdateCategoryCommand,
};
use recipes::model::recipe::{
    CreateRecipeCommand, DeleteRecipeCommand, Nutrients, RecipeQuery, RecipeSearchQuery,
    UpdateNutrients, UpdateRecipeCommand,
};
use recipes::model::AppError;
use recipes::store::category::CategoryStore;
use recipes::store::recipe::RecipeStore;

fn cat_cmd(name: &str) -> CreateCategoryCommand {
    CreateCategoryCommand { name: name.to_string() }
}

fn recipe_cmd(title: &str, category: &str) -> CreateRecipeCommand {
    CreateRecipeCommand {
        cover: vec![1, 2, 3],
        title: title.to_string(),
        description: format!("about {}", title),
        time_to_cook: 45,
        difficulty: "easy".to_string(),
        servings: 4,
        category: category.to_string(),
        ingredients: vec!["flour".to_string(), "eggs".to_string()],
        nutrients: Nutrients { proteins: 12, fats: 8500, carbohydrates: 56000, fiber: 3, kcal: 420 },
        guideline: "mix and bake".to_string(),
    }
}

fn no_nutrient_changes() -> UpdateNutrients {
    UpdateNutrients { proteins: None, fats: None, carbohydrates: None, fiber: None, kcal: None }
}

#[test]
fn category_create_assigns_fresh_unique_ids() {
    let mut store = CategoryStore::new();
    let a = store.create(cat_cmd("Desserts")).unwrap();
    let b = store.create(cat_cmd("Soups")).unwrap();
    assert_eq!(a.id.len(), 36);
    assert_eq!(b.id.len(), 36);
    assert_ne!(a.id, b.id);
    assert_eq!(a.name, "Desserts");
    assert_eq!(b.name, "Soups");
}

#[test]
fn category_fetch_returns_created_row() {
    let mut store = CategoryStore::new();
    let a = store.create(cat_cmd("Desserts")).unwrap();
    let fetched = store.fetch(CategoryQuery { id: a.id.clone() }).unwrap();
    assert_eq!(fetched, a);
}

#[test]
fn category_fetch_missing_is_not_found() {
    let store = CategoryStore::new();
    let err = store.fetch(CategoryQuery { id: "absent".to_string() }).unwrap_err();
    assert_eq!(err, AppError::NotFound);
}

#[test]
fn category_update_renames_in_place() {
    let mut store = CategoryStore::new();
    let a = store.create(cat_cmd("Deserts")).unwrap();
    let renamed = store
        .update(UpdateCategoryCommand { id: a.id.clone(), name: "Desserts".to_string() })
        .unwrap();
    assert_eq!(renamed.id, a.id);
    assert_eq!(renamed.name, "Desserts");
    let fetched = store.fetch(CategoryQuery { id: a.id.clone() }).unwrap();
    assert_eq!(fetched.name, "Desserts");
}

#[test]
fn category_update_missing_is_not_found() {
    let mut store = CategoryStore::new();
    let err = store
        .update(UpdateCategoryCommand { id: "absent".to_string(), name: "x".to_string() })
        .unwrap_err();
    assert_eq!(err, AppError::NotFound);
}

#[test]
fn category_delete_returns_prior_value_and_removes() {
    let mut store = CategoryStore::new();
    let a = store.create(cat_cmd("Desserts")).unwrap();
    let deleted = store.delete(DeleteCategoryCommand { id: a.id.clone() }).unwrap();
    assert_eq!(deleted, a);
    let err = store.fetch(CategoryQuery { id: a.id.clone() }).unwrap_err();
    assert_eq!(err, AppError::NotFound);
    let again = store.delete(DeleteCategoryCommand { id: a.id }).unwrap_err();
    assert_eq!(again, AppError::NotFound);
}

#[test]
fn category_create_with_id_rejects_duplicates() {
    let mut store = CategoryStore::new();
    store.create_with_id("c1".to_string(), "Desserts".to_string()).unwrap();
    let err = store.create_with_id("c1".to_string(), "Soups".to_string()).unwrap_err();
    assert!(matches!(err, AppError::Store { .. }));
    let all = store.search(CategorySearchQuery { ids: None }).unwrap();
    assert_eq!(all.count, 1);
}

#[test]
fn category_search_without_filter_returns_all_in_order() {
    let mut store = CategoryStore::new();
    let a = store.create(cat_cmd("Desserts")).unwrap();
    let b = store.create(cat_cmd("Soups")).unwrap();
    let res = store.search(CategorySearchQuery { ids: None }).unwrap();
    assert_eq!(res.count, 2);
    assert_eq!(res.items, vec![a, b]);
}

#[test]
fn category_search_drops_unmatched_filter_ids() {
    let mut store = CategoryStore::new();
    let a = store.create(cat_cmd("Desserts")).unwrap();
    let _b = store.create(cat_cmd("Soups")).unwrap();
    let c = store.create(cat_cmd("Salads")).unwrap();
    let res = store
        .search(CategorySearchQuery {
            ids: Some(vec![a.id.clone(), "no-such-id".to_string(), c.id.clone()]),
        })
        .unwrap();
    assert_eq!(res.count, 2);
    assert_eq!(res.items, vec![a, c]);
}

#[test]
fn validation_message_names_the_missing_category() {
    let err = AppError::Validation { category_id: "c7".to_string() };
    assert_eq!(err.message(), "category with id c7 not found");
}

#[test]
fn recipe_store_create_keeps_category_id_only() {
    let mut store = RecipeStore::new();
    let rec = store.create(recipe_cmd("Cake", "c1")).unwrap();
    assert_eq!(rec.id.len(), 36);
    assert_eq!(rec.category.id, "c1");
    assert_eq!(rec.category.name, "");
    assert_eq!(rec.title, "Cake");
    let fetched = store.fetch(RecipeQuery { id: rec.id.clone() }).unwrap();
    assert_eq!(fetched, rec);
}

#[test]
fn recipe_store_update_applies_present_fields_only() {
    let mut store = RecipeStore::new();
    let rec = store.create(recipe_cmd("Cake", "c1")).unwrap();
    let updated = store
        .update(UpdateRecipeCommand {
            id: rec.id.clone(),
            cover: None,
            title: Some("Chocolate Cake".to_string()),
            description: None,
            time_to_cook: None,
            difficulty: None,
            servings: Some(8),
            category: None,
            ingredients: None,
            nutrients: UpdateNutrients { fats: Some(9000), ..no_nutrient_changes() },
            guideline: None,
        })
        .unwrap();
    assert_eq!(updated.id, rec.id);
    assert_eq!(updated.title, "Chocolate Cake");
    assert_eq!(updated.servings, 8);
    assert_eq!(updated.nutrients.fats, 9000);
    assert_eq!(updated.nutrients.proteins, rec.nutrients.proteins);
    assert_eq!(updated.nutrients.kcal, rec.nutrients.kcal);
    assert_eq!(updated.description, rec.description);
    assert_eq!(updated.cover, rec.cover);
    assert_eq!(updated.ingredients, rec.ingredients);
    assert_eq!(updated.category, rec.category);
    let fetched = store.fetch(RecipeQuery { id: rec.id }).unwrap();
    assert_eq!(fetched, updated);
}

#[test]
fn recipe_store_update_missing_is_not_found() {
    let mut store = RecipeStore::new();
    let err = store
        .update(UpdateRecipeCommand {
            id: "absent".to_string(),
            cover: None,
            title: None,
            description: None,
            time_to_cook: None,
            difficulty: None,
            servings: None,
            category: None,
            ingredients: None,
            nutrients: no_nutrient_changes(),
            guideline: None,
        })
        .unwrap_err();
    assert_eq!(err, AppError::NotFound);
}

#[test]
fn recipe_store_delete_returns_prior_value() {
    let mut store = RecipeStore::new();
    let rec = store.create(recipe_cmd("Cake", "c1")).unwrap();
    let deleted = store.delete(DeleteRecipeCommand { id: rec.id.clone() }).unwrap();
    assert_eq!(deleted, rec);
    let err = store.fetch(RecipeQuery { id: rec.id }).unwrap_err();
    assert_eq!(err, AppError::NotFound);
}

#[test]
fn recipe_store_search_filters_by_exact_category_id() {
    let mut store = RecipeStore::new();
    let cake = store.create(recipe_cmd("Cake", "c1")).unwrap();
    let soup = store.create(recipe_cmd("Soup", "c2")).unwrap();
    let pie = store.create(recipe_cmd("Pie", "c1")).unwrap();
    let filtered = store
        .search(RecipeSearchQuery { category_id: Some("c1".to_string()) })
        .unwrap();
    assert_eq!(filtered.count, 2);
    assert_eq!(filtered.items, vec![cake.clone(), pie.clone()]);
    let all = store.search(RecipeSearchQuery { category_id: None }).unwrap();
    assert_eq!(all.count, 3);
    assert_eq!(all.items, vec![cake, soup, pie]);
}
