use vstd::prelude::*;

use crate::model::category::{Category, CategoryView};

verus! {

/// Nutritional facts of a recipe. All amounts are integers; fractional
/// quantities such as fat or carbohydrate content are carried in a fixed-point
/// unit of the caller's choice (for example milligrams instead of fractional
/// grams), so the whole record stays in integer arithmetic.
#[derive(Debug, Clone, Copy, PartialEq, Eq)]
pub struct Nutrients {
    pub proteins: i64,
    pub fats: i64,
    pub carbohydrates: i64,
    pub fiber: i64,
    pub kcal: i64,
}

/// The mathematical value of a `Nutrients` record.
#[verifier::ext_equal]
pub struct NutrientsView {
    pub proteins: int,
    pub fats: int,
    pub carbohydrates: int,
    pub fiber: int,
    pub kcal: int,
}

impl View for Nutrients {
    type V = NutrientsView;

    open spec fn view(&self) -> NutrientsView {
        NutrientsView {
            proteins: self.proteins as int,
            fats: self.fats as int,
            carbohydrates: self.carbohydrates as int,
            fiber: self.fiber as int,
            kcal: self.kcal as int,
        }
    }
}

impl DeepView for Nutrients {
    type V = NutrientsView;

    open spec fn deep_view(&self) -> NutrientsView {
        self.view()
    }
}

/// A recipe row. The store keeps only the category id; `category.name` is
/// filled in by the recipe service when it resolves the reference.
#[derive(Debug, PartialEq)]
pub struct Recipe {
    pub id: String,
    pub cover: Vec<u8>,
    pub title: String,
    pub description: String,
    pub time_to_cook: i64,
    pub difficulty: String,
    pub servings: i64,
    pub category: Category,
    pub ingredients: Vec<String>,
    pub nutrients: Nutrients,
    pub guideline: String,
}

/// The mathematical value of a `Recipe`.
#[verifier::ext_equal]
pub struct RecipeView {
    pub id: Seq<char>,
    pub cover: Seq<u8>,
    pub title: Seq<char>,
    pub description: Seq<char>,
    pub time_to_cook: int,
    pub difficulty: Seq<char>,
    pub servings: int,
    pub category: CategoryView,
    pub ingredients: Seq<Seq<char>>,
    pub nutrients: NutrientsView,
    pub guideline: Seq<char>,
}

impl View for Recipe {
    type V = RecipeView;

    open spec fn view(&self) -> RecipeView {
        RecipeView {
            id: self.id@,
            cover: self.cover.deep_view(),
            title: self.title@,
            description: self.description@,
            time_to_cook: self.time_to_cook as int,
            difficulty: self.difficulty@,
            servings: self.servings as int,
            category: self.category@,
            ingredients: self.ingredients.deep_view(),
            nutrients: self.nutrients@,
            guideline: self.guideline@,
        }
    }
}

impl DeepView for Recipe {
    type V = RecipeView;

    open spec fn deep_view(&self) -> RecipeView {
        self.view()
    }
}

impl Clone for Recipe {
    fn clone(&self) -> (res: Self)
        ensures
            res@ == self@,
    {
        let cover = self.cover.clone();
        let ingredients = self.ingredients.clone();
        proof {
            assert(cover@ =~= self.cover@);
            assert(ingredients@ =~= self.ingredients@);
            assert(cover.deep_view() =~= self.cover.deep_view());
            assert(ingredients.deep_view() =~= self.ingredients.deep_view());
        }
        let res = Recipe {
            id: self.id.clone(),
            cover,
            title: self.title.clone(),
            description: self.description.clone(),
            time_to_cook: self.time_to_cook,
            difficulty: self.difficulty.clone(),
            servings: self.servings,
            category: self.category.clone(),
            ingredients,
            nutrients: self.nutrients,
            guideline: self.guideline.clone(),
        };
        proof {
            assert(res@ =~= self@);
        }
        res
    }
}

/// Ask for a new recipe; the store assigns the id. `category` is the id of
/// the category the recipe belongs to, and must reference an existing
/// category at creation time.
#[derive(Debug, Clone, PartialEq)]
pub struct CreateRecipeCommand {
    pub cover: Vec<u8>,
    pub title: String,
    pub description: String,
    pub time_to_cook: i64,
    pub difficulty: String,
    pub servings: i64,
    pub category: String,
    pub ingredients: Vec<String>,
    pub nutrients: Nutrients,
    pub guideline: String,
}

/// Change some fields of the recipe with the given id. An absent field means
/// "leave unchanged"; a present field is applied as given, even when empty.
#[derive(Debug, Clone, PartialEq)]
pub struct UpdateRecipeCommand {
    pub id: String,
    pub cover: Option<Vec<u8>>,
    pub title: Option<String>,
    pub description: Option<String>,
    pub time_to_cook: Option<i64>,
    pub difficulty: Option<String>,
    pub servings: Option<i64>,
    pub category: Option<String>,
    pub ingredients: Option<Vec<String>>,
    pub nutrients: UpdateNutrients,
    pub guideline: Option<String>,
}

/// Per-field optional changes to a `Nutrients` record, independent of the
/// optionality of the other fields of the parent update command.
#[derive(Debug, Clone, PartialEq)]
pub struct UpdateNutrients {
    pub proteins: Option<i64>,
    pub fats: Option<i64>,
    pub carbohydrates: Option<i64>,
    pub fiber: Option<i64>,
    pub kcal: Option<i64>,
}

/// Remove the recipe with the given id.
#[derive(Debug, Clone, PartialEq)]
pub struct DeleteRecipeCommand {
    pub id: String,
}

/// Look one recipe up by id.
#[derive(Debug, Clone, PartialEq)]
pub struct RecipeQuery {
    pub id: String,
}

/// Select recipes: no filter returns every row, a filter returns the rows
/// whose category id equals it exactly.
#[derive(Debug, Clone, PartialEq)]
pub struct RecipeSearchQuery {
    pub category_id: Option<String>,
}

/// The stored row that a create command and a store-assigned id produce. The
/// category is recorded by id alone: its name stays empty at the store level.
pub open spec fn recipe_row(cmd: CreateRecipeCommand, id: Seq<char>) -> RecipeView {
    RecipeView {
        id: id,
        cover: cmd.cover.deep_view(),
        title: cmd.title@,
        description: cmd.description@,
        time_to_cook: cmd.time_to_cook as int,
        difficulty: cmd.difficulty@,
        servings: cmd.servings as int,
        category: CategoryView { id: cmd.category@, name: Seq::empty() },
        ingredients: cmd.ingredients.deep_view(),
        nutrients: cmd.nutrients@,
        guideline: cmd.guideline@,
    }
}

/// A nutrients record with an update applied: present fields replace the old
/// values, absent fields leave them unchanged.
pub open spec fn apply_nutrients(n: NutrientsView, u: UpdateNutrients) -> NutrientsView {
    NutrientsView {
        proteins: match u.proteins {
            Some(v) => v as int,
            None => n.proteins,
        },
        fats: match u.fats {
            Some(v) => v as int,
            None => n.fats,
        },
        carbohydrates: match u.carbohydrates {
            Some(v) => v as int,
            None => n.carbohydrates,
        },
        fiber: match u.fiber {
            Some(v) => v as int,
            None => n.fiber,
        },
        kcal: match u.kcal {
            Some(v) => v as int,
            None => n.kcal,
        },
    }
}

/// A stored recipe row with an update applied: present fields replace the old
/// values, absent fields leave them unchanged. The row's id never changes,
/// and a category change replaces the recorded id while the name stays as
/// stored.
pub open spec fn apply_update(r: RecipeView, u: UpdateRecipeCommand) -> RecipeView {
    RecipeView {
        id: r.id,
        cover: match u.cover {
            Some(v) => v.deep_view(),
            None => r.cover,
        },
        title: match u.title {
            Some(v) => v@,
            None => r.title,
        },
        description: match u.description {
            Some(v) => v@,
            None => r.description,
        },
        time_to_cook: match u.time_to_cook {
            Some(v) => v as int,
            None => r.time_to_cook,
        },
        difficulty: match u.difficulty {
            Some(v) => v@,
            None => r.difficulty,
        },
        servings: match u.servings {
            Some(v) => v as int,
            None => r.servings,
        },
        category: match u.category {
            Some(v) => CategoryView { id: v@, name: r.category.name },
            None => r.category,
        },
        ingredients: match u.ingredients {
            Some(v) => v.deep_view(),
            None => r.ingredients,
        },
        nutrients: apply_nutrients(r.nutrients, u.nutrients),
        guideline: match u.guideline {
            Some(v) => v@,
            None => r.guideline,
        },
    }
}

/// A recipe as the service returns it: the stored row with its category
/// reference replaced by a fully populated category.
pub open spec fn attach(r: RecipeView, c: CategoryView) -> RecipeView {
    RecipeView { category: c, ..r }
}

} // verus!
