use vstd::prelude::*;

use crate::model::recipe::{
    apply_update, recipe_row, CreateRecipeCommand, DeleteRecipeCommand, Nutrients, Recipe,
    RecipeQuery, RecipeSearchQuery, RecipeView, UpdateRecipeCommand,
};
use crate::model::category::{Category, CategoryView};
use crate::model::{AppError, SearchResult};
use crate::store::{fresh_id, lemma_filter_push, STORE_CAPACITY};
use vstd::pervasive::VecAdditionalExecFns;
use vstd::string::StringExecFns;

verus! {

/// The index of the first recipe in `s` whose id is `id`, or -1 when no
/// recipe carries it.
pub open spec fn find_rec_idx(s: Seq<RecipeView>, id: Seq<char>) -> int
    decreases s.len(),
{
    if s.len() == 0 {
        -1
    } else if s[0].id == id {
        0
    } else {
        let rest = find_rec_idx(s.drop_first(), id);
        if rest == -1 {
            -1
        } else {
            rest + 1
        }
    }
}

/// The first recipe in `s` whose id is `id`, if any.
pub open spec fn find_recipe(s: Seq<RecipeView>, id: Seq<char>) -> Option<RecipeView> {
    if find_rec_idx(s, id) >= 0 {
        Some(s[find_rec_idx(s, id)])
    } else {
        None
    }
}

/// No two recipes in `s` share an id.
pub open spec fn distinct_rec_ids(s: Seq<RecipeView>) -> bool {
    forall|i: int, j: int| 0 <= i < j < s.len() ==> s[i].id != s[j].id
}

/// What `find_rec_idx` returns: a valid index of the first row carrying the
/// id, or -1 exactly when the id occurs nowhere in `s`.
pub proof fn lemma_find_rec_idx(s: Seq<RecipeView>, id: Seq<char>)
    ensures
        -1 <= find_rec_idx(s, id) < s.len(),
        find_rec_idx(s, id) >= 0 ==> s[find_rec_idx(s, id)].id == id,
        forall|j: int| 0 <= j < find_rec_idx(s, id) ==> s[j].id != id,
        find_rec_idx(s, id) == -1 ==> forall|j: int| 0 <= j < s.len() ==> s[j].id != id,
    decreases s.len(),
{
    if s.len() == 0 {
    } else if s[0].id == id {
    } else {
        lemma_find_rec_idx(s.drop_first(), id);
        let rest = find_rec_idx(s.drop_first(), id);
        assert forall|j: int| 0 <= j < find_rec_idx(s, id) implies s[j].id != id by {
            if j > 0 {
                assert(s.drop_first()[j - 1] == s[j]);
            }
        }
        if rest == -1 {
            assert forall|j: int| 0 <= j < s.len() implies s[j].id != id by {
                if j > 0 {
                    assert(s.drop_first()[j - 1] == s[j]);
                }
            }
        } else {
            assert(s.drop_first()[rest] == s[rest + 1]);
        }
    }
}

/// Whether a recipe's recorded category id equals `cid`.
pub open spec fn has_cat_id(cid: Seq<char>) -> spec_fn(RecipeView) -> bool {
    |r: RecipeView| r.category.id == cid
}

/// The rows a recipe search returns: every row when there is no filter, else
/// the rows whose recorded category id equals the filter exactly.
pub open spec fn rec_cat_filter(s: Seq<RecipeView>, category_id: Option<Seq<char>>) -> Seq<
    RecipeView,
> {
    match category_id {
        None => s,
        Some(cid) => s.filter(has_cat_id(cid)),
    }
}

/// The in-memory table of recipe rows. Ids are unique, the category of every
/// row is recorded by id alone (its name is empty at the store level), and
/// the row count stays within `STORE_CAPACITY`.
pub struct RecipeStore {
    rows: Vec<Recipe>,
}

impl View for RecipeStore {
    type V = Seq<RecipeView>;

    closed spec fn view(&self) -> Seq<RecipeView> {
        self.rows.deep_view()
    }
}

impl RecipeStore {
    /// Well-formedness: ids are pairwise distinct, stored category names are
    /// empty, and the table is not over capacity.
    pub open spec fn wf(self) -> bool {
        &&& distinct_rec_ids(self@)
        &&& forall|i: int|
            0 <= i < self@.len() ==> (#[trigger] self@[i]).category.name == Seq::<char>::empty()
        &&& self@.len() <= STORE_CAPACITY
    }

    /// An empty store.
    pub fn new() -> (s: Self)
        ensures
            s.wf(),
            s@ == Seq::<RecipeView>::empty(),
    {
        let s = RecipeStore { rows: Vec::new() };
        proof {
            assert(s@ =~= Seq::<RecipeView>::empty());
        }
        s
    }

    /// Find the position of the row carrying `id`, if any.
    fn find_index(rows: &Vec<Recipe>, id: &String) -> (r: Option<usize>)
        ensures
            match r {
                Some(i) => 0 <= i < rows@.len() && i == find_rec_idx(rows.deep_view(), id@),
                None => find_rec_idx(rows.deep_view(), id@) == -1,
            },
    {
        let ghost s = rows.deep_view();
        let mut i: usize = 0;
        while i < rows.len()
            invariant
                i <= rows@.len(),
                s == rows.deep_view(),
                forall|j: int| 0 <= j < i ==> s[j].id != id@,
            decreases rows@.len() - i,
        {
            if rows[i].id == *id {
                proof {
                    lemma_find_rec_idx(s, id@);
                    assert(s[i as int].id == id@);
                    let k = find_rec_idx(s, id@);
                    if k == -1 {
                        assert(s[i as int].id != id@);
                    } else if k < i {
                        assert(s[k].id != id@);
                    } else if k > i {
                        assert(s[i as int].id != id@);
                    }
                }
                return Some(i);
            }
            i += 1;
        }
        proof {
            lemma_find_rec_idx(s, id@);
            if find_rec_idx(s, id@) >= 0 {
                assert(s[find_rec_idx(s, id@)].id != id@);
            }
        }
        None
    }

    /// Insert the row a create command describes, under a caller-chosen id.
    /// Succeeds exactly when the id is not yet taken and the store is below
    /// capacity; on failure the store is unchanged. The stored row records
    /// the category by id alone.
    pub fn create_with_id(&mut self, id: String, item: CreateRecipeCommand) -> (r: Result<
        Recipe,
        AppError,
    >)
        requires
            old(self).wf(),
        ensures
            final(self).wf(),
            ({
                let s = old(self)@;
                match r {
                    Ok(rec) => {
                        &&& find_rec_idx(s, id@) == -1
                        &&& s.len() < STORE_CAPACITY
                        &&& rec@ == recipe_row(item, id@)
                        &&& final(self)@ == s.push(rec@)
                    },
                    Err(e) => {
                        &&& final(self)@ == s
                        &&& (find_rec_idx(s, id@) >= 0 || s.len() >= STORE_CAPACITY)
                        &&& e is Store
                    },
                }
            }),
    {
        if self.rows.len() as u64 >= STORE_CAPACITY {
            return Err(AppError::Store { msg: String::from_str("store full") });
        }
        match Self::find_index(&self.rows, &id) {
            Some(_) => Err(AppError::Store { msg: String::from_str("duplicate identifier") }),
            None => {
                let ghost s0 = self@;
                let rec = Recipe {
                    id,
                    cover: item.cover,
                    title: item.title,
                    description: item.description,
                    time_to_cook: item.time_to_cook,
                    difficulty: item.difficulty,
                    servings: item.servings,
                    category: Category { id: item.category, name: String::new() },
                    ingredients: item.ingredients,
                    nutrients: item.nutrients,
                    guideline: item.guideline,
                };
                proof {
                    assert(rec@ =~= recipe_row(item, rec.id@));
                }
                let dup = rec.clone();
                self.rows.push(dup);
                proof {
                    assert(self@ =~= s0.push(rec@));
                    lemma_find_rec_idx(s0, rec.id@);
                    assert forall|a: int, b: int| 0 <= a < b < self@.len() implies self@[a].id
                        != self@[b].id by {
                        if b < s0.len() {
                            assert(s0[a].id != s0[b].id);
                        } else {
                            assert(s0[a].id != rec.id@);
                        }
                    }
                }
                Ok(rec)
            },
        }
    }

    /// Insert a row under a freshly drawn id. On success the new row is
    /// appended and returned; the draw is random, so a collision with an
    /// existing id surfaces as a store failure instead. Failure is possible
    /// only when the store is at capacity or some 36-character id already
    /// occurs in it (the drawn id is always 36 characters): on a store below
    /// capacity with no such id — in particular an empty one — success is
    /// owed.
    pub fn create(&mut self, item: CreateRecipeCommand) -> (r: Result<Recipe, AppError>)
        requires
            old(self).wf(),
        ensures
            final(self).wf(),
            ({
                let s = old(self)@;
                match r {
                    Ok(rec) => {
                        &&& find_rec_idx(s, rec@.id) == -1
                        &&& rec@ == recipe_row(item, rec@.id)
                        &&& final(self)@ == s.push(rec@)
                    },
                    Err(e) => {
                        &&& final(self)@ == s
                        &&& e is Store
                        &&& (s.len() >= STORE_CAPACITY || exists|x: Seq<char>|
                            x.len() == 36 && #[trigger] find_rec_idx(s, x) >= 0)
                    },
                }
            }),
    {
        let id = fresh_id();
        let ghost idv = id@;
        let r = self.create_with_id(id, item);
        proof {
            if r is Err && old(self)@.len() < STORE_CAPACITY {
                assert(idv.len() == 36 && find_rec_idx(old(self)@, idv) >= 0);
            }
        }
        r
    }

    /// Look a row up by id. Succeeds exactly when a row carries the id, and
    /// returns that row (category recorded by id alone).
    pub fn fetch(&self, q: RecipeQuery) -> (r: Result<Recipe, AppError>)
        ensures
            ({
                let s = self@;
                match r {
                    Ok(rec) => find_rec_idx(s, q.id@) >= 0 && rec@ == s[find_rec_idx(s, q.id@)],
                    Err(e) => find_rec_idx(s, q.id@) == -1 && e == AppError::NotFound,
                }
            }),
    {
        match Self::find_index(&self.rows, &q.id) {
            Some(i) => Ok(self.rows[i].clone()),
            None => Err(AppError::NotFound),
        }
    }

    /// Apply an update command to the row carrying `cmd.id`. Succeeds exactly
    /// when such a row exists; present fields replace the stored values,
    /// absent fields leave them unchanged, and the updated row is returned.
    pub fn update(&mut self, cmd: UpdateRecipeCommand) -> (r: Result<Recipe, AppError>)
        requires
            old(self).wf(),
        ensures
            final(self).wf(),
            ({
                let s = old(self)@;
                let i = find_rec_idx(s, cmd.id@);
                match r {
                    Ok(rec) => {
                        &&& i >= 0
                        &&& rec@ == apply_update(s[i], cmd)
                        &&& final(self)@ == s.update(i, rec@)
                    },
                    Err(e) => {
                        &&& i == -1
                        &&& e == AppError::NotFound
                        &&& final(self)@ == s
                    },
                }
            }),
    {
        match Self::find_index(&self.rows, &cmd.id) {
            Some(i) => {
                let ghost s0 = self@;
                let row = self.rows[i].clone();
                let new_row = Recipe {
                    id: row.id,
                    cover: match &cmd.cover {
                        Some(v) => v.clone(),
                        None => row.cover,
                    },
                    title: match &cmd.title {
                        Some(v) => v.clone(),
                        None => row.title,
                    },
                    description: match &cmd.description {
                        Some(v) => v.clone(),
                        None => row.description,
                    },
                    time_to_cook: match cmd.time_to_cook {
                        Some(v) => v,
                        None => row.time_to_cook,
                    },
                    difficulty: match &cmd.difficulty {
                        Some(v) => v.clone(),
                        None => row.difficulty,
                    },
                    servings: match cmd.servings {
                        Some(v) => v,
                        None => row.servings,
                    },
                    category: match &cmd.category {
                        Some(v) => Category { id: v.clone(), name: row.category.name },
                        None => row.category,
                    },
                    ingredients: match &cmd.ingredients {
                        Some(v) => v.clone(),
                        None => row.ingredients,
                    },
                    nutrients: Nutrients {
                        proteins: match cmd.nutrients.proteins {
                            Some(v) => v,
                            None => row.nutrients.proteins,
                        },
                        fats: match cmd.nutrients.fats {
                            Some(v) => v,
                            None => row.nutrients.fats,
                        },
                        carbohydrates: match cmd.nutrients.carbohydrates {
                            Some(v) => v,
                            None => row.nutrients.carbohydrates,
                        },
                        fiber: match cmd.nutrients.fiber {
                            Some(v) => v,
                            None => row.nutrients.fiber,
                        },
                        kcal: match cmd.nutrients.kcal {
                            Some(v) => v,
                            None => row.nutrients.kcal,
                        },
                    },
                    guideline: match &cmd.guideline {
                        Some(v) => v.clone(),
                        None => row.guideline,
                    },
                };
                proof {
                    assert(new_row@ =~= apply_update(s0[i as int], cmd));
                }
                let out = new_row.clone();
                self.rows.set(i, new_row);
                proof {
                    assert(self@ =~= s0.update(i as int, out@));
                    lemma_find_rec_idx(s0, cmd.id@);
                    assert(s0[i as int].id == cmd.id@);
                    assert forall|a: int, b: int| 0 <= a < b < self@.len() implies self@[a].id
                        != self@[b].id by {
                        assert(s0[a].id != s0[b].id);
                    }
                }
                Ok(out)
            },
            None => Err(AppError::NotFound),
        }
    }

    /// Remove the row carrying `cmd.id`. Succeeds exactly when such a row
    /// exists, and returns the removed row's prior value.
    pub fn delete(&mut self, cmd: DeleteRecipeCommand) -> (r: Result<Recipe, AppError>)
        requires
            old(self).wf(),
        ensures
            final(self).wf(),
            ({
                let s = old(self)@;
                let i = find_rec_idx(s, cmd.id@);
                match r {
                    Ok(rec) => {
                        &&& i >= 0
                        &&& rec@ == s[i]
                        &&& final(self)@ == s.remove(i)
                    },
                    Err(e) => {
                        &&& i == -1
                        &&& e == AppError::NotFound
                        &&& final(self)@ == s
                    },
                }
            }),
    {
        match Self::find_index(&self.rows, &cmd.id) {
            Some(i) => {
                let ghost s0 = self@;
                let rec = self.rows.remove(i);
                proof {
                    assert(self@ =~= s0.remove(i as int));
                    assert forall|a: int, b: int| 0 <= a < b < self@.len() implies self@[a].id
                        != self@[b].id by {
                        let a0 = if a < i {
                            a
                        } else {
                            a + 1
                        };
                        let b0 = if b < i {
                            b
                        } else {
                            b + 1
                        };
                        assert(self@[a] == s0[a0]);
                        assert(self@[b] == s0[b0]);
                        assert(s0[a0].id != s0[b0].id);
                    }
                }
                Ok(rec)
            },
            None => Err(AppError::NotFound),
        }
    }

    /// List rows. With no filter every row is returned; with a filter, the
    /// rows whose recorded category id equals it, in store order. `count` is
    /// the number of rows returned.
    pub fn search(&self, q: RecipeSearchQuery) -> (r: Result<SearchResult<Recipe>, AppError>)
        requires
            self.wf(),
        ensures
            r matches Ok(res) && res.items.deep_view() == rec_cat_filter(
                self@,
                q.category_id.deep_view(),
            ) && res.count == rec_cat_filter(self@, q.category_id.deep_view()).len(),
    {
        match &q.category_id {
            None => {
                let items = self.clone_rows();
                let count = items.len() as i64;
                Ok(SearchResult { count, items })
            },
            Some(cid) => {
                let ghost pred = has_cat_id(cid@);
                let mut items: Vec<Recipe> = Vec::new();
                let mut i: usize = 0;
                proof {
                    assert(items.deep_view() =~= self@.subrange(0, 0).filter(pred));
                }
                while i < self.rows.len()
                    invariant
                        i <= self.rows@.len(),
                        self@ == self.rows.deep_view(),
                        self@.len() == self.rows@.len(),
                        items.deep_view() == self@.subrange(0, i as int).filter(pred),
                        pred == has_cat_id(cid@),
                        items@.len() <= i,
                    decreases self.rows@.len() - i,
                {
                    let ghost pre = self@.subrange(0, i as int);
                    let ghost items0 = items.deep_view();
                    let keep = self.rows[i].category.id == *cid;
                    if keep {
                        items.push(self.rows[i].clone());
                        proof {
                            assert(items.deep_view() =~= items0.push(self@[i as int]));
                        }
                    }
                    proof {
                        assert(self@.subrange(0, i + 1) =~= pre.push(self@[i as int]));
                        lemma_filter_push(pre, pred, self@[i as int]);
                        assert(pred(self@[i as int]) == keep);
                    }
                    i += 1;
                }
                proof {
                    assert(self@.subrange(0, self@.len() as int) =~= self@);
                    assert(q.category_id.deep_view() == Some(cid@));
                }
                let count = items.len() as i64;
                Ok(SearchResult { count, items })
            },
        }
    }

    /// A copy of every row, in store order.
    fn clone_rows(&self) -> (items: Vec<Recipe>)
        ensures
            items.deep_view() == self@,
            items@.len() == self@.len(),
    {
        let mut items: Vec<Recipe> = Vec::new();
        let mut i: usize = 0;
        proof {
            assert(items.deep_view() =~= self@.subrange(0, 0));
        }
        while i < self.rows.len()
            invariant
                i <= self.rows@.len(),
                self@ == self.rows.deep_view(),
                self@.len() == self.rows@.len(),
                items.deep_view() == self@.subrange(0, i as int),
                items@.len() == i,
            decreases self.rows@.len() - i,
        {
            let ghost items0 = items.deep_view();
            items.push(self.rows[i].clone());
            proof {
                assert(items.deep_view() =~= items0.push(self@[i as int]));
                assert(self@.subrange(0, i + 1) =~= self@.subrange(0, i as int).push(
                    self@[i as int],
                ));
            }
            i += 1;
        }
        proof {
            assert(self@.subrange(0, self@.len() as int) =~= self@);
        }
        items
    }
}

} // verus!
