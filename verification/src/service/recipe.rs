use vstd::prelude::*;

use crate::model::category::{Category, CategoryQuery, CategorySearchQuery, CategoryView};
use crate::model::recipe::{
    apply_update, attach, recipe_row, CreateRecipeCommand, DeleteRecipeCommand, Recipe,
    RecipeQuery, RecipeSearchQuery, RecipeView, UpdateRecipeCommand,
};
use crate::model::{AppError, SearchResult};
use crate::service::category::CategoryService;
use crate::store::category::{distinct_cat_ids, find_cat, find_cat_idx, lemma_find_cat_idx, wanted_pred};
use crate::store::recipe::{find_rec_idx, find_recipe, has_cat_id, lemma_find_rec_idx, rec_cat_filter, RecipeStore};
use crate::store::STORE_CAPACITY;

verus! {

/// What a recipe service is built from.
pub struct Config {
    pub category_service: CategoryService,
    pub recipe_storage: RecipeStore,
}

/// The composition core: orchestrates the recipe store and the category
/// service so that recipes handed out on create, fetch and search carry a
/// fully populated category, and so that a create never writes a recipe
/// whose category does not exist.
pub struct RecipeService {
    pub category_service: CategoryService,
    pub recipe_storage: RecipeStore,
}

/// Every recipe in `rs` references a category that occurs in `cats`.
pub open spec fn resolve_all(rs: Seq<RecipeView>, cats: Seq<CategoryView>) -> bool {
    forall|i: int| 0 <= i < rs.len() ==> find_cat(cats, (#[trigger] rs[i]).category.id) is Some
}

/// The rows of `rs`, each with its category reference replaced by the full
/// category found in `cats`. Meaningful when `resolve_all(rs, cats)` holds.
pub open spec fn attach_names(rs: Seq<RecipeView>, cats: Seq<CategoryView>) -> Seq<RecipeView> {
    rs.map_values(|r: RecipeView| attach(r, find_cat(cats, r.category.id).unwrap()))
}

/// What fetching the recipe `id` returns when the recipe rows are `rs` and
/// the category rows are `cats`: the stored row with its category attached,
/// or nothing when either the row or its category is missing.
pub open spec fn fetched(rs: Seq<RecipeView>, cats: Seq<CategoryView>, id: Seq<char>) -> Option<
    RecipeView,
> {
    match find_recipe(rs, id) {
        None => None,
        Some(row) => match find_cat(cats, row.category.id) {
            None => None,
            Some(c) => Some(attach(row, c)),
        },
    }
}

/// Law: when a search with category filter `cid` succeeds, every recipe it
/// returns carries exactly that category id.
pub proof fn lemma_search_filters_by_category(
    rs: Seq<RecipeView>,
    cats: Seq<CategoryView>,
    cid: Seq<char>,
)
    requires
        resolve_all(rec_cat_filter(rs, Some(cid)), cats),
    ensures
        forall|i: int|
            0 <= i < attach_names(rec_cat_filter(rs, Some(cid)), cats).len()
                ==> (#[trigger] attach_names(rec_cat_filter(rs, Some(cid)), cats)[i]).category.id
                == cid,
{
    let rows = rec_cat_filter(rs, Some(cid));
    let results = attach_names(rows, cats);
    assert forall|i: int| 0 <= i < results.len() implies (#[trigger] results[i]).category.id
        == cid by {
        rs.lemma_filter_pred(has_cat_id(cid), i);
        lemma_find_cat_idx(cats, rows[i].category.id);
        assert(results[i] == attach(rows[i], find_cat(cats, rows[i].category.id).unwrap()));
    }
}

/// Law: with no category filter, a search covers every recipe, in store
/// order; each result is the stored row with its category attached.
pub proof fn lemma_search_no_filter(rs: Seq<RecipeView>, cats: Seq<CategoryView>)
    ensures
        attach_names(rec_cat_filter(rs, None), cats).len() == rs.len(),
        forall|i: int|
            0 <= i < rs.len() ==> attach_names(rec_cat_filter(rs, None), cats)[i] == attach(
                (#[trigger] rs[i]),
                find_cat(cats, rs[i].category.id).unwrap(),
            ),
{
}

/// Law: a fetch right after a successful create returns exactly what the
/// create returned: the command's field values under the store-assigned id,
/// with the full category attached in place of the bare category id.
pub proof fn lemma_create_then_fetch(
    rs: Seq<RecipeView>,
    cats: Seq<CategoryView>,
    item: CreateRecipeCommand,
    id: Seq<char>,
)
    requires
        find_cat(cats, item.category@) is Some,
        find_rec_idx(rs, id) == -1,
    ensures
        fetched(rs.push(recipe_row(item, id)), cats, id) == Some(
            attach(recipe_row(item, id), find_cat(cats, item.category@).unwrap()),
        ),
{
    let row = recipe_row(item, id);
    let s2 = rs.push(row);
    lemma_find_rec_idx(rs, id);
    lemma_find_rec_idx(s2, id);
    let idx = find_rec_idx(s2, id);
    if idx == -1 {
        assert(s2[rs.len() as int].id != id);
    }
    assert(s2[idx].id == id);
    if idx < rs.len() {
        assert(rs[idx] == s2[idx]);
    }
    assert(find_recipe(s2, id) == Some(row));
}

/// Look a category up by id in a list of rows, returning a copy of the
/// first match.
fn find_by_id(rows: &Vec<Category>, id: &String) -> (r: Option<Category>)
    ensures
        match r {
            Some(c) => find_cat(rows.deep_view(), id@) == Some(c@),
            None => find_cat(rows.deep_view(), id@) is None,
        },
{
    let ghost s = rows.deep_view();
    let mut i: usize = 0;
    while i < rows.len()
        invariant
            i <= rows@.len(),
            s == rows.deep_view(),
            forall|j: int| 0 <= j < i ==> (#[trigger] s[j]).id != id@,
        decreases rows@.len() - i,
    {
        if rows[i].id == *id {
            let c = rows[i].clone();
            proof {
                lemma_find_cat_idx(s, id@);
                assert(s[i as int] == c@ && s[i as int].id == id@);
                let k = find_cat_idx(s, id@);
                if k == -1 {
                    assert(s[i as int].id != id@);
                } else if k < i {
                    assert(s[k].id != id@);
                } else if k > i {
                    assert(s[i as int].id != id@);
                }
            }
            return Some(c);
        }
        i += 1;
    }
    proof {
        lemma_find_cat_idx(s, id@);
        if find_cat_idx(s, id@) >= 0 {
            assert(s[find_cat_idx(s, id@)].id != id@);
        }
    }
    None
}

/// The rewrite pass of a recipe search: attach to every recipe the first
/// category in `cats` that carries its recorded category id. Fails with
/// `NotFound` exactly when some recipe references an id that occurs nowhere
/// in `cats`.
pub fn resolve_names(items: Vec<Recipe>, cats: &Vec<Category>) -> (r: Result<Vec<Recipe>, AppError>)
    ensures
        ({
            let rs = items.deep_view();
            let cs = cats.deep_view();
            match r {
                Ok(out) => {
                    &&& resolve_all(rs, cs)
                    &&& out.deep_view() == attach_names(rs, cs)
                },
                Err(e) => {
                    &&& !resolve_all(rs, cs)
                    &&& e == AppError::NotFound
                },
            }
        }),
{
    let ghost rs = items.deep_view();
    let ghost cs = cats.deep_view();
    let mut out: Vec<Recipe> = Vec::new();
    let mut i: usize = 0;
    proof {
        assert(out.deep_view() =~= Seq::<RecipeView>::empty());
    }
    while i < items.len()
        invariant
            i <= items@.len(),
            rs == items.deep_view(),
            rs.len() == items@.len(),
            cs == cats.deep_view(),
            out.deep_view().len() == i,
            forall|j: int| 0 <= j < i ==> find_cat(cs, (#[trigger] rs[j]).category.id) is Some,
            forall|j: int|
                0 <= j < i ==> (#[trigger] out.deep_view()[j]) == attach(
                    rs[j],
                    find_cat(cs, rs[j].category.id).unwrap(),
                ),
        decreases items@.len() - i,
    {
        let ghost out0 = out.deep_view();
        match find_by_id(cats, &items[i].category.id) {
            None => {
                proof {
                    assert(!resolve_all(rs, cs)) by {
                        assert(0 <= i < rs.len() && find_cat(
                            cs,
                            rs[i as int].category.id,
                        ) is None);
                    }
                }
                return Err(AppError::NotFound);
            },
            Some(c) => {
                let mut rec = items[i].clone();
                rec.category = c;
                out.push(rec);
                proof {
                    assert(out.deep_view() =~= out0.push(
                        attach(rs[i as int], find_cat(cs, rs[i as int].category.id).unwrap()),
                    ));
                }
            },
        }
        i += 1;
    }
    proof {
        assert(out.deep_view() =~= attach_names(rs, cs));
    }
    Ok(out)
}

/// When `found` is `cats` filtered by an id list that covers every category
/// id referenced in `rows`, and category ids are unique, lookups in the
/// filtered list agree with lookups in `cats`.
proof fn lemma_found_agrees(rows: Seq<RecipeView>, cats: Seq<CategoryView>, idsv: Seq<Seq<char>>)
    requires
        distinct_cat_ids(cats),
        forall|j: int| 0 <= j < rows.len() ==> idsv.contains((#[trigger] rows[j]).category.id),
    ensures
        forall|j: int|
            0 <= j < rows.len() ==> find_cat(
                cats.filter(wanted_pred(idsv)),
                (#[trigger] rows[j]).category.id,
            ) == find_cat(cats, rows[j].category.id),
{
    let foundv = cats.filter(wanted_pred(idsv));
    assert forall|j: int| 0 <= j < rows.len() implies find_cat(
        foundv,
        (#[trigger] rows[j]).category.id,
    ) == find_cat(cats, rows[j].category.id) by {
        let rid = rows[j].category.id;
        lemma_find_cat_idx(cats, rid);
        lemma_find_cat_idx(foundv, rid);
        let ic = find_cat_idx(cats, rid);
        let if_ = find_cat_idx(foundv, rid);
        if ic == -1 {
            if if_ >= 0 {
                assert(foundv.contains(foundv[if_]));
                cats.lemma_filter_contains_rev(wanted_pred(idsv), foundv[if_]);
                let k = choose|k: int| 0 <= k < cats.len() && cats[k] == foundv[if_];
                assert(cats[k].id != rid);
            }
        } else {
            assert(cats[ic].id == rid);
            assert(wanted_pred(idsv)(cats[ic]));
            cats.lemma_filter_contains(wanted_pred(idsv), ic);
            assert(foundv.contains(cats[ic]));
            if if_ == -1 {
                let k = choose|k: int| 0 <= k < foundv.len() && foundv[k] == cats[ic];
                assert(foundv[k].id != rid);
            }
            assert(foundv.contains(foundv[if_]));
            cats.lemma_filter_contains_rev(wanted_pred(idsv), foundv[if_]);
            let k2 = choose|k2: int| 0 <= k2 < cats.len() && cats[k2] == foundv[if_];
            assert(cats[k2].id == rid);
            if k2 < ic {
                assert(cats[k2].id != cats[ic].id);
            } else if ic < k2 {
                assert(cats[ic].id != cats[k2].id);
            }
            assert(foundv[if_] == cats[ic]);
        }
    }
}

impl RecipeService {
    /// Well-formedness of both collaborators.
    pub open spec fn wf(self) -> bool {
        &&& self.category_service.wf()
        &&& self.recipe_storage.wf()
    }

    /// The category rows the service sees.
    pub open spec fn cats(self) -> Seq<CategoryView> {
        self.category_service.cats()
    }

    /// The recipe rows the service sees.
    pub open spec fn recipes(self) -> Seq<RecipeView> {
        self.recipe_storage@
    }

    pub fn new(cfg: Config) -> (s: Self)
        ensures
            s.category_service == cfg.category_service,
            s.recipe_storage == cfg.recipe_storage,
    {
        Self { category_service: cfg.category_service, recipe_storage: cfg.recipe_storage }
    }

    /// Fetch a recipe and replace its id-only category with the full
    /// category. Succeeds exactly when the recipe exists and its referenced
    /// category still exists: a recipe whose category was deleted is not
    /// returned in a degraded form, the whole fetch fails.
    pub fn fetch(&self, q: RecipeQuery) -> (r: Result<Recipe, AppError>)
        ensures
            match r {
                Ok(rec) => fetched(self.recipes(), self.cats(), q.id@) == Some(rec@),
                Err(e) => fetched(self.recipes(), self.cats(), q.id@) is None && e
                    == AppError::NotFound,
            },
    {
        match self.recipe_storage.fetch(q) {
            Err(e) => Err(e),
            Ok(mut item) => match self.category_service.fetch(
                CategoryQuery { id: item.category.id.clone() },
            ) {
                Err(e) => Err(e),
                Ok(cat) => {
                    item.category = cat;
                    Ok(item)
                },
            },
        }
    }

    /// Create a recipe. The referenced category is fetched first: when it
    /// does not exist the create is aborted with a validation failure naming
    /// the missing category id, and no recipe row is written. On success the
    /// new row is appended to the recipe store and returned with the fetched
    /// category attached, so the response carries the category's name as of
    /// creation time. When the category exists, failure is possible only
    /// when the recipe store is at capacity or some 36-character id already
    /// occurs in it, so on a fresh store success is owed.
    pub fn create(&mut self, item: CreateRecipeCommand) -> (r: Result<Recipe, AppError>)
        requires
            old(self).wf(),
        ensures
            final(self).wf(),
            final(self).category_service == old(self).category_service,
            ({
                let rs = old(self).recipes();
                let cats = old(self).cats();
                match r {
                    Ok(rec) => {
                        &&& find_cat(cats, item.category@) is Some
                        &&& find_rec_idx(rs, rec@.id) == -1
                        &&& rec@ == attach(
                            recipe_row(item, rec@.id),
                            find_cat(cats, item.category@).unwrap(),
                        )
                        &&& final(self).recipes() == rs.push(recipe_row(item, rec@.id))
                    },
                    Err(e) => {
                        &&& final(self).recipes() == rs
                        &&& (find_cat(cats, item.category@) is None ==> (e matches
                        AppError::Validation { category_id } && category_id@ == item.category@))
                        &&& (find_cat(cats, item.category@) is Some ==> e is Store && (rs.len()
                            >= STORE_CAPACITY || exists|x: Seq<char>|
                            x.len() == 36 && #[trigger] find_rec_idx(rs, x) >= 0))
                    },
                }
            }),
    {
        let cat = match self.category_service.fetch(CategoryQuery { id: item.category.clone() }) {
            Ok(c) => c,
            Err(_) => {
                return Err(AppError::Validation { category_id: item.category });
            },
        };
        match self.recipe_storage.create(item) {
            Err(e) => Err(e),
            Ok(mut rec) => {
                rec.category = cat;
                proof {
                    assert(rec@ =~= attach(recipe_row(item, rec@.id), cat@));
                }
                Ok(rec)
            },
        }
    }

    /// Update a recipe: a direct pass-through to the recipe store. The new
    /// category id, if any, is not re-validated, and the returned recipe
    /// carries the store's id-only category.
    pub fn update(&mut self, q: UpdateRecipeCommand) -> (r: Result<Recipe, AppError>)
        requires
            old(self).wf(),
        ensures
            final(self).wf(),
            final(self).category_service == old(self).category_service,
            ({
                let rs = old(self).recipes();
                let i = find_rec_idx(rs, q.id@);
                match r {
                    Ok(rec) => {
                        &&& i >= 0
                        &&& rec@ == apply_update(rs[i], q)
                        &&& final(self).recipes() == rs.update(i, rec@)
                    },
                    Err(e) => {
                        &&& i == -1
                        &&& e == AppError::NotFound
                        &&& final(self).recipes() == rs
                    },
                }
            }),
    {
        self.recipe_storage.update(q)
    }

    /// Delete a recipe: a direct pass-through to the recipe store. The
    /// returned recipe carries the store's id-only category.
    pub fn delete(&mut self, q: DeleteRecipeCommand) -> (r: Result<Recipe, AppError>)
        requires
            old(self).wf(),
        ensures
            final(self).wf(),
            final(self).category_service == old(self).category_service,
            ({
                let rs = old(self).recipes();
                let i = find_rec_idx(rs, q.id@);
                match r {
                    Ok(rec) => {
                        &&& i >= 0
                        &&& rec@ == rs[i]
                        &&& final(self).recipes() == rs.remove(i)
                    },
                    Err(e) => {
                        &&& i == -1
                        &&& e == AppError::NotFound
                        &&& final(self).recipes() == rs
                    },
                }
            }),
    {
        self.recipe_storage.delete(q)
    }

    /// Search recipes and resolve every result's category name through one
    /// batched category search over the referenced ids — one store call for
    /// the whole result, not one per recipe. Succeeds
    /// exactly when every returned recipe's category still exists; a single
    /// dangling reference fails the whole search.
    pub fn search(&self, q: RecipeSearchQuery) -> (r: Result<SearchResult<Recipe>, AppError>)
        requires
            self.wf(),
        ensures
            ({
                let rows = rec_cat_filter(self.recipes(), q.category_id.deep_view());
                let cats = self.cats();
                match r {
                    Ok(res) => {
                        &&& resolve_all(rows, cats)
                        &&& res.items.deep_view() == attach_names(rows, cats)
                        &&& res.count == rows.len()
                    },
                    Err(e) => {
                        &&& !resolve_all(rows, cats)
                        &&& e == AppError::NotFound
                    },
                }
            }),
    {
        let ghost cats = self.cats();
        let stored = match self.recipe_storage.search(q) {
            Ok(s) => s,
            Err(e) => {
                return Err(e);
            },
        };
        let ghost rows = stored.items.deep_view();

        let mut ids: Vec<String> = Vec::new();
        let mut i: usize = 0;
        proof {
            assert(ids.deep_view() =~= Seq::<Seq<char>>::empty());
        }
        while i < stored.items.len()
            invariant
                i <= stored.items@.len(),
                rows == stored.items.deep_view(),
                rows.len() == stored.items@.len(),
                ids.deep_view().len() == i,
                forall|j: int|
                    0 <= j < i ==> ids.deep_view()[j] == (#[trigger] rows[j]).category.id,
            decreases stored.items@.len() - i,
        {
            let ghost ids0 = ids.deep_view();
            ids.push(stored.items[i].category.id.clone());
            proof {
                assert(ids.deep_view() =~= ids0.push(rows[i as int].category.id));
            }
            i += 1;
        }
        let ghost idsv = ids.deep_view();

        let cats_res = match self.category_service.search(CategorySearchQuery { ids: Some(ids) }) {
            Ok(c) => c,
            Err(e) => {
                return Err(e);
            },
        };
        let found = cats_res.items;
        let ghost foundv = found.deep_view();

        proof {
            assert forall|j: int| 0 <= j < rows.len() implies idsv.contains(
                (#[trigger] rows[j]).category.id,
            ) by {
                assert(idsv[j] == rows[j].category.id);
            }
            lemma_found_agrees(rows, cats, idsv);
        }
        match resolve_names(stored.items, &found) {
            Ok(out) => {
                proof {
                    assert(resolve_all(rows, cats));
                    assert(out.deep_view() =~= attach_names(rows, cats));
                }
                Ok(SearchResult { count: stored.count, items: out })
            },
            Err(e) => {
                proof {
                    assert(!resolve_all(rows, cats)) by {
                        let j = choose|j: int|
                            0 <= j < rows.len() && find_cat(
                                foundv,
                                (#[trigger] rows[j]).category.id,
                            ) is None;
                        assert(find_cat(cats, rows[j].category.id) is None);
                    }
                }
                Err(e)
            },
        }
    }
}

} // verus!
