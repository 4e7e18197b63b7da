use vstd::prelude::*;

use crate::model::category::{
    Category, CategoryQuery, CategorySearchQuery, CategoryView, CreateCategoryCommand,
    DeleteCategoryCommand, UpdateCategoryCommand,
};
use crate::model::{AppError, SearchResult};
use crate::store::category::{cat_id_filter, find_cat_idx, CategoryStore};
use crate::store::STORE_CAPACITY;

verus! {

/// What a category service is built from.
pub struct Config {
    pub category_storage: CategoryStore,
}

/// A pass-through seam over the category store. Each operation forwards
/// unchanged; the seam exists so that the recipe service depends on a stable
/// interface rather than on the store directly.
pub struct CategoryService {
    pub category_storage: CategoryStore,
}

impl CategoryService {
    /// Well-formedness of the backing store.
    pub open spec fn wf(self) -> bool {
        self.category_storage.wf()
    }

    /// The category rows the service sees.
    pub open spec fn cats(self) -> Seq<CategoryView> {
        self.category_storage@
    }

    pub fn new(cfg: Config) -> (s: Self)
        ensures
            s.category_storage == cfg.category_storage,
    {
        Self { category_storage: cfg.category_storage }
    }

    /// Forwards to the store: succeeds exactly when a row carries the id.
    pub fn fetch(&self, q: CategoryQuery) -> (r: Result<Category, AppError>)
        ensures
            ({
                let s = self.cats();
                match r {
                    Ok(c) => find_cat_idx(s, q.id@) >= 0 && c@ == s[find_cat_idx(s, q.id@)],
                    Err(e) => find_cat_idx(s, q.id@) == -1 && e == AppError::NotFound,
                }
            }),
    {
        self.category_storage.fetch(q)
    }

    /// Forwards to the store: appends a row under a freshly drawn id. As at
    /// the store, failure is possible only when the store is at capacity or
    /// some 36-character id already occurs in it.
    pub fn create(&mut self, q: CreateCategoryCommand) -> (r: Result<Category, AppError>)
        requires
            old(self).wf(),
        ensures
            final(self).wf(),
            ({
                let s = old(self).cats();
                match r {
                    Ok(c) => {
                        &&& find_cat_idx(s, c@.id) == -1
                        &&& c@.name == q.name@
                        &&& final(self).cats() == s.push(c@)
                    },
                    Err(e) => {
                        &&& final(self).cats() == s
                        &&& e is Store
                        &&& (s.len() >= STORE_CAPACITY || exists|x: Seq<char>|
                            x.len() == 36 && #[trigger] find_cat_idx(s, x) >= 0)
                    },
                }
            }),
    {
        self.category_storage.create(q)
    }

    /// Forwards to the store: renames the row carrying `q.id`.
    pub fn update(&mut self, q: UpdateCategoryCommand) -> (r: Result<Category, AppError>)
        requires
            old(self).wf(),
        ensures
            final(self).wf(),
            ({
                let s = old(self).cats();
                let i = find_cat_idx(s, q.id@);
                match r {
                    Ok(c) => {
                        &&& i >= 0
                        &&& c@ == (CategoryView { id: q.id@, name: q.name@ })
                        &&& final(self).cats() == s.update(i, c@)
                    },
                    Err(e) => {
                        &&& i == -1
                        &&& e == AppError::NotFound
                        &&& final(self).cats() == s
                    },
                }
            }),
    {
        self.category_storage.update(q)
    }

    /// Forwards to the store: removes the row carrying `q.id` and returns its
    /// prior value.
    pub fn delete(&mut self, q: DeleteCategoryCommand) -> (r: Result<Category, AppError>)
        requires
            old(self).wf(),
        ensures
            final(self).wf(),
            ({
                let s = old(self).cats();
                let i = find_cat_idx(s, q.id@);
                match r {
                    Ok(c) => {
                        &&& i >= 0
                        &&& c@ == s[i]
                        &&& final(self).cats() == s.remove(i)
                    },
                    Err(e) => {
                        &&& i == -1
                        &&& e == AppError::NotFound
                        &&& final(self).cats() == s
                    },
                }
            }),
    {
        self.category_storage.delete(q)
    }

    /// Forwards to the store: lists rows, all of them or those whose id the
    /// filter names. Unmatched filter ids are silently dropped and `count` is
    /// the number of rows found.
    pub fn search(&self, q: CategorySearchQuery) -> (r: Result<SearchResult<Category>, AppError>)
        requires
            self.wf(),
        ensures
            r matches Ok(res) && res.items.deep_view() == cat_id_filter(
                self.cats(),
                q.ids.deep_view(),
            ) && res.count == cat_id_filter(self.cats(), q.ids.deep_view()).len(),
    {
        self.category_storage.search(q)
    }
}

} // verus!
