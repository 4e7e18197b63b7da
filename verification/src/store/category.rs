use vstd::prelude::*;

use crate::model::category::{
    Category, CategoryQuery, CategorySearchQuery, CategoryView, CreateCategoryCommand,
    DeleteCategoryCommand, UpdateCategoryCommand,
};
use crate::model::{AppError, SearchResult};
use crate::store::{fresh_id, lemma_filter_push, STORE_CAPACITY};
use vstd::pervasive::VecAdditionalExecFns;
use vstd::string::StringExecFns;

verus! {

/// The index of the first category in `s` whose id is `id`, or -1 when no
/// category carries it.
pub open spec fn find_cat_idx(s: Seq<CategoryView>, id: Seq<char>) -> int
    decreases s.len(),
{
    if s.len() == 0 {
        -1
    } else if s[0].id == id {
        0
    } else {
        let rest = find_cat_idx(s.drop_first(), id);
        if rest == -1 {
            -1
        } else {
            rest + 1
        }
    }
}

/// The first category in `s` whose id is `id`, if any.
pub open spec fn find_cat(s: Seq<CategoryView>, id: Seq<char>) -> Option<CategoryView> {
    if find_cat_idx(s, id) >= 0 {
        Some(s[find_cat_idx(s, id)])
    } else {
        None
    }
}

/// No two categories in `s` share an id.
pub open spec fn distinct_cat_ids(s: Seq<CategoryView>) -> bool {
    forall|i: int, j: int| 0 <= i < j < s.len() ==> s[i].id != s[j].id
}

/// What `find_cat_idx` returns: a valid index of the first row carrying the
/// id, or -1 exactly when the id occurs nowhere in `s`.
pub proof fn lemma_find_cat_idx(s: Seq<CategoryView>, id: Seq<char>)
    ensures
        -1 <= find_cat_idx(s, id) < s.len(),
        find_cat_idx(s, id) >= 0 ==> s[find_cat_idx(s, id)].id == id,
        forall|j: int| 0 <= j < find_cat_idx(s, id) ==> s[j].id != id,
        find_cat_idx(s, id) == -1 ==> forall|j: int| 0 <= j < s.len() ==> s[j].id != id,
    decreases s.len(),
{
    if s.len() == 0 {
    } else if s[0].id == id {
    } else {
        lemma_find_cat_idx(s.drop_first(), id);
        let rest = find_cat_idx(s.drop_first(), id);
        assert forall|j: int| 0 <= j < find_cat_idx(s, id) implies s[j].id != id by {
            if j > 0 {
                assert(s.drop_first()[j - 1] == s[j]);
            }
        }
        if rest == -1 {
            assert forall|j: int| 0 <= j < s.len() implies s[j].id != id by {
                if j > 0 {
                    assert(s.drop_first()[j - 1] == s[j]);
                }
            }
        } else {
            assert(s.drop_first()[rest] == s[rest + 1]);
        }
    }
}

/// Whether a category's id occurs in the filter list `wanted`.
pub open spec fn wanted_pred(wanted: Seq<Seq<char>>) -> spec_fn(CategoryView) -> bool {
    |c: CategoryView| wanted.contains(c.id)
}

/// The rows a category search returns: every row when there is no filter,
/// else the rows whose id occurs in the filter list.
pub open spec fn cat_id_filter(s: Seq<CategoryView>, ids: Option<Seq<Seq<char>>>) -> Seq<
    CategoryView,
> {
    match ids {
        None => s,
        Some(wanted) => s.filter(wanted_pred(wanted)),
    }
}

/// Whether `ids` holds the string `id`, by character content.
fn ids_contain(ids: &Vec<String>, id: &String) -> (r: bool)
    ensures
        r == ids.deep_view().contains(id@),
{
    let mut i: usize = 0;
    while i < ids.len()
        invariant
            i <= ids@.len(),
            forall|j: int| 0 <= j < i ==> ids.deep_view()[j] != id@,
        decreases ids@.len() - i,
    {
        if ids[i] == *id {
            assert(ids.deep_view()[i as int] == id@);
            return true;
        }
        i += 1;
    }
    false
}

/// The in-memory table of category rows. Ids are unique, and the row count
/// stays within `STORE_CAPACITY` so that a search's `count` fits in an `i64`.
pub struct CategoryStore {
    rows: Vec<Category>,
}

impl View for CategoryStore {
    type V = Seq<CategoryView>;

    closed spec fn view(&self) -> Seq<CategoryView> {
        self.rows.deep_view()
    }
}

impl CategoryStore {
    /// Well-formedness: ids are pairwise distinct and the table is not over
    /// capacity.
    pub open spec fn wf(self) -> bool {
        &&& distinct_cat_ids(self@)
        &&& self@.len() <= STORE_CAPACITY
    }

    /// An empty store.
    pub fn new() -> (s: Self)
        ensures
            s.wf(),
            s@ == Seq::<CategoryView>::empty(),
    {
        let s = CategoryStore { rows: Vec::new() };
        proof {
            assert(s@ =~= Seq::<CategoryView>::empty());
        }
        s
    }

    /// Find the position of the row carrying `id`, if any.
    fn find_index(rows: &Vec<Category>, id: &String) -> (r: Option<usize>)
        ensures
            match r {
                Some(i) => 0 <= i < rows@.len() && i == find_cat_idx(rows.deep_view(), id@),
                None => find_cat_idx(rows.deep_view(), id@) == -1,
            },
    {
        let ghost s = rows.deep_view();
        let mut i: usize = 0;
        while i < rows.len()
            invariant
                i <= rows@.len(),
                s == rows.deep_view(),
                forall|j: int| 0 <= j < i ==> s[j].id != id@,
            decreases rows@.len() - i,
        {
            if rows[i].id == *id {
                proof {
                    lemma_find_cat_idx(s, id@);
                    assert(s[i as int].id == id@);
                    let k = find_cat_idx(s, id@);
                    if k == -1 {
                        assert(s[i as int].id != id@);
                    } else if k < i {
                        assert(s[k].id != id@);
                    } else if k > i {
                        assert(s[i as int].id != id@);
                    }
                }
                return Some(i);
            }
            i += 1;
        }
        proof {
            lemma_find_cat_idx(s, id@);
            if find_cat_idx(s, id@) >= 0 {
                assert(s[find_cat_idx(s, id@)].id != id@);
            }
        }
        None
    }

    /// Insert a row under a caller-chosen id. Succeeds exactly when the id is
    /// not yet taken and the store is below capacity; on failure the store is
    /// unchanged.
    pub fn create_with_id(&mut self, id: String, name: String) -> (r: Result<Category, AppError>)
        requires
            old(self).wf(),
        ensures
            final(self).wf(),
            ({
                let s = old(self)@;
                match r {
                    Ok(c) => {
                        &&& find_cat_idx(s, id@) == -1
                        &&& s.len() < STORE_CAPACITY
                        &&& c@ == (CategoryView { id: id@, name: name@ })
                        &&& final(self)@ == s.push(c@)
                    },
                    Err(e) => {
                        &&& final(self)@ == s
                        &&& (find_cat_idx(s, id@) >= 0 || s.len() >= STORE_CAPACITY)
                        &&& e is Store
                    },
                }
            }),
    {
        if self.rows.len() as u64 >= STORE_CAPACITY {
            return Err(AppError::Store { msg: String::from_str("store full") });
        }
        match Self::find_index(&self.rows, &id) {
            Some(_) => Err(AppError::Store { msg: String::from_str("duplicate identifier") }),
            None => {
                let ghost s0 = self@;
                let c = Category { id, name };
                let dup = c.clone();
                self.rows.push(dup);
                proof {
                    assert(self@ =~= s0.push(c@));
                    lemma_find_cat_idx(s0, c.id@);
                    assert forall|i: int, j: int| 0 <= i < j < self@.len() implies self@[i].id
                        != self@[j].id by {
                        if j < s0.len() {
                            assert(s0[i].id != s0[j].id);
                        } else {
                            assert(s0[i].id != c.id@);
                        }
                    }
                }
                Ok(c)
            },
        }
    }

    /// Insert a row under a freshly drawn id. On success the new row is
    /// appended and returned; the draw is random, so a collision with an
    /// existing id surfaces as a store failure instead. Failure is possible
    /// only when the store is at capacity or some 36-character id already
    /// occurs in it (the drawn id is always 36 characters): on a store below
    /// capacity with no such id — in particular an empty one — success is
    /// owed.
    pub fn create(&mut self, item: CreateCategoryCommand) -> (r: Result<Category, AppError>)
        requires
            old(self).wf(),
        ensures
            final(self).wf(),
            ({
                let s = old(self)@;
                match r {
                    Ok(c) => {
                        &&& find_cat_idx(s, c@.id) == -1
                        &&& c@.name == item.name@
                        &&& final(self)@ == s.push(c@)
                    },
                    Err(e) => {
                        &&& final(self)@ == s
                        &&& e is Store
                        &&& (s.len() >= STORE_CAPACITY || exists|x: Seq<char>|
                            x.len() == 36 && #[trigger] find_cat_idx(s, x) >= 0)
                    },
                }
            }),
    {
        let id = fresh_id();
        let ghost idv = id@;
        let r = self.create_with_id(id, item.name);
        proof {
            if r is Err && old(self)@.len() < STORE_CAPACITY {
                assert(idv.len() == 36 && find_cat_idx(old(self)@, idv) >= 0);
            }
        }
        r
    }

    /// Look a row up by id. Succeeds exactly when a row carries the id, and
    /// returns that row.
    pub fn fetch(&self, q: CategoryQuery) -> (r: Result<Category, AppError>)
        ensures
            ({
                let s = self@;
                match r {
                    Ok(c) => find_cat_idx(s, q.id@) >= 0 && c@ == s[find_cat_idx(s, q.id@)],
                    Err(e) => find_cat_idx(s, q.id@) == -1 && e == AppError::NotFound,
                }
            }),
    {
        match Self::find_index(&self.rows, &q.id) {
            Some(i) => Ok(self.rows[i].clone()),
            None => Err(AppError::NotFound),
        }
    }

    /// Rename the row carrying `cmd.id`. Succeeds exactly when such a row
    /// exists; the renamed row is stored in place and returned.
    pub fn update(&mut self, cmd: UpdateCategoryCommand) -> (r: Result<Category, AppError>)
        requires
            old(self).wf(),
        ensures
            final(self).wf(),
            ({
                let s = old(self)@;
                let i = find_cat_idx(s, cmd.id@);
                match r {
                    Ok(c) => {
                        &&& i >= 0
                        &&& c@ == (CategoryView { id: cmd.id@, name: cmd.name@ })
                        &&& final(self)@ == s.update(i, c@)
                    },
                    Err(e) => {
                        &&& i == -1
                        &&& e == AppError::NotFound
                        &&& final(self)@ == s
                    },
                }
            }),
    {
        match Self::find_index(&self.rows, &cmd.id) {
            Some(i) => {
                let ghost s0 = self@;
                let c = Category { id: cmd.id, name: cmd.name };
                let dup = c.clone();
                self.rows.set(i, dup);
                proof {
                    assert(self@ =~= s0.update(i as int, c@));
                    lemma_find_cat_idx(s0, c.id@);
                    assert(s0[i as int].id == c.id@);
                    assert forall|a: int, b: int| 0 <= a < b < self@.len() implies self@[a].id
                        != self@[b].id by {
                        assert(s0[a].id != s0[b].id);
                    }
                }
                Ok(c)
            },
            None => Err(AppError::NotFound),
        }
    }

    /// Remove the row carrying `cmd.id`. Succeeds exactly when such a row
    /// exists, and returns the removed row's prior value.
    pub fn delete(&mut self, cmd: DeleteCategoryCommand) -> (r: Result<Category, AppError>)
        requires
            old(self).wf(),
        ensures
            final(self).wf(),
            ({
                let s = old(self)@;
                let i = find_cat_idx(s, cmd.id@);
                match r {
                    Ok(c) => {
                        &&& i >= 0
                        &&& c@ == s[i]
                        &&& final(self)@ == s.remove(i)
                    },
                    Err(e) => {
                        &&& i == -1
                        &&& e == AppError::NotFound
                        &&& final(self)@ == s
                    },
                }
            }),
    {
        match Self::find_index(&self.rows, &cmd.id) {
            Some(i) => {
                let ghost s0 = self@;
                let c = self.rows.remove(i);
                proof {
                    assert(self@ =~= s0.remove(i as int));
                    assert forall|a: int, b: int| 0 <= a < b < self@.len() implies self@[a].id
                        != self@[b].id by {
                        let a0 = if a < i { a } else { a + 1 };
                        let b0 = if b < i { b } else { b + 1 };
                        assert(self@[a] == s0[a0]);
                        assert(self@[b] == s0[b0]);
                        assert(s0[a0].id != s0[b0].id);
                    }
                }
                Ok(c)
            },
            None => Err(AppError::NotFound),
        }
    }

    /// List rows. With no filter every row is returned; with a filter, the
    /// rows whose id occurs in the filter list, in store order. Ids that
    /// match no row are silently dropped, and `count` is the number of rows
    /// found.
    pub fn search(&self, q: CategorySearchQuery) -> (r: Result<
        SearchResult<Category>,
        AppError,
    >)
        requires
            self.wf(),
        ensures
            r matches Ok(res) && res.items.deep_view() == cat_id_filter(
                self@,
                q.ids.deep_view(),
            ) && res.count == cat_id_filter(self@, q.ids.deep_view()).len(),
    {
        match &q.ids {
            None => {
                let items = self.rows.clone();
                proof {
                    assert(items@ =~= self.rows@);
                    assert(items.deep_view() =~= self@);
                }
                let count = items.len() as i64;
                Ok(SearchResult { count, items })
            },
            Some(wanted) => {
                let ghost pred = wanted_pred(wanted.deep_view());
                let mut items: Vec<Category> = Vec::new();
                let mut i: usize = 0;
                proof {
                    assert(items.deep_view() =~= self@.subrange(0, 0).filter(pred));
                }
                while i < self.rows.len()
                    invariant
                        i <= self.rows@.len(),
                        self@ == self.rows.deep_view(),
                        self@.len() == self.rows@.len(),
                        items.deep_view() == self@.subrange(0, i as int).filter(pred),
                        pred == wanted_pred(wanted.deep_view()),
                        items@.len() <= i,
                    decreases self.rows@.len() - i,
                {
                    let ghost pre = self@.subrange(0, i as int);
                    let ghost items0 = items.deep_view();
                    let keep = ids_contain(wanted, &self.rows[i].id);
                    if keep {
                        items.push(self.rows[i].clone());
                        proof {
                            assert(items.deep_view() =~= items0.push(self@[i as int]));
                        }
                    }
                    proof {
                        assert(self@.subrange(0, i + 1) =~= pre.push(self@[i as int]));
                        lemma_filter_push(pre, pred, self@[i as int]);
                        assert(pred(self@[i as int]) == keep);
                    }
                    i += 1;
                }
                proof {
                    assert(self@.subrange(0, self@.len() as int) =~= self@);
                    assert(q.ids.deep_view() == Some(wanted.deep_view()));
                }
                let count = items.len() as i64;
                Ok(SearchResult { count, items })
            },
        }
    }
}

} // verus!
