use vstd::prelude::*;

verus! {

/// A category row: an opaque unique identifier assigned at creation time and
/// a display name.
#[derive(Debug, PartialEq)]
pub struct Category {
    pub id: String,
    pub name: String,
}

/// The mathematical value of a `Category`: both fields as character sequences.
#[verifier::ext_equal]
pub struct CategoryView {
    pub id: Seq<char>,
    pub name: Seq<char>,
}

impl View for Category {
    type V = CategoryView;

    open spec fn view(&self) -> CategoryView {
        CategoryView { id: self.id@, name: self.name@ }
    }
}

impl DeepView for Category {
    type V = CategoryView;

    open spec fn deep_view(&self) -> CategoryView {
        self.view()
    }
}

impl Clone for Category {
    fn clone(&self) -> (res: Self)
        ensures
            res == *self,
    {
        Category { id: self.id.clone(), name: self.name.clone() }
    }
}

/// Ask for a new category with the given name; the store assigns the id.
#[derive(Debug, Clone, PartialEq)]
pub struct CreateCategoryCommand {
    pub name: String,
}

/// Rename the category with the given id.
#[derive(Debug, Clone, PartialEq)]
pub struct UpdateCategoryCommand {
    pub id: String,
    pub name: String,
}

/// Remove the category with the given id.
#[derive(Debug, Clone, PartialEq)]
pub struct DeleteCategoryCommand {
    pub id: String,
}

/// Select categories: no filter returns every row, a filter returns the rows
/// whose id occurs in the list. Ids in the filter that match no row are
/// silently dropped.
#[derive(Debug, Clone, PartialEq)]
pub struct CategorySearchQuery {
    pub ids: Option<Vec<String>>,
}

/// Look one category up by id.
#[derive(Debug, Clone, PartialEq)]
pub struct CategoryQuery {
    pub id: String,
}

} // verus!
