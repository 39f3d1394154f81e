//! A public item of a crate in intermediate form: the path that leads to it
//! and where it belongs, before it is rendered.

use rustdoc_types::{Id, Item};

use vstd::prelude::*;

use crate::crate_set::CrateTag;
use crate::text_order::path_view;

verus! {

/// One component of the path to a public item: the item at that point of the
/// path, and what the path reads of it.
#[derive(Clone, Debug)]
pub struct PathComponent<'c> {
    /// The item.
    pub item: &'c Item,
    /// The name the item is known by at this point of the path, where it
    /// differs from its own name (e.g. for `pub use x as y`).
    pub overridden_name: Option<String>,
    /// The name of the component as it is sorted by, prefixed so that
    /// sorting by it groups related items together.
    pub sortable_name: String,
}

/// This struct represents one public item of a crate, but in intermediate
/// form. Conceptually it wraps a single [`Item`] even though the path to the
/// item consists of many [`Item`]s. Later, one [`Self`] will be converted to
/// exactly one [`crate::PublicItem`].
#[derive(Debug)]
pub struct IntermediatePublicItem<'c> {
    path: Vec<PathComponent<'c>>,
    parent: Option<(CrateTag, Id)>,
    id: (CrateTag, Id),
}

impl<'c> Clone for IntermediatePublicItem<'c> {
    fn clone(&self) -> (r: Self) {
        IntermediatePublicItem { path: self.path.clone(), parent: self.parent, id: self.id }
    }
}

impl<'c> IntermediatePublicItem<'c> {
    /// The components of the path to the item, in order.
    pub closed spec fn path_spec(&self) -> Seq<PathComponent<'c>> {
        self.path@
    }

    /// The sortable names of the components of the path, in order.
    pub open spec fn sortable_path_spec(&self) -> Seq<Seq<char>> {
        self.path_spec().map_values(|c: PathComponent<'c>| c.sortable_name@)
    }

    /// The item's logical parent, if any, with the crate it belongs to.
    pub closed spec fn parent_spec(&self) -> Option<(CrateTag, Id)> {
        self.parent
    }

    /// The item's [`Id`], with the crate it belongs to.
    pub closed spec fn id_spec(&self) -> (CrateTag, Id) {
        self.id
    }

    /// Makes the intermediate form of an item from the path to it, its
    /// logical parent and its own id.
    pub fn new(path: Vec<PathComponent<'c>>, parent: Option<(CrateTag, Id)>, id: (CrateTag, Id)) -> (r: Self)
        ensures
            r.path_spec() == path@,
            r.parent_spec() == parent,
            r.id_spec() == id,
    {
        Self { path, parent, id }
    }

    /// Which crate's rustdoc JSON this item (and its [`Id`]) belongs to.
    pub fn tag(&self) -> (r: CrateTag)
        ensures
            r == self.id_spec().0,
    {
        self.id.0
    }

    /// The item itself: the item of the last component of its path.
    pub fn item(&self) -> (r: &'c Item)
        requires
            self.path_spec().len() > 0,
        ensures
            *r == *self.path_spec().last().item,
    {
        self.path[self.path.len() - 1].item
    }

    /// The components of the path to the item.
    pub fn path(&self) -> (r: &[PathComponent<'c>])
        ensures
            r@ == self.path_spec(),
    {
        self.path.as_slice()
    }

    /// The [`Id`] of this item's logical parent (if any), qualified with the
    /// crate it belongs to.
    pub fn parent(&self) -> (r: Option<(CrateTag, Id)>)
        ensures
            r == self.parent_spec(),
    {
        self.parent
    }

    /// The path of the item as it is sorted by: the sortable name of each
    /// component, in order.
    pub fn sortable_path(&self) -> (r: Vec<String>)
        ensures
            path_view(r@) == self.sortable_path_spec(),
    {
        let mut r: Vec<String> = Vec::new();
        let mut i: usize = 0;
        while i < self.path.len()
            invariant
                i <= self.path@.len(),
                r@.len() == i,
                forall|j: int| 0 <= j < i ==> #[trigger] r@[j]@ == self.path@[j].sortable_name@,
            decreases self.path@.len() - i,
        {
            r.push(self.path[i].sortable_name.clone());
            i = i + 1;
        }
        assert(path_view(r@) =~= self.sortable_path_spec());
        r
    }

    /// Whether some component of the path is known by a name other than its
    /// own.
    pub fn path_contains_renamed_item(&self) -> (r: bool)
        ensures
            r == exists|i: int| 0 <= i < self.path_spec().len() && #[trigger] self.path_spec()[i].overridden_name is Some,
    {
        let mut i: usize = 0;
        while i < self.path.len()
            invariant
                i <= self.path@.len(),
                forall|j: int| 0 <= j < i ==> #[trigger] self.path@[j].overridden_name is None,
            decreases self.path@.len() - i,
        {
            if self.path[i].overridden_name.is_some() {
                return true;
            }
            i = i + 1;
        }
        false
    }
}

} // verus!
