//! List the public API of crates, with the items of an API sorted into a
//! logical grouping (struct fields right after their struct, and so on).

pub mod build_plan;
pub mod crate_set;
pub mod error;
pub mod grouping;
pub mod intermediate_public_item;
pub mod public_item;
pub mod text_order;
pub mod tokens;

pub use crate_set::{CrateSet, CrateTag};
pub use error::{Error, Result};
pub use public_item::PublicItem;
pub use tokens::Token;

use vstd::prelude::*;

use grouping::{grouping_sorted, is_stable_grouping_sort, sort_by_grouping};

verus! {

/// The public API of a crate for one feature configuration.
pub struct PublicApi {
    pub(crate) items: Vec<PublicItem>,
}

/// The text of an API: each item with its context, on a line of its own.
pub open spec fn api_text(items: Seq<PublicItem>) -> Seq<char>
    decreases items.len(),
{
    if items.len() == 0 {
        Seq::empty()
    } else {
        api_text(items.drop_last()) + items.last().text_with_context_spec() + seq!['\n']
    }
}

/// The text of two runs of items, one after the other, is the text of the
/// first followed by the text of the second.
pub proof fn law_api_text_concatenates(x: Seq<PublicItem>, y: Seq<PublicItem>)
    ensures
        api_text(x + y) == api_text(x) + api_text(y),
    decreases y.len(),
{
    if y.len() == 0 {
        assert(x + y =~= x);
        assert(api_text(x) + api_text(y) =~= api_text(x));
    } else {
        law_api_text_concatenates(x, y.drop_last());
        assert((x + y).drop_last() =~= x + y.drop_last());
        assert((x + y).last() == y.last());
        assert(api_text(x + y) =~= api_text(x) + api_text(y));
    }
}

/// A single item takes one line: the item with its context, then a line
/// break.
pub proof fn law_api_text_of_one_item(item: PublicItem)
    ensures
        api_text(seq![item]) == item.text_with_context_spec() + seq!['\n'],
{
    assert(seq![item].drop_last() =~= Seq::<PublicItem>::empty());
    assert(api_text(Seq::<PublicItem>::empty()) + item.text_with_context_spec() + seq!['\n']
        =~= item.text_with_context_spec() + seq!['\n']);
}

impl PublicApi {
    /// The items of the API, in order.
    pub closed spec fn items_spec(&self) -> Seq<PublicItem> {
        self.items@
    }

    /// The items of an API are always sorted into their logical grouping.
    #[verifier::type_invariant]
    spec fn items_grouped(&self) -> bool {
        grouping_sorted(self.items@)
    }

    /// The API made of `items`, sorted stably by
    /// [`PublicItem::grouping_cmp`].
    pub fn new(items: Vec<PublicItem>) -> (api: Self)
        ensures
            is_stable_grouping_sort(api.items_spec(), items@),
    {
        let items = sort_by_grouping(items);
        PublicApi { items }
    }

    /// All public items, sorted for logical grouping (struct fields right
    /// after their struct, etc).
    pub fn items(&self) -> (r: &Vec<PublicItem>)
        ensures
            r@ == self.items_spec(),
            grouping_sorted(r@),
    {
        proof {
            use_type_invariant(self);
        }
        &self.items
    }

    /// Like [`Self::items`], but transfers ownership.
    pub fn into_items(self) -> (r: Vec<PublicItem>)
        ensures
            r@ == self.items_spec(),
            grouping_sorted(r@),
    {
        proof {
            use_type_invariant(&self);
        }
        self.items
    }

    /// The API as text: each item displayed with its context, followed by a
    /// line break.
    pub fn to_string(&self) -> (r: String)
        ensures
            r@ == api_text(self.items_spec()),
    {
        let mut r = String::new();
        let mut i: usize = 0;
        let newline = "\n";
        proof {
            reveal_strlit("\n");
        }
        while i < self.items.len()
            invariant
                i <= self.items@.len(),
                newline@ == seq!['\n'],
                r@ == api_text(self.items@.take(i as int)),
            decreases self.items@.len() - i,
        {
            let line = self.items[i].display_with_context();
            r.append(line.as_str());
            r.append(newline);
            proof {
                assert(self.items@.take(i + 1).drop_last() =~= self.items@.take(i as int));
            }
            i = i + 1;
        }
        assert(self.items@.take(self.items@.len() as int) =~= self.items@);
        r
    }
}

} // verus!
