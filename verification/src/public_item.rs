//! A public item of an analyzed crate, and the order in which such items
//! are listed.

use std::cmp::Ordering;

use rustdoc_types::Item;

use vstd::prelude::*;
use vstd::std_specs::cmp::PartialEqSpec;

use crate::intermediate_public_item::IntermediatePublicItem;
use crate::text_order::{
    law_path_order_first_difference, law_path_order_prefix_first, compare_paths, compare_text, lemma_path_order_basics, lemma_path_order_transitive,
    lemma_text_order_basics, lemma_text_order_transitive, path_order, path_view, text_order,
};
use crate::tokens::{tokens_equal, tokens_text, tokens_to_string, tokens_view, Token, TokenView};

verus! {

/// One public item of an analyzed crate: an item that forms part of the
/// public API of the crate.
///
/// Items are listed in a logical grouping (struct fields right after their
/// struct, and so on) given by [`PublicItem::grouping_cmp`]. Two items are
/// equal when they are rendered to the same tokens.
#[derive(Clone, Debug)]
pub struct PublicItem {
    /// The path of the item, each component prefixed so that sorting by the
    /// path groups related items together.
    pub(crate) sortable_path: Vec<String>,
    /// The rendered item as a stream of tokens.
    pub(crate) tokens: Vec<Token>,
    /// Display-only context: for items of a trait impl, the rendered impl
    /// header (e.g. `[impl: impl<T> Foo<T> for Bar]`). Not part of the
    /// identity of the item, so it takes no part in `==`.
    pub(crate) context: Option<String>,
}

/// What a group is identified by: the sortable path of an item and the
/// text it is rendered as.
pub type GroupingKey = (Seq<Seq<char>>, Seq<char>);

/// Sign of the comparison of two grouping keys: by path first, then by text.
pub open spec fn key_order(a: GroupingKey, b: GroupingKey) -> int {
    if path_order(a.0, b.0) != 0 {
        path_order(a.0, b.0)
    } else {
        text_order(a.1, b.1)
    }
}

/// The `Ordering` that a sign stands for.
pub open spec fn ordering_of(sign: int) -> Ordering {
    if sign < 0 {
        Ordering::Less
    } else if sign == 0 {
        Ordering::Equal
    } else {
        Ordering::Greater
    }
}

#[verifier::external_type_specification]
#[verifier::external_body]
pub struct ExImpl(rustdoc_types::Impl);

#[verifier::external_type_specification]
#[verifier::external_body]
pub struct ExTypePath(rustdoc_types::Path);

/// The impl that an item of rustdoc JSON is, if it is an impl.
pub uninterp spec fn item_impl(item: Item) -> Option<rustdoc_types::Impl>;

/// The trait that an impl implements, if it is an impl of a trait.
pub uninterp spec fn impl_trait(imp: rustdoc_types::Impl) -> Option<rustdoc_types::Path>;

/// The impl that `item` is, if it is one.
///
/// Trusted: reads `Item::inner` of `rustdoc_types` and tells `ItemEnum::Impl`
/// from its other variants; the contract claims that the impl is the one
/// that [`item_impl`] names.
#[verifier::external_body]
fn impl_of(item: &Item) -> (r: Option<&rustdoc_types::Impl>)
    ensures
        match r {
            Some(i) => item_impl(*item) == Some(*i),
            None => item_impl(*item) is None,
        },
{
    match &item.inner {
        rustdoc_types::ItemEnum::Impl(imp) => Some(imp),
        _ => None,
    }
}

/// The trait that an impl implements, if any.
///
/// Trusted: reads the field `Impl::trait_` of `rustdoc_types`; the contract
/// claims that the trait is the one that [`impl_trait`] names.
#[verifier::external_body]
fn trait_of(imp: &rustdoc_types::Impl) -> (r: Option<&rustdoc_types::Path>)
    ensures
        match r {
            Some(p) => impl_trait(*imp) == Some(*p),
            None => impl_trait(*imp) is None,
        },
{
    imp.trait_.as_ref()
}

/// Whether an item of rustdoc JSON is an impl of a trait.
pub open spec fn is_trait_impl_item(item: Item) -> bool {
    item_impl(item) matches Some(imp) && impl_trait(imp) is Some
}

/// Whether `item` is an impl of a trait.
fn item_is_trait_impl(item: &Item) -> (r: bool)
    ensures
        r == is_trait_impl_item(*item),
{
    match impl_of(item) {
        Some(imp) => trait_of(imp).is_some(),
        None => false,
    }
}

/// The display-only context of an item whose logical parent is `parent`
/// (the parent's item and its rendered tokens): for the items of a trait
/// impl, `[impl: ` followed by the rendered impl header and `]`; none
/// otherwise.
pub open spec fn impl_context_spec(parent: Option<(Item, Seq<TokenView>)>) -> Option<Seq<char>> {
    match parent {
        Some((item, rendered)) => if is_trait_impl_item(item) {
            Some("[impl: "@ + tokens_text(rendered) + "]"@)
        } else {
            None
        },
        None => None,
    }
}

/// `key_order` is a sign, it is reversed by swapping its arguments, and it
/// is zero exactly on equal keys.
pub proof fn lemma_key_order_basics(a: GroupingKey, b: GroupingKey)
    ensures
        -1 <= key_order(a, b) <= 1,
        key_order(a, b) == -key_order(b, a),
        key_order(a, b) == 0 <==> a == b,
{
    lemma_path_order_basics(a.0, b.0);
    lemma_text_order_basics(a.1, b.1);
}

/// `key_order` is transitive.
pub proof fn lemma_key_order_transitive(a: GroupingKey, b: GroupingKey, c: GroupingKey)
    requires
        key_order(a, b) <= 0,
        key_order(b, c) <= 0,
    ensures
        key_order(a, c) <= 0,
{
    lemma_path_order_basics(a.0, b.0);
    lemma_path_order_basics(b.0, c.0);
    lemma_path_order_basics(a.0, c.0);
    lemma_path_order_transitive(a.0, b.0, c.0);
    if a.0 == b.0 && b.0 == c.0 {
        lemma_text_order_transitive(a.1, b.1, c.1);
    }
}

/// A key that sorts no later than one that sorts strictly before a third
/// also sorts strictly before the third.
pub proof fn lemma_key_order_strict(a: GroupingKey, b: GroupingKey, c: GroupingKey)
    requires
        key_order(a, b) <= 0,
        key_order(b, c) < 0,
    ensures
        key_order(a, c) < 0,
{
    lemma_key_order_transitive(a, b, c);
    lemma_key_order_basics(a, c);
    lemma_key_order_basics(b, c);
    lemma_key_order_basics(a, b);
}

/// `grouping_cmp(a, b)` is the reverse of `grouping_cmp(b, a)`.
pub proof fn law_grouping_cmp_antisymmetric(a: PublicItem, b: PublicItem)
    ensures
        key_order(a.grouping_key(), b.grouping_key()) == -key_order(b.grouping_key(), a.grouping_key()),
{
    lemma_key_order_basics(a.grouping_key(), b.grouping_key());
}

/// `grouping_cmp` is transitive: if `a` sorts no later than `b` and `b` no
/// later than `c`, then `a` sorts no later than `c`.
pub proof fn law_grouping_cmp_transitive(a: PublicItem, b: PublicItem, c: PublicItem)
    requires
        key_order(a.grouping_key(), b.grouping_key()) <= 0,
        key_order(b.grouping_key(), c.grouping_key()) <= 0,
    ensures
        key_order(a.grouping_key(), c.grouping_key()) <= 0,
{
    lemma_key_order_transitive(a.grouping_key(), b.grouping_key(), c.grouping_key());
}

/// `grouping_cmp` finds two items equal exactly when they have the same
/// sortable path and are displayed as the same text.
pub proof fn law_grouping_cmp_equal_iff_same_path_and_text(a: PublicItem, b: PublicItem)
    ensures
        key_order(a.grouping_key(), b.grouping_key()) == 0 <==> (a.path_spec() == b.path_spec()
            && a.text_spec() == b.text_spec()),
{
    lemma_key_order_basics(a.grouping_key(), b.grouping_key());
}

/// Items are grouped by their sortable paths first: an item whose path sorts
/// before another's sorts before it, whatever their texts.
pub proof fn law_grouping_cmp_orders_by_path_first(a: PublicItem, b: PublicItem)
    requires
        path_order(a.path_spec(), b.path_spec()) < 0,
    ensures
        key_order(a.grouping_key(), b.grouping_key()) < 0,
{
}

/// `grouping_cmp` orders items by the first component where their sortable
/// paths differ, as that component's text orders; an item whose path is a
/// proper prefix of the other's sorts first.
pub proof fn law_grouping_cmp_compares_paths_lexically(a: PublicItem, b: PublicItem, i: int)
    requires
        0 <= i <= a.path_spec().len(),
        i <= b.path_spec().len(),
        forall|j: int| 0 <= j < i ==> a.path_spec()[j] == b.path_spec()[j],
    ensures
        i < a.path_spec().len() && i < b.path_spec().len() && a.path_spec()[i] != b.path_spec()[i]
            ==> key_order(a.grouping_key(), b.grouping_key()) == text_order(a.path_spec()[i], b.path_spec()[i]),
        i == a.path_spec().len() && i < b.path_spec().len() ==> key_order(a.grouping_key(), b.grouping_key()) == -1,
{
    if i < a.path_spec().len() && i < b.path_spec().len() && a.path_spec()[i] != b.path_spec()[i] {
        law_path_order_first_difference(a.path_spec(), b.path_spec(), i);
    }
    if i == a.path_spec().len() && i < b.path_spec().len() {
        law_path_order_prefix_first(a.path_spec(), b.path_spec());
    }
}

/// Items with the same sortable path are ordered by the text they are
/// displayed as.
pub proof fn law_grouping_cmp_falls_back_to_text(a: PublicItem, b: PublicItem)
    requires
        a.path_spec() == b.path_spec(),
    ensures
        key_order(a.grouping_key(), b.grouping_key()) == text_order(a.text_spec(), b.text_spec()),
{
    lemma_path_order_basics(a.path_spec(), b.path_spec());
}

/// Two items are equal exactly when they are rendered to the same tokens,
/// token by token: items with token sequences of different lengths are never
/// equal, and their paths and contexts play no part.
pub proof fn law_eq_compares_all_tokens(a: PublicItem, b: PublicItem)
    ensures
        a.eq_spec(&b) <==> (a.tokens_spec().len() == b.tokens_spec().len() && forall|i: int|
            0 <= i < a.tokens_spec().len() ==> a.tokens_spec()[i] == b.tokens_spec()[i]),
        a.tokens_spec().len() != b.tokens_spec().len() ==> !a.eq_spec(&b),
{
    if a.tokens_spec().len() == b.tokens_spec().len() && forall|i: int|
        0 <= i < a.tokens_spec().len() ==> a.tokens_spec()[i] == b.tokens_spec()[i] {
        assert(a.tokens_spec() =~= b.tokens_spec());
    }
}

impl PublicItem {
    /// The sortable path of the item, each component by its characters.
    pub closed spec fn path_spec(&self) -> Seq<Seq<char>> {
        path_view(self.sortable_path@)
    }

    /// The tokens of the item, each by its view.
    pub closed spec fn tokens_spec(&self) -> Seq<TokenView> {
        tokens_view(self.tokens@)
    }

    /// The text the item is displayed as: the text of its tokens.
    pub open spec fn text_spec(&self) -> Seq<char> {
        tokens_text(self.tokens_spec())
    }

    /// The display-only context of the item, if any.
    pub closed spec fn context_spec(&self) -> Option<Seq<char>> {
        match self.context {
            Some(c) => Some(c@),
            None => None,
        }
    }

    /// What the item is grouped and ordered by.
    pub open spec fn grouping_key(&self) -> GroupingKey {
        (self.path_spec(), self.text_spec())
    }

    /// The text of the item followed, if it has a context, by a space and
    /// the context.
    pub open spec fn text_with_context_spec(&self) -> Seq<char> {
        match self.context_spec() {
            Some(c) => self.text_spec() + seq![' '] + c,
            None => self.text_spec(),
        }
    }

    /// Makes an item from its sortable path, its tokens and its context.
    pub fn new(sortable_path: Vec<String>, tokens: Vec<Token>, context: Option<String>) -> (r: PublicItem)
        ensures
            r.path_spec() == path_view(sortable_path@),
            r.tokens_spec() == tokens_view(tokens@),
            r.context_spec() == (match context {
                Some(c) => Some(c@),
                None => None::<Seq<char>>,
            }),
    {
        PublicItem { sortable_path, tokens, context }
    }

    /// Makes the public item of a crate from its intermediate form, the
    /// tokens it is rendered as and, if it has a logical parent, the parent's
    /// item and the tokens the parent is rendered as. For items of a trait
    /// impl, the rendered impl header is kept as display-only context.
    pub fn from_intermediate_public_item(
        public_item: &IntermediatePublicItem<'_>,
        tokens: Vec<Token>,
        parent: Option<(&Item, Vec<Token>)>,
    ) -> (r: PublicItem)
        ensures
            r.path_spec() == public_item.sortable_path_spec(),
            r.tokens_spec() == tokens_view(tokens@),
            r.context_spec() == impl_context_spec(
                match parent {
                    Some((item, rendered)) => Some((*item, tokens_view(rendered@))),
                    None => None,
                },
            ),
    {
        // For items of a trait impl, capture the rendered impl header as
        // display-only context.
        let context = match parent {
            Some((item, rendered)) => {
                if item_is_trait_impl(item) {
                    let mut c = String::from_str("[impl: ");
                    let header = tokens_to_string(&rendered);
                    c.append(header.as_str());
                    c.append("]");
                    Some(c)
                } else {
                    None
                }
            },
            None => None,
        };
        PublicItem { sortable_path: public_item.sortable_path(), tokens, context }
    }

    /// The display-only context of this item (e.g. the trait impl header it
    /// belongs to), if any.
    pub fn context(&self) -> (r: Option<&str>)
        ensures
            r is Some <==> self.context_spec() is Some,
            r matches Some(c) ==> self.context_spec() == Some(c@),
    {
        match &self.context {
            Some(c) => Some(c.as_str()),
            None => None,
        }
    }

    /// The item as it is displayed: the text of its tokens.
    pub fn to_string(&self) -> (r: String)
        ensures
            r@ == self.text_spec(),
    {
        tokens_to_string(&self.tokens)
    }

    /// The item displayed with its context appended, if any, after a space.
    pub fn display_with_context(&self) -> (r: String)
        ensures
            r@ == self.text_with_context_spec(),
    {
        let mut r = self.to_string();
        match &self.context {
            Some(ctx) => {
                let space = " ";
                proof {
                    reveal_strlit(" ");
                }
                r.append(space);
                r.append(ctx.as_str());
            },
            None => {},
        }
        r
    }

    /// Special version of `cmp` that is used to sort public items in a way
    /// that makes them grouped logically. For example, struct fields will be
    /// put right after the struct they are part of.
    ///
    /// Items are compared by their sortable paths first, and by their
    /// rendered text when the paths are equal.
    pub fn grouping_cmp(&self, other: &Self) -> (r: Ordering)
        ensures
            r == ordering_of(key_order(self.grouping_key(), other.grouping_key())),
    {
        // This will make e.g. struct and struct fields be grouped together.
        if let Some(ordering) = different_or_none(&self.sortable_path, &other.sortable_path) {
            return ordering;
        }
        // Fall back to lexical sorting if the above is not sufficient
        let a = self.to_string();
        let b = other.to_string();
        let c = compare_text(a.as_str(), b.as_str());
        if c < 0 {
            Ordering::Less
        } else if c == 0 {
            Ordering::Equal
        } else {
            Ordering::Greater
        }
    }
}

/// Returns `None` if two paths are equal. Otherwise their ordering is
/// returned.
pub fn different_or_none(a: &Vec<String>, b: &Vec<String>) -> (r: Option<Ordering>)
    ensures
        r == (if path_order(path_view(a@), path_view(b@)) == 0 {
            None
        } else {
            Some(ordering_of(path_order(path_view(a@), path_view(b@))))
        }),
{
    let c = compare_paths(a, b);
    if c < 0 {
        Some(Ordering::Less)
    } else if c == 0 {
        None
    } else {
        Some(Ordering::Greater)
    }
}

impl PartialEq for PublicItem {
    fn eq(&self, other: &Self) -> (r: bool) {
        tokens_equal(&self.tokens, &other.tokens)
    }
}

impl vstd::std_specs::cmp::PartialEqSpecImpl for PublicItem {
    open spec fn obeys_eq_spec() -> bool {
        true
    }

    open spec fn eq_spec(&self, other: &PublicItem) -> bool {
        self.tokens_spec() == other.tokens_spec()
    }
}

impl Eq for PublicItem {
}

impl std::hash::Hash for PublicItem {
    /// Hashes the tokens alone, as `==` compares them alone.
    ///
    /// Trusted: calls `Hash::hash` of `std` on the tokens; nothing is
    /// claimed of it.
    #[verifier::external_body]
    fn hash<H: std::hash::Hasher>(&self, state: &mut H) {
        self.tokens.hash(state)
    }
}

} // verus!
