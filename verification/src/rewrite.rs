//! Extraction of inline query definitions: each method with a body is cut
//! down to its signature, and the body moves into a free query function.

use crate::rename::{rename_block, rename_signature, RenameSelf};
use crate::syntax::{
    fns_view, items_view, ItemFn, ItemFnView, ItemTrait, ItemTraitView, TraitItem, TraitItemMethod,
    TraitItemMethodView, TraitItemView,
};
use crate::token::{Ident, IdentView, TokenStream};
use vstd::prelude::*;

verus! {

/// Whether a member is an inline query definition: a method with a body.
pub open spec fn has_default(item: TraitItemView) -> bool {
    item matches TraitItemView::Method(m) && m.default is Some
}

/// A method without its body; attributes and signature stay as they are.
pub open spec fn strip_method(m: TraitItemMethodView) -> TraitItemMethodView {
    TraitItemMethodView { default: None, ..m }
}

/// A member without a body: a method is stripped, any other member stays as
/// it is.
pub open spec fn strip_item(item: TraitItemView) -> TraitItemView {
    match item {
        TraitItemView::Method(m) => TraitItemView::Method(strip_method(m)),
        TraitItemView::Verbatim(tokens) => TraitItemView::Verbatim(tokens),
    }
}

/// The members of a trait, each without a body, in the same order.
pub open spec fn strip_items(items: Seq<TraitItemView>) -> Seq<TraitItemView> {
    Seq::new(items.len(), |i: int| strip_item(items[i]))
}

/// A trait whose members have no bodies; everything else stays as it is.
pub open spec fn strip_trait(t: ItemTraitView) -> ItemTraitView {
    ItemTraitView { items: strip_items(t.items), ..t }
}

/// The free query function for an inline definition in the named trait: a
/// private function without attributes, with the renamed signature and the
/// renamed body of the method.
pub open spec fn query_function(trait_name: IdentView, m: TraitItemMethodView) -> ItemFnView
    recommends
        m.default is Some,
{
    ItemFnView {
        attrs: Seq::empty(),
        vis: Seq::empty(),
        sig: rename_signature(trait_name, m.sig),
        block: rename_block(m.default->0),
    }
}

/// The inline definitions among the members, in their order.
pub open spec fn inline_definitions(items: Seq<TraitItemView>) -> Seq<TraitItemView> {
    items.filter(|item: TraitItemView| has_default(item))
}

/// The query functions of a member list: one for each inline definition, in
/// the order of the definitions.
pub open spec fn query_functions(trait_name: IdentView, items: Seq<TraitItemView>) -> Seq<
    ItemFnView,
> {
    inline_definitions(items).map_values(
        |item: TraitItemView| query_function(trait_name, item->Method_0),
    )
}

/// One more member at the end adds its query function at the end, if it is
/// an inline definition, and nothing otherwise.
pub proof fn lemma_query_functions_push(
    trait_name: IdentView,
    items: Seq<TraitItemView>,
    item: TraitItemView,
)
    ensures
        query_functions(trait_name, items.push(item)) == if has_default(item) {
            query_functions(trait_name, items).push(query_function(trait_name, item->Method_0))
        } else {
            query_functions(trait_name, items)
        },
{
    reveal(Seq::filter);
    assert(items.push(item).drop_last() =~= items);
    assert(items.push(item).last() == item);
}

/// Transforms inline query definitions into free query functions.
pub struct Rewriter {
    pub trait_name: Ident,
    pub query_functions: Vec<ItemFn>,
}

impl Rewriter {
    /// Strips the body of a method. Where there was one, the query function
    /// made from it is appended to `query_functions`.
    pub fn fold_trait_item_method(&mut self, node: TraitItemMethod) -> (r: TraitItemMethod)
        ensures
            r@ == strip_method(node@),
            final(self).trait_name == old(self).trait_name,
            fns_view(final(self).query_functions@) == if node@.default is Some {
                fns_view(old(self).query_functions@).push(
                    query_function(old(self).trait_name@, node@),
                )
            } else {
                fns_view(old(self).query_functions@)
            },
    {
        let mut node = node;
        if let Some(block) = node.default.take() {
            let rename = RenameSelf { trait_name: self.trait_name.clone() };
            let func = ItemFn {
                attrs: TokenStream::new(),
                vis: TokenStream::new(),
                sig: rename.fold_signature(node.sig.clone()),
                block: rename.fold_block(block),
            };
            self.query_functions.push(func);
        }
        node
    }

    /// Strips the body of a member, if it is a method with one; see
    /// [`Rewriter::fold_trait_item_method`].
    pub fn fold_trait_item(&mut self, node: TraitItem) -> (r: TraitItem)
        ensures
            r@ == strip_item(node@),
            final(self).trait_name == old(self).trait_name,
            fns_view(final(self).query_functions@) == if has_default(node@) {
                fns_view(old(self).query_functions@).push(
                    query_function(old(self).trait_name@, node@->Method_0),
                )
            } else {
                fns_view(old(self).query_functions@)
            },
    {
        match node {
            TraitItem::Method(method) => TraitItem::Method(self.fold_trait_item_method(method)),
            TraitItem::Verbatim(tokens) => TraitItem::Verbatim(tokens),
        }
    }

    /// Strips the bodies of all members of a trait and appends the query
    /// functions made from them to `query_functions`, in the order of the
    /// members.
    pub fn fold_item_trait(&mut self, node: ItemTrait) -> (r: ItemTrait)
        ensures
            r@ == strip_trait(node@),
            final(self).trait_name == old(self).trait_name,
            fns_view(final(self).query_functions@) == fns_view(old(self).query_functions@)
                + query_functions(old(self).trait_name@, node@.items),
    {
        let ghost before = node.items@;
        let ghost collected = fns_view(self.query_functions@);
        let mut items: Vec<TraitItem> = Vec::new();
        for item in it: node.items
            invariant
                it.seq() == before,
                self.trait_name == old(self).trait_name,
                items@.len() == it.index(),
                forall|j: int| 0 <= j < it.index() ==> items@[j]@ == strip_item(before[j]@),
                fns_view(self.query_functions@) == collected + query_functions(
                    self.trait_name@,
                    items_view(before.take(it.index() as int)),
                ),
        {
            proof {
                let done = before.take(it.index() as int);
                lemma_query_functions_push(self.trait_name@, items_view(done), item@);
                assert(items_view(before.take(it.index() + 1)) =~= items_view(done).push(item@));
            }
            let folded = self.fold_trait_item(item);
            items.push(folded);
        }
        assert(before.take(before.len() as int) =~= before);
        assert(items_view(items@) =~= strip_items(items_view(before)));
        ItemTrait {
            attrs: node.attrs,
            qualifiers: node.qualifiers,
            ident: node.ident,
            generics: node.generics,
            supertraits: node.supertraits,
            where_clause: node.where_clause,
            items,
        }
    }
}

} // verus!
