//! Inline query definitions for query-group traits.
//!
//! A query-group trait may define a query in place, as a method with a body:
//!
//! ```text
//! trait SourceDatabase: std::fmt::Debug {
//!     fn source_text(&self, file_id: u32) -> Arc<String>;
//!
//!     fn source_len(&self, file_id: u32) -> usize {
//!         let text = self.source_text(file_id);
//!         text.len()
//!     }
//! }
//! ```
//!
//! [`salsa_inline_query`] turns such a trait into a trait of plain signatures
//! and one free query function for each inline definition:
//!
//! ```text
//! trait SourceDatabase: std::fmt::Debug {
//!     fn source_text(&self, file_id: u32) -> Arc<String>;
//!
//!     fn source_len(&self, file_id: u32) -> usize;
//! }
//!
//! fn source_len(__salsa_db: &impl SourceDatabase, file_id: u32) -> usize {
//!     let text = __salsa_db.source_text(file_id);
//!     text.len()
//! }
//! ```
//!
//! The name `__salsa_db` is reserved: the trait must not use it.

pub mod laws;
pub mod occurrences;
pub mod rename;
pub mod rewrite;
pub mod syntax;
pub mod token;

use crate::rewrite::{inline_definitions, query_functions, strip_trait, Rewriter};
use crate::syntax::{file_view, Item, ItemFnView, ItemTrait, ItemTraitView, ItemView};
use crate::token::TokenStream;
use vstd::prelude::*;

verus! {

/// The expansion of a query-group trait: the trait without bodies, followed
/// by the query functions of its inline definitions, in their order.
pub open spec fn expansion(input: ItemTraitView) -> Seq<ItemView> {
    seq![ItemView::Trait(strip_trait(input))] + query_functions(
        input.ident,
        input.items,
    ).map_values(|f: ItemFnView| ItemView::Fn(f))
}

/// Supports inline query definitions within query-group traits: expands the
/// trait into the items that stand in its place. The attribute takes no
/// arguments; whatever it is given is ignored.
pub fn salsa_inline_query(_attr: TokenStream, input: ItemTrait) -> (out: Vec<Item>)
    ensures
        file_view(out@) == expansion(input@),
        out@.len() == 1 + inline_definitions(input@.items).len(),
{
    let mut rewriter = Rewriter { trait_name: input.ident.clone(), query_functions: Vec::new() };
    let query_group_trait = rewriter.fold_item_trait(input);
    let ghost functions = rewriter.query_functions@;
    let mut out: Vec<Item> = Vec::new();
    out.push(Item::Trait(query_group_trait));
    for function in it: rewriter.query_functions
        invariant
            it.seq() == functions,
            out@.len() == 1 + it.index(),
            out@[0]@ == ItemView::Trait(strip_trait(input@)),
            forall|j: int| 0 <= j < it.index() ==> out@[1 + j]@ == ItemView::Fn(functions[j]@),
    {
        out.push(Item::Fn(function));
    }
    assert(file_view(out@) =~= expansion(input@));
    out
}

} // verus!
