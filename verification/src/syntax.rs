//! The syntax of a query-group trait, as far as the expansion looks into it:
//! the trait, its members, the signature and the parameters of a method.
//! Everything that is only passed along is held as token streams, and so is
//! the body of a method.
//!
//! Each type has a mathematical model, its view, in which a token stream is
//! a `Seq` of token tree models. Contracts are stated over the views.

use crate::token::{Ident, IdentView, Span, TokenStream, TokenTreeView};
use vstd::prelude::*;

verus! {

/// The `self` parameter of a method, with or without a reference in front.
#[derive(Debug, PartialEq, Eq)]
pub struct Receiver {
    pub attrs: TokenStream,
    /// The tokens in front of `self`: `&`, a lifetime, `mut`.
    pub reference: TokenStream,
    /// Position of the `self` token.
    pub self_token: Span,
}

/// Mathematical model of a [`Receiver`].
pub ghost struct ReceiverView {
    pub attrs: Seq<TokenTreeView>,
    pub reference: Seq<TokenTreeView>,
    pub self_token: Span,
}

impl View for Receiver {
    type V = ReceiverView;

    open spec fn view(&self) -> ReceiverView {
        ReceiverView {
            attrs: self.attrs@,
            reference: self.reference@,
            self_token: self.self_token,
        }
    }
}

/// The type of a parameter.
#[derive(Debug, PartialEq, Eq)]
pub enum Type {
    /// Any type, as written.
    Verbatim(TokenStream),
    /// `&impl Trait`: a reference to anything that implements the named trait.
    RefImplTrait(Ident),
}

/// Mathematical model of a [`Type`].
pub ghost enum TypeView {
    Verbatim(Seq<TokenTreeView>),
    RefImplTrait(IdentView),
}

impl View for Type {
    type V = TypeView;

    open spec fn view(&self) -> TypeView {
        match self {
            Type::Verbatim(tokens) => TypeView::Verbatim(tokens@),
            Type::RefImplTrait(bound) => TypeView::RefImplTrait(bound@),
        }
    }
}

/// A parameter written as `pattern: type`.
#[derive(Debug, PartialEq, Eq)]
pub struct PatType {
    pub attrs: TokenStream,
    pub pat: TokenStream,
    pub ty: Type,
}

/// Mathematical model of a [`PatType`].
pub ghost struct PatTypeView {
    pub attrs: Seq<TokenTreeView>,
    pub pat: Seq<TokenTreeView>,
    pub ty: TypeView,
}

impl View for PatType {
    type V = PatTypeView;

    open spec fn view(&self) -> PatTypeView {
        PatTypeView { attrs: self.attrs@, pat: self.pat@, ty: self.ty@ }
    }
}

/// One parameter of a method or function.
#[derive(Debug, PartialEq, Eq)]
pub enum FnArg {
    Receiver(Receiver),
    Typed(PatType),
}

/// Mathematical model of a [`FnArg`].
pub ghost enum FnArgView {
    Receiver(ReceiverView),
    Typed(PatTypeView),
}

impl View for FnArg {
    type V = FnArgView;

    open spec fn view(&self) -> FnArgView {
        match self {
            FnArg::Receiver(r) => FnArgView::Receiver(r@),
            FnArg::Typed(p) => FnArgView::Typed(p@),
        }
    }
}

/// The models of a parameter list, in order.
pub open spec fn args_view(s: Seq<FnArg>) -> Seq<FnArgView> {
    Seq::new(s.len(), |i: int| s[i]@)
}

/// A method or function signature: everything from the qualifiers in front of
/// `fn` to the `where` clause.
#[derive(Debug, PartialEq, Eq)]
pub struct Signature {
    /// `const`, `async`, `unsafe`, `extern "abi"`.
    pub qualifiers: TokenStream,
    pub ident: Ident,
    pub generics: TokenStream,
    pub inputs: Vec<FnArg>,
    /// The return type with its arrow; empty where there is none.
    pub output: TokenStream,
    pub where_clause: TokenStream,
}

/// Mathematical model of a [`Signature`].
pub ghost struct SignatureView {
    pub qualifiers: Seq<TokenTreeView>,
    pub ident: IdentView,
    pub generics: Seq<TokenTreeView>,
    pub inputs: Seq<FnArgView>,
    pub output: Seq<TokenTreeView>,
    pub where_clause: Seq<TokenTreeView>,
}

impl View for Signature {
    type V = SignatureView;

    open spec fn view(&self) -> SignatureView {
        SignatureView {
            qualifiers: self.qualifiers@,
            ident: self.ident@,
            generics: self.generics@,
            inputs: args_view(self.inputs@),
            output: self.output@,
            where_clause: self.where_clause@,
        }
    }
}

/// A braced body.
#[derive(Debug, PartialEq, Eq)]
pub struct Block {
    /// Position of the braces.
    pub brace: Span,
    pub stmts: TokenStream,
}

/// Mathematical model of a [`Block`].
pub ghost struct BlockView {
    pub brace: Span,
    pub stmts: Seq<TokenTreeView>,
}

impl View for Block {
    type V = BlockView;

    open spec fn view(&self) -> BlockView {
        BlockView { brace: self.brace, stmts: self.stmts@ }
    }
}

/// A method of a trait: a plain signature, or an inline definition where
/// `default` holds a body.
#[derive(Debug, PartialEq, Eq)]
pub struct TraitItemMethod {
    pub attrs: TokenStream,
    pub sig: Signature,
    pub default: Option<Block>,
}

/// Mathematical model of a [`TraitItemMethod`].
pub ghost struct TraitItemMethodView {
    pub attrs: Seq<TokenTreeView>,
    pub sig: SignatureView,
    pub default: Option<BlockView>,
}

impl View for TraitItemMethod {
    type V = TraitItemMethodView;

    open spec fn view(&self) -> TraitItemMethodView {
        TraitItemMethodView {
            attrs: self.attrs@,
            sig: self.sig@,
            default: match self.default {
                Some(block) => Some(block@),
                None => None,
            },
        }
    }
}

/// A member of a trait.
#[derive(Debug, PartialEq, Eq)]
pub enum TraitItem {
    Method(TraitItemMethod),
    /// Any member that is not a method, as written.
    Verbatim(TokenStream),
}

/// Mathematical model of a [`TraitItem`].
pub ghost enum TraitItemView {
    Method(TraitItemMethodView),
    Verbatim(Seq<TokenTreeView>),
}

impl View for TraitItem {
    type V = TraitItemView;

    open spec fn view(&self) -> TraitItemView {
        match self {
            TraitItem::Method(m) => TraitItemView::Method(m@),
            TraitItem::Verbatim(tokens) => TraitItemView::Verbatim(tokens@),
        }
    }
}

/// The models of a member list, in order.
pub open spec fn items_view(s: Seq<TraitItem>) -> Seq<TraitItemView> {
    Seq::new(s.len(), |i: int| s[i]@)
}

/// A trait declaration.
#[derive(Debug, PartialEq, Eq)]
pub struct ItemTrait {
    pub attrs: TokenStream,
    /// Visibility, `unsafe`, `auto`.
    pub qualifiers: TokenStream,
    pub ident: Ident,
    pub generics: TokenStream,
    pub supertraits: TokenStream,
    pub where_clause: TokenStream,
    pub items: Vec<TraitItem>,
}

/// Mathematical model of an [`ItemTrait`].
pub ghost struct ItemTraitView {
    pub attrs: Seq<TokenTreeView>,
    pub qualifiers: Seq<TokenTreeView>,
    pub ident: IdentView,
    pub generics: Seq<TokenTreeView>,
    pub supertraits: Seq<TokenTreeView>,
    pub where_clause: Seq<TokenTreeView>,
    pub items: Seq<TraitItemView>,
}

impl View for ItemTrait {
    type V = ItemTraitView;

    open spec fn view(&self) -> ItemTraitView {
        ItemTraitView {
            attrs: self.attrs@,
            qualifiers: self.qualifiers@,
            ident: self.ident@,
            generics: self.generics@,
            supertraits: self.supertraits@,
            where_clause: self.where_clause@,
            items: items_view(self.items@),
        }
    }
}

/// A free function.
#[derive(Debug, PartialEq, Eq)]
pub struct ItemFn {
    pub attrs: TokenStream,
    /// Visibility; empty for a private function.
    pub vis: TokenStream,
    pub sig: Signature,
    pub block: Block,
}

/// Mathematical model of an [`ItemFn`].
pub ghost struct ItemFnView {
    pub attrs: Seq<TokenTreeView>,
    pub vis: Seq<TokenTreeView>,
    pub sig: SignatureView,
    pub block: BlockView,
}

impl View for ItemFn {
    type V = ItemFnView;

    open spec fn view(&self) -> ItemFnView {
        ItemFnView { attrs: self.attrs@, vis: self.vis@, sig: self.sig@, block: self.block@ }
    }
}

/// The models of a list of functions, in order.
pub open spec fn fns_view(s: Seq<ItemFn>) -> Seq<ItemFnView> {
    Seq::new(s.len(), |i: int| s[i]@)
}

/// A top-level item of the expansion.
#[derive(Debug, PartialEq, Eq)]
pub enum Item {
    Trait(ItemTrait),
    Fn(ItemFn),
}

/// Mathematical model of an [`Item`].
pub ghost enum ItemView {
    Trait(ItemTraitView),
    Fn(ItemFnView),
}

impl View for Item {
    type V = ItemView;

    open spec fn view(&self) -> ItemView {
        match self {
            Item::Trait(t) => ItemView::Trait(t@),
            Item::Fn(f) => ItemView::Fn(f@),
        }
    }
}

/// The models of a list of items, in order.
pub open spec fn file_view(s: Seq<Item>) -> Seq<ItemView> {
    Seq::new(s.len(), |i: int| s[i]@)
}

impl Clone for Receiver {
    fn clone(&self) -> (r: Self)
        ensures
            r@ == self@,
    {
        Receiver {
            attrs: self.attrs.clone(),
            reference: self.reference.clone(),
            self_token: self.self_token,
        }
    }
}

impl Clone for Type {
    fn clone(&self) -> (r: Self)
        ensures
            r@ == self@,
    {
        match self {
            Type::Verbatim(tokens) => Type::Verbatim(tokens.clone()),
            Type::RefImplTrait(bound) => Type::RefImplTrait(bound.clone()),
        }
    }
}

impl Clone for PatType {
    fn clone(&self) -> (r: Self)
        ensures
            r@ == self@,
    {
        PatType { attrs: self.attrs.clone(), pat: self.pat.clone(), ty: self.ty.clone() }
    }
}

impl Clone for FnArg {
    fn clone(&self) -> (r: Self)
        ensures
            r@ == self@,
    {
        match self {
            FnArg::Receiver(r) => FnArg::Receiver(r.clone()),
            FnArg::Typed(p) => FnArg::Typed(p.clone()),
        }
    }
}

impl Clone for Signature {
    fn clone(&self) -> (r: Self)
        ensures
            r@ == self@,
    {
        let mut inputs: Vec<FnArg> = Vec::new();
        let mut i: usize = 0;
        while i < self.inputs.len()
            invariant
                i <= self.inputs.len(),
                inputs@.len() == i,
                forall|j: int| 0 <= j < i ==> inputs@[j]@ == self.inputs@[j]@,
            decreases self.inputs.len() - i,
        {
            inputs.push(self.inputs[i].clone());
            i += 1;
        }
        assert(args_view(inputs@) =~= args_view(self.inputs@));
        Signature {
            qualifiers: self.qualifiers.clone(),
            ident: self.ident.clone(),
            generics: self.generics.clone(),
            inputs,
            output: self.output.clone(),
            where_clause: self.where_clause.clone(),
        }
    }
}

impl Clone for Block {
    fn clone(&self) -> (r: Self)
        ensures
            r@ == self@,
    {
        Block { brace: self.brace, stmts: self.stmts.clone() }
    }
}

impl Clone for TraitItemMethod {
    fn clone(&self) -> (r: Self)
        ensures
            r@ == self@,
    {
        TraitItemMethod {
            attrs: self.attrs.clone(),
            sig: self.sig.clone(),
            default: match &self.default {
                Some(block) => Some(block.clone()),
                None => None,
            },
        }
    }
}

impl Clone for TraitItem {
    fn clone(&self) -> (r: Self)
        ensures
            r@ == self@,
    {
        match self {
            TraitItem::Method(m) => TraitItem::Method(m.clone()),
            TraitItem::Verbatim(tokens) => TraitItem::Verbatim(tokens.clone()),
        }
    }
}

impl Clone for ItemTrait {
    fn clone(&self) -> (r: Self)
        ensures
            r@ == self@,
    {
        let mut items: Vec<TraitItem> = Vec::new();
        let mut i: usize = 0;
        while i < self.items.len()
            invariant
                i <= self.items.len(),
                items@.len() == i,
                forall|j: int| 0 <= j < i ==> items@[j]@ == self.items@[j]@,
            decreases self.items.len() - i,
        {
            items.push(self.items[i].clone());
            i += 1;
        }
        assert(items_view(items@) =~= items_view(self.items@));
        ItemTrait {
            attrs: self.attrs.clone(),
            qualifiers: self.qualifiers.clone(),
            ident: self.ident.clone(),
            generics: self.generics.clone(),
            supertraits: self.supertraits.clone(),
            where_clause: self.where_clause.clone(),
            items,
        }
    }
}

impl Clone for ItemFn {
    fn clone(&self) -> (r: Self)
        ensures
            r@ == self@,
    {
        ItemFn {
            attrs: self.attrs.clone(),
            vis: self.vis.clone(),
            sig: self.sig.clone(),
            block: self.block.clone(),
        }
    }
}

impl Clone for Item {
    fn clone(&self) -> (r: Self)
        ensures
            r@ == self@,
    {
        match self {
            Item::Trait(t) => Item::Trait(t.clone()),
            Item::Fn(f) => Item::Fn(f.clone()),
        }
    }
}

} // verus!
