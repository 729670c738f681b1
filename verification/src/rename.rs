//! Renaming of the receiver: every `self` identifier becomes the database
//! argument of the free query function.

use crate::syntax::{
    args_view, Block, BlockView, FnArg, FnArgView, PatType, PatTypeView, Signature, SignatureView,
    Type, TypeView,
};
use crate::token::{
    Group, GroupView, Ident, IdentView, Span, TokenStream, TokenTree, TokenTreeView,
};
use vstd::prelude::*;

verus! {

/// Name of the database argument that replaces `self` in a query function.
pub const DB_ARG_NAME: &'static str = "__salsa_db";

/// Text of the receiver token.
pub const SELF_NAME: &'static str = "self";

/// What an identifier becomes: a `self` turns into the database argument at
/// the same source position, any other identifier stays as it is.
pub open spec fn rename_ident(i: IdentView) -> IdentView {
    if i.name == SELF_NAME@ {
        IdentView { name: DB_ARG_NAME@, span: i.span }
    } else {
        i
    }
}

/// What a token tree becomes: identifiers are renamed at every depth, all
/// other tokens and the group structure stay as they are.
pub open spec fn rename_tree(t: TokenTreeView) -> TokenTreeView
    decreases t,
{
    match t {
        TokenTreeView::Group(g) => TokenTreeView::Group(
            GroupView { stream: rename_stream(g.stream), ..g },
        ),
        TokenTreeView::Ident(i) => TokenTreeView::Ident(rename_ident(i)),
        TokenTreeView::Punct(p) => TokenTreeView::Punct(p),
        TokenTreeView::Literal(l) => TokenTreeView::Literal(l),
    }
}

/// What a run of token trees becomes: each tree renamed, in place.
pub open spec fn rename_stream(s: Seq<TokenTreeView>) -> Seq<TokenTreeView>
    decreases s,
{
    Seq::new(
        s.len(),
        |i: int|
            if 0 <= i < s.len() {
                rename_tree(s[i])
            } else {
                arbitrary()
            },
    )
}

/// The pattern of the database argument: its name, at the given position.
pub open spec fn db_pattern(span: Span) -> Seq<TokenTreeView> {
    seq![TokenTreeView::Ident(IdentView { name: DB_ARG_NAME@, span })]
}

/// What a parameter becomes in a query of the named trait: a receiver turns
/// into the database argument, typed as a reference to anything that
/// implements the trait and placed where `self` stood; any other parameter
/// stays as it is. The attributes and the reference of the receiver are gone.
pub open spec fn rename_arg(trait_name: IdentView, a: FnArgView) -> FnArgView {
    match a {
        FnArgView::Receiver(r) => FnArgView::Typed(
            PatTypeView {
                attrs: Seq::empty(),
                pat: db_pattern(r.self_token),
                ty: TypeView::RefImplTrait(trait_name),
            },
        ),
        FnArgView::Typed(p) => FnArgView::Typed(p),
    }
}

/// What a parameter list becomes: each parameter renamed, in place.
pub open spec fn rename_args(trait_name: IdentView, args: Seq<FnArgView>) -> Seq<FnArgView> {
    Seq::new(args.len(), |i: int| rename_arg(trait_name, args[i]))
}

/// What a signature becomes: its parameters renamed; name, qualifiers,
/// generics, return type and `where` clause stay as they are.
pub open spec fn rename_signature(trait_name: IdentView, s: SignatureView) -> SignatureView {
    SignatureView { inputs: rename_args(trait_name, s.inputs), ..s }
}

/// What a body becomes: its tokens renamed, between the same braces.
pub open spec fn rename_block(b: BlockView) -> BlockView {
    BlockView { brace: b.brace, stmts: rename_stream(b.stmts) }
}

/// Whether two strings hold the same text.
fn same_text(a: &str, b: &str) -> (r: bool)
    ensures
        r == (a@ == b@),
{
    let x = a.as_bytes();
    let y = b.as_bytes();
    proof {
        vstd::utf8::encode_utf8_decode_utf8(a@);
        vstd::utf8::encode_utf8_decode_utf8(b@);
    }
    if x.len() != y.len() {
        return false;
    }
    let mut i: usize = 0;
    while i < x.len()
        invariant
            i <= x.len(),
            x.len() == y.len(),
            x@ == vstd::utf8::encode_utf8(a@),
            y@ == vstd::utf8::encode_utf8(b@),
            forall|j: int| 0 <= j < i ==> x@[j] == y@[j],
        decreases x.len() - i,
    {
        if x[i] != y[i] {
            return false;
        }
        i += 1;
    }
    assert(x@ =~= y@);
    true
}

/// Renames `self` to the database argument of a query of `trait_name`.
pub struct RenameSelf {
    pub trait_name: Ident,
}

impl RenameSelf {
    /// Renames an identifier if it is `self`.
    pub fn fold_ident(&self, node: Ident) -> (r: Ident)
        ensures
            r@ == rename_ident(node@),
    {
        if same_text(node.name.as_str(), SELF_NAME) {
            Ident::new(DB_ARG_NAME, node.span)
        } else {
            node
        }
    }

    /// Replaces a receiver by the database argument of the query function.
    pub fn fold_fn_arg(&self, node: FnArg) -> (r: FnArg)
        ensures
            r@ == rename_arg(self.trait_name@, node@),
    {
        match node {
            FnArg::Receiver(receiver) => {
                let db = Ident::new(DB_ARG_NAME, receiver.self_token);
                let mut pat = TokenStream::new();
                pat.trees.push(TokenTree::Ident(db));
                assert(pat@ =~= db_pattern(receiver.self_token));
                FnArg::Typed(
                    PatType {
                        attrs: TokenStream::new(),
                        pat,
                        ty: Type::RefImplTrait(self.trait_name.clone()),
                    },
                )
            },
            FnArg::Typed(typed) => FnArg::Typed(typed),
        }
    }

    /// Renames the parameters of a signature.
    pub fn fold_signature(&self, node: Signature) -> (r: Signature)
        ensures
            r@ == rename_signature(self.trait_name@, node@),
    {
        let ghost before = node.inputs@;
        let mut inputs: Vec<FnArg> = Vec::new();
        for arg in it: node.inputs
            invariant
                it.seq() == before,
                inputs@.len() == it.index(),
                forall|j: int|
                    0 <= j < it.index() ==> inputs@[j]@ == rename_arg(
                        self.trait_name@,
                        before[j]@,
                    ),
        {
            let folded = self.fold_fn_arg(arg);
            inputs.push(folded);
        }
        assert(args_view(inputs@) =~= rename_signature(self.trait_name@, node@).inputs);
        Signature {
            qualifiers: node.qualifiers,
            ident: node.ident,
            generics: node.generics,
            inputs,
            output: node.output,
            where_clause: node.where_clause,
        }
    }

    /// Renames every `self` in a body.
    pub fn fold_block(&self, node: Block) -> (r: Block)
        ensures
            r@ == rename_block(node@),
    {
        Block { brace: node.brace, stmts: self.fold_token_stream(node.stmts) }
    }

    /// Renames every `self` in a token tree, at any depth.
    pub fn fold_token_tree(&self, node: TokenTree) -> (r: TokenTree)
        ensures
            r@ == rename_tree(node@),
        decreases node,
    {
        match node {
            TokenTree::Group(g) => {
                let stream = self.fold_token_stream(g.stream);
                TokenTree::Group(Group { delimiter: g.delimiter, stream, span: g.span })
            },
            TokenTree::Ident(i) => TokenTree::Ident(self.fold_ident(i)),
            TokenTree::Punct(p) => TokenTree::Punct(p),
            TokenTree::Literal(l) => TokenTree::Literal(l),
        }
    }

    /// Renames every `self` in a run of token trees.
    pub fn fold_token_stream(&self, node: TokenStream) -> (r: TokenStream)
        ensures
            r@ == rename_stream(node@),
        decreases node,
    {
        let ghost before = node.trees@;
        let mut trees: Vec<TokenTree> = Vec::new();
        for t in it: node.trees
            invariant
                it.seq() == before,
                trees@.len() == it.index(),
                forall|j: int| 0 <= j < it.index() ==> trees@[j]@ == rename_tree(before[j]@),
        {
            let folded = self.fold_token_tree(t);
            trees.push(folded);
        }
        TokenStream { trees }
    }
}

} // verus!
