//! Token trees: the shape in which method bodies, and all syntax that is
//! only passed along, are held.
//!
//! A token is an identifier, a punctuation character or a literal; a group
//! is a bracketed run of token trees. Blocks, closure bodies, match arms,
//! loop bodies and call arguments all are groups or stand within groups, so
//! that whoever visits every group reaches every identifier of a body.
//!
//! Each type has a mathematical model, its view: strings become `Seq<char>`,
//! vectors become `Seq`. Contracts are stated over the views.

use vstd::prelude::*;

verus! {

/// Source-position key of a token. It is never interpreted, only carried along.
#[derive(Clone, Copy, Debug, PartialEq, Eq, Structural)]
pub struct Span {
    pub id: usize,
}

/// An identifier or keyword token.
#[derive(Debug, PartialEq, Eq)]
pub struct Ident {
    pub name: String,
    pub span: Span,
}

/// Mathematical model of an [`Ident`].
pub ghost struct IdentView {
    pub name: Seq<char>,
    pub span: Span,
}

impl View for Ident {
    type V = IdentView;

    open spec fn view(&self) -> IdentView {
        IdentView { name: self.name@, span: self.span }
    }
}

/// The bracket kind of a [`Group`].
#[derive(Clone, Copy, Debug, PartialEq, Eq, Structural)]
pub enum Delimiter {
    Parenthesis,
    Brace,
    Bracket,
    Invisible,
}

/// A punctuation character.
#[derive(Clone, Copy, Debug, PartialEq, Eq, Structural)]
pub struct Punct {
    pub ch: char,
    pub joint: bool,
    pub span: Span,
}

/// A literal, held as its source text.
#[derive(Debug, PartialEq, Eq)]
pub struct Literal {
    pub text: String,
    pub span: Span,
}

/// Mathematical model of a [`Literal`].
pub ghost struct LiteralView {
    pub text: Seq<char>,
    pub span: Span,
}

impl View for Literal {
    type V = LiteralView;

    open spec fn view(&self) -> LiteralView {
        LiteralView { text: self.text@, span: self.span }
    }
}

/// A delimited run of token trees.
#[derive(Debug, PartialEq, Eq)]
pub struct Group {
    pub delimiter: Delimiter,
    pub stream: TokenStream,
    pub span: Span,
}

/// A single token or a delimited group of tokens.
#[derive(Debug, PartialEq, Eq)]
pub enum TokenTree {
    Group(Group),
    Ident(Ident),
    Punct(Punct),
    Literal(Literal),
}

/// A run of token trees.
#[derive(Debug, PartialEq, Eq)]
pub struct TokenStream {
    pub trees: Vec<TokenTree>,
}

/// Mathematical model of a [`Group`].
pub ghost struct GroupView {
    pub delimiter: Delimiter,
    pub stream: Seq<TokenTreeView>,
    pub span: Span,
}

/// Mathematical model of a [`TokenTree`]; a run of token trees is modelled
/// as a `Seq` of these.
pub ghost enum TokenTreeView {
    Group(GroupView),
    Ident(IdentView),
    Punct(Punct),
    Literal(LiteralView),
}

/// The model of one token tree.
pub open spec fn tree_view(t: TokenTree) -> TokenTreeView
    decreases t,
{
    match t {
        TokenTree::Group(g) => TokenTreeView::Group(
            GroupView {
                delimiter: g.delimiter,
                stream: stream_view(g.stream.trees@),
                span: g.span,
            },
        ),
        TokenTree::Ident(i) => TokenTreeView::Ident(i@),
        TokenTree::Punct(p) => TokenTreeView::Punct(p),
        TokenTree::Literal(l) => TokenTreeView::Literal(l@),
    }
}

/// The model of a run of token trees: the models of its elements, in order.
pub open spec fn stream_view(s: Seq<TokenTree>) -> Seq<TokenTreeView>
    decreases s,
{
    Seq::new(
        s.len(),
        |i: int|
            if 0 <= i < s.len() {
                tree_view(s[i])
            } else {
                arbitrary()
            },
    )
}

impl View for Group {
    type V = GroupView;

    open spec fn view(&self) -> GroupView {
        GroupView { delimiter: self.delimiter, stream: self.stream@, span: self.span }
    }
}

impl View for TokenTree {
    type V = TokenTreeView;

    open spec fn view(&self) -> TokenTreeView {
        tree_view(*self)
    }
}

impl View for TokenStream {
    type V = Seq<TokenTreeView>;

    open spec fn view(&self) -> Seq<TokenTreeView> {
        stream_view(self.trees@)
    }
}

impl Ident {
    /// An identifier with the given text at the given position.
    pub fn new(name: &str, span: Span) -> (r: Self)
        ensures
            r@ == (IdentView { name: name@, span }),
    {
        Ident { name: name.to_owned(), span }
    }
}

impl TokenStream {
    /// The empty token stream.
    pub fn new() -> (r: Self)
        ensures
            r.trees@ == Seq::<TokenTree>::empty(),
            r@ == Seq::<TokenTreeView>::empty(),
    {
        TokenStream { trees: Vec::new() }
    }
}

impl Clone for Ident {
    fn clone(&self) -> (r: Self)
        ensures
            r@ == self@,
    {
        Ident { name: self.name.clone(), span: self.span }
    }
}

impl Clone for Literal {
    fn clone(&self) -> (r: Self)
        ensures
            r@ == self@,
    {
        Literal { text: self.text.clone(), span: self.span }
    }
}

impl Clone for Group {
    fn clone(&self) -> (r: Self)
        ensures
            r@ == self@,
        decreases self,
    {
        Group { delimiter: self.delimiter, stream: self.stream.clone(), span: self.span }
    }
}

impl Clone for TokenTree {
    fn clone(&self) -> (r: Self)
        ensures
            r@ == self@,
        decreases self,
    {
        match self {
            TokenTree::Group(g) => TokenTree::Group(g.clone()),
            TokenTree::Ident(i) => TokenTree::Ident(i.clone()),
            TokenTree::Punct(p) => TokenTree::Punct(*p),
            TokenTree::Literal(l) => TokenTree::Literal(l.clone()),
        }
    }
}

impl Clone for TokenStream {
    fn clone(&self) -> (r: Self)
        ensures
            r@ == self@,
        decreases self,
    {
        let mut trees: Vec<TokenTree> = Vec::new();
        let mut i: usize = 0;
        while i < self.trees.len()
            invariant
                i <= self.trees.len(),
                trees@.len() == i,
                forall|j: int| 0 <= j < i ==> tree_view(trees@[j]) == tree_view(self.trees@[j]),
            decreases self.trees.len() - i,
        {
            let t = self.trees[i].clone();
            trees.push(t);
            i += 1;
        }
        TokenStream { trees }
    }
}

} // verus!
