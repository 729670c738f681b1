//! Counting the places at which a name stands in a piece of syntax.

use crate::rename::SELF_NAME;
use crate::syntax::{BlockView, FnArgView, ItemFnView, SignatureView, TypeView};
use crate::token::{IdentView, TokenTreeView};
use vstd::prelude::*;

verus! {

/// 1 if the identifier has the given name, 0 otherwise.
pub open spec fn ident_occurrences(name: Seq<char>, i: IdentView) -> nat {
    if i.name == name {
        1
    } else {
        0
    }
}

/// The number of identifiers with the given name in a token tree, at any
/// depth.
pub open spec fn tree_occurrences(name: Seq<char>, t: TokenTreeView) -> nat
    decreases t,
{
    match t {
        TokenTreeView::Group(g) => stream_occurrences(name, g.stream),
        TokenTreeView::Ident(i) => ident_occurrences(name, i),
        TokenTreeView::Punct(p) => 0,
        TokenTreeView::Literal(l) => 0,
    }
}

/// The number of identifiers with the given name in a run of token trees.
pub open spec fn stream_occurrences(name: Seq<char>, s: Seq<TokenTreeView>) -> nat
    decreases s,
{
    if s.len() == 0 {
        0
    } else {
        stream_occurrences(name, s.drop_last()) + tree_occurrences(name, s.last())
    }
}

/// The number of identifiers with the given name in a type.
pub open spec fn type_occurrences(name: Seq<char>, ty: TypeView) -> nat {
    match ty {
        TypeView::Verbatim(tokens) => stream_occurrences(name, tokens),
        TypeView::RefImplTrait(bound) => ident_occurrences(name, bound),
    }
}

/// 1 if the parameter is a receiver, 0 otherwise.
pub open spec fn is_receiver(a: FnArgView) -> nat {
    if a is Receiver {
        1
    } else {
        0
    }
}

/// The number of places at which the given name stands in a parameter. The
/// `self` of a receiver is one place for the name `self`.
pub open spec fn arg_occurrences(name: Seq<char>, a: FnArgView) -> nat {
    match a {
        FnArgView::Receiver(r) => stream_occurrences(name, r.attrs) + stream_occurrences(
            name,
            r.reference,
        ) + if name == SELF_NAME@ {
            1nat
        } else {
            0nat
        },
        FnArgView::Typed(p) => stream_occurrences(name, p.attrs) + stream_occurrences(name, p.pat)
            + type_occurrences(name, p.ty),
    }
}

/// The number of places at which the given name stands in a parameter list.
pub open spec fn args_occurrences(name: Seq<char>, args: Seq<FnArgView>) -> nat
    decreases args.len(),
{
    if args.len() == 0 {
        0
    } else {
        args_occurrences(name, args.drop_last()) + arg_occurrences(name, args.last())
    }
}

/// The number of receivers in a parameter list.
pub open spec fn receiver_count(args: Seq<FnArgView>) -> nat
    decreases args.len(),
{
    if args.len() == 0 {
        0
    } else {
        receiver_count(args.drop_last()) + is_receiver(args.last())
    }
}

/// Whether a receiver stands only in first place, as the grammar of
/// parameter lists has it.
pub open spec fn receiver_first(args: Seq<FnArgView>) -> bool {
    forall|i: int| 0 < i < args.len() ==> !(#[trigger] args[i] is Receiver)
}

/// The number of places at which the given name stands in a signature.
pub open spec fn signature_occurrences(name: Seq<char>, s: SignatureView) -> nat {
    stream_occurrences(name, s.qualifiers) + ident_occurrences(name, s.ident) + stream_occurrences(
        name,
        s.generics,
    ) + args_occurrences(name, s.inputs) + stream_occurrences(name, s.output) + stream_occurrences(
        name,
        s.where_clause,
    )
}

/// The number of identifiers with the given name in a body.
pub open spec fn block_occurrences(name: Seq<char>, b: BlockView) -> nat {
    stream_occurrences(name, b.stmts)
}

/// The number of places at which the given name stands in a function.
pub open spec fn fn_occurrences(name: Seq<char>, f: ItemFnView) -> nat {
    stream_occurrences(name, f.attrs) + stream_occurrences(name, f.vis) + signature_occurrences(
        name,
        f.sig,
    ) + block_occurrences(name, f.block)
}

} // verus!
