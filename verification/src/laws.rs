//! What holds of every expansion.

use crate::expansion;
use crate::occurrences::{
    args_occurrences, block_occurrences, fn_occurrences, ident_occurrences, receiver_count,
    receiver_first, signature_occurrences, stream_occurrences, tree_occurrences,
};
use crate::rename::{
    db_pattern, rename_arg, rename_args, rename_stream, rename_tree, DB_ARG_NAME, SELF_NAME,
};
use crate::rewrite::{
    has_default, inline_definitions, query_function, query_functions, strip_items, strip_trait,
};
use crate::syntax::{
    FnArgView, ItemFnView, ItemTraitView, ItemView, TraitItemMethodView, TraitItemView,
};
use crate::token::{IdentView, Span, TokenTreeView};
use vstd::prelude::*;

verus! {

/// Members keep their number, order and kind: in the stripped trait each
/// method stands where it stood, with its attributes and signature and
/// without a body; every other member, and everything else of the trait,
/// is unchanged. The stripped trait is the first item of the expansion.
pub proof fn lemma_members_preserved(t: ItemTraitView)
    ensures
        expansion(t).len() >= 1,
        expansion(t)[0] == ItemView::Trait(strip_trait(t)),
        strip_trait(t) == (ItemTraitView { items: strip_trait(t).items, ..t }),
        strip_trait(t).items.len() == t.items.len(),
        forall|i: int|
            0 <= i < t.items.len() ==> #[trigger] strip_trait(t).items[i] == match t.items[i] {
                TraitItemView::Method(m) => TraitItemView::Method(
                    TraitItemMethodView { attrs: m.attrs, sig: m.sig, default: None },
                ),
                TraitItemView::Verbatim(tokens) => TraitItemView::Verbatim(tokens),
            },
{
}

/// Extraction is complete: behind the trait, the expansion holds exactly
/// one function for each member with a body, in the order of those members,
/// and each is the query function of its member.
pub proof fn lemma_extraction_complete(t: ItemTraitView)
    ensures
        expansion(t).len() == 1 + inline_definitions(t.items).len(),
        forall|k: int|
            0 <= k < inline_definitions(t.items).len() ==> has_default(
                #[trigger] inline_definitions(t.items)[k],
            ) && t.items.contains(inline_definitions(t.items)[k]) && expansion(t)[1 + k]
                == ItemView::Fn(query_function(t.ident, inline_definitions(t.items)[k]->Method_0)),
{
    broadcast use vstd::seq_lib::group_filter_ensures;

    let pred = |item: TraitItemView| has_default(item);
    assert forall|k: int| 0 <= k < inline_definitions(t.items).len() implies has_default(
        #[trigger] inline_definitions(t.items)[k],
    ) && t.items.contains(inline_definitions(t.items)[k]) by {
        t.items.lemma_filter_pred(pred, k);
        lemma_filter_subset(t.items, k);
    }
}

/// Each inline definition is one of the members.
proof fn lemma_filter_subset(items: Seq<TraitItemView>, k: int)
    requires
        0 <= k < inline_definitions(items).len(),
    ensures
        items.contains(inline_definitions(items)[k]),
    decreases items.len(),
{
    reveal(Seq::filter);
    if items.len() > 0 {
        let front = inline_definitions(items.drop_last());
        if k < front.len() {
            lemma_filter_subset(items.drop_last(), k);
            let j = choose|j: int|
                0 <= j < items.drop_last().len() && items.drop_last()[j] == front[k];
            assert(items[j] == front[k]);
        } else {
            assert(inline_definitions(items)[k] == items.last());
            assert(items[items.len() - 1] == items.last());
        }
    }
}

/// Receiver substitution is total. Take an inline definition in which the
/// database argument's name is not in use, and in whose signature `self`
/// stands only as the receiver; let the trait be called neither `self` nor
/// like the database argument. Then its query function holds no `self`, and
/// holds the database argument once for each receiver and once for each
/// `self` of the body: with a receiver in first place and nowhere else, one
/// more time than the body held `self`.
pub proof fn lemma_receiver_substitution_total(trait_name: IdentView, method: TraitItemMethodView)
    requires
        method.default is Some,
        trait_name.name != SELF_NAME@,
        trait_name.name != DB_ARG_NAME@,
        signature_occurrences(DB_ARG_NAME@, method.sig) == 0,
        block_occurrences(DB_ARG_NAME@, method.default->0) == 0,
        signature_occurrences(SELF_NAME@, method.sig) == receiver_count(method.sig.inputs),
    ensures
        fn_occurrences(SELF_NAME@, query_function(trait_name, method)) == 0,
        fn_occurrences(DB_ARG_NAME@, query_function(trait_name, method)) == receiver_count(
            method.sig.inputs,
        ) + block_occurrences(SELF_NAME@, method.default->0),
        receiver_first(method.sig.inputs) && method.sig.inputs.len() > 0
            && method.sig.inputs[0] is Receiver ==> fn_occurrences(
            DB_ARG_NAME@,
            query_function(trait_name, method),
        ) == 1 + block_occurrences(SELF_NAME@, method.default->0),
{
    let f = query_function(trait_name, method);
    if receiver_first(method.sig.inputs) {
        lemma_receiver_count_first(method.sig.inputs);
    }
    lemma_receivers_are_occurrences(method.sig.inputs);
    lemma_rename_args_removes_receiver(trait_name, method.sig.inputs);
    lemma_rename_args_adds_db(trait_name, method.sig.inputs);
    lemma_rename_stream_occurrences(method.default->0.stmts);
    assert(stream_occurrences(SELF_NAME@, f.attrs) == 0);
    assert(stream_occurrences(DB_ARG_NAME@, f.attrs) == 0);
}

/// Without a receiver there is only relocation: the query function of an
/// inline definition that has no receiver among its parameters and no
/// `self` in its body has the signature and the body of the method.
pub proof fn lemma_no_receiver_is_relocation(trait_name: IdentView, method: TraitItemMethodView)
    requires
        method.default is Some,
        receiver_count(method.sig.inputs) == 0,
        block_occurrences(SELF_NAME@, method.default->0) == 0,
    ensures
        query_function(trait_name, method).sig == method.sig,
        query_function(trait_name, method).block == method.default->0,
{
    lemma_rename_stream_identity(method.default->0.stmts);
    lemma_rename_args_identity(trait_name, method.sig.inputs);
}

/// A trait without inline definitions passes through: it is its own
/// stripped form, it has no query functions, and its expansion is the trait
/// alone.
pub proof fn lemma_pass_through(t: ItemTraitView)
    requires
        forall|i: int| 0 <= i < t.items.len() ==> !has_default(#[trigger] t.items[i]),
    ensures
        strip_trait(t) == t,
        query_functions(t.ident, t.items) == Seq::<ItemFnView>::empty(),
        expansion(t) == seq![ItemView::Trait(t)],
{
    lemma_no_inline_definitions(t.items);
    assert(strip_items(t.items) =~= t.items);
    assert(expansion(t) =~= seq![ItemView::Trait(t)]);
}

/// Expanding once is enough: the stripped trait has no inline definitions,
/// so expanding it again gives the stripped trait alone.
pub proof fn lemma_expansion_idempotent(t: ItemTraitView)
    ensures
        strip_trait(strip_trait(t)) == strip_trait(t),
        expansion(strip_trait(t)) == seq![ItemView::Trait(strip_trait(t))],
{
    lemma_pass_through(strip_trait(t));
}

/// The receiver and the database argument have different names.
pub proof fn lemma_names_differ()
    ensures
        SELF_NAME@ != DB_ARG_NAME@,
{
    reveal_strlit("self");
    reveal_strlit("__salsa_db");
    assert(SELF_NAME@.len() == 4);
    assert(DB_ARG_NAME@.len() == 10);
}

/// Renaming a token tree leaves no `self` in it, and turns each `self` into
/// one more occurrence of the database argument.
pub proof fn lemma_rename_tree_occurrences(t: TokenTreeView)
    ensures
        tree_occurrences(SELF_NAME@, rename_tree(t)) == 0,
        tree_occurrences(DB_ARG_NAME@, rename_tree(t)) == tree_occurrences(DB_ARG_NAME@, t)
            + tree_occurrences(SELF_NAME@, t),
    decreases t,
{
    lemma_names_differ();
    match t {
        TokenTreeView::Group(g) => {
            lemma_rename_stream_occurrences(g.stream);
        },
        TokenTreeView::Ident(i) => {},
        TokenTreeView::Punct(p) => {},
        TokenTreeView::Literal(l) => {},
    }
}

/// Renaming a run of token trees leaves no `self` in it, and turns each
/// `self` into one more occurrence of the database argument.
pub proof fn lemma_rename_stream_occurrences(s: Seq<TokenTreeView>)
    ensures
        stream_occurrences(SELF_NAME@, rename_stream(s)) == 0,
        stream_occurrences(DB_ARG_NAME@, rename_stream(s)) == stream_occurrences(DB_ARG_NAME@, s)
            + stream_occurrences(SELF_NAME@, s),
    decreases s,
{
    if s.len() > 0 {
        lemma_rename_stream_occurrences(s.drop_last());
        lemma_rename_tree_occurrences(s.last());
        assert(rename_stream(s).drop_last() =~= rename_stream(s.drop_last()));
        assert(rename_stream(s).last() == rename_tree(s.last()));
    }
}

/// Renaming changes nothing in a token tree without `self`.
pub proof fn lemma_rename_tree_identity(t: TokenTreeView)
    requires
        tree_occurrences(SELF_NAME@, t) == 0,
    ensures
        rename_tree(t) == t,
    decreases t,
{
    match t {
        TokenTreeView::Group(g) => {
            lemma_rename_stream_identity(g.stream);
        },
        TokenTreeView::Ident(i) => {},
        TokenTreeView::Punct(p) => {},
        TokenTreeView::Literal(l) => {},
    }
}

/// Renaming changes nothing in a run of token trees without `self`.
pub proof fn lemma_rename_stream_identity(s: Seq<TokenTreeView>)
    requires
        stream_occurrences(SELF_NAME@, s) == 0,
    ensures
        rename_stream(s) == s,
    decreases s,
{
    if s.len() > 0 {
        lemma_rename_stream_identity(s.drop_last());
        lemma_rename_tree_identity(s.last());
        assert(rename_stream(s).drop_last() =~= rename_stream(s.drop_last()));
        assert(rename_stream(s).last() == rename_tree(s.last()));
        assert(rename_stream(s) =~= rename_stream(s).drop_last().push(rename_stream(s).last()));
        assert(s =~= s.drop_last().push(s.last()));
    } else {
        assert(rename_stream(s) =~= s);
    }
}

/// Each receiver is one place at which `self` stands.
pub proof fn lemma_receivers_are_occurrences(args: Seq<FnArgView>)
    ensures
        receiver_count(args) <= args_occurrences(SELF_NAME@, args),
    decreases args.len(),
{
    if args.len() > 0 {
        lemma_receivers_are_occurrences(args.drop_last());
    }
}

/// Where `self` stands in a parameter list only as the receiver, and the
/// trait is not called `self`, the renamed list holds no `self`.
pub proof fn lemma_rename_args_removes_receiver(trait_name: IdentView, args: Seq<FnArgView>)
    requires
        trait_name.name != SELF_NAME@,
        args_occurrences(SELF_NAME@, args) == receiver_count(args),
    ensures
        args_occurrences(SELF_NAME@, rename_args(trait_name, args)) == 0,
    decreases args.len(),
{
    lemma_names_differ();
    let renamed = rename_args(trait_name, args);
    if args.len() > 0 {
        lemma_receivers_are_occurrences(args.drop_last());
        lemma_rename_args_removes_receiver(trait_name, args.drop_last());
        assert(renamed.drop_last() =~= rename_args(trait_name, args.drop_last()));
        assert(renamed.last() == rename_arg(trait_name, args.last()));
        if args.last() is Receiver {
            lemma_db_pattern(args.last()->Receiver_0.self_token, SELF_NAME@);
            assert(stream_occurrences(SELF_NAME@, Seq::<TokenTreeView>::empty()) == 0);
        }
    }
}

/// Where the database argument's name is not in use in a parameter list nor
/// as the trait's name, the renamed list holds it once for each receiver.
pub proof fn lemma_rename_args_adds_db(trait_name: IdentView, args: Seq<FnArgView>)
    requires
        trait_name.name != DB_ARG_NAME@,
        args_occurrences(DB_ARG_NAME@, args) == 0,
    ensures
        args_occurrences(DB_ARG_NAME@, rename_args(trait_name, args)) == receiver_count(args),
    decreases args.len(),
{
    lemma_names_differ();
    let renamed = rename_args(trait_name, args);
    if args.len() > 0 {
        lemma_rename_args_adds_db(trait_name, args.drop_last());
        assert(renamed.drop_last() =~= rename_args(trait_name, args.drop_last()));
        assert(renamed.last() == rename_arg(trait_name, args.last()));
        if args.last() is Receiver {
            lemma_db_pattern(args.last()->Receiver_0.self_token, DB_ARG_NAME@);
            assert(stream_occurrences(DB_ARG_NAME@, Seq::<TokenTreeView>::empty()) == 0);
        }
    }
}

/// A parameter list with a receiver in first place only has one receiver if
/// its first parameter is one, and none otherwise.
pub proof fn lemma_receiver_count_first(args: Seq<FnArgView>)
    requires
        receiver_first(args),
    ensures
        receiver_count(args) == if args.len() > 0 && args[0] is Receiver {
            1nat
        } else {
            0nat
        },
    decreases args.len(),
{
    if args.len() > 0 {
        assert forall|i: int| 0 < i < args.drop_last().len() implies !(
        #[trigger] args.drop_last()[i] is Receiver) by {
            assert(args.drop_last()[i] == args[i]);
        }
        lemma_receiver_count_first(args.drop_last());
        if args.len() > 1 {
            assert(args.drop_last()[0] == args[0]);
            assert(!(args[args.len() - 1] is Receiver));
        }
    }
}

/// Renaming changes nothing in a parameter list without a receiver.
pub proof fn lemma_rename_args_identity(trait_name: IdentView, args: Seq<FnArgView>)
    requires
        receiver_count(args) == 0,
    ensures
        rename_args(trait_name, args) == args,
    decreases args.len(),
{
    let renamed = rename_args(trait_name, args);
    if args.len() > 0 {
        lemma_rename_args_identity(trait_name, args.drop_last());
        assert(renamed.drop_last() =~= rename_args(trait_name, args.drop_last()));
        assert(renamed =~= renamed.drop_last().push(renamed.last()));
        assert(args =~= args.drop_last().push(args.last()));
    } else {
        assert(renamed =~= args);
    }
}

/// Members without bodies have no inline definitions among them.
pub proof fn lemma_no_inline_definitions(items: Seq<TraitItemView>)
    requires
        forall|i: int| 0 <= i < items.len() ==> !has_default(#[trigger] items[i]),
    ensures
        inline_definitions(items) == Seq::<TraitItemView>::empty(),
    decreases items.len(),
{
    reveal(Seq::filter);
    if items.len() > 0 {
        assert forall|i: int| 0 <= i < items.drop_last().len() implies !has_default(
            #[trigger] items.drop_last()[i],
        ) by {
            assert(items.drop_last()[i] == items[i]);
        }
        lemma_no_inline_definitions(items.drop_last());
        assert(!has_default(items[items.len() - 1]));
    }
}

/// The pattern that replaces a receiver holds the database argument's name
/// once, and no other name.
proof fn lemma_db_pattern(span: Span, name: Seq<char>)
    ensures
        stream_occurrences(name, db_pattern(span)) == if name == DB_ARG_NAME@ {
            1nat
        } else {
            0nat
        },
{
    let pat = db_pattern(span);
    assert(pat.drop_last() =~= Seq::<TokenTreeView>::empty());
    assert(stream_occurrences(name, pat.drop_last()) == 0);
    assert(tree_occurrences(name, pat.last()) == ident_occurrences(
        name,
        IdentView { name: DB_ARG_NAME@, span },
    ));
}

} // verus!
