use salsa_inline_query::rename::{RenameSelf, DB_ARG_NAME, SELF_NAME};
use salsa_inline_query::rewrite::Rewriter;
use salsa_inline_query::salsa_inline_query;
use salsa_inline_query::syntax::{
    Block, FnArg, Item, ItemFn, ItemTrait, PatType, Receiver, Signature, TraitItem,
    TraitItemMethod, Type,
};
use salsa_inline_query::token::{
    Delimiter, Group, Ident, Literal, Punct, Span, TokenStream, TokenTree,
};

fn sp(id: usize) -> Span {
    Span { id }
}

fn ident(name: &str, at: usize) -> Ident {
    Ident { name: name.to_string(), span: sp(at) }
}

fn id(name: &str, at: usize) -> TokenTree {
    TokenTree::Ident(ident(name, at))
}

fn punct(ch: char, at: usize) -> TokenTree {
    TokenTree::Punct(Punct { ch, joint: false, span: sp(at) })
}

fn joint(ch: char, at: usize) -> TokenTree {
    TokenTree::Punct(Punct { ch, joint: true, span: sp(at) })
}

fn lit(text: &str, at: usize) -> TokenTree {
    TokenTree::Literal(Literal { text: text.to_string(), span: sp(at) })
}

fn group(delimiter: Delimiter, trees: Vec<TokenTree>, at: usize) -> TokenTree {
    TokenTree::Group(Group { delimiter, stream: TokenStream { trees }, span: sp(at) })
}

fn parens(trees: Vec<TokenTree>, at: usize) -> TokenTree {
    group(Delimiter::Parenthesis, trees, at)
}

fn braces(trees: Vec<TokenTree>, at: usize) -> TokenTree {
    group(Delimiter::Brace, trees, at)
}

fn ts(trees: Vec<TokenTree>) -> TokenStream {
    TokenStream { trees }
}

fn none() -> TokenStream {
    ts(vec![])
}

/// `&self`, with `self` at the given position.
fn ref_self(at: usize) -> FnArg {
    FnArg::Receiver(Receiver {
        attrs: none(),
        reference: ts(vec![punct('&', at - 1)]),
        self_token: sp(at),
    })
}

/// `name: ty`.
fn typed(name: &str, ty: &str, at: usize) -> FnArg {
    FnArg::Typed(PatType {
        attrs: none(),
        pat: ts(vec![id(name, at)]),
        ty: Type::Verbatim(ts(vec![id(ty, at + 1)])),
    })
}

/// `__salsa_db: &impl Trait`, with the name at the given position.
fn db_arg(trait_name: &Ident, at: usize) -> FnArg {
    FnArg::Typed(PatType {
        attrs: none(),
        pat: ts(vec![id("__salsa_db", at)]),
        ty: Type::RefImplTrait(trait_name.clone()),
    })
}

/// `fn name(inputs) -> ret`.
fn sig(name: &str, inputs: Vec<FnArg>, ret: &str, at: usize) -> Signature {
    Signature {
        qualifiers: none(),
        ident: ident(name, at),
        generics: none(),
        inputs,
        output: ts(vec![joint('-', at + 1), punct('>', at + 2), id(ret, at + 3)]),
        where_clause: none(),
    }
}

fn block(stmts: Vec<TokenTree>, at: usize) -> Block {
    Block { brace: sp(at), stmts: ts(stmts) }
}

fn method(sig: Signature, default: Option<Block>) -> TraitItem {
    TraitItem::Method(TraitItemMethod { attrs: none(), sig, default })
}

fn item_trait(name: &str, items: Vec<TraitItem>) -> ItemTrait {
    ItemTrait {
        attrs: none(),
        qualifiers: none(),
        ident: ident(name, 1),
        generics: none(),
        supertraits: none(),
        where_clause: none(),
        items,
    }
}

fn query_fn(sig: Signature, block: Block) -> Item {
    Item::Fn(ItemFn { attrs: none(), vis: none(), sig, block })
}

fn renamer(trait_name: &str) -> RenameSelf {
    RenameSelf { trait_name: ident(trait_name, 1) }
}

fn count_in_stream(name: &str, stream: &TokenStream) -> usize {
    stream
        .trees
        .iter()
        .map(|tree| match tree {
            TokenTree::Group(g) => count_in_stream(name, &g.stream),
            TokenTree::Ident(i) => usize::from(i.name == name),
            TokenTree::Punct(_) | TokenTree::Literal(_) => 0,
        })
        .sum()
}

fn count_in_sig(name: &str, sig: &Signature) -> usize {
    let in_args: usize = sig
        .inputs
        .iter()
        .map(|arg| match arg {
            FnArg::Receiver(r) => {
                count_in_stream(name, &r.attrs)
                    + count_in_stream(name, &r.reference)
                    + usize::from(name == "self")
            }
            FnArg::Typed(p) => {
                count_in_stream(name, &p.attrs)
                    + count_in_stream(name, &p.pat)
                    + match &p.ty {
                        Type::Verbatim(tokens) => count_in_stream(name, tokens),
                        Type::RefImplTrait(bound) => usize::from(bound.name == name),
                    }
            }
        })
        .sum();
    count_in_stream(name, &sig.qualifiers)
        + usize::from(sig.ident.name == name)
        + count_in_stream(name, &sig.generics)
        + in_args
        + count_in_stream(name, &sig.output)
        + count_in_stream(name, &sig.where_clause)
}

fn count_in_fn(name: &str, f: &ItemFn) -> usize {
    count_in_stream(name, &f.attrs)
        + count_in_stream(name, &f.vis)
        + count_in_sig(name, &f.sig)
        + count_in_stream(name, &f.block.stmts)
}

/// `format("Hello, {}", <receiver>.name())`.
fn greeting_body(receiver: &str) -> Vec<TokenTree> {
    vec![
        id("format", 30),
        parens(
            vec![
                lit("\"Hello, {}\"", 32),
                punct(',', 33),
                id(receiver, 34),
                punct('.', 35),
                id("name", 36),
                parens(vec![], 37),
            ],
            31,
        ),
    ]
}

fn greeter() -> ItemTrait {
    item_trait(
        "Greeter",
        vec![
            method(sig("name", vec![ref_self(11)], "String", 12), None),
            method(
                sig("greeting", vec![ref_self(21)], "String", 22),
                Some(block(greeting_body("self"), 29)),
            ),
        ],
    )
}

#[test]
fn reserved_names() {
    assert_eq!(DB_ARG_NAME, "__salsa_db");
    assert_eq!(SELF_NAME, "self");
}

#[test]
fn greeter_expands_to_trait_and_query_function() {
    let out = salsa_inline_query(none(), greeter());

    let stripped = item_trait(
        "Greeter",
        vec![
            method(sig("name", vec![ref_self(11)], "String", 12), None),
            method(sig("greeting", vec![ref_self(21)], "String", 22), None),
        ],
    );
    let greeting = query_fn(
        sig("greeting", vec![db_arg(&ident("Greeter", 1), 21)], "String", 22),
        block(greeting_body("__salsa_db"), 29),
    );
    assert_eq!(out, vec![Item::Trait(stripped), greeting]);
}

#[test]
fn receiver_inside_closure_is_renamed() {
    // |x| { self.lookup(x) }
    let closure = |receiver: &str| {
        vec![
            punct('|', 40),
            id("x", 41),
            punct('|', 42),
            braces(
                vec![
                    id(receiver, 44),
                    punct('.', 45),
                    id("lookup", 46),
                    parens(vec![id("x", 48)], 47),
                ],
                43,
            ),
        ]
    };
    let input = item_trait(
        "Index",
        vec![method(
            sig("finder", vec![ref_self(11)], "Finder", 12),
            Some(block(closure("self"), 39)),
        )],
    );

    let out = salsa_inline_query(none(), input);

    assert_eq!(out.len(), 2);
    assert_eq!(
        out[1],
        query_fn(
            sig("finder", vec![db_arg(&ident("Index", 1), 11)], "Finder", 12),
            block(closure("__salsa_db"), 39),
        )
    );
}

#[test]
fn receiver_is_renamed_at_every_depth() {
    // if a { loop { match self.get() { _ => [self] } } }
    let nest = |receiver: &str| {
        ts(vec![
            id("if", 1),
            id("a", 2),
            braces(
                vec![
                    id("loop", 4),
                    braces(
                        vec![
                            id("match", 6),
                            id(receiver, 7),
                            punct('.', 8),
                            id("get", 9),
                            parens(vec![], 10),
                            braces(
                                vec![
                                    id("_", 12),
                                    joint('=', 13),
                                    punct('>', 14),
                                    group(Delimiter::Bracket, vec![id(receiver, 16)], 15),
                                ],
                                11,
                            ),
                        ],
                        5,
                    ),
                ],
                3,
            ),
        ])
    };
    assert_eq!(renamer("T").fold_token_stream(nest("self")), nest("__salsa_db"));
}

#[test]
fn fold_ident_renames_self_and_keeps_its_position() {
    let r = renamer("T");
    assert_eq!(r.fold_ident(ident("self", 7)), ident("__salsa_db", 7));
}

#[test]
fn fold_ident_keeps_other_identifiers() {
    let r = renamer("T");
    for name in ["Self", "selfish", "sel", "myself", "x", "__salsa_db", "SELF"] {
        assert_eq!(r.fold_ident(ident(name, 3)), ident(name, 3));
    }
}

#[test]
fn literals_and_punctuation_pass_through() {
    let tokens = ts(vec![
        lit("\"self\"", 1),
        punct('+', 2),
        lit("self", 3),
        group(Delimiter::Invisible, vec![lit("1", 5), joint(':', 6), punct(':', 7)], 4),
    ]);
    let same = ts(vec![
        lit("\"self\"", 1),
        punct('+', 2),
        lit("self", 3),
        group(Delimiter::Invisible, vec![lit("1", 5), joint(':', 6), punct(':', 7)], 4),
    ]);
    assert_eq!(renamer("T").fold_token_stream(tokens), same);
}

#[test]
fn fold_token_tree_keeps_delimiter_and_span_of_a_group() {
    let r = renamer("T");
    assert_eq!(
        r.fold_token_tree(group(Delimiter::Bracket, vec![id("self", 2)], 9)),
        group(Delimiter::Bracket, vec![id("__salsa_db", 2)], 9)
    );
    assert_eq!(r.fold_token_tree(parens(vec![], 4)), parens(vec![], 4));
}

#[test]
fn empty_stream_stays_empty() {
    assert_eq!(renamer("T").fold_token_stream(none()), none());
}

#[test]
fn fold_fn_arg_replaces_receiver() {
    let r = renamer("Greeter");
    let receiver = FnArg::Receiver(Receiver {
        attrs: ts(vec![punct('#', 1), group(Delimiter::Bracket, vec![id("a", 3)], 2)]),
        reference: ts(vec![punct('&', 4), id("mut", 5)]),
        self_token: sp(6),
    });
    assert_eq!(r.fold_fn_arg(receiver), db_arg(&ident("Greeter", 1), 6));
}

#[test]
fn fold_fn_arg_keeps_typed_parameters() {
    let r = renamer("Greeter");
    assert_eq!(r.fold_fn_arg(typed("file_id", "u32", 5)), typed("file_id", "u32", 5));
    // `self: Box` is a typed parameter, not a receiver: it stays.
    assert_eq!(r.fold_fn_arg(typed("self", "Box", 5)), typed("self", "Box", 5));
}

#[test]
fn fold_signature_changes_parameters_only() {
    let r = renamer("Db");
    let before = Signature {
        qualifiers: ts(vec![id("unsafe", 1)]),
        ident: ident("len", 2),
        generics: ts(vec![punct('<', 3), id("T", 4), punct('>', 5)]),
        inputs: vec![ref_self(7), typed("file_id", "u32", 8)],
        output: ts(vec![joint('-', 10), punct('>', 11), id("self", 12), id("Len", 13)]),
        where_clause: ts(vec![id("where", 14), id("T", 15), punct(':', 16), id("self", 17)]),
    };
    let after = Signature {
        qualifiers: ts(vec![id("unsafe", 1)]),
        ident: ident("len", 2),
        generics: ts(vec![punct('<', 3), id("T", 4), punct('>', 5)]),
        inputs: vec![db_arg(&ident("Db", 1), 7), typed("file_id", "u32", 8)],
        output: ts(vec![joint('-', 10), punct('>', 11), id("self", 12), id("Len", 13)]),
        where_clause: ts(vec![id("where", 14), id("T", 15), punct(':', 16), id("self", 17)]),
    };
    assert_eq!(r.fold_signature(before), after);
}

#[test]
fn fold_signature_without_receiver_is_unchanged() {
    let r = renamer("Db");
    assert_eq!(
        r.fold_signature(sig("zero", vec![typed("a", "u8", 3), typed("b", "u8", 5)], "u8", 7)),
        sig("zero", vec![typed("a", "u8", 3), typed("b", "u8", 5)], "u8", 7)
    );
    assert_eq!(r.fold_signature(sig("unit", vec![], "u8", 7)), sig("unit", vec![], "u8", 7));
}

#[test]
fn fold_block_keeps_braces() {
    let r = renamer("Db");
    assert_eq!(
        r.fold_block(block(vec![id("self", 2), punct(';', 3)], 77)),
        block(vec![id("__salsa_db", 2), punct(';', 3)], 77)
    );
}

#[test]
fn fold_trait_item_method_moves_the_body_out() {
    let attrs = || ts(vec![punct('#', 1), group(Delimiter::Bracket, vec![id("doc", 3)], 2)]);
    let mut rewriter = Rewriter { trait_name: ident("Db", 1), query_functions: vec![] };
    let node = TraitItemMethod {
        attrs: attrs(),
        sig: sig("len", vec![ref_self(5)], "usize", 6),
        default: Some(block(vec![id("self", 11), punct('.', 12), id("n", 13)], 10)),
    };

    let stripped = rewriter.fold_trait_item_method(node);

    // The trait keeps attributes and the signature with its receiver.
    assert_eq!(
        stripped,
        TraitItemMethod {
            attrs: attrs(),
            sig: sig("len", vec![ref_self(5)], "usize", 6),
            default: None,
        }
    );
    // The function is private, has no attributes, and speaks of the database.
    assert_eq!(rewriter.trait_name, ident("Db", 1));
    assert_eq!(
        rewriter.query_functions,
        vec![ItemFn {
            attrs: none(),
            vis: none(),
            sig: sig("len", vec![db_arg(&ident("Db", 1), 5)], "usize", 6),
            block: block(vec![id("__salsa_db", 11), punct('.', 12), id("n", 13)], 10),
        }]
    );
}

#[test]
fn fold_trait_item_method_keeps_a_plain_signature() {
    let mut rewriter = Rewriter { trait_name: ident("Db", 1), query_functions: vec![] };
    let node = TraitItemMethod {
        attrs: none(),
        sig: sig("text", vec![ref_self(5)], "String", 6),
        default: None,
    };
    let same = TraitItemMethod {
        attrs: none(),
        sig: sig("text", vec![ref_self(5)], "String", 6),
        default: None,
    };
    assert_eq!(rewriter.fold_trait_item_method(node), same);
    assert!(rewriter.query_functions.is_empty());
}

#[test]
fn fold_trait_item_appends_behind_earlier_functions() {
    let earlier = ItemFn {
        attrs: none(),
        vis: none(),
        sig: sig("first", vec![], "u8", 2),
        block: block(vec![lit("1", 4)], 3),
    };
    let mut rewriter = Rewriter { trait_name: ident("Db", 1), query_functions: vec![earlier] };

    let kept = rewriter.fold_trait_item(TraitItem::Verbatim(ts(vec![id("type", 5), id("Out", 6)])));
    assert_eq!(kept, TraitItem::Verbatim(ts(vec![id("type", 5), id("Out", 6)])));
    assert_eq!(rewriter.query_functions.len(), 1);

    let stripped = rewriter
        .fold_trait_item(method(sig("second", vec![], "u8", 7), Some(block(vec![lit("2", 9)], 8))));
    assert_eq!(stripped, method(sig("second", vec![], "u8", 7), None));
    assert_eq!(rewriter.query_functions.len(), 2);
    assert_eq!(rewriter.query_functions[0].sig.ident, ident("first", 2));
    assert_eq!(rewriter.query_functions[1].sig.ident, ident("second", 7));
}

#[test]
fn fold_item_trait_uses_the_name_held_by_the_rewriter() {
    let mut rewriter = Rewriter { trait_name: ident("Other", 99), query_functions: vec![] };
    let stripped = rewriter.fold_item_trait(greeter());
    assert_eq!(stripped.ident, ident("Greeter", 1));
    assert_eq!(rewriter.query_functions.len(), 1);
    assert_eq!(rewriter.query_functions[0].sig.inputs, vec![db_arg(&ident("Other", 99), 21)]);
}

/// A trait with attributes, bounds, five members of every kind, two of them
/// inline definitions.
fn source_database() -> ItemTrait {
    ItemTrait {
        attrs: ts(vec![punct('#', 1), group(Delimiter::Bracket, vec![id("query_group", 3)], 2)]),
        qualifiers: ts(vec![id("pub", 4)]),
        ident: ident("SourceDatabase", 5),
        generics: ts(vec![punct('<', 6), id("T", 7), punct('>', 8)]),
        supertraits: ts(vec![punct(':', 9), id("Debug", 10)]),
        where_clause: ts(vec![id("where", 11), id("T", 12), punct(':', 13), id("Eq", 14)]),
        items: vec![
            TraitItem::Verbatim(ts(vec![id("type", 20), id("Text", 21), punct(';', 22)])),
            method(sig("source_text", vec![ref_self(31), typed("file_id", "u32", 32)], "Text", 34), None),
            method(
                sig("source_len", vec![ref_self(41), typed("file_id", "u32", 42)], "usize", 44),
                Some(block(
                    vec![
                        id("let", 51),
                        id("text", 52),
                        punct('=', 53),
                        id("self", 54),
                        punct('.', 55),
                        id("source_text", 56),
                        parens(vec![id("file_id", 58)], 57),
                        punct(';', 59),
                        id("text", 60),
                        punct('.', 61),
                        id("len", 62),
                        parens(vec![], 63),
                    ],
                    50,
                )),
            ),
            TraitItem::Verbatim(ts(vec![id("const", 70), id("N", 71), punct(';', 72)])),
            method(
                sig("version", vec![], "u32", 81),
                Some(block(vec![lit("1", 91)], 90)),
            ),
        ],
    }
}

#[test]
fn members_keep_number_order_and_kind() {
    let input = source_database();
    let out = salsa_inline_query(none(), source_database());

    let Item::Trait(stripped) = &out[0] else { panic!("the trait comes first") };
    assert_eq!(stripped.attrs, input.attrs);
    assert_eq!(stripped.qualifiers, input.qualifiers);
    assert_eq!(stripped.ident, input.ident);
    assert_eq!(stripped.generics, input.generics);
    assert_eq!(stripped.supertraits, input.supertraits);
    assert_eq!(stripped.where_clause, input.where_clause);
    assert_eq!(stripped.items.len(), 5);
    for (before, after) in input.items.iter().zip(stripped.items.iter()) {
        match (before, after) {
            (TraitItem::Method(b), TraitItem::Method(a)) => {
                assert_eq!(a.attrs, b.attrs);
                assert_eq!(a.sig, b.sig);
                assert_eq!(a.default, None);
            }
            (TraitItem::Verbatim(b), TraitItem::Verbatim(a)) => assert_eq!(a, b),
            _ => panic!("a member changed its kind"),
        }
    }
}

#[test]
fn one_function_for_each_body_in_order() {
    let out = salsa_inline_query(none(), source_database());

    assert_eq!(out.len(), 3);
    let names: Vec<&str> = out[1..]
        .iter()
        .map(|item| match item {
            Item::Fn(f) => f.sig.ident.name.as_str(),
            Item::Trait(_) => panic!("only functions follow the trait"),
        })
        .collect();
    assert_eq!(names, vec!["source_len", "version"]);
    let db = ident("SourceDatabase", 5);
    assert_eq!(
        out[1],
        query_fn(
            sig("source_len", vec![db_arg(&db, 41), typed("file_id", "u32", 42)], "usize", 44),
            block(
                vec![
                    id("let", 51),
                    id("text", 52),
                    punct('=', 53),
                    id("__salsa_db", 54),
                    punct('.', 55),
                    id("source_text", 56),
                    parens(vec![id("file_id", 58)], 57),
                    punct(';', 59),
                    id("text", 60),
                    punct('.', 61),
                    id("len", 62),
                    parens(vec![], 63),
                ],
                50,
            ),
        )
    );
}

#[test]
fn every_receiver_becomes_the_database_argument() {
    // fn total(&self) -> u32 { self.a() + self.b(|| self.c()) + other }
    let body = vec![
        id("self", 1),
        punct('.', 2),
        id("a", 3),
        parens(vec![], 4),
        punct('+', 5),
        id("self", 6),
        punct('.', 7),
        id("b", 8),
        parens(
            vec![
                joint('|', 10),
                punct('|', 11),
                id("self", 12),
                punct('.', 13),
                id("c", 14),
                parens(vec![], 15),
            ],
            9,
        ),
        punct('+', 16),
        id("other", 17),
    ];
    let input = item_trait(
        "Sums",
        vec![method(sig("total", vec![ref_self(21)], "u32", 22), Some(block(body, 20)))],
    );

    let out = salsa_inline_query(none(), input);

    let Item::Fn(f) = &out[1] else { panic!("a function follows the trait") };
    assert_eq!(count_in_fn("self", f), 0);
    assert_eq!(count_in_fn("__salsa_db", f), 1 + 3);
}

#[test]
fn without_receiver_the_method_is_only_moved() {
    let body = || vec![id("a", 1), punct('+', 2), lit("1", 3)];
    let input = item_trait(
        "Plain",
        vec![method(sig("next", vec![typed("a", "u32", 11)], "u32", 13), Some(block(body(), 20)))],
    );

    let out = salsa_inline_query(none(), input);

    assert_eq!(
        out,
        vec![
            Item::Trait(item_trait(
                "Plain",
                vec![method(sig("next", vec![typed("a", "u32", 11)], "u32", 13), None)],
            )),
            query_fn(sig("next", vec![typed("a", "u32", 11)], "u32", 13), block(body(), 20)),
        ]
    );
}

#[test]
fn trait_without_bodies_passes_through() {
    let plain = || {
        item_trait(
            "Plain",
            vec![
                method(sig("a", vec![ref_self(11)], "u32", 12), None),
                TraitItem::Verbatim(ts(vec![id("type", 20), id("T", 21), punct(';', 22)])),
                method(sig("b", vec![], "u32", 31), None),
            ],
        )
    };
    assert_eq!(salsa_inline_query(none(), plain()), vec![Item::Trait(plain())]);
}

#[test]
fn empty_trait_passes_through() {
    assert_eq!(
        salsa_inline_query(none(), item_trait("Empty", vec![])),
        vec![Item::Trait(item_trait("Empty", vec![]))]
    );
}

#[test]
fn expanding_the_stripped_trait_again_changes_nothing() {
    let mut first = salsa_inline_query(none(), source_database());
    let Item::Trait(stripped) = first.remove(0) else { panic!("the trait comes first") };
    let expected = stripped.clone();
    assert_eq!(salsa_inline_query(none(), stripped), vec![Item::Trait(expected)]);
}

#[test]
fn inner_binding_named_like_the_receiver_is_renamed_too() {
    // The renaming goes by the text of a token, not by what it is bound to.
    let body = |name: &str| {
        vec![
            id("let", 1),
            id(name, 2),
            punct('=', 3),
            lit("1", 4),
            punct(';', 5),
            id(name, 6),
            joint(':', 7),
            punct(':', 8),
            id("helper", 9),
            parens(vec![], 10),
        ]
    };
    assert_eq!(
        renamer("T").fold_block(block(body("self"), 0)),
        block(body("__salsa_db"), 0)
    );
}

#[test]
fn a_database_argument_already_in_use_is_not_told_apart() {
    let input = item_trait(
        "Clash",
        vec![method(
            sig("f", vec![ref_self(11)], "u8", 12),
            Some(block(vec![id("self", 21), punct('+', 22), id("__salsa_db", 23)], 20)),
        )],
    );

    let out = salsa_inline_query(none(), input);

    let Item::Fn(f) = &out[1] else { panic!("a function follows the trait") };
    assert_eq!(
        f.block,
        block(vec![id("__salsa_db", 21), punct('+', 22), id("__salsa_db", 23)], 20)
    );
    assert_eq!(count_in_fn("__salsa_db", f), 3);
}

#[test]
fn attribute_arguments_are_ignored() {
    let with_args = salsa_inline_query(ts(vec![id("anything", 1), lit("2", 2)]), greeter());
    assert_eq!(with_args, salsa_inline_query(none(), greeter()));
}

#[test]
fn clones_are_equal_to_their_source() {
    let tokens = ts(vec![
        id("a", 1),
        braces(vec![lit("\"x\"", 3), joint('-', 4), parens(vec![id("self", 6)], 5)], 2),
    ]);
    assert_eq!(tokens.clone(), tokens);
    let signature = sig("f", vec![ref_self(3), typed("x", "u8", 4)], "u8", 6);
    assert_eq!(signature.clone(), signature);
    let db = db_arg(&ident("Db", 1), 2);
    assert_eq!(db.clone(), db);
}

#[test]
fn constructors_build_what_they_are_given() {
    assert_eq!(Ident::new("len", sp(4)), ident("len", 4));
    assert_eq!(TokenStream::new(), none());
}
