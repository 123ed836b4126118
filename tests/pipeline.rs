use minitrace_macro::analyze::{analyze, Model, Models, TracedItem};
use minitrace_macro::lower::async_trait::{get_async_trait_info, path_to_string, AsyncTraitInfo, AsyncTraitKind};
use minitrace_macro::lower::block::{gen_block, Body, Diagnostic};
use minitrace_macro::lower::lifetime::CollectLifetimes;
use minitrace_macro::lower::quotable::{Quotable, Quotables, Quote};
use minitrace_macro::lower::signature::{
    contains_fn, has_self_in_token_stream, mut_pat, transform_sig, HasSelf,
};
use minitrace_macro::lower::{can_lower, has_self_in_sig, lower, quote};
use minitrace_macro::lower::lifetime::count_elided_inputs;
use minitrace_macro::parse::{Scope, Trace};
use minitrace_macro::syntax::{
    Attribute, AutoTrait, Block, Bounded, Delimiter, Expr, FnArg, GenericArg, GenericParam,
    Generics, ItemFn, Lifetime, Pat, Path, PathSegment, ReturnType, Signature, Stmt, TokenTree,
    Type, WherePredicate,
};

fn path(segs: &[&str]) -> Path {
    Path {
        global: false,
        segments: segs
            .iter()
            .map(|s| PathSegment { ident: s.to_string(), args: Vec::new() })
            .collect(),
    }
}

fn ty(name: &str) -> Type {
    Type::Path(path(&[name]))
}

fn name_pat(name: &str) -> Pat {
    Pat::Ident { by_ref: false, mutable: false, ident: name.to_string(), subpat: None }
}

fn typed(name: &str, t: Type) -> FnArg {
    FnArg::Typed { pat: name_pat(name), ty: t }
}

fn attr(name: &str) -> Attribute {
    Attribute { path: vec![name.to_string()], tokens: Vec::new() }
}

fn sig(name: &str, asyncness: bool, inputs: Vec<FnArg>, output: ReturnType) -> Signature {
    Signature {
        constness: false,
        asyncness,
        unsafety: false,
        abi: None,
        ident: name.to_string(),
        generics: Generics { params: Vec::new(), where_clause: None },
        inputs,
        output,
    }
}

fn item(attrs: Vec<Attribute>, sig: Signature, stmts: Vec<Stmt>) -> ItemFn {
    ItemFn { attrs, vis: Vec::new(), sig, block: Block { stmts } }
}

/// `fn f(x: bool) {}`
fn f_bool() -> ItemFn {
    item(Vec::new(), sig("f", false, vec![typed("x", ty("bool"))], ReturnType::Default), Vec::new())
}

fn traced(name: &str, enter_on_poll: bool, item_fn: ItemFn) -> TracedItem {
    TracedItem {
        name: name.to_string(),
        scope: Scope::Local,
        enter_on_poll,
        parent: "__default".to_string(),
        recorder: "span".to_string(),
        recurse: false,
        root: false,
        variables: Vec::new(),
        async_trait: false,
        async_fn: item_fn.sig.asyncness,
        item_fn,
    }
}

fn first_item(models: &Models<Model>) -> TracedItem {
    match models.get(0).unwrap() {
        Model::Item(ti) => (**ti).clone(),
        Model::Attribute(_) => panic!("expected an item"),
    }
}

fn only_quote(q: &Quotables<Quotable>) -> Quote {
    assert_eq!(q.len(), 1);
    match q.get(0).unwrap() {
        Quotable::Item(x) => x.clone(),
        Quotable::Error(d) => panic!("unexpected error {:?}", d),
    }
}

/// `Box::pin(async move { x })` or `Box::pin(async { x })`
fn pinned(capture: bool) -> Stmt {
    Stmt::Expr(Expr::Call {
        func: Box::new(Expr::Path(path(&["Box", "pin"]))),
        args: vec![Expr::Async {
            attrs: vec![attr("allow")],
            capture,
            block: Block { stmts: vec![Stmt::Expr(Expr::Path(path(&["x"])))] },
        }],
    })
}

#[test]
fn models_are_cloneable() {
    let models = Models::<Model>::new();
    let clones = models.clone();
    assert_eq!(models, clones);
}

#[test]
fn with_traces() {
    let trace = Trace { ..Default::default() };
    let mut f = f_bool();
    f.attrs = vec![attr("trace")];
    let models = analyze(&trace, f.clone());
    let traced_item = first_item(&models);
    let expected = TracedItem { name: "f".to_string(), item_fn: f, ..Default::default() };
    assert_eq!(traced_item, expected);
}

#[test]
fn with_trace() {
    let trace = Trace { ..Default::default() };
    let f = f_bool();
    let models = analyze(&trace, f.clone());
    let traced_item = first_item(&models);
    let expected = TracedItem { name: "f".to_string(), item_fn: f, ..Default::default() };
    assert_eq!(traced_item, expected);
}

#[test]
fn others_with_traces() {
    let trace = Trace { ..Default::default() };
    let f = item(
        vec![attr("a"), attr("trace"), attr("b")],
        sig("f", false, vec![typed("x", ty("bool"))], ReturnType::Type(ty("bool"))),
        vec![Stmt::Expr(Expr::Path(path(&["x"])))],
    );
    let models = analyze(&trace, f);
    let expected = vec![attr("a"), attr("trace"), attr("b")];
    assert_eq!(expected, first_item(&models).item_fn.attrs);
}

#[test]
fn others_with_no_trace() {
    let trace = Trace { ..Default::default() };
    let mut f = f_bool();
    f.attrs = vec![attr("a"), attr("b")];
    let models = analyze(&trace, f);
    let expected = vec![attr("a"), attr("b")];
    assert_eq!(expected, first_item(&models).item_fn.attrs);
}

#[test]
fn sync_quote_1() {
    let f = item(Vec::new(), sig("f", false, Vec::new(), ReturnType::Default), Vec::new());
    let trace = Trace { ..Default::default() };
    let models = analyze(&trace, f);
    let quotes = lower(models);
    let expected = Quote {
        attrs: Vec::new(),
        vis: Vec::new(),
        constness: false,
        unsafety: false,
        abi: None,
        ident: "f".to_string(),
        gen_params: Vec::new(),
        params: Vec::new(),
        return_type: ReturnType::Default,
        where_clause: None,
        func_body: Body::Guard { event: "f".to_string(), block: Block { stmts: Vec::new() } },
        error: None,
    };
    assert_eq!(only_quote(&quotes), expected);
}

#[test]
fn default_name_is_the_function_name() {
    let trace = Trace::default();
    let f = item(Vec::new(), sig("compute", false, Vec::new(), ReturnType::Default), Vec::new());
    let models = analyze(&trace, f);
    assert_eq!(first_item(&models).name, "compute");
}

#[test]
fn given_name_is_kept() {
    let mut trace = Trace::default();
    trace.name = "custom".to_string();
    let models = analyze(&trace, f_bool());
    assert_eq!(first_item(&models).name, "custom");
}

#[test]
fn missing_options_take_defaults() {
    let trace = Trace {
        scope: None,
        parent: None,
        recorder: None,
        recurse: None,
        root: None,
        variables: None,
        async_trait: None,
        async_fn: None,
        ..Default::default()
    };
    let ti = first_item(&analyze(&trace, f_bool()));
    assert_eq!(ti, traced("f", false, f_bool()));
}

#[test]
fn recurse_models_every_nested_function() {
    let g = item(Vec::new(), sig("g", false, Vec::new(), ReturnType::Default), Vec::new());
    let h = item(Vec::new(), sig("h", true, Vec::new(), ReturnType::Default), Vec::new());
    let f = item(
        Vec::new(),
        sig("f", false, Vec::new(), ReturnType::Default),
        vec![Stmt::Item(g), Stmt::Expr(Expr::Block(Block { stmts: vec![Stmt::Item(h)] }))],
    );
    let mut trace = Trace::default();
    trace.recurse = Some(true);
    let models = analyze(&trace, f.clone());
    assert_eq!(models.len(), 3);
    let names: Vec<String> = models
        .0
        .iter()
        .map(|m| match m {
            Model::Item(ti) => ti.name.clone(),
            Model::Attribute(_) => String::new(),
        })
        .collect();
    assert_eq!(names, vec!["f".to_string(), "g".to_string(), "h".to_string()]);
    match &models.0[2] {
        Model::Item(ti) => {
            assert!(ti.async_fn);
            assert!(ti.recurse);
        },
        Model::Attribute(_) => panic!("expected an item"),
    }
    let without = analyze(&Trace::default(), f);
    assert_eq!(without.len(), 1);
}

#[test]
fn sync_body_gets_a_guard() {
    let q = only_quote(&lower(analyze(&Trace::default(), f_bool())));
    assert_eq!(q.func_body, Body::Guard { event: "f".to_string(), block: Block { stmts: Vec::new() } });
    assert_eq!(q.params, vec![typed("x", ty("bool"))]);
    assert_eq!(q.error, None);
}

#[test]
fn async_fn_is_entered_once() {
    let f = item(Vec::new(), sig("f", true, Vec::new(), ReturnType::Default), Vec::new());
    let q = only_quote(&lower(analyze(&Trace::default(), f)));
    assert_eq!(q.func_body, Body::InSpan { event: "f".to_string(), block: Block { stmts: Vec::new() } });
    assert_eq!(q.gen_params, vec![GenericParam::Tracer]);
    assert_eq!(q.where_clause, None);
    assert_eq!(
        q.return_type,
        ReturnType::Type(Type::ImplFuture { output: Box::new(Type::Tuple(Vec::new())), send: false })
    );
    assert_eq!(q.error, None);
}

#[test]
fn async_fn_enter_on_poll() {
    let f = item(Vec::new(), sig("f", true, Vec::new(), ReturnType::Default), Vec::new());
    let mut trace = Trace::default();
    trace.enter_on_poll = true;
    let q = only_quote(&lower(analyze(&trace, f)));
    assert_eq!(
        q.func_body,
        Body::EnterOnPoll { event: "f".to_string(), block: Block { stmts: Vec::new() } }
    );
    assert_eq!(q.error, None);
}

#[test]
fn enter_on_poll_on_sync_is_reported() {
    let mut trace = Trace::default();
    trace.enter_on_poll = true;
    let q = only_quote(&lower(analyze(&trace, f_bool())));
    assert_eq!(q.error, Some(Diagnostic::EnterOnPollOnSync));
    assert_eq!(q.func_body, Body::Guard { event: "f".to_string(), block: Block { stmts: Vec::new() } });
    assert_eq!(
        Diagnostic::EnterOnPollOnSync.message(),
        "`enter_on_poll` can not be applied on non-async function"
    );
}

#[test]
fn gen_block_shapes() {
    let name = "s".to_string();
    let b = Block { stmts: Vec::new() };
    assert_eq!(gen_block(b.clone(), false, &name, false), (Body::Guard { event: name.clone(), block: b.clone() }, None));
    assert_eq!(gen_block(b.clone(), true, &name, false), (Body::InSpan { event: name.clone(), block: b.clone() }, None));
    assert_eq!(gen_block(b.clone(), true, &name, true), (Body::EnterOnPoll { event: name.clone(), block: b.clone() }, None));
    assert_eq!(
        gen_block(b.clone(), false, &name, true),
        (Body::Guard { event: name.clone(), block: b }, Some(Diagnostic::EnterOnPollOnSync))
    );
}

#[test]
fn trace_attribute_is_dropped_others_kept() {
    let mut f = f_bool();
    f.attrs = vec![attr("a"), attr("trace"), attr("b")];
    let q = only_quote(&lower(analyze(&Trace::default(), f)));
    assert_eq!(q.attrs, vec![attr("a"), attr("b")]);
}

#[test]
fn async_move_box_pin_is_instrumented_inside() {
    let f = item(Vec::new(), sig("m", false, Vec::new(), ReturnType::Default), vec![pinned(true)]);
    assert_eq!(
        get_async_trait_info(&f.block, false),
        Some(AsyncTraitInfo { source_stmt: 0, kind: AsyncTraitKind::Async })
    );
    assert_eq!(get_async_trait_info(&f.block, true), None);
    let q = only_quote(&lower(analyze(&Trace::default(), f)));
    assert_eq!(
        q.func_body,
        Body::Pinned {
            attrs: vec![attr("allow")],
            body: Box::new(Body::InSpan {
                event: "m".to_string(),
                block: Block { stmts: vec![Stmt::Expr(Expr::Path(path(&["x"])))] },
            }),
        }
    );
}

#[test]
fn plain_async_block_is_not_the_pattern() {
    let f = item(Vec::new(), sig("m", false, Vec::new(), ReturnType::Default), vec![pinned(false)]);
    assert_eq!(get_async_trait_info(&f.block, false), None);
    let q = only_quote(&lower(analyze(&Trace::default(), f)));
    assert!(matches!(q.func_body, Body::Guard { .. }));
}

#[test]
fn legacy_async_trait_is_unsupported() {
    let inner = item(Vec::new(), sig("run", true, Vec::new(), ReturnType::Default), Vec::new());
    let call = Stmt::Expr(Expr::Call {
        func: Box::new(Expr::Path(path(&["std", "boxed", "Box", "pin"]))),
        args: vec![Expr::Call { func: Box::new(Expr::Path(path(&["run"]))), args: Vec::new() }],
    });
    let f = item(Vec::new(), sig("m", false, Vec::new(), ReturnType::Default), vec![Stmt::Item(inner), call]);
    assert_eq!(
        get_async_trait_info(&f.block, false),
        Some(AsyncTraitInfo { source_stmt: 0, kind: AsyncTraitKind::Function(0) })
    );
    let quotes = lower(analyze(&Trace::default(), f.clone()));
    assert_eq!(quotes.get(0), Some(&Quotable::Error(Diagnostic::UnsupportedLegacyDesugaring)));
    assert_eq!(quote(traced("m", false, f)), Err(Diagnostic::UnsupportedLegacyDesugaring));
}

#[test]
fn pin_call_without_arguments_is_not_the_pattern() {
    let call = Stmt::Expr(Expr::Call { func: Box::new(Expr::Path(path(&["Box", "pin"]))), args: Vec::new() });
    assert_eq!(get_async_trait_info(&Block { stmts: vec![call] }, false), None);
}

#[test]
fn path_text_joins_segments() {
    assert_eq!(path_to_string(&path(&["std", "boxed", "Box", "pin"])), "std::boxed::Box::pin");
    assert_eq!(path_to_string(&path(&["run"])), "run");
    assert_eq!(path_to_string(&path(&[])), "");
}

fn reference(lifetime: Option<Lifetime>, elem: Type) -> Type {
    Type::Reference { lifetime, mutable: false, elem: Box::new(elem) }
}

fn named(s: &str) -> Lifetime {
    Lifetime::Named(s.to_string())
}

#[test]
fn lifetimes_are_named_in_order() {
    let mut inputs = vec![
        FnArg::Receiver { by_ref: true, lifetime: None, mutable: false },
        typed("x", reference(None, ty("u8"))),
        typed(
            "y",
            Type::Path(Path {
                global: false,
                segments: vec![PathSegment {
                    ident: "Vec".to_string(),
                    args: vec![
                        GenericArg::Type(reference(Some(named("a")), ty("str"))),
                        GenericArg::Lifetime(Lifetime::Anonymous),
                    ],
                }],
            }),
        ),
    ];
    let mut lifetimes = CollectLifetimes::new();
    lifetimes.visit_inputs(&mut inputs);
    assert_eq!(lifetimes.elided, vec![Lifetime::Minted(0), Lifetime::Minted(1), Lifetime::Minted(2)]);
    assert_eq!(lifetimes.explicit, vec![named("a")]);
    assert_eq!(inputs[0], FnArg::Receiver { by_ref: true, lifetime: Some(Lifetime::Minted(0)), mutable: false });
    assert_eq!(inputs[1], typed("x", reference(Some(Lifetime::Minted(1)), ty("u8"))));

    // A second pass finds nothing left to name.
    let mut again = CollectLifetimes::new();
    let before = inputs.clone();
    again.visit_inputs(&mut inputs);
    assert!(again.elided.is_empty());
    assert_eq!(again.explicit, vec![Lifetime::Minted(0), Lifetime::Minted(1), named("a"), Lifetime::Minted(2)]);
    assert_eq!(inputs, before);
    let mut third = CollectLifetimes::new();
    third.visit_inputs(&mut inputs);
    assert!(third.elided.is_empty());
    assert_eq!(third.explicit, again.explicit);
}

#[test]
fn lifetime_primitives() {
    let mut c = CollectLifetimes::new();
    assert_eq!(c.next_lifetime(), Lifetime::Minted(0));
    let mut l = Lifetime::Anonymous;
    c.visit_lifetime(&mut l);
    assert_eq!(l, Lifetime::Minted(1));
    let mut n = named("b");
    c.visit_lifetime(&mut n);
    assert_eq!(n, named("b"));
    let mut o: Option<Lifetime> = None;
    c.visit_opt_lifetime(&mut o);
    assert_eq!(o, Some(Lifetime::Minted(2)));
    let mut g = GenericArg::Lifetime(Lifetime::Anonymous);
    c.visit_generic_argument(&mut g);
    assert_eq!(g, GenericArg::Lifetime(Lifetime::Minted(3)));
    let mut t = Type::Slice(Box::new(reference(None, ty("u8"))));
    c.visit_type(&mut t);
    assert_eq!(t, Type::Slice(Box::new(reference(Some(Lifetime::Minted(4)), ty("u8")))));
    assert_eq!(c.elided.len(), 5);
    assert_eq!(c.explicit, vec![named("b")]);
}

#[test]
fn async_signature_is_lowered() {
    let mut s = sig(
        "run",
        true,
        vec![
            FnArg::Receiver { by_ref: true, lifetime: None, mutable: false },
            FnArg::Typed {
                pat: Pat::Ident { by_ref: true, mutable: false, ident: "x".to_string(), subpat: None },
                ty: reference(None, ty("u8")),
            },
            FnArg::Typed {
                pat: Pat::Compound {
                    tokens: Vec::new(),
                    elems: vec![name_pat("a"), Pat::Ident { by_ref: false, mutable: true, ident: "b".to_string(), subpat: None }],
                },
                ty: Type::Tuple(vec![ty("u8"), ty("u8")]),
            },
        ],
        ReturnType::Type(ty("u32")),
    );
    s.generics.params = vec![
        GenericParam::Type { ident: "T".to_string(), rest: Vec::new() },
        GenericParam::Lifetime { lifetime: named("a"), rest: Vec::new() },
    ];
    assert!(has_self_in_sig(&s));
    transform_sig(&mut s, true, false);
    assert!(!s.asyncness);
    assert_eq!(
        s.generics.params,
        vec![
            GenericParam::Tracer,
            GenericParam::Lifetime { lifetime: Lifetime::Minted(0), rest: Vec::new() },
            GenericParam::Lifetime { lifetime: Lifetime::Minted(1), rest: Vec::new() },
            GenericParam::Type { ident: "T".to_string(), rest: Vec::new() },
            GenericParam::Lifetime { lifetime: named("a"), rest: Vec::new() },
        ]
    );
    let outlives = |b: Bounded| WherePredicate::Outlives { bounded: b, marker: None };
    assert_eq!(
        s.generics.where_clause,
        Some(vec![
            outlives(Bounded::Param("T".to_string())),
            outlives(Bounded::Lifetime(named("a"))),
            outlives(Bounded::Lifetime(Lifetime::Minted(0))),
            outlives(Bounded::Lifetime(Lifetime::Minted(1))),
            WherePredicate::Outlives { bounded: Bounded::SelfType, marker: Some(AutoTrait::Sync) },
        ])
    );
    assert_eq!(
        s.inputs,
        vec![
            FnArg::Receiver { by_ref: true, lifetime: Some(Lifetime::Minted(0)), mutable: false },
            typed("x", reference(Some(Lifetime::Minted(1)), ty("u8"))),
            FnArg::Typed { pat: Pat::Positional { index: 2, mutable: true }, ty: Type::Tuple(vec![ty("u8"), ty("u8")]) },
        ]
    );
    assert_eq!(s.output, ReturnType::Type(Type::ImplFuture { output: Box::new(ty("u32")), send: true }));
}

#[test]
fn owned_receiver_asks_send_and_loses_mut() {
    let mut s = sig("run", true, vec![FnArg::Receiver { by_ref: false, lifetime: None, mutable: true }], ReturnType::Default);
    transform_sig(&mut s, true, false);
    assert_eq!(s.inputs, vec![FnArg::Receiver { by_ref: false, lifetime: None, mutable: false }]);
    assert_eq!(
        s.generics.where_clause,
        Some(vec![WherePredicate::Outlives { bounded: Bounded::SelfType, marker: Some(AutoTrait::Send) }])
    );
    let mut local = sig("run", true, vec![FnArg::Receiver { by_ref: false, lifetime: None, mutable: true }], ReturnType::Default);
    transform_sig(&mut local, true, true);
    assert_eq!(
        local.generics.where_clause,
        Some(vec![WherePredicate::Outlives { bounded: Bounded::SelfType, marker: None }])
    );
}

#[test]
fn self_is_found_where_mentioned() {
    let plain = sig("f", false, vec![typed("x", ty("u8"))], ReturnType::Default);
    assert!(!has_self_in_sig(&plain));
    let ret = sig("f", false, Vec::new(), ReturnType::Type(Type::Path(path(&["Self", "Output"]))));
    assert!(has_self_in_sig(&ret));
    let mut visitor = HasSelf(false);
    visitor.visit_signature(&ret);
    assert!(visitor.0);
    let in_macro = sig(
        "f",
        false,
        vec![typed("x", Type::Macro(vec![TokenTree::Group(Delimiter::Parenthesis, vec![TokenTree::Ident("Self".to_string())])]))],
        ReturnType::Default,
    );
    assert!(has_self_in_sig(&in_macro));
    let macro_with_fn = sig(
        "f",
        false,
        vec![typed("x", Type::Macro(vec![TokenTree::Ident("fn".to_string()), TokenTree::Ident("Self".to_string())]))],
        ReturnType::Default,
    );
    assert!(!has_self_in_sig(&macro_with_fn));
}

#[test]
fn token_scans() {
    let ts = vec![
        TokenTree::Punct('<', false),
        TokenTree::Group(Delimiter::Brace, vec![TokenTree::Ident("fn".to_string())]),
    ];
    assert!(contains_fn(&ts));
    assert!(!has_self_in_token_stream(&ts));
    assert!(has_self_in_token_stream(&vec![TokenTree::Ident("Self".to_string())]));
    assert!(!has_self_in_token_stream(&vec![TokenTree::Literal("\"Self\"".to_string())]));
}

#[test]
fn mutable_bindings_are_found() {
    assert!(!mut_pat(&name_pat("a")));
    let nested = Pat::Compound {
        tokens: Vec::new(),
        elems: vec![name_pat("a"), Pat::Compound { tokens: Vec::new(), elems: vec![Pat::Ident { by_ref: false, mutable: true, ident: "c".to_string(), subpat: None }] }],
    };
    assert!(mut_pat(&nested));
}

#[test]
fn default_traced_item() {
    let d = TracedItem::default();
    assert_eq!(d.name, "__default");
    assert_eq!(d.item_fn.sig.ident, "__default");
    assert_eq!(d, traced("__default", false, item(Vec::new(), sig("__default", false, Vec::new(), ReturnType::Default), Vec::new())));
}

#[test]
fn only_the_expanded_attribute_is_dropped() {
    let mut f = f_bool();
    let foo_trace = Attribute { path: vec!["foo".to_string(), "trace".to_string()], tokens: Vec::new() };
    let own = Attribute { path: vec!["minitrace".to_string(), "trace".to_string()], tokens: Vec::new() };
    f.attrs = vec![foo_trace.clone(), own, attr("trace"), attr("b")];
    let q = only_quote(&lower(analyze(&Trace::default(), f)));
    assert_eq!(q.attrs, vec![foo_trace, attr("b")]);
}

#[test]
fn existing_where_clause_stays_even_if_nothing_is_added() {
    let mut s = sig("f", true, Vec::new(), ReturnType::Default);
    s.generics.where_clause = Some(Vec::new());
    transform_sig(&mut s, false, true);
    assert_eq!(s.generics.where_clause, Some(Vec::new()));
    let mut t = sig("f", true, Vec::new(), ReturnType::Default);
    transform_sig(&mut t, false, true);
    assert_eq!(t.generics.where_clause, None);
}

#[test]
fn lifetimes_inside_other_type_shapes_are_named() {
    let item_binding = Type::Path(Path {
        global: false,
        segments: vec![PathSegment {
            ident: "Iterator".to_string(),
            args: vec![GenericArg::Binding { ident: "Item".to_string(), ty: reference(None, ty("u8")) }],
        }],
    });
    let mut inputs = vec![
        typed("a", Type::Array { elem: Box::new(reference(None, ty("u8"))), len: vec![TokenTree::Literal("2".to_string())] }),
        typed("b", Type::ImplTrait(vec![GenericArg::Type(item_binding)])),
        typed("c", Type::Ptr { mutable: false, elem: Box::new(reference(None, ty("u8"))) }),
        typed("d", Type::TraitObject { dyn_kw: true, bounds: vec![GenericArg::Lifetime(Lifetime::Anonymous)] }),
        typed("e", Type::Paren(Box::new(reference(Some(named("x")), ty("u8"))))),
        typed(
            "f",
            Type::Qualified { qself: Box::new(reference(None, ty("T"))), path: path(&["Tr", "Out"]), position: 1 },
        ),
    ];
    let mut lifetimes = CollectLifetimes::new();
    lifetimes.visit_inputs(&mut inputs);
    assert_eq!(lifetimes.elided.len(), 5);
    assert_eq!(lifetimes.explicit, vec![named("x")]);
    assert_eq!(
        inputs[0],
        typed("a", Type::Array { elem: Box::new(reference(Some(Lifetime::Minted(0)), ty("u8"))), len: vec![TokenTree::Literal("2".to_string())] })
    );
    assert_eq!(
        inputs[3],
        typed("d", Type::TraitObject { dyn_kw: true, bounds: vec![GenericArg::Lifetime(Lifetime::Minted(3))] })
    );
    assert_eq!(
        inputs[5],
        typed(
            "f",
            Type::Qualified { qself: Box::new(reference(Some(Lifetime::Minted(4)), ty("T"))), path: path(&["Tr", "Out"]), position: 1 },
        )
    );
}

#[test]
fn functions_nested_in_other_statements_are_found() {
    let g = item(Vec::new(), sig("g", false, Vec::new(), ReturnType::Default), Vec::new());
    let h = item(Vec::new(), sig("h", false, Vec::new(), ReturnType::Default), Vec::new());
    let if_expr = Expr::Other {
        tokens: vec![TokenTree::Ident("if".to_string())],
        blocks: vec![Block { stmts: vec![Stmt::Item(g)] }],
    };
    let let_stmt = Stmt::Other {
        tokens: vec![TokenTree::Ident("let".to_string())],
        blocks: vec![Block { stmts: vec![Stmt::Item(h)] }],
    };
    let f = item(
        Vec::new(),
        sig("f", false, Vec::new(), ReturnType::Default),
        vec![Stmt::Semi(if_expr), let_stmt],
    );
    let mut trace = Trace::default();
    trace.recurse = Some(true);
    let models = analyze(&trace, f);
    let names: Vec<String> = models
        .0
        .iter()
        .map(|m| match m {
            Model::Item(ti) => ti.name.clone(),
            Model::Attribute(_) => String::new(),
        })
        .collect();
    assert_eq!(names, vec!["f".to_string(), "g".to_string(), "h".to_string()]);
}

#[test]
fn models_are_checked_before_lowering() {
    let f = item(Vec::new(), sig("f", true, vec![typed("x", reference(None, ty("u8")))], ReturnType::Default), Vec::new());
    let models = analyze(&Trace::default(), f.clone());
    assert!(can_lower(&models.0[0]));
    assert!(!can_lower(&Model::Attribute(Trace::default())));
    assert_eq!(count_elided_inputs(&f.sig.inputs), Some(1));
    let receiver = vec![FnArg::Receiver { by_ref: true, lifetime: Some(Lifetime::Anonymous), mutable: false }];
    assert_eq!(count_elided_inputs(&receiver), Some(1));
    assert_eq!(count_elided_inputs(&vec![typed("y", ty("u8"))]), Some(0));
}

#[test]
fn collections_start_empty() {
    let m = Models::<Model>::with_capacity(4);
    assert_eq!(m.len(), 0);
    assert!(m.get(0).is_none());
    let q = Quotables::<Quotable>::new();
    assert_eq!(q.len(), 0);
    let mut q2 = Quotables::<u8>::with_capacity(2);
    q2.push(7);
    assert_eq!(q2.get(0), Some(&7));
}
