//! Pairs each function found with the options of the attribute.
use vstd::prelude::*;
use crate::parse::{Scope, Trace, default_name};
use crate::syntax::{
    Block, Expr, Generics, ItemFn, ReturnType, Signature, Stmt, copy_item_fn, same_fn, same_sig,
};
use crate::text::is_word;

verus! {

/// An ordered sequence of models.
#[derive(Clone, Debug, PartialEq)]
pub struct Models<T>(pub Vec<T>);

impl<T> View for Models<T> {
    type V = Seq<T>;

    open spec fn view(&self) -> Seq<T> {
        self.0@
    }
}

impl<T> Default for Models<T> {
    fn default() -> (r: Self)
        ensures
            r@ == Seq::<T>::empty(),
    {
        Models::new()
    }
}

impl<T> Models<T> {
    pub fn new() -> (r: Models<T>)
        ensures
            r@ == Seq::<T>::empty(),
    {
        Models(Vec::new())
    }

    pub fn with_capacity(capacity: usize) -> (r: Models<T>)
        ensures
            r@ == Seq::<T>::empty(),
    {
        Models(Vec::with_capacity(capacity))
    }

    pub fn push(&mut self, t: T)
        ensures
            final(self)@ == old(self)@.push(t),
    {
        self.0.push(t);
    }

    pub fn len(&self) -> (r: usize)
        ensures
            r == self@.len(),
    {
        self.0.len()
    }

    pub fn get(&self, i: usize) -> (r: Option<&T>)
        ensures
            i < self@.len() ==> r == Some(&self@[i as int]),
            i >= self@.len() ==> r is None,
    {
        if i < self.0.len() {
            Some(&self.0[i])
        } else {
            None
        }
    }
}

/// One function, with the options resolved for it.
#[derive(Clone, Debug, PartialEq)]
pub struct TracedItem {
    /// The span's name.
    pub name: String,
    pub scope: Scope,
    pub enter_on_poll: bool,
    pub parent: String,
    pub recorder: String,
    pub recurse: bool,
    pub root: bool,
    pub variables: Vec<String>,
    pub async_trait: bool,
    /// The function is declared `async`.
    pub async_fn: bool,
    pub item_fn: ItemFn,
}

impl Default for TracedItem {
    /// The item of a function `fn __default() {}` with every option at its
    /// default.
    fn default() -> (r: Self)
        ensures
            r.name@ == default_name(),
            r.scope == Scope::Local,
            !r.enter_on_poll,
            r.parent@ == default_name(),
            r.recorder@ == "span"@,
            !r.recurse,
            !r.root,
            r.variables@.len() == 0,
            !r.async_trait,
            !r.async_fn,
            r.item_fn.attrs@.len() == 0,
            r.item_fn.vis@.len() == 0,
            r.item_fn.sig.ident@ == default_name(),
            !r.item_fn.sig.constness,
            !r.item_fn.sig.asyncness,
            !r.item_fn.sig.unsafety,
            r.item_fn.sig.abi is None,
            r.item_fn.sig.generics.params@.len() == 0,
            r.item_fn.sig.generics.where_clause is None,
            r.item_fn.sig.inputs@.len() == 0,
            r.item_fn.sig.output is Default,
            r.item_fn.block.stmts@.len() == 0,
    {
        let sig = Signature {
            constness: false,
            asyncness: false,
            unsafety: false,
            abi: None,
            ident: String::from_str("__default"),
            generics: Generics { params: Vec::new(), where_clause: None },
            inputs: Vec::new(),
            output: ReturnType::Default,
        };
        TracedItem {
            name: String::from_str("__default"),
            scope: Scope::Local,
            enter_on_poll: false,
            parent: String::from_str("__default"),
            recorder: String::from_str("span"),
            recurse: false,
            root: false,
            variables: Vec::new(),
            async_trait: false,
            async_fn: false,
            item_fn: ItemFn {
                attrs: Vec::new(),
                vis: Vec::new(),
                sig,
                block: Block { stmts: Vec::new() },
            },
        }
    }
}

#[derive(Clone, Debug, PartialEq)]
pub enum Model {
    /// Options that are bound to no function yet.
    Attribute(Trace),
    Item(Box<TracedItem>),
}

/// The functions of a definition in pre-order: the function itself, then
/// those nested in its body.
pub open spec fn fns_of(f: ItemFn) -> Seq<ItemFn>
    decreases f, 4nat,
{
    seq![f] + fns_in_block(f.block)
}

pub open spec fn fns_in_block(b: Block) -> Seq<ItemFn>
    decreases b, 3nat,
{
    fns_in_stmts(b.stmts@)
}

pub open spec fn fns_in_stmts(s: Seq<Stmt>) -> Seq<ItemFn>
    decreases s, 2nat,
{
    if s.len() == 0 {
        Seq::empty()
    } else {
        fns_in_stmts(s.drop_last()) + fns_in_stmt(s.last())
    }
}

pub open spec fn fns_in_stmt(s: Stmt) -> Seq<ItemFn>
    decreases s, 1nat,
{
    match s {
        Stmt::Item(f) => fns_of(f),
        Stmt::Expr(e) => fns_in_expr(e),
        Stmt::Semi(e) => fns_in_expr(e),
        Stmt::Other { blocks, .. } => fns_in_blocks(blocks@),
    }
}

pub open spec fn fns_in_blocks(s: Seq<Block>) -> Seq<ItemFn>
    decreases s, 1nat,
{
    if s.len() == 0 {
        Seq::empty()
    } else {
        fns_in_blocks(s.drop_last()) + fns_in_block(s.last())
    }
}

pub open spec fn fns_in_exprs(s: Seq<Expr>) -> Seq<ItemFn>
    decreases s, 1nat,
{
    if s.len() == 0 {
        Seq::empty()
    } else {
        fns_in_exprs(s.drop_last()) + fns_in_expr(s.last())
    }
}

pub open spec fn fns_in_expr(e: Expr) -> Seq<ItemFn>
    decreases e, 0nat,
{
    match e {
        Expr::Call { func, args } => fns_in_expr(*func) + fns_in_exprs(args@),
        Expr::Async { block, .. } => fns_in_block(block),
        Expr::Block(block) => fns_in_block(block),
        Expr::Other { blocks, .. } => fns_in_blocks(blocks@),
        Expr::Path(_) => Seq::empty(),
    }
}

/// `b` holds copies of the functions of `a`, in order.
pub open spec fn same_fns(a: Seq<ItemFn>, b: Seq<ItemFn>) -> bool {
    &&& a.len() == b.len()
    &&& forall|k: int| 0 <= k < a.len() ==> same_fn(#[trigger] a[k], b[k])
}

proof fn lemma_same_fns_concat(a: Seq<ItemFn>, b: Seq<ItemFn>, c: Seq<ItemFn>, d: Seq<ItemFn>)
    requires
        same_fns(a, c),
        same_fns(b, d),
    ensures
        same_fns(a + b, c + d),
{
    assert forall|k: int| 0 <= k < (a + b).len() implies same_fn(#[trigger] (a + b)[k], (c + d)[k]) by {
        if k < a.len() {
            assert(same_fn(a[k], c[k]));
        } else {
            assert(same_fn(b[k - a.len()], d[k - a.len()]));
        }
    }
}

fn collect_fn(f: &ItemFn) -> (r: Vec<ItemFn>)
    ensures
        same_fns(fns_of(*f), r@),
    decreases f, 4nat,
{
    let mut r = vec![copy_item_fn(f)];
    let mut rest = collect_block(&f.block);
    proof {
        lemma_same_fns_concat(seq![*f], fns_in_block(f.block), r@, rest@);
    }
    r.append(&mut rest);
    r
}

fn collect_block(b: &Block) -> (r: Vec<ItemFn>)
    ensures
        same_fns(fns_in_block(*b), r@),
    decreases b, 3nat,
{
    let mut r: Vec<ItemFn> = Vec::new();
    let mut i: usize = 0;
    while i < b.stmts.len()
        invariant
            i <= b.stmts@.len(),
            same_fns(fns_in_stmts(b.stmts@.subrange(0, i as int)), r@),
        decreases b.stmts@.len() - i,
    {
        proof {
            assert(decreases_to!(b => b.stmts@[i as int]));
        }
        let mut part = collect_stmt(&b.stmts[i]);
        proof {
            let pre = b.stmts@.subrange(0, i as int + 1);
            assert(pre.drop_last() =~= b.stmts@.subrange(0, i as int));
            lemma_same_fns_concat(
                fns_in_stmts(b.stmts@.subrange(0, i as int)),
                fns_in_stmt(b.stmts@[i as int]),
                r@,
                part@,
            );
        }
        r.append(&mut part);
        i = i + 1;
    }
    assert(b.stmts@.subrange(0, i as int) =~= b.stmts@);
    r
}

fn collect_stmt(s: &Stmt) -> (r: Vec<ItemFn>)
    ensures
        same_fns(fns_in_stmt(*s), r@),
    decreases s, 2nat,
{
    match s {
        Stmt::Item(f) => collect_fn(f),
        Stmt::Expr(e) => collect_expr(e),
        Stmt::Semi(e) => collect_expr(e),
        Stmt::Other { blocks, .. } => collect_blocks(blocks),
    }
}

fn collect_blocks(v: &Vec<Block>) -> (r: Vec<ItemFn>)
    ensures
        same_fns(fns_in_blocks(v@), r@),
    decreases v, 4nat,
{
    let mut r: Vec<ItemFn> = Vec::new();
    let mut i: usize = 0;
    while i < v.len()
        invariant
            i <= v@.len(),
            same_fns(fns_in_blocks(v@.subrange(0, i as int)), r@),
        decreases v@.len() - i,
    {
        proof {
            assert(decreases_to!(v => v@[i as int]));
        }
        let mut part = collect_block(&v[i]);
        proof {
            let pre = v@.subrange(0, i as int + 1);
            assert(pre.drop_last() =~= v@.subrange(0, i as int));
            lemma_same_fns_concat(
                fns_in_blocks(v@.subrange(0, i as int)),
                fns_in_block(v@[i as int]),
                r@,
                part@,
            );
        }
        r.append(&mut part);
        i = i + 1;
    }
    assert(v@.subrange(0, i as int) =~= v@);
    r
}

fn collect_exprs(v: &Vec<Expr>) -> (r: Vec<ItemFn>)
    ensures
        same_fns(fns_in_exprs(v@), r@),
    decreases v, 2nat,
{
    let mut r: Vec<ItemFn> = Vec::new();
    let mut i: usize = 0;
    while i < v.len()
        invariant
            i <= v@.len(),
            same_fns(fns_in_exprs(v@.subrange(0, i as int)), r@),
        decreases v@.len() - i,
    {
        proof {
            assert(decreases_to!(v => v@[i as int]));
        }
        let mut part = collect_expr(&v[i]);
        proof {
            let pre = v@.subrange(0, i as int + 1);
            assert(pre.drop_last() =~= v@.subrange(0, i as int));
            lemma_same_fns_concat(
                fns_in_exprs(v@.subrange(0, i as int)),
                fns_in_expr(v@[i as int]),
                r@,
                part@,
            );
        }
        r.append(&mut part);
        i = i + 1;
    }
    assert(v@.subrange(0, i as int) =~= v@);
    r
}

fn collect_expr(e: &Expr) -> (r: Vec<ItemFn>)
    ensures
        same_fns(fns_in_expr(*e), r@),
    decreases e, 1nat,
{
    match e {
        Expr::Call { func, args } => {
            let mut r = collect_expr(func);
            let mut rest = collect_exprs(args);
            proof {
                lemma_same_fns_concat(fns_in_expr(**func), fns_in_exprs(args@), r@, rest@);
            }
            r.append(&mut rest);
            r
        },
        Expr::Async { block, .. } => collect_block(block),
        Expr::Block(block) => collect_block(block),
        Expr::Other { blocks, .. } => collect_blocks(blocks),
        Expr::Path(_) => Vec::new(),
    }
}

/// The span name of a function named `ident`: the option's name, or the
/// function's own name where the option holds the sentinel.
pub open spec fn span_name(option: Seq<char>, ident: Seq<char>) -> Seq<char> {
    if option == default_name() {
        ident
    } else {
        option
    }
}

impl TracedItem {
    /// The item holds the options of `t` for the function `f`, each option
    /// that `t` leaves open at its default.
    pub open spec fn resolved_from(&self, t: Trace, f: ItemFn) -> bool {
        &&& self.name@ == span_name(t.name@, f.sig.ident@)
        &&& self.scope == match t.scope {
            Some(s) => s,
            None => Scope::Local,
        }
        &&& self.enter_on_poll == t.enter_on_poll
        &&& self.parent@ == match t.parent {
            Some(p) => p@,
            None => default_name(),
        }
        &&& self.recorder@ == match t.recorder {
            Some(r) => r@,
            None => "span"@,
        }
        &&& self.recurse == (t.recurse == Some(true))
        &&& self.root == (t.root == Some(true))
        &&& self.variables@ == match t.variables {
            Some(v) => v@,
            None => Seq::empty(),
        }
        &&& self.async_trait == (t.async_trait == Some(true))
        &&& self.async_fn == f.sig.asyncness
    }
}

/// `m` binds the options `t` to a copy of the function `f`.
pub open spec fn models_function(m: Model, t: Trace, f: ItemFn) -> bool {
    m matches Model::Item(ti) && same_fn(f, ti.item_fn) && ti.resolved_from(t, f)
}

/// Where no option names the span, every function found is named after
/// itself, never after the sentinel.
pub proof fn lemma_default_name_is_own(t: Trace, f: ItemFn, ti: TracedItem)
    requires
        t.name@ == default_name(),
        ti.resolved_from(t, f),
    ensures
        ti.name@ == f.sig.ident@,
{
}

fn resolve(trace: &Trace, f: ItemFn) -> (r: TracedItem)
    ensures
        r.resolved_from(*trace, f),
        r.item_fn == f,
{
    let name = if is_word(&trace.name, "__default") {
        f.sig.ident.clone()
    } else {
        trace.name.clone()
    };
    let parent = match &trace.parent {
        Some(p) => p.clone(),
        None => String::from_str("__default"),
    };
    let recorder = match &trace.recorder {
        Some(r) => r.clone(),
        None => String::from_str("span"),
    };
    let variables = match &trace.variables {
        Some(v) => {
            let c = v.clone();
            assert(c@ =~= v@);
            c
        },
        None => Vec::new(),
    };
    TracedItem {
        name,
        scope: match trace.scope {
            Some(s) => s,
            None => Scope::Local,
        },
        enter_on_poll: trace.enter_on_poll,
        parent,
        recorder,
        recurse: trace.recurse == Some(true),
        root: trace.root == Some(true),
        variables,
        async_trait: trace.async_trait == Some(true),
        async_fn: f.sig.asyncness,
        item_fn: f,
    }
}

/// Binds the options to the function, and, where `recurse` is set, to
/// every function nested in it, in pre-order. Each function whose span
/// name is left open is named after itself.
pub fn analyze(trace: &Trace, item: ItemFn) -> (r: Models<Model>)
    ensures
        r@.len() == if trace.recurse == Some(true) {
            fns_of(item).len()
        } else {
            1
        },
        r@[0] matches Model::Item(ti) && ti.item_fn == item && ti.resolved_from(*trace, item),
        forall|k: int|
            1 <= k < r@.len() ==> models_function(#[trigger] r@[k], *trace, fns_of(item)[k]),
{
    let recurse = trace.recurse == Some(true);
    let mut nested = if recurse {
        collect_block(&item.block)
    } else {
        Vec::new()
    };
    let ghost all = fns_of(item);
    let total = nested.len();
    let ghost found = nested@;
    let mut models: Models<Model> = Models::new();
    let first = resolve(trace, item);
    models.push(Model::Item(Box::new(first)));
    let mut j: usize = 0;
    while nested.len() > 0
        invariant
            all == fns_of(item),
            recurse ==> same_fns(fns_in_block(item.block), found),
            !recurse ==> found.len() == 0,
            j + nested@.len() == found.len(),
            found.len() == total,
            nested@ == found.subrange(j as int, found.len() as int),
            models@.len() == 1 + j,
            models@[0] matches Model::Item(ti) && ti.item_fn == item && ti.resolved_from(
                *trace,
                item,
            ),
            forall|k: int|
                1 <= k < models@.len() ==> models_function(#[trigger] models@[k], *trace, all[k]),
        decreases nested@.len(),
    {
        let f = nested.remove(0);
        proof {
            assert(f == found[j as int]);
            assert(same_fn(fns_in_block(item.block)[j as int], found[j as int]));
            assert(all[j + 1] == fns_in_block(item.block)[j as int]);
            assert(same_sig(all[j + 1].sig, f.sig));
        }
        let ti = resolve(trace, f);
        models.push(Model::Item(Box::new(ti)));
        j = j + 1;
        proof {
            assert(nested@ =~= found.subrange(j as int, found.len() as int));
        }
    }
    models
}

} // verus!
