//! Turns an `async fn` signature into a synchronous one that returns a
//! future.
use vstd::prelude::*;
use crate::lower::lifetime::{
    CollectLifetimes, elided_in_inputs, opt_resolved, resolved_input, resolved_inputs,
    resolved_type,
};
use crate::syntax::{
    AutoTrait, Bounded, FnArg, GenericArg, GenericParam, Lifetime, Pat, Path, PathSegment,
    ReturnType, Signature, TokenTree, Type, WherePredicate,
};
use crate::text::is_word;

verus! {

/// An identifier `w` stands somewhere among the tokens, groups included.
pub open spec fn word_in_tokens(ts: Seq<TokenTree>, w: Seq<char>) -> bool
    decreases ts, 1nat,
{
    ts.len() > 0 && (word_in_tokens(ts.drop_last(), w) || word_in_token(ts.last(), w))
}

pub open spec fn word_in_token(t: TokenTree, w: Seq<char>) -> bool
    decreases t, 0nat,
{
    match t {
        TokenTree::Ident(s) => s@ == w,
        TokenTree::Group(_, ts) => word_in_tokens(ts@, w),
        _ => false,
    }
}

fn contains_word(ts: &Vec<TokenTree>, w: &str) -> (r: bool)
    ensures
        r == word_in_tokens(ts@, w@),
    decreases ts, 1nat,
{
    let mut i: usize = 0;
    while i < ts.len()
        invariant
            i <= ts@.len(),
            !word_in_tokens(ts@.subrange(0, i as int), w@),
        decreases ts@.len() - i,
    {
        proof {
            assert(decreases_to!(ts => ts@[i as int]));
            assert(ts@.subrange(0, i as int + 1).drop_last() =~= ts@.subrange(0, i as int));
        }
        let hit = match &ts[i] {
            TokenTree::Ident(s) => is_word(s, w),
            TokenTree::Group(_, inner) => contains_word(inner, w),
            _ => false,
        };
        assert(hit == word_in_token(ts@[i as int], w@));
        assert(ts@.subrange(0, i as int + 1).last() == ts@[i as int]);
        if hit {
            proof {
                lemma_word_in_prefix(ts@, w@, i as int + 1);
            }
            return true;
        }
        i = i + 1;
    }
    assert(ts@.subrange(0, i as int) =~= ts@);
    false
}

proof fn lemma_word_in_prefix(ts: Seq<TokenTree>, w: Seq<char>, n: int)
    requires
        0 <= n <= ts.len(),
        word_in_tokens(ts.subrange(0, n), w),
    ensures
        word_in_tokens(ts, w),
    decreases ts.len() - n,
{
    if n < ts.len() {
        assert(ts.subrange(0, n + 1).drop_last() =~= ts.subrange(0, n));
        lemma_word_in_prefix(ts, w, n + 1);
    } else {
        assert(ts.subrange(0, n) =~= ts);
    }
}

/// Whether the tokens name `Self` anywhere.
pub fn has_self_in_token_stream(tokens: &Vec<TokenTree>) -> (r: bool)
    ensures
        r == word_in_tokens(tokens@, "Self"@),
{
    contains_word(tokens, "Self")
}

/// Whether the tokens hold the keyword `fn` anywhere.
pub fn contains_fn(tokens: &Vec<TokenTree>) -> (r: bool)
    ensures
        r == word_in_tokens(tokens@, "fn"@),
{
    contains_word(tokens, "fn")
}

// Where a signature mentions `Self`: a receiver, a path that starts with
// `Self`, or the tokens of a part kept as written. A macro that defines a
// function is not looked into.

pub open spec fn starts_with_self(p: Path) -> bool {
    p.segments@.len() > 0 && p.segments@[0].ident@ == "Self"@
}

pub open spec fn self_in_type(t: Type) -> bool
    decreases t,
{
    match t {
        Type::Path(p) => starts_with_self(p) || exists|i: int, j: int|
            0 <= i < p.segments@.len() && 0 <= j < p.segments@[i].args@.len() && self_in_arg(
                #[trigger] p.segments@[i].args@[j],
            ),
        Type::Qualified { qself, path, .. } => self_in_type(*qself) || starts_with_self(path)
            || exists|i: int, j: int|
            0 <= i < path.segments@.len() && 0 <= j < path.segments@[i].args@.len() && self_in_arg(
                #[trigger] path.segments@[i].args@[j],
            ),
        Type::Ptr { elem, .. } => self_in_type(*elem),
        Type::Array { elem, len } => self_in_type(*elem) || word_in_tokens(len@, "Self"@),
        Type::Paren(elem) => self_in_type(*elem),
        Type::ImplTrait(bs) => exists|i: int| 0 <= i < bs@.len() && self_in_arg(#[trigger] bs@[i]),
        Type::TraitObject { bounds, .. } => exists|i: int|
            0 <= i < bounds@.len() && self_in_arg(#[trigger] bounds@[i]),
        Type::Reference { elem, .. } => self_in_type(*elem),
        Type::Tuple(v) => exists|i: int| 0 <= i < v@.len() && self_in_type(#[trigger] v@[i]),
        Type::Slice(elem) => self_in_type(*elem),
        Type::Macro(ts) => !word_in_tokens(ts@, "fn"@) && word_in_tokens(ts@, "Self"@),
        Type::Other(ts) => word_in_tokens(ts@, "Self"@),
        Type::ImplFuture { output, .. } => self_in_type(*output),
    }
}

pub open spec fn self_in_arg(a: GenericArg) -> bool
    decreases a,
{
    match a {
        GenericArg::Lifetime(_) => false,
        GenericArg::Type(t) => self_in_type(t),
        GenericArg::Binding { ty, .. } => self_in_type(ty),
        GenericArg::Other(ts) => word_in_tokens(ts@, "Self"@),
    }
}

pub open spec fn self_in_pat(p: Pat) -> bool
    decreases p,
{
    match p {
        Pat::Ident { subpat, .. } => match subpat {
            Some(sp) => self_in_pat(*sp),
            None => false,
        },
        Pat::Positional { .. } => false,
        Pat::Compound { elems, .. } => exists|i: int|
            0 <= i < elems@.len() && self_in_pat(#[trigger] elems@[i]),
    }
}

pub open spec fn self_in_input(a: FnArg) -> bool {
    match a {
        FnArg::Receiver { .. } => true,
        FnArg::Typed { pat, ty } => self_in_pat(pat) || self_in_type(ty),
    }
}

pub open spec fn self_in_param(g: GenericParam) -> bool {
    match g {
        GenericParam::Type { rest, .. } => word_in_tokens(rest@, "Self"@),
        GenericParam::Const(ts) => word_in_tokens(ts@, "Self"@),
        _ => false,
    }
}

pub open spec fn self_in_pred(w: WherePredicate) -> bool {
    match w {
        WherePredicate::Other(ts) => word_in_tokens(ts@, "Self"@),
        WherePredicate::Outlives { bounded, .. } => bounded is SelfType,
    }
}

/// The signature mentions `Self`.
pub open spec fn self_in_sig(sig: Signature) -> bool {
    ||| exists|k: int|
        0 <= k < sig.generics.params@.len() && self_in_param(#[trigger] sig.generics.params@[k])
    ||| sig.generics.where_clause matches Some(w) && exists|k: int|
        0 <= k < w@.len() && self_in_pred(#[trigger] w@[k])
    ||| exists|k: int| 0 <= k < sig.inputs@.len() && self_in_input(#[trigger] sig.inputs@[k])
    ||| sig.output matches ReturnType::Type(t) && self_in_type(t)
}

fn segments_have_self(segs: &Vec<PathSegment>) -> (r: bool)
    ensures
        r == exists|i: int, j: int|
            0 <= i < segs@.len() && 0 <= j < segs@[i].args@.len() && self_in_arg(
                #[trigger] segs@[i].args@[j],
            ),
    decreases segs, 3nat,
{
    let mut i: usize = 0;
    while i < segs.len()
        invariant
            i <= segs@.len(),
            forall|k: int, j: int|
                0 <= k < i && 0 <= j < segs@[k].args@.len() ==> !self_in_arg(
                    #[trigger] segs@[k].args@[j],
                ),
        decreases segs@.len() - i,
    {
        proof {
            assert(decreases_to!(segs => segs@[i as int]));
            assert(decreases_to!(segs@[i as int] => segs@[i as int].args));
        }
        if args_have_self(&segs[i].args) {
            return true;
        }
        i = i + 1;
    }
    false
}

fn args_have_self(args: &Vec<GenericArg>) -> (r: bool)
    ensures
        r == exists|j: int| 0 <= j < args@.len() && self_in_arg(#[trigger] args@[j]),
    decreases args, 2nat,
{
    let mut j: usize = 0;
    while j < args.len()
        invariant
            j <= args@.len(),
            forall|k: int| 0 <= k < j ==> !self_in_arg(#[trigger] args@[k]),
        decreases args@.len() - j,
    {
        proof {
            assert(decreases_to!(args => args@[j as int]));
        }
        if arg_has_self(&args[j]) {
            return true;
        }
        j = j + 1;
    }
    false
}

fn arg_has_self(a: &GenericArg) -> (r: bool)
    ensures
        r == self_in_arg(*a),
    decreases a, 1nat,
{
    match a {
        GenericArg::Lifetime(_) => false,
        GenericArg::Type(t) => type_has_self(t),
        GenericArg::Binding { ty, .. } => type_has_self(ty),
        GenericArg::Other(ts) => has_self_in_token_stream(ts),
    }
}

fn types_have_self(v: &Vec<Type>) -> (r: bool)
    ensures
        r == exists|i: int| 0 <= i < v@.len() && self_in_type(#[trigger] v@[i]),
    decreases v, 1nat,
{
    let mut i: usize = 0;
    while i < v.len()
        invariant
            i <= v@.len(),
            forall|k: int| 0 <= k < i ==> !self_in_type(#[trigger] v@[k]),
        decreases v@.len() - i,
    {
        proof {
            assert(decreases_to!(v => v@[i as int]));
        }
        if type_has_self(&v[i]) {
            return true;
        }
        i = i + 1;
    }
    false
}

fn type_has_self(t: &Type) -> (r: bool)
    ensures
        r == self_in_type(*t),
    decreases t, 0nat,
{
    match t {
        Type::Path(p) => {
            let first = p.segments.len() > 0 && is_word(&p.segments[0].ident, "Self");
            first || segments_have_self(&p.segments)
        },
        Type::Qualified { qself, path, .. } => {
            let first = path.segments.len() > 0 && is_word(&path.segments[0].ident, "Self");
            type_has_self(qself) || first || segments_have_self(&path.segments)
        },
        Type::Ptr { elem, .. } => type_has_self(elem),
        Type::Array { elem, len } => type_has_self(elem) || has_self_in_token_stream(len),
        Type::Paren(elem) => type_has_self(elem),
        Type::ImplTrait(bs) => args_have_self(bs),
        Type::TraitObject { bounds, .. } => args_have_self(bounds),
        Type::Reference { elem, .. } => type_has_self(elem),
        Type::Tuple(v) => types_have_self(v),
        Type::Slice(elem) => type_has_self(elem),
        Type::Macro(ts) => !contains_fn(ts) && has_self_in_token_stream(ts),
        Type::Other(ts) => has_self_in_token_stream(ts),
        Type::ImplFuture { output, .. } => type_has_self(output),
    }
}

fn pats_have_self(v: &Vec<Pat>) -> (r: bool)
    ensures
        r == exists|i: int| 0 <= i < v@.len() && self_in_pat(#[trigger] v@[i]),
    decreases v, 1nat,
{
    let mut i: usize = 0;
    while i < v.len()
        invariant
            i <= v@.len(),
            forall|k: int| 0 <= k < i ==> !self_in_pat(#[trigger] v@[k]),
        decreases v@.len() - i,
    {
        proof {
            assert(decreases_to!(v => v@[i as int]));
        }
        if pat_has_self(&v[i]) {
            return true;
        }
        i = i + 1;
    }
    false
}

fn pat_has_self(p: &Pat) -> (r: bool)
    ensures
        r == self_in_pat(*p),
    decreases p, 0nat,
{
    match p {
        Pat::Ident { subpat, .. } => match subpat {
            Some(sp) => pat_has_self(sp),
            None => false,
        },
        Pat::Positional { .. } => false,
        Pat::Compound { elems, .. } => pats_have_self(elems),
    }
}

/// Whether a signature mentions `Self`, the answer gathered in its field.
pub struct HasSelf(pub bool);

impl HasSelf {
    /// Gathers whether the signature mentions `Self`.
    pub fn visit_signature(&mut self, sig: &Signature)
        ensures
            final(self).0 == (old(self).0 || self_in_sig(*sig)),
    {
        let mut found = false;
        let ghost params = sig.generics.params@;
        let ghost inputs = sig.inputs@;
        let mut i: usize = 0;
        while i < sig.generics.params.len()
            invariant
                i <= params.len(),
                params == sig.generics.params@,
                found == exists|k: int| 0 <= k < i && #[trigger] self_in_param(params[k]),
            decreases params.len() - i,
        {
            let hit = match &sig.generics.params[i] {
                GenericParam::Type { rest, .. } => has_self_in_token_stream(rest),
                GenericParam::Const(ts) => has_self_in_token_stream(ts),
                _ => false,
            };
            proof {
                if found {
                    let k = choose|k: int| 0 <= k < i && #[trigger] self_in_param(params[k]);
                    assert(0 <= k < i + 1 && self_in_param(params[k]));
                }
                if hit {
                    assert(self_in_param(params[i as int]));
                }
            }
            found = found || hit;
            i = i + 1;
        }
        if let Some(w) = &sig.generics.where_clause {
            let mut j: usize = 0;
            let ghost before = found;
            while j < w.len()
                invariant
                    j <= w@.len(),
                    found == (before || exists|k: int| 0 <= k < j && #[trigger] self_in_pred(w@[k])),
                decreases w@.len() - j,
            {
                let hit = match &w[j] {
                    WherePredicate::Other(ts) => has_self_in_token_stream(ts),
                    WherePredicate::Outlives { bounded, .. } => {
                        if let Bounded::SelfType = bounded {
                            true
                        } else {
                            false
                        }
                    },
                };
                proof {
                    if exists|k: int| 0 <= k < j && #[trigger] self_in_pred(w@[k]) {
                        let k = choose|k: int| 0 <= k < j && #[trigger] self_in_pred(w@[k]);
                        assert(0 <= k < j + 1 && self_in_pred(w@[k]));
                    }
                    if hit {
                        assert(self_in_pred(w@[j as int]));
                    }
                }
                found = found || hit;
                j = j + 1;
            }
        }
        let ghost before_inputs = found;
        let mut m: usize = 0;
        while m < sig.inputs.len()
            invariant
                m <= inputs.len(),
                inputs == sig.inputs@,
                found == (before_inputs || exists|k: int|
                    0 <= k < m && #[trigger] self_in_input(inputs[k])),
            decreases inputs.len() - m,
        {
            let hit = match &sig.inputs[m] {
                FnArg::Receiver { .. } => true,
                FnArg::Typed { pat, ty } => pat_has_self(pat) || type_has_self(ty),
            };
            proof {
                if exists|k: int| 0 <= k < m && #[trigger] self_in_input(inputs[k]) {
                    let k = choose|k: int| 0 <= k < m && #[trigger] self_in_input(inputs[k]);
                    assert(0 <= k < m + 1 && self_in_input(inputs[k]));
                }
                if hit {
                    assert(self_in_input(inputs[m as int]));
                }
            }
            found = found || hit;
            m = m + 1;
        }
        if let ReturnType::Type(t) = &sig.output {
            found = found || type_has_self(t);
        }
        self.0 = self.0 || found;
    }
}

/// The pattern binds some name mutably.
pub open spec fn has_mut(p: Pat) -> bool
    decreases p,
{
    match p {
        Pat::Ident { mutable, subpat, .. } => mutable || (subpat matches Some(sp) && has_mut(*sp)),
        Pat::Positional { mutable, .. } => mutable,
        Pat::Compound { elems, .. } => exists|i: int|
            0 <= i < elems@.len() && has_mut(#[trigger] elems@[i]),
    }
}

/// Whether the pattern binds some name mutably.
pub fn mut_pat(pat: &Pat) -> (r: bool)
    ensures
        r == has_mut(*pat),
    decreases pat, 0nat,
{
    match pat {
        Pat::Ident { mutable, subpat, .. } => {
            if *mutable {
                true
            } else {
                match subpat {
                    Some(sp) => mut_pat(sp),
                    None => false,
                }
            }
        },
        Pat::Positional { mutable, .. } => *mutable,
        Pat::Compound { elems, .. } => pats_have_mut(elems),
    }
}

fn pats_have_mut(v: &Vec<Pat>) -> (r: bool)
    ensures
        r == exists|i: int| 0 <= i < v@.len() && has_mut(#[trigger] v@[i]),
    decreases v, 1nat,
{
    let mut i: usize = 0;
    while i < v.len()
        invariant
            i <= v@.len(),
            forall|k: int| 0 <= k < i ==> !has_mut(#[trigger] v@[k]),
        decreases v@.len() - i,
    {
        proof {
            assert(decreases_to!(v => v@[i as int]));
        }
        if mut_pat(&v[i]) {
            return true;
        }
        i = i + 1;
    }
    false
}

/// The predicates of a where clause, none where it is absent.
pub open spec fn preds_of(c: Option<Vec<WherePredicate>>) -> Seq<WherePredicate> {
    match c {
        Some(w) => w@,
        None => Seq::empty(),
    }
}

/// `b: 'minitrace`
pub open spec fn tracer_bound(b: Bounded) -> WherePredicate {
    WherePredicate::Outlives { bounded: b, marker: None }
}

/// A `'minitrace` bound for each type and lifetime parameter, in order.
pub open spec fn param_bounds(ps: Seq<GenericParam>) -> Seq<WherePredicate>
    decreases ps.len(),
{
    if ps.len() == 0 {
        Seq::empty()
    } else {
        param_bounds(ps.drop_last()) + match ps.last() {
            GenericParam::Type { ident, .. } => seq![tracer_bound(Bounded::Param(ident))],
            GenericParam::Lifetime { lifetime, .. } => seq![
                tracer_bound(Bounded::Lifetime(lifetime)),
            ],
            _ => Seq::empty(),
        }
    }
}

/// A `'minitrace` bound for each of the `n` minted lifetimes, in order.
pub open spec fn minted_bounds(n: nat) -> Seq<WherePredicate> {
    Seq::new(n, |i: int| tracer_bound(Bounded::Lifetime(Lifetime::Minted(i as usize))))
}

/// The parameter is `&self`, or `self` typed as a shared reference.
pub open spec fn is_shared_self(a: FnArg) -> bool {
    ||| a matches FnArg::Receiver { by_ref: true, mutable: false, .. }
    ||| a matches FnArg::Typed {
        pat: Pat::Ident { ident, .. },
        ty: Type::Reference { mutable: false, .. },
    } && ident@ == "self"@
}

/// Generic parameter `g` is the minted lifetime number `i`, unbounded.
pub open spec fn is_minted_param(g: GenericParam, i: int) -> bool {
    g matches GenericParam::Lifetime { lifetime: Lifetime::Minted(n), rest } && n == i && rest@.len()
        == 0
}

/// The parameters start with `&self`, or `self: &Self`-like shared
/// reference: `Self` must be `Sync`; else it must be `Send`.
pub open spec fn self_marker(inputs: Seq<FnArg>) -> AutoTrait {
    if inputs.len() > 0 && is_shared_self(inputs[0]) {
        AutoTrait::Sync
    } else {
        AutoTrait::Send
    }
}

/// The bound put on `Self` where the signature mentions it.
pub open spec fn self_bound(has_self: bool, is_local: bool, inputs: Seq<FnArg>) -> Seq<
    WherePredicate,
> {
    if has_self {
        seq![
            WherePredicate::Outlives {
                bounded: Bounded::SelfType,
                marker: if is_local {
                    None
                } else {
                    Some(self_marker(inputs))
                },
            },
        ]
    } else {
        Seq::empty()
    }
}

/// A parameter pattern of the rewritten signature: a name loses `ref`, any
/// other pattern becomes `__arg<i>`, `mut` where it bound mutably.
pub open spec fn normalized_pat(p: Pat, i: int) -> Pat {
    match p {
        Pat::Ident { mutable, ident, subpat, .. } => Pat::Ident {
            by_ref: false,
            mutable,
            ident,
            subpat,
        },
        _ => Pat::Positional { index: i as usize, mutable: has_mut(p) },
    }
}

/// `c` is parameter `i`, `a`, rewritten, its first elided lifetime named
/// `Minted(k)`.
pub open spec fn lowered_input(a: FnArg, c: FnArg, i: int, k: nat) -> bool {
    match a {
        FnArg::Receiver { by_ref, lifetime, mutable } => c == FnArg::Receiver {
            by_ref,
            lifetime: if by_ref {
                opt_resolved(lifetime, k)
            } else {
                lifetime
            },
            mutable: by_ref && mutable,
        },
        FnArg::Typed { pat, ty } => c matches FnArg::Typed { pat: p2, ty: t2 } && p2
            == normalized_pat(pat, i) && resolved_type(ty, t2, k),
    }
}

pub open spec fn lowered_inputs(a: Seq<FnArg>, c: Seq<FnArg>) -> bool {
    &&& a.len() == c.len()
    &&& forall|i: int|
        0 <= i < a.len() ==> lowered_input(
            #[trigger] a[i],
            c[i],
            i,
            elided_in_inputs(a.subrange(0, i)),
        )
}

proof fn lemma_resolved_inputs_pointwise(a: Seq<FnArg>, b: Seq<FnArg>, k: nat)
    requires
        resolved_inputs(a, b, k),
    ensures
        a.len() == b.len(),
        forall|i: int|
            0 <= i < a.len() ==> resolved_input(
                #[trigger] a[i],
                b[i],
                k + elided_in_inputs(a.subrange(0, i)),
            ),
    decreases a.len(),
{
    if a.len() > 0 {
        lemma_resolved_inputs_pointwise(a.drop_last(), b.drop_last(), k);
        assert forall|i: int| 0 <= i < a.len() implies resolved_input(
            #[trigger] a[i],
            b[i],
            k + elided_in_inputs(a.subrange(0, i)),
        ) by {
            if i < a.len() - 1 {
                assert(a.drop_last()[i] == a[i]);
                assert(b.drop_last()[i] == b[i]);
                assert(a.drop_last().subrange(0, i) =~= a.subrange(0, i));
            } else {
                assert(a.subrange(0, i) =~= a.drop_last());
            }
        }
    }
}

/// The generic parameters, where clause, parameters and return type of the
/// future-returning form of the `async` signature `a`.
pub open spec fn sig_lowered(
    a: Signature,
    params: Seq<GenericParam>,
    where_clause: Option<Vec<WherePredicate>>,
    inputs: Seq<FnArg>,
    output: ReturnType,
    has_self: bool,
    is_local: bool,
) -> bool {
    let m = elided_in_inputs(a.inputs@);
    let old_params = a.generics.params@;
    &&& params.len() == 1 + m + old_params.len()
    &&& params[0] is Tracer
    &&& forall|i: int| 0 <= i < m ==> is_minted_param(#[trigger] params[1 + i], i)
    &&& forall|i: int| 0 <= i < old_params.len() ==> #[trigger] params[1 + m + i] == old_params[i]
    &&& (where_clause is None <==> a.generics.where_clause is None && preds_of(where_clause).len()
        == 0)
    &&& preds_of(where_clause) == preds_of(a.generics.where_clause) + param_bounds(old_params)
        + minted_bounds(m) + self_bound(has_self, is_local, a.inputs@)
    &&& lowered_inputs(a.inputs@, inputs)
    &&& output matches ReturnType::Type(Type::ImplFuture { output: fut, send }) && send
        == !is_local && match a.output {
        ReturnType::Default => *fut matches Type::Tuple(v) && v@.len() == 0,
        ReturnType::Type(t) => *fut == t,
    }
}

/// Turns the signature of an `async fn` into that of a synchronous function
/// returning a future that borrows no longer than `'minitrace`: elided
/// lifetimes are named, `'minitrace` and the minted lifetimes lead the
/// generic parameters, every type and lifetime parameter (and `Self`, where
/// the signature mentions it) must outlive `'minitrace`, destructuring
/// parameters become positional names, and outside a purely local context
/// the future and `Self` must be `Send` (`Sync` for a shared receiver).
#[verifier::rlimit(60)]
pub fn transform_sig(sig: &mut Signature, has_self: bool, is_local: bool)
    requires
        old(sig).asyncness,
        elided_in_inputs(old(sig).inputs@) <= usize::MAX,
    ensures
        !final(sig).asyncness,
        final(sig).constness == old(sig).constness,
        final(sig).unsafety == old(sig).unsafety,
        final(sig).abi == old(sig).abi,
        final(sig).ident == old(sig).ident,
        sig_lowered(
            *old(sig),
            final(sig).generics.params@,
            final(sig).generics.where_clause,
            final(sig).inputs@,
            final(sig).output,
            has_self,
            is_local,
        ),
{
    sig.asyncness = false;
    let mut out = ReturnType::Default;
    core::mem::swap(&mut out, &mut sig.output);
    let ret = match out {
        ReturnType::Type(t) => t,
        ReturnType::Default => Type::Tuple(Vec::new()),
    };
    let ghost a = sig.inputs@;
    let ghost old_params = sig.generics.params@;
    let ghost old_preds = preds_of(sig.generics.where_clause);
    let mut lifetimes = CollectLifetimes::new();
    lifetimes.visit_inputs(&mut sig.inputs);
    let ghost b = sig.inputs@;
    proof {
        lemma_resolved_inputs_pointwise(a, b, 0);
    }
    let had_where = sig.generics.where_clause.is_some();
    let mut preds: Vec<WherePredicate> = match sig.generics.where_clause.take() {
        Some(w) => w,
        None => Vec::new(),
    };
    assert(preds@ == old_preds);
    let mut i: usize = 0;
    while i < sig.generics.params.len()
        invariant
            i <= old_params.len(),
            sig.generics.params@ == old_params,
            sig.inputs@ == b,
            !sig.asyncness,
            sig.constness == old(sig).constness,
            sig.unsafety == old(sig).unsafety,
            sig.abi == old(sig).abi,
            sig.ident == old(sig).ident,
            preds@ == old_preds + param_bounds(old_params.subrange(0, i as int)),
        decreases old_params.len() - i,
    {
        let ghost pre = preds@;
        proof {
            assert(old_params.subrange(0, i as int + 1).drop_last() =~= old_params.subrange(
                0,
                i as int,
            ));
        }
        match &sig.generics.params[i] {
            GenericParam::Type { ident, .. } => {
                preds.push(
                    WherePredicate::Outlives { bounded: Bounded::Param(ident.clone()), marker: None },
                );
            },
            GenericParam::Lifetime { lifetime, .. } => {
                preds.push(
                    WherePredicate::Outlives {
                        bounded: Bounded::Lifetime(lifetime.clone()),
                        marker: None,
                    },
                );
            },
            _ => {},
        }
        i = i + 1;
        assert(preds@ =~= old_preds + param_bounds(old_params.subrange(0, i as int)));
    }
    assert(old_params.subrange(0, i as int) =~= old_params);
    let minted = lifetimes.elided.len();
    let mut idx: usize = 0;
    while idx < minted
        invariant
            idx <= minted,
            minted == elided_in_inputs(a),
            sig.inputs@ == b,
            !sig.asyncness,
            sig.constness == old(sig).constness,
            sig.unsafety == old(sig).unsafety,
            sig.abi == old(sig).abi,
            sig.ident == old(sig).ident,
            sig.generics.params@.len() == idx + old_params.len(),
            forall|j: int|
                0 <= j < idx ==> is_minted_param(#[trigger] sig.generics.params@[j], j),
            forall|j: int|
                0 <= j < old_params.len() ==> #[trigger] sig.generics.params@[idx + j]
                    == old_params[j],
            preds@ == old_preds + param_bounds(old_params) + minted_bounds(idx as nat),
        decreases minted - idx,
    {
        let ghost before = sig.generics.params@;
        sig.generics.params.insert(
            idx,
            GenericParam::Lifetime { lifetime: Lifetime::Minted(idx), rest: Vec::new() },
        );
        preds.push(
            WherePredicate::Outlives {
                bounded: Bounded::Lifetime(Lifetime::Minted(idx)),
                marker: None,
            },
        );
        proof {
            assert forall|j: int| 0 <= j < old_params.len() implies #[trigger] sig.generics.params@[
                idx + 1 + j] == old_params[j] by {
                assert(sig.generics.params@[idx + 1 + j] == before[idx + j]);
            }
            assert forall|j: int| 0 <= j < idx + 1 implies is_minted_param(#[trigger] sig.generics.params@[j], j) by {
                if j < idx {
                    assert(sig.generics.params@[j] == before[j]);
                }
            }
            assert(preds@ =~= old_preds + param_bounds(old_params) + minted_bounds(idx as nat + 1));
        }
        idx = idx + 1;
    }
    let ghost before_tracer = sig.generics.params@;
    sig.generics.params.insert(0, GenericParam::Tracer);
    proof {
        assert forall|j: int| 0 <= j < old_params.len() implies #[trigger] sig.generics.params@[
            1 + minted + j] == old_params[j] by {
            assert(sig.generics.params@[1 + minted + j] == before_tracer[minted + j]);
        }
        assert forall|j: int| 0 <= j < minted implies is_minted_param(#[trigger] sig.generics.params@[1 + j], j) by {
            assert(sig.generics.params@[1 + j] == before_tracer[j]);
        }
    }
    if has_self {
        let marker = if sig.inputs.len() > 0 && first_is_shared_self(&sig.inputs[0]) {
            AutoTrait::Sync
        } else {
            AutoTrait::Send
        };
        proof {
            if a.len() > 0 {
                assert(resolved_input(a[0], b[0], 0 + elided_in_inputs(a.subrange(0, 0))));
                lemma_shared_self_kept(a[0], b[0], 0 + elided_in_inputs(a.subrange(0, 0)));
            }
        }
        assert(marker == self_marker(a));
        preds.push(
            WherePredicate::Outlives {
                bounded: Bounded::SelfType,
                marker: if is_local {
                    None
                } else {
                    Some(marker)
                },
            },
        );
    }
    assert(preds@ =~= old_preds + param_bounds(old_params) + minted_bounds(minted as nat)
        + self_bound(has_self, is_local, a));
    sig.generics.where_clause = if !had_where && preds.len() == 0 {
        None
    } else {
        Some(preds)
    };
    let ghost generics_done = sig.generics;
    let mut k: usize = 0;
    while k < sig.inputs.len()
        invariant
            k <= b.len(),
            sig.inputs@.len() == b.len(),
            a.len() == b.len(),
            forall|i: int|
                0 <= i < a.len() ==> resolved_input(
                    #[trigger] a[i],
                    b[i],
                    0 + elided_in_inputs(a.subrange(0, i)),
                ),
            forall|i: int|
                0 <= i < k ==> lowered_input(
                    #[trigger] a[i],
                    sig.inputs@[i],
                    i,
                    elided_in_inputs(a.subrange(0, i)),
                ),
            forall|i: int| k <= i < b.len() ==> #[trigger] sig.inputs@[i] == b[i],
            !sig.asyncness,
            sig.constness == old(sig).constness,
            sig.unsafety == old(sig).unsafety,
            sig.abi == old(sig).abi,
            sig.ident == old(sig).ident,
            sig.generics == generics_done,
        decreases b.len() - k,
    {
        let ghost before = sig.inputs@;
        match &mut sig.inputs[k] {
            FnArg::Receiver { by_ref, mutable, .. } => {
                if !*by_ref {
                    *mutable = false;
                }
            },
            FnArg::Typed { pat, .. } => {
                let positional = match pat {
                    Pat::Ident { by_ref, .. } => {
                        *by_ref = false;
                        false
                    },
                    _ => true,
                };
                if positional {
                    let m = mut_pat(pat);
                    *pat = Pat::Positional { index: k, mutable: m };
                }
            },
        }
        proof {
            assert(resolved_input(a[k as int], b[k as int], 0 + elided_in_inputs(a.subrange(0, k as int))));
            assert forall|i: int| 0 <= i < k implies lowered_input(
                #[trigger] a[i],
                sig.inputs@[i],
                i,
                elided_in_inputs(a.subrange(0, i)),
            ) by {
                assert(sig.inputs@[i] == before[i]);
            }
        }
        k = k + 1;
    }
    sig.output = ReturnType::Type(Type::ImplFuture { output: Box::new(ret), send: !is_local });
}

proof fn lemma_shared_self_kept(x: FnArg, y: FnArg, k: nat)
    requires
        resolved_input(x, y, k),
    ensures
        is_shared_self(x) == is_shared_self(y),
{
    if let FnArg::Typed { ty, .. } = x {
        assert(resolved_type(ty, y->ty, k));
    }
}

/// The parameter is `&self`, or `self` typed as a shared reference.
fn first_is_shared_self(arg: &FnArg) -> (r: bool)
    ensures
        r == is_shared_self(*arg),
{
    match arg {
        FnArg::Receiver { by_ref, mutable, .. } => *by_ref && !*mutable,
        FnArg::Typed { pat: Pat::Ident { ident, .. }, ty: Type::Reference { mutable, .. } } => {
            !*mutable && is_word(ident, "self")
        },
        _ => false,
    }
}

} // verus!
