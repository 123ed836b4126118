//! Rewrites each model into the function that is emitted.
use vstd::prelude::*;
use crate::analyze::{Model, Models, TracedItem};
use crate::lower::async_trait::{AsyncTraitInfo, AsyncTraitKind, async_trait_info, get_async_trait_info};
use crate::lower::block::{Body, Diagnostic, gen_block, span_body, span_diagnostic};
use crate::lower::lifetime::{count_elided_inputs, elided_in_inputs};
use crate::lower::quotable::{Quotable, Quotables, Quote};
use crate::lower::signature::{HasSelf, self_in_sig, sig_lowered, transform_sig};
use crate::syntax::{Attribute, Expr, ItemFn, Signature, Stmt};
use crate::text::is_word;

pub mod async_trait;
pub mod block;
pub mod lifetime;
pub mod quotable;
pub mod signature;

verus! {

/// The attribute is the one being expanded: `#[trace(..)]` or
/// `#[minitrace::trace(..)]`. Any other path, `#[foo::trace]` included, is
/// another attribute.
pub open spec fn is_trace_attr(a: Attribute) -> bool {
    ||| a.path@.len() == 1 && a.path@[0]@ == "trace"@
    ||| a.path@.len() == 2 && a.path@[0]@ == "minitrace"@ && a.path@[1]@ == "trace"@
}

/// The attributes other than the one being expanded, in order.
pub open spec fn kept_attrs(s: Seq<Attribute>) -> Seq<Attribute>
    decreases s.len(),
{
    if s.len() == 0 {
        Seq::empty()
    } else {
        kept_attrs(s.drop_last()) + if is_trace_attr(s.last()) {
            Seq::empty()
        } else {
            seq![s.last()]
        }
    }
}

/// Dropping the `trace` attribute keeps every other attribute, in order:
/// none of those kept is `trace`, and a list without `trace` is kept whole.
pub proof fn lemma_kept_attrs(s: Seq<Attribute>)
    ensures
        forall|i: int| 0 <= i < kept_attrs(s).len() ==> !is_trace_attr(#[trigger] kept_attrs(s)[i]),
        (forall|i: int| 0 <= i < s.len() ==> !is_trace_attr(#[trigger] s[i])) ==> kept_attrs(s)
            == s,
    decreases s.len(),
{
    if s.len() > 0 {
        lemma_kept_attrs(s.drop_last());
        let pre = kept_attrs(s.drop_last());
        assert forall|i: int| 0 <= i < kept_attrs(s).len() implies !is_trace_attr(
            #[trigger] kept_attrs(s)[i],
        ) by {
            if i < pre.len() {
                assert(kept_attrs(s)[i] == pre[i]);
            }
        }
        if forall|i: int| 0 <= i < s.len() ==> !is_trace_attr(#[trigger] s[i]) {
            assert forall|i: int| 0 <= i < s.drop_last().len() implies !is_trace_attr(
                #[trigger] s.drop_last()[i],
            ) by {
                assert(s.drop_last()[i] == s[i]);
            }
            assert(!is_trace_attr(s[s.len() - 1]));
            assert(s.drop_last().push(s.last()) =~= s);
            assert(kept_attrs(s) =~= s);
        }
    }
}

proof fn lemma_kept_attrs_concat(a: Seq<Attribute>, b: Seq<Attribute>)
    ensures
        kept_attrs(a + b) == kept_attrs(a) + kept_attrs(b),
    decreases b.len(),
{
    if b.len() == 0 {
        assert(a + b =~= a);
        assert(kept_attrs(a) + kept_attrs(b) =~= kept_attrs(a));
    } else {
        lemma_kept_attrs_concat(a, b.drop_last());
        assert((a + b).drop_last() =~= a + b.drop_last());
        assert((a + b).last() == b.last());
        let tail = if is_trace_attr(b.last()) {
            Seq::empty()
        } else {
            seq![b.last()]
        };
        assert(kept_attrs(a) + kept_attrs(b.drop_last()) + tail =~= kept_attrs(a) + (kept_attrs(
            b.drop_last(),
        ) + tail));
    }
}

/// The attributes written before and after `trace` stay, in order, and
/// `trace` itself goes.
pub proof fn lemma_trace_attr_removed(pre: Seq<Attribute>, t: Attribute, post: Seq<Attribute>)
    requires
        is_trace_attr(t),
        forall|i: int| 0 <= i < pre.len() ==> !is_trace_attr(#[trigger] pre[i]),
        forall|i: int| 0 <= i < post.len() ==> !is_trace_attr(#[trigger] post[i]),
    ensures
        kept_attrs(pre + seq![t] + post) == pre + post,
{
    lemma_kept_attrs(pre);
    lemma_kept_attrs(post);
    lemma_kept_attrs_concat(pre + seq![t], post);
    lemma_kept_attrs_concat(pre, seq![t]);
    assert(seq![t].drop_last() =~= Seq::<Attribute>::empty());
    assert(seq![t].last() == t);
    assert(kept_attrs(Seq::<Attribute>::empty()) == Seq::<Attribute>::empty());
    assert(kept_attrs(seq![t]) =~= Seq::<Attribute>::empty());
    assert(pre + Seq::<Attribute>::empty() =~= pre);
}

fn strip_trace_attrs(attrs: Vec<Attribute>) -> (r: Vec<Attribute>)
    ensures
        r@ == kept_attrs(attrs@),
{
    let ghost all = attrs@;
    let total = attrs.len();
    let mut rest = attrs;
    let mut kept: Vec<Attribute> = Vec::new();
    let mut j: usize = 0;
    while rest.len() > 0
        invariant
            j <= all.len(),
            all.len() == total,
            rest@ == all.subrange(j as int, all.len() as int),
            kept@ == kept_attrs(all.subrange(0, j as int)),
        decreases rest@.len(),
    {
        let a = rest.remove(0);
        proof {
            assert(a == all[j as int]);
            assert(all.subrange(0, j as int + 1).drop_last() =~= all.subrange(0, j as int));
        }
        let n = a.path.len();
        let trace = (n == 1 && is_word(&a.path[0], "trace")) || (n == 2 && is_word(
            &a.path[0],
            "minitrace",
        ) && is_word(&a.path[1], "trace"));
        if !trace {
            kept.push(a);
        }
        j = j + 1;
        proof {
            assert(rest@ =~= all.subrange(j as int, all.len() as int));
            assert(kept@ =~= kept_attrs(all.subrange(0, j as int)));
        }
    }
    assert(all.subrange(0, j as int) =~= all);
    kept
}

/// Whether the signature mentions `Self`.
pub fn has_self_in_sig(sig: &Signature) -> (r: bool)
    ensures
        r == self_in_sig(*sig),
{
    let mut visitor = HasSelf(false);
    visitor.visit_signature(sig);
    visitor.0
}

/// What `quote` makes of a traced item: an error for the legacy async-trait
/// shape; else the function with the `trace` attribute dropped, the
/// signature of an `async fn` turned future-returning, and the body wrapped
/// in its span (for the async-trait shape, the pinned `async move` block's
/// body, inside `Box::pin`).
pub open spec fn quoted(t: TracedItem, r: Result<Quote, Diagnostic>) -> bool {
    let f = t.item_fn;
    let info = async_trait_info(f.block, f.sig.asyncness);
    if info matches Some(AsyncTraitInfo { kind: AsyncTraitKind::Function(_), .. }) {
        r == Err::<Quote, Diagnostic>(Diagnostic::UnsupportedLegacyDesugaring)
    } else {
        &&& r is Ok
        &&& r->Ok_0.attrs@ == kept_attrs(f.attrs@)
        &&& r->Ok_0.vis == f.vis
        &&& r->Ok_0.constness == f.sig.constness
        &&& r->Ok_0.unsafety == f.sig.unsafety
        &&& r->Ok_0.abi == f.sig.abi
        &&& r->Ok_0.ident == f.sig.ident
        &&& if f.sig.asyncness {
            sig_lowered(
                f.sig,
                r->Ok_0.gen_params@,
                r->Ok_0.where_clause,
                r->Ok_0.params@,
                r->Ok_0.return_type,
                self_in_sig(f.sig),
                true,
            )
        } else {
            &&& r->Ok_0.gen_params == f.sig.generics.params
            &&& r->Ok_0.where_clause == f.sig.generics.where_clause
            &&& r->Ok_0.params == f.sig.inputs
            &&& r->Ok_0.return_type == f.sig.output
        }
        &&& match info {
            Some(i) => {
                let inner = f.block.stmts@[i.source_stmt as int]->Expr_0->args@[0];
                &&& r->Ok_0.func_body == Body::Pinned {
                    attrs: inner->attrs,
                    body: Box::new(span_body(inner->block, true, t.enter_on_poll, t.name)),
                }
                &&& r->Ok_0.error is None
            },
            None => {
                &&& r->Ok_0.func_body == span_body(
                    f.block,
                    f.sig.asyncness,
                    t.enter_on_poll,
                    t.name,
                )
                &&& r->Ok_0.error == span_diagnostic(f.sig.asyncness, t.enter_on_poll)
            },
        }
    }
}

/// Rewrites one traced function.
pub fn quote(traced_item: TracedItem) -> (r: Result<Quote, Diagnostic>)
    requires
        traced_item.item_fn.sig.asyncness ==> elided_in_inputs(traced_item.item_fn.sig.inputs@)
            <= usize::MAX,
    ensures
        quoted(traced_item, r),
{
    let ghost t = traced_item;
    let TracedItem { name, enter_on_poll, item_fn, .. } = traced_item;
    let ItemFn { attrs, vis, mut sig, mut block } = item_fn;
    let is_async = sig.asyncness;
    let info = get_async_trait_info(&block, is_async);
    let (func_body, error) = match info {
        Some(AsyncTraitInfo { kind: AsyncTraitKind::Function(_), .. }) => {
            return Err(Diagnostic::UnsupportedLegacyDesugaring);
        },
        Some(AsyncTraitInfo { source_stmt, .. }) => {
            let ghost inner = block.stmts@[source_stmt as int]->Expr_0->args@[0];
            let stmt = block.stmts.remove(source_stmt);
            let arg = match stmt {
                Stmt::Expr(Expr::Call { mut args, .. }) => args.remove(0),
                _ => {
                    proof {
                        assert(false);
                    }
                    return Err(Diagnostic::UnsupportedLegacyDesugaring);
                },
            };
            assert(arg == inner);
            match arg {
                Expr::Async { attrs: async_attrs, block: async_block, .. } => {
                    let (body, _) = gen_block(async_block, true, &name, enter_on_poll);
                    (Body::Pinned { attrs: async_attrs, body: Box::new(body) }, None)
                },
                _ => {
                    proof {
                        assert(false);
                    }
                    return Err(Diagnostic::UnsupportedLegacyDesugaring);
                },
            }
        },
        None => gen_block(block, is_async, &name, enter_on_poll),
    };
    if is_async {
        let has_self = has_self_in_sig(&sig);
        transform_sig(&mut sig, has_self, true);
    }
    let attrs = strip_trace_attrs(attrs);
    Ok(
        Quote {
            attrs,
            vis,
            constness: sig.constness,
            unsafety: sig.unsafety,
            abi: sig.abi,
            ident: sig.ident,
            gen_params: sig.generics.params,
            params: sig.inputs,
            return_type: sig.output,
            where_clause: sig.generics.where_clause,
            func_body,
            error,
        },
    )
}

/// A synchronous function that asks for `enter_on_poll` is still emitted,
/// with its guard, and with exactly one diagnostic.
pub proof fn lemma_enter_on_poll_on_sync(t: TracedItem, r: Result<Quote, Diagnostic>)
    requires
        quoted(t, r),
        !t.item_fn.sig.asyncness,
        t.enter_on_poll,
        async_trait_info(t.item_fn.block, false) is None,
    ensures
        r matches Ok(q) && q.error == Some(Diagnostic::EnterOnPollOnSync) && q.func_body is Guard,
{
}

/// `q` is what `m`'s function turns into.
pub open spec fn lowered_model(m: Model, q: Quotable) -> bool {
    m matches Model::Item(ti) && match q {
        Quotable::Item(x) => quoted(*ti, Ok(x)),
        Quotable::Error(d) => quoted(*ti, Err(d)),
    }
}

/// A model whose function `lower` can rewrite.
pub open spec fn lowerable(m: Model) -> bool {
    m matches Model::Item(ti) && (ti.item_fn.sig.asyncness ==> elided_in_inputs(
        ti.item_fn.sig.inputs@,
    ) <= usize::MAX)
}

/// Whether `lower` can take the model: it binds a function, and an `async`
/// one has no more elided lifetimes than `usize` counts.
pub fn can_lower(m: &Model) -> (r: bool)
    ensures
        r == lowerable(*m),
{
    match m {
        Model::Item(ti) => {
            if ti.item_fn.sig.asyncness {
                count_elided_inputs(&ti.item_fn.sig.inputs).is_some()
            } else {
                true
            }
        },
        Model::Attribute(_) => false,
    }
}

/// Rewrites every model, in order; a function that cannot be rewritten
/// gives its error in its place.
pub fn lower(models: Models<Model>) -> (r: Quotables<Quotable>)
    requires
        forall|k: int| 0 <= k < models@.len() ==> lowerable(#[trigger] models@[k]),
    ensures
        r@.len() == models@.len(),
        forall|k: int| 0 <= k < models@.len() ==> lowered_model(#[trigger] models@[k], r@[k]),
{
    let ghost all = models@;
    let mut rest = models.0;
    let total = rest.len();
    let mut quotes: Quotables<Quotable> = Quotables::new();
    let mut j: usize = 0;
    while rest.len() > 0
        invariant
            j <= all.len(),
            all.len() == total,
            rest@ == all.subrange(j as int, all.len() as int),
            quotes@.len() == j,
            forall|k: int| 0 <= k < all.len() ==> lowerable(#[trigger] all[k]),
            forall|k: int| 0 <= k < j ==> lowered_model(#[trigger] all[k], quotes@[k]),
        decreases rest@.len(),
    {
        let m = rest.remove(0);
        assert(m == all[j as int]);
        assert(lowerable(all[j as int]));
        let q = match m {
            Model::Item(ti) => match quote(*ti) {
                Ok(x) => Quotable::Item(x),
                Err(d) => Quotable::Error(d),
            },
            Model::Attribute(_) => {
                proof {
                    assert(false);
                }
                Quotable::Error(Diagnostic::UnsupportedLegacyDesugaring)
            },
        };
        quotes.push(q);
        j = j + 1;
        assert(rest@ =~= all.subrange(j as int, all.len() as int));
    }
    quotes
}

} // verus!
