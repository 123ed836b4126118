//! Names every elided lifetime of a signature that becomes future-returning,
//! and records the lifetimes that are written out.
use vstd::prelude::*;
use crate::syntax::{
    FnArg, GenericArg, Lifetime, PathSegment, Type, lemma_same_pat_refl, lemma_same_tokens_refl,
    same_arg, same_args, same_input, same_path, same_segment, same_segments, same_type, same_types,
};

verus! {

// What one lifetime position contributes: an elided one is minted, a named
// one is recorded.

pub open spec fn lt_elided(l: Lifetime) -> nat {
    if l is Anonymous {
        1
    } else {
        0
    }
}

pub open spec fn lt_explicit(l: Lifetime) -> Seq<Lifetime> {
    if l is Anonymous {
        Seq::empty()
    } else {
        seq![l]
    }
}

pub open spec fn lt_resolved(l: Lifetime, k: nat) -> Lifetime {
    if l is Anonymous {
        Lifetime::Minted(k as usize)
    } else {
        l
    }
}

pub open spec fn opt_elided(l: Option<Lifetime>) -> nat {
    match l {
        None => 1,
        Some(l) => lt_elided(l),
    }
}

pub open spec fn opt_explicit(l: Option<Lifetime>) -> Seq<Lifetime> {
    match l {
        None => Seq::empty(),
        Some(l) => lt_explicit(l),
    }
}

pub open spec fn opt_resolved(l: Option<Lifetime>, k: nat) -> Option<Lifetime> {
    match l {
        None => Some(Lifetime::Minted(k as usize)),
        Some(l) => Some(lt_resolved(l, k)),
    }
}

// The number of elided lifetimes, in traversal order.

pub open spec fn elided_in_type(t: Type) -> nat
    decreases t, 0nat,
{
    match t {
        Type::Path(p) => elided_in_segs(p.segments@),
        Type::Qualified { qself, path, .. } => elided_in_type(*qself) + elided_in_segs(
            path.segments@,
        ),
        Type::Ptr { elem, .. } => elided_in_type(*elem),
        Type::Array { elem, .. } => elided_in_type(*elem),
        Type::Paren(elem) => elided_in_type(*elem),
        Type::ImplTrait(bs) => elided_in_args(bs@),
        Type::TraitObject { bounds, .. } => elided_in_args(bounds@),
        Type::Reference { lifetime, elem, .. } => opt_elided(lifetime) + elided_in_type(*elem),
        Type::Tuple(v) => elided_in_types(v@),
        Type::Slice(elem) => elided_in_type(*elem),
        Type::ImplFuture { output, .. } => elided_in_type(*output),
        _ => 0,
    }
}

pub open spec fn elided_in_types(s: Seq<Type>) -> nat
    decreases s, 1nat,
{
    if s.len() == 0 {
        0
    } else {
        elided_in_types(s.drop_last()) + elided_in_type(s.last())
    }
}

pub open spec fn elided_in_segs(s: Seq<PathSegment>) -> nat
    decreases s, 3nat,
{
    if s.len() == 0 {
        0
    } else {
        elided_in_segs(s.drop_last()) + elided_in_args(s.last().args@)
    }
}

pub open spec fn elided_in_args(s: Seq<GenericArg>) -> nat
    decreases s, 2nat,
{
    if s.len() == 0 {
        0
    } else {
        elided_in_args(s.drop_last()) + elided_in_arg(s.last())
    }
}

pub open spec fn elided_in_arg(a: GenericArg) -> nat
    decreases a, 1nat,
{
    match a {
        GenericArg::Lifetime(l) => lt_elided(l),
        GenericArg::Type(t) => elided_in_type(t),
        GenericArg::Binding { ty, .. } => elided_in_type(ty),
        GenericArg::Other(_) => 0,
    }
}

// The named lifetimes, in traversal order.

pub open spec fn explicit_in_type(t: Type) -> Seq<Lifetime>
    decreases t, 0nat,
{
    match t {
        Type::Path(p) => explicit_in_segs(p.segments@),
        Type::Qualified { qself, path, .. } => explicit_in_type(*qself) + explicit_in_segs(
            path.segments@,
        ),
        Type::Ptr { elem, .. } => explicit_in_type(*elem),
        Type::Array { elem, .. } => explicit_in_type(*elem),
        Type::Paren(elem) => explicit_in_type(*elem),
        Type::ImplTrait(bs) => explicit_in_args(bs@),
        Type::TraitObject { bounds, .. } => explicit_in_args(bounds@),
        Type::Reference { lifetime, elem, .. } => opt_explicit(lifetime) + explicit_in_type(*elem),
        Type::Tuple(v) => explicit_in_types(v@),
        Type::Slice(elem) => explicit_in_type(*elem),
        Type::ImplFuture { output, .. } => explicit_in_type(*output),
        _ => Seq::empty(),
    }
}

pub open spec fn explicit_in_types(s: Seq<Type>) -> Seq<Lifetime>
    decreases s, 1nat,
{
    if s.len() == 0 {
        Seq::empty()
    } else {
        explicit_in_types(s.drop_last()) + explicit_in_type(s.last())
    }
}

pub open spec fn explicit_in_segs(s: Seq<PathSegment>) -> Seq<Lifetime>
    decreases s, 3nat,
{
    if s.len() == 0 {
        Seq::empty()
    } else {
        explicit_in_segs(s.drop_last()) + explicit_in_args(s.last().args@)
    }
}

pub open spec fn explicit_in_args(s: Seq<GenericArg>) -> Seq<Lifetime>
    decreases s, 2nat,
{
    if s.len() == 0 {
        Seq::empty()
    } else {
        explicit_in_args(s.drop_last()) + explicit_in_arg(s.last())
    }
}

pub open spec fn explicit_in_arg(a: GenericArg) -> Seq<Lifetime>
    decreases a, 1nat,
{
    match a {
        GenericArg::Lifetime(l) => lt_explicit(l),
        GenericArg::Type(t) => explicit_in_type(t),
        GenericArg::Binding { ty, .. } => explicit_in_type(ty),
        GenericArg::Other(_) => Seq::empty(),
    }
}

// `b` is `a` with its elided lifetimes named, the first one `Minted(k)`.

pub open spec fn resolved_type(a: Type, b: Type, k: nat) -> bool
    decreases a, 0nat,
{
    match a {
        Type::Path(p) => b matches Type::Path(q) && p.global == q.global && resolved_segs(
            p.segments@,
            q.segments@,
            k,
        ),
        Type::Qualified { qself, path, position } => b matches Type::Qualified {
            qself: q2,
            path: p2,
            position: n2,
        } && n2 == position && path.global == p2.global && resolved_type(*qself, *q2, k)
            && resolved_segs(path.segments@, p2.segments@, k + elided_in_type(*qself)),
        Type::Ptr { mutable, elem } => b matches Type::Ptr { mutable: m2, elem: e2 } && m2
            == mutable && resolved_type(*elem, *e2, k),
        Type::Array { elem, len } => b matches Type::Array { elem: e2, len: l2 } && l2 == len
            && resolved_type(*elem, *e2, k),
        Type::Paren(elem) => b matches Type::Paren(e2) && resolved_type(*elem, *e2, k),
        Type::ImplTrait(bs) => b matches Type::ImplTrait(cs) && resolved_args(bs@, cs@, k),
        Type::TraitObject { dyn_kw, bounds } => b matches Type::TraitObject {
            dyn_kw: d2,
            bounds: c2,
        } && d2 == dyn_kw && resolved_args(bounds@, c2@, k),
        Type::Reference { lifetime, mutable, elem } => b matches Type::Reference {
            lifetime: l2,
            mutable: m2,
            elem: e2,
        } && l2 == opt_resolved(lifetime, k) && m2 == mutable && resolved_type(
            *elem,
            *e2,
            k + opt_elided(lifetime),
        ),
        Type::Tuple(v) => b matches Type::Tuple(w) && resolved_types(v@, w@, k),
        Type::Slice(elem) => b matches Type::Slice(e2) && resolved_type(*elem, *e2, k),
        Type::ImplFuture { output, send } => b matches Type::ImplFuture { output: o2, send: s2 }
            && s2 == send && resolved_type(*output, *o2, k),
        _ => b == a,
    }
}

pub open spec fn resolved_types(a: Seq<Type>, b: Seq<Type>, k: nat) -> bool
    decreases a, 1nat,
{
    &&& a.len() == b.len()
    &&& a.len() > 0 ==> {
        &&& resolved_types(a.drop_last(), b.drop_last(), k)
        &&& resolved_type(a.last(), b.last(), k + elided_in_types(a.drop_last()))
    }
}

pub open spec fn resolved_segs(a: Seq<PathSegment>, b: Seq<PathSegment>, k: nat) -> bool
    decreases a, 3nat,
{
    &&& a.len() == b.len()
    &&& a.len() > 0 ==> {
        &&& resolved_segs(a.drop_last(), b.drop_last(), k)
        &&& a.last().ident == b.last().ident
        &&& resolved_args(a.last().args@, b.last().args@, k + elided_in_segs(a.drop_last()))
    }
}

pub open spec fn resolved_args(a: Seq<GenericArg>, b: Seq<GenericArg>, k: nat) -> bool
    decreases a, 2nat,
{
    &&& a.len() == b.len()
    &&& a.len() > 0 ==> {
        &&& resolved_args(a.drop_last(), b.drop_last(), k)
        &&& resolved_arg(a.last(), b.last(), k + elided_in_args(a.drop_last()))
    }
}

pub open spec fn resolved_arg(a: GenericArg, b: GenericArg, k: nat) -> bool
    decreases a, 0nat,
{
    match a {
        GenericArg::Lifetime(l) => b == GenericArg::Lifetime(lt_resolved(l, k)),
        GenericArg::Type(t) => b matches GenericArg::Type(u) && resolved_type(t, u, k),
        GenericArg::Binding { ident, ty } => b matches GenericArg::Binding { ident: i2, ty: t2 }
            && i2 == ident && resolved_type(ty, t2, k),
        GenericArg::Other(_) => b == a,
    }
}

// The same for the parameters of a signature.

pub open spec fn elided_in_input(a: FnArg) -> nat {
    match a {
        FnArg::Receiver { by_ref, lifetime, .. } => if by_ref {
            opt_elided(lifetime)
        } else {
            0
        },
        FnArg::Typed { ty, .. } => elided_in_type(ty),
    }
}

pub open spec fn explicit_in_input(a: FnArg) -> Seq<Lifetime> {
    match a {
        FnArg::Receiver { by_ref, lifetime, .. } => if by_ref {
            opt_explicit(lifetime)
        } else {
            Seq::empty()
        },
        FnArg::Typed { ty, .. } => explicit_in_type(ty),
    }
}

pub open spec fn resolved_input(a: FnArg, b: FnArg, k: nat) -> bool {
    match a {
        FnArg::Receiver { by_ref, lifetime, mutable } => b == FnArg::Receiver {
            by_ref,
            lifetime: if by_ref {
                opt_resolved(lifetime, k)
            } else {
                lifetime
            },
            mutable,
        },
        FnArg::Typed { pat, ty } => b matches FnArg::Typed { pat: p2, ty: t2 } && p2 == pat
            && resolved_type(ty, t2, k),
    }
}

pub open spec fn elided_in_inputs(s: Seq<FnArg>) -> nat
    decreases s.len(),
{
    if s.len() == 0 {
        0
    } else {
        elided_in_inputs(s.drop_last()) + elided_in_input(s.last())
    }
}

pub open spec fn explicit_in_inputs(s: Seq<FnArg>) -> Seq<Lifetime>
    decreases s.len(),
{
    if s.len() == 0 {
        Seq::empty()
    } else {
        explicit_in_inputs(s.drop_last()) + explicit_in_input(s.last())
    }
}

pub open spec fn resolved_inputs(a: Seq<FnArg>, b: Seq<FnArg>, k: nat) -> bool
    decreases a.len(),
{
    &&& a.len() == b.len()
    &&& a.len() > 0 ==> {
        &&& resolved_inputs(a.drop_last(), b.drop_last(), k)
        &&& resolved_input(a.last(), b.last(), k + elided_in_inputs(a.drop_last()))
    }
}

/// The lifetimes met while walking a signature: those minted for elided
/// positions, in order, and those written out.
pub struct CollectLifetimes {
    pub elided: Vec<Lifetime>,
    pub explicit: Vec<Lifetime>,
}

impl CollectLifetimes {
    /// The minted lifetimes are numbered from zero, in order.
    pub open spec fn wf(&self) -> bool {
        forall|i: int|
            0 <= i < self.elided@.len() ==> #[trigger] self.elided@[i] == Lifetime::Minted(
                i as usize,
            )
    }

    /// The number of lifetimes minted so far.
    pub open spec fn minted(&self) -> nat {
        self.elided@.len()
    }

    pub fn new() -> (r: Self)
        ensures
            r.wf(),
            r.elided@.len() == 0,
            r.explicit@.len() == 0,
    {
        CollectLifetimes { elided: Vec::new(), explicit: Vec::new() }
    }

    /// Mints the next lifetime.
    pub fn next_lifetime(&mut self) -> (r: Lifetime)
        requires
            old(self).wf(),
            old(self).minted() < usize::MAX,
        ensures
            final(self).wf(),
            r == Lifetime::Minted(old(self).minted() as usize),
            final(self).elided@ == old(self).elided@.push(r),
            final(self).explicit@ == old(self).explicit@,
    {
        let life = Lifetime::Minted(self.elided.len());
        self.elided.push(Lifetime::Minted(self.elided.len()));
        life
    }

    /// Names `'_`, or records a named lifetime.
    pub fn visit_lifetime(&mut self, lifetime: &mut Lifetime)
        requires
            old(self).wf(),
            old(self).minted() + lt_elided(*old(lifetime)) <= usize::MAX,
        ensures
            final(self).wf(),
            *final(lifetime) == lt_resolved(*old(lifetime), old(self).minted()),
            final(self).minted() == old(self).minted() + lt_elided(*old(lifetime)),
            final(self).explicit@ == old(self).explicit@ + lt_explicit(*old(lifetime)),
    {
        if let Lifetime::Anonymous = lifetime {
            *lifetime = self.next_lifetime();
        } else {
            self.explicit.push(lifetime.clone());
            assert(self.explicit@ =~= old(self).explicit@ + lt_explicit(*old(lifetime)));
        }
    }

    /// Names a left-out or `'_` lifetime, or records a named one.
    pub fn visit_opt_lifetime(&mut self, lifetime: &mut Option<Lifetime>)
        requires
            old(self).wf(),
            old(self).minted() + opt_elided(*old(lifetime)) <= usize::MAX,
        ensures
            final(self).wf(),
            *final(lifetime) == opt_resolved(*old(lifetime), old(self).minted()),
            final(self).minted() == old(self).minted() + opt_elided(*old(lifetime)),
            final(self).explicit@ == old(self).explicit@ + opt_explicit(*old(lifetime)),
    {
        match lifetime {
            None => {
                *lifetime = Some(self.next_lifetime());
                assert(self.explicit@ =~= old(self).explicit@ + opt_explicit(*old(lifetime)));
            },
            Some(l) => self.visit_lifetime(l),
        }
    }

    /// Resolves the lifetimes of a type, nested ones included.
    pub fn visit_type(&mut self, ty: &mut Type)
        requires
            old(self).wf(),
            old(self).minted() + elided_in_type(*old(ty)) <= usize::MAX,
        ensures
            final(self).wf(),
            resolved_type(*old(ty), *final(ty), old(self).minted()),
            final(self).minted() == old(self).minted() + elided_in_type(*old(ty)),
            final(self).explicit@ == old(self).explicit@ + explicit_in_type(*old(ty)),
            elided_in_type(*old(ty)) == 0 ==> same_type(*old(ty), *final(ty)),
        decreases *old(ty), 1nat,
    {
        self.visit_type_parts(ty);
        proof {
            lemma_type_settled(*old(ty), *ty, old(self).minted());
        }
    }

    fn visit_type_parts(&mut self, ty: &mut Type)
        requires
            old(self).wf(),
            old(self).minted() + elided_in_type(*old(ty)) <= usize::MAX,
        ensures
            final(self).wf(),
            resolved_type(*old(ty), *final(ty), old(self).minted()),
            final(self).minted() == old(self).minted() + elided_in_type(*old(ty)),
            final(self).explicit@ == old(self).explicit@ + explicit_in_type(*old(ty)),
        decreases *old(ty), 0nat,
    {
        match ty {
            Type::Path(p) => self.visit_segments(&mut p.segments),
            Type::Qualified { qself, path, .. } => {
                self.visit_type(qself);
                self.visit_segments(&mut path.segments);
                assert(self.explicit@ =~= old(self).explicit@ + explicit_in_type(*old(ty)));
            },
            Type::Ptr { elem, .. } => self.visit_type(elem),
            Type::Array { elem, .. } => self.visit_type(elem),
            Type::Paren(elem) => self.visit_type(elem),
            Type::ImplTrait(bs) => self.visit_generic_arguments(bs),
            Type::TraitObject { bounds, .. } => self.visit_generic_arguments(bounds),
            Type::Reference { lifetime, elem, .. } => {
                self.visit_opt_lifetime(lifetime);
                self.visit_type(elem);
                assert(self.explicit@ =~= old(self).explicit@ + explicit_in_type(*old(ty)));
            },
            Type::Tuple(elems) => self.visit_types(elems),
            Type::Slice(elem) => self.visit_type(elem),
            Type::ImplFuture { output, .. } => self.visit_type(output),
            _ => {
                assert(self.explicit@ =~= old(self).explicit@ + explicit_in_type(*old(ty)));
            },
        }
    }

    fn visit_types(&mut self, v: &mut Vec<Type>)
        requires
            old(self).wf(),
            old(self).minted() + elided_in_types(old(v)@) <= usize::MAX,
        ensures
            final(self).wf(),
            resolved_types(old(v)@, final(v)@, old(self).minted()),
            final(self).minted() == old(self).minted() + elided_in_types(old(v)@),
            final(self).explicit@ == old(self).explicit@ + explicit_in_types(old(v)@),
        decreases *old(v), 1nat,
    {
        let ghost a = v@;
        let ghost k0 = self.minted();
        let ghost e0 = self.explicit@;
        let mut i: usize = 0;
        while i < v.len()
            invariant
                i <= v@.len(),
                v@.len() == a.len(),
                a == old(v)@,
                self.wf(),
                k0 + elided_in_types(a) <= usize::MAX,
                resolved_types(a.subrange(0, i as int), v@.subrange(0, i as int), k0),
                forall|j: int| i <= j < a.len() ==> #[trigger] v@[j] == a[j],
                self.minted() == k0 + elided_in_types(a.subrange(0, i as int)),
                self.explicit@ == e0 + explicit_in_types(a.subrange(0, i as int)),
            decreases a.len() - i,
        {
            let ghost before = v@;
            proof {
                lemma_elided_types_prefix(a, i as int + 1);
                assert(decreases_to!(*old(v) => v@[i as int]));
            }
            self.visit_type(&mut v[i]);
            proof {
                let pa = a.subrange(0, i as int + 1);
                let pv = v@.subrange(0, i as int + 1);
                assert(pa.drop_last() =~= a.subrange(0, i as int));
                assert(pv.drop_last() =~= v@.subrange(0, i as int));
                assert(v@.subrange(0, i as int) =~= before.subrange(0, i as int));
                assert(self.explicit@ =~= e0 + explicit_in_types(pa));
            }
            i = i + 1;
        }
        proof {
            assert(a.subrange(0, i as int) =~= a);
            assert(v@.subrange(0, i as int) =~= v@);
        }
    }

    fn visit_segments(&mut self, v: &mut Vec<PathSegment>)
        requires
            old(self).wf(),
            old(self).minted() + elided_in_segs(old(v)@) <= usize::MAX,
        ensures
            final(self).wf(),
            resolved_segs(old(v)@, final(v)@, old(self).minted()),
            final(self).minted() == old(self).minted() + elided_in_segs(old(v)@),
            final(self).explicit@ == old(self).explicit@ + explicit_in_segs(old(v)@),
        decreases *old(v), 3nat,
    {
        let ghost a = v@;
        let ghost k0 = self.minted();
        let ghost e0 = self.explicit@;
        let mut i: usize = 0;
        while i < v.len()
            invariant
                i <= v@.len(),
                v@.len() == a.len(),
                a == old(v)@,
                self.wf(),
                k0 + elided_in_segs(a) <= usize::MAX,
                resolved_segs(a.subrange(0, i as int), v@.subrange(0, i as int), k0),
                forall|j: int| i <= j < a.len() ==> #[trigger] v@[j] == a[j],
                self.minted() == k0 + elided_in_segs(a.subrange(0, i as int)),
                self.explicit@ == e0 + explicit_in_segs(a.subrange(0, i as int)),
            decreases a.len() - i,
        {
            let ghost before = v@;
            proof {
                lemma_elided_segs_prefix(a, i as int + 1);
                assert(decreases_to!(*old(v) => v@[i as int]));
                assert(decreases_to!(v@[i as int] => v@[i as int].args));
            }
            self.visit_generic_arguments(&mut v[i].args);
            proof {
                let pa = a.subrange(0, i as int + 1);
                let pv = v@.subrange(0, i as int + 1);
                assert(pa.drop_last() =~= a.subrange(0, i as int));
                assert(pv.drop_last() =~= v@.subrange(0, i as int));
                assert(v@.subrange(0, i as int) =~= before.subrange(0, i as int));
                assert(self.explicit@ =~= e0 + explicit_in_segs(pa));
            }
            i = i + 1;
        }
        proof {
            assert(a.subrange(0, i as int) =~= a);
            assert(v@.subrange(0, i as int) =~= v@);
        }
    }

    fn visit_generic_arguments(&mut self, v: &mut Vec<GenericArg>)
        requires
            old(self).wf(),
            old(self).minted() + elided_in_args(old(v)@) <= usize::MAX,
        ensures
            final(self).wf(),
            resolved_args(old(v)@, final(v)@, old(self).minted()),
            final(self).minted() == old(self).minted() + elided_in_args(old(v)@),
            final(self).explicit@ == old(self).explicit@ + explicit_in_args(old(v)@),
        decreases *old(v), 2nat,
    {
        let ghost a = v@;
        let ghost k0 = self.minted();
        let ghost e0 = self.explicit@;
        let mut i: usize = 0;
        while i < v.len()
            invariant
                i <= v@.len(),
                v@.len() == a.len(),
                a == old(v)@,
                self.wf(),
                k0 + elided_in_args(a) <= usize::MAX,
                resolved_args(a.subrange(0, i as int), v@.subrange(0, i as int), k0),
                forall|j: int| i <= j < a.len() ==> #[trigger] v@[j] == a[j],
                self.minted() == k0 + elided_in_args(a.subrange(0, i as int)),
                self.explicit@ == e0 + explicit_in_args(a.subrange(0, i as int)),
            decreases a.len() - i,
        {
            let ghost before = v@;
            proof {
                lemma_elided_args_prefix(a, i as int + 1);
                assert(decreases_to!(*old(v) => v@[i as int]));
            }
            self.visit_generic_argument(&mut v[i]);
            proof {
                let pa = a.subrange(0, i as int + 1);
                let pv = v@.subrange(0, i as int + 1);
                assert(pa.drop_last() =~= a.subrange(0, i as int));
                assert(pv.drop_last() =~= v@.subrange(0, i as int));
                assert(v@.subrange(0, i as int) =~= before.subrange(0, i as int));
                assert(self.explicit@ =~= e0 + explicit_in_args(pa));
            }
            i = i + 1;
        }
        proof {
            assert(a.subrange(0, i as int) =~= a);
            assert(v@.subrange(0, i as int) =~= v@);
        }
    }

    /// Resolves the lifetimes of one generic argument.
    pub fn visit_generic_argument(&mut self, arg: &mut GenericArg)
        requires
            old(self).wf(),
            old(self).minted() + elided_in_arg(*old(arg)) <= usize::MAX,
        ensures
            final(self).wf(),
            resolved_arg(*old(arg), *final(arg), old(self).minted()),
            final(self).minted() == old(self).minted() + elided_in_arg(*old(arg)),
            final(self).explicit@ == old(self).explicit@ + explicit_in_arg(*old(arg)),
        decreases *old(arg), 1nat,
    {
        match arg {
            GenericArg::Lifetime(l) => self.visit_lifetime(l),
            GenericArg::Type(t) => self.visit_type(t),
            GenericArg::Binding { ty, .. } => self.visit_type(ty),
            GenericArg::Other(_) => {},
        }
        assert(self.explicit@ =~= old(self).explicit@ + explicit_in_arg(*old(arg)));
    }

    /// Resolves the lifetimes of the parameters of a signature: the
    /// receiver's reference, and every reference in a parameter's type.
    pub fn visit_inputs(&mut self, v: &mut Vec<FnArg>)
        requires
            old(self).wf(),
            old(self).minted() + elided_in_inputs(old(v)@) <= usize::MAX,
        ensures
            final(self).wf(),
            resolved_inputs(old(v)@, final(v)@, old(self).minted()),
            final(self).minted() == old(self).minted() + elided_in_inputs(old(v)@),
            final(self).explicit@ == old(self).explicit@ + explicit_in_inputs(old(v)@),
            elided_in_inputs(old(v)@) == 0 ==> forall|i: int|
                0 <= i < old(v)@.len() ==> same_input(#[trigger] old(v)@[i], final(v)@[i]),
    {
        let ghost a = v@;
        let ghost k0 = self.minted();
        let ghost e0 = self.explicit@;
        let mut i: usize = 0;
        while i < v.len()
            invariant
                i <= v@.len(),
                v@.len() == a.len(),
                a == old(v)@,
                self.wf(),
                k0 + elided_in_inputs(a) <= usize::MAX,
                resolved_inputs(a.subrange(0, i as int), v@.subrange(0, i as int), k0),
                forall|j: int| i <= j < a.len() ==> #[trigger] v@[j] == a[j],
                self.minted() == k0 + elided_in_inputs(a.subrange(0, i as int)),
                self.explicit@ == e0 + explicit_in_inputs(a.subrange(0, i as int)),
            decreases a.len() - i,
        {
            let ghost before = v@;
            proof {
                lemma_elided_inputs_prefix(a, i as int + 1);
            }
            match &mut v[i] {
                FnArg::Receiver { by_ref, lifetime, .. } => {
                    if *by_ref {
                        self.visit_opt_lifetime(lifetime);
                    }
                },
                FnArg::Typed { ty, .. } => self.visit_type(ty),
            }
            proof {
                let pa = a.subrange(0, i as int + 1);
                let pv = v@.subrange(0, i as int + 1);
                assert(pa.drop_last() =~= a.subrange(0, i as int));
                assert(pv.drop_last() =~= v@.subrange(0, i as int));
                assert(v@.subrange(0, i as int) =~= before.subrange(0, i as int));
                assert(self.explicit@ =~= e0 + explicit_in_inputs(pa));
            }
            i = i + 1;
        }
        proof {
            assert(a.subrange(0, i as int) =~= a);
            assert(v@.subrange(0, i as int) =~= v@);
            lemma_inputs_settled(a, v@, k0);
        }
    }
}

proof fn lemma_elided_types_prefix(a: Seq<Type>, n: int)
    requires
        0 <= n <= a.len(),
    ensures
        elided_in_types(a.subrange(0, n)) <= elided_in_types(a),
        n > 0 ==> elided_in_types(a.subrange(0, n - 1)) + elided_in_type(a[n - 1])
            == elided_in_types(a.subrange(0, n)),
    decreases a.len() - n,
{
    if n > 0 {
        assert(a.subrange(0, n).drop_last() =~= a.subrange(0, n - 1));
    }
    if n < a.len() {
        lemma_elided_types_prefix(a, n + 1);
        assert(a.subrange(0, n + 1).drop_last() =~= a.subrange(0, n));
    } else {
        assert(a.subrange(0, n) =~= a);
    }
}

proof fn lemma_elided_segs_prefix(a: Seq<PathSegment>, n: int)
    requires
        0 <= n <= a.len(),
    ensures
        elided_in_segs(a.subrange(0, n)) <= elided_in_segs(a),
        n > 0 ==> elided_in_segs(a.subrange(0, n - 1)) + elided_in_args(a[n - 1].args@)
            == elided_in_segs(a.subrange(0, n)),
    decreases a.len() - n,
{
    if n > 0 {
        assert(a.subrange(0, n).drop_last() =~= a.subrange(0, n - 1));
    }
    if n < a.len() {
        lemma_elided_segs_prefix(a, n + 1);
        assert(a.subrange(0, n + 1).drop_last() =~= a.subrange(0, n));
    } else {
        assert(a.subrange(0, n) =~= a);
    }
}

proof fn lemma_elided_args_prefix(a: Seq<GenericArg>, n: int)
    requires
        0 <= n <= a.len(),
    ensures
        elided_in_args(a.subrange(0, n)) <= elided_in_args(a),
        n > 0 ==> elided_in_args(a.subrange(0, n - 1)) + elided_in_arg(a[n - 1])
            == elided_in_args(a.subrange(0, n)),
    decreases a.len() - n,
{
    if n > 0 {
        assert(a.subrange(0, n).drop_last() =~= a.subrange(0, n - 1));
    }
    if n < a.len() {
        lemma_elided_args_prefix(a, n + 1);
        assert(a.subrange(0, n + 1).drop_last() =~= a.subrange(0, n));
    } else {
        assert(a.subrange(0, n) =~= a);
    }
}

proof fn lemma_elided_inputs_prefix(a: Seq<FnArg>, n: int)
    requires
        0 <= n <= a.len(),
    ensures
        elided_in_inputs(a.subrange(0, n)) <= elided_in_inputs(a),
        n > 0 ==> elided_in_inputs(a.subrange(0, n - 1)) + elided_in_input(a[n - 1])
            == elided_in_inputs(a.subrange(0, n)),
    decreases a.len() - n,
{
    if n > 0 {
        assert(a.subrange(0, n).drop_last() =~= a.subrange(0, n - 1));
    }
    if n < a.len() {
        lemma_elided_inputs_prefix(a, n + 1);
        assert(a.subrange(0, n + 1).drop_last() =~= a.subrange(0, n));
    } else {
        assert(a.subrange(0, n) =~= a);
    }
}

proof fn lemma_type_settled(a: Type, b: Type, k: nat)
    requires
        resolved_type(a, b, k),
    ensures
        elided_in_type(b) == 0,
        elided_in_type(a) == 0 ==> explicit_in_type(b) == explicit_in_type(a),
        elided_in_type(a) == 0 ==> same_type(a, b),
    decreases a, 0nat,
{
    match a {
        Type::Path(p) => {
            let q = b->Path_0;
            lemma_segs_settled(p.segments@, q.segments@, k);
            if elided_in_type(a) == 0 {
                assert(same_path(p, q));
            }
        },
        Type::Qualified { qself, path, .. } => {
            lemma_type_settled(*qself, *b->qself, k);
            lemma_segs_settled(
                path.segments@,
                b->Qualified_path.segments@,
                k + elided_in_type(*qself),
            );
            if elided_in_type(a) == 0 {
                assert(same_path(path, b->Qualified_path));
            }
        },
        Type::Ptr { elem, .. } => {
            lemma_type_settled(*elem, *b->Ptr_elem, k);
        },
        Type::Array { elem, len } => {
            lemma_type_settled(*elem, *b->Array_elem, k);
            lemma_same_tokens_refl(len@);
        },
        Type::Paren(elem) => {
            lemma_type_settled(*elem, *b->Paren_0, k);
        },
        Type::ImplTrait(bs) => {
            lemma_args_settled(bs@, b->ImplTrait_0@, k);
        },
        Type::TraitObject { bounds, .. } => {
            lemma_args_settled(bounds@, b->bounds@, k);
        },
        Type::Reference { lifetime, elem, .. } => {
            let e2 = b->Reference_elem;
            lemma_type_settled(*elem, *e2, k + opt_elided(lifetime));
        },
        Type::Tuple(v) => {
            let w = b->Tuple_0;
            lemma_types_settled(v@, w@, k);
        },
        Type::Slice(elem) => {
            let e2 = b->Slice_0;
            lemma_type_settled(*elem, *e2, k);
        },
        Type::ImplFuture { output, .. } => {
            lemma_type_settled(*output, *b->ImplFuture_output, k);
        },
        Type::Macro(ts) => lemma_same_tokens_refl(ts@),
        Type::Other(ts) => lemma_same_tokens_refl(ts@),
    }
}

proof fn lemma_types_settled(a: Seq<Type>, b: Seq<Type>, k: nat)
    requires
        resolved_types(a, b, k),
    ensures
        elided_in_types(b) == 0,
        elided_in_types(a) == 0 ==> explicit_in_types(b) == explicit_in_types(a),
        elided_in_types(a) == 0 ==> same_types(a, b),
    decreases a, 1nat,
{
    if a.len() > 0 {
        lemma_types_settled(a.drop_last(), b.drop_last(), k);
        lemma_type_settled(a.last(), b.last(), k + elided_in_types(a.drop_last()));
        if elided_in_types(a) == 0 {
            assert forall|i: int| 0 <= i < a.len() implies same_type(#[trigger] a[i], b[i]) by {
                if i < a.len() - 1 {
                    assert(a.drop_last()[i] == a[i]);
                    assert(b.drop_last()[i] == b[i]);
                }
            }
        }
    }
}

proof fn lemma_segs_settled(a: Seq<PathSegment>, b: Seq<PathSegment>, k: nat)
    requires
        resolved_segs(a, b, k),
    ensures
        elided_in_segs(b) == 0,
        elided_in_segs(a) == 0 ==> explicit_in_segs(b) == explicit_in_segs(a),
        elided_in_segs(a) == 0 ==> same_segments(a, b),
    decreases a, 3nat,
{
    if a.len() > 0 {
        lemma_segs_settled(a.drop_last(), b.drop_last(), k);
        lemma_args_settled(a.last().args@, b.last().args@, k + elided_in_segs(a.drop_last()));
        if elided_in_segs(a) == 0 {
            assert forall|i: int| 0 <= i < a.len() implies same_segment(#[trigger] a[i], b[i]) by {
                if i < a.len() - 1 {
                    assert(a.drop_last()[i] == a[i]);
                    assert(b.drop_last()[i] == b[i]);
                }
            }
        }
    }
}

proof fn lemma_args_settled(a: Seq<GenericArg>, b: Seq<GenericArg>, k: nat)
    requires
        resolved_args(a, b, k),
    ensures
        elided_in_args(b) == 0,
        elided_in_args(a) == 0 ==> explicit_in_args(b) == explicit_in_args(a),
        elided_in_args(a) == 0 ==> same_args(a, b),
    decreases a, 2nat,
{
    if a.len() > 0 {
        lemma_args_settled(a.drop_last(), b.drop_last(), k);
        lemma_arg_settled(a.last(), b.last(), k + elided_in_args(a.drop_last()));
        if elided_in_args(a) == 0 {
            assert forall|i: int| 0 <= i < a.len() implies same_arg(#[trigger] a[i], b[i]) by {
                if i < a.len() - 1 {
                    assert(a.drop_last()[i] == a[i]);
                    assert(b.drop_last()[i] == b[i]);
                }
            }
        }
    }
}

proof fn lemma_arg_settled(a: GenericArg, b: GenericArg, k: nat)
    requires
        resolved_arg(a, b, k),
    ensures
        elided_in_arg(b) == 0,
        elided_in_arg(a) == 0 ==> explicit_in_arg(b) == explicit_in_arg(a),
        elided_in_arg(a) == 0 ==> same_arg(a, b),
    decreases a, 1nat,
{
    match a {
        GenericArg::Type(t) => lemma_type_settled(t, b->Type_0, k),
        GenericArg::Binding { ty, .. } => lemma_type_settled(ty, b->Binding_ty, k),
        GenericArg::Other(ts) => lemma_same_tokens_refl(ts@),
        GenericArg::Lifetime(_) => {},
    }
}

proof fn lemma_inputs_settled(a: Seq<FnArg>, b: Seq<FnArg>, k: nat)
    requires
        resolved_inputs(a, b, k),
    ensures
        elided_in_inputs(b) == 0,
        elided_in_inputs(a) == 0 ==> explicit_in_inputs(b) == explicit_in_inputs(a),
        elided_in_inputs(a) == 0 ==> forall|i: int|
            0 <= i < a.len() ==> same_input(#[trigger] a[i], b[i]),
    decreases a.len(),
{
    if a.len() > 0 {
        lemma_inputs_settled(a.drop_last(), b.drop_last(), k);
        if let FnArg::Typed { pat, ty } = a.last() {
            lemma_type_settled(ty, b.last()->ty, k + elided_in_inputs(a.drop_last()));
            lemma_same_pat_refl(pat);
        }
        if elided_in_inputs(a) == 0 {
            assert forall|i: int| 0 <= i < a.len() implies same_input(#[trigger] a[i], b[i]) by {
                if i < a.len() - 1 {
                    assert(a.drop_last()[i] == a[i]);
                    assert(b.drop_last()[i] == b[i]);
                }
            }
        }
    }
}

/// Resolving the lifetimes of a signature's parameters a second time
/// changes nothing: after one pass no elided lifetime is left, so a second
/// pass mints none, leaves every parameter as it was, and records the same
/// written lifetimes again.
pub proof fn lemma_resolution_idempotent(
    a: Seq<FnArg>,
    b: Seq<FnArg>,
    c: Seq<FnArg>,
    k: nat,
    j: nat,
)
    requires
        resolved_inputs(a, b, k),
        resolved_inputs(b, c, j),
    ensures
        elided_in_inputs(b) == 0,
        elided_in_inputs(c) == 0,
        explicit_in_inputs(c) == explicit_in_inputs(b),
        b.len() == c.len(),
        forall|i: int| 0 <= i < b.len() ==> same_input(#[trigger] b[i], c[i]),
{
    lemma_inputs_settled(a, b, k);
    lemma_inputs_settled(b, c, j);
}

/// `r` is the count `n`, or nothing where `n` does not fit in `usize`.
pub open spec fn counts(r: Option<usize>, n: nat) -> bool {
    match r {
        Some(m) => m == n,
        None => n > usize::MAX,
    }
}

fn add_counts(a: Option<usize>, b: Option<usize>, Ghost(x): Ghost<nat>, Ghost(y): Ghost<nat>) -> (r:
    Option<usize>)
    requires
        counts(a, x),
        counts(b, y),
    ensures
        counts(r, x + y),
{
    match (a, b) {
        (Some(m), Some(n)) => {
            if m > usize::MAX - n {
                None
            } else {
                Some(m + n)
            }
        },
        _ => None,
    }
}

fn count_lifetime(l: &Option<Lifetime>) -> (r: usize)
    ensures
        r == opt_elided(*l),
{
    match l {
        None => 1,
        Some(Lifetime::Anonymous) => 1,
        Some(_) => 0,
    }
}

fn count_type(t: &Type) -> (r: Option<usize>)
    ensures
        counts(r, elided_in_type(*t)),
    decreases t, 0nat,
{
    match t {
        Type::Path(p) => count_segments(&p.segments),
        Type::Qualified { qself, path, .. } => add_counts(
            count_type(qself),
            count_segments(&path.segments),
            Ghost(elided_in_type(**qself)),
            Ghost(elided_in_segs(path.segments@)),
        ),
        Type::Ptr { elem, .. } => count_type(elem),
        Type::Array { elem, .. } => count_type(elem),
        Type::Paren(elem) => count_type(elem),
        Type::ImplTrait(bs) => count_args(bs),
        Type::TraitObject { bounds, .. } => count_args(bounds),
        Type::Reference { lifetime, elem, .. } => add_counts(
            Some(count_lifetime(lifetime)),
            count_type(elem),
            Ghost(opt_elided(*lifetime)),
            Ghost(elided_in_type(**elem)),
        ),
        Type::Tuple(v) => count_types(v),
        Type::Slice(elem) => count_type(elem),
        Type::ImplFuture { output, .. } => count_type(output),
        Type::Macro(_) => Some(0),
        Type::Other(_) => Some(0),
    }
}

fn count_arg(a: &GenericArg) -> (r: Option<usize>)
    ensures
        counts(r, elided_in_arg(*a)),
    decreases a, 1nat,
{
    match a {
        GenericArg::Lifetime(Lifetime::Anonymous) => Some(1),
        GenericArg::Lifetime(_) => Some(0),
        GenericArg::Type(t) => count_type(t),
        GenericArg::Binding { ty, .. } => count_type(ty),
        GenericArg::Other(_) => Some(0),
    }
}

fn count_segment(s: &PathSegment) -> (r: Option<usize>)
    ensures
        counts(r, elided_in_args(s.args@)),
    decreases s, 0nat,
{
    count_args(&s.args)
}

fn count_input(a: &FnArg) -> (r: Option<usize>)
    ensures
        counts(r, elided_in_input(*a)),
{
    match a {
        FnArg::Receiver { by_ref, lifetime, .. } => if *by_ref {
            Some(count_lifetime(lifetime))
        } else {
            Some(0)
        },
        FnArg::Typed { ty, .. } => count_type(ty),
    }
}

fn count_types(v: &Vec<Type>) -> (r: Option<usize>)
    ensures
        counts(r, elided_in_types(v@)),
    decreases v, 1nat,
{
    let mut acc: usize = 0;
    let mut i: usize = 0;
    while i < v.len()
        invariant
            i <= v@.len(),
            acc == elided_in_types(v@.subrange(0, i as int)),
        decreases v@.len() - i,
    {
        proof {
            lemma_elided_types_prefix(v@, i as int + 1);
            assert(decreases_to!(v => v@[i as int]));
        }
        match add_counts(
            Some(acc),
            count_type(&v[i]),
            Ghost(elided_in_types(v@.subrange(0, i as int))),
            Ghost(elided_in_type(v@[i as int])),
        ) {
            Some(n) => {
                acc = n;
            },
            None => {
                return None;
            },
        }
        i = i + 1;
    }
    proof {
        assert(v@.subrange(0, i as int) =~= v@);
    }
    Some(acc)
}

fn count_segments(v: &Vec<PathSegment>) -> (r: Option<usize>)
    ensures
        counts(r, elided_in_segs(v@)),
    decreases v, 3nat,
{
    let mut acc: usize = 0;
    let mut i: usize = 0;
    while i < v.len()
        invariant
            i <= v@.len(),
            acc == elided_in_segs(v@.subrange(0, i as int)),
        decreases v@.len() - i,
    {
        proof {
            lemma_elided_segs_prefix(v@, i as int + 1);
            assert(decreases_to!(v => v@[i as int]));
        }
        match add_counts(
            Some(acc),
            count_segment(&v[i]),
            Ghost(elided_in_segs(v@.subrange(0, i as int))),
            Ghost(elided_in_args(v@[i as int].args@)),
        ) {
            Some(n) => {
                acc = n;
            },
            None => {
                return None;
            },
        }
        i = i + 1;
    }
    proof {
        assert(v@.subrange(0, i as int) =~= v@);
    }
    Some(acc)
}

fn count_args(v: &Vec<GenericArg>) -> (r: Option<usize>)
    ensures
        counts(r, elided_in_args(v@)),
    decreases v, 2nat,
{
    let mut acc: usize = 0;
    let mut i: usize = 0;
    while i < v.len()
        invariant
            i <= v@.len(),
            acc == elided_in_args(v@.subrange(0, i as int)),
        decreases v@.len() - i,
    {
        proof {
            lemma_elided_args_prefix(v@, i as int + 1);
            assert(decreases_to!(v => v@[i as int]));
        }
        match add_counts(
            Some(acc),
            count_arg(&v[i]),
            Ghost(elided_in_args(v@.subrange(0, i as int))),
            Ghost(elided_in_arg(v@[i as int])),
        ) {
            Some(n) => {
                acc = n;
            },
            None => {
                return None;
            },
        }
        i = i + 1;
    }
    proof {
        assert(v@.subrange(0, i as int) =~= v@);
    }
    Some(acc)
}

/// The number of elided lifetimes in the parameters, or nothing where it
/// does not fit in `usize`.
pub fn count_elided_inputs(v: &Vec<FnArg>) -> (r: Option<usize>)
    ensures
        counts(r, elided_in_inputs(v@)),
{
    let mut acc: usize = 0;
    let mut i: usize = 0;
    while i < v.len()
        invariant
            i <= v@.len(),
            acc == elided_in_inputs(v@.subrange(0, i as int)),
        decreases v@.len() - i,
    {
        proof {
            lemma_elided_inputs_prefix(v@, i as int + 1);
            assert(decreases_to!(v => v@[i as int]));
        }
        match add_counts(
            Some(acc),
            count_input(&v[i]),
            Ghost(elided_in_inputs(v@.subrange(0, i as int))),
            Ghost(elided_in_input(v@[i as int])),
        ) {
            Some(n) => {
                acc = n;
            },
            None => {
                return None;
            },
        }
        i = i + 1;
    }
    proof {
        assert(v@.subrange(0, i as int) =~= v@);
    }
    Some(acc)
}

} // verus!
