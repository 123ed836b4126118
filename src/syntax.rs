//! The syntax of a function definition, as far as instrumenting it needs.
//!
//! Parts that the rewrite never looks into are kept as token trees, so that
//! they can be written back as they came.
use vstd::prelude::*;

verus! {

/// Delimiter of a group of tokens.
#[derive(Clone, Copy, Debug, PartialEq, Eq, Structural)]
pub enum Delimiter {
    Parenthesis,
    Brace,
    Bracket,
    Invisible,
}

/// One token tree of a source fragment, spans left out.
#[derive(Debug, PartialEq, Eq)]
pub enum TokenTree {
    Ident(String),
    /// A punctuation character, and whether it is joined to the next one.
    Punct(char, bool),
    Literal(String),
    Group(Delimiter, Vec<TokenTree>),
}

/// A lifetime: one written with a name, the anonymous `'_`, or one minted by
/// the rewrite (`'life0`, `'life1`, ...) for an elided position.
#[derive(Debug, PartialEq, Eq)]
pub enum Lifetime {
    Named(String),
    Anonymous,
    Minted(usize),
}

/// A path such as `std::boxed::Box::pin` or `Vec<&'a T>`.
#[derive(Debug, PartialEq, Eq)]
pub struct Path {
    /// Whether the path starts with `::`.
    pub global: bool,
    pub segments: Vec<PathSegment>,
}

#[derive(Debug, PartialEq, Eq)]
pub struct PathSegment {
    pub ident: String,
    /// The arguments in angle brackets, if any.
    pub args: Vec<GenericArg>,
}

#[derive(Debug, PartialEq, Eq)]
pub enum GenericArg {
    Lifetime(Lifetime),
    Type(Type),
    /// `Item = T`
    Binding { ident: String, ty: Type },
    /// A constant, a binding or a constraint, as written.
    Other(Vec<TokenTree>),
}

#[derive(Debug, PartialEq, Eq)]
pub enum Type {
    Path(Path),
    /// `<qself as Trait>::Rest`: `path` is `Trait::Rest`, whose first
    /// `position` segments name the trait.
    Qualified { qself: Box<Type>, path: Path, position: usize },
    /// `*const T`, or `*mut T` where `mutable` holds.
    Ptr { mutable: bool, elem: Box<Type> },
    /// `[T; len]`, the length as written.
    Array { elem: Box<Type>, len: Vec<TokenTree> },
    /// `(T)`
    Paren(Box<Type>),
    /// `impl A + B`: each bound a trait path (as a path type), a lifetime,
    /// or one kept as written (`?Sized`, a higher-ranked `for<'a> ..`).
    ImplTrait(Vec<GenericArg>),
    /// `dyn A + B`, or bounds written without `dyn`; bounds as above.
    TraitObject { dyn_kw: bool, bounds: Vec<GenericArg> },
    /// `&'a mut T`, where the lifetime may be left out.
    Reference { lifetime: Option<Lifetime>, mutable: bool, elem: Box<Type> },
    /// `(A, B)`; the unit type is the empty tuple.
    Tuple(Vec<Type>),
    /// `[T]`
    Slice(Box<Type>),
    /// A type written by a macro invocation, as written.
    Macro(Vec<TokenTree>),
    /// Any other type, as written: a function pointer (whose elided
    /// lifetimes belong to the pointer type, not to the function), `!`, `_`.
    Other(Vec<TokenTree>),
    /// `impl ::core::future::Future<Output = output> + 'minitrace`, with
    /// `::core::marker::Send` among the bounds where `send` holds.
    ImplFuture { output: Box<Type>, send: bool },
}

#[derive(Debug, PartialEq, Eq)]
pub enum Pat {
    /// `ref mut x @ sub`
    Ident { by_ref: bool, mutable: bool, ident: String, subpat: Option<Box<Pat>> },
    /// The parameter name `__arg<index>` that the rewrite gives to a
    /// destructuring pattern.
    Positional { index: usize, mutable: bool },
    /// Any other pattern, as written, with the patterns nested in it.
    Compound { tokens: Vec<TokenTree>, elems: Vec<Pat> },
}

#[derive(Clone, Debug, PartialEq, Eq)]
pub enum FnArg {
    /// `self`, `mut self`, `&self`, `&'a mut self`
    Receiver { by_ref: bool, lifetime: Option<Lifetime>, mutable: bool },
    Typed { pat: Pat, ty: Type },
}

#[derive(Clone, Debug, PartialEq, Eq)]
pub enum GenericParam {
    /// A type parameter; `rest` holds its bounds and default as written.
    Type { ident: String, rest: Vec<TokenTree> },
    /// A lifetime parameter; `rest` holds its bounds as written.
    Lifetime { lifetime: Lifetime, rest: Vec<TokenTree> },
    /// A const parameter, as written.
    Const(Vec<TokenTree>),
    /// The lifetime `'minitrace` that the returned future lives for.
    Tracer,
}

/// A marker trait that the rewrite may ask of `Self`.
#[derive(Clone, Copy, Debug, PartialEq, Eq, Structural)]
pub enum AutoTrait {
    Send,
    Sync,
}

/// What an outlives bound of the rewrite is put on.
#[derive(Clone, Debug, PartialEq, Eq)]
pub enum Bounded {
    Param(String),
    Lifetime(Lifetime),
    SelfType,
}

#[derive(Clone, Debug, PartialEq, Eq)]
pub enum WherePredicate {
    /// A predicate as written.
    Other(Vec<TokenTree>),
    /// `X: 'minitrace`, or `X: ::core::marker::M + 'minitrace` with a marker.
    Outlives { bounded: Bounded, marker: Option<AutoTrait> },
}

#[derive(Clone, Debug, PartialEq, Eq)]
pub struct Generics {
    pub params: Vec<GenericParam>,
    pub where_clause: Option<Vec<WherePredicate>>,
}

#[derive(Clone, Debug, PartialEq, Eq)]
pub enum ReturnType {
    /// No return type: the unit type.
    Default,
    Type(Type),
}

#[derive(Clone, Debug, PartialEq, Eq)]
pub struct Signature {
    pub constness: bool,
    pub asyncness: bool,
    pub unsafety: bool,
    /// `extern "C"`, as written.
    pub abi: Option<Vec<TokenTree>>,
    pub ident: String,
    pub generics: Generics,
    pub inputs: Vec<FnArg>,
    pub output: ReturnType,
}

/// An attribute `#[path tokens]`.
#[derive(Clone, Debug, PartialEq, Eq)]
pub struct Attribute {
    pub path: Vec<String>,
    pub tokens: Vec<TokenTree>,
}

#[derive(Debug, PartialEq, Eq)]
pub struct Block {
    pub stmts: Vec<Stmt>,
}

#[derive(Debug, PartialEq, Eq)]
pub enum Stmt {
    /// A nested function item.
    Item(ItemFn),
    /// An expression without a semicolon.
    Expr(Expr),
    /// An expression with a semicolon.
    Semi(Expr),
    /// Any other statement, as written, with the blocks written in it
    /// (those not inside another of them), where nested functions may stand.
    Other { tokens: Vec<TokenTree>, blocks: Vec<Block> },
}

#[derive(Debug, PartialEq, Eq)]
pub enum Expr {
    Call { func: Box<Expr>, args: Vec<Expr> },
    Path(Path),
    /// `async { .. }`, or `async move { .. }` where `capture` holds.
    Async { attrs: Vec<Attribute>, capture: bool, block: Block },
    Block(Block),
    /// Any other expression, as written, with the blocks written in it
    /// (those not inside another of them), where nested functions may stand.
    Other { tokens: Vec<TokenTree>, blocks: Vec<Block> },
}

/// A function definition.
#[derive(Debug, PartialEq, Eq)]
pub struct ItemFn {
    pub attrs: Vec<Attribute>,
    /// The visibility as written; empty where it is inherited.
    pub vis: Vec<TokenTree>,
    pub sig: Signature,
    pub block: Block,
}

// Equality up to the views of the vectors inside: what a copy keeps.

pub open spec fn same_tokens(a: Seq<TokenTree>, b: Seq<TokenTree>) -> bool
    decreases a, 1nat,
{
    a.len() == b.len() && forall|i: int| 0 <= i < a.len() ==> same_token(#[trigger] a[i], b[i])
}

pub open spec fn same_token(a: TokenTree, b: TokenTree) -> bool
    decreases a, 0nat,
{
    match a {
        TokenTree::Group(d, ts) => b matches TokenTree::Group(e, us) && d == e && same_tokens(
            ts@,
            us@,
        ),
        _ => b == a,
    }
}

pub open spec fn same_opt_tokens(a: Option<Vec<TokenTree>>, b: Option<Vec<TokenTree>>) -> bool {
    match a {
        None => b is None,
        Some(x) => b matches Some(y) && same_tokens(x@, y@),
    }
}

pub open spec fn same_path(a: Path, b: Path) -> bool
    decreases a, 4nat,
{
    a.global == b.global && same_segments(a.segments@, b.segments@)
}

pub open spec fn same_segments(a: Seq<PathSegment>, b: Seq<PathSegment>) -> bool
    decreases a, 3nat,
{
    a.len() == b.len() && forall|i: int|
        0 <= i < a.len() ==> same_segment(#[trigger] a[i], b[i])
}

pub open spec fn same_segment(a: PathSegment, b: PathSegment) -> bool
    decreases a, 2nat,
{
    a.ident == b.ident && same_args(a.args@, b.args@)
}

pub open spec fn same_args(a: Seq<GenericArg>, b: Seq<GenericArg>) -> bool
    decreases a, 1nat,
{
    a.len() == b.len() && forall|i: int| 0 <= i < a.len() ==> same_arg(#[trigger] a[i], b[i])
}

pub open spec fn same_arg(a: GenericArg, b: GenericArg) -> bool
    decreases a, 0nat,
{
    match a {
        GenericArg::Lifetime(_) => b == a,
        GenericArg::Type(t) => b matches GenericArg::Type(u) && same_type(t, u),
        GenericArg::Binding { ident, ty } => b matches GenericArg::Binding { ident: i2, ty: t2 }
            && i2 == ident && same_type(ty, t2),
        GenericArg::Other(ts) => b matches GenericArg::Other(us) && same_tokens(ts@, us@),
    }
}

pub open spec fn same_type(a: Type, b: Type) -> bool
    decreases a, 0nat,
{
    match a {
        Type::Path(p) => b matches Type::Path(q) && same_path(p, q),
        Type::Qualified { qself, path, position } => b matches Type::Qualified {
            qself: q2,
            path: p2,
            position: n2,
        } && n2 == position && same_type(*qself, *q2) && same_path(path, p2),
        Type::Ptr { mutable, elem } => b matches Type::Ptr { mutable: m2, elem: e2 } && m2
            == mutable && same_type(*elem, *e2),
        Type::Array { elem, len } => b matches Type::Array { elem: e2, len: l2 } && same_type(
            *elem,
            *e2,
        ) && same_tokens(len@, l2@),
        Type::Paren(e) => b matches Type::Paren(e2) && same_type(*e, *e2),
        Type::ImplTrait(bs) => b matches Type::ImplTrait(cs) && same_args(bs@, cs@),
        Type::TraitObject { dyn_kw, bounds } => b matches Type::TraitObject {
            dyn_kw: d2,
            bounds: c2,
        } && d2 == dyn_kw && same_args(bounds@, c2@),
        Type::Reference { lifetime, mutable, elem } => b matches Type::Reference {
            lifetime: l2,
            mutable: m2,
            elem: e2,
        } && l2 == lifetime && m2 == mutable && same_type(*elem, *e2),
        Type::Tuple(v) => b matches Type::Tuple(w) && same_types(v@, w@),
        Type::Slice(e) => b matches Type::Slice(e2) && same_type(*e, *e2),
        Type::Macro(ts) => b matches Type::Macro(us) && same_tokens(ts@, us@),
        Type::Other(ts) => b matches Type::Other(us) && same_tokens(ts@, us@),
        Type::ImplFuture { output, send } => b matches Type::ImplFuture { output: o2, send: s2 }
            && s2 == send && same_type(*output, *o2),
    }
}

pub open spec fn same_types(a: Seq<Type>, b: Seq<Type>) -> bool
    decreases a, 1nat,
{
    a.len() == b.len() && forall|i: int| 0 <= i < a.len() ==> same_type(#[trigger] a[i], b[i])
}

pub open spec fn same_pat(a: Pat, b: Pat) -> bool
    decreases a, 0nat,
{
    match a {
        Pat::Ident { by_ref, mutable, ident, subpat } => b matches Pat::Ident {
            by_ref: r2,
            mutable: m2,
            ident: i2,
            subpat: s2,
        } && r2 == by_ref && m2 == mutable && i2 == ident && match subpat {
            None => s2 is None,
            Some(sp) => s2 matches Some(sq) && same_pat(*sp, *sq),
        },
        Pat::Positional { .. } => b == a,
        Pat::Compound { tokens, elems } => b matches Pat::Compound { tokens: t2, elems: e2 }
            && same_tokens(tokens@, t2@) && same_pats(elems@, e2@),
    }
}

pub open spec fn same_pats(a: Seq<Pat>, b: Seq<Pat>) -> bool
    decreases a, 1nat,
{
    a.len() == b.len() && forall|i: int| 0 <= i < a.len() ==> same_pat(#[trigger] a[i], b[i])
}

pub open spec fn same_input(a: FnArg, b: FnArg) -> bool {
    match a {
        FnArg::Receiver { .. } => b == a,
        FnArg::Typed { pat, ty } => b matches FnArg::Typed { pat: p2, ty: t2 } && same_pat(pat, p2)
            && same_type(ty, t2),
    }
}

pub open spec fn same_param(a: GenericParam, b: GenericParam) -> bool {
    match a {
        GenericParam::Type { ident, rest } => b matches GenericParam::Type { ident: i2, rest: r2 }
            && i2 == ident && same_tokens(rest@, r2@),
        GenericParam::Lifetime { lifetime, rest } => b matches GenericParam::Lifetime {
            lifetime: l2,
            rest: r2,
        } && l2 == lifetime && same_tokens(rest@, r2@),
        GenericParam::Const(ts) => b matches GenericParam::Const(us) && same_tokens(ts@, us@),
        GenericParam::Tracer => b is Tracer,
    }
}

pub open spec fn same_pred(a: WherePredicate, b: WherePredicate) -> bool {
    match a {
        WherePredicate::Other(ts) => b matches WherePredicate::Other(us) && same_tokens(ts@, us@),
        WherePredicate::Outlives { .. } => b == a,
    }
}

pub open spec fn same_sig(a: Signature, b: Signature) -> bool {
    &&& a.constness == b.constness
    &&& a.asyncness == b.asyncness
    &&& a.unsafety == b.unsafety
    &&& same_opt_tokens(a.abi, b.abi)
    &&& a.ident == b.ident
    &&& a.generics.params@.len() == b.generics.params@.len()
    &&& forall|i: int|
        0 <= i < a.generics.params@.len() ==> same_param(
            #[trigger] a.generics.params@[i],
            b.generics.params@[i],
        )
    &&& match a.generics.where_clause {
        None => b.generics.where_clause is None,
        Some(w) => b.generics.where_clause matches Some(x) && w@.len() == x@.len() && forall|i: int|
            0 <= i < w@.len() ==> same_pred(#[trigger] w@[i], x@[i]),
    }
    &&& a.inputs@.len() == b.inputs@.len()
    &&& forall|i: int| 0 <= i < a.inputs@.len() ==> same_input(#[trigger] a.inputs@[i], b.inputs@[i])
    &&& match a.output {
        ReturnType::Default => b.output is Default,
        ReturnType::Type(t) => b.output matches ReturnType::Type(u) && same_type(t, u),
    }
}

pub open spec fn same_attr(a: Attribute, b: Attribute) -> bool {
    a.path@ == b.path@ && same_tokens(a.tokens@, b.tokens@)
}

pub open spec fn same_attrs(a: Seq<Attribute>, b: Seq<Attribute>) -> bool {
    a.len() == b.len() && forall|i: int| 0 <= i < a.len() ==> same_attr(#[trigger] a[i], b[i])
}

/// `b` is a copy of `a`: the same function, vector for vector.
pub open spec fn same_fn(a: ItemFn, b: ItemFn) -> bool
    decreases a, 4nat,
{
    &&& same_attrs(a.attrs@, b.attrs@)
    &&& same_tokens(a.vis@, b.vis@)
    &&& same_sig(a.sig, b.sig)
    &&& same_block(a.block, b.block)
}

pub open spec fn same_block(a: Block, b: Block) -> bool
    decreases a, 3nat,
{
    same_stmts(a.stmts@, b.stmts@)
}

pub open spec fn same_blocks(a: Seq<Block>, b: Seq<Block>) -> bool
    decreases a, 4nat,
{
    a.len() == b.len() && forall|i: int| 0 <= i < a.len() ==> same_block(#[trigger] a[i], b[i])
}

pub open spec fn same_stmts(a: Seq<Stmt>, b: Seq<Stmt>) -> bool
    decreases a, 2nat,
{
    a.len() == b.len() && forall|i: int| 0 <= i < a.len() ==> same_stmt(#[trigger] a[i], b[i])
}

pub open spec fn same_stmt(a: Stmt, b: Stmt) -> bool
    decreases a, 1nat,
{
    match a {
        Stmt::Item(f) => b matches Stmt::Item(g) && same_fn(f, g),
        Stmt::Expr(e) => b matches Stmt::Expr(x) && same_expr(e, x),
        Stmt::Semi(e) => b matches Stmt::Semi(x) && same_expr(e, x),
        Stmt::Other { tokens, blocks } => b matches Stmt::Other { tokens: t2, blocks: b2 }
            && same_tokens(tokens@, t2@) && same_blocks(blocks@, b2@),
    }
}

pub open spec fn same_expr(a: Expr, b: Expr) -> bool
    decreases a, 0nat,
{
    match a {
        Expr::Call { func, args } => b matches Expr::Call { func: f2, args: a2 } && same_expr(
            *func,
            *f2,
        ) && same_exprs(args@, a2@),
        Expr::Path(p) => b matches Expr::Path(q) && same_path(p, q),
        Expr::Async { attrs, capture, block } => b matches Expr::Async {
            attrs: at2,
            capture: c2,
            block: b2,
        } && same_attrs(attrs@, at2@) && c2 == capture && same_block(block, b2),
        Expr::Block(bl) => b matches Expr::Block(b2) && same_block(bl, b2),
        Expr::Other { tokens, blocks } => b matches Expr::Other { tokens: t2, blocks: b2 }
            && same_tokens(tokens@, t2@) && same_blocks(blocks@, b2@),
    }
}

pub open spec fn same_exprs(a: Seq<Expr>, b: Seq<Expr>) -> bool
    decreases a, 1nat,
{
    a.len() == b.len() && forall|i: int| 0 <= i < a.len() ==> same_expr(#[trigger] a[i], b[i])
}

/// Every token sequence is the same as itself.
pub proof fn lemma_same_tokens_refl(ts: Seq<TokenTree>)
    ensures
        same_tokens(ts, ts),
    decreases ts, 1nat,
{
    assert forall|i: int| 0 <= i < ts.len() implies same_token(#[trigger] ts[i], ts[i]) by {
        lemma_same_token_refl(ts[i]);
    }
}

proof fn lemma_same_token_refl(t: TokenTree)
    ensures
        same_token(t, t),
    decreases t, 0nat,
{
    if let TokenTree::Group(_, ts) = t {
        lemma_same_tokens_refl(ts@);
    }
}

/// Every pattern is the same as itself.
pub proof fn lemma_same_pat_refl(p: Pat)
    ensures
        same_pat(p, p),
    decreases p, 0nat,
{
    match p {
        Pat::Ident { subpat, .. } => {
            if let Some(sp) = subpat {
                lemma_same_pat_refl(*sp);
            }
        },
        Pat::Positional { .. } => {},
        Pat::Compound { tokens, elems } => {
            lemma_same_tokens_refl(tokens@);
            lemma_same_pats_refl(elems@);
        },
    }
}

proof fn lemma_same_pats_refl(ps: Seq<Pat>)
    ensures
        same_pats(ps, ps),
    decreases ps, 1nat,
{
    assert forall|i: int| 0 <= i < ps.len() implies same_pat(#[trigger] ps[i], ps[i]) by {
        lemma_same_pat_refl(ps[i]);
    }
}

// Copies. A derived `Clone` would reach the type again through `Vec`'s own
// `clone`, which Verus refuses as a possible cycle; these functions recurse
// by hand instead.

impl Clone for Lifetime {
    fn clone(&self) -> (r: Self)
        ensures
            r == *self,
    {
        match self {
            Lifetime::Named(s) => Lifetime::Named(s.clone()),
            Lifetime::Anonymous => Lifetime::Anonymous,
            Lifetime::Minted(n) => Lifetime::Minted(*n),
        }
    }
}

impl Clone for TokenTree {
    fn clone(&self) -> Self {
        copy_token(self)
    }
}

impl Clone for Path {
    fn clone(&self) -> Self {
        copy_path(self)
    }
}

impl Clone for PathSegment {
    fn clone(&self) -> Self {
        PathSegment { ident: self.ident.clone(), args: copy_args(&self.args) }
    }
}

impl Clone for GenericArg {
    fn clone(&self) -> Self {
        copy_arg(self)
    }
}

impl Clone for Type {
    fn clone(&self) -> Self {
        copy_type(self)
    }
}

impl Clone for Pat {
    fn clone(&self) -> Self {
        copy_pat(self)
    }
}

impl Clone for Block {
    fn clone(&self) -> Self {
        copy_block(self)
    }
}

impl Clone for Stmt {
    fn clone(&self) -> Self {
        copy_stmt(self)
    }
}

impl Clone for Expr {
    fn clone(&self) -> Self {
        copy_expr(self)
    }
}

impl Clone for ItemFn {
    fn clone(&self) -> Self {
        copy_item_fn(self)
    }
}

fn copy_token(t: &TokenTree) -> (r: TokenTree)
    ensures
        same_token(*t, r),
    decreases t, 0nat,
{
    match t {
        TokenTree::Ident(s) => TokenTree::Ident(s.clone()),
        TokenTree::Punct(c, j) => TokenTree::Punct(*c, *j),
        TokenTree::Literal(s) => TokenTree::Literal(s.clone()),
        TokenTree::Group(d, ts) => TokenTree::Group(*d, copy_tokens(ts)),
    }
}

/// A copy of a token sequence.
pub fn copy_tokens(v: &Vec<TokenTree>) -> (r: Vec<TokenTree>)
    ensures
        same_tokens(v@, r@),
    decreases v, 1nat,
{
    let mut r: Vec<TokenTree> = Vec::new();
    let mut i: usize = 0;
    while i < v.len()
        invariant
            i <= v@.len(),
            r@.len() == i,
            forall|j: int| 0 <= j < i ==> same_token(#[trigger] v@[j], r@[j]),
        decreases v@.len() - i,
    {
        proof {
            assert(decreases_to!(v => v@[i as int]));
        }
        r.push(copy_token(&v[i]));
        i = i + 1;
    }
    assert(same_tokens(v@, r@));
    r
}

fn copy_opt_tokens(t: &Option<Vec<TokenTree>>) -> (r: Option<Vec<TokenTree>>)
    ensures
        same_opt_tokens(*t, r),
{
    match t {
        Some(ts) => Some(copy_tokens(ts)),
        None => None,
    }
}

fn copy_path(p: &Path) -> (r: Path)
    ensures
        same_path(*p, r),
    decreases p, 4nat,
{
    Path { global: p.global, segments: copy_segments(&p.segments) }
}

fn copy_segments(v: &Vec<PathSegment>) -> (r: Vec<PathSegment>)
    ensures
        same_segments(v@, r@),
    decreases v, 3nat,
{
    let mut r: Vec<PathSegment> = Vec::new();
    let mut i: usize = 0;
    while i < v.len()
        invariant
            i <= v@.len(),
            r@.len() == i,
            forall|j: int| 0 <= j < i ==> same_segment(#[trigger] v@[j], r@[j]),
        decreases v@.len() - i,
    {
        proof {
            assert(decreases_to!(v => v@[i as int]));
        }
        r.push(copy_segment(&v[i]));
        i = i + 1;
    }
    assert(same_segments(v@, r@));
    r
}

fn copy_segment(s: &PathSegment) -> (r: PathSegment)
    ensures
        same_segment(*s, r),
    decreases s, 2nat,
{
    PathSegment { ident: s.ident.clone(), args: copy_args(&s.args) }
}

fn copy_args(v: &Vec<GenericArg>) -> (r: Vec<GenericArg>)
    ensures
        same_args(v@, r@),
    decreases v, 1nat,
{
    let mut r: Vec<GenericArg> = Vec::new();
    let mut i: usize = 0;
    while i < v.len()
        invariant
            i <= v@.len(),
            r@.len() == i,
            forall|j: int| 0 <= j < i ==> same_arg(#[trigger] v@[j], r@[j]),
        decreases v@.len() - i,
    {
        proof {
            assert(decreases_to!(v => v@[i as int]));
        }
        r.push(copy_arg(&v[i]));
        i = i + 1;
    }
    assert(same_args(v@, r@));
    r
}

fn copy_arg(a: &GenericArg) -> (r: GenericArg)
    ensures
        same_arg(*a, r),
    decreases a, 0nat,
{
    match a {
        GenericArg::Lifetime(l) => GenericArg::Lifetime(l.clone()),
        GenericArg::Type(t) => GenericArg::Type(copy_type(t)),
        GenericArg::Binding { ident, ty } => GenericArg::Binding {
            ident: ident.clone(),
            ty: copy_type(ty),
        },
        GenericArg::Other(ts) => GenericArg::Other(copy_tokens(ts)),
    }
}

fn copy_type(t: &Type) -> (r: Type)
    ensures
        same_type(*t, r),
    decreases t, 0nat,
{
    match t {
        Type::Path(p) => {
            let q = copy_path(p);
            Type::Path(q)
        },
        Type::Qualified { qself, path, position } => Type::Qualified {
            qself: Box::new(copy_type(qself)),
            path: copy_path(path),
            position: *position,
        },
        Type::Ptr { mutable, elem } => Type::Ptr { mutable: *mutable, elem: Box::new(copy_type(elem)) },
        Type::Array { elem, len } => Type::Array {
            elem: Box::new(copy_type(elem)),
            len: copy_tokens(len),
        },
        Type::Paren(e) => Type::Paren(Box::new(copy_type(e))),
        Type::ImplTrait(bs) => Type::ImplTrait(copy_args(bs)),
        Type::TraitObject { dyn_kw, bounds } => Type::TraitObject {
            dyn_kw: *dyn_kw,
            bounds: copy_args(bounds),
        },
        Type::Reference { lifetime, mutable, elem } => {
            let l = match lifetime {
                Some(l) => Some(l.clone()),
                None => None,
            };
            Type::Reference { lifetime: l, mutable: *mutable, elem: Box::new(copy_type(elem)) }
        },
        Type::Tuple(elems) => Type::Tuple(copy_types(elems)),
        Type::Slice(elem) => Type::Slice(Box::new(copy_type(elem))),
        Type::Macro(ts) => Type::Macro(copy_tokens(ts)),
        Type::Other(ts) => Type::Other(copy_tokens(ts)),
        Type::ImplFuture { output, send } => Type::ImplFuture {
            output: Box::new(copy_type(output)),
            send: *send,
        },
    }
}

fn copy_types(v: &Vec<Type>) -> (r: Vec<Type>)
    ensures
        same_types(v@, r@),
    decreases v, 1nat,
{
    let mut r: Vec<Type> = Vec::new();
    let mut i: usize = 0;
    while i < v.len()
        invariant
            i <= v@.len(),
            r@.len() == i,
            forall|j: int| 0 <= j < i ==> same_type(#[trigger] v@[j], r@[j]),
        decreases v@.len() - i,
    {
        proof {
            assert(decreases_to!(v => v@[i as int]));
        }
        r.push(copy_type(&v[i]));
        i = i + 1;
    }
    assert(same_types(v@, r@));
    r
}

fn copy_pat(p: &Pat) -> (r: Pat)
    ensures
        same_pat(*p, r),
    decreases p, 0nat,
{
    match p {
        Pat::Ident { by_ref, mutable, ident, subpat } => Pat::Ident {
            by_ref: *by_ref,
            mutable: *mutable,
            ident: ident.clone(),
            subpat: match subpat {
                Some(sp) => Some(Box::new(copy_pat(sp))),
                None => None,
            },
        },
        Pat::Positional { index, mutable } => Pat::Positional { index: *index, mutable: *mutable },
        Pat::Compound { tokens, elems } => Pat::Compound {
            tokens: copy_tokens(tokens),
            elems: copy_pats(elems),
        },
    }
}

fn copy_pats(v: &Vec<Pat>) -> (r: Vec<Pat>)
    ensures
        same_pats(v@, r@),
    decreases v, 1nat,
{
    let mut r: Vec<Pat> = Vec::new();
    let mut i: usize = 0;
    while i < v.len()
        invariant
            i <= v@.len(),
            r@.len() == i,
            forall|j: int| 0 <= j < i ==> same_pat(#[trigger] v@[j], r@[j]),
        decreases v@.len() - i,
    {
        proof {
            assert(decreases_to!(v => v@[i as int]));
        }
        r.push(copy_pat(&v[i]));
        i = i + 1;
    }
    assert(same_pats(v@, r@));
    r
}

fn copy_input(a: &FnArg) -> (r: FnArg)
    ensures
        same_input(*a, r),
{
    match a {
        FnArg::Receiver { by_ref, lifetime, mutable } => FnArg::Receiver {
            by_ref: *by_ref,
            lifetime: match lifetime {
                Some(l) => Some(l.clone()),
                None => None,
            },
            mutable: *mutable,
        },
        FnArg::Typed { pat, ty } => FnArg::Typed { pat: copy_pat(pat), ty: copy_type(ty) },
    }
}

fn copy_param(g: &GenericParam) -> (r: GenericParam)
    ensures
        same_param(*g, r),
{
    match g {
        GenericParam::Type { ident, rest } => GenericParam::Type {
            ident: ident.clone(),
            rest: copy_tokens(rest),
        },
        GenericParam::Lifetime { lifetime, rest } => GenericParam::Lifetime {
            lifetime: lifetime.clone(),
            rest: copy_tokens(rest),
        },
        GenericParam::Const(ts) => GenericParam::Const(copy_tokens(ts)),
        GenericParam::Tracer => GenericParam::Tracer,
    }
}

fn copy_pred(w: &WherePredicate) -> (r: WherePredicate)
    ensures
        same_pred(*w, r),
{
    match w {
        WherePredicate::Other(ts) => WherePredicate::Other(copy_tokens(ts)),
        WherePredicate::Outlives { bounded, marker } => {
            let b = match bounded {
                Bounded::Param(s) => Bounded::Param(s.clone()),
                Bounded::Lifetime(l) => Bounded::Lifetime(l.clone()),
                Bounded::SelfType => Bounded::SelfType,
            };
            WherePredicate::Outlives { bounded: b, marker: *marker }
        },
    }
}

fn copy_inputs(v: &Vec<FnArg>) -> (r: Vec<FnArg>)
    ensures
        r@.len() == v@.len(),
        forall|i: int| 0 <= i < v@.len() ==> same_input(#[trigger] v@[i], r@[i]),
    decreases v, 0nat,
{
    let mut r: Vec<FnArg> = Vec::new();
    let mut i: usize = 0;
    while i < v.len()
        invariant
            i <= v@.len(),
            r@.len() == i,
            forall|j: int| 0 <= j < i ==> same_input(#[trigger] v@[j], r@[j]),
        decreases v@.len() - i,
    {
        proof {
            assert(decreases_to!(v => v@[i as int]));
        }
        r.push(copy_input(&v[i]));
        i = i + 1;
    }
    r
}

fn copy_params(v: &Vec<GenericParam>) -> (r: Vec<GenericParam>)
    ensures
        r@.len() == v@.len(),
        forall|i: int| 0 <= i < v@.len() ==> same_param(#[trigger] v@[i], r@[i]),
    decreases v, 0nat,
{
    let mut r: Vec<GenericParam> = Vec::new();
    let mut i: usize = 0;
    while i < v.len()
        invariant
            i <= v@.len(),
            r@.len() == i,
            forall|j: int| 0 <= j < i ==> same_param(#[trigger] v@[j], r@[j]),
        decreases v@.len() - i,
    {
        proof {
            assert(decreases_to!(v => v@[i as int]));
        }
        r.push(copy_param(&v[i]));
        i = i + 1;
    }
    r
}

fn copy_preds(v: &Vec<WherePredicate>) -> (r: Vec<WherePredicate>)
    ensures
        r@.len() == v@.len(),
        forall|i: int| 0 <= i < v@.len() ==> same_pred(#[trigger] v@[i], r@[i]),
    decreases v, 0nat,
{
    let mut r: Vec<WherePredicate> = Vec::new();
    let mut i: usize = 0;
    while i < v.len()
        invariant
            i <= v@.len(),
            r@.len() == i,
            forall|j: int| 0 <= j < i ==> same_pred(#[trigger] v@[j], r@[j]),
        decreases v@.len() - i,
    {
        proof {
            assert(decreases_to!(v => v@[i as int]));
        }
        r.push(copy_pred(&v[i]));
        i = i + 1;
    }
    r
}

fn copy_sig(s: &Signature) -> (r: Signature)
    ensures
        same_sig(*s, r),
{
    Signature {
        constness: s.constness,
        asyncness: s.asyncness,
        unsafety: s.unsafety,
        abi: copy_opt_tokens(&s.abi),
        ident: s.ident.clone(),
        generics: Generics {
            params: copy_params(&s.generics.params),
            where_clause: match &s.generics.where_clause {
                Some(w) => Some(copy_preds(w)),
                None => None,
            },
        },
        inputs: copy_inputs(&s.inputs),
        output: match &s.output {
            ReturnType::Default => ReturnType::Default,
            ReturnType::Type(t) => ReturnType::Type(copy_type(t)),
        },
    }
}

fn copy_attr(a: &Attribute) -> (r: Attribute)
    ensures
        same_attr(*a, r),
{
    let path = a.path.clone();
    proof {
        assert(path@ =~= a.path@);
    }
    Attribute { path, tokens: copy_tokens(&a.tokens) }
}

fn copy_attrs(v: &Vec<Attribute>) -> (r: Vec<Attribute>)
    ensures
        same_attrs(v@, r@),
    decreases v, 0nat,
{
    let mut r: Vec<Attribute> = Vec::new();
    let mut i: usize = 0;
    while i < v.len()
        invariant
            i <= v@.len(),
            r@.len() == i,
            forall|j: int| 0 <= j < i ==> same_attr(#[trigger] v@[j], r@[j]),
        decreases v@.len() - i,
    {
        proof {
            assert(decreases_to!(v => v@[i as int]));
        }
        r.push(copy_attr(&v[i]));
        i = i + 1;
    }
    assert(same_attrs(v@, r@));
    r
}

fn copy_block(b: &Block) -> (r: Block)
    ensures
        same_block(*b, r),
    decreases b, 3nat,
{
    Block { stmts: copy_stmts(&b.stmts) }
}

fn copy_blocks(v: &Vec<Block>) -> (r: Vec<Block>)
    ensures
        same_blocks(v@, r@),
    decreases v, 4nat,
{
    let mut r: Vec<Block> = Vec::new();
    let mut i: usize = 0;
    while i < v.len()
        invariant
            i <= v@.len(),
            r@.len() == i,
            forall|j: int| 0 <= j < i ==> same_block(#[trigger] v@[j], r@[j]),
        decreases v@.len() - i,
    {
        proof {
            assert(decreases_to!(v => v@[i as int]));
        }
        r.push(copy_block(&v[i]));
        i = i + 1;
    }
    assert(same_blocks(v@, r@));
    r
}

fn copy_stmts(v: &Vec<Stmt>) -> (r: Vec<Stmt>)
    ensures
        same_stmts(v@, r@),
    decreases v, 2nat,
{
    let mut r: Vec<Stmt> = Vec::new();
    let mut i: usize = 0;
    while i < v.len()
        invariant
            i <= v@.len(),
            r@.len() == i,
            forall|j: int| 0 <= j < i ==> same_stmt(#[trigger] v@[j], r@[j]),
        decreases v@.len() - i,
    {
        proof {
            assert(decreases_to!(v => v@[i as int]));
        }
        r.push(copy_stmt(&v[i]));
        i = i + 1;
    }
    assert(same_stmts(v@, r@));
    r
}

fn copy_stmt(s: &Stmt) -> (r: Stmt)
    ensures
        same_stmt(*s, r),
    decreases s, 1nat,
{
    match s {
        Stmt::Item(f) => Stmt::Item(copy_item_fn(f)),
        Stmt::Expr(e) => Stmt::Expr(copy_expr(e)),
        Stmt::Semi(e) => Stmt::Semi(copy_expr(e)),
        Stmt::Other { tokens, blocks } => Stmt::Other {
            tokens: copy_tokens(tokens),
            blocks: copy_blocks(blocks),
        },
    }
}

fn copy_expr(e: &Expr) -> (r: Expr)
    ensures
        same_expr(*e, r),
    decreases e, 0nat,
{
    match e {
        Expr::Call { func, args } => Expr::Call {
            func: Box::new(copy_expr(func)),
            args: copy_exprs(args),
        },
        Expr::Path(p) => Expr::Path(copy_path(p)),
        Expr::Async { attrs, capture, block } => Expr::Async {
            attrs: copy_attrs(attrs),
            capture: *capture,
            block: copy_block(block),
        },
        Expr::Block(b) => Expr::Block(copy_block(b)),
        Expr::Other { tokens, blocks } => Expr::Other {
            tokens: copy_tokens(tokens),
            blocks: copy_blocks(blocks),
        },
    }
}

fn copy_exprs(v: &Vec<Expr>) -> (r: Vec<Expr>)
    ensures
        same_exprs(v@, r@),
    decreases v, 1nat,
{
    let mut r: Vec<Expr> = Vec::new();
    let mut i: usize = 0;
    while i < v.len()
        invariant
            i <= v@.len(),
            r@.len() == i,
            forall|j: int| 0 <= j < i ==> same_expr(#[trigger] v@[j], r@[j]),
        decreases v@.len() - i,
    {
        proof {
            assert(decreases_to!(v => v@[i as int]));
        }
        r.push(copy_expr(&v[i]));
        i = i + 1;
    }
    assert(same_exprs(v@, r@));
    r
}

/// A copy of a function definition.
pub fn copy_item_fn(f: &ItemFn) -> (r: ItemFn)
    ensures
        same_fn(*f, r),
    decreases f, 4nat,
{
    ItemFn {
        attrs: copy_attrs(&f.attrs),
        vis: copy_tokens(&f.vis),
        sig: copy_sig(&f.sig),
        block: copy_block(&f.block),
    }
}

} // verus!
