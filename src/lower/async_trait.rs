//! Finds the real body of a method that the async-trait convention turned
//! into a synchronous wrapper around `Box::pin`.
use vstd::prelude::*;
use crate::syntax::{Block, Expr, Path, PathSegment, Stmt};
use crate::text::{ends_with, str_ends_with};

verus! {

/// The shape of the wrapper that was found.
#[derive(Clone, Copy, Debug, PartialEq, Eq, Structural)]
pub enum AsyncTraitKind {
    /// The legacy form: the index of the statement that declares the
    /// nested `async fn` whose call is pinned.
    Function(usize),
    /// The current form: an `async move` block is pinned.
    Async,
}

/// Where the wrapper's real body stands.
#[derive(Clone, Copy, Debug, PartialEq, Eq, Structural)]
pub struct AsyncTraitInfo {
    /// The index of the statement that holds the pinned future.
    pub source_stmt: usize,
    pub kind: AsyncTraitKind,
}

/// The path's segments, joined by `::`.
pub open spec fn path_text(segs: Seq<PathSegment>) -> Seq<char>
    decreases segs.len(),
{
    if segs.len() == 0 {
        Seq::empty()
    } else if segs.len() == 1 {
        segs[0].ident@
    } else {
        path_text(segs.drop_last()) + "::"@ + segs.last().ident@
    }
}

/// The path as text, its segments joined by `::`.
pub fn path_to_string(path: &Path) -> (r: String)
    ensures
        r@ == path_text(path.segments@),
{
    let mut res = String::new();
    let mut i: usize = 0;
    while i < path.segments.len()
        invariant
            i <= path.segments@.len(),
            res@ == path_text(path.segments@.subrange(0, i as int)),
        decreases path.segments@.len() - i,
    {
        let ghost pre = path.segments@.subrange(0, i as int + 1);
        proof {
            assert(pre.drop_last() =~= path.segments@.subrange(0, i as int));
        }
        if i > 0 {
            res = res.concat("::");
        }
        res = res.concat(path.segments[i].ident.as_str());
        i = i + 1;
        proof {
            if i == 1 {
                assert(res@ =~= pre[0].ident@);
            }
        }
    }
    assert(path.segments@.subrange(0, i as int) =~= path.segments@);
    res
}

/// The index of the last expression statement without a semicolon among
/// the first `n` statements.
pub open spec fn last_expr(stmts: Seq<Stmt>, n: int) -> Option<int>
    decreases n,
{
    if n <= 0 {
        None
    } else if stmts[n - 1] is Expr {
        Some(n - 1)
    } else {
        last_expr(stmts, n - 1)
    }
}

/// Statement `s` declares an `async fn` named `name`.
pub open spec fn declares_async_fn(s: Stmt, name: Seq<char>) -> bool {
    s matches Stmt::Item(f) && f.sig.asyncness && f.sig.ident@ == name
}

/// The index of the first of the first `n` statements that declares an
/// `async fn` named `name`.
pub open spec fn first_async_fn(stmts: Seq<Stmt>, name: Seq<char>, n: int) -> Option<int>
    decreases n,
{
    if n <= 0 {
        None
    } else {
        match first_async_fn(stmts, name, n - 1) {
            Some(m) => Some(m),
            None => if declares_async_fn(stmts[n - 1], name) {
                Some(n - 1)
            } else {
                None
            },
        }
    }
}

/// `e` calls a function whose path ends with `Box::pin`, with at least one
/// argument.
pub open spec fn is_pin_call(e: Expr) -> bool {
    e matches Expr::Call { func, args } && (*func matches Expr::Path(p) && ends_with(
        path_text(p.segments@),
        "Box::pin"@,
    )) && args@.len() > 0
}

/// The statement is a trailing call of `Box::pin` on an `async` block.
pub open spec fn pins_async_block(s: Stmt) -> bool {
    s matches Stmt::Expr(e) && is_pin_call(e) && e->args@[0] is Async
}

/// What the detector finds in a body: nothing in an `async` function; else
/// in the trailing expression, a call of `Box::pin` whose first argument is
/// an `async move` block, or a call of an `async fn` declared in the body.
pub open spec fn async_trait_info(block: Block, block_is_async: bool) -> Option<AsyncTraitInfo> {
    let stmts = block.stmts@;
    if block_is_async {
        None
    } else {
        match last_expr(stmts, stmts.len() as int) {
            None => None,
            Some(j) => {
                let e = stmts[j]->Expr_0;
                if !is_pin_call(e) {
                    None
                } else {
                    match e->args@[0] {
                        Expr::Async { capture, .. } => if capture {
                            Some(AsyncTraitInfo { source_stmt: j as usize, kind: AsyncTraitKind::Async })
                        } else {
                            None
                        },
                        Expr::Call { func, .. } => match *func {
                            Expr::Path(p) => match first_async_fn(
                                stmts,
                                path_text(p.segments@),
                                stmts.len() as int,
                            ) {
                                Some(m) => Some(
                                    AsyncTraitInfo {
                                        source_stmt: m as usize,
                                        kind: AsyncTraitKind::Function(m as usize),
                                    },
                                ),
                                None => None,
                            },
                            _ => None,
                        },
                        _ => None,
                    }
                }
            },
        }
    }
}

proof fn lemma_last_expr_bounds(stmts: Seq<Stmt>, n: int)
    ensures
        last_expr(stmts, n) matches Some(j) ==> 0 <= j < n && stmts[j] is Expr,
    decreases n,
{
    if n > 0 {
        lemma_last_expr_bounds(stmts, n - 1);
    }
}

proof fn lemma_first_async_fn_bounds(stmts: Seq<Stmt>, name: Seq<char>, n: int)
    ensures
        first_async_fn(stmts, name, n) matches Some(m) ==> 0 <= m < n,
    decreases n,
{
    if n > 0 {
        lemma_first_async_fn_bounds(stmts, name, n - 1);
    }
}

/// A synchronous body whose trailing expression pins an `async move` block
/// is the async-trait wrapper; the same with a plain `async` block is not.
pub proof fn lemma_detects_async_move(block: Block, j: int)
    requires
        last_expr(block.stmts@, block.stmts@.len() as int) == Some(j),
        pins_async_block(block.stmts@[j]),
    ensures
        block.stmts@[j]->Expr_0->args@[0]->capture ==> async_trait_info(block, false) == Some(
            AsyncTraitInfo { source_stmt: j as usize, kind: AsyncTraitKind::Async },
        ),
        !block.stmts@[j]->Expr_0->args@[0]->capture ==> async_trait_info(block, false) is None,
        async_trait_info(block, true) is None,
{
}

fn find_last_expr(stmts: &Vec<Stmt>) -> (r: Option<usize>)
    ensures
        match r {
            Some(j) => last_expr(stmts@, stmts@.len() as int) == Some(j as int),
            None => last_expr(stmts@, stmts@.len() as int) is None,
        },
        r matches Some(j) ==> j < stmts@.len() && stmts@[j as int] is Expr,
{
    let mut n = stmts.len();
    while n > 0
        invariant
            n <= stmts@.len(),
            last_expr(stmts@, stmts@.len() as int) == last_expr(stmts@, n as int),
        decreases n,
    {
        if let Stmt::Expr(_) = &stmts[n - 1] {
            return Some(n - 1);
        }
        n = n - 1;
    }
    None
}

fn find_async_fn(stmts: &Vec<Stmt>, name: &String) -> (r: Option<usize>)
    ensures
        match r {
            Some(m) => first_async_fn(stmts@, name@, stmts@.len() as int) == Some(m as int),
            None => first_async_fn(stmts@, name@, stmts@.len() as int) is None,
        },
        r matches Some(m) ==> m < stmts@.len(),
{
    let mut i: usize = 0;
    while i < stmts.len()
        invariant
            i <= stmts@.len(),
            first_async_fn(stmts@, name@, i as int) is None,
        decreases stmts@.len() - i,
    {
        if let Stmt::Item(f) = &stmts[i] {
            if f.sig.asyncness && f.sig.ident == *name {
                proof {
                    lemma_first_async_fn_stays(stmts@, name@, i + 1, stmts@.len() as int);
                }
                return Some(i);
            }
        }
        i = i + 1;
    }
    None
}

proof fn lemma_first_async_fn_stays(stmts: Seq<Stmt>, name: Seq<char>, m: int, n: int)
    requires
        first_async_fn(stmts, name, m) is Some,
        m <= n,
    ensures
        first_async_fn(stmts, name, n) == first_async_fn(stmts, name, m),
    decreases n - m,
{
    if m < n {
        lemma_first_async_fn_stays(stmts, name, m, n - 1);
    }
}

/// Looks for the async-trait pattern in a function body: a synchronous body
/// whose trailing expression pins the future that does the real work.
pub fn get_async_trait_info(block: &Block, block_is_async: bool) -> (r: Option<AsyncTraitInfo>)
    ensures
        r == async_trait_info(*block, block_is_async),
        r matches Some(i) ==> i.source_stmt < block.stmts@.len() && (i.kind is Async
            ==> pins_async_block(block.stmts@[i.source_stmt as int])),
{
    if block_is_async {
        return None;
    }
    proof {
        lemma_last_expr_bounds(block.stmts@, block.stmts@.len() as int);
    }
    let j = match find_last_expr(&block.stmts) {
        Some(j) => j,
        None => {
            return None;
        },
    };
    let (func, args) = match &block.stmts[j] {
        Stmt::Expr(Expr::Call { func, args }) => (func, args),
        _ => {
            return None;
        },
    };
    let path = match &**func {
        Expr::Path(path) => path,
        _ => {
            return None;
        },
    };
    let text = path_to_string(path);
    if !str_ends_with(text.as_str(), "Box::pin") {
        return None;
    }
    if args.len() == 0 {
        return None;
    }
    match &args[0] {
        Expr::Async { capture, .. } => {
            if *capture {
                Some(AsyncTraitInfo { source_stmt: j, kind: AsyncTraitKind::Async })
            } else {
                None
            }
        },
        Expr::Call { func, .. } => match &**func {
            Expr::Path(func_path) => {
                let name = path_to_string(func_path);
                proof {
                    lemma_first_async_fn_bounds(block.stmts@, name@, block.stmts@.len() as int);
                }
                match find_async_fn(&block.stmts, &name) {
                    Some(m) => Some(AsyncTraitInfo { source_stmt: m, kind: AsyncTraitKind::Function(m) }),
                    None => None,
                }
            },
            _ => None,
        },
        _ => None,
    }
}

} // verus!
