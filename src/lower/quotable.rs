//! The functions that the rewrite emits.
use vstd::prelude::*;
use crate::lower::block::{Body, Diagnostic};
use crate::syntax::{Attribute, FnArg, GenericParam, ReturnType, TokenTree, WherePredicate};

verus! {

/// An ordered sequence of emitted items.
#[derive(Clone, Debug)]
pub struct Quotables<T>(pub Vec<T>);

impl<T> View for Quotables<T> {
    type V = Seq<T>;

    open spec fn view(&self) -> Seq<T> {
        self.0@
    }
}

impl<T> Default for Quotables<T> {
    fn default() -> (r: Self)
        ensures
            r@ == Seq::<T>::empty(),
    {
        Quotables::new()
    }
}

impl<T> Quotables<T> {
    pub fn new() -> (r: Quotables<T>)
        ensures
            r@ == Seq::<T>::empty(),
    {
        Quotables(Vec::new())
    }

    pub fn with_capacity(capacity: usize) -> (r: Quotables<T>)
        ensures
            r@ == Seq::<T>::empty(),
    {
        Quotables(Vec::with_capacity(capacity))
    }

    pub fn push(&mut self, t: T)
        ensures
            final(self)@ == old(self)@.push(t),
    {
        self.0.push(t);
    }

    pub fn len(&self) -> (r: usize)
        ensures
            r == self@.len(),
    {
        self.0.len()
    }

    pub fn get(&self, i: usize) -> (r: Option<&T>)
        ensures
            i < self@.len() ==> r == Some(&self@[i as int]),
            i >= self@.len() ==> r is None,
    {
        if i < self.0.len() {
            Some(&self.0[i])
        } else {
            None
        }
    }
}

/// What one model turns into.
#[derive(Clone, Debug, PartialEq)]
pub enum Quotable {
    Item(Quote),
    /// The function could not be rewritten at all.
    Error(Diagnostic),
}

/// A rewritten function, in parts.
#[derive(Clone, Debug, PartialEq)]
pub struct Quote {
    pub attrs: Vec<Attribute>,
    pub vis: Vec<TokenTree>,
    pub constness: bool,
    pub unsafety: bool,
    pub abi: Option<Vec<TokenTree>>,
    pub ident: String,
    pub gen_params: Vec<GenericParam>,
    pub params: Vec<FnArg>,
    pub return_type: ReturnType,
    pub where_clause: Option<Vec<WherePredicate>>,
    pub func_body: Body,
    /// A diagnostic to report beside the function, which is still emitted
    /// so that the compiler goes on checking.
    pub error: Option<Diagnostic>,
}

} // verus!
