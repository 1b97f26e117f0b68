//! Deferred items: tokens that have been carried but not yet read, as a typestate.

use vstd::prelude::*;
use core::marker::PhantomData;
use proc_macro2::TokenStream;
use crate::tokens::{ident_parse, parse_ident, parse_type, type_parse};

verus! {

/// Tokens whose meaning has not been read yet; `T` is what they are expected to resolve to.
pub struct Unresolved<'ast, T> {
    tokens: &'ast TokenStream,
    _target: PhantomData<T>,
}

/// An item that has been read, with the tokens it was read from kept alongside.
pub struct Resolved<'ast, T> {
    value: T,
    tokens: &'ast TokenStream,
}

/// The surface common to both states.
pub trait Deferred<'ast> {
    spec fn spec_tokens(&self) -> &'ast TokenStream;

    fn tokens(&self) -> (r: &'ast TokenStream)
        ensures
            r == self.spec_tokens(),
    ;
}

impl<'ast, T> Unresolved<'ast, T> {
    pub closed spec fn carried(&self) -> &'ast TokenStream {
        self.tokens
    }

    /// The carried tokens.
    pub fn source_tokens(&self) -> (r: &'ast TokenStream)
        ensures
            r == self.carried(),
    {
        self.tokens
    }

    pub fn new(tokens: &'ast TokenStream) -> (r: Self)
        ensures
            r.carried() == tokens,
    {
        Unresolved { tokens, _target: PhantomData }
    }

    /// Resolve through a caller-supplied reader. The transition consumes the unresolved item, so
    /// resolving twice cannot be written; the tokens survive into the resolved one.
    pub fn resolve_with<E, F: FnOnce(&'ast TokenStream) -> Result<T, E>>(self, read: F) -> (r: Result<
        Resolved<'ast, T>,
        E,
    >)
        requires
            call_requires(read, (self.carried(),)),
        ensures
            exists|out: Result<T, E>|
                call_ensures(read, (self.carried(),), out) && match (out, r) {
                    (Ok(v), Ok(res)) => res.spec_value() == v && res.carried() == self.carried(),
                    (Err(e), Err(e2)) => e == e2,
                    _ => false,
                },
    {
        let tokens = self.tokens;
        let out = read(tokens);
        match out {
            Ok(value) => Ok(Resolved { value, tokens }),
            Err(e) => Err(e),
        }
    }
}

impl<'ast, T> Resolved<'ast, T> {
    pub closed spec fn spec_value(&self) -> T {
        self.value
    }

    pub closed spec fn carried(&self) -> &'ast TokenStream {
        self.tokens
    }

    pub fn value(&self) -> (r: &T)
        ensures
            *r == self.spec_value(),
    {
        &self.value
    }

    pub fn into_value(self) -> (r: T)
        ensures
            r == self.spec_value(),
    {
        self.value
    }
}

impl<'ast, T> Deferred<'ast> for Unresolved<'ast, T> {
    open spec fn spec_tokens(&self) -> &'ast TokenStream {
        self.carried()
    }

    fn tokens(&self) -> (r: &'ast TokenStream) {
        self.tokens
    }
}

impl<'ast, T> Deferred<'ast> for Resolved<'ast, T> {
    open spec fn spec_tokens(&self) -> &'ast TokenStream {
        self.carried()
    }

    fn tokens(&self) -> (r: &'ast TokenStream) {
        self.tokens
    }
}

impl<'ast> Unresolved<'ast, syn::Type> {
    /// Read the carried tokens as a type; they stay alongside what they were read as.
    pub fn resolve(self) -> (r: Result<Resolved<'ast, syn::Type>, syn::Error>)
        ensures
            match (r, type_parse(*self.carried())) {
                (Ok(res), Ok(t)) => res.spec_value() == t && res.carried() == self.carried(),
                (Err(e), Err(f)) => e == f,
                _ => false,
            },
    {
        self.resolve_with(parse_type)
    }
}

impl<'ast> Unresolved<'ast, String> {
    /// Read the carried tokens as one identifier.
    pub fn resolve(self) -> (r: Result<Resolved<'ast, String>, syn::Error>)
        ensures
            match (r, ident_parse(*self.carried())) {
                (Ok(res), Ok(t)) => res.spec_value()@ == t && res.carried() == self.carried(),
                (Err(e), Err(f)) => e == f,
                _ => false,
            },
    {
        self.resolve_with(parse_ident)
    }
}

/// Marker: nothing in this container has been read yet. Never constructed - it names a state.
pub struct Raw(());

/// Marker: everything in this container has been read. Never constructed - it names a state.
pub struct Parsed(());

} // verus!
