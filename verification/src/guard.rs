//! Guards: the unlocking conditions of a contract.
//!
//! A guard refers to a body that, given the compilation context, produces a
//! spending clause. The body is carried, never run, here; a guard adds to it
//! how often it is to be run.

use crate::declaration::Declared;
use vstd::prelude::*;

verus! {

/// How often the body of a declaration is to be run.
#[derive(Clone, Copy, Debug, PartialEq, Eq, Structural)]
pub enum CachePolicy {
    /// The body is run every time its result is asked for.
    Fresh,
    /// The body is run at most once for a contract instance and its result is
    /// used again. This is a tag: whoever runs the body keeps the result.
    Cached,
}

/// An unlocking condition: a reference `B` to its body, under the variant
/// that says how often the body is to be run.
#[derive(Clone, Copy, Debug)]
pub enum Guard<B> {
    /// The body's result may be kept and used again.
    Cache(B),
    /// The body is run on every evaluation.
    Fresh(B),
}

impl<B> Guard<B> {
    /// The policy that the variant stands for.
    pub open spec fn policy_of(&self) -> CachePolicy {
        match self {
            Guard::Cache(_) => CachePolicy::Cached,
            Guard::Fresh(_) => CachePolicy::Fresh,
        }
    }

    /// The body that the guard refers to.
    pub open spec fn body_of(&self) -> B {
        match self {
            Guard::Cache(body) => *body,
            Guard::Fresh(body) => *body,
        }
    }

    /// How often the body is to be run.
    pub fn policy(&self) -> (policy: CachePolicy)
        ensures
            policy == self.policy_of(),
    {
        match self {
            Guard::Cache(_) => CachePolicy::Cached,
            Guard::Fresh(_) => CachePolicy::Fresh,
        }
    }

    /// The body that the guard refers to.
    pub fn body(&self) -> (body: &B)
        ensures
            *body == self.body_of(),
    {
        match self {
            Guard::Cache(body) => body,
            Guard::Fresh(body) => body,
        }
    }

    /// Declares under `name` a guard whose body is run on every evaluation.
    pub fn declare(name: String, body: B) -> (entry: Declared<Guard<B>>)
        ensures
            entry.name == name,
            entry.decl == Some(Guard::Fresh(body)),
    {
        Declared::present(name, Guard::Fresh(body))
    }

    /// Declares under `name` a guard whose body should be run only once.
    pub fn declare_cached(name: String, body: B) -> (entry: Declared<Guard<B>>)
        ensures
            entry.name == name,
            entry.decl == Some(Guard::Cache(body)),
    {
        Declared::present(name, Guard::Cache(body))
    }

    /// Declares `name` as a guard without an implementation. It contributes
    /// nothing to a list that holds it.
    pub fn declare_absent(name: String) -> (entry: Declared<Guard<B>>)
        ensures
            entry.name == name,
            entry.decl is None,
    {
        Declared::absent(name)
    }
}

} // verus!
