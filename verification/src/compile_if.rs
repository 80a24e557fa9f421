//! Compile-time conditions: whether a pathway is compiled into a contract at
//! all.
//!
//! A condition refers to a body that, given the compilation context, produces
//! the decision. The body is carried, never run, here.

use crate::declaration::Declared;
use crate::guard::CachePolicy;
use vstd::prelude::*;

verus! {

/// A condition on the compilation of a pathway: a reference `B` to its body.
/// There is one variant: the body is run whenever the decision is asked for.
#[derive(Clone, Copy, Debug)]
pub enum ConditionallyCompileIf<B> {
    /// The body is run on every evaluation.
    Fresh(B),
}

impl<B> ConditionallyCompileIf<B> {
    /// The body that the condition refers to.
    pub open spec fn body_of(&self) -> B {
        match self {
            ConditionallyCompileIf::Fresh(body) => *body,
        }
    }

    /// How often the body is to be run: every time.
    pub fn policy(&self) -> (policy: CachePolicy)
        ensures
            policy == CachePolicy::Fresh,
    {
        CachePolicy::Fresh
    }

    /// The body that the condition refers to.
    pub fn body(&self) -> (body: &B)
        ensures
            *body == self.body_of(),
    {
        match self {
            ConditionallyCompileIf::Fresh(body) => body,
        }
    }

    /// Declares a condition under `name`.
    pub fn declare(name: String, body: B) -> (entry: Declared<ConditionallyCompileIf<B>>)
        ensures
            entry.name == name,
            entry.decl == Some(ConditionallyCompileIf::Fresh(body)),
    {
        Declared::present(name, ConditionallyCompileIf::Fresh(body))
    }

    /// Declares `name` as a condition without an implementation. It does not
    /// constrain the pathways that name it.
    pub fn declare_absent(name: String) -> (entry: Declared<ConditionallyCompileIf<B>>)
        ensures
            entry.name == name,
            entry.decl is None,
    {
        Declared::absent(name)
    }
}

} // verus!
