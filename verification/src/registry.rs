//! The pathways of a contract type: three ordered lists of declarations.
//!
//! Whoever compiles a contract reads each list in the order of declaration,
//! skips what is declared absent and takes what is present as the pathways
//! the contract has.

use crate::compile_if::ConditionallyCompileIf;
use crate::declaration::{
    distinct_names, first_repeat, present_of, DeclarationList, DeclareError, Declared,
};
use crate::guard::Guard;
use crate::pathway::{FinishOrFunc, ThenFunc};
use vstd::prelude::*;

verus! {

/// What a contract type declares. `G`, `C`, `F` and `U` refer to the bodies of
/// its guards, compile-time conditions, transitions and updatable pathways;
/// `K` is the type of the functions that coerce the one argument type that
/// all its updatable pathways share.
pub struct Registry<G, C, F, K, U> {
    /// The transitions.
    pub then_fns: DeclarationList<ThenFunc<G, C, F>>,
    /// The terminal pathways: each is a guard that alone suffices to unlock
    /// the contract's funds.
    pub finish_fns: DeclarationList<Guard<G>>,
    /// The updatable pathways.
    pub finish_or_fns: DeclarationList<FinishOrFunc<G, C, K, U>>,
}

impl<G, C, F, K, U> Registry<G, C, F, K, U> {
    /// A contract type that declares no pathway.
    pub fn new() -> (registry: Self)
        ensures
            registry.then_fns@ == Seq::<Declared<ThenFunc<G, C, F>>>::empty(),
            registry.finish_fns@ == Seq::<Declared<Guard<G>>>::empty(),
            registry.finish_or_fns@ == Seq::<Declared<FinishOrFunc<G, C, K, U>>>::empty(),
    {
        Registry {
            then_fns: DeclarationList::new(),
            finish_fns: DeclarationList::new(),
            finish_or_fns: DeclarationList::new(),
        }
    }

    /// Binds `entries`, in their order, as the transitions. Where two of
    /// them have the same name they are refused and nothing changes.
    pub fn declare_then(&mut self, entries: Vec<Declared<ThenFunc<G, C, F>>>) -> (bound: Result<
        (),
        DeclareError,
    >)
        ensures
            final(self).finish_fns == old(self).finish_fns,
            final(self).finish_or_fns == old(self).finish_or_fns,
            match bound {
                Ok(()) => distinct_names(entries@) && final(self).then_fns@ == entries@,
                Err(DeclareError::DuplicateName { first, second }) => {
                    &&& first_repeat(entries@, first as int, second as int)
                    &&& final(self).then_fns == old(self).then_fns
                },
            },
    {
        match DeclarationList::from_declarations(entries) {
            Ok(list) => {
                self.then_fns = list;
                Ok(())
            },
            Err(refusal) => Err(refusal),
        }
    }

    /// Binds `entries`, in their order, as the terminal pathways. Where two
    /// of them have the same name they are refused and nothing changes.
    pub fn declare_finish(&mut self, entries: Vec<Declared<Guard<G>>>) -> (bound: Result<
        (),
        DeclareError,
    >)
        ensures
            final(self).then_fns == old(self).then_fns,
            final(self).finish_or_fns == old(self).finish_or_fns,
            match bound {
                Ok(()) => distinct_names(entries@) && final(self).finish_fns@ == entries@,
                Err(DeclareError::DuplicateName { first, second }) => {
                    &&& first_repeat(entries@, first as int, second as int)
                    &&& final(self).finish_fns == old(self).finish_fns
                },
            },
    {
        match DeclarationList::from_declarations(entries) {
            Ok(list) => {
                self.finish_fns = list;
                Ok(())
            },
            Err(refusal) => Err(refusal),
        }
    }

    /// Binds `entries`, in their order, as the updatable pathways. Where two
    /// of them have the same name they are refused and nothing changes.
    pub fn declare_updatable(&mut self, entries: Vec<Declared<FinishOrFunc<G, C, K, U>>>) -> (bound:
        Result<(), DeclareError>)
        ensures
            final(self).then_fns == old(self).then_fns,
            final(self).finish_fns == old(self).finish_fns,
            match bound {
                Ok(()) => distinct_names(entries@) && final(self).finish_or_fns@ == entries@,
                Err(DeclareError::DuplicateName { first, second }) => {
                    &&& first_repeat(entries@, first as int, second as int)
                    &&& final(self).finish_or_fns == old(self).finish_or_fns
                },
            },
    {
        match DeclarationList::from_declarations(entries) {
            Ok(list) => {
                self.finish_or_fns = list;
                Ok(())
            },
            Err(refusal) => Err(refusal),
        }
    }

    /// The transitions the contract has: those declared present, in the
    /// order of declaration.
    pub fn transitions(&self) -> (pathways: Vec<&ThenFunc<G, C, F>>)
        ensures
            pathways@.map_values(|pathway: &ThenFunc<G, C, F>| *pathway) == present_of(
                self.then_fns@,
            ),
    {
        self.then_fns.present()
    }

    /// The terminal pathways the contract has: those declared present, in
    /// the order of declaration.
    pub fn terminals(&self) -> (pathways: Vec<&Guard<G>>)
        ensures
            pathways@.map_values(|pathway: &Guard<G>| *pathway) == present_of(self.finish_fns@),
    {
        self.finish_fns.present()
    }

    /// The updatable pathways the contract has: those declared present, in
    /// the order of declaration.
    pub fn updatables(&self) -> (pathways: Vec<&FinishOrFunc<G, C, K, U>>)
        ensures
            pathways@.map_values(|pathway: &FinishOrFunc<G, C, K, U>| *pathway) == present_of(
                self.finish_or_fns@,
            ),
    {
        self.finish_or_fns.present()
    }
}

} // verus!
