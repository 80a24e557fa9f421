//! Pathway declarations: what a contract can do next.
//!
//! A [`ThenFunc`] is a transition: its body produces the transactions that
//! may follow. A [`FinishOrFunc`] is an updatable pathway: its body takes, in
//! addition, an argument that arrives from outside and is coerced to the type
//! the body expects. Both carry the guards that unlock them and the
//! conditions under which they are compiled at all. A terminal pathway is a
//! [`Guard`] by itself.

use crate::compile_if::ConditionallyCompileIf;
use crate::declaration::{present_of, DeclarationList, Declared};
use crate::guard::Guard;
use crate::schema::{get_schema_for, served, SchemaCache};
use schemars::schema::RootSchema;
use std::sync::Arc;
use vstd::prelude::*;

verus! {

/// Every declaration that is present in `entries` meets `holds`.
pub open spec fn all_hold<D>(entries: Seq<Declared<D>>, holds: spec_fn(D) -> bool) -> bool {
    forall|k: int| 0 <= k < present_of(entries).len() ==> holds(#[trigger] present_of(entries)[k])
}

/// A transition: a body `F`, the guards that must all be satisfied for it to
/// be used, and the conditions that decide whether it is compiled.
pub struct ThenFunc<G, C, F> {
    /// The guards of the pathway, by declaration. An absent one is skipped.
    pub guard: DeclarationList<Guard<G>>,
    /// The compile-time conditions of the pathway, by declaration. An absent
    /// one is skipped.
    pub conditional_compile_if: DeclarationList<ConditionallyCompileIf<C>>,
    /// The body.
    pub func: F,
}

impl<G, C, F> ThenFunc<G, C, F> {
    /// The pathway can be used when `satisfied` tells which guards are
    /// satisfied: every guard that is present is.
    pub open spec fn usable(&self, satisfied: spec_fn(Guard<G>) -> bool) -> bool {
        all_hold(self.guard@, satisfied)
    }

    /// The pathway is compiled when `admits` tells which conditions admit it:
    /// every condition that is present does.
    pub open spec fn included(&self, admits: spec_fn(ConditionallyCompileIf<C>) -> bool) -> bool {
        all_hold(self.conditional_compile_if@, admits)
    }

    /// Declares under `name` a transition with compile-time conditions and
    /// guards.
    pub fn declare(
        name: String,
        compile_if: DeclarationList<ConditionallyCompileIf<C>>,
        guarded_by: DeclarationList<Guard<G>>,
        func: F,
    ) -> (entry: Declared<Self>)
        ensures
            entry.name == name,
            entry.decl == Some(
                (ThenFunc { guard: guarded_by, conditional_compile_if: compile_if, func }),
            ),
    {
        Declared::present(
            name,
            ThenFunc { guard: guarded_by, conditional_compile_if: compile_if, func },
        )
    }

    /// Declares under `name` a transition without guards or conditions.
    pub fn declare_unconditional(name: String, func: F) -> (entry: Declared<Self>)
        ensures
            entry.name == name,
            entry.decl is Some,
            entry.decl->0.guard@ == Seq::<Declared<Guard<G>>>::empty(),
            entry.decl->0.conditional_compile_if@ == Seq::<
                Declared<ConditionallyCompileIf<C>>,
            >::empty(),
            entry.decl->0.func == func,
    {
        Self::declare(name, DeclarationList::new(), DeclarationList::new(), func)
    }

    /// Declares under `name` a transition with guards and no compile-time
    /// condition.
    pub fn declare_guarded(name: String, guarded_by: DeclarationList<Guard<G>>, func: F) -> (entry:
        Declared<Self>)
        ensures
            entry.name == name,
            entry.decl is Some,
            entry.decl->0.guard == guarded_by,
            entry.decl->0.conditional_compile_if@ == Seq::<
                Declared<ConditionallyCompileIf<C>>,
            >::empty(),
            entry.decl->0.func == func,
    {
        Self::declare(name, DeclarationList::new(), guarded_by, func)
    }

    /// Declares under `name` a transition with compile-time conditions and no
    /// guard.
    pub fn declare_conditional(
        name: String,
        compile_if: DeclarationList<ConditionallyCompileIf<C>>,
        func: F,
    ) -> (entry: Declared<Self>)
        ensures
            entry.name == name,
            entry.decl is Some,
            entry.decl->0.guard@ == Seq::<Declared<Guard<G>>>::empty(),
            entry.decl->0.conditional_compile_if == compile_if,
            entry.decl->0.func == func,
    {
        Self::declare(name, compile_if, DeclarationList::new(), func)
    }

    /// Declares `name` as a transition without an implementation: there is
    /// no body to run.
    pub fn declare_absent(name: String) -> (entry: Declared<Self>)
        ensures
            entry.name == name,
            entry.decl is None,
    {
        Declared::absent(name)
    }

    /// Whether the pathway can be used whatever the guards evaluate to: it is
    /// so exactly where no guard is present.
    pub fn always_usable(&self) -> (always: bool)
        ensures
            always == (forall|satisfied: spec_fn(Guard<G>) -> bool| #[trigger]
                self.usable(satisfied)),
            always == (present_of(self.guard@).len() == 0),
    {
        proof {
            lemma_all_hold_always(self.guard@);
            if present_of(self.guard@).len() == 0 {
                assert forall|satisfied: spec_fn(Guard<G>) -> bool| #[trigger]
                    self.usable(satisfied) by {
                    assert(all_hold(self.guard@, satisfied));
                }
            } else {
                let holds = choose|holds: spec_fn(Guard<G>) -> bool|
                    !#[trigger] all_hold(self.guard@, holds);
                assert(!self.usable(holds));
            }
        }
        self.guard.none_present()
    }

    /// Whether the pathway is compiled whatever the conditions evaluate to:
    /// it is so exactly where no condition is present.
    pub fn always_included(&self) -> (always: bool)
        ensures
            always == (forall|admits: spec_fn(ConditionallyCompileIf<C>) -> bool| #[trigger]
                self.included(admits)),
            always == (present_of(self.conditional_compile_if@).len() == 0),
    {
        proof {
            lemma_all_hold_always(self.conditional_compile_if@);
            if present_of(self.conditional_compile_if@).len() == 0 {
                assert forall|admits: spec_fn(ConditionallyCompileIf<C>) -> bool| #[trigger]
                    self.included(admits) by {
                    assert(all_hold(self.conditional_compile_if@, admits));
                }
            } else {
                let holds = choose|holds: spec_fn(ConditionallyCompileIf<C>) -> bool|
                    !#[trigger] all_hold(self.conditional_compile_if@, holds);
                assert(!self.included(holds));
            }
        }
        self.conditional_compile_if.none_present()
    }

    /// The guards to satisfy: those that are present, in the order of
    /// declaration.
    pub fn guards(&self) -> (guards: Vec<&Guard<G>>)
        ensures
            guards@.map_values(|guard: &Guard<G>| *guard) == present_of(self.guard@),
    {
        self.guard.present()
    }

    /// The compile-time conditions to evaluate: those that are present, in
    /// the order of declaration.
    pub fn compile_conditions(&self) -> (conditions: Vec<&ConditionallyCompileIf<C>>)
        ensures
            conditions@.map_values(|condition: &ConditionallyCompileIf<C>| *condition)
                == present_of(self.conditional_compile_if@),
    {
        self.conditional_compile_if.present()
    }

    /// Runs the body on a contract instance and a context, once, and hands
    /// back what it returns.
    pub fn call<S, X, R>(&self, contract: &S, ctx: X) -> (out: R) where F: Fn(&S, X) -> R
        requires
            self.func.requires((contract, ctx)),
        ensures
            self.func.ensures((contract, ctx), out),
    {
        (self.func)(contract, ctx)
    }
}

/// A transition declared with an empty list of guards and an empty list of
/// compile-time conditions is never denied: it can be used whatever
/// `satisfied` says of guards, and is compiled whatever `admits` says of
/// conditions.
pub proof fn lemma_empty_lists_never_deny<G, C, F>(
    pathway: ThenFunc<G, C, F>,
    satisfied: spec_fn(Guard<G>) -> bool,
    admits: spec_fn(ConditionallyCompileIf<C>) -> bool,
)
    requires
        pathway.guard@.len() == 0,
        pathway.conditional_compile_if@.len() == 0,
    ensures
        pathway.usable(satisfied),
        pathway.included(admits),
{
    assert(present_of(pathway.guard@) =~= Seq::<Guard<G>>::empty());
    assert(present_of(pathway.conditional_compile_if@) =~= Seq::<
        ConditionallyCompileIf<C>,
    >::empty());
}

/// An updatable pathway: a body `F` that takes an argument from outside, the
/// function `K` that coerces what arrives to the type the body takes, the
/// guards and the compile-time conditions, and, where the pathway is exposed
/// to the outside, the schema of its argument.
pub struct FinishOrFunc<G, C, K, F> {
    /// Turns the argument that arrives from outside into the one the body
    /// takes, or fails.
    pub coerce_args: K,
    /// The guards of the pathway, by declaration. An absent one is skipped.
    pub guard: DeclarationList<Guard<G>>,
    /// The compile-time conditions of the pathway, by declaration. An absent
    /// one is skipped.
    pub conditional_compile_if: DeclarationList<ConditionallyCompileIf<C>>,
    /// The body.
    pub func: F,
    /// The schema of the body's argument, where the pathway is exposed.
    pub schema: Option<Arc<RootSchema>>,
    /// The name under which the pathway is declared.
    pub name: String,
}

impl<G, C, K, F> FinishOrFunc<G, C, K, F> {
    /// The pathway can be used when `satisfied` tells which guards are
    /// satisfied: every guard that is present is.
    pub open spec fn usable(&self, satisfied: spec_fn(Guard<G>) -> bool) -> bool {
        all_hold(self.guard@, satisfied)
    }

    /// The pathway is compiled when `admits` tells which conditions admit it:
    /// every condition that is present does.
    pub open spec fn included(&self, admits: spec_fn(ConditionallyCompileIf<C>) -> bool) -> bool {
        all_hold(self.conditional_compile_if@, admits)
    }

    /// Declares under `name` an updatable pathway. `schema` is the schema of
    /// the body's argument where the pathway is exposed to the outside, and
    /// `None` where it is not.
    pub fn declare(
        name: String,
        schema: Option<Arc<RootSchema>>,
        compile_if: DeclarationList<ConditionallyCompileIf<C>>,
        guarded_by: DeclarationList<Guard<G>>,
        coerce_args: K,
        func: F,
    ) -> (entry: Declared<Self>)
        ensures
            entry.name@ == name@,
            entry.decl is Some,
            entry.decl->0.name@ == name@,
            entry.decl->0.schema == schema,
            entry.decl->0.conditional_compile_if == compile_if,
            entry.decl->0.guard == guarded_by,
            entry.decl->0.coerce_args == coerce_args,
            entry.decl->0.func == func,
    {
        let label = name.clone();
        Declared::present(
            label,
            FinishOrFunc {
                coerce_args,
                guard: guarded_by,
                conditional_compile_if: compile_if,
                func,
                schema,
                name,
            },
        )
    }

    /// Declares under `name` an updatable pathway that is exposed to the
    /// outside: the schema of `T`, the type of the argument that the body
    /// takes, comes from `cache` and goes with the declaration.
    pub fn declare_web<S, X, A, T, E, R>(
        cache: &mut SchemaCache,
        name: String,
        compile_if: DeclarationList<ConditionallyCompileIf<C>>,
        guarded_by: DeclarationList<Guard<G>>,
        coerce_args: K,
        func: F,
    ) -> (entry: Declared<Self>) where
        T: schemars::JsonSchema + 'static + Sized,
        K: Fn(A) -> Result<T, E>,
        F: Fn(&S, X, T) -> R,

        ensures
            entry.name@ == name@,
            entry.decl is Some,
            entry.decl->0.name@ == name@,
            entry.decl->0.schema is Some,
            served(old(cache)@, final(cache)@, entry.decl->0.schema->0),
            entry.decl->0.conditional_compile_if == compile_if,
            entry.decl->0.guard == guarded_by,
            entry.decl->0.coerce_args == coerce_args,
            entry.decl->0.func == func,
    {
        let schema = get_schema_for::<T>(cache);
        Self::declare(name, Some(schema), compile_if, guarded_by, coerce_args, func)
    }

    /// Declares under `name` an updatable pathway with guards and no
    /// compile-time condition.
    pub fn declare_guarded(
        name: String,
        schema: Option<Arc<RootSchema>>,
        guarded_by: DeclarationList<Guard<G>>,
        coerce_args: K,
        func: F,
    ) -> (entry: Declared<Self>)
        ensures
            entry.name@ == name@,
            entry.decl is Some,
            entry.decl->0.name@ == name@,
            entry.decl->0.schema == schema,
            entry.decl->0.conditional_compile_if@ == Seq::<
                Declared<ConditionallyCompileIf<C>>,
            >::empty(),
            entry.decl->0.guard == guarded_by,
            entry.decl->0.coerce_args == coerce_args,
            entry.decl->0.func == func,
    {
        Self::declare(name, schema, DeclarationList::new(), guarded_by, coerce_args, func)
    }

    /// Declares `name` as an updatable pathway without an implementation:
    /// there is no body to run and nothing to coerce.
    pub fn declare_absent(name: String) -> (entry: Declared<Self>)
        ensures
            entry.name == name,
            entry.decl is None,
    {
        Declared::absent(name)
    }

    /// Whether the pathway can be used whatever the guards evaluate to: it is
    /// so exactly where no guard is present.
    pub fn always_usable(&self) -> (always: bool)
        ensures
            always == (forall|satisfied: spec_fn(Guard<G>) -> bool| #[trigger]
                self.usable(satisfied)),
            always == (present_of(self.guard@).len() == 0),
    {
        proof {
            lemma_all_hold_always(self.guard@);
            if present_of(self.guard@).len() == 0 {
                assert forall|satisfied: spec_fn(Guard<G>) -> bool| #[trigger]
                    self.usable(satisfied) by {
                    assert(all_hold(self.guard@, satisfied));
                }
            } else {
                let holds = choose|holds: spec_fn(Guard<G>) -> bool|
                    !#[trigger] all_hold(self.guard@, holds);
                assert(!self.usable(holds));
            }
        }
        self.guard.none_present()
    }

    /// Whether the pathway is compiled whatever the conditions evaluate to:
    /// it is so exactly where no condition is present.
    pub fn always_included(&self) -> (always: bool)
        ensures
            always == (forall|admits: spec_fn(ConditionallyCompileIf<C>) -> bool| #[trigger]
                self.included(admits)),
            always == (present_of(self.conditional_compile_if@).len() == 0),
    {
        proof {
            lemma_all_hold_always(self.conditional_compile_if@);
            if present_of(self.conditional_compile_if@).len() == 0 {
                assert forall|admits: spec_fn(ConditionallyCompileIf<C>) -> bool| #[trigger]
                    self.included(admits) by {
                    assert(all_hold(self.conditional_compile_if@, admits));
                }
            } else {
                let holds = choose|holds: spec_fn(ConditionallyCompileIf<C>) -> bool|
                    !#[trigger] all_hold(self.conditional_compile_if@, holds);
                assert(!self.included(holds));
            }
        }
        self.conditional_compile_if.none_present()
    }

    /// The guards to satisfy: those that are present, in the order of
    /// declaration.
    pub fn guards(&self) -> (guards: Vec<&Guard<G>>)
        ensures
            guards@.map_values(|guard: &Guard<G>| *guard) == present_of(self.guard@),
    {
        self.guard.present()
    }

    /// The compile-time conditions to evaluate: those that are present, in
    /// the order of declaration.
    pub fn compile_conditions(&self) -> (conditions: Vec<&ConditionallyCompileIf<C>>)
        ensures
            conditions@.map_values(|condition: &ConditionallyCompileIf<C>| *condition)
                == present_of(self.conditional_compile_if@),
    {
        self.conditional_compile_if.present()
    }

    /// Coerces an argument that arrived from outside, by one run of
    /// `coerce_args`. The outcome is handed back as it is, a failure
    /// included: nothing is tried again.
    pub fn coerce<A, T, E>(&self, args: A) -> (coerced: Result<T, E>) where K: Fn(A) -> Result<T, E>
        requires
            self.coerce_args.requires((args,)),
        ensures
            self.coerce_args.ensures((args,), coerced),
    {
        (self.coerce_args)(args)
    }

    /// `out` is an outcome that [`FinishOrFunc::call`] can have on `args`: the
    /// error of a coercion that failed, or what the body made of an argument
    /// that the coercion produced.
    pub open spec fn call_gives<S, X, A, T, E, R>(
        &self,
        contract: &S,
        ctx: X,
        args: A,
        out: Result<R, E>,
    ) -> bool where K: Fn(A) -> Result<T, E>, F: Fn(&S, X, T) -> R {
        match out {
            Ok(made) => exists|typed: T|
                self.coerce_args.ensures((args,), Ok(typed)) && #[trigger] self.func.ensures(
                    (contract, ctx, typed),
                    made,
                ),
            Err(error) => self.coerce_args.ensures((args,), Err(error)),
        }
    }

    /// Coerces an argument that arrived from outside and, where that
    /// succeeds, runs the body once on the contract instance, the context and
    /// the coerced argument. Where the coercion fails, its error is handed
    /// back and the body is not run.
    pub fn call<S, X, A, T, E, R>(&self, contract: &S, ctx: X, args: A) -> (out: Result<R, E>) where
        K: Fn(A) -> Result<T, E>,
        F: Fn(&S, X, T) -> R,

        requires
            self.coerce_args.requires((args,)),
            forall|typed: T|
                self.coerce_args.ensures((args,), Ok(typed)) ==> #[trigger] self.func.requires(
                    (contract, ctx, typed),
                ),
        ensures
            self.call_gives::<S, X, A, T, E, R>(contract, ctx, args, out),
    {
        match (self.coerce_args)(args) {
            Ok(coerced) => {
                let ghost witness = coerced;
                let effect: Result<R, E> = Ok((self.func)(contract, ctx, coerced));
                assert(self.func.ensures((contract, ctx, witness), effect->Ok_0));
                effect
            },
            Err(failure) => Err(failure),
        }
    }
}

/// An updatable pathway declared with an empty list of guards and an empty
/// list of compile-time conditions is never denied: it can be used whatever
/// `satisfied` says of guards, and is compiled whatever `admits` says of
/// conditions.
pub proof fn lemma_empty_lists_never_deny_updatable<G, C, K, F>(
    pathway: FinishOrFunc<G, C, K, F>,
    satisfied: spec_fn(Guard<G>) -> bool,
    admits: spec_fn(ConditionallyCompileIf<C>) -> bool,
)
    requires
        pathway.guard@.len() == 0,
        pathway.conditional_compile_if@.len() == 0,
    ensures
        pathway.usable(satisfied),
        pathway.included(admits),
{
    assert(present_of(pathway.guard@) =~= Seq::<Guard<G>>::empty());
    assert(present_of(pathway.conditional_compile_if@) =~= Seq::<
        ConditionallyCompileIf<C>,
    >::empty());
}

/// A list in which nothing is present holds whatever `holds` asks, and it is
/// the only kind of list that does so for every `holds`.
pub proof fn lemma_all_hold_always<D>(entries: Seq<Declared<D>>)
    ensures
        (forall|holds: spec_fn(D) -> bool| #[trigger] all_hold(entries, holds)) <==> present_of(
            entries,
        ).len() == 0,
{
    if present_of(entries).len() > 0 {
        let never = |decl: D| false;
        assert(!never(present_of(entries)[0]));
        assert(!all_hold(entries, never));
    }
}

/// Coercion gives back what was put in. `external` is the form in which a
/// typed argument arrives from outside. Where the pathway's `coerce_args`
/// undoes `external`, coercing the external form of `typed` succeeds with
/// `typed` itself, and a call on it runs the body on `typed`: `coerced`
/// stands for any outcome that [`FinishOrFunc::coerce`] can have on that
/// argument, `out` for any that [`FinishOrFunc::call`] can have.
///
/// A `coerce_args` that does not undo `external`, such as one that always
/// fails, is left out: what it does to an argument is its author's choice.
pub proof fn lemma_coercion_round_trip<G, C, K, F, S, X, A, T, E, R>(
    pathway: FinishOrFunc<G, C, K, F>,
    external: spec_fn(T) -> A,
    contract: &S,
    ctx: X,
    typed: T,
    coerced: Result<T, E>,
    out: Result<R, E>,
) where K: Fn(A) -> Result<T, E>, F: Fn(&S, X, T) -> R
    requires
        forall|argument: T, outcome: Result<T, E>| #[trigger]
            pathway.coerce_args.ensures((external(argument),), outcome) ==> outcome == Ok::<T, E>(
                argument,
            ),
        pathway.coerce_args.ensures((external(typed),), coerced),
        pathway.call_gives::<S, X, A, T, E, R>(contract, ctx, external(typed), out),
    ensures
        coerced == Ok::<T, E>(typed),
        out is Ok,
        pathway.func.ensures((contract, ctx, typed), out->Ok_0),
{
    match out {
        Ok(made) => {
            let reached = choose|reached: T|
                pathway.coerce_args.ensures((external(typed),), Ok(reached))
                    && #[trigger] pathway.func.ensures((contract, ctx, reached), made);
            assert(Ok::<T, E>(reached) == Ok::<T, E>(typed));
        },
        Err(error) => {
            assert(Err::<T, E>(error) == Ok::<T, E>(typed));
        },
    }
}

} // verus!
