use sapio_pathways::compile_if::ConditionallyCompileIf;
use sapio_pathways::declaration::{DeclarationList, Declared};
use sapio_pathways::guard::{CachePolicy, Guard};
use sapio_pathways::pathway::{FinishOrFunc, ThenFunc};
use sapio_pathways::schema::{get_schema_for, SchemaCache};
use serde_json::Value;
use std::cell::Cell;
use std::sync::Arc;

struct Vault {
    balance: u64,
}

#[derive(Clone, Copy, Debug, PartialEq)]
struct Height(u32);

type GuardBody = fn(&Vault, Height) -> String;
type GateBody = fn(&Vault, Height) -> bool;
type ThenBody = fn(&Vault, Height) -> Vec<u64>;
type Coerce = fn(Value) -> Result<u64, String>;
type FinishBody = fn(&Vault, Height, u64) -> Result<Vec<u64>, String>;

fn name(s: &str) -> String {
    s.to_string()
}

fn signed(_vault: &Vault, _at: Height) -> String {
    "signed".to_string()
}

fn timeout(_vault: &Vault, at: Height) -> String {
    format!("after({})", at.0)
}

fn funded(vault: &Vault, _at: Height) -> bool {
    vault.balance > 0
}

fn pay_out(vault: &Vault, _at: Height) -> Vec<u64> {
    vec![vault.balance]
}

fn amount(arg: Value) -> Result<u64, String> {
    match arg.as_u64() {
        Some(n) => Ok(n),
        None => Err(format!("not an amount: {}", arg)),
    }
}

fn withdraw(vault: &Vault, _at: Height, amount: u64) -> Result<Vec<u64>, String> {
    if amount <= vault.balance {
        Ok(vec![amount, vault.balance - amount])
    } else {
        Err("insufficient".to_string())
    }
}

fn guard_list(entries: Vec<Declared<Guard<GuardBody>>>) -> DeclarationList<Guard<GuardBody>> {
    DeclarationList::from_declarations(entries)
        .ok()
        .expect("distinct names")
}

fn gate_list(
    entries: Vec<Declared<ConditionallyCompileIf<GateBody>>>,
) -> DeclarationList<ConditionallyCompileIf<GateBody>> {
    DeclarationList::from_declarations(entries)
        .ok()
        .expect("distinct names")
}

#[test]
fn then_absent_has_no_body() {
    let entry: Declared<ThenFunc<GuardBody, GateBody, ThenBody>> =
        ThenFunc::declare_absent(name("later"));
    assert_eq!(entry.name, "later");
    assert!(!entry.is_present());
    assert!(entry.get().is_none());
}

#[test]
fn then_unconditional_is_never_denied() {
    let entry: Declared<ThenFunc<GuardBody, GateBody, ThenBody>> =
        ThenFunc::declare_unconditional(name("pay"), pay_out as ThenBody);
    assert_eq!(entry.name, "pay");
    let pathway = entry.get().expect("present");
    assert_eq!(pathway.guard.len(), 0);
    assert_eq!(pathway.conditional_compile_if.len(), 0);
    assert!(pathway.guards().is_empty());
    assert!(pathway.compile_conditions().is_empty());
    assert!(pathway.always_usable());
    assert!(pathway.always_included());
    assert_eq!(pathway.call(&Vault { balance: 5 }, Height(1)), vec![5]);
}

#[test]
fn then_guarded_lists_its_guards() {
    let entry: Declared<ThenFunc<GuardBody, GateBody, ThenBody>> = ThenFunc::declare_guarded(
        name("pay"),
        guard_list(vec![
            Guard::declare(name("signed"), signed as GuardBody),
            Guard::declare_absent(name("cosigned")),
            Guard::declare_cached(name("timeout"), timeout as GuardBody),
        ]),
        pay_out as ThenBody,
    );
    let pathway = entry.get().expect("present");
    assert_eq!(pathway.guard.len(), 3);
    assert_eq!(pathway.conditional_compile_if.len(), 0);
    assert!(!pathway.always_usable());
    assert!(pathway.always_included());

    let guards = pathway.guards();
    assert_eq!(guards.len(), 2);
    assert_eq!(guards[0].policy(), CachePolicy::Fresh);
    assert_eq!(guards[1].policy(), CachePolicy::Cached);
    let vault = Vault { balance: 1 };
    assert_eq!((guards[0].body())(&vault, Height(9)), "signed");
    assert_eq!((guards[1].body())(&vault, Height(9)), "after(9)");
}

#[test]
fn then_conditional_lists_its_conditions() {
    let entry: Declared<ThenFunc<GuardBody, GateBody, ThenBody>> = ThenFunc::declare_conditional(
        name("pay"),
        gate_list(vec![ConditionallyCompileIf::declare(
            name("funded"),
            funded as GateBody,
        )]),
        pay_out as ThenBody,
    );
    let pathway = entry.get().expect("present");
    assert!(pathway.always_usable());
    assert!(!pathway.always_included());
    let conditions = pathway.compile_conditions();
    assert_eq!(conditions.len(), 1);
    assert_eq!(conditions[0].policy(), CachePolicy::Fresh);
    assert!((conditions[0].body())(&Vault { balance: 1 }, Height(0)));
    assert!(!(conditions[0].body())(&Vault { balance: 0 }, Height(0)));
}

#[test]
fn then_full_form_keeps_both_lists() {
    let entry: Declared<ThenFunc<GuardBody, GateBody, ThenBody>> = ThenFunc::declare(
        name("pay"),
        gate_list(vec![ConditionallyCompileIf::declare(
            name("funded"),
            funded as GateBody,
        )]),
        guard_list(vec![Guard::declare(name("signed"), signed as GuardBody)]),
        pay_out as ThenBody,
    );
    let pathway = entry.get().expect("present");
    assert_eq!(pathway.guards().len(), 1);
    assert_eq!(pathway.compile_conditions().len(), 1);
    assert!(!pathway.always_usable());
    assert!(!pathway.always_included());
    assert_eq!(pathway.call(&Vault { balance: 8 }, Height(0)), vec![8]);
}

#[test]
fn absent_guards_and_conditions_do_not_deny() {
    let entry: Declared<ThenFunc<GuardBody, GateBody, ThenBody>> = ThenFunc::declare(
        name("pay"),
        gate_list(vec![ConditionallyCompileIf::declare_absent(name("funded"))]),
        guard_list(vec![
            Guard::declare_absent(name("signed")),
            Guard::declare_absent(name("timeout")),
        ]),
        pay_out as ThenBody,
    );
    let pathway = entry.get().expect("present");
    assert_eq!(pathway.guard.len(), 2);
    assert!(pathway.guards().is_empty());
    assert!(pathway.compile_conditions().is_empty());
    assert!(pathway.always_usable());
    assert!(pathway.always_included());
}

#[test]
fn then_body_gives_a_fresh_sequence_each_time() {
    let entry: Declared<ThenFunc<GuardBody, GateBody, ThenBody>> =
        ThenFunc::declare_unconditional(name("pay"), pay_out as ThenBody);
    let pathway = entry.get().expect("present");
    let vault = Vault { balance: 3 };
    let mut first = pathway.call(&vault, Height(0)).into_iter();
    assert_eq!(first.next(), Some(3));
    assert_eq!(first.next(), None);
    let mut second = pathway.call(&vault, Height(0)).into_iter();
    assert_eq!(second.next(), Some(3));
    assert_eq!(second.next(), None);
}

#[test]
fn finish_absent_has_no_body() {
    let entry: Declared<FinishOrFunc<GuardBody, GateBody, Coerce, FinishBody>> =
        FinishOrFunc::declare_absent(name("withdraw"));
    assert_eq!(entry.name, "withdraw");
    assert!(!entry.is_present());
}

#[test]
fn finish_declared_without_schema() {
    let entry: Declared<FinishOrFunc<GuardBody, GateBody, Coerce, FinishBody>> =
        FinishOrFunc::declare(
            name("withdraw"),
            None,
            gate_list(vec![ConditionallyCompileIf::declare(
                name("funded"),
                funded as GateBody,
            )]),
            guard_list(vec![Guard::declare(name("signed"), signed as GuardBody)]),
            amount as Coerce,
            withdraw as FinishBody,
        );
    assert_eq!(entry.name, "withdraw");
    let pathway = entry.get().expect("present");
    assert_eq!(pathway.name, "withdraw");
    assert!(pathway.schema.is_none());
    assert_eq!(pathway.guards().len(), 1);
    assert_eq!(pathway.compile_conditions().len(), 1);
    assert!(!pathway.always_usable());
    assert!(!pathway.always_included());
}

#[test]
fn finish_guarded_has_no_condition() {
    let entry: Declared<FinishOrFunc<GuardBody, GateBody, Coerce, FinishBody>> =
        FinishOrFunc::declare_guarded(
            name("withdraw"),
            None,
            guard_list(vec![]),
            amount as Coerce,
            withdraw as FinishBody,
        );
    let pathway = entry.get().expect("present");
    assert_eq!(pathway.name, "withdraw");
    assert!(pathway.schema.is_none());
    assert!(pathway.guards().is_empty());
    assert!(pathway.compile_conditions().is_empty());
    assert!(pathway.always_usable());
    assert!(pathway.always_included());
}

#[test]
fn finish_exposed_carries_the_schema_of_its_argument() {
    let mut cache = SchemaCache::new();
    let entry: Declared<FinishOrFunc<GuardBody, GateBody, Coerce, FinishBody>> =
        FinishOrFunc::declare_web(
            &mut cache,
            name("withdraw"),
            gate_list(vec![]),
            guard_list(vec![Guard::declare(name("signed"), signed as GuardBody)]),
            amount as Coerce,
            withdraw as FinishBody,
        );
    let pathway = entry.get().expect("present");
    let schema = pathway.schema.as_ref().expect("exposed");
    assert_eq!(schema.schema.format, Some("uint64".to_string()));
    assert_eq!(cache.len(), 1);
    let again = get_schema_for::<u64>(&mut cache);
    assert!(Arc::ptr_eq(schema, &again));
    assert_eq!(pathway.name, "withdraw");
    assert_eq!(pathway.guards().len(), 1);
}

#[test]
fn two_exposed_pathways_share_one_schema() {
    let mut cache = SchemaCache::new();
    let a: Declared<FinishOrFunc<GuardBody, GateBody, Coerce, FinishBody>> =
        FinishOrFunc::declare_web(
            &mut cache,
            name("withdraw"),
            gate_list(vec![]),
            guard_list(vec![]),
            amount as Coerce,
            withdraw as FinishBody,
        );
    let b: Declared<FinishOrFunc<GuardBody, GateBody, Coerce, FinishBody>> =
        FinishOrFunc::declare_web(
            &mut cache,
            name("refund"),
            gate_list(vec![]),
            guard_list(vec![]),
            amount as Coerce,
            withdraw as FinishBody,
        );
    let a = a.get().expect("present").schema.clone().expect("exposed");
    let b = b.get().expect("present").schema.clone().expect("exposed");
    assert!(Arc::ptr_eq(&a, &b));
    assert_eq!(cache.len(), 1);
}

#[test]
fn coercion_round_trip() {
    let entry: Declared<FinishOrFunc<GuardBody, GateBody, Coerce, FinishBody>> =
        FinishOrFunc::declare_guarded(
            name("withdraw"),
            None,
            guard_list(vec![]),
            amount as Coerce,
            withdraw as FinishBody,
        );
    let pathway = entry.get().expect("present");
    let direct: u64 = 42;
    assert_eq!(pathway.coerce(Value::from(direct)), Ok(direct));
    assert_eq!(pathway.coerce(Value::from(0u64)), Ok(0));
    assert_eq!(pathway.coerce(Value::from(u64::MAX)), Ok(u64::MAX));
}

#[test]
fn coercion_failure_is_reported() {
    let entry: Declared<FinishOrFunc<GuardBody, GateBody, Coerce, FinishBody>> =
        FinishOrFunc::declare_guarded(
            name("withdraw"),
            None,
            guard_list(vec![]),
            amount as Coerce,
            withdraw as FinishBody,
        );
    let pathway = entry.get().expect("present");
    assert_eq!(
        pathway.coerce(Value::from("ten")),
        Err("not an amount: \"ten\"".to_string())
    );
    assert_eq!(
        pathway.coerce(Value::from(-1)),
        Err("not an amount: -1".to_string())
    );
    assert_eq!(
        pathway.coerce(Value::Null),
        Err("not an amount: null".to_string())
    );
}

#[test]
fn call_coerces_and_runs_the_body() {
    let entry: Declared<FinishOrFunc<GuardBody, GateBody, Coerce, FinishBody>> =
        FinishOrFunc::declare_guarded(
            name("withdraw"),
            None,
            guard_list(vec![]),
            amount as Coerce,
            withdraw as FinishBody,
        );
    let pathway = entry.get().expect("present");
    let vault = Vault { balance: 10 };
    assert_eq!(
        pathway.call(&vault, Height(0), Value::from(4u64)),
        Ok(Ok(vec![4, 6]))
    );
    assert_eq!(
        pathway.call(&vault, Height(0), Value::from(11u64)),
        Ok(Err("insufficient".to_string()))
    );
}

#[test]
fn call_does_not_run_the_body_on_a_failed_coercion() {
    fn never(_vault: &Vault, _at: Height, _amount: u64) -> Result<Vec<u64>, String> {
        panic!("the body ran")
    }
    let entry: Declared<FinishOrFunc<GuardBody, GateBody, Coerce, FinishBody>> =
        FinishOrFunc::declare_guarded(
            name("withdraw"),
            None,
            guard_list(vec![]),
            amount as Coerce,
            never as FinishBody,
        );
    let pathway = entry.get().expect("present");
    assert_eq!(
        pathway.call(&Vault { balance: 10 }, Height(0), Value::Bool(true)),
        Err("not an amount: true".to_string())
    );
}

#[test]
fn coercion_runs_once_per_call() {
    let runs = Cell::new(0u32);
    let counting = |arg: Value| -> Result<u64, String> {
        runs.set(runs.get() + 1);
        amount(arg)
    };
    let entry = FinishOrFunc::declare_guarded(
        name("withdraw"),
        None,
        guard_list(vec![]),
        counting,
        withdraw as FinishBody,
    );
    let entry: Declared<FinishOrFunc<GuardBody, GateBody, _, FinishBody>> = entry;
    let pathway = entry.get().expect("present");
    assert!(pathway.coerce(Value::Null).is_err());
    assert_eq!(runs.get(), 1);
    assert_eq!(pathway.coerce(Value::from(3u64)), Ok(3));
    assert_eq!(runs.get(), 2);
    assert!(pathway
        .call(&Vault { balance: 1 }, Height(0), Value::Null)
        .is_err());
    assert_eq!(runs.get(), 3);
}
