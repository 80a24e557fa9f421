use sapio_pathways::schema::{get_schema_for, web_api, SchemaCache};
use schemars::schema::{InstanceType, RootSchema, SingleOrVec};
use std::any::TypeId;
use std::sync::Arc;

fn schema_titled(title: &str) -> Arc<RootSchema> {
    let mut schema = RootSchema::default();
    schema.schema.metadata().title = Some(title.to_string());
    Arc::new(schema)
}

fn title_of(schema: &RootSchema) -> Option<String> {
    schema.schema.metadata.as_ref().and_then(|m| m.title.clone())
}

#[test]
fn new_cache_is_empty() {
    let cache = SchemaCache::new();
    assert_eq!(cache.len(), 0);
    assert!(!cache.contains(TypeId::of::<u32>()));
    assert!(cache.lookup(TypeId::of::<u32>()).is_none());
}

#[test]
fn generator_runs_once_for_many_requests() {
    let mut cache = SchemaCache::new();
    let id = TypeId::of::<u64>();
    let mut runs = 0;
    let mut served = Vec::new();
    for _ in 0..8 {
        served.push(cache.get_or_insert_with(id, || {
            runs += 1;
            schema_titled("first")
        }));
    }
    assert_eq!(runs, 1);
    assert_eq!(cache.len(), 1);
    for schema in &served {
        assert!(Arc::ptr_eq(schema, &served[0]));
    }
}

#[test]
fn later_generator_is_ignored() {
    let mut cache = SchemaCache::new();
    let id = TypeId::of::<String>();
    let first = cache.get_or_insert_with(id, || schema_titled("first"));
    let second = cache.get_or_insert_with(id, || schema_titled("second"));
    assert_eq!(title_of(&first), Some("first".to_string()));
    assert_eq!(title_of(&second), Some("first".to_string()));
    assert!(Arc::ptr_eq(&first, &second));
}

#[test]
fn identities_are_kept_apart() {
    let mut cache = SchemaCache::new();
    let a = cache.get_or_insert_with(TypeId::of::<u8>(), || schema_titled("a"));
    let b = cache.get_or_insert_with(TypeId::of::<u16>(), || schema_titled("b"));
    assert_eq!(cache.len(), 2);
    assert!(!Arc::ptr_eq(&a, &b));
    assert_eq!(title_of(&a), Some("a".to_string()));
    assert_eq!(title_of(&b), Some("b".to_string()));
    assert!(cache.contains(TypeId::of::<u8>()));
    assert!(cache.contains(TypeId::of::<u16>()));
    assert!(!cache.contains(TypeId::of::<u32>()));
    let again = cache.get_or_insert_with(TypeId::of::<u8>(), || schema_titled("c"));
    assert!(Arc::ptr_eq(&a, &again));
    assert_eq!(cache.len(), 2);
}

#[test]
fn lookup_hands_out_the_cached_schema() {
    let mut cache = SchemaCache::new();
    let id = TypeId::of::<bool>();
    assert!(cache.lookup(id).is_none());
    let made = cache.get_or_insert_with(id, || schema_titled("flag"));
    let found = cache.lookup(id).expect("cached");
    assert!(Arc::ptr_eq(&made, &found));
    assert!(cache.lookup(TypeId::of::<char>()).is_none());
    assert_eq!(cache.len(), 1);
}

#[test]
fn handles_share_one_allocation() {
    let mut cache = SchemaCache::new();
    let id = TypeId::of::<i32>();
    let first = cache.get_or_insert_with(id, || schema_titled("shared"));
    assert_eq!(Arc::strong_count(&first), 2);
    let second = cache.get_or_insert_with(id, || schema_titled("other"));
    assert_eq!(Arc::strong_count(&first), 3);
    drop(second);
    assert_eq!(Arc::strong_count(&first), 2);
}

#[test]
fn schema_is_generated_once_and_shared() {
    let mut cache = SchemaCache::new();
    let first = get_schema_for::<u32>(&mut cache);
    let second = get_schema_for::<u32>(&mut cache);
    assert!(Arc::ptr_eq(&first, &second));
    assert_eq!(cache.len(), 1);
    assert!(cache.contains(TypeId::of::<u32>()));
}

#[test]
fn schema_describes_the_type() {
    let mut cache = SchemaCache::new();
    let number = get_schema_for::<u32>(&mut cache);
    assert_eq!(
        number.schema.instance_type,
        Some(SingleOrVec::Single(Box::new(InstanceType::Integer)))
    );
    assert_eq!(number.schema.format, Some("uint32".to_string()));
    assert_eq!(title_of(&number), Some("uint32".to_string()));
    let text = get_schema_for::<String>(&mut cache);
    assert_eq!(
        text.schema.instance_type,
        Some(SingleOrVec::Single(Box::new(InstanceType::String)))
    );
    assert_eq!(title_of(&text), Some("String".to_string()));
    assert_eq!(cache.len(), 2);
}

#[test]
fn schema_equals_a_direct_generation() {
    let mut cache = SchemaCache::new();
    let cached = get_schema_for::<Vec<bool>>(&mut cache);
    let direct = schemars::SchemaGenerator::default().into_root_schema_for::<Vec<bool>>();
    assert_eq!(*cached, direct);
}

#[test]
fn types_get_their_own_schema() {
    let mut cache = SchemaCache::new();
    let a = get_schema_for::<u32>(&mut cache);
    let b = get_schema_for::<bool>(&mut cache);
    let a_again = get_schema_for::<u32>(&mut cache);
    assert!(!Arc::ptr_eq(&a, &b));
    assert!(Arc::ptr_eq(&a, &a_again));
    assert_ne!(*a, *b);
    assert_eq!(cache.len(), 2);
}

#[test]
fn web_api_exposed_has_schema() {
    let mut cache = SchemaCache::new();
    let api = web_api::<u64>(&mut cache, true).expect("exposed");
    assert_eq!(cache.len(), 1);
    let again = get_schema_for::<u64>(&mut cache);
    assert!(Arc::ptr_eq(&api, &again));
}

#[test]
fn web_api_hidden_has_none() {
    let mut cache = SchemaCache::new();
    assert!(web_api::<u64>(&mut cache, false).is_none());
    assert_eq!(cache.len(), 0);
    assert!(!cache.contains(TypeId::of::<u64>()));
}
