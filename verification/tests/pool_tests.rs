//! Pool-level behaviour: allocation order, overflow, destroy idempotence,
//! wiping and the closure-driven editing surface.

use ecs::pool::{Pool, PoolError, PoolTestType};
use ecs::types::Entity;

#[test]
fn pool_hands_out_ascending_pointers() {
    let mut pool: Pool<PoolTestType> = Pool::new(3);
    assert_eq!(pool.size(), 3);
    assert_eq!(pool.spawn(), Ok(0));
    assert_eq!(pool.spawn(), Ok(1));
    assert_eq!(pool.spawn(), Ok(2));
}

#[test]
fn pool_overflow_on_capacity_two() {
    let mut pool: Pool<PoolTestType> = Pool::new(2);
    assert!(pool.spawn().is_ok());
    assert!(pool.spawn().is_ok());
    assert_eq!(pool.spawn(), Err(PoolError::Overflow));
}

#[test]
fn pool_destroy_frees_and_is_idempotent() {
    let mut pool: Pool<PoolTestType> = Pool::new(2);
    let a = pool.spawn().unwrap();
    let b = pool.spawn().unwrap();
    assert!(pool.is_spawned(&a));
    assert!(pool.is_spawned(&b));
    pool.destroy(&a);
    assert!(!pool.is_spawned(&a));
    // destroying an inactive pointer changes nothing
    pool.destroy(&a);
    assert!(!pool.is_spawned(&a));
    assert!(pool.is_spawned(&b));
    // the freed slot is handed out again; no duplicate was pushed
    assert_eq!(pool.spawn(), Ok(a));
    assert_eq!(pool.spawn(), Err(PoolError::Overflow));
}

#[test]
fn pool_spawn_resets_slot() {
    let mut pool: Pool<PoolTestType> = Pool::new(1);
    let p = pool.spawn().unwrap();
    pool.edit(&p, |value| {
        let mut fresh = value.duplicate();
        fresh.set("john-doe");
        fresh
    });
    pool.destroy(&p);
    let again = pool.spawn().unwrap();
    assert_eq!(again, p);
    pool.edit(&again, |value| {
        assert_eq!(value.get(), "");
        value.duplicate()
    });
}

#[test]
fn pool_wipe_resets_any_slot() {
    let mut pool: Pool<PoolTestType> = Pool::new(2);
    let p = pool.spawn().unwrap();
    pool.edit(&p, |value| {
        let mut fresh = value.duplicate();
        fresh.set("busy");
        fresh
    });
    pool.destroy(&p);
    // the slot still holds stale data until wiped
    pool.edit(&p, |value| {
        assert_eq!(value.get(), "busy");
        value.duplicate()
    });
    pool.wipe(&p);
    pool.edit(&p, |value| {
        assert_eq!(value.get(), "");
        value.duplicate()
    });
}

#[test]
fn pool_edit_all_touches_only_active_slots() {
    let mut pool: Pool<PoolTestType> = Pool::new(3);
    let a = pool.spawn().unwrap();
    let b = pool.spawn().unwrap();
    pool.edit_all(|value| {
        let mut fresh = value.duplicate();
        fresh.set("john-doe");
        fresh
    });
    pool.edit(&a, |value| {
        assert_eq!(value.get(), "john-doe");
        value.duplicate()
    });
    pool.edit(&b, |value| {
        assert_eq!(value.get(), "john-doe");
        value.duplicate()
    });
    // the never-spawned slot keeps its default value
    pool.edit(&2, |value| {
        assert_eq!(value.get(), "");
        value.duplicate()
    });
}

#[test]
fn pool_find_scans_slots_in_order() {
    let mut pool: Pool<PoolTestType> = Pool::new(3);
    let a = pool.spawn().unwrap();
    assert!(pool.find(|value| value.get() == "john-doe").is_none());
    pool.edit(&a, |value| {
        let mut fresh = value.duplicate();
        fresh.set("john-doe");
        fresh
    });
    assert_eq!(pool.find(|value| value.get() == "john-doe"), Some(a));
}

#[test]
fn pool_test_type_set_and_get() {
    let mut value = PoolTestType::base();
    assert_eq!(value.get(), "");
    value.set("hello");
    assert_eq!(value.get(), "hello");
    let copy = value.duplicate();
    assert_eq!(copy.get(), "hello");
}
