use object_pool::counter::Counter;
use object_pool::pool::{AutoReturnObjectPool, ObjectPool, PoolBox};

#[test]
fn test_object_pool() {
    let mut pool = AutoReturnObjectPool::<Counter>::new();
    {
        let obj = pool.get();
        obj.ref_mut_item(&mut pool.pool).value = 10;
        assert_eq!(obj.ref_item(&pool.pool).value, 10);
        assert_eq!(pool.pool.len(), 1);
        obj.release(&mut pool.pool);
    }
    assert_eq!(pool.pool.available(), 1);
    assert!(pool.pool.len() > 0);
    {
        // Create 10 objects
        let mut objs = Vec::new();
        for _ in 0..10 {
            objs.push(pool.get());
        }
        assert_eq!(pool.pool.available(), 0);
        assert_eq!(pool.pool.len(), 10);
        for obj in objs {
            obj.release(&mut pool.pool);
        }
    }
    assert_eq!(pool.pool.available(), 10);
    assert_eq!(pool.pool.len(), 10);
    pool.pool.clear();
    assert_eq!(pool.pool.available(), 0);
    assert_eq!(pool.pool.len(), 0);

    let mut obj = pool.get();
    obj.ref_mut_item(&mut pool.pool).value = 20;
    assert_eq!(obj.ref_item(&pool.pool).value, 20);
    let item = obj.extract();
    assert_eq!(obj.item, None);
    assert!(item != None);
    assert!(pool.pool.item(item.unwrap()).value == 20);
}

#[test]
fn new_pool_is_empty() {
    let pool = ObjectPool::<Counter>::new();
    assert_eq!(pool.len(), 0);
    assert_eq!(pool.available(), 0);
}

#[test]
fn get_on_empty_pool_grows_by_one() {
    let mut pool = AutoReturnObjectPool::<Counter>::new();
    let obj = pool.get();
    assert_eq!(pool.pool.len(), 1);
    assert_eq!(pool.pool.available(), 0);
    obj.release(&mut pool.pool);
    assert_eq!(pool.pool.len(), 1);
    assert_eq!(pool.pool.available(), 1);
}

#[test]
fn ten_outstanding_guards_then_returned() {
    let mut pool = AutoReturnObjectPool::<Counter>::new();
    let mut objs = Vec::new();
    for _ in 0..10 {
        objs.push(pool.get());
    }
    assert_eq!(pool.pool.len(), 10);
    assert_eq!(pool.pool.available(), 0);
    for obj in objs {
        obj.release(&mut pool.pool);
    }
    assert_eq!(pool.pool.available(), 10);
    assert_eq!(pool.pool.len(), 10);
}

#[test]
fn clear_discards_everything() {
    let mut pool = AutoReturnObjectPool::<Counter>::new();
    let mut objs = Vec::new();
    for _ in 0..10 {
        objs.push(pool.get());
    }
    for obj in objs {
        obj.release(&mut pool.pool);
    }
    pool.pool.clear();
    assert_eq!(pool.pool.len(), 0);
    assert_eq!(pool.pool.available(), 0);
}

#[test]
fn extract_disarms_the_guard() {
    let mut pool = AutoReturnObjectPool::<Counter>::new();
    let mut obj = pool.get();
    obj.ref_mut_item(&mut pool.pool).value = 7;
    let item = obj.extract();
    // the guard's handle becomes the empty sentinel
    assert_eq!(obj.item, None);
    // the extracted handle still refers to the mutated instance
    let handle = item.unwrap();
    assert_eq!(pool.pool.item(handle).value, 7);
    // a disarmed guard releases nothing
    obj.release(&mut pool.pool);
    assert_eq!(pool.pool.available(), 0);
    // the caller now owns the release
    pool.pool.release(handle);
    assert_eq!(pool.pool.available(), 1);
    assert_eq!(pool.pool.item(handle).value, 0);
}

#[test]
fn release_all_reclaims_outstanding_and_free() {
    let mut pool = ObjectPool::<Counter>::new();
    // three outstanding, two already free
    let a = pool.get();
    let b = pool.get();
    let c = pool.get();
    let d = pool.get();
    let e = pool.get();
    pool.item_mut(a).value = 1;
    pool.item_mut(b).value = 2;
    pool.item_mut(c).value = 3;
    pool.release(d);
    pool.release(e);
    assert_eq!(pool.len(), 5);
    assert_eq!(pool.available(), 2);
    pool.release_all();
    assert_eq!(pool.available(), 5);
    assert_eq!(pool.len(), 5);
    // every instance is observably reset
    for h in 0..pool.len() {
        assert_eq!(pool.item(h).value, 0);
    }
}

#[test]
fn reserve_grows_len_and_available_by_count() {
    let mut pool = ObjectPool::<Counter>::new();
    pool.reserve(4);
    assert_eq!(pool.len(), 4);
    assert_eq!(pool.available(), 4);
    // regardless of prior pool state
    let h = pool.get();
    pool.reserve(3);
    assert_eq!(pool.len(), 7);
    assert_eq!(pool.available(), 6);
    pool.release(h);
    pool.reserve(0);
    assert_eq!(pool.len(), 7);
    assert_eq!(pool.available(), 7);
}

#[test]
fn every_get_and_release_moves_counts_by_one() {
    let mut pool = ObjectPool::<Counter>::new();
    pool.reserve(2);
    // get with a non-empty free list: available falls by 1, len unchanged
    let a = pool.get();
    assert_eq!(pool.available(), 1);
    assert_eq!(pool.len(), 2);
    let b = pool.get();
    assert_eq!(pool.available(), 0);
    assert_eq!(pool.len(), 2);
    // get with an empty free list: len grows by 1, available unchanged
    let c = pool.get();
    assert_eq!(pool.available(), 0);
    assert_eq!(pool.len(), 3);
    // every release raises available by exactly 1
    pool.release(a);
    assert_eq!(pool.available(), 1);
    pool.release(b);
    assert_eq!(pool.available(), 2);
    pool.release(c);
    assert_eq!(pool.available(), 3);
    assert_eq!(pool.len(), 3);
}

#[test]
fn release_then_get_round_trips_to_initial_state() {
    let mut pool = ObjectPool::<Counter>::new();
    let h = pool.get();
    pool.item_mut(h).value = 42;
    assert_eq!(pool.item(h).value, 42);
    pool.release(h);
    let h2 = pool.get();
    // the same handle comes back and the instance is in its initial state
    assert_eq!(h2, h);
    assert_eq!(pool.item(h2).value, 0);
    assert_eq!(pool.available(), 0);
}

#[test]
fn get_reuses_a_reserved_instance_without_resetting_it() {
    let mut pool = ObjectPool::<Counter>::new();
    pool.reserve(1);
    // a reserved-but-never-used instance keeps its constructed defaults
    let h = pool.get();
    assert_eq!(pool.item(h).value, 0);
    // a checkout performs no reset: mutate, release (which resets), get again,
    // mutate, release_all — reuse order is most recently freed first
    pool.item_mut(h).value = 5;
    pool.release(h);
    let h2 = pool.get();
    assert_eq!(h2, h);
    assert_eq!(pool.item(h2).value, 0);
    pool.release(h2);
}

#[test]
fn guard_new_draws_from_the_raw_pool() {
    let mut pool = ObjectPool::<Counter>::new();
    pool.reserve(2);
    let b = PoolBox::new(&mut pool);
    assert_eq!(pool.available(), 1);
    assert_eq!(pool.len(), 2);
    assert!(b.item.is_some());
    b.release(&mut pool);
    assert_eq!(pool.available(), 2);
}

#[test]
fn extract_twice_returns_none() {
    let mut pool = AutoReturnObjectPool::<Counter>::new();
    let mut obj = pool.get();
    let first = obj.extract();
    assert!(first.is_some());
    let second = obj.extract();
    assert_eq!(second, None);
    pool.pool.release(first.unwrap());
    assert_eq!(pool.pool.available(), 1);
}
