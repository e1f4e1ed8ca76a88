use rust_aux::context::AuxContext;
use rust_aux::errors::AuxError;
use rust_aux::synonym::RegisterOutcome;

#[test]
fn init_starts_with_empty_tables() {
    let ctx = AuxContext::init(256, 0x1000);
    assert!(!ctx.tpt_key_exists(1));
    assert!(!ctx.spt_key_exists(1));
    assert_eq!(ctx.tpt_lookup(1), Err(AuxError::NotFound));
    assert_eq!(ctx.spt_lookup(1), Err(AuxError::NotFound));
    assert!(ctx.ipt_lookup(1).is_empty());
    assert!(ctx.tpt_all_keys().is_empty());
    assert!(ctx.spt_all_keys().is_empty());
}

#[test]
fn tpt_register_then_exists_and_lookup() {
    let mut ctx = AuxContext::init(256, 0x1000);
    let key: u64 = 0xCAFE;
    let hva: u64 = 0x7F00_0000;
    assert!(!ctx.tpt_register(key, hva));
    assert!(ctx.tpt_key_exists(key));
    assert_eq!(ctx.tpt_lookup(key), Ok(hva));
}

#[test]
fn tpt_overwrite_is_reported_not_refused() {
    let mut ctx = AuxContext::init(256, 0x1000);
    assert!(!ctx.tpt_register(1, 100));
    assert!(ctx.tpt_register(1, 200));
    assert_eq!(ctx.tpt_lookup(1), Ok(200));
}

#[test]
fn synonyms_are_enumerable_before_teardown() {
    let mut ctx = AuxContext::init(256, 0x1000);
    let hva: u64 = 0xABCD_0000;
    let key_a: u64 = 0xA;
    let key_b: u64 = 0xB;
    ctx.tpt_register(key_a, hva);
    ctx.tpt_register(key_b, hva);
    assert_eq!(ctx.ipt_register(hva, key_a), Ok(RegisterOutcome::Fresh));
    assert_eq!(ctx.ipt_register(hva, key_b), Ok(RegisterOutcome::Synonym));
    // Before clearing any table, the synonym index must return both keys
    // so that eviction can invalidate them.
    let keys = ctx.ipt_lookup(hva);
    assert_eq!(keys.len(), 2);
    assert!(keys.contains(&key_a));
    assert!(keys.contains(&key_b));
}

#[test]
fn full_bind_and_evict_cycle() {
    let mut ctx = AuxContext::init(256, 0x1000);
    let key: u64 = 0x42;
    let hva: u64 = 0x5000_0000;

    // Bind: allocate a page, shadow-bind the host address, record the
    // translation and the synonym relation.
    let page = ctx.fppn_allocate().unwrap();
    assert_eq!(page, 0x1000);
    assert!(!ctx.spt_register(hva, page));
    assert!(!ctx.tpt_register(key, hva));
    assert_eq!(ctx.ipt_register(hva, key), Ok(RegisterOutcome::Fresh));
    assert_eq!(ctx.spt_lookup(hva), Ok(page));
    assert_eq!(ctx.tpt_lookup(key), Ok(hva));

    // Evict, in reverse order: unregister every synonym, drop the
    // translations, unbind, recycle.
    let keys = ctx.ipt_lookup(hva);
    assert_eq!(keys, vec![key]);
    for k in keys {
        assert_eq!(ctx.ipt_unregister(hva, k), Ok(()));
        assert_eq!(ctx.tpt_remove(k), Ok(()));
    }
    assert_eq!(ctx.spt_remove(hva), Ok(()));
    ctx.fppn_recycle(page);

    // Everything is gone, and the page is allocatable again.
    assert!(ctx.ipt_lookup(hva).is_empty());
    assert!(!ctx.tpt_key_exists(key));
    assert!(!ctx.spt_key_exists(hva));
    assert_eq!(ctx.fppn_allocate(), Ok(page));
}

#[test]
fn operations_touch_only_their_own_table() {
    let mut ctx = AuxContext::init(256, 0x1000);
    ctx.tpt_register(1, 10);
    ctx.spt_register(10, 0x1000);
    ctx.ipt_register(10, 1).unwrap();

    // Mutating one table leaves the others as they were.
    ctx.tpt_remove(1).unwrap();
    assert_eq!(ctx.spt_lookup(10), Ok(0x1000));
    assert_eq!(ctx.ipt_lookup(10), vec![1]);

    ctx.spt_remove(10).unwrap();
    assert_eq!(ctx.ipt_lookup(10), vec![1]);

    ctx.fppn_allocate().unwrap();
    assert_eq!(ctx.ipt_lookup(10), vec![1]);
}

#[test]
fn context_allocator_issues_pages_in_address_order() {
    let mut ctx = AuxContext::init(512, 0x10_0000);
    for i in 0..510u64 {
        assert_eq!(ctx.fppn_allocate(), Ok(0x10_0000 + i * 4096));
    }
    assert_eq!(ctx.fppn_allocate(), Err(AuxError::PoolExhausted));
}
