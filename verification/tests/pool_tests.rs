use rust_aux::errors::AuxError;
use rust_aux::pool::PagePool;

#[test]
fn capacity_256_yields_exactly_255_pages_in_order() {
    let mut pool = PagePool::init(256, 0x1000);
    for i in 0..255u64 {
        assert_eq!(pool.allocate(), Ok(0x1000 + i * 4096));
    }
    assert_eq!(pool.allocate(), Err(AuxError::PoolExhausted));
}

#[test]
fn capacity_512_yields_exactly_510_pages() {
    let mut pool = PagePool::init(512, 0x1000);
    let mut issued: Vec<u64> = Vec::new();
    loop {
        match pool.allocate() {
            Ok(page) => {
                assert!(!issued.contains(&page), "page issued twice");
                issued.push(page);
            }
            Err(e) => {
                assert_eq!(e, AuxError::PoolExhausted);
                break;
            }
        }
    }
    assert_eq!(issued.len(), 510);
    for (i, page) in issued.iter().enumerate() {
        assert_eq!(*page, 0x1000 + (i as u64) * 4096);
    }
}

#[test]
fn capacity_below_256_yields_no_page() {
    let mut pool = PagePool::init(255, 0x1000);
    assert_eq!(pool.allocate(), Err(AuxError::PoolExhausted));
}

#[test]
fn recycled_page_is_allocatable_again_first() {
    let mut pool = PagePool::init(256, 0x8000);
    let first = pool.allocate().unwrap();
    let second = pool.allocate().unwrap();
    assert_ne!(first, second);
    pool.recycle(first);
    // The recycled page comes back before the rest of the free list.
    assert_eq!(pool.allocate(), Ok(first));
}

#[test]
fn recycle_after_exhaustion_revives_the_pool() {
    let mut pool = PagePool::init(256, 0);
    let mut last = 0;
    for _ in 0..255 {
        last = pool.allocate().unwrap();
    }
    assert_eq!(pool.allocate(), Err(AuxError::PoolExhausted));
    pool.recycle(last);
    assert_eq!(pool.allocate(), Ok(last));
    assert_eq!(pool.allocate(), Err(AuxError::PoolExhausted));
}
