use anyplug::pool::{
    UrbBufferPool, DEFAULT_BULK_CAPACITY, DEFAULT_INTERRUPT_CAPACITY, DEFAULT_MIN_POOL_SIZE,
};

#[test]
fn test_new_pool_has_min_size_buffers() {
    let pool = UrbBufferPool::new(64, 128);
    assert_eq!(pool.available(), 128, "pool should be pre-filled");
    assert!(pool.capacity() >= 128);
}

#[test]
fn test_new_pool_respects_data_capacity() {
    let pool = UrbBufferPool::new(4096, 16);
    let buf = pool.acquire();
    assert_eq!(buf.data_capacity(), 4096);
}

#[test]
fn test_new_bulk_uses_16k_capacity() {
    let pool = UrbBufferPool::new_bulk(8);
    let buf = pool.acquire();
    assert_eq!(buf.data_capacity(), DEFAULT_BULK_CAPACITY);
}

#[test]
fn test_new_interrupt_uses_64b_capacity() {
    let pool = UrbBufferPool::new_interrupt(8);
    let buf = pool.acquire();
    assert_eq!(buf.data_capacity(), DEFAULT_INTERRUPT_CAPACITY);
}

#[test]
fn test_acquire_returns_buffer() {
    let pool = UrbBufferPool::new(64, 16);
    let buf = pool.acquire();
    assert!(buf.data_capacity() >= 64);
}

#[test]
fn test_acquire_decreases_available() {
    let pool = UrbBufferPool::new(64, 32);
    let before = pool.available();
    let _buf = pool.acquire();
    assert_eq!(pool.available(), before - 1);
}

#[test]
fn test_acquire_multiple_buffers() {
    let pool = UrbBufferPool::new(64, 1024);
    let mut bufs = Vec::new();
    for _ in 0..1024 {
        bufs.push(pool.acquire());
    }
    assert_eq!(pool.available(), 0, "all buffers acquired");
    let _extra = pool.acquire();
}

#[test]
fn test_reset_clears_buffer() {
    let pool = UrbBufferPool::new(64, 8);
    let mut buf = pool.acquire();
    buf.as_mut_slice()[0] = 0xFF;
    buf.as_mut_slice()[10] = 0xAB;
    buf.reset();
    assert_eq!(buf.as_slice()[0], 0);
    assert_eq!(buf.as_slice()[10], 0);
}

#[test]
fn test_pool_exhaustion_allocates_fresh() {
    let pool = UrbBufferPool::new(64, 4);
    let mut bufs = Vec::new();
    for _ in 0..4 {
        bufs.push(pool.acquire());
    }
    assert_eq!(pool.available(), 0);
    let extra = pool.acquire();
    assert_eq!(extra.data_capacity(), 64);
}

#[test]
fn test_min_size_is_honored() {
    let pool = UrbBufferPool::new(128, 1024);
    assert_eq!(pool.available(), 1024);
    assert!(pool.capacity() >= 1024);
}

#[test]
fn test_default_min_pool_size_constant() {
    assert_eq!(DEFAULT_MIN_POOL_SIZE, 1024);
}

#[test]
fn dropped_buffers_return_and_come_back_zeroed() {
    let pool = UrbBufferPool::new(16, 1);
    {
        let mut b = pool.acquire();
        assert_eq!(pool.available(), 0);
        b.as_mut_slice()[0] = 9;
    }
    assert_eq!(pool.available(), 1);
    let b = pool.acquire();
    assert!(b.as_slice().iter().all(|&x| x == 0));
    assert_eq!(b.data_offset(), 56);
    let taken = b.take();
    assert_eq!(taken.buf.len(), 56 + 16);
    assert_eq!(pool.available(), 0, "a taken buffer does not return");
}

#[test]
fn pool_sizes() {
    let pool = UrbBufferPool::new(8, 2);
    assert_eq!(pool.capacity(), 4096);
    assert_eq!(UrbBufferPool::new(8, 2000).capacity(), 8000);
    assert_eq!(pool.desired_size(0), 2);
    assert_eq!(pool.desired_size(100), 100);
    assert_eq!(pool.desired_size(1_000_000), 4096);
    pool.grow_to(10);
    assert_eq!(pool.available(), 10);
    pool.grow_to(5);
    assert_eq!(pool.available(), 10);
}
