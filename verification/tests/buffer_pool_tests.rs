use rperf3::buffer_pool::{server_pools, BufferPool};

#[test]
fn test_buffer_pool_basic() {
    let mut pool = BufferPool::new(1024, 10);

    // Get a buffer
    let buf1 = pool.get();
    assert_eq!(buf1.len(), 1024);
    assert_eq!(pool.size(), 0);

    // Return it
    pool.put(buf1);
    assert_eq!(pool.size(), 1);

    // Get it again (should reuse)
    let buf2 = pool.get();
    assert_eq!(buf2.len(), 1024);
    assert_eq!(pool.size(), 0);
}

#[test]
fn test_buffer_pool_max_size() {
    let mut pool = BufferPool::new(1024, 3);

    // Add 5 buffers, but only 3 should be kept
    let mut buffers = Vec::new();
    for _ in 0..5 {
        buffers.push(pool.get());
    }

    // Return all buffers
    for buf in buffers {
        pool.put(buf);
    }

    assert_eq!(pool.size(), 3);
}

#[test]
fn test_buffer_pool_preallocate() {
    let mut pool = BufferPool::new(1024, 5);
    assert_eq!(pool.size(), 0);

    pool.preallocate();
    assert_eq!(pool.size(), 5);
}

#[test]
fn test_buffer_pool_wrong_size() {
    let mut pool = BufferPool::new(1024, 3);

    // Try to return a buffer of wrong size
    let wrong_buf = vec![0u8; 2048];
    pool.put(wrong_buf);

    assert_eq!(pool.size(), 0);
}

#[test]
fn test_buffer_pool_clear() {
    let mut pool = BufferPool::new(1024, 5);
    pool.preallocate();
    assert_eq!(pool.size(), 5);

    pool.clear();
    assert_eq!(pool.size(), 0);
}

#[test]
fn test_returned_buffer_is_zeroed() {
    let mut pool = BufferPool::new(8, 2);
    let mut buf = pool.get();
    buf.copy_from_slice(&[1, 2, 3, 4, 5, 6, 7, 8]);
    pool.put(buf);
    let again = pool.get();
    assert_eq!(again, vec![0u8; 8]);
}

#[test]
fn test_preallocate_tops_up() {
    let mut pool = BufferPool::new(16, 4);
    let b = pool.get();
    pool.put(b);
    pool.preallocate();
    assert_eq!(pool.size(), 4);
    pool.preallocate();
    assert_eq!(pool.size(), 4);
    for _ in 0..4 {
        assert_eq!(pool.get(), vec![0u8; 16]);
    }
    assert_eq!(pool.size(), 0);
}

#[test]
fn test_server_pools() {
    let (mut tcp, mut udp) = server_pools(4096, 3);
    assert_eq!(tcp.size(), 0);
    assert_eq!(udp.size(), 0);
    tcp.preallocate();
    udp.preallocate();
    assert_eq!(tcp.size(), 6);
    assert_eq!(udp.size(), 10);
    assert_eq!(tcp.get().len(), 4096);
    assert_eq!(udp.get().len(), 65536);
}
