//! Buffer pooling for memory reuse across send and receive operations.
//!
//! A pool keeps up to `max_pool_size` zeroed buffers of `buffer_size` bytes.
//! Buffers handed out are always zeroed and of the configured size; buffers
//! handed back are zeroed again and kept while there is room.
use vstd::prelude::*;

verus! {

/// A buffer of `n` zero bytes.
pub open spec fn zeros(n: nat) -> Seq<u8> {
    Seq::new(n, |i: int| 0u8)
}

/// Allocates a zeroed buffer of `n` bytes.
pub fn zeroed_buffer(n: usize) -> (r: Vec<u8>)
    ensures
        r@ == zeros(n as nat),
{
    let mut v: Vec<u8> = Vec::with_capacity(n);
    while v.len() < n
        invariant
            v.len() <= n,
            v@ == zeros(v.len() as nat),
        decreases n - v.len(),
    {
        v.push(0u8);
        assert(v@ =~= zeros(v.len() as nat));
    }
    v
}

/// A pool of reusable byte buffers.
pub struct BufferPool {
    pool: Vec<Vec<u8>>,
    buffer_size: usize,
    max_pool_size: usize,
}

impl View for BufferPool {
    type V = Seq<Seq<u8>>;

    /// The buffers held in the pool, from the oldest to the next one handed
    /// out.
    closed spec fn view(&self) -> Seq<Seq<u8>> {
        self.pool@.map_values(|b: Vec<u8>| b@)
    }
}

impl BufferPool {
    /// Size of each buffer in bytes.
    pub closed spec fn spec_buffer_size(&self) -> nat {
        self.buffer_size as nat
    }

    /// Maximum number of buffers kept in the pool.
    pub closed spec fn spec_max_pool_size(&self) -> nat {
        self.max_pool_size as nat
    }

    /// Every pooled buffer is zeroed and of the configured size, and the pool
    /// holds no more than its maximum.
    #[verifier::type_invariant]
    closed spec fn inv(&self) -> bool {
        &&& self.pool.len() <= self.max_pool_size
        &&& forall|i: int| 0 <= i < self.pool.len() ==> #[trigger] self.pool[i]@ == zeros(
            self.buffer_size as nat,
        )
    }

    /// The pool holds `n` buffers, each zeroed and of the configured size.
    pub open spec fn holds_zeroed(&self, n: nat) -> bool {
        self@ == Seq::new(n, |i: int| zeros(self.spec_buffer_size()))
    }

    proof fn lemma_view(&self)
        requires
            self.inv(),
        ensures
            self.holds_zeroed(self.pool.len() as nat),
            self@.len() <= self.spec_max_pool_size(),
    {
        assert(self@ =~= Seq::new(self.pool.len() as nat, |i: int| zeros(self.buffer_size as nat)));
    }

    /// Creates an empty pool for buffers of `buffer_size` bytes that keeps at
    /// most `max_pool_size` of them.
    pub fn new(buffer_size: usize, max_pool_size: usize) -> (p: Self)
        ensures
            p@ == Seq::<Seq<u8>>::empty(),
            p.spec_buffer_size() == buffer_size,
            p.spec_max_pool_size() == max_pool_size,
    {
        let p = BufferPool { pool: Vec::new(), buffer_size, max_pool_size };
        assert(p@ =~= Seq::<Seq<u8>>::empty());
        p
    }

    /// Takes a buffer from the pool, or allocates one when the pool is empty.
    /// Either way the buffer is zeroed and of the configured size.
    pub fn get(&mut self) -> (buf: Vec<u8>)
        ensures
            buf@ == zeros(old(self).spec_buffer_size()),
            final(self).spec_buffer_size() == old(self).spec_buffer_size(),
            final(self).spec_max_pool_size() == old(self).spec_max_pool_size(),
            old(self)@.len() > 0 ==> final(self)@ == old(self)@.drop_last(),
            old(self)@.len() == 0 ==> final(self)@ == old(self)@,
    {
        proof {
            use_type_invariant(&*self);
        }
        let mut pool: Vec<Vec<u8>> = Vec::new();
        std::mem::swap(&mut pool, &mut self.pool);
        let r = match pool.pop() {
            Some(b) => b,
            None => zeroed_buffer(self.buffer_size),
        };
        self.pool = pool;
        assert(old(self)@.len() > 0 ==> self@ =~= old(self)@.drop_last());
        assert(old(self)@.len() == 0 ==> self@ =~= old(self)@);
        r
    }

    /// Hands a buffer back.  It is zeroed and kept when it has the configured
    /// size and the pool is below its maximum; otherwise it is dropped.
    pub fn put(&mut self, buffer: Vec<u8>)
        ensures
            final(self).spec_buffer_size() == old(self).spec_buffer_size(),
            final(self).spec_max_pool_size() == old(self).spec_max_pool_size(),
            if buffer@.len() == old(self).spec_buffer_size() && old(self)@.len()
                < old(self).spec_max_pool_size() {
                final(self)@ == old(self)@.push(zeros(old(self).spec_buffer_size()))
            } else {
                final(self)@ == old(self)@
            },
    {
        proof {
            use_type_invariant(&*self);
        }
        if buffer.len() != self.buffer_size {
            return;
        }
        if self.pool.len() < self.max_pool_size {
            let mut buffer = buffer;
            let n = buffer.len();
            let mut i: usize = 0;
            while i < n
                invariant
                    n == buffer.len(),
                    i <= n,
                    forall|j: int| 0 <= j < i ==> buffer@[j] == 0u8,
                decreases n - i,
            {
                buffer.set(i, 0u8);
                i = i + 1;
            }
            assert(buffer@ =~= zeros(self.buffer_size as nat));
            let mut pool: Vec<Vec<u8>> = Vec::new();
            std::mem::swap(&mut pool, &mut self.pool);
            pool.push(buffer);
            self.pool = pool;
            assert(self@ =~= old(self)@.push(zeros(old(self).spec_buffer_size())));
        }
    }

    /// Fills the pool up to its maximum with newly allocated zeroed buffers.
    pub fn preallocate(&mut self)
        ensures
            final(self).spec_buffer_size() == old(self).spec_buffer_size(),
            final(self).spec_max_pool_size() == old(self).spec_max_pool_size(),
            final(self).holds_zeroed(old(self).spec_max_pool_size()),
    {
        proof {
            use_type_invariant(&*self);
        }
        let mut pool: Vec<Vec<u8>> = Vec::new();
        std::mem::swap(&mut pool, &mut self.pool);
        while pool.len() < self.max_pool_size
            invariant
                pool.len() <= self.max_pool_size,
                forall|i: int| 0 <= i < pool.len() ==> #[trigger] pool[i]@ == zeros(
                    self.buffer_size as nat,
                ),
                self.buffer_size == old(self).buffer_size,
                self.max_pool_size == old(self).max_pool_size,
            decreases self.max_pool_size - pool.len(),
        {
            let b = zeroed_buffer(self.buffer_size);
            pool.push(b);
        }
        self.pool = pool;
        proof {
            self.lemma_view();
        }
    }

    /// The number of buffers in the pool.  Every one of them is zeroed and of
    /// the configured size, and there are never more than the maximum.
    pub fn size(&self) -> (n: usize)
        ensures
            n == self@.len(),
            self.holds_zeroed(n as nat),
            n <= self.spec_max_pool_size(),
    {
        proof {
            use_type_invariant(self);
            self.lemma_view();
        }
        self.pool.len()
    }

    /// Drops every buffer in the pool.
    pub fn clear(&mut self)
        ensures
            final(self)@ == Seq::<Seq<u8>>::empty(),
            final(self).spec_buffer_size() == old(self).spec_buffer_size(),
            final(self).spec_max_pool_size() == old(self).spec_max_pool_size(),
    {
        self.pool = Vec::new();
        assert(self@ =~= Seq::<Seq<u8>>::empty());
    }
}

/// Handing a buffer back and taking one out again is no change: when `put`
/// keeps the buffer, the next `get` takes it out again (zeroed, of the
/// pool's size) and leaves the pool as it was before the `put`.
pub proof fn lemma_put_then_get(pool: Seq<Seq<u8>>, buffer_size: nat)
    ensures
        pool.push(zeros(buffer_size)).len() > 0,
        pool.push(zeros(buffer_size)).drop_last() == pool,
        pool.push(zeros(buffer_size)).last() == zeros(buffer_size),
{
    assert(pool.push(zeros(buffer_size)).drop_last() =~= pool);
}

/// Size of the buffers in the server's UDP pool: the largest UDP datagram.
pub const UDP_POOL_BUFFER_SIZE: usize = 65536;

/// How many buffers the server's UDP pool keeps.
pub const UDP_POOL_CAPACITY: usize = 10;

/// The server's buffer pools, `(tcp, udp)`: the TCP pool keeps up to two
/// buffers of the test's buffer size per parallel stream (one to send, one
/// to receive); the UDP pool keeps datagram-sized buffers.
pub fn server_pools(buffer_size: usize, parallel: usize) -> (r: (BufferPool, BufferPool))
    requires
        parallel * 2 <= usize::MAX,
    ensures
        r.0@ == Seq::<Seq<u8>>::empty(),
        r.0.spec_buffer_size() == buffer_size,
        r.0.spec_max_pool_size() == parallel * 2,
        r.1@ == Seq::<Seq<u8>>::empty(),
        r.1.spec_buffer_size() == UDP_POOL_BUFFER_SIZE,
        r.1.spec_max_pool_size() == UDP_POOL_CAPACITY,
{
    let tcp = BufferPool::new(buffer_size, parallel * 2);
    let udp = BufferPool::new(UDP_POOL_BUFFER_SIZE, UDP_POOL_CAPACITY);
    (tcp, udp)
}

} // verus!
