use vstd::prelude::*;

use crate::error::GpuError;

verus! {

/// What a command buffer manager tracks: how many buffers each pool holds and
/// how many of them each pool has handed out since its last reset.
pub struct CommandBufferUsage {
    pub buffers_per_pool: nat,
    pub used: Seq<nat>,
}

impl CommandBufferUsage {
    pub open spec fn wf(self) -> bool {
        forall|p: int| 0 <= p < self.used.len() ==> #[trigger] self.used[p] <= self.buffers_per_pool
    }
}

/// One call that asks `pool` for a command buffer: the next unused buffer of
/// the pool, numbered pool by pool, or `None` once the pool's quota is spent.
pub open spec fn acquire_step(u: CommandBufferUsage, pool: nat) -> (CommandBufferUsage, Option<nat>) {
    if u.used[pool as int] >= u.buffers_per_pool {
        (u, None)
    } else {
        (
            CommandBufferUsage {
                buffers_per_pool: u.buffers_per_pool,
                used: u.used.update(pool as int, u.used[pool as int] + 1),
            },
            Some(pool * u.buffers_per_pool + u.used[pool as int]),
        )
    }
}

/// The usage after `n` calls that ask `pool` for a command buffer.
pub open spec fn acquire_calls(u: CommandBufferUsage, pool: nat, n: nat) -> CommandBufferUsage
    decreases n,
{
    if n == 0 {
        u
    } else {
        acquire_step(acquire_calls(u, pool, (n - 1) as nat), pool).0
    }
}

/// A command buffer handed out by a `CommandBufferManager`, named by its
/// number among all the manager's buffers.
#[derive(Debug, Clone, Copy, PartialEq, Eq, Structural)]
pub struct CommandBuffer {
    pub index: usize,
}

/// Whether `pool` is one of `pools`.
pub open spec fn names_pool(pools: Seq<usize>, pool: int) -> bool {
    exists|j: int| 0 <= j < pools.len() && pools[j] as int == pool
}

/// Hands out the command buffers of a fixed set of pools, one pool per frame
/// in flight. All buffers are allocated once; a pool is recycled as a whole by
/// a reset. Buffers are numbered pool by pool: buffer `i` of pool `p` is
/// `p * buffers_per_pool + i`.
pub struct CommandBufferManager {
    num_command_buffers_per_pool: u32,
    num_used_command_buffers_per_pool: Vec<u32>,
}

impl View for CommandBufferManager {
    type V = CommandBufferUsage;

    closed spec fn view(&self) -> CommandBufferUsage {
        CommandBufferUsage {
            buffers_per_pool: self.num_command_buffers_per_pool as nat,
            used: self.num_used_command_buffers_per_pool@.map_values(|n: u32| n as nat),
        }
    }
}

impl CommandBufferManager {
    /// The manager's usage is consistent and every buffer number fits `usize`.
    pub closed spec fn wf(&self) -> bool {
        &&& self@.wf()
        &&& self.num_used_command_buffers_per_pool@.len() * (self.num_command_buffers_per_pool as nat)
            <= usize::MAX
    }

    /// A manager of `num_command_pools` pools with `num_command_buffers_per_pool`
    /// buffers each, none of them handed out.
    pub fn new(num_command_pools: usize, num_command_buffers_per_pool: u32) -> (r: CommandBufferManager)
        requires
            num_command_pools * num_command_buffers_per_pool <= usize::MAX,
        ensures
            r.wf(),
            r@.buffers_per_pool == num_command_buffers_per_pool,
            r@.used == Seq::new(num_command_pools as nat, |p: int| 0nat),
    {
        let mut used: Vec<u32> = Vec::new();
        let mut i: usize = 0;
        while i < num_command_pools
            invariant
                i <= num_command_pools,
                used@.len() == i,
                forall|p: int| 0 <= p < i ==> #[trigger] used@[p] == 0,
            decreases num_command_pools - i,
        {
            used.push(0);
            i = i + 1;
        }
        let r = CommandBufferManager {
            num_command_buffers_per_pool,
            num_used_command_buffers_per_pool: used,
        };
        assert(r@.used =~= Seq::new(num_command_pools as nat, |p: int| 0nat));
        r
    }

    pub fn num_command_pools(&self) -> (r: usize)
        ensures
            r == self@.used.len(),
    {
        self.num_used_command_buffers_per_pool.len()
    }

    pub fn num_command_buffers_per_pool(&self) -> (r: u32)
        ensures
            r == self@.buffers_per_pool,
    {
        self.num_command_buffers_per_pool
    }

    /// Recycles the named pools: every buffer they handed out becomes invalid
    /// and their usage returns to zero. The caller guarantees that no GPU work
    /// that uses these pools is still outstanding.
    pub fn reset_command_pools(&mut self, pool_indices: &[usize])
        requires
            old(self).wf(),
            forall|k: int| 0 <= k < pool_indices@.len() ==> #[trigger] pool_indices@[k] < old(self)@.used.len(),
        ensures
            final(self).wf(),
            final(self)@.buffers_per_pool == old(self)@.buffers_per_pool,
            final(self)@.used.len() == old(self)@.used.len(),
            forall|p: int| 0 <= p < old(self)@.used.len() ==> #[trigger] final(self)@.used[p] == if names_pool(pool_indices@, p) {
                0
            } else {
                old(self)@.used[p]
            },
    {
        let ghost before = self.num_used_command_buffers_per_pool@;
        let mut k: usize = 0;
        while k < pool_indices.len()
            invariant
                k <= pool_indices@.len(),
                self.num_command_buffers_per_pool == old(self).num_command_buffers_per_pool,
                before == old(self).num_used_command_buffers_per_pool@,
                self.num_used_command_buffers_per_pool@.len() == before.len(),
                forall|k2: int| 0 <= k2 < pool_indices@.len() ==> #[trigger] pool_indices@[k2] < before.len(),
                forall|p: int| 0 <= p < before.len() ==> #[trigger] self.num_used_command_buffers_per_pool@[p] == if names_pool(pool_indices@.subrange(0, k as int), p) {
                    0
                } else {
                    before[p]
                },
            decreases pool_indices@.len() - k,
        {
            let pool_index = pool_indices[k];
            self.num_used_command_buffers_per_pool.set(pool_index, 0);
            proof {
                let prefix = pool_indices@.subrange(0, k as int);
                let longer = pool_indices@.subrange(0, k + 1);
                assert forall|p: int| 0 <= p < before.len() implies
                    #[trigger] names_pool(longer, p) == (names_pool(prefix, p) || p == pool_index) by {
                    if names_pool(longer, p) {
                        let j = choose|j: int| 0 <= j < longer.len() && longer[j] as int == p;
                        if j < prefix.len() {
                            assert(prefix[j] as int == p);
                        }
                    }
                    if names_pool(prefix, p) {
                        let j = choose|j: int| 0 <= j < prefix.len() && prefix[j] as int == p;
                        assert(longer[j] as int == p);
                    }
                    if p == pool_index {
                        assert(longer[k as int] as int == p);
                    }
                }
            }
            k = k + 1;
        }
        assert(pool_indices@.subrange(0, pool_indices@.len() as int) =~= pool_indices@);
        proof {
            let v = self@;
            assert forall|p: int| 0 <= p < v.used.len() implies #[trigger] v.used[p] <= v.buffers_per_pool by {
                assert(old(self)@.used[p] <= old(self)@.buffers_per_pool);
            }
        }
    }

    /// Hands out the next unused command buffer of `pool_index` for this cycle.
    /// Fails once the pool's quota is spent, which means that a frame asked for
    /// more command buffers than were provisioned.
    pub fn get_command_buffer_at_pool(&mut self, pool_index: usize) -> (r: Result<CommandBuffer, GpuError>)
        requires
            old(self).wf(),
            pool_index < old(self)@.used.len(),
        ensures
            final(self).wf(),
            final(self)@ == acquire_step(old(self)@, pool_index as nat).0,
            match acquire_step(old(self)@, pool_index as nat).1 {
                Some(b) => r == Ok::<CommandBuffer, GpuError>(CommandBuffer { index: b as usize }),
                None => r == Err::<CommandBuffer, GpuError>(GpuError::CommandBuffersExhausted),
            },
    {
        let num_used_buffers = self.num_used_command_buffers_per_pool[pool_index];
        if num_used_buffers >= self.num_command_buffers_per_pool {
            return Err(GpuError::CommandBuffersExhausted);
        }
        self.num_used_command_buffers_per_pool.set(pool_index, num_used_buffers + 1);
        proof {
            assert(self@.used =~= old(self)@.used.update(pool_index as int, old(self)@.used[pool_index as int] + 1));
            let n = self.num_used_command_buffers_per_pool@.len();
            let per = self.num_command_buffers_per_pool as nat;
            assert(pool_index * per + per <= n * per) by (nonlinear_arith)
                requires pool_index < n;
        }
        let index = pool_index * (self.num_command_buffers_per_pool as usize) + num_used_buffers as usize;
        Ok(CommandBuffer { index })
    }

    /// Whether buffer `index` was handed out by `pool_index` in the current
    /// cycle, so that its recording is still valid.
    pub fn is_issued(&self, pool_index: usize, index: usize) -> (r: bool)
        requires
            self.wf(),
            pool_index < self@.used.len(),
        ensures
            r == (pool_index * self@.buffers_per_pool <= index
                && index < pool_index * self@.buffers_per_pool + self@.used[pool_index as int]),
    {
        let per = self.num_command_buffers_per_pool as usize;
        proof {
            let n = self.num_used_command_buffers_per_pool@.len();
            let p = per as nat;
            assert(pool_index * p + p <= n * p) by (nonlinear_arith)
                requires pool_index < n;
        }
        let first = pool_index * per;
        first <= index && index - first < self.num_used_command_buffers_per_pool[pool_index] as usize
    }
}

/// After a reset, a pool hands out exactly `buffers_per_pool` command buffers
/// in order, and every further request in the same cycle fails.
pub proof fn lemma_pool_quota(u: CommandBufferUsage, pool: nat, n: nat)
    requires
        u.wf(),
        pool < u.used.len(),
        u.used[pool as int] == 0,
    ensures
        acquire_calls(u, pool, n).wf(),
        acquire_calls(u, pool, n).used.len() == u.used.len(),
        acquire_calls(u, pool, n).buffers_per_pool == u.buffers_per_pool,
        acquire_calls(u, pool, n).used[pool as int] == if n < u.buffers_per_pool { n } else { u.buffers_per_pool },
        n < u.buffers_per_pool ==> acquire_step(acquire_calls(u, pool, n), pool).1 == Some(pool * u.buffers_per_pool + n),
        n >= u.buffers_per_pool ==> acquire_step(acquire_calls(u, pool, n), pool).1 is None,
    decreases n,
{
    if n > 0 {
        lemma_pool_quota(u, pool, (n - 1) as nat);
        let prev = acquire_calls(u, pool, (n - 1) as nat);
        let next = acquire_calls(u, pool, n);
        assert forall|p: int| 0 <= p < next.used.len() implies #[trigger] next.used[p] <= next.buffers_per_pool by {
            assert(prev.used[p] <= prev.buffers_per_pool);
        }
    }
}

} // verus!
