use vstd::prelude::*;

verus! {

/// The smallest instance buffer ever allocated, in instances.
pub const MIN_INSTANCE_CAPACITY: usize = 16;

/// The most instances one frame may draw: instance indices are `u32`, and the
/// buffer's capacity, a power of two, must stay representable.
pub const MAX_INSTANCES: usize = 0x8000_0000;

/// Whether `n` is a power of two.
pub open spec fn is_power_of_two(n: int) -> bool
    decreases n,
{
    if n <= 0 {
        false
    } else if n == 1 {
        true
    } else {
        n % 2 == 0 && is_power_of_two(n / 2)
    }
}

/// Whether `p` is the smallest power of two that is at least `n`.
pub open spec fn is_next_power_of_two(n: int, p: int) -> bool {
    &&& is_power_of_two(p)
    &&& n <= p
    &&& (p == 1 || p / 2 < n)
}

/// Whether `capacity` is the larger of `MIN_INSTANCE_CAPACITY` and the smallest
/// power of two that is at least `needed`.
pub open spec fn is_instance_capacity(needed: int, capacity: int) -> bool {
    &&& is_power_of_two(capacity)
    &&& needed <= capacity
    &&& MIN_INSTANCE_CAPACITY <= capacity
    &&& (capacity == MIN_INSTANCE_CAPACITY || capacity / 2 < needed)
}

/// The smallest power of two that is at least `n`.
pub fn next_power_of_two(n: usize) -> (p: usize)
    requires
        n <= MAX_INSTANCES,
    ensures
        is_next_power_of_two(n as int, p as int),
{
    let mut p: usize = 1;
    while p < n
        invariant
            n <= MAX_INSTANCES,
            1 <= p,
            is_power_of_two(p as int),
            p == 1 || p / 2 < n,
        decreases 2 * n - p,
    {
        assert(is_power_of_two((p * 2) as int)) by {
            assert((p * 2) as int / 2 == p as int);
        }
        p = p * 2;
    }
    p
}

/// The capacity of a new instance buffer that holds `needed` instances: the next
/// power of two, and never less than `MIN_INSTANCE_CAPACITY`.
pub fn instance_capacity_for(needed: usize) -> (capacity: usize)
    requires
        needed <= MAX_INSTANCES,
    ensures
        is_instance_capacity(needed as int, capacity as int),
{
    let p = next_power_of_two(needed);
    if p < MIN_INSTANCE_CAPACITY {
        assert(is_power_of_two(16)) by {
            reveal_with_fuel(is_power_of_two, 6);
        }
        MIN_INSTANCE_CAPACITY
    } else {
        p
    }
}

/// A run of consecutive instances drawn with the same bound resource.
#[derive(Clone, Copy)]
pub struct DrawBatch {
    /// What is bound for the run: an asset id or a descriptor-set handle.
    pub key: u64,
    pub first_instance: u32,
    pub instance_count: u32,
}

/// `batches` splits `keys` into its maximal runs of equal keys, in order.
pub open spec fn is_batching_of(keys: Seq<u64>, batches: Seq<DrawBatch>) -> bool {
    &&& (keys.len() == 0 <==> batches.len() == 0)
    &&& batches.len() > 0 ==> batches[0].first_instance == 0
    &&& batches.len() > 0 ==> batches.last().first_instance + batches.last().instance_count
        == keys.len()
    &&& forall|j: int|
        0 <= j < batches.len() - 1 ==> #[trigger] batches[j + 1].first_instance
            == batches[j].first_instance + batches[j].instance_count
    &&& forall|j: int| 0 <= j < batches.len() ==> #[trigger] batches[j].instance_count > 0
    &&& forall|j: int|
        0 <= j < batches.len() ==> #[trigger] batches[j].first_instance + batches[j].instance_count
            <= keys.len()
    &&& forall|j: int, i: int|
        #![trigger keys[i], batches[j]]
        0 <= j < batches.len() && batches[j].first_instance <= i < batches[j].first_instance
            + batches[j].instance_count ==> keys[i] == batches[j].key
    &&& forall|j: int| 0 <= j < batches.len() - 1 ==> #[trigger] batches[j].key != batches[j + 1].key
}

/// Groups the instances of one frame into draw calls: a new call starts wherever
/// the bound key changes.
pub fn batch_by_key(keys: &Vec<u64>) -> (batches: Vec<DrawBatch>)
    requires
        keys@.len() <= MAX_INSTANCES,
    ensures
        is_batching_of(keys@, batches@),
{
    let n = keys.len();
    let mut batches: Vec<DrawBatch> = Vec::new();
    let mut current: Option<u64> = None;
    let mut batch_start: usize = 0;
    let mut i: usize = 0;
    while i < n
        invariant
            n == keys@.len() <= MAX_INSTANCES,
            i <= n,
            batch_start <= i,
            i == 0 ==> current is None && batch_start == 0,
            i > 0 ==> current == Some(keys@[i - 1]) && batch_start < i,
            forall|k: int| batch_start <= k < i ==> keys@[k] == current->0,
            is_batching_of(keys@.take(batch_start as int), batches@),
            batches@.len() > 0 && i > 0 ==> batches@.last().key != current->0,
        decreases n - i,
    {
        let key = keys[i];
        if current != Some(key) {
            if i > batch_start {
                let ghost before = batches@;
                let batch = DrawBatch {
                    key: current.unwrap(),
                    first_instance: batch_start as u32,
                    instance_count: (i - batch_start) as u32,
                };
                batches.push(batch);
                assert(is_batching_of(keys@.take(i as int), batches@)) by {
                    let t = keys@.take(i as int);
                    assert forall|j: int, k: int|
                        #![trigger t[k], batches@[j]]
                        0 <= j < batches@.len() && batches@[j].first_instance <= k
                            < batches@[j].first_instance + batches@[j].instance_count implies t[k]
                        == batches@[j].key by {
                        if j < before.len() {
                            assert(keys@.take(batch_start as int)[k] == before[j].key);
                        } else {
                            assert(keys@[k] == current->0);
                        }
                    }
                }
            }
            current = Some(key);
            batch_start = i;
        }
        i = i + 1;
    }
    if n > batch_start {
        let ghost before = batches@;
        batches.push(
            DrawBatch {
                key: current.unwrap(),
                first_instance: batch_start as u32,
                instance_count: (n - batch_start) as u32,
            },
        );
        assert(is_batching_of(keys@, batches@)) by {
            assert forall|j: int, k: int|
                #![trigger keys@[k], batches@[j]]
                0 <= j < batches@.len() && batches@[j].first_instance <= k
                    < batches@[j].first_instance + batches@[j].instance_count implies keys@[k]
                == batches@[j].key by {
                if j < before.len() {
                    assert(keys@.take(batch_start as int)[k] == before[j].key);
                } else {
                    assert(keys@[k] == current->0);
                }
            }
        }
    } else {
        assert(keys@.take(n as int) =~= keys@);
    }
    batches
}

/// What is known of the per-instance vertex buffer of a renderer: whether one is
/// allocated, and for how many instances.
pub struct InstanceBufferState {
    capacity: usize,
    allocated: bool,
}

impl InstanceBufferState {
    pub closed spec fn capacity(&self) -> nat {
        self.capacity as nat
    }

    pub closed spec fn allocated(&self) -> bool {
        self.allocated
    }

    /// An unallocated buffer has no capacity; an allocated one holds a power of two
    /// of instances, at least `MIN_INSTANCE_CAPACITY`.
    pub open spec fn wf(&self) -> bool {
        &&& !self.allocated() ==> self.capacity() == 0
        &&& self.allocated() ==> is_power_of_two(self.capacity() as int) && MIN_INSTANCE_CAPACITY
            <= self.capacity()
    }

    /// No buffer, and no capacity.
    pub closed spec fn released() -> InstanceBufferState {
        InstanceBufferState { capacity: 0, allocated: false }
    }

    pub fn new() -> (state: Self)
        ensures
            state.wf(),
            !state.allocated(),
            state.capacity() == 0,
            state == InstanceBufferState::released(),
    {
        InstanceBufferState { capacity: 0, allocated: false }
    }

    /// Forgets the buffer, as when the GPU device is lost.
    pub fn release(&mut self)
        ensures
            final(self).wf(),
            !final(self).allocated(),
            final(self).capacity() == 0,
            *final(self) == InstanceBufferState::released(),
    {
        self.capacity = 0;
        self.allocated = false;
    }

    /// Makes room for `needed` instances: when the buffer is missing or too small,
    /// answers the capacity of the buffer to allocate in its place.
    pub fn reserve(&mut self, needed: usize) -> (new_capacity: Option<usize>)
        requires
            old(self).wf(),
            needed <= MAX_INSTANCES,
        ensures
            final(self).wf(),
            final(self).allocated(),
            needed <= final(self).capacity(),
            old(self).capacity() <= final(self).capacity(),
            (needed > old(self).capacity() || !old(self).allocated()) ==> (new_capacity matches Some(
                c,
            ) && c == final(self).capacity() && is_instance_capacity(needed as int, c as int)),
            !(needed > old(self).capacity() || !old(self).allocated()) ==> (new_capacity is None
                && *final(self) == *old(self)),
    {
        if needed > self.capacity || !self.allocated {
            let capacity = instance_capacity_for(needed);
            self.capacity = capacity;
            self.allocated = true;
            Some(capacity)
        } else {
            None
        }
    }
}

/// A frame that fits in the instance buffer reuses it: once `reserve(needed)` has
/// run, the buffer is allocated with room for `needed`, so reserving `needed`
/// again allocates nothing.
pub proof fn law_reserve_reuses_buffer(after: InstanceBufferState, needed: usize)
    requires
        after.wf(),
        after.allocated(),
        needed <= after.capacity(),
    ensures
        !(needed > after.capacity() || !after.allocated()),
{
}

/// The batches of a frame draw each of its instances exactly once: every instance
/// lies in exactly one batch.
pub proof fn law_batches_cover_each_instance_once(keys: Seq<u64>, batches: Seq<DrawBatch>, i: int)
    requires
        is_batching_of(keys, batches),
        0 <= i < keys.len(),
    ensures
        exists|j: int|
            0 <= j < batches.len() && #[trigger] batches[j].first_instance <= i < batches[j].first_instance
                + batches[j].instance_count,
        forall|j: int, k: int|
            #![trigger batches[j], batches[k]]
            0 <= j < batches.len() && 0 <= k < batches.len() && batches[j].first_instance <= i
                < batches[j].first_instance + batches[j].instance_count
                && batches[k].first_instance <= i < batches[k].first_instance
                + batches[k].instance_count ==> j == k,
{
    lemma_batch_starts_increase(keys, batches);
    lemma_instance_in_some_batch(keys, batches, i, batches.len() - 1);
}

/// Batch `j` starts where the batches before it end, and later batches start later.
proof fn lemma_batch_starts_increase(keys: Seq<u64>, batches: Seq<DrawBatch>)
    requires
        is_batching_of(keys, batches),
    ensures
        forall|j: int, k: int|
            #![trigger batches[j], batches[k]]
            0 <= j < k < batches.len() ==> batches[j].first_instance + batches[j].instance_count
                <= batches[k].first_instance,
{
    assert forall|j: int, k: int|
        #![trigger batches[j], batches[k]]
        0 <= j < k < batches.len() implies batches[j].first_instance + batches[j].instance_count
        <= batches[k].first_instance by {
        lemma_batch_start_after(keys, batches, j, k);
    }
}

proof fn lemma_batch_start_after(keys: Seq<u64>, batches: Seq<DrawBatch>, j: int, k: int)
    requires
        is_batching_of(keys, batches),
        0 <= j < k < batches.len(),
    ensures
        batches[j].first_instance + batches[j].instance_count <= batches[k].first_instance,
    decreases k - j,
{
    assert(batches[k - 1 + 1].first_instance == batches[k - 1].first_instance
        + batches[k - 1].instance_count);
    if j < k - 1 {
        lemma_batch_start_after(keys, batches, j, k - 1);
    }
}

/// An instance before the end of batch `last` lies in one of the batches up to it.
proof fn lemma_instance_in_some_batch(keys: Seq<u64>, batches: Seq<DrawBatch>, i: int, last: int)
    requires
        is_batching_of(keys, batches),
        0 <= last < batches.len(),
        0 <= i < batches[last].first_instance + batches[last].instance_count,
    ensures
        exists|j: int|
            0 <= j <= last && #[trigger] batches[j].first_instance <= i < batches[j].first_instance
                + batches[j].instance_count,
    decreases last,
{
    if batches[last].first_instance <= i {
        assert(batches[last].first_instance <= i);
    } else {
        assert(batches[last - 1 + 1].first_instance == batches[last - 1].first_instance
            + batches[last - 1].instance_count);
        lemma_instance_in_some_batch(keys, batches, i, last - 1);
    }
}

} // verus!

verus! {

/// `is_power_of_two(n)` holds exactly when `n` is 2 raised to some power.
pub proof fn law_power_of_two_is_pow2(n: int)
    ensures
        is_power_of_two(n) <==> exists|e: nat| vstd::arithmetic::power2::pow2(e) == n,
    decreases if n > 0 { n } else { 0 },
{
    if is_power_of_two(n) {
        if n == 1 {
            vstd::arithmetic::power::lemma_pow0(2);
            assert(vstd::arithmetic::power2::pow2(0) == n);
        } else {
            law_power_of_two_is_pow2(n / 2);
            let e = choose|e: nat| vstd::arithmetic::power2::pow2(e) == n / 2;
            vstd::arithmetic::power2::lemma_pow2_unfold(e + 1);
            assert(vstd::arithmetic::power2::pow2(e + 1) == n);
        }
    }
    if exists|e: nat| vstd::arithmetic::power2::pow2(e) == n {
        let e = choose|e: nat| vstd::arithmetic::power2::pow2(e) == n;
        lemma_pow2_is_power_of_two(e);
    }
}

proof fn lemma_pow2_is_power_of_two(e: nat)
    ensures
        is_power_of_two(vstd::arithmetic::power2::pow2(e) as int),
    decreases e,
{
    if e == 0 {
        vstd::arithmetic::power::lemma_pow0(2);
    } else {
        lemma_pow2_is_power_of_two((e - 1) as nat);
        vstd::arithmetic::power2::lemma_pow2_unfold(e);
        vstd::arithmetic::power2::lemma_pow2_pos((e - 1) as nat);
        let p = vstd::arithmetic::power2::pow2((e - 1) as nat) as int;
        assert((2 * p) / 2 == p && (2 * p) % 2 == 0 && 2 * p != 1);
    }
}

} // verus!
