//! Per-object GPU resources, kept by logical object index. The pools are
//! generic over the resource type: whoever owns the device makes the resources,
//! and the pools decide when one is made and which one a draw or a write uses.
use vstd::prelude::*;

verus! {

/// Uniform buffers, one per object, all of one size, made in one batch.
pub struct UniformPool<B> {
    label: String,
    buffers: Vec<B>,
    size: u64,
}

impl<B> UniformPool<B> {
    /// The buffers, by logical object index.
    pub closed spec fn buffers_view(&self) -> Seq<B> {
        self.buffers@
    }

    pub closed spec fn label_view(&self) -> Seq<char> {
        self.label@
    }

    /// Size in bytes of each buffer.
    pub closed spec fn buffer_size(&self) -> u64 {
        self.size
    }

    /// An empty pool whose buffers will carry `label` and be `size` bytes long.
    pub fn new(label: String, size: u64) -> (r: Self)
        ensures
            r.buffers_view() == Seq::<B>::empty(),
            r.label_view() == label@,
            r.buffer_size() == size,
    {
        UniformPool { label, buffers: Vec::new(), size }
    }

    pub fn label(&self) -> (r: &str)
        ensures
            r@ == self.label_view(),
    {
        self.label.as_str()
    }

    pub fn size(&self) -> (r: u64)
        ensures
            r == self.buffer_size(),
    {
        self.size
    }

    pub fn len(&self) -> (r: usize)
        ensures
            r == self.buffers_view().len(),
    {
        self.buffers.len()
    }

    /// Whether the pool holds fewer buffers than there are objects.
    pub fn needs_alloc(&self, count: usize) -> (r: bool)
        ensures
            r == (self.buffers_view().len() < count),
    {
        self.buffers.len() < count
    }

    /// Makes sure the pool holds a buffer for each of `count` objects: the
    /// buffers held are kept, and each missing one is made by a call of `make`
    /// with the pool's buffer size.
    pub fn alloc_buffers<F: Fn(u64) -> B>(&mut self, count: usize, make: F)
        requires
            forall|s: u64| make.requires((s,)),
        ensures
            final(self).buffers_view().len() == if old(self).buffers_view().len() < count {
                count as nat
            } else {
                old(self).buffers_view().len()
            },
            forall|i: int|
                0 <= i < old(self).buffers_view().len() ==> #[trigger] final(self).buffers_view()[i]
                    == old(self).buffers_view()[i],
            forall|i: int|
                old(self).buffers_view().len() <= i < count ==> make.ensures(
                    (old(self).buffer_size(),),
                    #[trigger] final(self).buffers_view()[i],
                ),
            final(self).label_view() == old(self).label_view(),
            final(self).buffer_size() == old(self).buffer_size(),
    {
        let ghost start = self.buffers@;
        let ghost size0 = self.size;
        let ghost label0 = self.label@;
        while self.buffers.len() < count
            invariant
                self.size == size0,
                self.label@ == label0,
                start.len() <= self.buffers@.len(),
                start.len() < count ==> self.buffers@.len() <= count,
                start.len() >= count ==> self.buffers@ == start,
                forall|s: u64| make.requires((s,)),
                forall|j: int| 0 <= j < start.len() ==> #[trigger] self.buffers@[j] == start[j],
                forall|j: int|
                    start.len() <= j < self.buffers@.len() ==> make.ensures((self.size,), #[trigger] self.buffers@[j]),
            decreases count - self.buffers@.len(),
        {
            let buffer = make(self.size);
            self.buffers.push(buffer);
        }
    }

    /// The buffer of a logical object index.
    pub fn buffer(&self, index: usize) -> (r: &B)
        requires
            index < self.buffers_view().len(),
        ensures
            *r == self.buffers_view()[index as int],
    {
        &self.buffers[index]
    }

    /// The buffer that an update of the uniforms of `index` writes to. The
    /// object's buffer must have been made first.
    pub fn update_uniform(&self, index: usize) -> (r: &B)
        requires
            index < self.buffers_view().len(),
        ensures
            *r == self.buffers_view()[index as int],
    {
        &self.buffers[index]
    }
}

/// The slots after making sure slot `index` is filled: a filled slot is kept,
/// an empty one takes `fresh`.
pub open spec fn ensured<R>(slots: Seq<Option<R>>, index: int, fresh: R) -> Seq<Option<R>> {
    if slots[index] is Some {
        slots
    } else {
        slots.update(index, Some(fresh))
    }
}

/// Making sure of the same slot twice leaves what the first time left: the
/// resources cached at the first call stay, whatever the second would have made.
pub proof fn lemma_ensure_idempotent<R>(slots: Seq<Option<R>>, index: int, first: R, second: R)
    requires
        0 <= index < slots.len(),
    ensures
        ensured(ensured(slots, index, first), index, second) == ensured(slots, index, first),
        ensured(slots, index, first)[index] is Some,
        slots[index] is Some ==> ensured(slots, index, first)[index] == slots[index],
{
}

/// Number of slots without resources.
pub open spec fn empty_slots<R>(slots: Seq<Option<R>>) -> nat
    decreases slots.len(),
{
    if slots.len() == 0 {
        0
    } else {
        empty_slots(slots.drop_last()) + if slots.last() is None { 1nat } else { 0nat }
    }
}

/// Once every slot is filled, making sure of any slot keeps the pool as it
/// is, and a pass over all slots finds none to fill.
pub proof fn lemma_filled_pool_is_fixed<R>(slots: Seq<Option<R>>)
    requires
        forall|i: int| 0 <= i < slots.len() ==> #[trigger] slots[i] is Some,
    ensures
        empty_slots(slots) == 0,
        forall|i: int, fresh: R| 0 <= i < slots.len() ==> #[trigger] ensured(slots, i, fresh) == slots,
    decreases slots.len(),
{
    if slots.len() > 0 {
        let rest = slots.drop_last();
        assert forall|i: int| 0 <= i < rest.len() implies #[trigger] rest[i] is Some by {
            assert(rest[i] == slots[i]);
        }
        lemma_filled_pool_is_fixed(rest);
        assert(slots[slots.len() - 1] is Some);
    }
}

/// Cached resources by logical object index, made once, on first use, and kept.
pub struct ObjectResourcePool<R> {
    slots: Vec<Option<R>>,
}

impl<R> View for ObjectResourcePool<R> {
    type V = Seq<Option<R>>;

    closed spec fn view(&self) -> Seq<Option<R>> {
        self.slots@
    }
}

impl<R> ObjectResourcePool<R> {
    /// A pool for `count` objects, none of them with resources yet.
    pub fn new(count: usize) -> (r: Self)
        ensures
            r@.len() == count,
            forall|i: int| 0 <= i < count ==> #[trigger] r@[i] is None,
    {
        let mut slots: Vec<Option<R>> = Vec::new();
        let mut i: usize = 0;
        while i < count
            invariant
                i <= count,
                slots@.len() == i,
                forall|j: int| 0 <= j < i ==> #[trigger] slots@[j] is None,
            decreases count - i,
        {
            slots.push(None);
            i = i + 1;
        }
        ObjectResourcePool { slots }
    }

    pub fn len(&self) -> (r: usize)
        ensures
            r == self@.len(),
    {
        self.slots.len()
    }

    /// Whether the object at `index` has its resources.
    pub fn is_cached(&self, index: usize) -> (r: bool)
        requires
            index < self@.len(),
        ensures
            r == self@[index as int] is Some,
    {
        self.slots[index].is_some()
    }

    /// Makes sure the object at `index` has its resources: where it has none,
    /// calls `make` once and caches what it returns; where it has them, keeps
    /// them and does not call `make`. Returns whether it made them.
    pub fn ensure_resources<F: FnOnce() -> R>(&mut self, index: usize, make: F) -> (created: bool)
        requires
            index < old(self)@.len(),
            make.requires(()),
        ensures
            created == old(self)@[index as int] is None,
            !created ==> final(self)@ == old(self)@,
            created ==> exists|fresh: R|
                make.ensures((), fresh) && final(self)@ == ensured(old(self)@, index as int, fresh),
    {
        if self.slots[index].is_some() {
            false
        } else {
            let fresh = make();
            self.slots.set(index, Some(fresh));
            proof {
                assert(self@ == ensured(old(self)@, index as int, fresh));
            }
            true
        }
    }

    /// Makes sure every object has its resources: each that has none gets what
    /// `make` returns for its index; those that have them keep them. Returns how
    /// many were made.
    pub fn ensure_all<F: Fn(usize) -> R>(&mut self, make: F) -> (created: usize)
        requires
            forall|i: usize| i < old(self)@.len() ==> make.requires((i,)),
        ensures
            final(self)@.len() == old(self)@.len(),
            forall|i: int| 0 <= i < old(self)@.len() ==> #[trigger] final(self)@[i] is Some,
            forall|i: int| 0 <= i < old(self)@.len() && old(self)@[i] is Some ==> #[trigger] final(self)@[i] == old(self)@[i],
            forall|i: int|
                0 <= i < old(self)@.len() && #[trigger] old(self)@[i] is None ==> make.ensures((i as usize,), final(self)@[i]->Some_0),
            created == empty_slots(old(self)@),
    {
        let mut created: usize = 0;
        let mut i: usize = 0;
        let ghost start = self@;
        while i < self.slots.len()
            invariant
                self@.len() == start.len(),
                i <= self@.len(),
                forall|j: usize| j < start.len() ==> make.requires((j,)),
                forall|j: int| 0 <= j < i ==> #[trigger] self@[j] is Some,
                forall|j: int| i <= j < start.len() ==> #[trigger] self@[j] == start[j],
                forall|j: int| 0 <= j < i && start[j] is Some ==> #[trigger] self@[j] == start[j],
                forall|j: int| 0 <= j < i && #[trigger] start[j] is None ==> make.ensures((j as usize,), self@[j]->Some_0),
                created == empty_slots(start.take(i as int)),
                created <= i,
            decreases start.len() - i,
        {
            proof {
                assert(start.take(i as int + 1).drop_last() == start.take(i as int));
            }
            if self.slots[i].is_none() {
                let fresh = make(i);
                self.slots.set(i, Some(fresh));
                created = created + 1;
            }
            i = i + 1;
        }
        proof {
            assert(start.take(start.len() as int) == start);
        }
        created
    }

    /// The resources of the object at `index`, which has them.
    pub fn resources(&self, index: usize) -> (r: &R)
        requires
            index < self@.len(),
            self@[index as int] is Some,
        ensures
            self@[index as int] == Some(*r),
    {
        self.slots[index].as_ref().unwrap()
    }
}

} // verus!
