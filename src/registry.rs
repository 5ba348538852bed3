//! A generic handle-indexed arena that stores the committed parameters of one
//! resource kind.
//!
//! Freed slots are reused; every reuse bumps the slot's generation, so a handle
//! issued before a slot was freed never resolves again. A slot whose generation
//! cannot grow any further is retired instead of being reused.

use vstd::prelude::*;

use crate::handle::Handle;

verus! {

/// The largest number of slots a registry ever holds: slot indices are `u32`.
pub const MAX_SLOTS: usize = 0xffff_ffff;

struct Slot<T> {
    version: u32,
    value: Option<T>,
}

/// Handle-indexed storage of values of one kind.
pub struct Registry<T> {
    slots: Vec<Slot<T>>,
    vacant: Vec<u32>,
    live: usize,
    retired: Ghost<nat>,
    contents: Ghost<Map<Handle, T>>,
    issued: Ghost<Set<Handle>>,
}

impl<T> View for Registry<T> {
    type V = Map<Handle, T>;

    /// The live entries: each handle that currently resolves, with its value.
    closed spec fn view(&self) -> Map<Handle, T> {
        self.contents@
    }
}

/// What `create` does: `h` is a handle that was never issued before, and it now
/// resolves to `v`; nothing else changes. A vacant slot is reused when there
/// is one; otherwise a new slot is added, whose first handle has generation 0.
pub open spec fn created<T>(pre: Registry<T>, v: T, post: Registry<T>, h: Handle) -> bool {
    &&& post.wf()
    &&& !pre.issued().contains(h)
    &&& !pre@.contains_key(h)
    &&& post@ == pre@.insert(h, v)
    &&& post.issued() == pre.issued().insert(h)
    &&& pre.vacancies() > 0 ==> {
        &&& post.slot_count() == pre.slot_count()
        &&& (h.index as int) < pre.slot_count()
        &&& post.vacancies() == pre.vacancies() - 1
    }
    &&& pre.vacancies() == 0 ==> {
        &&& post.slot_count() == pre.slot_count() + 1
        &&& h.index == pre.slot_count()
        &&& h.version == 0
        &&& post.vacancies() == 0
    }
}

/// What `free` does: `h` no longer resolves; the value it resolved to, if any,
/// is handed back in `r`; nothing else changes. The slot count stays; a
/// freed slot waits for reuse unless its generation cannot grow any further,
/// in which case it is retired.
pub open spec fn freed<T>(pre: Registry<T>, h: Handle, post: Registry<T>, r: Option<T>) -> bool {
    &&& post.wf()
    &&& r == pre@.get(h)
    &&& post@ == pre@.remove(h)
    &&& post.issued() == pre.issued()
    &&& post.slot_count() == pre.slot_count()
    &&& post.vacancies() == if r is Some && h.version < u32::MAX {
        pre.vacancies() + 1
    } else {
        pre.vacancies()
    }
}

impl<T> Registry<T> {
    /// Every handle that this registry has ever handed out.
    pub closed spec fn issued(&self) -> Set<Handle> {
        self.issued@
    }

    /// The number of slots, live or vacant.
    pub closed spec fn slot_count(&self) -> nat {
        self.slots@.len()
    }

    /// The number of freed slots that wait for reuse.
    pub closed spec fn vacancies(&self) -> nat {
        self.vacant@.len()
    }

    /// No slot can be reused and no index is left to grow into.
    pub open spec fn spec_is_full(&self) -> bool {
        self.vacancies() == 0 && self.slot_count() >= MAX_SLOTS
    }

    spec fn occupied(&self, h: Handle) -> bool {
        &&& (h.index as int) < self.slots@.len()
        &&& self.slots@[h.index as int].version == h.version
        &&& self.slots@[h.index as int].value is Some
    }

    /// The registry's internal invariant.
    pub closed spec fn wf(&self) -> bool {
        &&& self.slots@.len() <= MAX_SLOTS
        &&& forall|j: int|
            0 <= j < self.vacant@.len() ==> {
                &&& (#[trigger] self.vacant@[j] as int) < self.slots@.len()
                &&& self.slots@[self.vacant@[j] as int].value is None
            }
        &&& forall|j: int, k: int|
            0 <= j < self.vacant@.len() && 0 <= k < self.vacant@.len() && j != k
                ==> #[trigger] self.vacant@[j] != #[trigger] self.vacant@[k]
        &&& forall|h: Handle| #[trigger] self.contents@.contains_key(h) <==> self.occupied(h)
        &&& forall|h: Handle| #[trigger] self.contents@.contains_key(h)
            ==> self.slots@[h.index as int].value == Some(self.contents@[h])
        &&& self.contents@.dom().finite()
        &&& self.live == self.contents@.len()
        &&& self.live + self.vacant@.len() + self.retired@ == self.slots@.len()
        &&& forall|h: Handle| #[trigger] self.contents@.contains_key(h) ==> self.issued@.contains(h)
        &&& forall|h: Handle| #[trigger] self.issued@.contains(h) ==> self.retired_or_past(h)
    }

    /// An issued handle points at an existing slot, with a generation no newer
    /// than the slot's; if it carries the slot's current generation while the
    /// slot is empty, the slot is not waiting for reuse.
    spec fn retired_or_past(&self, h: Handle) -> bool {
        &&& (h.index as int) < self.slots@.len()
        &&& h.version <= self.slots@[h.index as int].version
        &&& (h.version == self.slots@[h.index as int].version
            && self.slots@[h.index as int].value is None) ==> !self.vacant@.contains(h.index)
    }

    /// Creates an empty registry.
    pub fn new() -> (r: Registry<T>)
        ensures
            r.wf(),
            r@ == Map::<Handle, T>::empty(),
            r.issued() == Set::<Handle>::empty(),
            r.slot_count() == 0,
            r.vacancies() == 0,
    {
        Registry {
            slots: Vec::new(),
            vacant: Vec::new(),
            live: 0,
            retired: Ghost(0),
            contents: Ghost(Map::empty()),
            issued: Ghost(Set::empty()),
        }
    }

    /// The number of live entries.
    pub fn len(&self) -> (r: usize)
        requires
            self.wf(),
        ensures
            r == self@.len(),
    {
        self.live
    }

    /// Whether `create` has no slot left to hand out.
    pub fn is_full(&self) -> (r: bool)
        requires
            self.wf(),
        ensures
            r == self.spec_is_full(),
    {
        self.vacant.len() == 0 && self.slots.len() >= MAX_SLOTS
    }

    /// Whether `handle` resolves to a live entry.
    pub fn contains(&self, handle: Handle) -> (r: bool)
        requires
            self.wf(),
        ensures
            r == self@.contains_key(handle),
    {
        let i = handle.index as usize;
        if i < self.slots.len() {
            let slot = &self.slots[i];
            slot.version == handle.version && slot.value.is_some()
        } else {
            false
        }
    }

    /// The value that `handle` resolves to; `None` for an unknown or stale handle.
    pub fn get(&self, handle: Handle) -> (r: Option<&T>)
        requires
            self.wf(),
        ensures
            r.is_some() == self@.contains_key(handle),
            r.is_some() ==> *r.unwrap() == self@[handle],
    {
        let i = handle.index as usize;
        if i < self.slots.len() {
            let slot = &self.slots[i];
            if slot.version == handle.version {
                return slot.value.as_ref();
            }
        }
        None
    }

    /// Stores `value` in a reused vacant slot, or in a new slot when none is
    /// vacant, and returns the handle that now resolves to it.
    pub fn create(&mut self, value: T) -> (r: Handle)
        requires
            old(self).wf(),
            !old(self).spec_is_full(),
        ensures
            created(*old(self), value, *final(self), r),
    {
        let ghost pre = *self;
        let handle = if let Some(i) = self.vacant.pop() {
            proof {
                assert(pre.vacant@[pre.vacant@.len() - 1] == i);
            }
            let version = self.slots[i as usize].version;
            self.slots.set(i as usize, Slot { version, value: Some(value) });
            Handle { index: i, version }
        } else {
            let index = self.slots.len() as u32;
            self.slots.push(Slot { version: 0, value: Some(value) });
            Handle { index, version: 0 }
        };
        proof {
            assert(!pre.issued@.contains(handle)) by {
                if pre.issued@.contains(handle) {
                    assert(pre.retired_or_past(handle));
                    if pre.vacant@.len() > 0 {
                        assert(pre.vacant@.contains(handle.index));
                    }
                }
            }
            assert(!pre.contents@.contains_key(handle));
            self.contents@ = pre.contents@.insert(handle, value);
            self.issued@ = pre.issued@.insert(handle);
            assert forall|j: int, k: int|
                0 <= j < self.vacant@.len() && 0 <= k < self.vacant@.len() && j != k
                    implies #[trigger] self.vacant@[j] != #[trigger] self.vacant@[k] by {
                assert(self.vacant@[j] == pre.vacant@[j]);
                assert(self.vacant@[k] == pre.vacant@[k]);
            }
            assert forall|j: int| 0 <= j < self.vacant@.len() implies {
                &&& (#[trigger] self.vacant@[j] as int) < self.slots@.len()
                &&& self.slots@[self.vacant@[j] as int].value is None
            } by {
                assert(self.vacant@[j] == pre.vacant@[j]);
                if pre.vacant@.len() > 0 {
                    assert(pre.vacant@[j] != pre.vacant@[pre.vacant@.len() - 1]);
                }
            }
            assert forall|h: Handle| #[trigger] self.contents@.contains_key(h) <==> self.occupied(h) by {
                if h != handle && (h.index as int) < pre.slots@.len() && h.index == handle.index {
                    assert(!pre.occupied(h)) by {
                        if pre.vacant@.len() > 0 {
                            assert(pre.vacant@.contains(handle.index));
                        }
                    }
                }
            }
            assert forall|h: Handle| #[trigger] self.issued@.contains(h) implies self.retired_or_past(h) by {
                if h != handle {
                    assert(pre.retired_or_past(h));
                    if pre.vacant@.len() > 0 && h.index != handle.index {
                        if self.vacant@.contains(h.index) {
                            let j = choose|j: int| 0 <= j < self.vacant@.len() && self.vacant@[j] == h.index;
                            assert(pre.vacant@[j] == h.index);
                        }
                    }
                }
            }
        }
        self.live = self.live + 1;
        handle
    }

    /// Removes the entry of `handle` and hands its value back. The slot's
    /// generation moves on, so `handle` never resolves again. An unknown or
    /// stale handle leaves the registry as it is and gives `None`.
    pub fn free(&mut self, handle: Handle) -> (r: Option<T>)
        requires
            old(self).wf(),
        ensures
            freed(*old(self), handle, *final(self), r),
    {
        let ghost pre = *self;
        let i = handle.index as usize;
        if i >= self.slots.len() || self.slots[i].version != handle.version
            || self.slots[i].value.is_none() {
            proof {
                assert(!pre.contents@.contains_key(handle));
                assert(pre.contents@.remove(handle) =~= pre.contents@);
            }
            return None;
        }
        let version = handle.version;
        let next = if version < u32::MAX { version + 1 } else { version };
        let mut slot = Slot { version: next, value: None };
        std::mem::swap(&mut self.slots[i], &mut slot);
        if version < u32::MAX {
            self.vacant.push(handle.index);
        } else {
            proof {
                self.retired@ = self.retired@ + 1;
            }
        }
        proof {
            assert(pre.contents@.contains_key(handle));
            assert(!pre.vacant@.contains(handle.index));
            self.contents@ = pre.contents@.remove(handle);
            assert(self.contents@.dom() == pre.contents@.dom().remove(handle));
            assert forall|j: int, k: int|
                0 <= j < self.vacant@.len() && 0 <= k < self.vacant@.len() && j != k
                    implies #[trigger] self.vacant@[j] != #[trigger] self.vacant@[k] by {
                if j < pre.vacant@.len() && k < pre.vacant@.len() {
                    assert(self.vacant@[j] == pre.vacant@[j]);
                    assert(self.vacant@[k] == pre.vacant@[k]);
                } else if j < pre.vacant@.len() {
                    assert(self.vacant@[j] == pre.vacant@[j]);
                    assert(pre.vacant@.contains(pre.vacant@[j]));
                } else if k < pre.vacant@.len() {
                    assert(self.vacant@[k] == pre.vacant@[k]);
                    assert(pre.vacant@.contains(pre.vacant@[k]));
                }
            }
            assert forall|j: int| 0 <= j < self.vacant@.len() implies {
                &&& (#[trigger] self.vacant@[j] as int) < self.slots@.len()
                &&& self.slots@[self.vacant@[j] as int].value is None
            } by {
                if j < pre.vacant@.len() {
                    assert(self.vacant@[j] == pre.vacant@[j]);
                }
            }
            assert forall|h: Handle| #[trigger] self.contents@.contains_key(h) <==> self.occupied(h) by {
                if h.index == handle.index {
                    assert(!self.occupied(h));
                }
            }
            assert forall|h: Handle| #[trigger] self.issued@.contains(h) implies self.retired_or_past(h) by {
                assert(pre.retired_or_past(h));
                if h.index != handle.index && self.vacant@.contains(h.index) {
                    let j = choose|j: int| 0 <= j < self.vacant@.len() && self.vacant@[j] == h.index;
                    if j < pre.vacant@.len() {
                        assert(pre.vacant@[j] == h.index);
                    }
                }
            }
        }
        self.live = self.live - 1;
        slot.value
    }

    /// Replaces the value that `handle` resolves to. Returns whether `handle`
    /// was live; an unknown or stale handle leaves the registry as it is.
    pub fn set(&mut self, handle: Handle, value: T) -> (r: bool)
        requires
            old(self).wf(),
        ensures
            final(self).wf(),
            r == old(self)@.contains_key(handle),
            final(self)@ == if r { old(self)@.insert(handle, value) } else { old(self)@ },
            final(self).issued() == old(self).issued(),
            final(self).slot_count() == old(self).slot_count(),
            final(self).vacancies() == old(self).vacancies(),
            r ==> replaced(*old(self), handle, value, *final(self)),
            !r ==> *final(self) == *old(self),
    {
        let ghost pre = *self;
        let i = handle.index as usize;
        if i >= self.slots.len() || self.slots[i].version != handle.version
            || self.slots[i].value.is_none() {
            return false;
        }
        self.slots.set(i, Slot { version: handle.version, value: Some(value) });
        proof {
            self.contents@ = pre.contents@.insert(handle, value);
            assert(self.contents@.dom() == pre.contents@.dom());
            assert forall|j: int| 0 <= j < self.vacant@.len() implies {
                &&& (#[trigger] self.vacant@[j] as int) < self.slots@.len()
                &&& self.slots@[self.vacant@[j] as int].value is None
            } by {
                assert(pre.vacant@[j] != handle.index);
            }
            assert forall|h: Handle| #[trigger] self.issued@.contains(h) implies self.retired_or_past(h) by {
                assert(pre.retired_or_past(h));
            }
        }
        true
    }
}

/// Once freed, a handle resolves to nothing, and no handle that a later
/// `create` returns is equal to it, even one that reuses its slot: the
/// registry only ever adds to the handles it has issued.
pub proof fn lemma_freed_handle_never_returns<T>(
    pre: Registry<T>,
    h: Handle,
    post: Registry<T>,
    r: Option<T>,
    later: Registry<T>,
    v: T,
    after: Registry<T>,
    fresh: Handle,
)
    requires
        pre.wf(),
        pre@.contains_key(h),
        freed(pre, h, post, r),
        post.issued().subset_of(later.issued()),
        created(later, v, after, fresh),
    ensures
        r == Some(pre@[h]),
        !post@.contains_key(h),
        fresh != h,
{
    assert(pre.issued().contains(h));
}

/// Creating an entry, or freeing another handle, leaves what a live handle
/// resolves to untouched: a handle gives back the value it was last given
/// until it is itself freed.
pub proof fn lemma_other_handles_untouched<T>(
    pre: Registry<T>,
    h: Handle,
    k: Handle,
    v: T,
    post: Registry<T>,
    r: Option<T>,
)
    requires
        pre@.contains_key(h),
        created(pre, v, post, k) || (freed(pre, k, post, r) && k != h),
    ensures
        post@.contains_key(h),
        post@[h] == pre@[h],
{
}

/// A run of `create` calls, each on the registry that the previous one left,
/// hands out pairwise distinct handles, and the number of live entries grows
/// by exactly the number of calls.
pub proof fn lemma_creates_are_distinct<T>(states: Seq<Registry<T>>, values: Seq<T>, handles: Seq<Handle>)
    requires
        states.len() == handles.len() + 1,
        values.len() == handles.len(),
        states[0].wf(),
        forall|i: int| 0 <= i < handles.len() ==> created(#[trigger] states[i], values[i], states[i + 1], handles[i]),
    ensures
        forall|i: int, j: int| 0 <= i < j < handles.len() ==> handles[i] != handles[j],
        states.last()@.len() == states[0]@.len() + handles.len(),
    decreases handles.len(),
{
    let n = handles.len() as int;
    if n > 0 {
        let s = states.drop_last();
        let v = values.drop_last();
        let hs = handles.drop_last();
        assert forall|i: int| 0 <= i < hs.len() implies created(#[trigger] s[i], v[i], s[i + 1], hs[i]) by {
            assert(created(states[i], values[i], states[i + 1], handles[i]));
        }
        lemma_creates_are_distinct(s, v, hs);
        lemma_created_stay_issued(states, values, handles, n - 1);
        let last = states[n - 1];
        let h = handles[n - 1];
        assert(created(last, values[n - 1], states[n], h));
        if n > 1 {
            assert(created(states[n - 2], values[n - 2], states[n - 1], handles[n - 2]));
        }
        assert(last.wf());
        assert(last@.dom().finite());
        assert forall|i: int, j: int| 0 <= i < j < handles.len() implies handles[i] != handles[j] by {
            if j < n - 1 {
                assert(hs[i] == handles[i] && hs[j] == handles[j]);
            } else {
                assert(last.issued().contains(handles[i]));
            }
        }
        assert(states[n]@.dom() == last@.dom().insert(h));
        assert(s.last() == last);
    }
}

/// In a run of `create` calls, every handle handed out before step `k` is
/// among the handles that the registry at step `k` has issued.
proof fn lemma_created_stay_issued<T>(states: Seq<Registry<T>>, values: Seq<T>, handles: Seq<Handle>, k: int)
    requires
        states.len() == handles.len() + 1,
        values.len() == handles.len(),
        0 <= k < states.len(),
        forall|i: int| 0 <= i < handles.len() ==> created(#[trigger] states[i], values[i], states[i + 1], handles[i]),
    ensures
        forall|i: int| 0 <= i < k ==> states[k].issued().contains(#[trigger] handles[i]),
    decreases k,
{
    if k > 0 {
        lemma_created_stay_issued(states, values, handles, k - 1);
        assert(created(states[k - 1], values[k - 1], states[k], handles[k - 1]));
    }
}

/// One operation on a registry: nothing changed, a `create`, a `free`, or the
/// replacement of a live entry's value (`set`).
pub open spec fn registry_step<T>(pre: Registry<T>, post: Registry<T>) -> bool {
    ||| post == pre
    ||| exists|v: T, k: Handle| #[trigger] created(pre, v, post, k)
    ||| exists|k: Handle, r: Option<T>| #[trigger] freed(pre, k, post, r)
    ||| exists|k: Handle, v: T| replaced(pre, k, v, post)
}

/// What a successful `set` does: the live handle `k` now resolves to `v`.
pub open spec fn replaced<T>(pre: Registry<T>, k: Handle, v: T, post: Registry<T>) -> bool {
    &&& post.wf()
    &&& pre@.contains_key(k)
    &&& post@ == pre@.insert(k, v)
    &&& post.issued() == pre.issued()
}

/// A step that leaves handle `h` alone: any step but a free or a
/// replacement of `h` itself.
pub open spec fn leaves_alone<T>(pre: Registry<T>, post: Registry<T>, h: Handle) -> bool {
    ||| post == pre
    ||| exists|v: T, k: Handle| #[trigger] created(pre, v, post, k)
    ||| exists|k: Handle, r: Option<T>| k != h && #[trigger] freed(pre, k, post, r)
    ||| exists|k: Handle, v: T| k != h && #[trigger] replaced(pre, k, v, post)
}

/// Across any run of steps that leave a live handle alone, the handle keeps
/// resolving to the same value: a handle gives back what it was last given
/// until it is freed.
pub proof fn lemma_value_kept_over_run<T>(states: Seq<Registry<T>>, h: Handle)
    requires
        states.len() >= 1,
        states[0].wf(),
        states[0]@.contains_key(h),
        forall|i: int| 0 <= i < states.len() - 1 ==> leaves_alone(#[trigger] states[i], states[i + 1], h),
    ensures
        states.last().wf(),
        states.last()@.contains_key(h),
        states.last()@[h] == states[0]@[h],
    decreases states.len(),
{
    let n = states.len() as int;
    if n > 1 {
        let prefix = states.drop_last();
        assert forall|i: int| 0 <= i < prefix.len() - 1 implies leaves_alone(#[trigger] prefix[i], prefix[i + 1], h) by {
            assert(leaves_alone(states[i], states[i + 1], h));
        }
        lemma_value_kept_over_run(prefix, h);
        let pre = states[n - 2];
        let post = states[n - 1];
        assert(prefix.last() == pre);
        assert(leaves_alone(pre, post, h));
        if post == pre {
        } else if exists|v: T, k: Handle| #[trigger] created(pre, v, post, k) {
            let (v, k) = choose|v: T, k: Handle| #[trigger] created(pre, v, post, k);
            assert(k != h);
        } else if exists|k: Handle, r: Option<T>| k != h && #[trigger] freed(pre, k, post, r) {
            let (k, r) = choose|k: Handle, r: Option<T>| k != h && #[trigger] freed(pre, k, post, r);
        } else {
            let (k, v) = choose|k: Handle, v: T| k != h && #[trigger] replaced(pre, k, v, post);
        }
    }
}

/// Once a handle has been freed, no run of steps makes it resolve again:
/// every later `create` hands out a handle that was never issued, and the
/// freed one stays issued.
pub proof fn lemma_freed_stays_gone_over_run<T>(states: Seq<Registry<T>>, h: Handle)
    requires
        states.len() >= 1,
        states[0].wf(),
        states[0].issued().contains(h),
        !states[0]@.contains_key(h),
        forall|i: int| 0 <= i < states.len() - 1 ==> registry_step(#[trigger] states[i], states[i + 1]),
    ensures
        states.last().wf(),
        states.last().issued().contains(h),
        !states.last()@.contains_key(h),
    decreases states.len(),
{
    let n = states.len() as int;
    if n > 1 {
        let prefix = states.drop_last();
        assert forall|i: int| 0 <= i < prefix.len() - 1 implies registry_step(#[trigger] prefix[i], prefix[i + 1]) by {
            assert(registry_step(states[i], states[i + 1]));
        }
        lemma_freed_stays_gone_over_run(prefix, h);
        let pre = states[n - 2];
        let post = states[n - 1];
        assert(prefix.last() == pre);
        assert(registry_step(pre, post));
        if post == pre {
        } else if exists|v: T, k: Handle| #[trigger] created(pre, v, post, k) {
            let (v, k) = choose|v: T, k: Handle| #[trigger] created(pre, v, post, k);
            assert(k != h);
        } else if exists|k: Handle, r: Option<T>| #[trigger] freed(pre, k, post, r) {
            let (k, r) = choose|k: Handle, r: Option<T>| #[trigger] freed(pre, k, post, r);
        } else {
            let (k, v) = choose|k: Handle, v: T| replaced(pre, k, v, post);
            assert(k != h);
        }
    }
}

/// A well-formed registry has finitely many live entries.
pub proof fn lemma_live_entries_finite<T>(r: Registry<T>)
    requires
        r.wf(),
    ensures
        r@.dom().finite(),
{
}

} // verus!
