//! A minimal index-keyed store with a free list.
//!
//! Every shared kernel object (an open file description, a pipe) lives in one of these and is
//! referred to by index. That is what keeps the kernel free of shared ownership: sharing is an
//! index plus a reference count, exactly as a real kernel does it.
use vstd::prelude::*;

verus! {

/// A slot index into a [`Slab`].
pub type Key = u32;

/// A store of values, each under a key that is handed out again once its value is gone.
pub struct Slab<T> {
    slots: Vec<Option<T>>,
    free: Vec<Key>,
}

/// What a [`Slab`] holds: a value or a hole under each key handed out so far, and the holes in
/// the order they were made. The youngest hole is filled first.
#[verifier::ext_equal]
pub struct SlabView<T> {
    pub slots: Seq<Option<T>>,
    pub free: Seq<Key>,
}

impl<T> SlabView<T> {
    /// A store nothing was ever put into.
    pub open spec fn empty() -> SlabView<T> {
        SlabView { slots: Seq::empty(), free: Seq::empty() }
    }

    /// The free list names every hole, and each of them once.
    pub open spec fn wf(self) -> bool {
        &&& self.slots.len() <= u32::MAX
        &&& self.free.no_duplicates()
        &&& forall|i: int| 0 <= i < self.free.len() ==> (#[trigger] self.free[i]) < self.slots.len()
            && self.slots[self.free[i] as int] is None
        &&& forall|k: int| 0 <= k < self.slots.len() && (#[trigger] self.slots[k]) is None
            ==> self.free.contains(k as u32)
    }

    /// The value under a key.
    pub open spec fn get(self, k: Key) -> Option<T> {
        if k < self.slots.len() {
            self.slots[k as int]
        } else {
            None
        }
    }

    pub open spec fn contains(self, k: Key) -> bool {
        self.get(k) is Some
    }

    /// The keys with a value under them.
    pub open spec fn keys(self) -> Set<int> {
        Set::range(0, self.slots.len() as int).filter(|k: int| self.slots[k] is Some)
    }

    /// Whether a value can be stored when at most `cap` keys may ever be handed out.
    pub open spec fn has_room(self, cap: usize) -> bool {
        self.free.len() > 0 || (self.slots.len() < cap && self.slots.len() < u32::MAX)
    }

    /// Whether `n` values can be stored, one after another.
    pub open spec fn has_rooms(self, n: int, cap: usize) -> bool {
        let most = if cap < u32::MAX {
            cap as int
        } else {
            u32::MAX as int
        };
        self.free.len() >= n || self.slots.len() + n - self.free.len() <= most
    }

    /// The key the next value goes under.
    pub open spec fn next_key(self) -> Key {
        if self.free.len() > 0 {
            self.free.last()
        } else {
            self.slots.len() as u32
        }
    }

    /// With `value` stored under the next key.
    pub open spec fn insert(self, value: T) -> SlabView<T> {
        if self.free.len() > 0 {
            SlabView {
                slots: self.slots.update(self.free.last() as int, Some(value)),
                free: self.free.drop_last(),
            }
        } else {
            SlabView { slots: self.slots.push(Some(value)), free: self.free }
        }
    }

    /// With the value under `k` replaced.
    pub open spec fn set(self, k: Key, value: T) -> SlabView<T> {
        SlabView { slots: self.slots.update(k as int, Some(value)), free: self.free }
    }

    /// Without the value under `k`.
    pub open spec fn remove(self, k: Key) -> SlabView<T> {
        if self.contains(k) {
            SlabView { slots: self.slots.update(k as int, None), free: self.free.push(k) }
        } else {
            self
        }
    }
}

/// The model of one slot.
pub open spec fn slot_view<T: View>(slot: Option<T>) -> Option<T::V> {
    match slot {
        Some(value) => Some(value@),
        None => None,
    }
}

impl<T: View> View for Slab<T> {
    type V = SlabView<T::V>;

    closed spec fn view(&self) -> SlabView<T::V> {
        SlabView { slots: self.slots@.map_values(|s: Option<T>| slot_view(s)), free: self.free@ }
    }
}

impl<T: View> Slab<T> {
    pub fn new() -> (r: Self)
        ensures
            r@ == SlabView::<T::V>::empty(),
            r@.wf(),
    {
        let r = Slab { slots: Vec::new(), free: Vec::new() };
        proof {
            assert(r@ =~= SlabView::<T::V>::empty());
        }
        r
    }

    /// Whether `n` values can be stored, one after another.
    pub fn rooms(&self, n: usize, cap: usize) -> (r: bool)
        ensures
            r == self@.has_rooms(n as int, cap),
    {
        let most: usize = if cap < Key::MAX as usize {
            cap
        } else {
            Key::MAX as usize
        };
        let free: usize = self.free.len();
        let used: usize = self.slots.len();
        free >= n || (used <= most && n - free <= most - used)
    }

    /// Store `value`, returning its key. `None` if the slab is at `cap`.
    pub fn insert(&mut self, value: T, cap: usize) -> (r: Option<Key>)
        requires
            old(self)@.wf(),
        ensures
            final(self)@.wf(),
            match r {
                Some(k) => {
                    &&& old(self)@.has_room(cap)
                    &&& k == old(self)@.next_key()
                    &&& !old(self)@.contains(k)
                    &&& final(self)@ == old(self)@.insert(value@)
                    &&& final(self)@.get(k) == Some(value@)
                },
                None => !old(self)@.has_room(cap) && final(self)@ == old(self)@,
            },
    {
        let ghost before = self@;
        if self.free.len() > 0 {
            let k: Key = self.free[self.free.len() - 1];
            assert(before.free[before.free.len() - 1] == k);
            self.free.pop();
            self.slots[k as usize] = Some(value);
            proof {
                lemma_insert_wf(before, value@);
                assert(self@ =~= before.insert(value@));
            }
            return Some(k);
        }
        if self.slots.len() >= cap || self.slots.len() >= Key::MAX as usize {
            return None;
        }
        let k: Key = self.slots.len() as Key;
        self.slots.push(Some(value));
        proof {
            lemma_insert_wf(before, value@);
            assert(self@ =~= before.insert(value@));
        }
        Some(k)
    }

    pub fn get(&self, k: Key) -> (r: Option<&T>)
        ensures
            match r {
                Some(value) => self@.get(k) == Some(value@),
                None => self@.get(k) is None,
            },
    {
        if (k as usize) < self.slots.len() {
            match &self.slots[k as usize] {
                Some(value) => Some(value),
                None => None,
            }
        } else {
            None
        }
    }

    pub fn get_mut(&mut self, k: Key) -> (r: Option<&mut T>)
        ensures
            match r {
                Some(value) => {
                    &&& old(self)@.get(k) == Some(value@)
                    &&& final(self)@ == old(self)@.set(k, final(value)@)
                },
                None => old(self)@.get(k) is None && final(self)@ == old(self)@,
            },
    {
        let ghost before = self@;
        if (k as usize) < self.slots.len() {
            match &mut self.slots[k as usize] {
                Some(value) => {
                    Some(value)
                },
                None => None,
            }
        } else {
            None
        }
    }

    pub fn remove(&mut self, k: Key) -> (r: Option<T>)
        requires
            old(self)@.wf(),
        ensures
            final(self)@.wf(),
            final(self)@ == old(self)@.remove(k),
            match r {
                Some(value) => old(self)@.get(k) == Some(value@),
                None => old(self)@.get(k) is None,
            },
    {
        let ghost before = self@;
        if (k as usize) < self.slots.len() {
            let value = self.slots[k as usize].take();
            if value.is_some() {
                self.free.push(k);
            }
            proof {
                lemma_remove_wf(before, k);
                assert(self@ =~= before.remove(k));
            }
            value
        } else {
            None
        }
    }

    /// Number of live entries.
    pub fn len(&self) -> (r: usize)
        requires
            self@.wf(),
        ensures
            r == self@.keys().len(),
    {
        proof {
            lemma_live_count(self@);
        }
        self.slots.len() - self.free.len()
    }
}

/// Storing a value keeps the free list exact.
proof fn lemma_insert_wf<T>(s: SlabView<T>, value: T)
    requires
        s.wf(),
        s.free.len() > 0 || s.slots.len() < u32::MAX,
    ensures
        s.insert(value).wf(),
        !s.contains(s.next_key()),
{
    let t = s.insert(value);
    if s.free.len() > 0 {
        assert(s.free[s.free.len() - 1] == s.free.last());
        assert forall|k: int| 0 <= k < t.slots.len() && (#[trigger] t.slots[k]) is None implies t.free.contains(
            k as u32,
        ) by {
            assert(s.slots[k] is None);
            let i = choose|i: int| 0 <= i < s.free.len() && s.free[i] == k as u32;
            assert(t.free[i] == k as u32);
        }
    } else {
        assert forall|k: int| 0 <= k < t.slots.len() && (#[trigger] t.slots[k]) is None implies t.free.contains(
            k as u32,
        ) by {
            assert(s.slots[k] is None);
        }
    }
}

/// Taking a value out keeps the free list exact.
proof fn lemma_remove_wf<T>(s: SlabView<T>, k: Key)
    requires
        s.wf(),
    ensures
        s.remove(k).wf(),
{
    let t = s.remove(k);
    if s.contains(k) {
        assert forall|j: int| 0 <= j < t.slots.len() && (#[trigger] t.slots[j]) is None implies t.free.contains(
            j as u32,
        ) by {
            if j == k {
                assert(t.free[t.free.len() - 1] == k);
            } else {
                assert(s.slots[j] is None);
                let i = choose|i: int| 0 <= i < s.free.len() && s.free[i] == j as u32;
                assert(t.free[i] == j as u32);
            }
        }
    }
}

/// Every key handed out either has a value or is on the free list.
proof fn lemma_live_count<T>(s: SlabView<T>)
    requires
        s.wf(),
    ensures
        s.keys().len() + s.free.len() == s.slots.len(),
{
    let all = Set::<int>::range(0, s.slots.len() as int);
    let holes = s.free.map_values(|k: Key| k as int);
    assert(holes.no_duplicates());
    holes.unique_seq_to_set();
    assert(all.difference(s.keys()) =~= holes.to_set()) by {
        assert forall|k: int| all.difference(s.keys()).contains(k) implies holes.to_set().contains(k) by {
            assert(s.slots[k] is None);
            let i = choose|i: int| 0 <= i < s.free.len() && s.free[i] == k as u32;
            assert(holes[i] == k);
        }
    }
    vstd::set_lib::range_set_properties::<int>(0, s.slots.len() as int);
    vstd::set_lib::lemma_len_difference(all, s.keys());
    vstd::set_lib::lemma_set_intersect_union_lens(s.keys(), holes.to_set());
    assert(s.keys().intersect(holes.to_set()) =~= Set::empty());
    assert(s.keys().union(holes.to_set()) =~= all);
}

} // verus!
