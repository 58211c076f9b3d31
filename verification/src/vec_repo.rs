use std::marker::PhantomData;
use vstd::prelude::*;

verus! {

/// A typed handle to a slot of a [`VecRepo`].
#[derive(Debug)]
pub struct Id<T> {
    id: u32,
    phantom: PhantomData<T>,
}

impl<T> View for Id<T> {
    type V = nat;

    /// The number of the slot that the handle addresses.
    closed spec fn view(&self) -> nat {
        self.id as nat
    }
}

impl<T> Copy for Id<T> {

}

impl<T> Clone for Id<T> {
    fn clone(&self) -> (copy: Self)
        ensures
            copy == *self,
    {
        *self
    }
}

impl<T> PartialEq for Id<T> {
    fn eq(&self, other: &Self) -> (equal: bool) {
        self.id == other.id
    }
}

impl<T> vstd::std_specs::cmp::PartialEqSpecImpl for Id<T> {
    open spec fn obeys_eq_spec() -> bool {
        true
    }

    open spec fn eq_spec(&self, other: &Self) -> bool {
        self@ == other@
    }
}

impl<T> Eq for Id<T> {

}

impl<T> Default for Id<T> {
    /// The handle of the fallback slot.
    fn default() -> (id: Self)
        ensures
            id@ == 0,
    {
        Id { id: 0, phantom: PhantomData }
    }
}

impl<T> Id<T> {
    pub fn new(n: u32) -> (id: Self)
        ensures
            id@ == n,
    {
        Id { id: n, phantom: PhantomData }
    }

    /// The number of the slot that the handle addresses.
    pub fn index(&self) -> (n: u32)
        ensures
            n == self@,
    {
        self.id
    }
}

/// The values of the occupied slots, in slot order.
pub open spec fn occupied<T>(slots: Seq<Option<T>>) -> Seq<T>
    decreases slots.len(),
{
    if slots.len() == 0 {
        Seq::empty()
    } else {
        match slots.last() {
            Some(value) => occupied(slots.drop_last()).push(value),
            None => occupied(slots.drop_last()),
        }
    }
}

/// `slots` with the values of its occupied slots replaced, in slot order, by
/// `values`; vacant slots stay vacant.
pub open spec fn refilled<T>(slots: Seq<Option<T>>, values: Seq<T>) -> Seq<Option<T>>
    decreases slots.len(),
{
    if slots.len() == 0 {
        slots
    } else {
        match slots.last() {
            Some(_) => refilled(slots.drop_last(), values.drop_last()).push(Some(values.last())),
            None => refilled(slots.drop_last(), values).push(None),
        }
    }
}

/// A store of slots addressed by [`Id`]. Slots are only ever appended, so a
/// handle keeps its meaning for the life of the store. Slot 0 holds the
/// fallback value: it cannot be vacated, and a lookup of a handle whose slot
/// is absent or vacant resolves to it.
pub struct VecRepo<T> {
    data: Vec<Option<T>>,
}

impl<T> View for VecRepo<T> {
    type V = Seq<Option<T>>;

    /// The slots in handle order; a vacated slot is `None`.
    closed spec fn view(&self) -> Seq<Option<T>> {
        self.data@
    }
}

impl<T> VecRepo<T> {
    /// The fallback slot is occupied and every position is a handle.
    pub open spec fn wf(&self) -> bool {
        &&& 1 <= self@.len() <= u32::MAX + 1
        &&& self@[0] is Some
    }

    /// Whether the slot of `key` exists and holds a value.
    pub open spec fn contains(&self, key: Id<T>) -> bool {
        key@ < self@.len() && self@[key@ as int] is Some
    }

    /// What a lookup of `key` resolves to.
    pub open spec fn resolve(&self, key: Id<T>) -> T {
        if self.contains(key) {
            self@[key@ as int]->0
        } else {
            self@[0]->0
        }
    }

    /// A store that holds only its fallback value.
    pub fn new(default: T) -> (repo: Self)
        ensures
            repo.wf(),
            repo@ == seq![Some(default)],
    {
        let mut data = Vec::new();
        data.push(Some(default));
        VecRepo { data }
    }

    /// Takes `slots` as they are. `None` unless the first slot exists and
    /// is occupied, and there are no more slots than handles.
    pub fn from_slots(slots: Vec<Option<T>>) -> (repo: Option<Self>)
        ensures
            repo is Some <==> 1 <= slots@.len() <= u32::MAX + 1 && slots@[0] is Some,
            repo is Some ==> repo->0.wf() && repo->0@ == slots@,
    {
        let n = slots.len();
        if n == 0 || n - 1 > u32::MAX as usize {
            return None;
        }
        if slots[0].is_none() {
            return None;
        }
        Some(VecRepo { data: slots })
    }

    /// The slots in handle order; a vacated slot is `None`.
    pub fn as_slots(&self) -> (slots: &Vec<Option<T>>)
        ensures
            slots@ == self@,
    {
        &self.data
    }

    /// Gives up the store for its slots.
    pub fn into_slots(self) -> (slots: Vec<Option<T>>)
        ensures
            slots@ == self@,
    {
        self.data
    }

    /// The number of slots, vacant ones included.
    pub fn len(&self) -> (n: usize)
        ensures
            n == self@.len(),
    {
        self.data.len()
    }

    /// Appends a slot that holds `value` and returns its handle; no other
    /// slot changes.
    pub fn insert(&mut self, value: T) -> (id: Id<T>)
        requires
            old(self).wf(),
            old(self)@.len() <= u32::MAX,
        ensures
            final(self).wf(),
            final(self)@ == old(self)@.push(Some(value)),
            id@ == old(self)@.len(),
    {
        let id = self.data.len();
        self.data.push(Some(value));
        Id::new(id as u32)
    }

    pub fn get_default(&self) -> (value: &T)
        requires
            self.wf(),
        ensures
            self@[0] == Some(*value),
    {
        self.data[0].as_ref().unwrap()
    }

    /// The value in the slot of `key`, or the fallback value when that slot
    /// is absent or vacant.
    pub fn get(&self, key: Id<T>) -> (value: &T)
        requires
            self.wf(),
        ensures
            *value == self.resolve(key),
    {
        let i = key.id as usize;
        if i < self.data.len() {
            match &self.data[i] {
                Some(value) => value,
                None => self.get_default(),
            }
        } else {
            self.get_default()
        }
    }

    /// The value in the slot of `key`, open to change, or `None` when that
    /// slot is absent or vacant. Only that slot can change, and it stays
    /// occupied.
    pub fn get_mut(&mut self, key: Id<T>) -> (value: Option<&mut T>)
        requires
            old(self).wf(),
        ensures
            final(self).wf(),
            value is Some <==> old(self).contains(key),
            match value {
                Some(slot) => {
                    &&& old(self)@[key@ as int] == Some(*slot)
                    &&& final(self)@ == old(self)@.update(key@ as int, Some(*final(slot)))
                },
                None => final(self)@ == old(self)@,
            },
    {
        let i = key.id as usize;
        if i < self.data.len() {
            self.data[i].as_mut()
        } else {
            None
        }
    }

    /// Vacates the slot of `key` and returns what it held. The fallback slot
    /// is never vacated, and no handle changes its meaning: later lookups of
    /// `key` resolve to the fallback value.
    pub fn remove(&mut self, key: Id<T>) -> (removed: Option<T>)
        requires
            old(self).wf(),
        ensures
            final(self).wf(),
            key@ != 0 && old(self).contains(key) ==> removed == old(self)@[key@ as int]
                && final(self)@ == old(self)@.update(key@ as int, None),
            key@ == 0 || !old(self).contains(key) ==> removed is None && final(self)@ == old(
                self,
            )@,
    {
        let i = key.id as usize;
        if i == 0 || i >= self.data.len() {
            return None;
        }
        let removed = self.data[i].take();
        assert(self.data@ =~= old(self).data@.update(i as int, None));
        removed
    }

    /// The values of the occupied slots, in slot order.
    pub fn iter(&self) -> (values: Vec<&T>)
        requires
            self.wf(),
        ensures
            values@.len() == occupied(self@).len(),
            forall|i: int| 0 <= i < values@.len() ==> *#[trigger] values@[i] == occupied(self@)[i],
    {
        let mut values: Vec<&T> = Vec::new();
        let n = self.data.len();
        let mut i: usize = 0;
        while i < n
            invariant
                n == self.data@.len(),
                i <= n,
                values@.len() == occupied(self.data@.take(i as int)).len(),
                forall|k: int|
                    0 <= k < values@.len() ==> *#[trigger] values@[k] == occupied(
                        self.data@.take(i as int),
                    )[k],
            decreases n - i,
        {
            assert(self.data@.take(i + 1).drop_last() =~= self.data@.take(i as int));
            match &self.data[i] {
                Some(value) => {
                    values.push(value);
                },
                None => {},
            }
            i += 1;
        }
        assert(self.data@.take(n as int) =~= self.data@);
        values
    }

    /// The values of the occupied slots, in slot order, open to change: what
    /// the caller leaves behind each reference is what that slot then holds.
    /// Vacant slots stay vacant.
    pub fn iter_mut(&mut self) -> (values: Vec<&mut T>)
        requires
            old(self).wf(),
        ensures
            final(self).wf(),
            values@.len() == occupied(old(self)@).len(),
            forall|i: int|
                0 <= i < values@.len() ==> *#[trigger] values@[i] == occupied(old(self)@)[i],
            final(self)@ == refilled(
                old(self)@,
                Seq::new(values@.len(), |i: int| *final(values@[i])),
            ),
    {
        let ghost before = self.data@;
        let n = self.data.len();
        let mut rest: &mut [Option<T>] = self.data.as_mut_slice();
        let mut values: Vec<&mut T> = Vec::new();
        let mut i: usize = 0;
        while rest.len() > 0
            invariant
                before.len() == n,
                i + rest@.len() == before.len(),
                rest@ == before.subrange(i as int, before.len() as int),
                values@.len() == occupied(before.take(i as int)).len(),
                forall|k: int|
                    0 <= k < values@.len() ==> *#[trigger] values@[k] == occupied(
                        before.take(i as int),
                    )[k],
                after_borrow(self.data)@ == refilled(
                    before.take(i as int),
                    Seq::new(values@.len(), |k: int| *final(values@[k])),
                ) + final(rest)@,
            decreases rest@.len(),
        {
            assert(i < before.len());
            assert(before.take(i + 1).drop_last() =~= before.take(i as int));
            let ghost earlier = Seq::new(values@.len(), |k: int| *final(values@[k]));
            let (head, tail) = rest.split_at_mut(1);
            rest = tail;
            match head.first_mut() {
                Some(slot) => {
                    match slot.as_mut() {
                        Some(value) => {
                            values.push(value);
                            assert(Seq::new(values@.len(), |k: int| *final(values@[k])).drop_last()
                                =~= earlier);
                        },
                        None => {},
                    }
                },
                None => {},
            }
            i += 1;
        }
        assert(before.take(n as int) =~= before);
        proof {
            lemma_refilled_keeps_shape(
                before,
                Seq::new(values@.len(), |k: int| *final(values@[k])),
            );
        }
        values
    }
}

impl<T: Clone> Clone for VecRepo<T> {
    /// A store with the same slots, each value a clone of the one it stands
    /// for.
    fn clone(&self) -> (copy: Self)
        ensures
            copy@.len() == self@.len(),
            forall|i: int|
                0 <= i < self@.len() ==> match (#[trigger] self@[i], copy@[i]) {
                    (Some(value), Some(twin)) => cloned(value, twin),
                    (None, None) => true,
                    _ => false,
                },
            self.wf() ==> copy.wf(),
    {
        let mut data: Vec<Option<T>> = Vec::new();
        let n = self.data.len();
        let mut i: usize = 0;
        while i < n
            invariant
                n == self.data@.len(),
                i <= n,
                data@.len() == i,
                forall|k: int|
                    0 <= k < i ==> match (#[trigger] self.data@[k], data@[k]) {
                        (Some(value), Some(twin)) => cloned(value, twin),
                        (None, None) => true,
                        _ => false,
                    },
            decreases n - i,
        {
            data.push(self.data[i].clone());
            i += 1;
        }
        VecRepo { data }
    }
}

impl<T: Default> Default for VecRepo<T> {
    /// A store whose fallback value is the default of `T`.
    fn default() -> (repo: Self)
        ensures
            repo.wf(),
            repo@.len() == 1,
    {
        VecRepo::new(T::default())
    }
}

/// Refilling changes neither the number of slots nor which of them are
/// occupied.
pub proof fn lemma_refilled_keeps_shape<T>(slots: Seq<Option<T>>, values: Seq<T>)
    ensures
        refilled(slots, values).len() == slots.len(),
        forall|i: int|
            0 <= i < slots.len() ==> (#[trigger] refilled(slots, values)[i] is Some
                <==> slots[i] is Some),
    decreases slots.len(),
{
    if slots.len() > 0 {
        match slots.last() {
            Some(_) => lemma_refilled_keeps_shape(slots.drop_last(), values.drop_last()),
            None => lemma_refilled_keeps_shape(slots.drop_last(), values),
        }
    }
}

/// Refilling with one value for each occupied slot puts exactly these
/// values, in order, into the occupied slots.
pub proof fn lemma_refilled_holds_values<T>(slots: Seq<Option<T>>, values: Seq<T>)
    requires
        values.len() == occupied(slots).len(),
    ensures
        occupied(refilled(slots, values)) == values,
    decreases slots.len(),
{
    if slots.len() == 0 {
        assert(values =~= Seq::empty());
    } else {
        match slots.last() {
            Some(_) => {
                let earlier = refilled(slots.drop_last(), values.drop_last());
                lemma_refilled_holds_values(slots.drop_last(), values.drop_last());
                assert(earlier.push(Some(values.last())).drop_last() =~= earlier);
                assert(values.drop_last().push(values.last()) =~= values);
            },
            None => {
                let earlier = refilled(slots.drop_last(), values);
                lemma_refilled_holds_values(slots.drop_last(), values);
                assert(earlier.push(None).drop_last() =~= earlier);
            },
        }
    }
}

/// A handle whose slot is absent or vacant resolves to what the default
/// handle resolves to.
pub proof fn lemma_absent_resolves_to_default<T>(repo: VecRepo<T>, key: Id<T>, fallback: Id<T>)
    requires
        repo.wf(),
        !repo.contains(key),
        fallback@ == 0,
    ensures
        repo.resolve(key) == repo.resolve(fallback),
{
}

} // verus!
