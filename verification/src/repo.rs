use crate::id_source::IdSource;
use std::marker::PhantomData;
use vstd::prelude::*;

verus! {

/// A typed handle to an entry of a repository of `T`.
///
/// Handles are plain numbers: copying one is free, and a handle stays valid
/// when the repository it points into is cloned.
#[derive(Hash)]
pub struct Id<T: ?Sized> {
    pub id: u32,
    pub phantom: PhantomData<T>,
}

impl<T: ?Sized> Clone for Id<T> {
    fn clone(&self) -> (copy: Self)
        ensures
            copy == *self,
    {
        Id { id: self.id, phantom: PhantomData }
    }
}

impl<T: ?Sized> Copy for Id<T> {

}

impl<T: ?Sized> PartialEq for Id<T> {
    fn eq(&self, other: &Self) -> (equal: bool) {
        self.id == other.id
    }
}

impl<T: ?Sized> vstd::std_specs::cmp::PartialEqSpecImpl for Id<T> {
    open spec fn obeys_eq_spec() -> bool {
        true
    }

    open spec fn eq_spec(&self, other: &Self) -> bool {
        self.id == other.id
    }
}

impl<T: ?Sized> Eq for Id<T> {

}

impl<T: ?Sized> Default for Id<T> {
    /// The handle of the fallback entry.
    fn default() -> (id: Self)
        ensures
            id.id == 0,
    {
        Id { id: 0, phantom: PhantomData }
    }
}

impl<T: ?Sized> From<u32> for Id<T> {
    fn from(id: u32) -> (handle: Self) {
        Id { id, phantom: PhantomData }
    }
}

impl<T: ?Sized> vstd::std_specs::convert::FromSpecImpl<u32> for Id<T> {
    open spec fn obeys_from_spec() -> bool {
        true
    }

    open spec fn from_spec(id: u32) -> Self {
        Id { id, phantom: PhantomData }
    }
}

impl<T: ?Sized> Id<T> {
    /// A handle that no earlier draw from `source` has returned.
    pub fn new(source: &mut IdSource) -> (id: Self)
        requires
            old(source)@ != 0,
        ensures
            id.id == old(source)@,
            id.id != 0,
            final(source)@ == IdSource::successor(old(source)@),
    {
        Id::from(source.draw())
    }
}

/// An append-only store addressed by [`Id`], whose entry 0 is the fallback
/// that every lookup of an absent handle resolves to.
pub struct VecRepo<T>(Vec<T>);

impl<T> View for VecRepo<T> {
    type V = Seq<T>;

    /// The entries in handle order.
    closed spec fn view(&self) -> Seq<T> {
        self.0@
    }
}

impl<T> VecRepo<T> {
    /// The fallback entry exists and every position is a handle.
    pub open spec fn wf(&self) -> bool {
        1 <= self@.len() <= u32::MAX + 1
    }

    /// Whether `id` addresses an entry.
    pub open spec fn contains(&self, id: Id<T>) -> bool {
        id.id < self@.len()
    }

    /// What a lookup of `id` resolves to.
    pub open spec fn resolve(&self, id: Id<T>) -> T {
        if self.contains(id) {
            self@[id.id as int]
        } else {
            self@[0]
        }
    }

    /// A repository that holds only its fallback entry.
    pub fn new(default: T) -> (repo: Self)
        ensures
            repo.wf(),
            repo@ == seq![default],
    {
        let mut entries = Vec::new();
        entries.push(default);
        VecRepo(entries)
    }

    /// Takes `entries` as they are, the first one as the fallback. `None`
    /// when there is no first entry or more entries than handles.
    pub fn from_vec(entries: Vec<T>) -> (repo: Option<Self>)
        ensures
            repo is Some <==> 1 <= entries@.len() <= u32::MAX + 1,
            repo is Some ==> repo->0.wf() && repo->0@ == entries@,
    {
        let n = entries.len();
        if n == 0 || n - 1 > u32::MAX as usize {
            None
        } else {
            Some(VecRepo(entries))
        }
    }

    pub fn into_vec(self) -> (entries: Vec<T>)
        ensures
            entries@ == self@,
    {
        self.0
    }

    pub fn len(&self) -> (n: usize)
        ensures
            n == self@.len(),
    {
        self.0.len()
    }

    /// Appends `value` and returns its handle; no other entry changes.
    pub fn insert(&mut self, value: T) -> (id: Id<T>)
        requires
            old(self).wf(),
            old(self)@.len() <= u32::MAX,
        ensures
            final(self).wf(),
            final(self)@ == old(self)@.push(value),
            id.id == old(self)@.len(),
    {
        let id = self.0.len();
        self.0.push(value);
        Id::from(id as u32)
    }

    pub fn get_default(&self) -> (entry: &T)
        requires
            self.wf(),
        ensures
            *entry == self@[0],
    {
        &self.0[0]
    }

    /// The entry of `id`, or the fallback entry when `id` addresses none.
    pub fn get(&self, id: Id<T>) -> (entry: &T)
        requires
            self.wf(),
        ensures
            *entry == self.resolve(id),
    {
        let i = id.id as usize;
        if i < self.0.len() {
            &self.0[i]
        } else {
            self.get_default()
        }
    }

    /// Every entry with its handle, in handle order.
    pub fn iter(&self) -> (entries: Vec<(Id<T>, &T)>)
        requires
            self.wf(),
        ensures
            entries@.len() == self@.len(),
            forall|i: int|
                0 <= i < entries@.len() ==> (#[trigger] entries@[i]).0.id == i && *entries@[i].1
                    == self@[i],
    {
        let mut entries: Vec<(Id<T>, &T)> = Vec::new();
        let n = self.0.len();
        let mut i: usize = 0;
        while i < n
            invariant
                n == self.0@.len(),
                n <= u32::MAX + 1,
                i <= n,
                entries@.len() == i,
                forall|k: int|
                    0 <= k < i ==> (#[trigger] entries@[k]).0.id == k && *entries@[k].1
                        == self.0@[k],
            decreases n - i,
        {
            entries.push((Id::from(i as u32), &self.0[i]));
            i += 1;
        }
        entries
    }

    /// Every entry with its handle, in handle order, open to change: what the
    /// caller leaves behind each reference is what the repository then holds.
    pub fn iter_mut(&mut self) -> (entries: Vec<(Id<T>, &mut T)>)
        requires
            old(self).wf(),
        ensures
            final(self).wf(),
            entries@.len() == old(self)@.len(),
            forall|i: int|
                0 <= i < entries@.len() ==> (#[trigger] entries@[i]).0.id == i && *entries@[i].1
                    == old(self)@[i],
            final(self)@.len() == old(self)@.len(),
            forall|i: int|
                0 <= i < entries@.len() ==> #[trigger] final(self)@[i] == *final(entries@[i].1),
    {
        let ghost before = self.0@;
        let n = self.0.len();
        let mut rest: &mut [T] = self.0.as_mut_slice();
        let mut entries: Vec<(Id<T>, &mut T)> = Vec::new();
        let mut i: usize = 0;
        while rest.len() > 0
            invariant
                before.len() <= u32::MAX + 1,
                before.len() == n,
                i + rest@.len() == before.len(),
                rest@ == before.subrange(i as int, before.len() as int),
                entries@.len() == i,
                forall|k: int|
                    0 <= k < i ==> (#[trigger] entries@[k]).0.id == k && *entries@[k].1
                        == before[k],
                after_borrow(self.0)@ == Seq::new(i as nat, |k: int| *final(entries@[k].1))
                    + final(rest)@,
            decreases rest@.len(),
        {
            assert(i < before.len());
            let (head, tail) = rest.split_at_mut(1);
            rest = tail;
            match head.first_mut() {
                Some(entry) => {
                    entries.push((Id::from(i as u32), entry));
                },
                None => {},
            }
            i += 1;
        }
        entries
    }
}

impl<T: Clone> Clone for VecRepo<T> {
    /// A repository with as many entries, each a clone of the one it stands
    /// for.
    fn clone(&self) -> (copy: Self)
        ensures
            copy@.len() == self@.len(),
            forall|i: int| 0 <= i < self@.len() ==> cloned(#[trigger] self@[i], copy@[i]),
            self.wf() ==> copy.wf(),
    {
        VecRepo(self.0.clone())
    }
}

impl<T: Default> Default for VecRepo<T> {
    /// A repository whose fallback entry is the default of `T`.
    fn default() -> (repo: Self)
        ensures
            repo.wf(),
            repo@.len() == 1,
    {
        VecRepo::new(T::default())
    }
}

/// A handle that addresses no entry resolves to what the default handle
/// resolves to.
pub proof fn lemma_absent_resolves_to_default<T>(repo: VecRepo<T>, id: Id<T>, fallback: Id<T>)
    requires
        repo.wf(),
        !repo.contains(id),
        fallback.id == 0,
    ensures
        repo.resolve(id) == repo.resolve(fallback),
{
}

} // verus!
