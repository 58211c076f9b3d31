use crate::id_source::IdSource;
use std::collections::hash_map::Entry;
use std::collections::HashMap;
use std::marker::PhantomData;
use vstd::prelude::*;
use vstd::std_specs::hash::{group_hash_axioms, spec_hash_map_iter};
use vstd::std_specs::iter::IteratorSpec;

verus! {

/// A typed handle to a resource of a [`ResourceManager`].
pub struct Id<T: ?Sized> {
    id: u32,
    phantom: PhantomData<T>,
}

impl<T: ?Sized> View for Id<T> {
    type V = u32;

    /// The number that identifies the resource.
    closed spec fn view(&self) -> u32 {
        self.id
    }
}

impl<T: ?Sized> Copy for Id<T> {

}

impl<T: ?Sized> Clone for Id<T> {
    fn clone(&self) -> (copy: Self)
        ensures
            copy == *self,
    {
        Id { id: self.id, phantom: PhantomData }
    }
}

impl<T: ?Sized> PartialEq for Id<T> {
    fn eq(&self, other: &Self) -> (equal: bool) {
        self.id == other.id
    }
}

impl<T: ?Sized> vstd::std_specs::cmp::PartialEqSpecImpl for Id<T> {
    open spec fn obeys_eq_spec() -> bool {
        true
    }

    open spec fn eq_spec(&self, other: &Self) -> bool {
        self@ == other@
    }
}

impl<T: ?Sized> Eq for Id<T> {

}

impl<T: ?Sized> Id<T> {
    /// A handle that no earlier draw from `source` has returned.
    pub fn new(source: &mut IdSource) -> (id: Self)
        requires
            old(source)@ != 0,
        ensures
            id@ == old(source)@,
            id@ != 0,
            final(source)@ == IdSource::successor(old(source)@),
    {
        Id::from(source.draw())
    }

    /// The handle with the given number.
    pub fn from(id: u32) -> (handle: Self)
        ensures
            handle@ == id,
    {
        Id { id, phantom: PhantomData }
    }

    /// The number that identifies the resource.
    pub fn index(&self) -> (n: u32)
        ensures
            n == self@,
    {
        self.id
    }
}

/// Resources stored under handles that the caller chooses, with a fallback
/// resource that every lookup of an unused handle resolves to.
pub struct ResourceManager<T> {
    resources: HashMap<u32, Box<T>>,
    default_value: Box<T>,
}

impl<T> ResourceManager<T> {
    /// The stored resources by the number of their handle.
    pub closed spec fn entries(&self) -> Map<u32, Box<T>> {
        self.resources@
    }

    /// The fallback resource.
    pub closed spec fn fallback(&self) -> T {
        *self.default_value
    }

    /// Whether a resource is stored under `id`.
    pub open spec fn contains(&self, id: Id<T>) -> bool {
        self.entries().contains_key(id@)
    }

    /// What a lookup of `id` resolves to.
    pub open spec fn resolve(&self, id: Id<T>) -> T {
        if self.contains(id) {
            *self.entries()[id@]
        } else {
            self.fallback()
        }
    }

    /// A manager that holds only its fallback resource.
    pub fn new(default_value: Box<T>) -> (manager: Self)
        ensures
            manager.entries() == Map::<u32, Box<T>>::empty(),
            manager.fallback() == *default_value,
    {
        ResourceManager { resources: HashMap::new(), default_value }
    }

    pub fn get_default(&self) -> (resource: &T)
        ensures
            *resource == self.fallback(),
    {
        &self.default_value
    }

    /// The resource stored under `id`, or the fallback resource when none is.
    pub fn get(&self, id: Id<T>) -> (resource: &T)
        ensures
            *resource == self.resolve(id),
    {
        broadcast use group_hash_axioms;

        match self.resources.get(&id.id) {
            Some(resource) => resource,
            None => &self.default_value,
        }
    }

    /// The resource stored under `id`, or the fallback resource when none is,
    /// open to change. Nothing else changes.
    pub fn get_mut(&mut self, id: Id<T>) -> (resource: &mut T)
        ensures
            *resource == old(self).resolve(id),
            old(self).contains(id) ==> final(self).entries() == old(self).entries().insert(
                id@,
                Box::new(*final(resource)),
            ) && final(self).fallback() == old(self).fallback(),
            !old(self).contains(id) ==> final(self).entries() == old(self).entries()
                && final(self).fallback() == *final(resource),
    {
        broadcast use group_hash_axioms;

        match self.resources.entry(id.id) {
            Entry::Occupied(entry) => entry.into_mut(),
            Entry::Vacant(_) => &mut self.default_value,
        }
    }

    /// Stores `value` under `id`, in place of what was stored there.
    pub fn insert(&mut self, id: Id<T>, value: Box<T>)
        ensures
            final(self).entries() == old(self).entries().insert(id@, value),
            final(self).fallback() == old(self).fallback(),
    {
        broadcast use group_hash_axioms;

        self.resources.insert(id.id, value);
    }

    /// Takes out what is stored under `id`, if anything is. The fallback
    /// resource stays.
    pub fn remove(&mut self, id: Id<T>) -> (removed: Option<Box<T>>)
        ensures
            removed == if old(self).contains(id) {
                Some(old(self).entries()[id@])
            } else {
                None
            },
            final(self).entries() == old(self).entries().remove(id@),
            final(self).fallback() == old(self).fallback(),
    {
        broadcast use group_hash_axioms;

        self.resources.remove(&id.id)
    }

    /// Every stored resource with its handle, each once, in no particular
    /// order. The fallback resource is not among them.
    pub fn iter(&self) -> (stored: Vec<(Id<T>, &T)>)
        ensures
            stored@.len() == self.entries().dom().len(),
            forall|i: int|
                0 <= i < stored@.len() ==> self.entries().contains_key((#[trigger] stored@[i]).0@)
                    && *stored@[i].1 == *self.entries()[stored@[i].0@],
            forall|i: int, j: int|
                0 <= i < j < stored@.len() ==> (#[trigger] stored@[i]).0@ != (
                #[trigger] stored@[j]).0@,
            forall|number: u32| #[trigger]
                self.entries().contains_key(number) ==> exists|i: int|
                    0 <= i < stored@.len() && (#[trigger] stored@[i]).0@ == number,
    {
        broadcast use group_hash_axioms;

        let mut stored: Vec<(Id<T>, &T)> = Vec::new();
        for pair in walk: self.resources.iter()
            invariant
                stored@.len() == walk.index(),
                forall|k: int|
                    0 <= k < stored@.len() ==> (#[trigger] stored@[k]).0@ == *walk.seq()[k].0
                        && *stored@[k].1 == **walk.seq()[k].1,
        {
            let (number, resource) = pair;
            stored.push((Id::from(*number), &**resource));
        }
        proof {
            let walked = spec_hash_map_iter(&self.resources).remaining();
            assert forall|i: int, j: int| 0 <= i < j < stored@.len() implies (
            #[trigger] stored@[i]).0@ != (#[trigger] stored@[j]).0@ by {
                if *walked[i].0 == *walked[j].0 {
                    assert(self.resources@[*walked[i].0] == *walked[i].1);
                    assert(self.resources@[*walked[j].0] == *walked[j].1);
                    assert(walked[i] == walked[j]);
                }
            }
            assert forall|number: u32| #[trigger]
                self.resources@.contains_key(number) implies exists|i: int|
                0 <= i < stored@.len() && (#[trigger] stored@[i]).0@ == number by {
                let pair = (&number, &self.resources@[number]);
                assert(walked.contains(pair));
                let i = choose|i: int| 0 <= i < walked.len() && walked[i] == pair;
                assert(stored@[i].0@ == number);
            }
        }
        stored
    }
}

/// Handles under which nothing is stored all resolve to the same resource,
/// the fallback.
pub proof fn lemma_absent_resolves_to_default<T>(
    manager: ResourceManager<T>,
    id: Id<T>,
    other: Id<T>,
)
    requires
        !manager.contains(id),
        !manager.contains(other),
    ensures
        manager.resolve(id) == manager.resolve(other),
        manager.resolve(id) == manager.fallback(),
{
}

} // verus!
