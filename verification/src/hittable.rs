use vstd::prelude::*;

verus! {

/// An axis-aligned plane, named by the two axes that span it.
///
/// A point `(x, y, z)` has two coordinates within the plane, `n` along the
/// first axis of the name and `m` along the second, and one coordinate `k`
/// along the remaining axis, the plane's normal.
#[derive(Clone, Copy, Debug, PartialEq, Eq)]
pub enum Plane {
    XY,
    XZ,
    YZ,
}

impl Plane {
    /// `(x, y, z)` reordered to `(n, m, k)`.
    pub open spec fn local<T>(self, x: T, y: T, z: T) -> (T, T, T) {
        match self {
            Plane::XY => (x, y, z),
            Plane::XZ => (x, z, y),
            Plane::YZ => (y, z, x),
        }
    }

    /// `(n, m, k)` reordered to `(x, y, z)`.
    pub open spec fn world<T>(self, n: T, m: T, k: T) -> (T, T, T) {
        match self {
            Plane::XY => (n, m, k),
            Plane::XZ => (n, k, m),
            Plane::YZ => (k, n, m),
        }
    }

    /// Splits a point into its coordinates within the plane and along its
    /// normal.
    pub fn to_local<T>(&self, x: T, y: T, z: T) -> (nmk: (T, T, T))
        ensures
            nmk == self.local(x, y, z),
    {
        match self {
            Plane::XY => (x, y, z),
            Plane::XZ => (x, z, y),
            Plane::YZ => (y, z, x),
        }
    }

    /// Puts a point together from its coordinates within the plane and
    /// along its normal.
    pub fn to_world<T>(&self, n: T, m: T, k: T) -> (xyz: (T, T, T))
        ensures
            xyz == self.world(n, m, k),
    {
        match self {
            Plane::XY => (n, m, k),
            Plane::XZ => (n, k, m),
            Plane::YZ => (k, n, m),
        }
    }
}

/// Splitting a point and putting it together again, in either order, gives
/// the point back.
pub proof fn lemma_local_world_inverse<T>(plane: Plane, a: T, b: T, c: T)
    ensures
        ({
            let (n, m, k) = plane.local(a, b, c);
            plane.world(n, m, k) == (a, b, c)
        }),
        ({
            let (x, y, z) = plane.world(a, b, c);
            plane.local(x, y, z) == (a, b, c)
        }),
{
}

/// Whether `winner` is the position of the nearest of `keys`: it holds a
/// key, no key is smaller, and no earlier key is as small.
///
/// A key stands for the distance of a hit and orders as the distances do;
/// `None` stands for a miss.
pub open spec fn is_nearest(keys: Seq<Option<i64>>, winner: int) -> bool {
    &&& 0 <= winner < keys.len()
    &&& keys[winner] is Some
    &&& forall|i: int|
        0 <= i < keys.len() && keys[i] is Some ==> keys[winner]->0 <= (#[trigger] keys[i])->0
    &&& forall|i: int|
        0 <= i < winner && keys[i] is Some ==> keys[winner]->0 < (#[trigger] keys[i])->0
}

/// No two positions are both the nearest.
pub proof fn lemma_nearest_is_unique(keys: Seq<Option<i64>>, a: int, b: int)
    requires
        is_nearest(keys, a),
        is_nearest(keys, b),
    ensures
        a == b,
{
    if a < b {
        assert(keys[b]->0 < keys[a]->0);
        assert(keys[a]->0 <= keys[b]->0);
    } else if b < a {
        assert(keys[a]->0 < keys[b]->0);
        assert(keys[b]->0 <= keys[a]->0);
    }
}

/// The position of the nearest hit among `keys`, the earliest one where
/// several are equally near, or `None` where every one is a miss.
pub fn nearest(keys: &Vec<Option<i64>>) -> (winner: Option<usize>)
    ensures
        winner is None <==> forall|i: int| 0 <= i < keys@.len() ==> (#[trigger] keys@[i]) is None,
        winner is Some ==> is_nearest(keys@, winner->0 as int),
{
    let mut winner: Option<usize> = None;
    let mut best: i64 = 0;
    let mut i: usize = 0;
    while i < keys.len()
        invariant
            i <= keys@.len(),
            winner is None <==> forall|k: int| 0 <= k < i ==> (#[trigger] keys@[k]) is None,
            winner is Some ==> is_nearest(keys@.take(i as int), winner->0 as int) && best
                == keys@[winner->0 as int]->0,
        decreases keys@.len() - i,
    {
        match keys[i] {
            Some(key) => {
                if winner.is_none() || key < best {
                    winner = Some(i);
                    best = key;
                }
            },
            None => {},
        }
        i += 1;
    }
    assert(keys@.take(i as int) =~= keys@);
    winner
}

} // verus!
