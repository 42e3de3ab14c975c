//! Locations in the consensus hierarchy.
use vstd::prelude::*;

verus! {

/// A location relative to the current consensus system: a number of parent
/// steps, then a path of junctions downward.
///
/// Each junction is held as its encoding: equal junctions have equal
/// encodings. The rules of this crate only ever compare junctions or ask
/// whether there are any.
#[derive(Clone, Debug, PartialEq, Eq)]
pub struct Location {
    pub parents: u8,
    pub interior: Vec<Vec<u8>>,
}

/// The mathematical value of a [`Location`].
pub struct LocationView {
    pub parents: u8,
    pub interior: Seq<Seq<u8>>,
}

impl View for Location {
    type V = LocationView;

    open spec fn view(&self) -> LocationView {
        LocationView { parents: self.parents, interior: self.interior@.map_values(|j: Vec<u8>| j@) }
    }
}

impl LocationView {
    /// The location is `count` steps up and nothing further down.
    pub open spec fn contains_parents_only(self, count: u8) -> bool {
        &&& self.interior.len() == 0
        &&& self.parents == count
    }
}

/// Whether two byte strings are equal.
pub fn bytes_equal(a: &Vec<u8>, b: &Vec<u8>) -> (r: bool)
    ensures
        r == (a@ == b@),
{
    if a.len() != b.len() {
        return false;
    }
    let n = a.len();
    let mut i: usize = 0;
    while i < n
        invariant
            n == a.len(),
            n == b.len(),
            i <= n,
            forall|j: int| 0 <= j < i ==> a@[j] == b@[j],
        decreases n - i,
    {
        if a[i] != b[i] {
            return false;
        }
        i = i + 1;
    }
    assert(a@ =~= b@);
    true
}

/// A copy of a byte string.
pub fn bytes_copy(a: &Vec<u8>) -> (r: Vec<u8>)
    ensures
        r@ == a@,
{
    let r = a.clone();
    assert(r@ =~= a@);
    r
}

impl Location {
    /// The relay chain as seen from a parachain: one step up.
    pub fn parent() -> (r: Location)
        ensures
            r@.contains_parents_only(1),
    {
        Location { parents: 1, interior: Vec::new() }
    }

    /// Whether this location is exactly `count` parents up, with no interior.
    pub fn contains_parents_only(&self, count: u8) -> (r: bool)
        ensures
            r == self@.contains_parents_only(count),
    {
        self.interior.len() == 0 && self.parents == count
    }

    /// Whether two locations are the same.
    pub fn same_as(&self, other: &Location) -> (r: bool)
        ensures
            r == (self@ == other@),
    {
        if self.parents != other.parents || self.interior.len() != other.interior.len() {
            assert(self@.interior.len() != other@.interior.len() || self@.parents != other@.parents);
            return false;
        }
        let n = self.interior.len();
        let mut i: usize = 0;
        while i < n
            invariant
                n == self.interior.len(),
                n == other.interior.len(),
                i <= n,
                forall|j: int| 0 <= j < i ==> self@.interior[j] == other@.interior[j],
            decreases n - i,
        {
            if !bytes_equal(&self.interior[i], &other.interior[i]) {
                assert(self@.interior[i as int] != other@.interior[i as int]);
                return false;
            }
            i = i + 1;
        }
        assert(self@.interior =~= other@.interior);
        true
    }

    /// A copy of this location.
    pub fn duplicate(&self) -> (r: Location)
        ensures
            r@ == self@,
    {
        let n = self.interior.len();
        let mut interior: Vec<Vec<u8>> = Vec::new();
        let mut i: usize = 0;
        while i < n
            invariant
                n == self.interior.len(),
                i <= n,
                interior.len() == i,
                forall|j: int| 0 <= j < i ==> interior@[j]@ == self.interior@[j]@,
            decreases n - i,
        {
            interior.push(bytes_copy(&self.interior[i]));
            i = i + 1;
        }
        let r = Location { parents: self.parents, interior };
        assert(r@.interior =~= self@.interior);
        r
    }
}

/// Only a location with no junctions below it is a number of parents only:
/// `contains_parents_only(count)` holds exactly when the location is `count`
/// steps up and its interior is empty.
pub proof fn lemma_parents_only_means_empty_interior(l: LocationView, count: u8)
    ensures
        l.contains_parents_only(count) <==> (l.interior.len() == 0 && l.parents == count),
        l.interior.len() > 0 ==> !l.contains_parents_only(count),
{
}

} // verus!
