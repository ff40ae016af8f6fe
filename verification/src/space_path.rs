//! A model of filesystem paths as the containment check sees them.
//!
//! A path is a flag saying whether it is absolute, plus its components in
//! order. Components are opaque names: the model does not interpret `.` or
//! `..`; callers that need a canonical form canonicalize before they build a
//! `SpacePath`.

use vstd::prelude::*;

verus! {

/// The mathematical value of a path: absolute or not, and its components.
pub struct PathModel {
    pub absolute: bool,
    pub parts: Seq<Seq<char>>,
}

impl PathModel {
    /// True when `prefix` names this path or one of its ancestors:
    /// both are of the same kind and the components of `prefix` come first
    /// in this path, in order.
    pub open spec fn starts_with(self, prefix: PathModel) -> bool {
        &&& self.absolute == prefix.absolute
        &&& prefix.parts.len() <= self.parts.len()
        &&& self.parts.subrange(0, prefix.parts.len() as int) == prefix.parts
    }
}

/// A filesystem path, kept as its kind (absolute or relative) and its
/// components.
#[derive(Debug)]
pub struct SpacePath {
    absolute: bool,
    parts: Vec<String>,
}

impl View for SpacePath {
    type V = PathModel;

    closed spec fn view(&self) -> PathModel {
        PathModel { absolute: self.absolute, parts: self.parts@.map_values(|p: String| p@) }
    }
}

impl Clone for SpacePath {
    /// An exact copy of the path.
    fn clone(&self) -> (r: Self)
        ensures
            r@ == self@,
    {
        let mut parts: Vec<String> = Vec::new();
        let mut i: usize = 0;
        while i < self.parts.len()
            invariant
                i <= self.parts@.len(),
                parts@.len() == i,
                forall|t: int| 0 <= t < i ==> parts@[t]@ == self.parts@[t]@,
            decreases self.parts@.len() - i,
        {
            parts.push(self.parts[i].clone());
            i += 1;
        }
        let r = SpacePath { absolute: self.absolute, parts };
        proof {
            assert(r@.parts =~= self@.parts);
        }
        r
    }
}

impl SpacePath {
    /// A path built from its kind and components.
    pub fn new(absolute: bool, parts: Vec<String>) -> (r: SpacePath)
        ensures
            r@.absolute == absolute,
            r@.parts == parts@.map_values(|p: String| p@),
    {
        SpacePath { absolute, parts }
    }

    /// True when the path is relative.
    pub fn is_relative(&self) -> (r: bool)
        ensures
            r == !self@.absolute,
    {
        !self.absolute
    }

    /// The number of components.
    pub fn depth(&self) -> (n: usize)
        ensures
            n == self@.parts.len(),
    {
        self.parts.len()
    }

    /// Resolving `other` against this path, as `std::path::Path::join` does:
    /// an absolute `other` stands alone, a relative one is appended.
    pub fn join(&self, other: &SpacePath) -> (r: SpacePath)
        ensures
            other@.absolute ==> r@ == other@,
            !other@.absolute ==> r@ == (PathModel {
                absolute: self@.absolute,
                parts: self@.parts + other@.parts,
            }),
    {
        if other.absolute {
            other.clone()
        } else {
            let mut joined = self.clone();
            let ghost base = self.parts@.len() as int;
            proof {
                assert(joined@.parts.len() == self@.parts.len());
                assert(joined@.parts.len() == joined.parts@.len());
                assert(self@.parts.len() == self.parts@.len());
                assert forall|t: int| 0 <= t < base implies joined.parts@[t]@
                    == self.parts@[t]@ by {
                    assert(joined@.parts[t] == self@.parts[t]);
                }
            }
            let mut i: usize = 0;
            while i < other.parts.len()
                invariant
                    i <= other.parts@.len(),
                    joined.absolute == self.absolute,
                    joined.parts@.len() == base + i,
                    base == self.parts@.len() as int,
                    forall|t: int| 0 <= t < base ==> joined.parts@[t]@ == self.parts@[t]@,
                    forall|t: int| 0 <= t < i ==> joined.parts@[base + t]@ == other.parts@[t]@,
                decreases other.parts@.len() - i,
            {
                joined.parts.push(other.parts[i].clone());
                i += 1;
            }
            proof {
                assert(joined@.parts =~= self@.parts + other@.parts);
            }
            joined
        }
    }

    /// True when `prefix` names this path or one of its ancestors.
    pub fn starts_with(&self, prefix: &SpacePath) -> (r: bool)
        ensures
            r == self@.starts_with(prefix@),
    {
        if self.absolute != prefix.absolute || prefix.parts.len() > self.parts.len() {
            return false;
        }
        let mut i: usize = 0;
        while i < prefix.parts.len()
            invariant
                i <= prefix.parts@.len(),
                prefix.parts@.len() <= self.parts@.len(),
                self@.absolute == prefix@.absolute,
                forall|t: int| 0 <= t < i ==> self.parts@[t]@ == prefix.parts@[t]@,
            decreases prefix.parts@.len() - i,
        {
            if !self.parts[i].eq(&prefix.parts[i]) {
                proof {
                    assert(self@.parts.subrange(0, prefix@.parts.len() as int)[i as int]
                        != prefix@.parts[i as int]);
                }
                return false;
            }
            i += 1;
        }
        proof {
            assert(self@.parts.subrange(0, prefix@.parts.len() as int) =~= prefix@.parts);
        }
        true
    }

    /// True when the two paths are the same value.
    pub fn matches(&self, other: &SpacePath) -> (r: bool)
        ensures
            r == (self@ == other@),
    {
        if self.absolute != other.absolute || self.parts.len() != other.parts.len() {
            proof {
                if self@ == other@ {
                    assert(self@.parts.len() == other@.parts.len());
                }
            }
            return false;
        }
        let mut i: usize = 0;
        while i < self.parts.len()
            invariant
                i <= self.parts@.len(),
                self.parts@.len() == other.parts@.len(),
                self@.absolute == other@.absolute,
                forall|t: int| 0 <= t < i ==> self.parts@[t]@ == other.parts@[t]@,
            decreases self.parts@.len() - i,
        {
            if !self.parts[i].eq(&other.parts[i]) {
                proof {
                    assert(self@.parts[i as int] != other@.parts[i as int]);
                }
                return false;
            }
            i += 1;
        }
        proof {
            assert(self@.parts =~= other@.parts);
        }
        true
    }
}

} // verus!
