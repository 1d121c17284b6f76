//! The follower relation: an entity whose parameters mirror another's.
//! Only one rank is allowed: a source never follows, a follower is never
//! followed.
use vstd::prelude::*;

verus! {

/// The entity whose parameters this one follows.
#[derive(Debug, Clone, Copy, PartialEq, Eq, Structural)]
pub struct FollowerOf(pub u64);

/// Why a follower link was refused.
#[derive(Debug, Clone, Copy, PartialEq, Eq, Structural)]
pub enum FollowError {
    /// The link would make a chain of two ranks, or a loop.
    Cascade,
}

/// Every follower link, as (follower, source) pairs.
#[derive(Debug, Clone)]
pub struct Followers {
    links: Vec<(u64, u64)>,
}

/// Whether some link has `e` as its follower.
pub open spec fn is_follower(links: Seq<(u64, u64)>, e: u64) -> bool {
    exists|i: int| 0 <= i < links.len() && (#[trigger] links[i]).0 == e
}

/// Whether some link has `e` as its source.
pub open spec fn is_source(links: Seq<(u64, u64)>, e: u64) -> bool {
    exists|i: int| 0 <= i < links.len() && (#[trigger] links[i]).1 == e
}

impl Followers {
    pub closed spec fn spec_links(&self) -> Seq<(u64, u64)> {
        self.links@
    }

    /// Each entity follows at most one source, and no source follows.
    pub closed spec fn wf(&self) -> bool {
        &&& forall|i: int, j: int|
            0 <= i < j < self.links@.len() ==> (#[trigger] self.links@[i]).0 != (#[trigger] self.links@[j]).0
        &&& forall|i: int, j: int|
            0 <= i < self.links@.len() && 0 <= j < self.links@.len() ==> (#[trigger] self.links@[i]).1
                != (#[trigger] self.links@[j]).0
    }

    /// No links.
    pub fn new() -> (r: Followers)
        ensures
            r.wf(),
            r.spec_links().len() == 0,
    {
        Followers { links: Vec::new() }
    }

    fn position(&self, follower: u64) -> (r: Option<usize>)
        ensures
            r matches Some(i) ==> i < self.links@.len() && self.links@[i as int].0 == follower,
            r is None ==> !is_follower(self.links@, follower),
    {
        let mut i: usize = 0;
        while i < self.links.len()
            invariant
                i <= self.links@.len(),
                forall|j: int| 0 <= j < i ==> (#[trigger] self.links@[j]).0 != follower,
            decreases self.links@.len() - i,
        {
            if self.links[i].0 == follower {
                return Some(i);
            }
            i += 1;
        }
        None
    }

    fn has_source(&self, source: u64) -> (r: bool)
        ensures
            r == is_source(self.links@, source),
    {
        let mut i: usize = 0;
        while i < self.links.len()
            invariant
                i <= self.links@.len(),
                forall|j: int| 0 <= j < i ==> (#[trigger] self.links@[j]).1 != source,
            decreases self.links@.len() - i,
        {
            if self.links[i].1 == source {
                assert(self.links@[i as int].1 == source);
                return true;
            }
            i += 1;
        }
        false
    }

    /// The source `follower` follows, if any.
    pub fn source_of(&self, follower: u64) -> (r: Option<u64>)
        requires
            self.wf(),
        ensures
            r matches Some(s) ==> self.spec_links().contains((follower, s)),
            r is None ==> !is_follower(self.spec_links(), follower),
    {
        match self.position(follower) {
            Some(i) => {
                assert(self.links@[i as int] == (follower, self.links@[i as int].1));
                Some(self.links[i].1)
            },
            None => None,
        }
    }

    /// Make `follower` follow `source`, replacing what it followed before.
    /// Refused when `source` follows something, when something follows
    /// `follower`, or when the two are the same.
    pub fn follow(&mut self, follower: u64, source: u64) -> (r: Result<(), FollowError>)
        requires
            old(self).wf(),
        ensures
            final(self).wf(),
            (follower == source || is_follower(old(self).spec_links(), source) || is_source(
                old(self).spec_links(),
                follower,
            )) ==> r == Err::<(), FollowError>(FollowError::Cascade) && final(self).spec_links()
                == old(self).spec_links(),
            !(follower == source || is_follower(old(self).spec_links(), source) || is_source(
                old(self).spec_links(),
                follower,
            )) ==> r is Ok && final(self).spec_links().contains((follower, source))
                && forall|p: (u64, u64)|
                    p.0 != follower ==> (#[trigger] final(self).spec_links().contains(p)
                        <==> old(self).spec_links().contains(p)),
    {
        if follower == source || self.position(source).is_some() || self.has_source(follower) {
            return Err(FollowError::Cascade);
        }
        let ghost before = self.links@;
        match self.position(follower) {
            Some(i) => {
                self.links.set(i, (follower, source));
                proof {
                    assert forall|p: (u64, u64)| p.0 != follower implies (#[trigger] self.links@.contains(p)
                        <==> before.contains(p)) by {
                        if before.contains(p) {
                            let k = choose|k: int| 0 <= k < before.len() && before[k] == p;
                            assert(self.links@[k] == p);
                        }
                        if self.links@.contains(p) {
                            let k = choose|k: int| 0 <= k < self.links@.len() && self.links@[k] == p;
                            assert(before[k] == p);
                        }
                    }
                    assert(self.links@[i as int] == (follower, source));
                    assert forall|a: int, b: int|
                        0 <= a < self.links@.len() && 0 <= b < self.links@.len() implies (#[trigger] self.links@[a]).1
                        != (#[trigger] self.links@[b]).0 by {
                        if a == i as int {
                            assert(before[b].0 == self.links@[b].0);
                        }
                        if b == i as int && a != i as int {
                            assert(before[a] == self.links@[a]);
                        }
                    }
                }
            },
            None => {
                self.links.push((follower, source));
                proof {
                    let n = before.len() as int;
                    assert(self.links@[n] == (follower, source));
                    assert forall|p: (u64, u64)| p.0 != follower implies (#[trigger] self.links@.contains(p)
                        <==> before.contains(p)) by {
                        if before.contains(p) {
                            let k = choose|k: int| 0 <= k < before.len() && before[k] == p;
                            assert(self.links@[k] == p);
                        }
                        if self.links@.contains(p) {
                            let k = choose|k: int| 0 <= k < self.links@.len() && self.links@[k] == p;
                            assert(k < n);
                            assert(before[k] == p);
                        }
                    }
                    assert forall|a: int, b: int|
                        0 <= a < b < self.links@.len() implies (#[trigger] self.links@[a]).0
                        != (#[trigger] self.links@[b]).0 by {
                        if b == n {
                            assert(before[a] == self.links@[a]);
                        }
                    }
                    assert forall|a: int, b: int|
                        0 <= a < self.links@.len() && 0 <= b < self.links@.len() implies (#[trigger] self.links@[a]).1
                        != (#[trigger] self.links@[b]).0 by {
                        if a == n && b < n {
                            assert(before[b] == self.links@[b]);
                        }
                        if b == n && a < n {
                            assert(before[a] == self.links@[a]);
                        }
                    }
                }
            },
        }
        Ok(())
    }
}

} // verus!
