//! The open-file registry: the process-lifetime, in-memory record of which
//! files are currently considered open, keyed by canonical path string.
//!
//! The registry is a set of path keys: a path is open exactly when its key is
//! a member. Storage is a duplicate-free vector of strings; the abstract view
//! is the set of the stored strings' character sequences.

use vstd::prelude::*;

verus! {

/// Record of the files currently considered open, keyed by canonical path.
///
/// Purely in-memory and scoped to the life of the process; a fresh registry
/// is empty. Exclusive access for updates comes from `&mut` borrowing; a
/// shell that serves concurrent callers wraps the registry in a lock and so
/// serializes the operations below, each of which holds the registry only
/// for one membership test plus at most one insertion or removal.
pub struct OpenFileRegistry {
    paths: Vec<String>,
}

impl OpenFileRegistry {
    /// The set of canonical path keys currently marked open.
    pub closed spec fn open_set(self) -> Set<Seq<char>> {
        Set::new(
            |k: Seq<char>|
                exists|i: int| 0 <= i < self.paths@.len() && #[trigger] self.paths@[i]@ == k,
        )
    }

    /// Well-formed: no path key is stored twice.
    pub closed spec fn wf(self) -> bool {
        forall|i: int, j: int|
            0 <= i < j < self.paths@.len() ==> #[trigger] self.paths@[i]@ != #[trigger] self.paths@[j]@
    }

    /// A fresh registry is well-formed and holds nothing open.
    pub fn new() -> (r: Self)
        ensures
            r.wf(),
            r.open_set() =~= Set::<Seq<char>>::empty(),
    {
        let r = OpenFileRegistry { paths: Vec::new() };
        proof {
            assert forall|k: Seq<char>| !(#[trigger] r.open_set().contains(k)) by {
                assert(r.paths@.len() == 0);
            }
        }
        r
    }

    /// Pure membership query: is `path`'s key currently marked open?
    pub fn is_open(&self, path: &String) -> (r: bool)
        ensures
            r == self.open_set().contains(path@),
    {
        let mut i: usize = 0;
        while i < self.paths.len()
            invariant
                0 <= i <= self.paths@.len(),
                forall|k: int| 0 <= k < i ==> #[trigger] self.paths@[k]@ != path@,
            decreases self.paths@.len() - i,
        {
            if self.paths[i] == *path {
                proof {
                    assert(self.paths@[i as int]@ == path@);
                }
                return true;
            }
            i = i + 1;
        }
        proof {
            assert(!self.open_set().contains(path@));
        }
        false
    }

    /// Mark `path`'s key open. Idempotent: registering an already-open path
    /// changes nothing. Never fails.
    pub fn register(&mut self, path: &String)
        requires
            old(self).wf(),
        ensures
            final(self).wf(),
            final(self).open_set() =~= old(self).open_set().insert(path@),
    {
        if !self.is_open(path) {
            self.paths.push(path.clone());
            proof {
                let p = path@;
                let n = old(self).paths@.len() as int;
                assert(self.paths@[n]@ == p);
                assert forall|k: Seq<char>| #[trigger] self.open_set().contains(k)
                    implies old(self).open_set().insert(p).contains(k) by {
                    let i = choose|i: int|
                        0 <= i < self.paths@.len() && #[trigger] self.paths@[i]@ == k;
                    if i < n {
                        assert(old(self).paths@[i]@ == k);
                    }
                }
                assert forall|k: Seq<char>| #[trigger] old(self).open_set().insert(p).contains(k)
                    implies self.open_set().contains(k) by {
                    if k == p {
                        assert(self.paths@[n]@ == k);
                    } else {
                        let i = choose|i: int|
                            0 <= i < old(self).paths@.len() && #[trigger] old(self).paths@[i]@ == k;
                        assert(self.paths@[i]@ == k);
                    }
                }
                assert forall|i: int, j: int| 0 <= i < j < self.paths@.len()
                    implies #[trigger] self.paths@[i]@ != #[trigger] self.paths@[j]@ by {
                    if j == n {
                        assert(old(self).paths@[i]@ != p);
                    }
                }
            }
        } else {
            proof {
                assert(self.open_set() =~= old(self).open_set().insert(path@));
            }
        }
    }

    /// Remove the open marking for `path`'s key. Idempotent: unregistering a
    /// path that is not open changes nothing. Never fails.
    pub fn unregister(&mut self, path: &String)
        requires
            old(self).wf(),
        ensures
            final(self).wf(),
            final(self).open_set() =~= old(self).open_set().remove(path@),
    {
        let mut i: usize = 0;
        while i < self.paths.len()
            invariant
                old(self).wf(),
                *self == *old(self),
                0 <= i <= self.paths@.len(),
                forall|k: int| 0 <= k < i ==> #[trigger] self.paths@[k]@ != path@,
            decreases self.paths@.len() - i,
        {
            if self.paths[i] == *path {
                self.paths.remove(i);
                proof {
                    let p = path@;
                    let s = old(self).paths@;
                    let ii = i as int;
                    assert(s[ii]@ == p);
                    assert(self.paths@ == s.remove(ii));
                    s.remove_ensures(ii);
                    assert forall|k: Seq<char>| #[trigger] self.open_set().contains(k)
                        implies old(self).open_set().remove(p).contains(k) by {
                        let j = choose|j: int|
                            0 <= j < self.paths@.len() && #[trigger] self.paths@[j]@ == k;
                        if j < ii {
                            assert(s[j]@ == k);
                            assert(s[j]@ != s[ii]@);
                        } else {
                            assert(s[j + 1]@ == k);
                            assert(s[j + 1]@ != s[ii]@);
                        }
                    }
                    assert forall|k: Seq<char>| #[trigger] old(self).open_set().remove(p).contains(k)
                        implies self.open_set().contains(k) by {
                        let j = choose|j: int| 0 <= j < s.len() && #[trigger] s[j]@ == k;
                        if j < ii {
                            assert(self.paths@[j]@ == k);
                        } else {
                            assert(j != ii);
                            assert(self.paths@[j - 1]@ == k);
                        }
                    }
                    assert forall|a: int, b: int| 0 <= a < b < self.paths@.len()
                        implies #[trigger] self.paths@[a]@ != #[trigger] self.paths@[b]@ by {
                        let a0 = if a < ii { a } else { a + 1 };
                        let b0 = if b < ii { b } else { b + 1 };
                        assert(self.paths@[a]@ == s[a0]@);
                        assert(self.paths@[b]@ == s[b0]@);
                    }
                }
                return;
            }
            i = i + 1;
        }
        proof {
            let p = path@;
            assert(!self.open_set().contains(p));
            assert(self.open_set() =~= old(self).open_set().remove(p));
        }
    }

    /// Is nothing currently marked open?
    pub fn is_empty(&self) -> (r: bool)
        ensures
            r <==> self.open_set() =~= Set::<Seq<char>>::empty(),
    {
        let r = self.paths.len() == 0;
        proof {
            if self.paths@.len() == 0 {
                assert forall|k: Seq<char>| !(#[trigger] self.open_set().contains(k)) by {}
                assert(self.open_set() =~= Set::<Seq<char>>::empty());
            } else {
                assert(self.open_set().contains(self.paths@[0]@));
            }
        }
        r
    }
}

/// A path that was never registered is reported closed: the fresh registry
/// does not hold it, and neither registering a different path nor
/// unregistering any path ever brings it in.
pub proof fn lemma_never_registered_stays_closed(s: Set<Seq<char>>, p: Seq<char>, q: Seq<char>)
    requires
        !s.contains(p),
        q != p,
    ensures
        !Set::<Seq<char>>::empty().contains(p),
        !s.insert(q).contains(p),
        !s.remove(q).contains(p),
{
}

/// Registering a path marks it open: immediately after an insertion the key
/// is a member, whatever was open before.
pub proof fn lemma_register_marks_open(s: Set<Seq<char>>, p: Seq<char>)
    ensures
        s.insert(p).contains(p),
{
}

/// Unregistering a path marks it closed, regardless of prior state: after a
/// removal the key is not a member, whether or not it was one before.
pub proof fn lemma_unregister_marks_closed(s: Set<Seq<char>>, p: Seq<char>)
    ensures
        !s.remove(p).contains(p),
{
}

/// Registration is idempotent: registering a path that is already registered
/// leaves the registry exactly as it was, so the state attributable to the
/// path never grows, and the path stays open.
pub proof fn lemma_register_idempotent(s: Set<Seq<char>>, p: Seq<char>)
    ensures
        s.insert(p).insert(p) =~= s.insert(p),
        s.contains(p) ==> s.insert(p) =~= s,
{
}

/// No lost update: two registrations of the same path, serialized in the one
/// order mutual exclusion admits for identical operations, end with the path
/// open. A shell that guards the registry with a lock runs each operation
/// atomically, so two concurrent callers registering `p` produce exactly this
/// composition, and neither erases the other's effect.
pub proof fn lemma_no_lost_update(s: Set<Seq<char>>, p: Seq<char>)
    ensures
        s.insert(p).insert(p).contains(p),
{
}

} // verus!
