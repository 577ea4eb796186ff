//! The environment-variable store: a small association list with unique
//! keys.  The runtime keeps one process-wide instance of it behind the
//! lock; the store itself is ordinary verified logic.

use vstd::prelude::*;

verus! {

/// The environment variables of a process: keys and values as byte
/// strings, every key present at most once.
pub struct EnvVars {
    env: Vec<(Vec<u8>, Vec<u8>)>,
}

/// Entry `i` of `entries` has key `key`.
pub open spec fn entry_has_key(entries: Seq<(Seq<u8>, Seq<u8>)>, i: int, key: Seq<u8>) -> bool {
    0 <= i < entries.len() && entries[i].0 == key
}

impl EnvVars {
    /// The stored pairs, in storage order.
    pub closed spec fn entries(&self) -> Seq<(Seq<u8>, Seq<u8>)> {
        Seq::new(self.env@.len(), |i: int| (self.env@[i].0@, self.env@[i].1@))
    }

    /// `key` is present in the store.
    pub open spec fn has_key(&self, key: Seq<u8>) -> bool {
        exists|i: int| entry_has_key(self.entries(), i, key)
    }

    /// No key is stored twice.
    pub open spec fn wf(&self) -> bool {
        forall|i: int, j: int|
            0 <= i < self.entries().len() && 0 <= j < self.entries().len() && i != j
                ==> #[trigger] self.entries()[i].0 != #[trigger] self.entries()[j].0
    }

    /// An empty store.
    pub fn new() -> (r: Self)
        ensures
            r.wf(),
            r.entries() == Seq::<(Seq<u8>, Seq<u8>)>::empty(),
    {
        let r = EnvVars { env: Vec::new() };
        proof {
            assert(r.entries() =~= Seq::<(Seq<u8>, Seq<u8>)>::empty());
        }
        r
    }

    /// Number of stored variables.
    pub fn len(&self) -> (r: usize)
        ensures
            r == self.entries().len(),
    {
        self.env.len()
    }

    /// Looks a key up: its value exactly when the key is present.
    pub fn get(&self, key: &[u8]) -> (r: Option<&Vec<u8>>)
        requires
            self.wf(),
        ensures
            match r {
                Some(v) => exists|i: int|
                    #[trigger] entry_has_key(self.entries(), i, key@) && self.entries()[i].1
                        == v@,
                None => !self.has_key(key@),
            },
    {
        let n = self.env.len();
        let mut i: usize = 0;
        while i < n
            invariant
                n == self.entries().len(),
                i <= n,
                forall|m: int| 0 <= m < i ==> !entry_has_key(self.entries(), m, key@),
            decreases n - i,
        {
            if compare_bytes(&self.env[i].0, key) {
                proof {
                    assert(entry_has_key(self.entries(), i as int, key@));
                }
                return Some(&self.env[i].1);
            }
            proof {
                assert(!entry_has_key(self.entries(), i as int, key@));
            }
            i = i + 1;
        }
        None
    }

    /// Appends a variable that is not yet present.  The contract keeps
    /// the store's keys unique; [`Self::set`] handles the general case.
    pub fn push(&mut self, key: &[u8], value: &[u8])
        requires
            old(self).wf(),
            !old(self).has_key(key@),
        ensures
            final(self).wf(),
            final(self).entries() == old(self).entries().push((key@, value@)),
    {
        let pair = (copy_bytes(key), copy_bytes(value));
        self.env.push(pair);
        proof {
            assert(self.entries() =~= old(self).entries().push((key@, value@)));
            assert forall|i: int, j: int|
                0 <= i < self.entries().len() && 0 <= j < self.entries().len() && i != j
                implies #[trigger] self.entries()[i].0 != #[trigger] self.entries()[j].0 by {
                if i < old(self).entries().len() && j < old(self).entries().len() {
                } else if i < old(self).entries().len() {
                    assert(!entry_has_key(old(self).entries(), i, key@));
                } else {
                    assert(!entry_has_key(old(self).entries(), j, key@));
                }
            }
        }
    }

    /// Sets a variable: replaces the value when the key is present,
    /// appends the pair when it is not.
    pub fn set(&mut self, key: &[u8], value: &[u8])
        ensures
            old(self).wf() ==> {
                &&& final(self).wf()
                &&& final(self).has_key(key@)
                &&& (old(self).has_key(key@) ==> exists|i: int|
                    {
                        &&& #[trigger] entry_has_key(old(self).entries(), i, key@)
                        &&& final(self).entries() == old(self).entries().update(
                            i,
                            (key@, value@),
                        )
                    })
                &&& (!old(self).has_key(key@) ==> final(self).entries() == old(
                    self,
                ).entries().push((key@, value@)))
            },
    {
        let n = self.env.len();
        let mut i: usize = 0;
        while i < n
            invariant
                n == self.entries().len(),
                i <= n,
                *self == *old(self),
                forall|m: int| 0 <= m < i ==> !entry_has_key(self.entries(), m, key@),
            decreases n - i,
        {
            if compare_bytes(&self.env[i].0, key) {
                proof {
                    assert(entry_has_key(self.entries(), i as int, key@));
                }
                let pair = (copy_bytes(key), copy_bytes(value));
                self.env[i] = pair;
                proof {
                    if old(self).wf() {
                        assert(self.entries() =~= old(self).entries().update(
                            i as int,
                            (key@, value@),
                        ));
                        assert(old(self).entries()[i as int].0 == key@);
                        assert forall|p: int, q: int|
                            0 <= p < self.entries().len() && 0 <= q < self.entries().len()
                                && p != q implies #[trigger] self.entries()[p].0
                            != #[trigger] self.entries()[q].0 by {
                            assert(old(self).entries()[p].0 != old(self).entries()[q].0);
                        }
                        assert(entry_has_key(self.entries(), i as int, key@));
                    }
                }
                return ;
            }
            proof {
                assert(!entry_has_key(self.entries(), i as int, key@));
            }
            i = i + 1;
        }
        proof {
            if old(self).wf() {
                assert(!old(self).has_key(key@));
            }
        }
        let pair = (copy_bytes(key), copy_bytes(value));
        self.env.push(pair);
        proof {
            if old(self).wf() {
                assert(self.entries() =~= old(self).entries().push((key@, value@)));
                assert forall|p: int, q: int|
                    0 <= p < self.entries().len() && 0 <= q < self.entries().len() && p != q
                    implies #[trigger] self.entries()[p].0 != #[trigger] self.entries()[q].0 by {
                    if p < old(self).entries().len() && q < old(self).entries().len() {
                    } else if p < old(self).entries().len() {
                        assert(!entry_has_key(old(self).entries(), p, key@));
                    } else {
                        assert(!entry_has_key(old(self).entries(), q, key@));
                    }
                }
                assert(entry_has_key(self.entries(), self.entries().len() - 1, key@));
            }
        }
    }

    /// Removes a variable if present; afterwards the key is gone and
    /// every other pair is kept, in order.
    pub fn remove(&mut self, key: &[u8])
        requires
            old(self).wf(),
        ensures
            final(self).wf(),
            !final(self).has_key(key@),
            old(self).has_key(key@) ==> exists|i: int|
                {
                    &&& #[trigger] entry_has_key(old(self).entries(), i, key@)
                    &&& final(self).entries() == old(self).entries().remove(i)
                },
            !old(self).has_key(key@) ==> final(self).entries() == old(self).entries(),
    {
        let n = self.env.len();
        let mut i: usize = 0;
        while i < n
            invariant
                n == self.entries().len(),
                i <= n,
                *self == *old(self),
                old(self).wf(),
                forall|m: int| 0 <= m < i ==> !entry_has_key(self.entries(), m, key@),
            decreases n - i,
        {
            if compare_bytes(&self.env[i].0, key) {
                proof {
                    assert(entry_has_key(self.entries(), i as int, key@));
                }
                self.env.remove(i);
                proof {
                    old(self).entries().remove_ensures(i as int);
                    assert(self.entries() =~= old(self).entries().remove(i as int));
                    assert forall|p: int, q: int|
                        0 <= p < self.entries().len() && 0 <= q < self.entries().len() && p != q
                        implies #[trigger] self.entries()[p].0 != #[trigger] self.entries()[q].0
                        by {
                        let op = if p < i { p } else { p + 1 };
                        let oq = if q < i { q } else { q + 1 };
                        assert(old(self).entries()[op].0 != old(self).entries()[oq].0);
                    }
                    assert forall|m: int| !entry_has_key(self.entries(), m, key@) by {
                        if 0 <= m < self.entries().len() {
                            let om = if m < i { m } else { m + 1 };
                            if om != i {
                                assert(old(self).entries()[om].0 != old(self).entries()[
                                    i as int].0);
                            }
                        }
                    }
                }
                return ;
            }
            proof {
                assert(!entry_has_key(self.entries(), i as int, key@));
            }
            i = i + 1;
        }
    }

    /// Removes every variable.
    pub fn clear(&mut self)
        ensures
            final(self).wf(),
            final(self).entries() == Seq::<(Seq<u8>, Seq<u8>)>::empty(),
    {
        self.env.clear();
        proof {
            assert(self.entries() =~= Seq::<(Seq<u8>, Seq<u8>)>::empty());
        }
    }
}

/// Byte-for-byte equality of two byte strings.
fn compare_bytes(a: &[u8], b: &[u8]) -> (r: bool)
    ensures
        r == (a@ == b@),
{
    if a.len() != b.len() {
        proof {
            assert(a@.len() != b@.len());
        }
        return false;
    }
    let n = a.len();
    let mut i: usize = 0;
    while i < n
        invariant
            n == a@.len(),
            n == b@.len(),
            i <= n,
            forall|m: int| 0 <= m < i ==> a@[m] == b@[m],
        decreases n - i,
    {
        if a[i] != b[i] {
            return false;
        }
        i = i + 1;
    }
    proof {
        assert(a@ =~= b@);
    }
    true
}

/// An owned copy of a byte string.
fn copy_bytes(data: &[u8]) -> (r: Vec<u8>)
    ensures
        r@ == data@,
{
    let mut v: Vec<u8> = Vec::new();
    let mut i: usize = 0;
    while i < data.len()
        invariant
            i <= data@.len(),
            v@ == data@.take(i as int),
        decreases data@.len() - i,
    {
        v.push(data[i]);
        proof {
            assert(v@ =~= data@.take(i as int + 1));
        }
        i = i + 1;
    }
    proof {
        assert(v@ =~= data@);
    }
    v
}

} // verus!
