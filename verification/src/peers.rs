//! The live-peer set: the peers with an open connection, held with set
//! semantics (a peer is in or out, never counted twice).

use vstd::prelude::*;

verus! {

broadcast use vstd::prelude::Seq::lemma_push_to_set_commute, vstd::seq_lib::seq_to_set_is_finite;

/// The set of currently live peers, each named by its numeric identifier.
pub struct PeerSet {
    ids: Vec<u64>,
}

impl View for PeerSet {
    type V = Set<u64>;

    /// The mathematical set of held peer identifiers.
    closed spec fn view(&self) -> Set<u64> {
        self.ids@.to_set()
    }
}

impl PeerSet {
    /// The identifiers in storage order, without duplicates.
    pub closed spec fn id_seq(&self) -> Seq<u64> {
        self.ids@
    }

    /// Well-formedness: no peer is stored twice.
    pub closed spec fn wf(&self) -> bool {
        self.ids@.no_duplicates()
    }

    pub fn new() -> (r: PeerSet)
        ensures
            r.wf(),
            r@ == Set::<u64>::empty(),
            r.id_seq() == Seq::<u64>::empty(),
    {
        let ids: Vec<u64> = Vec::new();
        proof {
            assert(ids@.to_set() =~= Set::<u64>::empty());
        }
        PeerSet { ids }
    }

    pub fn contains(&self, p: u64) -> (r: bool)
        requires
            self.wf(),
        ensures
            r == self@.contains(p),
    {
        let n = self.ids.len();
        let mut i: usize = 0;
        while i < n
            invariant
                i <= n,
                n == self.ids.len(),
                forall|k: int| 0 <= k < i ==> self.ids@[k] != p,
            decreases n - i,
        {
            if self.ids[i] == p {
                proof {
                    assert(self.ids@.contains(p));
                }
                return true;
            }
            i += 1;
        }
        proof {
            assert(!self.ids@.contains(p));
        }
        false
    }

    /// Adds a peer; adding one already held changes nothing, so the stored
    /// order (and with it the size) is unchanged in that case.
    pub fn insert(&mut self, p: u64)
        requires
            old(self).wf(),
        ensures
            final(self).wf(),
            final(self)@ == old(self)@.insert(p),
            old(self)@.contains(p) ==> final(self).id_seq() == old(self).id_seq(),
            !old(self)@.contains(p) ==> final(self).id_seq() == old(self).id_seq().push(p),
    {
        if !self.contains(p) {
            self.ids.push(p);
        } else {
            proof {
                assert(old(self)@.insert(p) =~= old(self)@);
            }
        }
    }

    /// Drops a peer; dropping one not held changes nothing.
    pub fn remove(&mut self, p: u64)
        requires
            old(self).wf(),
        ensures
            final(self).wf(),
            final(self)@ == old(self)@.remove(p),
            !final(self)@.contains(p),
    {
        let n = self.ids.len();
        let mut i: usize = 0;
        while i < n
            invariant
                i <= n,
                n == self.ids.len(),
                self == old(self),
                self.ids@.no_duplicates(),
                forall|k: int| 0 <= k < i ==> self.ids@[k] != p,
            decreases n - i,
        {
            if self.ids[i] == p {
                proof {
                    lemma_remove_at(self.ids@, i as int);
                }
                self.ids.remove(i);
                proof {
                    assert(final(self)@ =~= old(self)@.remove(p));
                }
                return;
            }
            i += 1;
        }
        proof {
            assert(!self.ids@.contains(p));
            assert(old(self)@.remove(p) =~= old(self)@);
        }
    }

    /// The live peers as a plain vector, in storage order.
    pub fn to_vec(&self) -> (r: Vec<u64>)
        requires
            self.wf(),
        ensures
            r@ == self.id_seq(),
            r@.to_set() == self@,
            r@.no_duplicates(),
    {
        let n = self.ids.len();
        let mut r: Vec<u64> = Vec::new();
        let mut i: usize = 0;
        while i < n
            invariant
                i <= n,
                n == self.ids.len(),
                r@ == self.ids@.take(i as int),
            decreases n - i,
        {
            r.push(self.ids[i]);
            proof {
                assert(self.ids@.take(i + 1 as int) =~= self.ids@.take(i as int).push(
                    self.ids@[i as int],
                ));
            }
            i += 1;
        }
        proof {
            assert(self.ids@.take(n as int) =~= self.ids@);
        }
        r
    }

    pub fn len(&self) -> (n: usize)
        requires
            self.wf(),
        ensures
            n == self@.len(),
    {
        proof {
            self.ids@.unique_seq_to_set();
        }
        self.ids.len()
    }
}

/// Removing the element at a duplicate-free position keeps the sequence
/// duplicate-free and takes exactly that element out of the member set.
proof fn lemma_remove_at(s: Seq<u64>, i: int)
    requires
        0 <= i < s.len(),
        s.no_duplicates(),
    ensures
        s.remove(i).no_duplicates(),
        s.remove(i).to_set() =~= s.to_set().remove(s[i]),
{
    let r = s.remove(i);
    s.remove_ensures(i);
    assert forall|a: int, b: int| 0 <= a < b < r.len() implies r[a] != r[b] by {
        let oa: int = if a < i { a } else { a + 1 };
        let ob: int = if b < i { b } else { b + 1 };
        assert(r[a] == s[oa]);
        assert(r[b] == s[ob]);
    }
    assert forall|x: u64| r.to_set().contains(x) implies s.to_set().remove(s[i]).contains(x) by {
        let j = choose|j: int| 0 <= j < r.len() && r[j] == x;
        let oj: int = if j < i { j } else { j + 1 };
        assert(s[oj] == x);
        assert(s.contains(x));
        assert(x != s[i]);
    }
    assert forall|x: u64| s.to_set().remove(s[i]).contains(x) implies r.to_set().contains(x) by {
        let j = choose|j: int| 0 <= j < s.len() && s[j] == x;
        if j < i {
            assert(r[j] == x);
        } else {
            assert(j > i);
            assert(r[j - 1] == x);
        }
        assert(r.contains(x));
    }
}

} // verus!
