use crate::crypto::HashOf;
use vstd::prelude::*;

verus! {

/// The voters recorded for digest `d` in a tally (none if `d` is absent).
pub open spec fn voters_in(m: Map<Seq<u8>, Seq<usize>>, d: Seq<u8>) -> Seq<usize> {
    if m.contains_key(d) {
        m[d]
    } else {
        Seq::empty()
    }
}

/// The tally after recording that `v` voted for digest `d`: a voter already
/// recorded for `d` changes nothing.
pub open spec fn recorded(m: Map<Seq<u8>, Seq<usize>>, d: Seq<u8>, v: usize) -> Map<
    Seq<u8>,
    Seq<usize>,
> {
    if voters_in(m, d).contains(v) {
        m
    } else {
        m.insert(d, voters_in(m, d).push(v))
    }
}

/// Whether `count` votes among `n` participants form a quorum: strictly more
/// than `floor(2n/3) + 1`.
pub open spec fn quorum_reached(count: int, n: int) -> bool {
    count > (2 * n) / 3 + 1
}

/// Whether `count` votes among `n` participants form a quorum.
pub fn has_quorum(count: usize, n: usize) -> (r: bool)
    ensures
        r == quorum_reached(count as int, n as int),
{
    let bound: u128 = (2 * (n as u128)) / 3 + 1;
    (count as u128) > bound
}

/// For each block digest, the distinct voters that voted for it.
pub struct VoteTally {
    digests: Vec<HashOf>,
    voters: Vec<Vec<usize>>,
    model: Ghost<Map<Seq<u8>, Seq<usize>>>,
}

impl View for VoteTally {
    type V = Map<Seq<u8>, Seq<usize>>;

    closed spec fn view(&self) -> Map<Seq<u8>, Seq<usize>> {
        self.model@
    }
}

/// Whether `v` occurs in `s`.
fn contains_voter(s: &Vec<usize>, v: usize) -> (r: bool)
    ensures
        r == s@.contains(v),
{
    let mut i: usize = 0;
    while i < s.len()
        invariant
            i <= s@.len(),
            forall|k: int| 0 <= k < i ==> s@[k] != v,
        decreases s@.len() - i,
    {
        if s[i] == v {
            assert(s@[i as int] == v);
            return true;
        }
        i = i + 1;
    }
    false
}

impl VoteTally {
    /// The tally invariant: one entry per digest, each voter at most once per
    /// digest, and the model follows the entries.
    pub closed spec fn wf(&self) -> bool {
        &&& self.digests@.len() == self.voters@.len()
        &&& forall|i: int, j: int|
            0 <= i < j < self.digests@.len() ==> #[trigger] self.digests@[i]@ != #[trigger] self.digests@[j]@
        &&& forall|i: int|
            0 <= i < self.digests@.len() ==> {
                &&& self.model@.contains_key(#[trigger] self.digests@[i]@)
                &&& self.model@[self.digests@[i]@] == self.voters@[i]@
            }
        &&& forall|d: Seq<u8>|
            #[trigger] self.model@.contains_key(d) ==> exists|i: int|
                0 <= i < self.digests@.len() && #[trigger] self.digests@[i]@ == d
        &&& forall|d: Seq<u8>| #[trigger] self.model@.contains_key(d) ==> self.model@[d].no_duplicates()
    }

    /// An empty tally.
    pub fn new() -> (r: VoteTally)
        ensures
            r.wf(),
            r@ == Map::<Seq<u8>, Seq<usize>>::empty(),
    {
        VoteTally { digests: Vec::new(), voters: Vec::new(), model: Ghost(Map::empty()) }
    }

    /// The index of the entry for `digest`, if there is one.
    fn find(&self, digest: &HashOf) -> (r: Option<usize>)
        requires
            self.wf(),
        ensures
            r matches Some(i) ==> i < self.digests@.len() && self.digests@[i as int]@ == digest@,
            r is None ==> !self@.contains_key(digest@),
    {
        let mut i: usize = 0;
        while i < self.digests.len()
            invariant
                self.wf(),
                i <= self.digests@.len(),
                forall|k: int| 0 <= k < i ==> self.digests@[k]@ != digest@,
            decreases self.digests@.len() - i,
        {
            if self.digests[i] == *digest {
                return Some(i);
            }
            i = i + 1;
        }
        proof {
            if self@.contains_key(digest@) {
                let k = choose|k: int| 0 <= k < self.digests@.len() && #[trigger] self.digests@[k]@ == digest@;
                assert(self.digests@[k]@ != digest@);
            }
        }
        None
    }

    /// The number of distinct voters recorded for `digest`.
    pub fn vote_count(&self, digest: &HashOf) -> (r: usize)
        requires
            self.wf(),
        ensures
            r == voters_in(self@, digest@).len(),
    {
        match self.find(digest) {
            Some(i) => self.voters[i].len(),
            None => 0,
        }
    }

    /// Records that `voter` voted for `digest`. Returns the number of distinct
    /// voters for `digest` afterwards, and whether this voter was new to it.
    pub fn record_vote(&mut self, digest: &HashOf, voter: usize) -> (r: (usize, bool))
        requires
            old(self).wf(),
        ensures
            final(self).wf(),
            final(self)@ == recorded(old(self)@, digest@, voter),
            r.1 == !voters_in(old(self)@, digest@).contains(voter),
            r.0 == voters_in(final(self)@, digest@).len(),
    {
        match self.find(digest) {
            Some(i) => {
                if contains_voter(&self.voters[i], voter) {
                    return (self.voters[i].len(), false);
                }
                let ghost old_digests = self.digests@;
                let ghost old_voters = self.voters@;
                let mut vs = self.voters[i].clone();
                assert(vs@ =~= old_voters[i as int]@);
                vs.push(voter);
                self.voters.set(i, vs);
                self.model = Ghost(self.model@.insert(digest@, self.voters@[i as int]@));
                proof {
                    assert forall|k: int| 0 <= k < self.digests@.len() implies {
                        &&& self.model@.contains_key(#[trigger] self.digests@[k]@)
                        &&& self.model@[self.digests@[k]@] == self.voters@[k]@
                    } by {
                        if k != i {
                            assert(old_digests[k]@ != old_digests[i as int]@);
                        }
                    }
                    assert forall|d: Seq<u8>| #[trigger] self.model@.contains_key(d) implies exists|k: int|
                        0 <= k < self.digests@.len() && #[trigger] self.digests@[k]@ == d by {
                        if d == digest@ {
                            assert(self.digests@[i as int]@ == d);
                        } else {
                            assert(old(self).model@.contains_key(d));
                            let k = choose|k: int| 0 <= k < old_digests.len() && #[trigger] old_digests[k]@ == d;
                            assert(self.digests@[k]@ == d);
                        }
                    }
                }
                (self.voters[i].len(), true)
            },
            None => {
                let ghost old_len = self.digests@.len();
                self.digests.push(digest.clone());
                let mut vs: Vec<usize> = Vec::new();
                vs.push(voter);
                self.voters.push(vs);
                self.model = Ghost(self.model@.insert(digest@, seq![voter]));
                proof {
                    assert(voters_in(old(self)@, digest@) =~= Seq::<usize>::empty());
                    assert(seq![voter] =~= Seq::<usize>::empty().push(voter));
                    assert(self.digests@[old_len as int]@ == digest@);
                    assert forall|d: Seq<u8>| #[trigger] self.model@.contains_key(d) implies exists|k: int|
                        0 <= k < self.digests@.len() && #[trigger] self.digests@[k]@ == d by {
                        if d != digest@ {
                            let k = choose|k: int| 0 <= k < old(self).digests@.len() && #[trigger] old(self).digests@[k]@ == d;
                            assert(self.digests@[k]@ == d);
                        }
                    }
                }
                (1, true)
            },
        }
    }
}

/// Recording the same vote twice leaves the tally as the first recording left it.
pub proof fn lemma_vote_idempotent(m: Map<Seq<u8>, Seq<usize>>, d: Seq<u8>, v: usize)
    ensures
        recorded(recorded(m, d, v), d, v) == recorded(m, d, v),
        voters_in(recorded(recorded(m, d, v), d, v), d).len() == voters_in(recorded(m, d, v), d).len(),
        voters_in(recorded(m, d, v), d).contains(v),
{
    let once = recorded(m, d, v);
    if !voters_in(m, d).contains(v) {
        assert(once.contains_key(d));
        assert(voters_in(once, d) == voters_in(m, d).push(v));
        assert(voters_in(once, d)[voters_in(m, d).len() as int] == v);
    }
}

} // verus!
