use crate::blockchain::{block_digest, chain_valid, Block, BlockChain, BlockHeight, BlockModel};
use crate::crypto::{
    bytes_lt, lemma_bytes_lt_asymmetric, lemma_bytes_lt_total, lemma_bytes_lt_transitive, HashOf,
};
use vstd::prelude::*;

verus! {

/// The digest of a chain's last block.
pub open spec fn tip_digest(c: Seq<BlockModel>) -> Seq<u8> {
    block_digest(c.last())
}

/// The plain values of a list of chains.
pub open spec fn chains_model(l: Seq<BlockChain>) -> Seq<Seq<BlockModel>> {
    l.map_values(|c: BlockChain| c@)
}

/// The plain values of the levels of a store.
pub open spec fn levels_model(ls: Seq<Vec<BlockChain>>) -> Seq<Seq<Seq<BlockModel>>> {
    ls.map_values(|l: Vec<BlockChain>| chains_model(l@))
}

/// Whether some chain in `level` ends in a block with digest `d`.
pub open spec fn has_tip(level: Seq<Seq<BlockModel>>, d: Seq<u8>) -> bool {
    exists|j: int| 0 <= j < level.len() && tip_digest(#[trigger] level[j]) == d
}

/// The fork-choice rule: chain `i` of `level` is preferred when its tip digest
/// comes strictly first in byte order among the tip digests of the level.
pub open spec fn is_preferred(level: Seq<Seq<BlockModel>>, i: int) -> bool {
    &&& 0 <= i < level.len()
    &&& forall|j: int|
        0 <= j < level.len() && j != i ==> bytes_lt(tip_digest(level[i]), tip_digest(#[trigger] level[j]))
}

/// Whether the levels of a store are consistent: level `h` holds valid chains
/// of height `h + 1` with distinct tips, and the top level is not empty.
pub open spec fn levels_valid(ls: Seq<Seq<Seq<BlockModel>>>) -> bool {
    &&& ls.len() >= 1
    &&& ls.last().len() >= 1
    &&& forall|h: int, j: int|
        0 <= h < ls.len() && 0 <= j < ls[h].len() ==> chain_valid(#[trigger] ls[h][j]) && ls[h][j].len()
            == h + 1
    &&& forall|h: int, i: int, j: int|
        0 <= h < ls.len() && 0 <= i < ls[h].len() && 0 <= j < ls[h].len() && i != j ==> tip_digest(
            #[trigger] ls[h][i],
        ) != tip_digest(#[trigger] ls[h][j])
}

/// The levels after recording chain `c`: at its own height, unless a chain with
/// the same tip is there already; levels in between are added empty.
pub open spec fn with_fork(ls: Seq<Seq<Seq<BlockModel>>>, c: Seq<BlockModel>) -> Seq<Seq<Seq<BlockModel>>> {
    if c.len() > ls.len() {
        ls + Seq::new((c.len() - 1 - ls.len()) as nat, |i: int| Seq::<Seq<BlockModel>>::empty()) + seq![seq![c]]
    } else if has_tip(ls[c.len() - 1], tip_digest(c)) {
        ls
    } else {
        ls.update(c.len() - 1, ls[c.len() - 1].push(c))
    }
}

/// The preferred chain of a level (meaningful for a non-empty level with
/// distinct tips).
pub open spec fn preferred_in(level: Seq<Seq<BlockModel>>) -> Seq<BlockModel> {
    level[choose|i: int| is_preferred(level, i)]
}

/// At most one chain of a level is preferred.
pub proof fn lemma_preferred_unique(level: Seq<Seq<BlockModel>>, i: int, k: int)
    requires
        is_preferred(level, i),
        is_preferred(level, k),
    ensures
        i == k,
{
    if i != k {
        lemma_bytes_lt_asymmetric(tip_digest(level[i]), tip_digest(level[k]));
    }
}

/// The levels after chain `j` of the top level was extended by block `b`: the
/// chain leaves the top level and, extended, forms a new level above it.
pub open spec fn appended_at(ls: Seq<Seq<Seq<BlockModel>>>, j: int, b: BlockModel) -> Seq<Seq<Seq<BlockModel>>> {
    ls.update(ls.len() - 1, ls.last().remove(j)).push(seq![ls.last()[j].push(b)])
}

/// The levels after trying to append block `b`: the chain of the top level whose
/// tip is `b`'s parent is extended, or nothing changes when there is none.
pub open spec fn append_result(ls: Seq<Seq<Seq<BlockModel>>>, b: BlockModel) -> Seq<Seq<Seq<BlockModel>>> {
    match b.prev_hash {
        Some(p) => if has_tip(ls.last(), p) {
            appended_at(ls, choose|j: int| 0 <= j < ls.last().len() && tip_digest(#[trigger] ls.last()[j]) == p, b)
        } else {
            ls
        },
        None => ls,
    }
}

/// Extending a chain of the top level by a block that keeps it valid keeps the
/// levels consistent.
proof fn lemma_appended_valid(ls: Seq<Seq<Seq<BlockModel>>>, j: int, b: BlockModel)
    requires
        levels_valid(ls),
        0 <= j < ls.last().len(),
        chain_valid(ls.last()[j].push(b)),
    ensures
        levels_valid(appended_at(ls, j, b)),
{
    let last = ls.len() - 1;
    let n = appended_at(ls, j, b);
    assert forall|h: int, k: int| 0 <= h < n.len() && 0 <= k < n[h].len() implies chain_valid(
        #[trigger] n[h][k],
    ) && n[h][k].len() == h + 1 by {
        if h == last {
            if k < j {
                assert(n[h][k] == ls[h][k]);
            } else {
                assert(n[h][k] == ls[h][k + 1]);
            }
        }
    }
    assert forall|h: int, a: int, c: int|
        0 <= h < n.len() && 0 <= a < n[h].len() && 0 <= c < n[h].len() && a != c implies tip_digest(
        #[trigger] n[h][a],
    ) != tip_digest(#[trigger] n[h][c]) by {
        if h == last {
            let a0 = if a < j { a } else { a + 1 };
            let c0 = if c < j { c } else { c + 1 };
            assert(n[h][a] == ls[h][a0]);
            assert(n[h][c] == ls[h][c0]);
        }
    }
}

/// Recording a valid chain above every known level keeps the levels consistent.
proof fn lemma_new_level_valid(ls: Seq<Seq<Seq<BlockModel>>>, c: Seq<BlockModel>)
    requires
        levels_valid(ls),
        chain_valid(c),
        c.len() > ls.len(),
    ensures
        levels_valid(with_fork(ls, c)),
{
    let n = with_fork(ls, c);
    assert forall|h: int, k: int| 0 <= h < n.len() && 0 <= k < n[h].len() implies chain_valid(
        #[trigger] n[h][k],
    ) && n[h][k].len() == h + 1 by {
        if h < ls.len() {
            assert(n[h] == ls[h]);
        } else if h < n.len() - 1 {
            assert(n[h].len() == 0);
        }
    }
    assert forall|h: int, a: int, b: int|
        0 <= h < n.len() && 0 <= a < n[h].len() && 0 <= b < n[h].len() && a != b implies tip_digest(
        #[trigger] n[h][a],
    ) != tip_digest(#[trigger] n[h][b]) by {
        if h < ls.len() {
            assert(n[h] == ls[h]);
        } else if h < n.len() - 1 {
            assert(n[h].len() == 0);
        }
    }
}

/// Recording a valid chain with a new tip at a known level keeps the levels
/// consistent.
proof fn lemma_level_push_valid(ls: Seq<Seq<Seq<BlockModel>>>, c: Seq<BlockModel>)
    requires
        levels_valid(ls),
        chain_valid(c),
        1 <= c.len() <= ls.len(),
        !has_tip(ls[c.len() - 1], tip_digest(c)),
    ensures
        levels_valid(with_fork(ls, c)),
{
    let n = with_fork(ls, c);
    let t = c.len() - 1;
    assert forall|h: int, a: int, b: int|
        0 <= h < n.len() && 0 <= a < n[h].len() && 0 <= b < n[h].len() && a != b implies tip_digest(
        #[trigger] n[h][a],
    ) != tip_digest(#[trigger] n[h][b]) by {
        if h == t {
            if a == ls[t].len() {
                assert(tip_digest(ls[t][b]) != tip_digest(c));
            } else if b == ls[t].len() {
                assert(tip_digest(ls[t][a]) != tip_digest(c));
            } else {
                assert(n[h][a] == ls[h][a] && n[h][b] == ls[h][b]);
            }
        }
    }
    assert forall|h: int, k: int| 0 <= h < n.len() && 0 <= k < n[h].len() implies chain_valid(
        #[trigger] n[h][k],
    ) && n[h][k].len() == h + 1 by {
        if h == t && k < ls[t].len() {
            assert(n[h][k] == ls[h][k]);
        }
    }
}

/// For each height, the chains of that height that a node knows of.
pub struct ChainStore {
    levels: Vec<Vec<BlockChain>>,
}

impl View for ChainStore {
    type V = Seq<Seq<Seq<BlockModel>>>;

    closed spec fn view(&self) -> Seq<Seq<Seq<BlockModel>>> {
        levels_model(self.levels@)
    }
}

/// The index of the chain of `level` whose tip has digest `d`, if there is one.
fn find_tip(level: &Vec<BlockChain>, d: &HashOf) -> (r: Option<usize>)
    requires
        forall|j: int| 0 <= j < level@.len() ==> (#[trigger] level@[j]).wf(),
    ensures
        r matches Some(j) ==> j < level@.len() && tip_digest(level@[j as int]@) == d@,
        r is None ==> !has_tip(chains_model(level@), d@),
{
    let mut j: usize = 0;
    while j < level.len()
        invariant
            j <= level@.len(),
            forall|k: int| 0 <= k < level@.len() ==> (#[trigger] level@[k]).wf(),
            forall|k: int| 0 <= k < j ==> tip_digest((#[trigger] level@[k])@) != d@,
        decreases level@.len() - j,
    {
        if level[j].get_latest_block_hash() == *d {
            return Some(j);
        }
        j = j + 1;
    }
    proof {
        let m = chains_model(level@);
        if has_tip(m, d@) {
            let k = choose|k: int| 0 <= k < m.len() && tip_digest(#[trigger] m[k]) == d@;
            assert(tip_digest(level@[k]@) != d@);
        }
    }
    None
}

/// The index of the preferred chain of a non-empty level.
fn preferred_index(level: &Vec<BlockChain>) -> (r: usize)
    requires
        level@.len() >= 1,
        forall|j: int| 0 <= j < level@.len() ==> (#[trigger] level@[j]).wf(),
        forall|i: int, j: int|
            0 <= i < level@.len() && 0 <= j < level@.len() && i != j ==> tip_digest(
                (#[trigger] level@[i])@,
            ) != tip_digest((#[trigger] level@[j])@),
    ensures
        is_preferred(chains_model(level@), r as int),
{
    let ghost m = chains_model(level@);
    let mut best: usize = 0;
    let mut best_digest = level[0].get_latest_block_hash();
    let mut j: usize = 1;
    while j < level.len()
        invariant
            m == chains_model(level@),
            1 <= j <= level@.len(),
            best < j,
            best_digest@ == tip_digest(m[best as int]),
            forall|k: int| 0 <= k < level@.len() ==> (#[trigger] level@[k]).wf(),
            forall|i: int, k: int|
                0 <= i < level@.len() && 0 <= k < level@.len() && i != k ==> tip_digest(
                    (#[trigger] level@[i])@,
                ) != tip_digest((#[trigger] level@[k])@),
            forall|k: int| 0 <= k < j && k != best ==> bytes_lt(best_digest@, tip_digest(#[trigger] m[k])),
        decreases level@.len() - j,
    {
        let d = level[j].get_latest_block_hash();
        assert(m[j as int] == level@[j as int]@);
        if d.less_than(&best_digest) {
            proof {
                assert forall|k: int| 0 <= k < j + 1 && k != j implies bytes_lt(d@, tip_digest(#[trigger] m[k])) by {
                    if k != best {
                        lemma_bytes_lt_transitive(d@, best_digest@, tip_digest(m[k]));
                    }
                }
            }
            best = j;
            best_digest = d;
        } else {
            proof {
                assert(level@[j as int]@ == m[j as int] && level@[best as int]@ == m[best as int]);
                lemma_bytes_lt_total(d@, best_digest@);
            }
        }
        j = j + 1;
    }
    best
}

impl ChainStore {
    /// The store invariant.
    pub closed spec fn wf(&self) -> bool {
        levels_valid(self@)
    }

    /// Every chain the store holds is valid.
    proof fn lemma_chains_wf(&self)
        requires
            self.wf(),
        ensures
            forall|h: int, j: int|
                0 <= h < self.levels@.len() && 0 <= j < self.levels@[h]@.len() ==> (
                #[trigger] self.levels@[h]@[j]).wf() && self.levels@[h]@[j]@ == self@[h][j],
    {
        assert forall|h: int, j: int|
            0 <= h < self.levels@.len() && 0 <= j < self.levels@[h]@.len() implies (
            #[trigger] self.levels@[h]@[j]).wf() && self.levels@[h]@[j]@ == self@[h][j] by {
            assert(self@[h] == chains_model(self.levels@[h]@));
            assert(self@[h][j] == self.levels@[h]@[j]@);
        }
    }

    /// A store that knows the genesis chain alone.
    pub fn new() -> (r: ChainStore)
        ensures
            r.wf(),
            r@ == seq![seq![seq![crate::blockchain::genesis_model()]]],
    {
        let mut level: Vec<BlockChain> = Vec::new();
        level.push(BlockChain::new());
        assert(chains_model(level@) =~= seq![seq![crate::blockchain::genesis_model()]]);
        let mut levels: Vec<Vec<BlockChain>> = Vec::new();
        levels.push(level);
        let r = ChainStore { levels };
        assert(r@ =~= seq![seq![seq![crate::blockchain::genesis_model()]]]);
        r
    }

    /// The greatest height the store knows of.
    pub fn longest_known_height(&self) -> (r: BlockHeight)
        ensures
            r == self@.len(),
    {
        self.levels.len()
    }

    /// The chains of height `height` (none for a height the store does not hold).
    pub fn candidates_at(&self, height: BlockHeight) -> (r: Vec<BlockChain>)
        requires
            self.wf(),
        ensures
            1 <= height <= self@.len() ==> chains_model(r@) == self@[height - 1],
            !(1 <= height <= self@.len()) ==> r@.len() == 0,
    {
        let mut r: Vec<BlockChain> = Vec::new();
        if height == 0 || height > self.levels.len() {
            return r;
        }
        let level = &self.levels[height - 1];
        let ghost m = self@[height - 1];
        assert(m == chains_model(level@));
        let mut j: usize = 0;
        while j < level.len()
            invariant
                m == chains_model(level@),
                j <= level@.len(),
                chains_model(r@) =~= m.subrange(0, j as int),
            decreases level@.len() - j,
        {
            let c = level[j].clone();
            let ghost prev = r@;
            r.push(c);
            assert(chains_model(r@) =~= chains_model(prev).push(c@));
            j = j + 1;
            assert(chains_model(r@) =~= m.subrange(0, j as int));
        }
        assert(m.subrange(0, m.len() as int) =~= m);
        r
    }

    /// Records `chain` at its own height. A chain whose tip is already known at
    /// that height is not added again. Returns whether the store changed.
    pub fn record_fork(&mut self, chain: BlockChain) -> (r: bool)
        requires
            old(self).wf(),
            chain.wf(),
        ensures
            final(self).wf(),
            final(self)@ == with_fork(old(self)@, chain@),
            r == !(chain@.len() <= old(self)@.len() && has_tip(old(self)@[chain@.len() - 1], tip_digest(chain@))),
    {
        proof {
            self.lemma_chains_wf();
            reveal(chain_valid);
        }
        let ghost old_model = self@;
        let h = chain.block_height();
        if h > self.levels.len() {
            while self.levels.len() < h - 1
                invariant
                    h == chain@.len(),
                    old_model.len() <= self.levels@.len() <= h - 1,
                    levels_model(self.levels@) =~= old_model + Seq::new(
                        (self.levels@.len() - old_model.len()) as nat,
                        |i: int| Seq::<Seq<BlockModel>>::empty(),
                    ),
                decreases h - self.levels@.len(),
            {
                let ghost prev = self.levels@;
                let empty: Vec<BlockChain> = Vec::new();
                assert(chains_model(empty@) =~= Seq::<Seq<BlockModel>>::empty());
                self.levels.push(empty);
                assert(levels_model(self.levels@) =~= levels_model(prev).push(Seq::empty()));
                assert(levels_model(self.levels@) =~= old_model + Seq::new(
                        (self.levels@.len() - old_model.len()) as nat,
                        |i: int| Seq::<Seq<BlockModel>>::empty(),
                    ));
            }
            let ghost prev = self.levels@;
            let ghost c = chain@;
            let mut level: Vec<BlockChain> = Vec::new();
            level.push(chain);
            assert(chains_model(level@) =~= seq![c]);
            self.levels.push(level);
            proof {
                assert(levels_model(self.levels@) =~= levels_model(prev).push(seq![c]));
                assert(self@ =~= with_fork(old_model, c));
                lemma_new_level_valid(old_model, c);
            }
            return true;
        }
        let d = chain.get_latest_block_hash();
        assert(forall|j: int| 0 <= j < self.levels@[h - 1]@.len() ==> chains_model(self.levels@[h - 1]@)[j] == (#[trigger] self.levels@[h - 1]@[j])@);
        match find_tip(&self.levels[h - 1], &d) {
            Some(_) => false,
            None => {
                let ghost c = chain@;
                let ghost prev = self.levels@;
                self.levels[h - 1].push(chain);
                proof {
                    assert(chains_model(self.levels@[h - 1]@) =~= chains_model(prev[h - 1]@).push(c));
                    assert(self@ =~= with_fork(old_model, c));
                    lemma_level_push_valid(old_model, c);
                }
                true
            },
        }
    }

    /// The preferred chain among those of the greatest known height.
    pub fn preferred_chain(&self) -> (r: &BlockChain)
        requires
            self.wf(),
        ensures
            r@ == preferred_in(self@.last()),
            r.wf(),
    {
        proof {
            self.lemma_chains_wf();
        }
        let top = &self.levels[self.levels.len() - 1];
        assert(forall|j: int| 0 <= j < top@.len() ==> chains_model(top@)[j] == (#[trigger] top@[j])@);
        assert(self@.last() == chains_model(top@));
        let i = preferred_index(top);
        proof {
            let k = choose|k: int| is_preferred(self@.last(), k);
            lemma_preferred_unique(self@.last(), i as int, k);
        }
        &top[i]
    }

    /// Extends, with `block`, the chain of the greatest known height whose tip
    /// is the block's parent, and records the result one level higher. Does
    /// nothing when no such chain exists.
    pub fn try_append_block(&mut self, block: &Block) -> (r: bool)
        requires
            old(self).wf(),
        ensures
            final(self).wf(),
            r == (block@.prev_hash matches Some(p) && has_tip(old(self)@.last(), p)),
            final(self)@ == append_result(old(self)@, block@),
    {
        let p = match &block.prev_hash {
            Some(p) => p,
            None => return false,
        };
        proof {
            self.lemma_chains_wf();
        }
        let last = self.levels.len() - 1;
        assert(forall|j: int| 0 <= j < self.levels@[last as int]@.len() ==> chains_model(self.levels@[last as int]@)[j] == (#[trigger] self.levels@[last as int]@[j])@);
        let j = match find_tip(&self.levels[last], p) {
            Some(j) => j,
            None => return false,
        };
        let ghost old_levels = self.levels@;
        let ghost old_model = self@;
        let mut top = self.levels.pop().unwrap();
        assert(old_model.last() == chains_model(top@));
        let mut c = top.remove(j);
        assert(c@ == old_model.last()[j as int]);
        let res = c.add_block(block);
        assert(res is Ok);
        let ghost top_before = old_model.last();
        assert(chains_model(top@) =~= top_before.remove(j as int));
        self.levels.push(top);
        let mut level: Vec<BlockChain> = Vec::new();
        level.push(c);
        assert(chains_model(level@) =~= seq![top_before[j as int].push(block@)]);
        self.levels.push(level);
        proof {
            assert(self@ =~= appended_at(old_model, j as int, block@));
            lemma_appended_valid(old_model, j as int, block@);
            let top_m = old_model.last();
            assert(tip_digest(top_m[j as int]) == p@);
            let k = choose|k: int| 0 <= k < top_m.len() && tip_digest(#[trigger] top_m[k]) == p@;
            assert(k == j);
        }
        true
    }
}

} // verus!
