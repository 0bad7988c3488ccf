use crate::crypto::{sha256, HashOf};
use vstd::prelude::*;

verus! {

/// An epoch number.
pub type EpochNum = u64;

/// A chain height; the genesis block alone has height 1.
pub type BlockHeight = usize;

/// The epoch a node starts in.
pub const INITIAL_EPOCH: u64 = 0;

/// What a block holds, as plain values: a digest is its bytes.
pub struct BlockModel {
    pub payload: Option<Seq<u8>>,
    pub prev_hash: Option<Seq<u8>>,
    pub epoch: u64,
}

/// The genesis block: no payload, no parent, epoch 0.
pub open spec fn genesis_model() -> BlockModel {
    BlockModel { payload: None, prev_hash: None, epoch: INITIAL_EPOCH }
}

/// The eight little-endian bytes of a `u64`.
pub open spec fn le_bytes(x: u64) -> Seq<u8> {
    seq![
        (x % 256) as u8,
        ((x / 0x100) % 256) as u8,
        ((x / 0x1_0000) % 256) as u8,
        ((x / 0x100_0000) % 256) as u8,
        ((x / 0x1_0000_0000) % 256) as u8,
        ((x / 0x100_0000_0000) % 256) as u8,
        ((x / 0x1_0000_0000_0000) % 256) as u8,
        ((x / 0x100_0000_0000_0000) % 256) as u8,
    ]
}

/// An absent payload is one zero byte; a present one is a one byte, its
/// length in eight little-endian bytes, then its bytes.
pub open spec fn payload_bytes(p: Option<Seq<u8>>) -> Seq<u8> {
    match p {
        None => seq![0u8],
        Some(d) => seq![1u8] + le_bytes(d.len() as u64) + d,
    }
}

/// An absent parent digest is one zero byte; a present one is a one byte,
/// then the digest.
pub open spec fn parent_bytes(h: Option<Seq<u8>>) -> Seq<u8> {
    match h {
        None => seq![0u8],
        Some(d) => seq![1u8] + d,
    }
}

/// The canonical encoding of a block: payload, parent digest, then epoch.
/// Digests and signatures are computed over it.
pub open spec fn block_bytes(b: BlockModel) -> Seq<u8> {
    payload_bytes(b.payload) + parent_bytes(b.prev_hash) + le_bytes(b.epoch)
}

/// The digest of a block.
pub open spec fn block_digest(b: BlockModel) -> Seq<u8> {
    sha256(block_bytes(b))
}

/// Appends bytes at the end of a buffer.
fn append_bytes(out: &mut Vec<u8>, src: &[u8])
    ensures
        final(out)@ == old(out)@ + src@,
{
    let mut i: usize = 0;
    while i < src.len()
        invariant
            i <= src@.len(),
            out@ == old(out)@ + src@.subrange(0, i as int),
        decreases src@.len() - i,
    {
        out.push(src[i]);
        i = i + 1;
        assert(out@ =~= old(out)@ + src@.subrange(0, i as int));
    }
    assert(src@.subrange(0, src@.len() as int) =~= src@);
}

/// Appends the eight little-endian bytes of `x`.
fn append_u64(out: &mut Vec<u8>, x: u64)
    ensures
        final(out)@ == old(out)@ + le_bytes(x),
{
    out.push((x % 256) as u8);
    out.push(((x / 0x100) % 256) as u8);
    out.push(((x / 0x1_0000) % 256) as u8);
    out.push(((x / 0x100_0000) % 256) as u8);
    out.push(((x / 0x1_0000_0000) % 256) as u8);
    out.push(((x / 0x100_0000_0000) % 256) as u8);
    out.push(((x / 0x1_0000_0000_0000) % 256) as u8);
    out.push(((x / 0x100_0000_0000_0000) % 256) as u8);
    assert(final(out)@ =~= old(out)@ + le_bytes(x));
}

/// A block: an optional payload, the digest of its parent, and its epoch.
pub struct Block {
    pub payload: Option<Vec<u8>>,
    pub prev_hash: Option<HashOf>,
    pub epoch: EpochNum,
}

impl View for Block {
    type V = BlockModel;

    open spec fn view(&self) -> BlockModel {
        BlockModel {
            payload: match self.payload {
                Some(p) => Some(p@),
                None => None,
            },
            prev_hash: match self.prev_hash {
                Some(h) => Some(h@),
                None => None,
            },
            epoch: self.epoch,
        }
    }
}

impl Clone for Block {
    fn clone(&self) -> (r: Block)
        ensures
            r@ == self@,
    {
        let payload = match &self.payload {
            Some(p) => Some(p.clone()),
            None => None,
        };
        let prev_hash = match &self.prev_hash {
            Some(h) => Some(h.clone()),
            None => None,
        };
        Block { payload, prev_hash, epoch: self.epoch }
    }
}

impl Block {
    /// A block that carries `payload` on top of the block whose digest is `prev_hash`.
    pub fn new(payload: Vec<u8>, prev_hash: HashOf, epoch: EpochNum) -> (r: Block)
        ensures
            r@ == (BlockModel { payload: Some(payload@), prev_hash: Some(prev_hash@), epoch }),
    {
        Block { payload: Some(payload), prev_hash: Some(prev_hash), epoch }
    }

    /// The genesis block, with no payload, no parent and epoch 0.
    pub fn genesis_block() -> (r: Block)
        ensures
            r@ == genesis_model(),
    {
        Block { payload: None, prev_hash: None, epoch: INITIAL_EPOCH }
    }

    /// The canonical encoding of this block.
    pub fn encode(&self) -> (r: Vec<u8>)
        ensures
            r@ == block_bytes(self@),
    {
        let mut out: Vec<u8> = Vec::new();
        match &self.payload {
            None => out.push(0u8),
            Some(p) => {
                out.push(1u8);
                append_u64(&mut out, p.len() as u64);
                append_bytes(&mut out, p.as_slice());
            },
        }
        match &self.prev_hash {
            None => out.push(0u8),
            Some(h) => {
                out.push(1u8);
                append_bytes(&mut out, h.as_bytes());
            },
        }
        append_u64(&mut out, self.epoch);
        assert(out@ =~= block_bytes(self@));
        out
    }

    /// The digest of this block's canonical encoding.
    pub fn hash(&self) -> (r: HashOf)
        ensures
            r@ == block_digest(self@),
    {
        let bytes = self.encode();
        HashOf::new(bytes.as_slice())
    }
}

impl Default for Block {
    fn default() -> (r: Block)
        ensures
            r@ == genesis_model(),
    {
        Block::genesis_block()
    }
}


/// A sequence of blocks starting at genesis, each one naming the digest of the
/// one before it.
#[verifier::opaque]
pub open spec fn chain_valid(s: Seq<BlockModel>) -> bool {
    &&& s.len() >= 1
    &&& s[0] == genesis_model()
    &&& forall|i: int| 1 <= i < s.len() ==> #[trigger] s[i].prev_hash == Some(block_digest(s[i - 1]))
}

/// Why a block could not be appended to a chain.
#[derive(Debug, PartialEq, Eq, Structural)]
pub enum ChainError {
    /// The block's parent digest is not the digest of the chain's tip.
    ChainAppendMismatch,
}

/// The plain values of a sequence of blocks.
pub open spec fn models_of(blocks: Seq<Block>) -> Seq<BlockModel> {
    blocks.map_values(|b: Block| b@)
}

/// A hash-linked chain of blocks rooted at the genesis block.
pub struct BlockChain {
    blocks: Vec<Block>,
}

impl View for BlockChain {
    type V = Seq<BlockModel>;

    closed spec fn view(&self) -> Seq<BlockModel> {
        models_of(self.blocks@)
    }
}

impl Clone for BlockChain {
    fn clone(&self) -> (r: BlockChain)
        ensures
            r@ == self@,
    {
        let mut blocks: Vec<Block> = Vec::new();
        let mut i: usize = 0;
        while i < self.blocks.len()
            invariant
                i <= self.blocks@.len(),
                models_of(blocks@) =~= self@.subrange(0, i as int),
            decreases self.blocks@.len() - i,
        {
            let b = self.blocks[i].clone();
            assert(b@ == self@[i as int]);
            let ghost prev = blocks@;
            blocks.push(b);
            assert(blocks@ == prev.push(b));
            assert(models_of(blocks@) =~= models_of(prev).push(b@));
            i = i + 1;
            assert(models_of(blocks@) =~= self@.subrange(0, i as int));
        }
        let r = BlockChain { blocks };
        assert(r@ =~= self@);
        r
    }
}

impl BlockChain {
    /// Whether this chain satisfies the chain invariant.
    pub open spec fn wf(&self) -> bool {
        chain_valid(self@)
    }

    /// A chain holding the genesis block alone.
    pub fn new() -> (r: BlockChain)
        ensures
            r@ == seq![genesis_model()],
            r.wf(),
    {
        let mut blocks: Vec<Block> = Vec::new();
        blocks.push(Block::genesis_block());
        let r = BlockChain { blocks };
        assert(r@ =~= seq![genesis_model()]);
        proof {
            reveal(chain_valid);
        }
        r
    }

    /// The last block of the chain.
    pub fn tip(&self) -> (r: &Block)
        requires
            self.wf(),
        ensures
            r@ == self@.last(),
    {
        proof {
            reveal(chain_valid);
        }
        &self.blocks[self.blocks.len() - 1]
    }

    /// The digest of the last block of the chain.
    pub fn get_latest_block_hash(&self) -> (r: HashOf)
        requires
            self.wf(),
        ensures
            r@ == block_digest(self@.last()),
    {
        self.tip().hash()
    }

    /// The blocks, genesis first.
    pub fn blocks(&self) -> (r: &[Block])
        ensures
            models_of(r@) == self@,
    {
        self.blocks.as_slice()
    }

    /// The number of blocks, genesis included.
    pub fn block_height(&self) -> (r: BlockHeight)
        ensures
            r == self@.len(),
    {
        self.blocks.len()
    }

    /// Appends `block` if its parent digest is the digest of the tip; otherwise
    /// leaves the chain as it was.
    pub fn add_block(&mut self, block: &Block) -> (r: Result<(), ChainError>)
        requires
            old(self).wf(),
        ensures
            final(self).wf(),
            r is Ok <==> block@.prev_hash == Some(block_digest(old(self)@.last())),
            r is Ok ==> final(self)@ == old(self)@.push(block@),
            r is Err ==> final(self)@ == old(self)@ && r == Err::<(), ChainError>(ChainError::ChainAppendMismatch),
    {
        proof {
            reveal(chain_valid);
        }
        let tip_hash = self.get_latest_block_hash();
        let linked = match &block.prev_hash {
            Some(h) => *h == tip_hash,
            None => false,
        };
        if !linked {
            return Err(ChainError::ChainAppendMismatch);
        }
        let ghost before = self@;
        self.blocks.push(block.clone());
        assert(self@ =~= before.push(block@));
        assert(chain_valid(self@));
        Ok(())
    }
}

} // verus!
