use crate::blockchain::{block_bytes, block_digest, Block, BlockChain, BlockModel, EpochNum, INITIAL_EPOCH};
use crate::crypto::{ed25519_signature, signature_valid, Keypair, PublicKey, Signed, SignedModel};
use crate::store::{append_result, preferred_in, tip_digest, ChainStore};
use crate::tally::{has_quorum, quorum_reached, recorded, voters_in, VoteTally};
use vstd::prelude::*;

verus! {

/// A node identity: its index in the membership registry.
pub type NodeID = usize;

/// Why a node could not be built or a vote was not accepted.
#[derive(Debug, PartialEq, Eq, Structural)]
pub enum NodeError {
    /// The node's keypair does not match its registry entry, or it has none.
    ConfigurationMismatch,
    /// The voter is not in the registry.
    UnknownVoter,
    /// The signature does not verify under the voter's registered key.
    InvalidSignature,
}

/// The leader of an epoch: always node 0.
pub open spec fn leader(epoch: u64) -> usize {
    0
}

/// Every node identity below `n` but `me`, in increasing order.
pub open spec fn others(me: usize, n: usize) -> Seq<usize> {
    Seq::new((n - 1) as nat, |k: int| if k < me { k as usize } else { (k + 1) as usize })
}

/// Whether `vote` comes from a registered voter and its signature verifies
/// under that voter's key.
pub open spec fn vote_valid(members: Seq<Seq<u8>>, voter: usize, vote: SignedModel) -> bool {
    voter < members.len() && signature_valid(members[voter as int], vote)
}

/// The membership registry: the public key of each node, by identity.
pub struct NodeSetInfo {
    node_pub_keys: Vec<PublicKey>,
}

impl View for NodeSetInfo {
    type V = Seq<Seq<u8>>;

    closed spec fn view(&self) -> Seq<Seq<u8>> {
        self.node_pub_keys@.map_values(|k: PublicKey| k@)
    }
}

impl Clone for NodeSetInfo {
    fn clone(&self) -> (r: NodeSetInfo)
        ensures
            r@ == self@,
    {
        let mut keys: Vec<PublicKey> = Vec::new();
        let mut i: usize = 0;
        while i < self.node_pub_keys.len()
            invariant
                i <= self.node_pub_keys@.len(),
                keys@.len() == i,
                forall|k: int| 0 <= k < i ==> (#[trigger] keys@[k])@ == self.node_pub_keys@[k]@,
            decreases self.node_pub_keys@.len() - i,
        {
            keys.push(self.node_pub_keys[i].clone());
            i = i + 1;
        }
        let r = NodeSetInfo { node_pub_keys: keys };
        assert(r@ =~= self@);
        r
    }
}

impl NodeSetInfo {
    /// A registry with the given keys; node `i` has key `node_pub_keys[i]`.
    pub fn new(node_pub_keys: Vec<PublicKey>) -> (r: NodeSetInfo)
        ensures
            r@ == node_pub_keys@.map_values(|k: PublicKey| k@),
    {
        NodeSetInfo { node_pub_keys }
    }

    /// The public key of node `id`, if it is registered.
    pub fn get_public_key(&self, id: NodeID) -> (r: Option<&PublicKey>)
        ensures
            r is Some <==> id < self@.len(),
            r matches Some(k) ==> k@ == self@[id as int],
    {
        if id < self.node_pub_keys.len() {
            Some(&self.node_pub_keys[id])
        } else {
            None
        }
    }

    /// The number of participants.
    pub fn num_nodes(&self) -> (r: usize)
        ensures
            r == self@.len(),
    {
        self.node_pub_keys.len()
    }
}

/// What a message holds, as plain values.
pub struct MessageModel {
    pub recipients: Seq<NodeID>,
    pub vote: SignedModel,
    pub voter: NodeID,
}

/// A signed vote or proposal, the nodes it is addressed to, and the node
/// that cast it.
pub struct Message {
    pub recipients: Vec<NodeID>,
    pub vote: Signed,
    pub voter: NodeID,
}

impl View for Message {
    type V = MessageModel;

    open spec fn view(&self) -> MessageModel {
        MessageModel { recipients: self.recipients@, vote: self.vote@, voter: self.voter }
    }
}

/// The plain values of a sequence of messages.
pub open spec fn messages_model(ms: Seq<Message>) -> Seq<MessageModel> {
    ms.map_values(|m: Message| m@)
}

/// What a node holds, as plain values.
pub struct NodeModel {
    pub epoch: u64,
    pub id: NodeID,
    pub members: Seq<Seq<u8>>,
    pub store: Seq<Seq<Seq<BlockModel>>>,
    pub tally: Map<Seq<u8>, Seq<usize>>,
    pub secret: Seq<u8>,
    pub proposal_received: bool,
}

/// Whether `m` is a valid proposal for node state `s`: its block is of the
/// current epoch, it comes from the epoch's leader, and its signature verifies.
pub open spec fn is_valid_proposal(s: NodeModel, m: MessageModel) -> bool {
    &&& m.vote.data.epoch == s.epoch
    &&& m.voter == leader(s.epoch)
    &&& vote_valid(s.members, m.voter, m.vote)
}

/// The echo of `m` by node `s`: the same vote from the same voter, addressed to
/// every other node.
pub open spec fn echo_of(s: NodeModel, m: MessageModel) -> MessageModel {
    MessageModel { recipients: others(s.id, s.members.len() as usize), vote: m.vote, voter: m.voter }
}

/// Node `s`'s own vote for block `b`, addressed to every other node.
pub open spec fn own_vote(s: NodeModel, b: BlockModel) -> MessageModel {
    MessageModel {
        recipients: others(s.id, s.members.len() as usize),
        vote: SignedModel { data: b, signature: ed25519_signature(s.secret, block_bytes(b)) },
        voter: s.id,
    }
}

/// The node's transition on receiving message `m`: its next state and the
/// messages it sends.
pub open spec fn step(s: NodeModel, m: MessageModel) -> (NodeModel, Seq<MessageModel>) {
    let d = block_digest(m.vote.data);
    if !vote_valid(s.members, m.voter, m.vote) || voters_in(s.tally, d).contains(m.voter) {
        (s, Seq::empty())
    } else {
        let tally = recorded(s.tally, d, m.voter);
        let store = if quorum_reached(voters_in(tally, d).len() as int, s.members.len() as int) {
            append_result(s.store, m.vote.data)
        } else {
            s.store
        };
        if is_valid_proposal(s, m) {
            (
                NodeModel { tally, store, proposal_received: true, ..s },
                seq![echo_of(s, m), own_vote(s, m.vote.data)],
            )
        } else {
            (NodeModel { tally, store, ..s }, seq![echo_of(s, m)])
        }
    }
}

/// A vote that is not validly signed by a registered voter changes nothing
/// and produces no message.
pub proof fn lemma_invalid_vote_ignored(s: NodeModel, m: MessageModel)
    requires
        !vote_valid(s.members, m.voter, m.vote),
    ensures
        step(s, m) == (s, Seq::<MessageModel>::empty()),
{
}

/// Delivering the same vote a second time changes nothing and produces no
/// message.
pub proof fn lemma_redelivery_ignored(s: NodeModel, m: MessageModel)
    ensures
        step(step(s, m).0, m) == (step(s, m).0, Seq::<MessageModel>::empty()),
{
    let d = block_digest(m.vote.data);
    if vote_valid(s.members, m.voter, m.vote) && !voters_in(s.tally, d).contains(m.voter) {
        crate::tally::lemma_vote_idempotent(s.tally, d, m.voter);
    }
}

/// A validly signed vote that was not counted before is echoed exactly once,
/// to every node but the receiver: the first message sent is the echo, and any
/// other is the receiver's own vote.
pub proof fn lemma_echo_complete(s: NodeModel, m: MessageModel)
    requires
        vote_valid(s.members, m.voter, m.vote),
        !voters_in(s.tally, block_digest(m.vote.data)).contains(m.voter),
    ensures
        step(s, m).1.len() >= 1,
        step(s, m).1[0] == echo_of(s, m),
        step(s, m).1[0].recipients == others(s.id, s.members.len() as usize),
        forall|i: int| 1 <= i < step(s, m).1.len() ==> (#[trigger] step(s, m).1[i]).voter == s.id,
        m.voter != s.id ==> forall|i: int|
            1 <= i < step(s, m).1.len() ==> #[trigger] step(s, m).1[i] != echo_of(s, m),
{
}

/// A participant of the protocol: its epoch, its chains, and the votes it has seen.
pub struct Node {
    epoch_num: EpochNum,
    node_id: NodeID,
    node_set_info: NodeSetInfo,
    chains: ChainStore,
    keypair: Keypair,
    proposal_received: bool,
    votes: VoteTally,
}

impl View for Node {
    type V = NodeModel;

    closed spec fn view(&self) -> NodeModel {
        NodeModel {
            epoch: self.epoch_num,
            id: self.node_id,
            members: self.node_set_info@,
            store: self.chains@,
            tally: self.votes@,
            secret: self.keypair.secret(),
            proposal_received: self.proposal_received,
        }
    }
}

impl Node {
    /// The node invariant.
    pub closed spec fn wf(&self) -> bool {
        &&& self.chains.wf()
        &&& self.votes.wf()
        &&& self.node_id < self.node_set_info@.len()
    }

    /// A node at the initial epoch whose store knows the genesis chain alone.
    /// Fails when `id` has no registry entry or its entry is not the
    /// keypair's public key.
    pub fn new(id: NodeID, keypair: Keypair, node_set_info: NodeSetInfo) -> (r: Result<Node, NodeError>)
        ensures
            r is Ok <==> id < node_set_info@.len() && node_set_info@[id as int] == keypair.public_spec(),
            r is Err ==> r == Err::<Node, NodeError>(NodeError::ConfigurationMismatch),
            r matches Ok(node) ==> node.wf() && node@ == (NodeModel {
                epoch: INITIAL_EPOCH,
                id,
                members: node_set_info@,
                store: seq![seq![seq![crate::blockchain::genesis_model()]]],
                tally: Map::empty(),
                secret: keypair.secret(),
                proposal_received: false,
            }),
    {
        let matches = match node_set_info.get_public_key(id) {
            Some(pk) => pk.same_as(&keypair.public()),
            None => false,
        };
        if !matches {
            return Err(NodeError::ConfigurationMismatch);
        }
        Ok(Node {
            epoch_num: INITIAL_EPOCH,
            node_id: id,
            node_set_info,
            chains: ChainStore::new(),
            keypair,
            proposal_received: false,
            votes: VoteTally::new(),
        })
    }

    /// The leader of the current epoch.
    pub fn get_leader(&self) -> (r: NodeID)
        ensures
            r == leader(self@.epoch),
    {
        0
    }

    /// Whether this node leads the current epoch.
    pub fn is_leader(&self) -> (r: bool)
        ensures
            r == (self@.id == leader(self@.epoch)),
    {
        self.get_leader() == self.node_id
    }

    /// The current epoch.
    pub fn epoch(&self) -> (r: EpochNum)
        ensures
            r == self@.epoch,
    {
        self.epoch_num
    }

    /// This node's identity.
    pub fn id(&self) -> (r: NodeID)
        ensures
            r == self@.id,
    {
        self.node_id
    }

    /// The chains this node knows of.
    pub fn chains(&self) -> (r: &ChainStore)
        requires
            self.wf(),
        ensures
            r@ == self@.store,
            r.wf(),
    {
        &self.chains
    }

    /// The votes this node has recorded.
    pub fn votes(&self) -> (r: &VoteTally)
        requires
            self.wf(),
        ensures
            r@ == self@.tally,
            r.wf(),
    {
        &self.votes
    }

    /// Moves to the next epoch and returns its number.
    pub fn advance_epoch(&mut self) -> (r: EpochNum)
        requires
            old(self).wf(),
            old(self)@.epoch < u64::MAX,
        ensures
            final(self).wf(),
            r == old(self)@.epoch + 1,
            final(self)@ == (NodeModel { epoch: r, proposal_received: false, ..old(self)@ }),
    {
        self.epoch_num = self.epoch_num + 1;
        self.proposal_received = false;
        self.epoch_num
    }

    /// Every node identity but this node's, in increasing order.
    pub fn every_node_except_me(&self) -> (r: Vec<NodeID>)
        requires
            self.wf(),
        ensures
            r@ == others(self@.id, self@.members.len() as usize),
    {
        let n = self.node_set_info.num_nodes();
        let mut r: Vec<NodeID> = Vec::new();
        let mut i: usize = 0;
        while i < n
            invariant
                n == self@.members.len(),
                self@.id < n,
                i <= n,
                r@ =~= others(self@.id, n).subrange(0, if i <= self@.id { i as int } else { i - 1 }),
            decreases n - i,
        {
            if i != self.node_id {
                r.push(i);
            }
            i = i + 1;
        }
        assert(r@ =~= others(self@.id, n));
        r
    }

    /// Checks that `vote` comes from a registered voter and that its signature
    /// verifies under that voter's key.
    pub fn validate_vote(&self, voter: NodeID, vote: &Signed) -> (r: Result<(), NodeError>)
        ensures
            r is Ok <==> vote_valid(self@.members, voter, vote@),
            voter >= self@.members.len() ==> r == Err::<(), NodeError>(NodeError::UnknownVoter),
            voter < self@.members.len() && r is Err ==> r == Err::<(), NodeError>(NodeError::InvalidSignature),
    {
        match self.node_set_info.get_public_key(voter) {
            None => Err(NodeError::UnknownVoter),
            Some(pk) => match vote.verify(pk) {
                Ok(()) => Ok(()),
                Err(_) => Err(NodeError::InvalidSignature),
            },
        }
    }

    /// Whether `msg` is a valid proposal for the current epoch.
    pub fn message_is_valid_proposal(&self, msg: &Message) -> (r: bool)
        ensures
            r == is_valid_proposal(self@, msg@),
    {
        let block = msg.vote.get_data();
        let valid_vote = self.validate_vote(msg.voter, &msg.vote).is_ok();
        block.epoch == self.epoch_num && msg.voter == self.get_leader() && valid_vote
    }

    /// The preferred chain among the longest this node knows of.
    pub fn peek_longest_chain(&self) -> (r: &BlockChain)
        requires
            self.wf(),
        ensures
            r@ == preferred_in(self@.store.last()),
            r.wf(),
    {
        self.chains.preferred_chain()
    }

    /// Proposes a block carrying `payload` on top of the preferred longest
    /// chain, signed by this node and addressed to every other node.
    pub fn propose(&self, payload: Vec<u8>) -> (r: Message)
        requires
            self.wf(),
        ensures
            r@ == own_vote(
                self@,
                BlockModel {
                    payload: Some(payload@),
                    prev_hash: Some(tip_digest(preferred_in(self@.store.last()))),
                    epoch: self@.epoch,
                },
            ),
    {
        let prev_hash = self.peek_longest_chain().get_latest_block_hash();
        let block = Block::new(payload, prev_hash, self.epoch_num);
        let vote = Signed::new(block, &self.keypair);
        Message { recipients: self.every_node_except_me(), vote, voter: self.node_id }
    }

    /// Handles a received vote: a vote that is not validly signed by a
    /// registered voter, or that repeats one already counted, changes nothing.
    /// Otherwise the vote is counted; if its block now has a quorum it is
    /// appended where it extends a longest chain; the vote is echoed to every
    /// other node; and if it is a valid proposal this node casts its own vote.
    pub fn handle_message(&mut self, msg: &Message) -> (r: Vec<Message>)
        requires
            old(self).wf(),
        ensures
            final(self).wf(),
            (final(self)@, messages_model(r@)) == step(old(self)@, msg@),
    {
        let ghost s = self@;
        let mut out: Vec<Message> = Vec::new();
        if self.validate_vote(msg.voter, &msg.vote).is_err() {
            assert(messages_model(out@) =~= Seq::<MessageModel>::empty());
            return out;
        }
        let n = self.node_set_info.num_nodes();
        let block = msg.vote.get_data();
        let digest = block.hash();
        let (count, first) = self.votes.record_vote(&digest, msg.voter);
        if !first {
            assert(messages_model(out@) =~= Seq::<MessageModel>::empty());
            return out;
        }
        if has_quorum(count, n) {
            let _ = self.chains.try_append_block(block);
        }
        let echo = Message { recipients: self.every_node_except_me(), vote: msg.vote.clone(), voter: msg.voter };
        out.push(echo);
        if self.message_is_valid_proposal(msg) {
            self.proposal_received = true;
            let vote = Signed::new(block.clone(), &self.keypair);
            let own = Message { recipients: self.every_node_except_me(), vote, voter: self.node_id };
            out.push(own);
            assert(messages_model(out@) =~= seq![echo_of(s, msg@), own_vote(s, msg@.vote.data)]);
        } else {
            assert(messages_model(out@) =~= seq![echo_of(s, msg@)]);
        }
        out
    }
}

} // verus!
