use bft_chain::blockchain::{Block, BlockChain};
use bft_chain::crypto::{HashOf, Keypair, PublicKey, Signed};
use bft_chain::node::{Message, Node, NodeError, NodeSetInfo};
use bft_chain::store::ChainStore;

fn keypairs(n: usize) -> Vec<Keypair> {
    (0..n).map(|i| Keypair::from_secret(&[i as u8 + 1; 32]).unwrap()).collect()
}

fn make_nodes(n: usize) -> Vec<Node> {
    let kps = keypairs(n);
    let keys: Vec<PublicKey> = kps.iter().map(|k| k.public()).collect();
    let info = NodeSetInfo::new(keys);
    kps.into_iter().enumerate().map(|(id, kp)| Node::new(id, kp, info.clone()).unwrap()).collect()
}

fn deliver_all(nodes: &mut [Node], mut pending: Vec<Message>) {
    while let Some(msg) = pending.pop() {
        for &r in msg.recipients.iter() {
            let out = nodes[r].handle_message(&msg);
            pending.extend(out);
        }
    }
}

fn simulate_protocol(num_nodes: usize, rounds: usize) -> Vec<Node> {
    let mut nodes = make_nodes(num_nodes);
    for _ in 0..rounds {
        let mut network_messages = Vec::new();
        for node in nodes.iter() {
            if node.is_leader() {
                network_messages.push(node.propose(vec![5]));
            }
        }
        deliver_all(&mut nodes, network_messages);
        for node in nodes.iter_mut() {
            node.advance_epoch();
        }
    }
    nodes
}

#[test]
fn simulate() {
    let n_nodes = 5;
    let n_rounds = 10;
    let nodes = simulate_protocol(n_nodes, n_rounds);
    for node in nodes.iter() {
        assert_eq!(node.epoch(), 10);
        assert_eq!(node.chains().longest_known_height(), 11);
    }
}

#[test]
fn scenario_all_nodes_commit_proposal() {
    let mut nodes = make_nodes(4);
    assert!(nodes[0].is_leader());
    assert!(!nodes[1].is_leader());
    let proposal = nodes[0].propose(b"first".to_vec());
    assert_eq!(proposal.recipients, vec![1, 2, 3]);
    deliver_all(&mut nodes, vec![proposal]);
    for node in nodes.iter() {
        let store = node.chains();
        assert_eq!(store.longest_known_height(), 2);
        let at_two = store.candidates_at(2);
        assert_eq!(at_two.len(), 1);
        assert_eq!(at_two[0].tip().payload, Some(b"first".to_vec()));
        assert_eq!(node.peek_longest_chain().tip().payload, Some(b"first".to_vec()));
    }
}

#[test]
fn forged_vote_is_dropped() {
    let mut nodes = make_nodes(4);
    let proposal = nodes[0].propose(b"first".to_vec());
    let block = proposal.vote.get_data().clone();
    let forged = Message {
        recipients: vec![1],
        vote: Signed::from_parts(block.clone(), vec![7u8; 64]),
        voter: 0,
    };
    let out = nodes[1].handle_message(&forged);
    assert!(out.is_empty());
    assert_eq!(nodes[1].votes().vote_count(&block.hash()), 0);
    assert_eq!(nodes[1].validate_vote(0, &forged.vote), Err(NodeError::InvalidSignature));
    let unknown = Message { recipients: vec![1], vote: proposal.vote.clone(), voter: 9 };
    assert!(nodes[1].handle_message(&unknown).is_empty());
    assert_eq!(nodes[1].validate_vote(9, &proposal.vote), Err(NodeError::UnknownVoter));
}

#[test]
fn valid_vote_is_echoed_once() {
    let mut nodes = make_nodes(4);
    let proposal = nodes[0].propose(b"x".to_vec());
    let out = nodes[2].handle_message(&proposal);
    assert_eq!(out.len(), 2);
    assert_eq!(out[0].recipients, vec![0, 1, 3]);
    assert_eq!(out[0].voter, 0);
    assert_eq!(out[0].vote.signature(), proposal.vote.signature());
    assert_eq!(out[1].voter, 2);
    assert_eq!(out[1].recipients, vec![0, 1, 3]);
    assert!(out[1].vote.verify(&keypairs(4)[2].public()).is_ok());
    let again = nodes[2].handle_message(&proposal);
    assert!(again.is_empty());
    assert_eq!(nodes[2].votes().vote_count(&proposal.vote.get_data().hash()), 1);
    let echo_only = nodes[3].handle_message(&out[1]);
    assert_eq!(echo_only.len(), 1);
    assert_eq!(echo_only[0].voter, 2);
    assert_eq!(echo_only[0].recipients, vec![0, 1, 2]);
}

#[test]
fn proposal_validity_conditions() {
    let nodes = make_nodes(4);
    let good = nodes[0].propose(b"p".to_vec());
    assert!(nodes[1].message_is_valid_proposal(&good));

    let from_non_leader = nodes[2].propose(b"p".to_vec());
    assert!(!nodes[1].message_is_valid_proposal(&from_non_leader));

    let mut later = make_nodes(4);
    later[0].advance_epoch();
    let wrong_epoch = later[0].propose(b"p".to_vec());
    assert!(!nodes[1].message_is_valid_proposal(&wrong_epoch));

    let bad_sig = Message {
        recipients: good.recipients.clone(),
        vote: Signed::from_parts(good.vote.get_data().clone(), vec![0u8; 64]),
        voter: 0,
    };
    assert!(!nodes[1].message_is_valid_proposal(&bad_sig));

    let leader_key_wrong_epoch_bad_sig = Message {
        recipients: vec![1],
        vote: Signed::from_parts(wrong_epoch.vote.get_data().clone(), vec![0u8; 64]),
        voter: 0,
    };
    assert!(!nodes[1].message_is_valid_proposal(&leader_key_wrong_epoch_bad_sig));
    let non_leader_bad_sig = Message {
        recipients: vec![1],
        vote: Signed::from_parts(from_non_leader.vote.get_data().clone(), vec![0u8; 64]),
        voter: 2,
    };
    assert!(!nodes[1].message_is_valid_proposal(&non_leader_bad_sig));
}

#[test]
fn node_rejects_mismatched_key() {
    let kps = keypairs(3);
    let keys: Vec<PublicKey> = kps.iter().map(|k| k.public()).collect();
    let info = NodeSetInfo::new(keys);
    assert_eq!(info.num_nodes(), 3);
    assert!(info.get_public_key(3).is_none());
    let wrong = Keypair::from_secret(&[2u8; 32]).unwrap();
    assert!(matches!(Node::new(0, wrong, info.clone()), Err(NodeError::ConfigurationMismatch)));
    let k = Keypair::from_secret(&[1u8; 32]).unwrap();
    assert!(matches!(Node::new(5, k, info.clone()), Err(NodeError::ConfigurationMismatch)));
    let k = Keypair::from_secret(&[1u8; 32]).unwrap();
    assert!(Node::new(0, k, info).is_ok());
}

#[test]
fn advance_epoch_counts_up() {
    let mut nodes = make_nodes(2);
    assert_eq!(nodes[1].epoch(), 0);
    assert_eq!(nodes[1].advance_epoch(), 1);
    assert_eq!(nodes[1].advance_epoch(), 2);
    assert_eq!(nodes[1].every_node_except_me(), vec![0]);
    assert_eq!(nodes[1].get_leader(), 0);
}

fn fork(payload: &[u8]) -> BlockChain {
    let mut c = BlockChain::new();
    let b = Block::new(payload.to_vec(), c.get_latest_block_hash(), 0);
    c.add_block(&b).unwrap();
    c
}

#[test]
fn conflicting_forks_are_kept_and_choice_is_stable() {
    let mut s1 = ChainStore::new();
    assert!(s1.record_fork(fork(b"left")));
    assert!(s1.record_fork(fork(b"right")));
    assert!(!s1.record_fork(fork(b"left")));
    assert_eq!(s1.longest_known_height(), 2);
    assert_eq!(s1.candidates_at(2).len(), 2);
    assert_eq!(s1.candidates_at(1).len(), 1);
    assert_eq!(s1.candidates_at(3).len(), 0);

    let mut s2 = ChainStore::new();
    s2.record_fork(fork(b"right"));
    s2.record_fork(fork(b"left"));
    let pick_a = s1.preferred_chain().get_latest_block_hash();
    let pick_b = s2.preferred_chain().get_latest_block_hash();
    assert!(pick_a == pick_b);
    for c in s1.candidates_at(2).iter() {
        let d = c.get_latest_block_hash();
        assert!(d == pick_a || pick_a.less_than(&d));
    }
}

#[test]
fn record_fork_above_known_heights() {
    let mut s = ChainStore::new();
    let mut c = fork(b"a");
    let b = Block::new(b"b".to_vec(), c.get_latest_block_hash(), 1);
    c.add_block(&b).unwrap();
    assert!(s.record_fork(c));
    assert_eq!(s.longest_known_height(), 3);
    assert_eq!(s.candidates_at(2).len(), 0);
    assert_eq!(s.preferred_chain().tip().payload, Some(b"b".to_vec()));
}

#[test]
fn store_appends_on_matching_tip_only() {
    let mut s = ChainStore::new();
    let genesis_hash = Block::genesis_block().hash();
    let orphan = Block::new(b"o".to_vec(), HashOf::new(b"nowhere"), 0);
    assert!(!s.try_append_block(&orphan));
    assert_eq!(s.longest_known_height(), 1);
    let b1 = Block::new(b"one".to_vec(), genesis_hash.clone(), 0);
    assert!(s.try_append_block(&b1));
    assert_eq!(s.longest_known_height(), 2);
    assert_eq!(s.candidates_at(1).len(), 0);
    let b2 = Block::new(b"two".to_vec(), genesis_hash, 0);
    assert!(!s.try_append_block(&b2));
    assert_eq!(s.candidates_at(2).len(), 1);
}

#[test]
fn second_conflicting_block_at_node_is_orphaned() {
    let mut nodes = make_nodes(4);
    let kps = keypairs(4);
    let parent = Block::genesis_block().hash();
    let b1 = Block::new(b"one".to_vec(), parent.clone(), 0);
    let b2 = Block::new(b"two".to_vec(), parent, 0);
    for b in [&b1, &b2] {
        for (voter, kp) in kps.iter().enumerate() {
            let msg = Message { recipients: vec![1], vote: Signed::new(b.clone(), kp), voter };
            nodes[1].handle_message(&msg);
        }
        assert_eq!(nodes[1].votes().vote_count(&b.hash()), 4);
    }
    let store = nodes[1].chains();
    assert_eq!(store.longest_known_height(), 2);
    let at_two = store.candidates_at(2);
    assert_eq!(at_two.len(), 1);
    assert_eq!(at_two[0].tip().payload, Some(b"one".to_vec()));
}
