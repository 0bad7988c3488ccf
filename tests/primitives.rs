use bft_chain::blockchain::{Block, BlockChain, ChainError};
use bft_chain::crypto::{CryptoError, HashOf, Keypair, PublicKey, Signed};
use bft_chain::tally::{has_quorum, VoteTally};

fn hex(s: &str) -> Vec<u8> {
    (0..s.len() / 2).map(|i| u8::from_str_radix(&s[2 * i..2 * i + 2], 16).unwrap()).collect()
}

#[test]
fn sha256_known_answer() {
    let h = HashOf::new(b"abc");
    assert_eq!(
        h.as_bytes().to_vec(),
        hex("ba7816bf8f01cfea414140de5dae2223b00361a396177a9cb410ff61f20015ad")
    );
}

#[test]
fn ed25519_known_answer() {
    let secret = hex("9d61b19deffd5a60ba844af492ec2cc44449c5697b326919703bac031cae7f60");
    let kp = Keypair::from_secret(&secret).unwrap();
    assert_eq!(
        kp.public().as_bytes().to_vec(),
        hex("d75a980182b10ab7d54bfed3c964073a0ee172f3daa62325af021a68f707511a")
    );
    assert_eq!(
        kp.sign(b""),
        hex("e5564300c360ac729086e2cc806e828a84877f1eb8e5d974d873e065224901555fb8821590a33bacc61e39701cf9b46bd25bf5f0595bbe24655141438e7a100b")
    );
}

#[test]
fn keypair_needs_thirty_two_bytes() {
    assert!(Keypair::from_secret(&[1u8; 31]).is_none());
    assert!(Keypair::from_secret(&[1u8; 33]).is_none());
    assert!(Keypair::from_secret(&[1u8; 32]).is_some());
}

#[test]
fn signed_block_verifies_only_under_its_key() {
    let kp = Keypair::from_secret(&[3u8; 32]).unwrap();
    let other = Keypair::from_secret(&[4u8; 32]).unwrap();
    let block = Block::new(vec![1, 2, 3], Block::genesis_block().hash(), 0);
    let signed = Signed::new(block.clone(), &kp);
    assert_eq!(signed.signature().len(), 64);
    assert!(signed.verify(&kp.public()).is_ok());
    assert_eq!(signed.verify(&other.public()), Err(CryptoError::SignatureVerificationError));
    let forged = Signed::from_parts(block, vec![0u8; 64]);
    assert_eq!(forged.verify(&kp.public()), Err(CryptoError::SignatureVerificationError));
    let garbage_key = PublicKey::from_bytes(vec![1, 2, 3]);
    assert_eq!(signed.verify(&garbage_key), Err(CryptoError::SignatureVerificationError));
}

#[test]
fn genesis_encoding() {
    let g = Block::genesis_block();
    assert_eq!(g.encode(), vec![0, 0, 0, 0, 0, 0, 0, 0, 0, 0]);
    assert!(g.payload.is_none());
    assert!(g.prev_hash.is_none());
    assert_eq!(g.epoch, 0);
    assert_eq!(Block::default().encode(), g.encode());
}

#[test]
fn block_encoding() {
    let parent = HashOf::new(b"p");
    let b = Block::new(vec![9, 8], parent.clone(), 0x0102);
    let mut expected = vec![1, 2, 0, 0, 0, 0, 0, 0, 0, 9, 8, 1];
    expected.extend_from_slice(parent.as_bytes());
    expected.extend_from_slice(&[2, 1, 0, 0, 0, 0, 0, 0]);
    assert_eq!(b.encode(), expected);
    assert!(b.hash() == HashOf::new(&expected));
    assert!(b.hash() != g_hash());
}

fn g_hash() -> HashOf {
    Block::genesis_block().hash()
}

#[test]
fn digest_order() {
    let a = HashOf::new(b"a");
    let b = HashOf::new(b"b");
    assert!(a.less_than(&b) != b.less_than(&a));
    assert!(!a.less_than(&a));
}

#[test]
fn genesis_chain() {
    let c = BlockChain::new();
    assert_eq!(c.block_height(), 1);
    let tip = c.tip();
    assert!(tip.payload.is_none());
    assert!(tip.prev_hash.is_none());
    assert_eq!(tip.epoch, 0);
    assert!(c.get_latest_block_hash() == g_hash());
}

#[test]
fn append_links_to_tip() {
    let mut c = BlockChain::new();
    let b = Block::new(vec![1], c.get_latest_block_hash(), 0);
    assert_eq!(c.add_block(&b), Ok(()));
    assert_eq!(c.block_height(), 2);
    assert!(c.get_latest_block_hash() == b.hash());
    assert_eq!(c.tip().payload, Some(vec![1]));
}

#[test]
fn append_mismatch_is_an_error() {
    let mut c = BlockChain::new();
    let b = Block::new(vec![1], HashOf::new(b"elsewhere"), 0);
    assert_eq!(c.add_block(&b), Err(ChainError::ChainAppendMismatch));
    assert_eq!(c.block_height(), 1);
    let mut g = Block::genesis_block();
    g.epoch = 5;
    assert_eq!(c.add_block(&g), Err(ChainError::ChainAppendMismatch));
    assert_eq!(c.block_height(), 1);
}

#[test]
fn vote_recorded_once() {
    let mut t = VoteTally::new();
    let d = HashOf::new(b"block");
    assert_eq!(t.record_vote(&d, 1), (1, true));
    assert_eq!(t.record_vote(&d, 1), (1, false));
    assert_eq!(t.vote_count(&d), 1);
    assert_eq!(t.record_vote(&d, 2), (2, true));
    let e = HashOf::new(b"other");
    assert_eq!(t.record_vote(&e, 1), (1, true));
    assert_eq!(t.vote_count(&d), 2);
    assert_eq!(t.vote_count(&HashOf::new(b"none")), 0);
}

#[test]
fn quorum_boundaries() {
    assert!(!has_quorum(3, 4));
    assert!(has_quorum(4, 4));
    assert!(!has_quorum(4, 5));
    assert!(has_quorum(5, 5));
    assert!(!has_quorum(5, 7));
    assert!(has_quorum(6, 7));
    assert!(!has_quorum(7, 10));
    assert!(has_quorum(8, 10));
    assert!(!has_quorum(0, 0));
    assert!(has_quorum(2, 0));
    assert!(has_quorum(usize::MAX, usize::MAX));
}
