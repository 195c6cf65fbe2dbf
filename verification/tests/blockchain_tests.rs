use markchain::blockchain::{
    millis_now, sha3_256_multihash, Block, BlockChain, BlockHeader, BlockVersion,
    GENESIS_BLOCK_INDEX, GENESIS_BLOCK_TIMESTAMP_MILLIS,
};
use multihash::Multihash;
use serde::ser::{Serialize, SerializeStruct, Serializer};
use sha3::Digest;

/// A block version laid out as serde lays out a unit variant.
struct WireVersion;

impl Serialize for WireVersion {
    fn serialize<S: Serializer>(&self, s: S) -> Result<S::Ok, S::Error> {
        s.serialize_unit_variant("BlockVersion", 0, "V1")
    }
}

/// A header whose hashes are real multihashes, laid out as serde lays out a
/// struct with these fields.
struct WireHeader {
    previous_header_hash: Option<Multihash<64>>,
    index: usize,
    merkle_root: Multihash<64>,
    time: u64,
}

impl Serialize for WireHeader {
    fn serialize<S: Serializer>(&self, s: S) -> Result<S::Ok, S::Error> {
        let mut st = s.serialize_struct("BlockHeader", 5)?;
        st.serialize_field("version", &WireVersion)?;
        st.serialize_field("previous_header_hash", &self.previous_header_hash)?;
        st.serialize_field("index", &self.index)?;
        st.serialize_field("merkle_root", &self.merkle_root)?;
        st.serialize_field("time", &self.time)?;
        st.end()
    }
}

fn wire_header(h: &BlockHeader) -> WireHeader {
    WireHeader {
        previous_header_hash: h
            .previous_header_hash()
            .map(|b| Multihash::<64>::from_bytes(b).unwrap()),
        index: h.index(),
        merkle_root: Multihash::<64>::from_bytes(h.merkle_root()).unwrap(),
        time: h.time(),
    }
}

fn multihash_of(bytes: &[u8]) -> Vec<u8> {
    let mut v = vec![0x16, 0x20];
    v.extend_from_slice(&sha3::Sha3_256::digest(bytes));
    v
}

fn header_hash(h: &BlockHeader) -> Vec<u8> {
    let bytes = bincode::serialize(&(
        0u32,
        h.previous_header_hash(),
        h.index() as u64,
        h.merkle_root(),
        h.time(),
    ))
    .unwrap();
    multihash_of(&bytes)
}

#[test]
fn sha3_multihash_of_empty_input() {
    let expected: Vec<u8> = [0x16u8, 0x20]
        .iter()
        .copied()
        .chain(
            [
                0xa7, 0xff, 0xc6, 0xf8, 0xbf, 0x1e, 0xd7, 0x66, 0x51, 0xc1, 0x47, 0x56, 0xa0,
                0x61, 0xd6, 0x62, 0xf5, 0x80, 0xff, 0x4d, 0xe4, 0x3b, 0x49, 0xfa, 0x82, 0xd8,
                0x0a, 0x4b, 0x80, 0xf8, 0x43, 0x4a,
            ]
            .iter()
            .copied(),
        )
        .collect();
    assert_eq!(sha3_256_multihash(&[]), expected);
}

#[test]
fn genesis_block_is_fixed() {
    let chain = BlockChain::try_new().unwrap();
    assert_eq!(chain.len(), 1);
    let genesis = chain.latest_block();
    let h = genesis.header();
    assert_eq!(h.version(), BlockVersion::V1);
    assert_eq!(h.index(), GENESIS_BLOCK_INDEX);
    assert_eq!(h.previous_header_hash(), None);
    assert_eq!(h.time(), GENESIS_BLOCK_TIMESTAMP_MILLIS);
    assert_eq!(genesis.transactions(), None);
    // bincode encodes `None::<Vec<u8>>` as the single byte 0.
    assert_eq!(h.merkle_root(), &multihash_of(&[0u8]));
    let other = BlockChain::try_new().unwrap();
    assert_eq!(other.latest_block().header().merkle_root(), h.merkle_root());
}

#[test]
fn generated_block_follows_the_latest_block() {
    let chain = BlockChain::try_new().unwrap();
    let txs = vec![1u8, 2, 3];
    let block = chain.generate_next_block(Some(txs.clone())).unwrap();
    let h = block.header();
    assert_eq!(h.version(), BlockVersion::V1);
    assert_eq!(h.index(), 1);
    assert_eq!(
        h.previous_header_hash(),
        Some(&header_hash(chain.latest_block().header()))
    );
    let encoded = bincode::serialize(&Some(txs.clone())).unwrap();
    assert_eq!(h.merkle_root(), &multihash_of(&encoded));
    assert_eq!(block.transactions(), Some(&txs));
    assert!(h.time() >= GENESIS_BLOCK_TIMESTAMP_MILLIS);
}

#[test]
fn generated_block_is_accepted_once() {
    let mut chain = BlockChain::try_new().unwrap();
    let block = chain.generate_next_block(None).unwrap();
    chain.add_block(block.clone()).unwrap();
    assert_eq!(chain.len(), 2);
    assert_eq!(chain.latest_block().header().index(), 1);
    assert_eq!(
        chain.latest_block().header().previous_header_hash(),
        block.header().previous_header_hash()
    );
    chain.add_block(block).unwrap();
    assert_eq!(chain.len(), 2);
    let third = chain.generate_next_block(Some(vec![9])).unwrap();
    assert_eq!(third.header().index(), 2);
    chain.add_block(third).unwrap();
    assert_eq!(chain.len(), 3);
    assert_eq!(chain.get_block(2).unwrap().transactions(), Some(&vec![9u8]));
}

#[test]
fn blocks_that_do_not_link_are_rejected() {
    let mut chain = BlockChain::try_new().unwrap();
    let genesis_hash = header_hash(chain.latest_block().header());
    let root = chain.latest_block().header().merkle_root().clone();
    // Wrong predecessor hash.
    let wrong = Block::new(
        BlockHeader::new(BlockVersion::V1, Some(vec![0x16, 0x20, 1]), 1, root.clone(), 5),
        None,
    );
    assert!(!chain.accepts_block(&wrong, &genesis_hash));
    chain.add_block(wrong).unwrap();
    assert_eq!(chain.len(), 1);
    // Index that skips ahead.
    let skipping = Block::new(
        BlockHeader::new(BlockVersion::V1, Some(genesis_hash.clone()), 2, root.clone(), 5),
        None,
    );
    assert!(!chain.accepts_block(&skipping, &genesis_hash));
    chain.add_block(skipping).unwrap();
    assert_eq!(chain.len(), 1);
    // A hand-built block with the right link is taken.
    let good = Block::new(
        BlockHeader::new(BlockVersion::V1, Some(genesis_hash.clone()), 1, root, 5),
        None,
    );
    assert!(chain.accepts_block(&good, &genesis_hash));
    chain.add_block(good).unwrap();
    assert_eq!(chain.len(), 2);
    assert_eq!(chain.get_block(1).unwrap().header().time(), 5);
    assert!(chain.get_block(2).is_none());
}

#[test]
fn millis_now_is_in_milliseconds() {
    let now = millis_now();
    assert!(now > GENESIS_BLOCK_TIMESTAMP_MILLIS);
    assert!(now < 10_000_000_000_000);
}

#[test]
fn header_hash_matches_the_hash_of_a_header_with_multihash_fields() {
    let mut chain = BlockChain::try_new().unwrap();
    let genesis_wire = wire_header(chain.latest_block().header());
    let first = chain.generate_next_block(Some(vec![5, 6])).unwrap();
    assert_eq!(
        first.header().previous_header_hash(),
        Some(&multihash_of(&bincode::serialize(&genesis_wire).unwrap()))
    );
    chain.add_block(first.clone()).unwrap();
    let second = chain.generate_next_block(None).unwrap();
    assert_eq!(
        second.header().previous_header_hash(),
        Some(&multihash_of(&bincode::serialize(&wire_header(first.header())).unwrap()))
    );
}

#[test]
fn genesis_header_encodes_field_by_field() {
    let chain = BlockChain::try_new().unwrap();
    let h = chain.latest_block().header();
    let mut expected = vec![0u8, 0, 0, 0];
    expected.push(0);
    expected.extend_from_slice(&0u64.to_le_bytes());
    expected.extend_from_slice(&(h.merkle_root().len() as u64).to_le_bytes());
    expected.extend_from_slice(h.merkle_root());
    expected.extend_from_slice(&GENESIS_BLOCK_TIMESTAMP_MILLIS.to_le_bytes());
    assert_eq!(bincode::serialize(&wire_header(h)).unwrap(), expected);
    let next = chain.generate_next_block(None).unwrap();
    assert_eq!(next.header().previous_header_hash(), Some(&multihash_of(&expected)));
}

#[test]
fn generate_next_block_at_uses_the_given_time() {
    let chain = BlockChain::try_new().unwrap();
    let block = chain.generate_next_block_at(Some(vec![1]), 1234).unwrap();
    assert_eq!(block.header().time(), 1234);
    assert_eq!(block.header().index(), 1);
    assert_eq!(block.transactions(), Some(&vec![1u8]));
    let other = chain.generate_next_block(Some(vec![1])).unwrap();
    assert_eq!(other.header().previous_header_hash(), block.header().previous_header_hash());
    assert_eq!(other.header().merkle_root(), block.header().merkle_root());
}
