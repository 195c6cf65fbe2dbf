//! The hash-linked chain: every header names the SHA3-256 multihash of the
//! header before it, and every chain starts with the same genesis block.

use vstd::prelude::*;

use sha3::Digest;

use crate::block::option_bytes_view;
use crate::clock::{
    duration_subsec_millis, duration_whole_secs, elapsed_since_unix_epoch, epoch_millis_or_zero,
    system_time_now,
};
use crate::error::{MarkChainError, Result};

verus! {

/// The timestamp in millis for the genesis block. It is 2022-12-01 00:00:00.
pub const GENESIS_BLOCK_TIMESTAMP_MILLIS: u64 = 1669849200000;

/// The index of the genesis block.
pub const GENESIS_BLOCK_INDEX: usize = 0;

/// The multihash code of SHA3-256 in the multicodec table. multihash 0.19
/// no longer ships that table (it moved to a separate crate), so the code
/// is given here.
pub const SHA3_256_CODE: u64 = 0x16;

/// The SHA3-256 digest of `data`.
pub uninterp spec fn sha3_256(data: Seq<u8>) -> Seq<u8>;

/// The 4 little-endian bytes of `x`, as bincode's default (fixint,
/// little-endian) configuration writes a `u32`.
pub open spec fn le_u32_bytes(x: u32) -> Seq<u8> {
    seq![
        (x % 0x100) as u8,
        ((x / 0x100) % 0x100) as u8,
        ((x / 0x1_0000) % 0x100) as u8,
        ((x / 0x100_0000) % 0x100) as u8,
    ]
}

/// The 8 little-endian bytes of `x`, as bincode's default configuration
/// writes a `u64` (and a `usize`, and a length).
pub open spec fn le_u64_bytes(x: u64) -> Seq<u8> {
    seq![
        (x % 0x100) as u8,
        ((x / 0x100) % 0x100) as u8,
        ((x / 0x1_0000) % 0x100) as u8,
        ((x / 0x100_0000) % 0x100) as u8,
        ((x / 0x1_0000_0000) % 0x100) as u8,
        ((x / 0x100_0000_0000) % 0x100) as u8,
        ((x / 0x1_0000_0000_0000) % 0x100) as u8,
        ((x / 0x100_0000_0000_0000) % 0x100) as u8,
    ]
}

/// bincode's encoding of a byte vector (or of bytes): the length as a
/// `u64`, then the bytes.
pub open spec fn bincode_bytes_encoding(bytes: Seq<u8>) -> Seq<u8> {
    le_u64_bytes(bytes.len() as u64) + bytes
}

/// bincode's encoding of an optional byte vector: the byte 0 for `None`,
/// the byte 1 and then the vector for `Some`.
pub open spec fn bincode_option_bytes_encoding(bytes: Option<Seq<u8>>) -> Seq<u8> {
    match bytes {
        None => seq![0u8],
        Some(b) => seq![1u8] + bincode_bytes_encoding(b),
    }
}

/// The bytes `bincode::serialize` produces for a block header whose version
/// has variant index `version` and whose other fields are given: the fields
/// in order, each encoded as above.
pub open spec fn bincode_header_encoding(
    version: u32,
    previous_header_hash: Option<Seq<u8>>,
    index: u64,
    merkle_root: Seq<u8>,
    time: u64,
) -> Seq<u8> {
    le_u32_bytes(version) + bincode_option_bytes_encoding(previous_header_hash) + le_u64_bytes(
        index,
    ) + bincode_bytes_encoding(merkle_root) + le_u64_bytes(time)
}

/// The bytes `bincode::serialize` produces for an optional transaction
/// payload.
pub open spec fn bincode_transactions_encoding(transactions: Option<Seq<u8>>) -> Seq<u8> {
    bincode_option_bytes_encoding(transactions)
}

/// The binary multihash of `digest` under `code`: the code and the digest's
/// length, each as an unsigned varint, then the digest. For a code and a
/// length below 128 each varint is a single byte.
pub open spec fn multihash_encoding(code: u64, digest: Seq<u8>) -> Seq<u8> {
    seq![code as u8, digest.len() as u8] + digest
}

/// `multihash::Error`, carried through unchanged.
#[verifier::external_type_specification]
#[verifier::external_body]
pub struct ExMultihashError(multihash::Error);

/// Calls `sha3::Sha3_256::digest`: the SHA3-256 digest of `data`, which is
/// always 32 bytes long.
#[verifier::external_body]
fn sha3_256_digest(data: &[u8]) -> (r: Vec<u8>)
    ensures
        r@ == sha3_256(data@),
        r@.len() == 32,
{
    sha3::Sha3_256::digest(data).to_vec()
}

/// Calls `multihash::Multihash::<64>::wrap` and encodes the result with
/// `Multihash::to_bytes`. `wrap` fails exactly when the digest is longer
/// than 64 bytes; the encoding is the code and the digest length as
/// varints, then the digest (stated here for a code and a length below 128).
#[verifier::external_body]
fn multihash_wrap_to_bytes(code: u64, digest: &[u8]) -> (r: core::result::Result<
    Vec<u8>,
    multihash::Error,
>)
    ensures
        r is Ok <==> digest@.len() <= 64,
        r matches Ok(b) ==> (code < 128 && digest@.len() < 128 ==> b@ == multihash_encoding(
            code,
            digest@,
        )),
{
    match multihash::Multihash::<64>::wrap(code, digest) {
        Ok(m) => Ok(m.to_bytes()),
        Err(e) => Err(e),
    }
}

/// Calls `bincode::serialize` on the tuple `(version, previous_header_hash,
/// index, merkle_root, time)`, which serde lays out exactly as it lays out
/// a block header (a unit variant as its `u32` index, a multihash as its
/// length-prefixed bytes, `usize` as `u64`). With bincode's default
/// options (no size limit, fixed-width little-endian integers) and only
/// types whose lengths serde reports, serialization cannot fail; the bytes
/// are `bincode_header_encoding` of the arguments.
#[verifier::external_body]
fn bincode_serialize_header(
    version: u32,
    previous_header_hash: &Option<Vec<u8>>,
    index: u64,
    merkle_root: &Vec<u8>,
    time: u64,
) -> (r: core::result::Result<Vec<u8>, bincode::Error>)
    ensures
        r is Ok,
        r matches Ok(b) ==> b@ == bincode_header_encoding(
            version,
            option_bytes_view(*previous_header_hash),
            index,
            merkle_root@,
            time,
        ),
{
    bincode::serialize(&(version, previous_header_hash, index, merkle_root, time))
}

/// Calls `bincode::serialize` on an optional transaction payload. With
/// bincode's default options this cannot fail; the bytes are
/// `bincode_transactions_encoding` of the payload.
#[verifier::external_body]
fn bincode_serialize_transactions(transactions: &Option<Vec<u8>>) -> (r: core::result::Result<
    Vec<u8>,
    bincode::Error,
>)
    ensures
        r is Ok,
        r matches Ok(b) ==> b@ == bincode_transactions_encoding(option_bytes_view(*transactions)),
{
    bincode::serialize(transactions)
}

/// The SHA3-256 multihash of `data`, in its binary encoding.
pub open spec fn sha3_256_multihash_of(data: Seq<u8>) -> Seq<u8> {
    multihash_encoding(SHA3_256_CODE, sha3_256(data))
}

/// The block format version.
#[derive(Debug, Clone, Copy, PartialEq, Eq, Structural)]
pub enum BlockVersion {
    V1,
}

/// The index of a version among the enum's variants, as serde reports it.
pub open spec fn version_tag(version: BlockVersion) -> u32 {
    match version {
        BlockVersion::V1 => 0,
    }
}

/// The abstract content of a [`BlockHeader`]; hashes are binary multihashes.
pub struct BlockHeaderView {
    pub version: BlockVersion,
    pub previous_header_hash: Option<Seq<u8>>,
    pub index: usize,
    pub merkle_root: Seq<u8>,
    pub time: u64,
}

/// The abstract content of a [`Block`].
pub struct BlockView {
    pub header: BlockHeaderView,
    pub transactions: Option<Seq<u8>>,
}

/// The hash that identifies a header: the SHA3-256 multihash of its bincode
/// encoding.
pub open spec fn header_hash(header: BlockHeaderView) -> Seq<u8> {
    sha3_256_multihash_of(
        bincode_header_encoding(
            version_tag(header.version),
            header.previous_header_hash,
            header.index as u64,
            header.merkle_root,
            header.time,
        ),
    )
}

/// The merkle root of a transaction payload: the SHA3-256 multihash of its
/// bincode encoding.
pub open spec fn merkle_root_of(transactions: Option<Seq<u8>>) -> Seq<u8> {
    sha3_256_multihash_of(bincode_transactions_encoding(transactions))
}

/// The fixed first block of every chain.
pub open spec fn genesis_block() -> BlockView {
    BlockView {
        header: BlockHeaderView {
            version: BlockVersion::V1,
            previous_header_hash: None,
            index: GENESIS_BLOCK_INDEX,
            merkle_root: merkle_root_of(None),
            time: GENESIS_BLOCK_TIMESTAMP_MILLIS,
        },
        transactions: None,
    }
}

/// The block that follows the header `latest`, carrying `transactions` and
/// stamped with `time`.
pub open spec fn next_block(
    latest: BlockHeaderView,
    transactions: Option<Seq<u8>>,
    time: u64,
) -> BlockView {
    BlockView {
        header: BlockHeaderView {
            version: BlockVersion::V1,
            previous_header_hash: Some(header_hash(latest)),
            index: (latest.index + 1) as usize,
            merkle_root: merkle_root_of(transactions),
            time,
        },
        transactions,
    }
}

/// A chain whose latest header hashes to `latest_hash` takes `block`: the
/// block's index is past the latest one and equal to the chain's length,
/// and the block names `latest_hash` as its predecessor.
pub open spec fn accepts_with_hash(
    chain: Seq<BlockView>,
    block: BlockView,
    latest_hash: Seq<u8>,
) -> bool {
    &&& chain.last().header.index < block.header.index
    &&& chain.len() == block.header.index
    &&& block.header.previous_header_hash == Some(latest_hash)
}

/// `chain` takes `block` as its next block.
pub open spec fn accepts(chain: Seq<BlockView>, block: BlockView) -> bool {
    accepts_with_hash(chain, block, header_hash(chain.last().header))
}

/// A chain starts with the genesis block, and each later block sits at its
/// own index and names the hash of the header before it.
pub open spec fn valid_chain(chain: Seq<BlockView>) -> bool {
    &&& chain.len() > 0
    &&& chain[0] == genesis_block()
    &&& forall|i: int| 0 < i < chain.len() ==> #[trigger] linked_at(chain, i)
}

/// The block at position `i` sits at index `i` and names the hash of the
/// header before it.
pub open spec fn linked_at(chain: Seq<BlockView>, i: int) -> bool {
    &&& chain[i].header.index == i
    &&& chain[i].header.previous_header_hash == Some(header_hash(chain[i - 1].header))
}

/// Appending a block the chain accepts keeps the chain valid.
pub proof fn lemma_accepted_block_keeps_chain_valid(chain: Seq<BlockView>, block: BlockView)
    requires
        valid_chain(chain),
        accepts(chain, block),
    ensures
        valid_chain(chain.push(block)),
{
    let pushed = chain.push(block);
    assert forall|i: int| 0 < i < pushed.len() implies #[trigger] linked_at(pushed, i) by {
        if i < chain.len() {
            assert(linked_at(chain, i));
        }
    }
}

/// The block generated to follow the latest block of a valid chain is
/// accepted by that chain, whatever its transactions and its time stamp.
pub proof fn lemma_next_block_is_accepted(
    chain: Seq<BlockView>,
    transactions: Option<Seq<u8>>,
    time: u64,
)
    requires
        valid_chain(chain),
        chain.len() <= usize::MAX,
    ensures
        accepts(chain, next_block(chain.last().header, transactions, time)),
        valid_chain(chain.push(next_block(chain.last().header, transactions, time))),
{
    if chain.len() > 1 {
        assert(linked_at(chain, chain.len() - 1));
    }
    lemma_accepted_block_keeps_chain_valid(
        chain,
        next_block(chain.last().header, transactions, time),
    );
}

/// A block is accepted at most once: once appended, the same block is not
/// accepted again.
pub proof fn lemma_block_accepted_at_most_once(chain: Seq<BlockView>, block: BlockView)
    requires
        valid_chain(chain),
        accepts(chain, block),
    ensures
        !accepts(chain.push(block), block),
{
}

/// An append-only chain of blocks linked by header hashes.
#[derive(Debug)]
pub struct BlockChain {
    blocks: Vec<Block>,
}

impl View for BlockChain {
    type V = Seq<BlockView>;

    closed spec fn view(&self) -> Seq<BlockView> {
        self.blocks@.map_values(|b: Block| b@)
    }
}

/// Whether `candidate` is `Some` of the bytes of `expected`.
fn names_hash(candidate: &Option<Vec<u8>>, expected: &Vec<u8>) -> (r: bool)
    ensures
        r == (option_bytes_view(*candidate) == Some(expected@)),
{
    match candidate {
        Some(c) => bytes_equal(c.as_slice(), expected.as_slice()),
        None => false,
    }
}

/// Byte-wise equality.
pub(crate) fn bytes_equal(a: &[u8], b: &[u8]) -> (r: bool)
    ensures
        r == (a@ == b@),
{
    if a.len() != b.len() {
        return false;
    }
    let mut i: usize = 0;
    while i < a.len()
        invariant
            a@.len() == b@.len(),
            i <= a@.len(),
            forall|j: int| 0 <= j < i ==> a@[j] == b@[j],
        decreases a@.len() - i,
    {
        if a[i] != b[i] {
            return false;
        }
        i = i + 1;
    }
    assert(a@ =~= b@);
    true
}

impl BlockChain {
    /// The chain is valid.
    pub open spec fn wf(&self) -> bool {
        valid_chain(self@)
    }

    /// A chain holding only the genesis block. Fails only when the genesis
    /// transactions cannot be encoded.
    pub fn try_new() -> (r: Result<BlockChain>)
        ensures
            r matches Ok(c) && c.wf() && c@ == seq![genesis_block()],
    {
        let genesis = generate_genesis_block()?;
        let c = BlockChain { blocks: vec![genesis] };
        assert(c@ =~= seq![genesis_block()]);
        Ok(c)
    }

    pub fn latest_block(&self) -> (b: &Block)
        requires
            self.wf(),
        ensures
            b@ == self@.last(),
    {
        let n = self.blocks.len();
        &self.blocks[n - 1]
    }

    /// Whether the chain takes `new_block` next, given the hash of its
    /// latest header.
    pub fn accepts_block(&self, new_block: &Block, latest_header_hash: &Vec<u8>) -> (r: bool)
        requires
            self.wf(),
        ensures
            r == accepts_with_hash(self@, new_block@, latest_header_hash@),
    {
        let previous_block = self.latest_block();
        previous_block.header.index < new_block.header.index && self.blocks.len()
            == new_block.header.index && names_hash(
            &new_block.header.previous_header_hash,
            latest_header_hash,
        )
    }

    /// Appends `new_block` when the chain accepts it; otherwise, and on
    /// error, the chain is left as it is.
    pub fn add_block(&mut self, new_block: Block) -> (r: Result<()>)
        requires
            old(self).wf(),
        ensures
            final(self).wf(),
            r is Ok,
            final(self)@ == if accepts(old(self)@, new_block@) {
                old(self)@.push(new_block@)
            } else {
                old(self)@
            },
    {
        let previous_block = self.latest_block();
        let previous_header_hash = BlockHeader::generate_header_hash(&previous_block.header)?;
        if self.accepts_block(&new_block, &previous_header_hash) {
            let ghost old_view = self@;
            let ghost new_view = new_block@;
            self.blocks.push(new_block);
            assert(self@ =~= old_view.push(new_view));
            assert forall|i: int| 0 < i < self@.len() implies #[trigger] linked_at(self@, i) by {
                if i < old_view.len() {
                    assert(linked_at(old_view, i));
                }
            }
        }
        Ok(())
    }

    /// The block that would follow the latest one, carrying `transactions`
    /// and stamped with the current time in milliseconds.
    pub fn generate_next_block(&self, transactions: Option<Vec<u8>>) -> (r: Result<Block>)
        requires
            self.wf(),
        ensures
            r matches Ok(b) && b@ == next_block(
                self@.last().header,
                option_bytes_view(transactions),
                b@.header.time,
            ),
    {
        let epoch_timestamp = millis_now();
        self.generate_next_block_at(transactions, epoch_timestamp)
    }

    /// The block that would follow the latest one, carrying `transactions`
    /// and stamped with `time`.
    pub fn generate_next_block_at(&self, transactions: Option<Vec<u8>>, time: u64) -> (r: Result<
        Block,
    >)
        requires
            self.wf(),
        ensures
            r matches Ok(b) && b@ == next_block(
                self@.last().header,
                option_bytes_view(transactions),
                time,
            ),
    {
        let latest_header = &self.latest_block().header;
        let previous_header_hash = BlockHeader::generate_header_hash(latest_header)?;
        assert(latest_header@.index == self@.len() - 1) by {
            if self@.len() > 1 {
                assert(linked_at(self@, self@.len() - 1));
            }
        }
        let n = self.blocks.len();
        assert(self@.len() == n);
        let index = latest_header.index + 1;
        let merkle_root = BlockHeader::generate_merkle_root(&transactions)?;
        let header = BlockHeader::new(
            BlockVersion::V1,
            Some(previous_header_hash),
            index,
            merkle_root,
            time,
        );
        Ok(Block::new(header, transactions))
    }

    pub fn get_block(&self, index: usize) -> (r: Option<&Block>)
        ensures
            r is None <==> index >= self@.len(),
            r matches Some(b) ==> b@ == self@[index as int],
    {
        if index < self.blocks.len() {
            Some(&self.blocks[index])
        } else {
            None
        }
    }

    pub fn len(&self) -> (n: usize)
        ensures
            n == self@.len(),
    {
        self.blocks.len()
    }
}

/// The header of a block.
#[derive(Debug)]
pub struct BlockHeader {
    version: BlockVersion,
    previous_header_hash: Option<Vec<u8>>,
    index: usize,
    merkle_root: Vec<u8>,
    time: u64,
}

impl View for BlockHeader {
    type V = BlockHeaderView;

    closed spec fn view(&self) -> BlockHeaderView {
        BlockHeaderView {
            version: self.version,
            previous_header_hash: option_bytes_view(self.previous_header_hash),
            index: self.index,
            merkle_root: self.merkle_root@,
            time: self.time,
        }
    }
}

impl Clone for BlockHeader {
    fn clone(&self) -> (r: Self)
        ensures
            r@ == self@,
    {
        BlockHeader {
            version: self.version,
            previous_header_hash: crate::block::copy_option_bytes(&self.previous_header_hash),
            index: self.index,
            merkle_root: crate::block::copy_bytes(&self.merkle_root),
            time: self.time,
        }
    }
}

impl BlockHeader {
    pub fn new(
        version: BlockVersion,
        previous_header_hash: Option<Vec<u8>>,
        index: usize,
        merkle_root: Vec<u8>,
        time: u64,
    ) -> (h: BlockHeader)
        ensures
            h@ == (BlockHeaderView {
                version,
                previous_header_hash: option_bytes_view(previous_header_hash),
                index,
                merkle_root: merkle_root@,
                time,
            }),
    {
        BlockHeader { version, previous_header_hash, index, merkle_root, time }
    }

    pub fn version(&self) -> (v: BlockVersion)
        ensures
            v == self@.version,
    {
        self.version
    }

    pub fn previous_header_hash(&self) -> (r: Option<&Vec<u8>>)
        ensures
            r is None <==> self@.previous_header_hash is None,
            r matches Some(h) ==> Some(h@) == self@.previous_header_hash,
    {
        match &self.previous_header_hash {
            Some(h) => Some(h),
            None => None,
        }
    }

    pub fn index(&self) -> (i: usize)
        ensures
            i == self@.index,
    {
        self.index
    }

    pub fn merkle_root(&self) -> (r: &Vec<u8>)
        ensures
            r@ == self@.merkle_root,
    {
        &self.merkle_root
    }

    pub fn time(&self) -> (t: u64)
        ensures
            t == self@.time,
    {
        self.time
    }

    fn generate_header_hash(header: &BlockHeader) -> (r: Result<Vec<u8>>)
        ensures
            r matches Ok(h) && h@ == header_hash(header@),
    {
        let version: u32 = match header.version {
            BlockVersion::V1 => 0,
        };
        let bytes = match bincode_serialize_header(
            version,
            &header.previous_header_hash,
            header.index as u64,
            &header.merkle_root,
            header.time,
        ) {
            Ok(bytes) => bytes,
            Err(e) => return Err(MarkChainError::Bincode(e)),
        };
        Ok(sha3_256_multihash(bytes.as_slice()))
    }

    fn generate_merkle_root(transactions: &Option<Vec<u8>>) -> (r: Result<Vec<u8>>)
        ensures
            r matches Ok(h) && h@ == merkle_root_of(option_bytes_view(*transactions)),
    {
        let bytes = match bincode_serialize_transactions(transactions) {
            Ok(bytes) => bytes,
            Err(e) => return Err(MarkChainError::Bincode(e)),
        };
        Ok(sha3_256_multihash(bytes.as_slice()))
    }
}

/// A block: its header and its optional transaction payload.
#[derive(Debug)]
pub struct Block {
    header: BlockHeader,
    transactions: Option<Vec<u8>>,
}

impl View for Block {
    type V = BlockView;

    closed spec fn view(&self) -> BlockView {
        BlockView { header: self.header@, transactions: option_bytes_view(self.transactions) }
    }
}

impl Clone for Block {
    fn clone(&self) -> (r: Self)
        ensures
            r@ == self@,
    {
        Block {
            header: self.header.clone(),
            transactions: crate::block::copy_option_bytes(&self.transactions),
        }
    }
}

impl Block {
    pub fn new(header: BlockHeader, transactions: Option<Vec<u8>>) -> (b: Block)
        ensures
            b@ == (BlockView { header: header@, transactions: option_bytes_view(transactions) }),
    {
        Block { header, transactions }
    }

    pub fn header(&self) -> (h: &BlockHeader)
        ensures
            h@ == self@.header,
    {
        &self.header
    }

    pub fn transactions(&self) -> (r: Option<&Vec<u8>>)
        ensures
            r is None <==> self@.transactions is None,
            r matches Some(t) ==> Some(t@) == self@.transactions,
    {
        match &self.transactions {
            Some(t) => Some(t),
            None => None,
        }
    }
}

fn generate_genesis_block() -> (r: Result<Block>)
    ensures
        r matches Ok(b) && b@ == genesis_block(),
{
    let transactions = None;
    let merkle_root = BlockHeader::generate_merkle_root(&transactions)?;
    let header = BlockHeader::new(
        BlockVersion::V1,
        None,
        GENESIS_BLOCK_INDEX,
        merkle_root,
        GENESIS_BLOCK_TIMESTAMP_MILLIS,
    );
    Ok(Block::new(header, transactions))
}

/// Milliseconds elapsed since the Unix epoch by the machine's clock, or 0
/// when the clock reads earlier than the epoch.
pub fn millis_now() -> (ms: u64) {
    let now = system_time_now();
    let elapsed = match elapsed_since_unix_epoch(&now) {
        Ok(d) => Some((duration_whole_secs(&d), duration_subsec_millis(&d))),
        Err(_) => None,
    };
    epoch_millis_or_zero(elapsed)
}

/// The SHA3-256 multihash of `bytes`, in its binary encoding.
pub fn sha3_256_multihash(bytes: &[u8]) -> (r: Vec<u8>)
    ensures
        r@ == sha3_256_multihash_of(bytes@),
{
    let digest = sha3_256_digest(bytes);
    match multihash_wrap_to_bytes(SHA3_256_CODE, digest.as_slice()) {
        Ok(encoded) => encoded,
        Err(_) => {
            assert(false);
            Vec::new()
        },
    }
}

} // verus!
