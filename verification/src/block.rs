//! Blocks of the string-linked chain: a header names the merkle root of the
//! block before it.

use vstd::prelude::*;

verus! {

/// The format version of a block.
#[derive(Debug, Clone, Copy, PartialEq, Eq, Structural)]
pub enum BlockVersion {
    V1,
    V2,
    V3,
    V4,
}

/// The abstract content of a [`BlockHeader`].
pub struct BlockHeaderView {
    pub version: BlockVersion,
    pub previous_block_header: Option<Seq<char>>,
    pub merkle_root: Seq<char>,
    pub time: u64,
}

/// The abstract content of a [`Block`].
pub struct BlockView {
    pub header: BlockHeaderView,
    pub index: u64,
    pub txns: Option<Seq<u8>>,
}

/// The characters of an optional string.
pub open spec fn option_string_view(s: Option<String>) -> Option<Seq<char>> {
    match s {
        Some(s) => Some(s@),
        None => None,
    }
}

/// The bytes of an optional byte vector.
pub open spec fn option_bytes_view(v: Option<Vec<u8>>) -> Option<Seq<u8>> {
    match v {
        Some(v) => Some(v@),
        None => None,
    }
}

/// The header of a block: its version, a link to the previous block, the
/// root of its transactions and its creation time.
#[derive(Debug)]
pub struct BlockHeader {
    version: BlockVersion,
    previous_block_header: Option<String>,
    merkle_root: String,
    time: u64,
}

impl View for BlockHeader {
    type V = BlockHeaderView;

    closed spec fn view(&self) -> BlockHeaderView {
        BlockHeaderView {
            version: self.version,
            previous_block_header: option_string_view(self.previous_block_header),
            merkle_root: self.merkle_root@,
            time: self.time,
        }
    }
}

impl Clone for BlockHeader {
    fn clone(&self) -> (r: Self)
        ensures
            r@ == self@,
    {
        let previous_block_header = match &self.previous_block_header {
            Some(s) => Some(s.clone()),
            None => None,
        };
        BlockHeader {
            version: self.version,
            previous_block_header,
            merkle_root: self.merkle_root.clone(),
            time: self.time,
        }
    }
}

impl BlockHeader {
    pub fn new(
        version: BlockVersion,
        previous_block_header: Option<String>,
        merkle_root: String,
        time: u64,
    ) -> (h: BlockHeader)
        ensures
            h@ == (BlockHeaderView {
                version,
                previous_block_header: option_string_view(previous_block_header),
                merkle_root: merkle_root@,
                time,
            }),
    {
        BlockHeader { version, previous_block_header, merkle_root, time }
    }

    pub fn previous_block_header(&self) -> (r: Option<&str>)
        ensures
            r is None <==> self@.previous_block_header is None,
            r matches Some(s) ==> Some(s@) == self@.previous_block_header,
    {
        match &self.previous_block_header {
            Some(s) => Some(s.as_str()),
            None => None,
        }
    }

    pub fn merkle_root(&self) -> (r: &str)
        ensures
            r@ == self@.merkle_root,
    {
        self.merkle_root.as_str()
    }

    /// Whether this header names `previous`'s merkle root as the block it
    /// follows.
    pub(crate) fn follows(&self, previous: &BlockHeader) -> (r: bool)
        ensures
            r == (self@.previous_block_header == Some(previous@.merkle_root)),
    {
        match &self.previous_block_header {
            Some(s) => *s == previous.merkle_root,
            None => false,
        }
    }
}

/// A block: a header, the block's position in the chain and its optional
/// transaction payload.
#[derive(Debug)]
pub struct Block {
    header: BlockHeader,
    index: u64,
    txns: Option<Vec<u8>>,
}

impl View for Block {
    type V = BlockView;

    closed spec fn view(&self) -> BlockView {
        BlockView { header: self.header@, index: self.index, txns: option_bytes_view(self.txns) }
    }
}

/// A copy of a byte vector.
pub(crate) fn copy_bytes(v: &Vec<u8>) -> (r: Vec<u8>)
    ensures
        r@ == v@,
{
    let r = v.clone();
    assert(r@ =~= v@);
    r
}

/// A copy of an optional byte vector.
pub(crate) fn copy_option_bytes(v: &Option<Vec<u8>>) -> (r: Option<Vec<u8>>)
    ensures
        option_bytes_view(r) == option_bytes_view(*v),
{
    match v {
        Some(b) => Some(copy_bytes(b)),
        None => None,
    }
}

impl Clone for Block {
    fn clone(&self) -> (r: Self)
        ensures
            r@ == self@,
    {
        Block { header: self.header.clone(), index: self.index, txns: copy_option_bytes(&self.txns) }
    }
}

impl Block {
    pub fn new(header: BlockHeader, index: u64, txns: Option<Vec<u8>>) -> (b: Block)
        ensures
            b@ == (BlockView { header: header@, index, txns: option_bytes_view(txns) }),
    {
        Block { header, index, txns }
    }

    pub fn index(&self) -> (r: u64)
        ensures
            r == self@.index,
    {
        self.index
    }

    pub fn header(&self) -> (r: &BlockHeader)
        ensures
            r@ == self@.header,
    {
        &self.header
    }
}

} // verus!
