//! An append-only chain of [`crate::block::Block`]s linked by merkle roots.

use vstd::prelude::*;

use crate::block::{Block, BlockHeader, BlockHeaderView, BlockVersion, BlockView};
use crate::clock::secs_now;

verus! {

/// The merkle root every genesis block carries.
pub open spec fn genesis_merkle_root() -> Seq<char> {
    "0x1bc33000000000 00000000000000000000000000000000000"@
}

/// A genesis block created at `time` (whole seconds since the Unix epoch).
pub open spec fn genesis_block(time: u64) -> BlockView {
    BlockView {
        header: BlockHeaderView {
            version: BlockVersion::V1,
            previous_block_header: None,
            merkle_root: genesis_merkle_root(),
            time,
        },
        index: 0,
        txns: None,
    }
}

/// `next` may follow `previous`: its index is larger and its header names
/// `previous`'s merkle root.
pub open spec fn links(previous: BlockView, next: BlockView) -> bool {
    &&& previous.index < next.index
    &&& next.header.previous_block_header == Some(previous.header.merkle_root)
}

/// A chain starts with a genesis block and every later block follows the one
/// before it.
pub open spec fn valid_chain(blocks: Seq<BlockView>) -> bool {
    &&& blocks.len() > 0
    &&& blocks[0] == genesis_block(blocks[0].header.time)
    &&& forall|i: int| 0 < i < blocks.len() ==> #[trigger] links(blocks[i - 1], blocks[i])
}

/// An append-only chain of blocks.
#[derive(Debug)]
pub struct BlockChain {
    blocks: Vec<Block>,
}

impl View for BlockChain {
    type V = Seq<BlockView>;

    closed spec fn view(&self) -> Seq<BlockView> {
        self.blocks@.map_values(|b: Block| b@)
    }
}

impl BlockChain {
    /// The chain is valid.
    pub open spec fn wf(&self) -> bool {
        valid_chain(self@)
    }

    /// A chain holding only a genesis block stamped with the current time.
    pub fn new() -> (c: BlockChain)
        ensures
            c.wf(),
            c@.len() == 1,
            c@[0] == genesis_block(c@[0].header.time),
    {
        let blocks = vec![gen_genesis_block()];
        let c = BlockChain { blocks };
        assert(c@.len() == 1);
        c
    }

    pub fn latest_block(&self) -> (b: &Block)
        requires
            self.wf(),
        ensures
            b@ == self@.last(),
    {
        let n = self.blocks.len();
        &self.blocks[n - 1]
    }

    /// Appends `new_block` when it follows the latest block; otherwise the
    /// chain is left as it is.
    pub fn add_block(&mut self, new_block: Block)
        requires
            old(self).wf(),
        ensures
            final(self).wf(),
            final(self)@ == if links(old(self)@.last(), new_block@) {
                old(self)@.push(new_block@)
            } else {
                old(self)@
            },
    {
        let previous_block = self.latest_block();
        if previous_block.index() < new_block.index() && new_block.header().follows(
            previous_block.header(),
        ) {
            let ghost old_view = self@;
            let ghost new_view = new_block@;
            self.blocks.push(new_block);
            assert(self@ =~= old_view.push(new_view));
            assert forall|i: int| 0 < i < self@.len() implies #[trigger] links(
                self@[i - 1],
                self@[i],
            ) by {
                if i < old_view.len() {
                    assert(links(old_view[i - 1], old_view[i]));
                }
            }
        }
    }

    pub fn get_block(&self, index: usize) -> (r: Option<&Block>)
        ensures
            r is None <==> index >= self@.len(),
            r matches Some(b) ==> b@ == self@[index as int],
    {
        if index < self.blocks.len() {
            Some(&self.blocks[index])
        } else {
            None
        }
    }

    pub fn len(&self) -> (n: usize)
        ensures
            n == self@.len(),
    {
        self.blocks.len()
    }
}

fn gen_genesis_block() -> (b: Block)
    ensures
        b@ == genesis_block(b@.header.time),
{
    let epoch_timestamp = secs_now();
    let header = BlockHeader::new(
        BlockVersion::V1,
        None,
        "0x1bc33000000000 00000000000000000000000000000000000".to_owned(),
        epoch_timestamp,
    );
    Block::new(header, 0, None)
}

} // verus!
