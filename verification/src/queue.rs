//! The queue of blocks that wait for the board.

use std::collections::VecDeque;
use vstd::prelude::*;
use crate::geometry::views;
use crate::sketch::Block;

verus! {

/// Blocks in the order in which they are to be sent: first in, first out.
pub struct PendingQueue {
    blocks: VecDeque<Block>,
}

impl View for PendingQueue {
    type V = Seq<Seq<u8>>;

    closed spec fn view(&self) -> Seq<Seq<u8>> {
        views(self.blocks@)
    }
}

/// The bytes of a block that may be there.
pub open spec fn block_view(block: Option<Block>) -> Option<Seq<u8>> {
    match block {
        Some(bytes) => Some(bytes@),
        None => None,
    }
}

impl PendingQueue {
    /// A queue that holds no block.
    pub fn new() -> (queue: Self)
        ensures
            queue@ == Seq::<Seq<u8>>::empty(),
    {
        let queue = PendingQueue { blocks: VecDeque::new() };
        queue
    }

    /// The number of blocks that wait.
    pub fn len(&self) -> (len: usize)
        ensures
            len == self@.len(),
    {
        self.blocks.len()
    }

    /// Whether no block waits.
    pub fn is_empty(&self) -> (empty: bool)
        ensures
            empty == (self@.len() == 0),
    {
        self.blocks.len() == 0
    }

    /// Puts the blocks at the end of the queue, in their order.
    pub fn append(&mut self, blocks: Vec<Block>)
        ensures
            final(self)@ == old(self)@ + views(blocks@),
    {
        for block in it: blocks
            invariant
                it.seq() == blocks@,
                self.blocks@ == old(self).blocks@ + blocks@.take(it.index() as int),
        {
            self.blocks.push_back(block);
        }
    }

    /// Takes the block at the front of the queue, if there is one.
    pub fn pop(&mut self) -> (block: Option<Block>)
        ensures
            old(self)@.len() == 0 ==> block.is_none() && final(self)@ == old(self)@,
            old(self)@.len() > 0 ==> block_view(block) == Some(old(self)@[0]) && final(self)@
                == old(self)@.skip(1),
    {
        let block = self.blocks.pop_front();
        block
    }
}

} // verus!
