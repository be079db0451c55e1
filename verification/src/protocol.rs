//! What the state machines ask of a lightwalletd server, and what comes back.

use crate::chain::{CompactBlock, CompactBlockView, TreeState, TreeStateView};
use vstd::prelude::*;

verus! {

/// What a run waits for.
#[derive(Debug)]
pub enum Action {
    /// Connect to the server.
    Connect,
    /// Ask for the height of the chain's tip.
    LatestHeight,
    /// Ask for the tree state at the end of the block at a height.
    TreeState(u64),
    /// Open a stream of the blocks from the first height to the second, both included.
    BlockRange(u64, u64),
    /// Take the next block from the stream.
    NextBlock,
    /// Ask for the full transaction with an identifier.
    Transaction(Vec<u8>),
    /// Nothing: the run has ended.
    Nothing,
}

pub enum ActionView {
    Connect,
    LatestHeight,
    TreeState(u64),
    BlockRange(u64, u64),
    NextBlock,
    Transaction(Seq<u8>),
    Nothing,
}

impl View for Action {
    type V = ActionView;

    open spec fn view(&self) -> ActionView {
        match self {
            Action::Connect => ActionView::Connect,
            Action::LatestHeight => ActionView::LatestHeight,
            Action::TreeState(h) => ActionView::TreeState(*h),
            Action::BlockRange(a, b) => ActionView::BlockRange(*a, *b),
            Action::NextBlock => ActionView::NextBlock,
            Action::Transaction(id) => ActionView::Transaction(id@),
            Action::Nothing => ActionView::Nothing,
        }
    }
}

/// What came of an [`Action`].
#[derive(Debug)]
pub enum Reply {
    Connected,
    Height(u64),
    TreeState(TreeState),
    StreamOpened,
    Block(CompactBlock),
    /// The stream holds no further block.
    StreamEnded,
    /// The bytes of a transaction.
    Transaction(Vec<u8>),
    /// The action failed.
    Failed,
}

pub enum ReplyView {
    Connected,
    Height(u64),
    TreeState(TreeStateView),
    StreamOpened,
    Block(CompactBlockView),
    StreamEnded,
    Transaction(Seq<u8>),
    Failed,
}

impl View for Reply {
    type V = ReplyView;

    open spec fn view(&self) -> ReplyView {
        match self {
            Reply::Connected => ReplyView::Connected,
            Reply::Height(h) => ReplyView::Height(*h),
            Reply::TreeState(t) => ReplyView::TreeState(t@),
            Reply::StreamOpened => ReplyView::StreamOpened,
            Reply::Block(b) => ReplyView::Block(b@),
            Reply::StreamEnded => ReplyView::StreamEnded,
            Reply::Transaction(raw) => ReplyView::Transaction(raw@),
            Reply::Failed => ReplyView::Failed,
        }
    }
}

} // verus!
