//! The decisions of the provider that answers RPC calls from the node's
//! database: at which block state is read, where block receipts come from,
//! and which nonce an account has.
use crate::filter::BlockNumberOrTag;
use vstd::prelude::*;

verus! {

/// A block hash, with whether the block must be on the canonical chain.
#[derive(Clone, Copy, Debug, PartialEq, Eq)]
pub struct RpcBlockHash {
    pub block_hash: [u8; 32],
    pub require_canonical: Option<bool>,
}

/// A block, named by its hash or by its number or tag.
#[derive(Clone, Copy, Debug, PartialEq, Eq)]
pub enum BlockId {
    Hash(RpcBlockHash),
    Number(BlockNumberOrTag),
}

/// Where the number of the block at which state is read comes from.
#[derive(Clone, Copy, Debug, PartialEq, Eq)]
pub enum BlockNumberSource {
    /// The block id gives the number itself.
    Known(u64),
    /// The number of the block with this hash, looked up in the database.
    ByHash([u8; 32]),
    /// The number of the best block in the database.
    Best,
}

/// Why the state at a block could not be opened.
#[derive(Clone, Copy, Debug, PartialEq, Eq)]
pub enum StateAtError<E> {
    /// Reading the database failed with this error.
    Provider(E),
    /// No block has this hash.
    BlockHashNotFound([u8; 32]),
}

/// Where the number of the block at which the state for `block_id` is read
/// comes from: a hash is looked up, a number is taken as it is, and every
/// tag stands for the best block.
pub fn block_number_source(block_id: &BlockId) -> (r: BlockNumberSource)
    ensures
        r == (match *block_id {
            BlockId::Hash(h) => BlockNumberSource::ByHash(h.block_hash),
            BlockId::Number(BlockNumberOrTag::Number(n)) => BlockNumberSource::Known(n),
            BlockId::Number(_) => BlockNumberSource::Best,
        }),
{
    match block_id {
        BlockId::Hash(h) => BlockNumberSource::ByHash(h.block_hash),
        BlockId::Number(BlockNumberOrTag::Number(n)) => BlockNumberSource::Known(*n),
        BlockId::Number(_) => BlockNumberSource::Best,
    }
}

/// The block number at which state is read, given what looking up `hash`
/// in the database gave: the number found, `BlockHashNotFound` if there was
/// none, or the database's error.
pub fn block_number_from_lookup<E>(hash: [u8; 32], found: Result<Option<u64>, E>) -> (r: Result<
    u64,
    StateAtError<E>,
>)
    ensures
        r == (match found {
            Ok(Some(n)) => Ok(n),
            Ok(None) => Err(StateAtError::BlockHashNotFound(hash)),
            Err(e) => Err(StateAtError::Provider(e)),
        }),
{
    match found {
        Ok(Some(n)) => Ok(n),
        Ok(None) => Err(StateAtError::BlockHashNotFound(hash)),
        Err(e) => Err(StateAtError::Provider(e)),
    }
}

/// What to do with the receipts of a block as read from the database.
pub enum ReceiptsStep<B, R, E> {
    /// Answer with this.
    Respond(Result<Option<R>, E>),
    /// The database does not have them: ask the upstream node for the
    /// receipts of this block.
    AskUpstream(B),
}

/// Receipts found in the database are the answer for `block`, and so is an
/// error in reading them; only receipts that the database does not have are
/// asked of the upstream node, for the same block.
pub fn block_receipts_step<B, R, E>(block: B, local: Result<Option<R>, E>) -> (r: ReceiptsStep<
    B,
    R,
    E,
>)
    ensures
        match local {
            Ok(Some(receipts)) => r == ReceiptsStep::<B, R, E>::Respond(Ok(Some(receipts))),
            Ok(None) => r == ReceiptsStep::<B, R, E>::AskUpstream(block),
            Err(e) => r == ReceiptsStep::<B, R, E>::Respond(Err(e)),
        },
{
    match local {
        Ok(Some(receipts)) => ReceiptsStep::Respond(Ok(Some(receipts))),
        Ok(None) => ReceiptsStep::AskUpstream(block),
        Err(e) => ReceiptsStep::Respond(Err(e)),
    }
}

/// The answer for receipts asked of the upstream node: its answer, whether
/// receipts, none, or an error, is passed on as it is.
pub fn upstream_receipts_response<R, E>(upstream: Result<Option<R>, E>) -> (r: Result<
    Option<R>,
    E,
>)
    ensures
        r == upstream,
{
    upstream
}

/// The transaction count of an account: its nonce, or zero for an account
/// that does not exist.
pub fn account_nonce(nonce: Option<u64>) -> (r: u64)
    ensures
        r == (match nonce {
            Some(n) => n,
            None => 0,
        }),
{
    match nonce {
        Some(n) => n,
        None => 0,
    }
}

} // verus!
