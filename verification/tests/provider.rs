use mini_alloy_reth::batch::recent_blocks;
use mini_alloy_reth::filter::BlockNumberOrTag;
use mini_alloy_reth::provider::{
    account_nonce, block_number_from_lookup, block_number_source, block_receipts_step, BlockId,
    BlockNumberSource, ReceiptsStep, RpcBlockHash, StateAtError, upstream_receipts_response,
};

#[test]
fn state_at_a_hash_looks_the_hash_up() {
    let id = BlockId::Hash(RpcBlockHash { block_hash: [7u8; 32], require_canonical: Some(true) });
    assert_eq!(block_number_source(&id), BlockNumberSource::ByHash([7u8; 32]));
}

#[test]
fn state_at_a_number_uses_it() {
    let id = BlockId::Number(BlockNumberOrTag::Number(1234));
    assert_eq!(block_number_source(&id), BlockNumberSource::Known(1234));
}

#[test]
fn state_at_a_tag_uses_the_best_block() {
    for tag in [
        BlockNumberOrTag::Latest,
        BlockNumberOrTag::Finalized,
        BlockNumberOrTag::Safe,
        BlockNumberOrTag::Earliest,
        BlockNumberOrTag::Pending,
    ] {
        assert_eq!(block_number_source(&BlockId::Number(tag)), BlockNumberSource::Best);
    }
}

#[test]
fn hash_lookup_outcomes() {
    let hash = [3u8; 32];
    assert_eq!(block_number_from_lookup::<&str>(hash, Ok(Some(99))), Ok(99));
    assert_eq!(
        block_number_from_lookup::<&str>(hash, Ok(None)),
        Err(StateAtError::BlockHashNotFound(hash))
    );
    assert_eq!(
        block_number_from_lookup(hash, Err("corrupt")),
        Err(StateAtError::Provider("corrupt"))
    );
}

#[test]
fn receipts_from_the_database_are_the_answer() {
    assert!(matches!(
        block_receipts_step::<u64, Vec<u8>, &str>(12, Ok(Some(vec![1, 2]))),
        ReceiptsStep::Respond(Ok(Some(ref v))) if v == &vec![1, 2]
    ));
    assert!(matches!(
        block_receipts_step::<u64, Vec<u8>, &str>(12, Ok(Some(vec![]))),
        ReceiptsStep::Respond(Ok(Some(ref v))) if v.is_empty()
    ));
}

#[test]
fn missing_receipts_are_asked_upstream() {
    assert!(matches!(
        block_receipts_step::<u64, Vec<u8>, &str>(12, Ok(None)),
        ReceiptsStep::AskUpstream(12)
    ));
}

#[test]
fn receipt_read_error_is_the_answer() {
    assert!(matches!(
        block_receipts_step::<u64, Vec<u8>, &str>(12, Err("locked")),
        ReceiptsStep::Respond(Err("locked"))
    ));
}

#[test]
fn nonce_of_missing_account_is_zero() {
    assert_eq!(account_nonce(None), 0);
    assert_eq!(account_nonce(Some(17)), 17);
}

#[test]
fn recent_blocks_are_the_ten_before_the_latest() {
    let blocks = recent_blocks(100);
    let expected: Vec<(u64, u64)> = (90..100).map(|n| (n, 100 - n)).collect();
    assert_eq!(blocks, expected);
    let blocks = recent_blocks(10);
    assert_eq!(blocks.first(), Some(&(0, 10)));
    assert_eq!(blocks.last(), Some(&(9, 1)));
}

#[test]
fn upstream_answer_is_passed_on() {
    assert_eq!(upstream_receipts_response::<Vec<u8>, &str>(Ok(Some(vec![4]))), Ok(Some(vec![4])));
    assert_eq!(upstream_receipts_response::<Vec<u8>, &str>(Ok(None)), Ok(None));
    assert_eq!(upstream_receipts_response::<Vec<u8>, &str>(Err("gone")), Err("gone"));
}
