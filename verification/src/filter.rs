//! The decisions of a query for logs: which block range a filter selects,
//! and in which chunks the headers of that range are read.
//!
//! Reading the chain's state is left to the caller: a query is a state
//! machine that says what it needs next (`LogsRequest`) and is handed the
//! answer (`LogsReply`).
use crate::block_range::{
    block_chunks, lemma_chunks_cover, BlockRangeInclusiveIter,
};
use vstd::prelude::*;

verus! {

/// A block number, or a tag that names a block by its place in the chain.
#[derive(Clone, Copy, Debug, PartialEq, Eq)]
pub enum BlockNumberOrTag {
    Latest,
    Finalized,
    Safe,
    Earliest,
    Pending,
    Number(u64),
}

/// The blocks that a log filter selects: a range given by its two optional
/// ends, or one block given by its hash.
#[derive(Clone, Copy, Debug, PartialEq, Eq)]
pub enum FilterBlockOption {
    Range { from_block: Option<BlockNumberOrTag>, to_block: Option<BlockNumberOrTag> },
    AtBlockHash([u8; 32]),
}

/// What is known of the head of the chain: its hash and its number.
#[derive(Clone, Copy, Debug, PartialEq, Eq)]
pub struct ChainInfo {
    pub best_hash: [u8; 32],
    pub best_number: u64,
}

/// The most blocks after the first one whose headers are read at once.
pub const HEADERS_CHUNK_STEP: u64 = 1000;

/// The block range `(from, to)` that a filter selects, given the block
/// numbers that its two ends stand for, the block at which an open start
/// begins, and the head of the chain: the start is `from_block`, but no later
/// than `start_block`; the end is `to_block`, but no later than the head. An
/// end that is not given is `start_block` or the head.
pub open spec fn filter_block_range(
    from_block: Option<u64>,
    to_block: Option<u64>,
    start_block: u64,
    best_number: u64,
) -> (u64, u64) {
    (
        match from_block {
            Some(f) => if f < start_block {
                f
            } else {
                start_block
            },
            None => start_block,
        },
        match to_block {
            Some(t) => if t < best_number {
                t
            } else {
                best_number
            },
            None => best_number,
        },
    )
}

/// The range a filter selects starts at the smaller of its given start and
/// `start_block` (at `start_block` when it gives none), and ends at the
/// smaller of its given end and the head (at the head when it gives none).
pub proof fn lemma_filter_range_clamps(
    from_block: Option<u64>,
    to_block: Option<u64>,
    start_block: u64,
    best_number: u64,
)
    ensures
        ({
            let r = filter_block_range(from_block, to_block, start_block, best_number);
            &&& r.0 <= start_block
            &&& r.1 <= best_number
            &&& from_block is None ==> r.0 == start_block
            &&& from_block matches Some(f) ==> r.0 <= f && (r.0 == f || r.0 == start_block)
            &&& to_block is None ==> r.1 == best_number
            &&& to_block matches Some(t) ==> r.1 <= t && (r.1 == t || r.1 == best_number)
        }),
{
}

/// Computes the block range that a filter selects, from the block numbers
/// that its two ends stand for (see `filter_block_range`).
pub fn get_filter_block_range(
    from_block: Option<u64>,
    to_block: Option<u64>,
    start_block: u64,
    info: ChainInfo,
) -> (r: (u64, u64))
    ensures
        r == filter_block_range(from_block, to_block, start_block, info.best_number),
        r.0 <= start_block,
        r.1 <= info.best_number,
        from_block is None ==> r.0 == start_block,
        from_block matches Some(f) ==> r.0 <= f && (r.0 == f || r.0 == start_block),
        to_block is None ==> r.1 == info.best_number,
        to_block matches Some(t) ==> r.1 <= t && (r.1 == t || r.1 == info.best_number),
{
    let mut from_block_number = start_block;
    let mut to_block_number = info.best_number;
    if let Some(filter_from_block) = from_block {
        if filter_from_block < start_block {
            from_block_number = filter_from_block;
        }
    }
    if let Some(filter_to_block) = to_block {
        if filter_to_block < info.best_number {
            to_block_number = filter_to_block;
        }
    }
    (from_block_number, to_block_number)
}

/// Why a query for logs failed.
#[derive(Clone, Copy, Debug, PartialEq, Eq)]
pub enum LogsError<E> {
    /// Reading the chain failed with this error.
    Provider(E),
    /// The range ends before it starts.
    InvalidBlockRange { from_block: u64, to_block: u64 },
}

/// What a query for logs needs next.
pub enum LogsRequest<L, E> {
    /// The head of the chain.
    ChainInfo,
    /// The number of the block that a tag or number stands for, if there is one.
    BlockNumber(BlockNumberOrTag),
    /// The headers of the blocks `from_block..=to_block`.
    HeadersRange { from_block: u64, to_block: u64 },
    /// Nothing: the query is over, with this outcome.
    Done(Result<Vec<L>, LogsError<E>>),
}

/// The answer to the last request of a query for logs.
pub enum LogsReply<E> {
    ChainInfo(ChainInfo),
    BlockNumber(Option<u64>),
    Headers,
    Failed(E),
}

/// Where a query for logs stands.
pub enum QueryStage {
    /// It waits for the head of the chain; the filter's two ends are still tags.
    AwaitChainInfo { from_block: Option<BlockNumberOrTag>, to_block: Option<BlockNumberOrTag> },
    /// It waits for the number that the filter's start stands for.
    AwaitFromBlock { info: ChainInfo, to_block: Option<BlockNumberOrTag> },
    /// It waits for the number that the filter's end stands for.
    AwaitToBlock { info: ChainInfo, from_number: Option<u64> },
    /// It reads headers; these chunks of the range are still to be read.
    Scanning { chunks: Seq<(int, int)> },
    /// It is over.
    Finished,
}

/// A request, as the contracts speak of it.
pub enum Ask<L, E> {
    ChainInfo,
    BlockNumber(BlockNumberOrTag),
    Headers { from_block: int, to_block: int },
    Logs(Seq<L>),
    Failed(LogsError<E>),
}

impl<L, E> LogsRequest<L, E> {
    /// This request, as the contracts speak of it.
    pub open spec fn ask(&self) -> Ask<L, E> {
        match self {
            LogsRequest::ChainInfo => Ask::ChainInfo,
            LogsRequest::BlockNumber(tag) => Ask::BlockNumber(*tag),
            LogsRequest::HeadersRange { from_block, to_block } => Ask::Headers {
                from_block: *from_block as int,
                to_block: *to_block as int,
            },
            LogsRequest::Done(Ok(logs)) => Ask::Logs(logs@),
            LogsRequest::Done(Err(e)) => Ask::Failed(*e),
        }
    }
}

/// Where a query stands and what it asks once the range `(from, to)` is
/// known: an error if the range ends before it starts, else the headers of
/// its first chunk.
pub open spec fn start_scan<L, E>(from_block: u64, to_block: u64) -> (QueryStage, Ask<L, E>) {
    if to_block < from_block {
        (
            QueryStage::Finished,
            Ask::Failed(
                LogsError::InvalidBlockRange { from_block: from_block, to_block: to_block },
            ),
        )
    } else {
        let c = block_chunks(from_block as int, to_block as int, HEADERS_CHUNK_STEP as nat);
        (
            QueryStage::Scanning { chunks: c.drop_first() },
            Ask::Headers { from_block: c[0].0, to_block: c[0].1 },
        )
    }
}

/// What follows once the start of the range is known as a number, if it
/// stands for one: the number that the end stands for is asked if the
/// filter gives an end, else the range is complete.
pub open spec fn after_from_block<L, E>(
    info: ChainInfo,
    from_block: Option<u64>,
    to_block: Option<BlockNumberOrTag>,
) -> (QueryStage, Ask<L, E>) {
    match to_block {
        Some(tag) => (
            QueryStage::AwaitToBlock { info: info, from_number: from_block },
            Ask::BlockNumber(tag),
        ),
        None => {
            let r = filter_block_range(from_block, None, info.best_number, info.best_number);
            start_scan(r.0, r.1)
        },
    }
}

/// What follows once the head of the chain is known: the number that the
/// start stands for is asked if the filter gives a start.
pub open spec fn after_chain_info<L, E>(
    info: ChainInfo,
    from_block: Option<BlockNumberOrTag>,
    to_block: Option<BlockNumberOrTag>,
) -> (QueryStage, Ask<L, E>) {
    match from_block {
        Some(tag) => (
            QueryStage::AwaitFromBlock { info: info, to_block: to_block },
            Ask::BlockNumber(tag),
        ),
        None => after_from_block(info, None, to_block),
    }
}

/// Whether a query standing at `stage` takes `reply`: the query is not over
/// and the reply answers what was asked (a failure answers anything).
pub open spec fn takes_reply<E>(stage: QueryStage, reply: LogsReply<E>) -> bool {
    match (stage, reply) {
        (QueryStage::Finished, _) => false,
        (_, LogsReply::Failed(_)) => true,
        (QueryStage::AwaitChainInfo { .. }, LogsReply::ChainInfo(_)) => true,
        (QueryStage::AwaitFromBlock { .. }, LogsReply::BlockNumber(_)) => true,
        (QueryStage::AwaitToBlock { .. }, LogsReply::BlockNumber(_)) => true,
        (QueryStage::Scanning { .. }, LogsReply::Headers) => true,
        _ => false,
    }
}

/// Where a query standing at `stage` goes, and what it asks, when `reply`
/// answers it. A failure ends it with that error; a range that ends before
/// it starts ends it with `InvalidBlockRange`; once every chunk's headers
/// are read it ends with no log.
pub open spec fn transition<L, E>(stage: QueryStage, reply: LogsReply<E>) -> (QueryStage, Ask<L, E>) {
    match (stage, reply) {
        (_, LogsReply::Failed(e)) => (QueryStage::Finished, Ask::Failed(LogsError::Provider(e))),
        (QueryStage::AwaitChainInfo { from_block, to_block }, LogsReply::ChainInfo(info)) => {
            after_chain_info(info, from_block, to_block)
        },
        (QueryStage::AwaitFromBlock { info, to_block }, LogsReply::BlockNumber(n)) => {
            after_from_block(info, n, to_block)
        },
        (QueryStage::AwaitToBlock { info, from_number }, LogsReply::BlockNumber(n)) => {
            let r = filter_block_range(from_number, n, info.best_number, info.best_number);
            start_scan(r.0, r.1)
        },
        (QueryStage::Scanning { chunks }, LogsReply::Headers) => {
            if chunks.len() == 0 {
                (QueryStage::Finished, Ask::Logs(Seq::empty()))
            } else {
                (
                    QueryStage::Scanning { chunks: chunks.drop_first() },
                    Ask::Headers { from_block: chunks[0].0, to_block: chunks[0].1 },
                )
            }
        },
        _ => (QueryStage::Finished, Ask::Logs(Seq::empty())),
    }
}

/// Where a query standing at `stage` goes, and what it asks in turn, when
/// `replies` answer it one after the other.
pub open spec fn replay<L, E>(stage: QueryStage, replies: Seq<LogsReply<E>>) -> (
    QueryStage,
    Seq<Ask<L, E>>,
)
    decreases replies.len(),
{
    if replies.len() == 0 {
        (stage, Seq::empty())
    } else {
        let (next, ask) = transition::<L, E>(stage, replies[0]);
        let (last, asks) = replay::<L, E>(next, replies.drop_first());
        (last, seq![ask] + asks)
    }
}

/// `n` replies that each say the headers asked for were read.
pub open spec fn headers_replies<E>(n: nat) -> Seq<LogsReply<E>> {
    Seq::new(n, |i: int| LogsReply::Headers)
}

/// The requests of a scan over `chunks` that is answered `Headers` each
/// time: the headers of each chunk in turn, then the end with no log.
pub open spec fn scan_asks<L, E>(chunks: Seq<(int, int)>) -> Seq<Ask<L, E>> {
    Seq::new(
        chunks.len() + 1,
        |i: int|
            if i < chunks.len() {
                Ask::Headers { from_block: chunks[i].0, to_block: chunks[i].1 }
            } else {
                Ask::Logs(Seq::empty())
            },
    )
}

/// A scan that still has `chunks` to read, answered `Headers` each time,
/// asks for the headers of each of them in order and then ends with no log.
pub proof fn lemma_scan_replay<L, E>(chunks: Seq<(int, int)>)
    ensures
        replay::<L, E>(QueryStage::Scanning { chunks }, headers_replies(chunks.len() + 1)) == (
            QueryStage::Finished,
            scan_asks::<L, E>(chunks),
        ),
    decreases chunks.len(),
{
    let replies = headers_replies::<E>(chunks.len() + 1);
    assert(replies[0] == LogsReply::<E>::Headers);
    if chunks.len() == 0 {
        assert(replies.drop_first() =~= Seq::<LogsReply<E>>::empty());
        assert(replay::<L, E>(QueryStage::Finished, replies.drop_first()) == (
            QueryStage::Finished,
            Seq::<Ask<L, E>>::empty(),
        ));
        assert(seq![Ask::<L, E>::Logs(Seq::empty())] =~= scan_asks::<L, E>(chunks));
    } else {
        let rest = chunks.drop_first();
        lemma_scan_replay::<L, E>(rest);
        assert(replies.drop_first() =~= headers_replies::<E>(rest.len() + 1));
        assert(seq![Ask::<L, E>::Headers { from_block: chunks[0].0, to_block: chunks[0].1 }]
            + scan_asks::<L, E>(rest) =~= scan_asks::<L, E>(chunks));
    }
}

/// A query whose range `from_block..=to_block` is known and not empty asks
/// for the headers of every chunk of that range, in order and once each,
/// when each request is answered `Headers`, and then ends with no log; the
/// chunks cover the range exactly (see `lemma_chunks_cover`).
pub proof fn lemma_scan_reads_every_chunk<L, E>(from_block: u64, to_block: u64)
    requires
        from_block <= to_block,
    ensures
        ({
            let c = block_chunks(from_block as int, to_block as int, HEADERS_CHUNK_STEP as nat);
            let (stage, first) = start_scan::<L, E>(from_block, to_block);
            let (last, asks) = replay::<L, E>(stage, headers_replies(c.len()));
            &&& last == QueryStage::Finished
            &&& seq![first] + asks == scan_asks::<L, E>(c)
        }),
{
    let c = block_chunks(from_block as int, to_block as int, HEADERS_CHUNK_STEP as nat);
    lemma_chunks_cover(from_block as int, to_block as int, HEADERS_CHUNK_STEP as nat);
    let rest = c.drop_first();
    lemma_scan_replay::<L, E>(rest);
    assert(rest.len() + 1 == c.len());
    let (stage, first) = start_scan::<L, E>(from_block, to_block);
    assert(seq![first] + scan_asks::<L, E>(rest) =~= scan_asks::<L, E>(c));
}

/// The replies that resolve the two ends of a filter: the head of the
/// chain, then the number of the start if the filter gives a start, then the
/// number of the end if it gives an end.
pub open spec fn resolving_replies<E>(
    from_block: Option<BlockNumberOrTag>,
    to_block: Option<BlockNumberOrTag>,
    info: ChainInfo,
    from_number: Option<u64>,
    to_number: Option<u64>,
) -> Seq<LogsReply<E>> {
    seq![LogsReply::ChainInfo(info)] + (if from_block is Some {
        seq![LogsReply::BlockNumber(from_number)]
    } else {
        Seq::empty()
    }) + (if to_block is Some {
        seq![LogsReply::BlockNumber(to_number)]
    } else {
        Seq::empty()
    })
}

/// A query for the logs of a filter asks for the number of each end that
/// the filter gives, start first, and then reads the range that
/// `get_filter_block_range` computes from those numbers, opening at the head
/// of the chain: the first chunk's headers are asked for (see
/// `lemma_scan_reads_every_chunk` for the rest), or the query fails with
/// `InvalidBlockRange` if that range ends before it starts.
pub proof fn lemma_filter_query_reads_selected_range<L, E>(
    from_block: Option<BlockNumberOrTag>,
    to_block: Option<BlockNumberOrTag>,
    info: ChainInfo,
    from_number: Option<u64>,
    to_number: Option<u64>,
)
    ensures
        ({
            let from = if from_block is Some {
                from_number
            } else {
                None
            };
            let to = if to_block is Some {
                to_number
            } else {
                None
            };
            let r = filter_block_range(from, to, info.best_number, info.best_number);
            let (scan_stage, scan_ask) = start_scan::<L, E>(r.0, r.1);
            let asks = (if from_block is Some {
                seq![Ask::<L, E>::BlockNumber(from_block->0)]
            } else {
                Seq::empty()
            }) + (if to_block is Some {
                seq![Ask::<L, E>::BlockNumber(to_block->0)]
            } else {
                Seq::empty()
            }) + seq![scan_ask];
            replay::<L, E>(
                QueryStage::AwaitChainInfo { from_block, to_block },
                resolving_replies(from_block, to_block, info, from_number, to_number),
            ) == (scan_stage, asks)
        }),
{
    reveal_with_fuel(replay, 4);
    let replies = resolving_replies::<E>(from_block, to_block, info, from_number, to_number);
    let stage = QueryStage::AwaitChainInfo { from_block, to_block };
    match (from_block, to_block) {
        (Some(f), Some(t)) => {
            assert(replies =~= seq![
                LogsReply::ChainInfo(info),
                LogsReply::BlockNumber(from_number),
                LogsReply::BlockNumber(to_number),
            ]);
            assert(replies.drop_first() =~= seq![
                LogsReply::BlockNumber(from_number),
                LogsReply::<E>::BlockNumber(to_number),
            ]);
            assert(replies.drop_first().drop_first() =~= seq![
                LogsReply::<E>::BlockNumber(to_number),
            ]);
            assert(replies.drop_first().drop_first().drop_first() =~= Seq::<LogsReply<E>>::empty());
        },
        (Some(f), None) => {
            assert(replies =~= seq![
                LogsReply::ChainInfo(info),
                LogsReply::BlockNumber(from_number),
            ]);
            assert(replies.drop_first() =~= seq![LogsReply::<E>::BlockNumber(from_number)]);
            assert(replies.drop_first().drop_first() =~= Seq::<LogsReply<E>>::empty());
        },
        (None, Some(t)) => {
            assert(replies =~= seq![
                LogsReply::ChainInfo(info),
                LogsReply::BlockNumber(to_number),
            ]);
            assert(replies.drop_first() =~= seq![LogsReply::<E>::BlockNumber(to_number)]);
            assert(replies.drop_first().drop_first() =~= Seq::<LogsReply<E>>::empty());
        },
        (None, None) => {
            assert(replies =~= seq![LogsReply::<E>::ChainInfo(info)]);
            assert(replies.drop_first() =~= Seq::<LogsReply<E>>::empty());
        },
    }
}

/// A failure answers any request of a query that is not over, and ends it
/// with that error.
pub proof fn lemma_failure_ends_query<L, E>(stage: QueryStage, e: E)
    requires
        !(stage is Finished),
    ensures
        takes_reply(stage, LogsReply::Failed(e)),
        transition::<L, E>(stage, LogsReply::Failed(e)) == (
            QueryStage::Finished,
            Ask::<L, E>::Failed(LogsError::Provider(e)),
        ),
{
}

/// A range that ends before it starts ends the query with
/// `InvalidBlockRange` and asks for no header.
pub proof fn lemma_reversed_range_fails<L, E>(from_block: u64, to_block: u64)
    requires
        to_block < from_block,
    ensures
        start_scan::<L, E>(from_block, to_block) == (
            QueryStage::Finished,
            Ask::<L, E>::Failed(LogsError::InvalidBlockRange { from_block, to_block }),
        ),
{
}

enum Stage {
    AwaitChainInfo { from_block: Option<BlockNumberOrTag>, to_block: Option<BlockNumberOrTag> },
    AwaitFromBlock { info: ChainInfo, to_block: Option<BlockNumberOrTag> },
    AwaitToBlock { info: ChainInfo, from_number: Option<u64> },
    Scanning(BlockRangeInclusiveIter),
    Finished,
}

/// A query for the logs of the blocks that a filter selects.
pub struct LogQuery {
    stage: Stage,
}

impl LogQuery {
    /// Where this query stands.
    pub closed spec fn stage(&self) -> QueryStage {
        match self.stage {
            Stage::AwaitChainInfo { from_block, to_block } => QueryStage::AwaitChainInfo {
                from_block,
                to_block,
            },
            Stage::AwaitFromBlock { info, to_block } => QueryStage::AwaitFromBlock {
                info,
                to_block,
            },
            Stage::AwaitToBlock { info, from_number } => QueryStage::AwaitToBlock {
                info,
                from_number,
            },
            Stage::Scanning(it) => QueryStage::Scanning { chunks: it@ },
            Stage::Finished => QueryStage::Finished,
        }
    }

    /// Starts a query for the logs of the range that `block_option` selects;
    /// it first asks for the head of the chain. A filter that names one block
    /// by its hash is not supported.
    pub fn logs_for_filter<L, E>(block_option: FilterBlockOption) -> (r: (LogQuery, LogsRequest<L, E>))
        requires
            block_option is Range,
        ensures
            r.0.stage() == (QueryStage::AwaitChainInfo {
                from_block: block_option->from_block,
                to_block: block_option->to_block,
            }),
            r.1.ask() == Ask::<L, E>::ChainInfo,
    {
        match block_option {
            FilterBlockOption::Range { from_block, to_block } => (
                LogQuery { stage: Stage::AwaitChainInfo { from_block, to_block } },
                LogsRequest::ChainInfo,
            ),
            // ruled out by `requires`
            FilterBlockOption::AtBlockHash(_) => (
                LogQuery { stage: Stage::Finished },
                LogsRequest::ChainInfo,
            ),
        }
    }

    /// Starts a query for the logs of the blocks `from_block..=to_block`:
    /// it fails at once if the range ends before it starts, and otherwise
    /// asks for the headers of its first chunk.
    pub fn get_logs_in_block_range<L, E>(from_block: u64, to_block: u64) -> (r: (
        LogQuery,
        LogsRequest<L, E>,
    ))
        ensures
            (r.0.stage(), r.1.ask()) == start_scan::<L, E>(from_block, to_block),
    {
        Self::scan(from_block, to_block)
    }

    fn scan<L, E>(from_block: u64, to_block: u64) -> (r: (LogQuery, LogsRequest<L, E>))
        ensures
            (r.0.stage(), r.1.ask()) == start_scan::<L, E>(from_block, to_block),
    {
        if to_block < from_block {
            return (
                LogQuery { stage: Stage::Finished },
                LogsRequest::Done(Err(LogsError::InvalidBlockRange { from_block, to_block })),
            );
        }
        proof {
            lemma_chunks_cover(from_block as int, to_block as int, HEADERS_CHUNK_STEP as nat);
        }
        let mut chunks = BlockRangeInclusiveIter::new(from_block..=to_block, HEADERS_CHUNK_STEP);
        match chunks.next() {
            Some((from, to)) => (
                LogQuery { stage: Stage::Scanning(chunks) },
                LogsRequest::HeadersRange { from_block: from, to_block: to },
            ),
            // a range that does not end before it starts has a first chunk
            None => (LogQuery { stage: Stage::Finished }, LogsRequest::Done(Ok(Vec::new()))),
        }
    }

    /// Whether this query takes `reply` (see `takes_reply`).
    pub fn takes<E>(&self, reply: &LogsReply<E>) -> (b: bool)
        ensures
            b == takes_reply(self.stage(), *reply),
    {
        match (&self.stage, reply) {
            (Stage::Finished, _) => false,
            (_, LogsReply::Failed(_)) => true,
            (Stage::AwaitChainInfo { .. }, LogsReply::ChainInfo(_)) => true,
            (Stage::AwaitFromBlock { .. }, LogsReply::BlockNumber(_)) => true,
            (Stage::AwaitToBlock { .. }, LogsReply::BlockNumber(_)) => true,
            (Stage::Scanning(_), LogsReply::Headers) => true,
            _ => false,
        }
    }

    /// Hands this query the answer to its last request, and returns where it
    /// goes and what it asks next (see `transition`).
    pub fn step<L, E>(self, reply: LogsReply<E>) -> (r: (LogQuery, LogsRequest<L, E>))
        requires
            takes_reply(self.stage(), reply),
        ensures
            (r.0.stage(), r.1.ask()) == transition::<L, E>(self.stage(), reply),
    {
        match (self.stage, reply) {
            (_, LogsReply::Failed(e)) => (
                LogQuery { stage: Stage::Finished },
                LogsRequest::Done(Err(LogsError::Provider(e))),
            ),
            (Stage::AwaitChainInfo { from_block, to_block }, LogsReply::ChainInfo(info)) => {
                match from_block {
                    Some(tag) => (
                        LogQuery { stage: Stage::AwaitFromBlock { info, to_block } },
                        LogsRequest::BlockNumber(tag),
                    ),
                    None => Self::after_from_block(info, None, to_block),
                }
            },
            (Stage::AwaitFromBlock { info, to_block }, LogsReply::BlockNumber(n)) => {
                Self::after_from_block(info, n, to_block)
            },
            (Stage::AwaitToBlock { info, from_number }, LogsReply::BlockNumber(n)) => {
                let (from, to) = get_filter_block_range(from_number, n, info.best_number, info);
                Self::scan(from, to)
            },
            (Stage::Scanning(mut chunks), LogsReply::Headers) => {
                match chunks.next() {
                    Some((from, to)) => (
                        LogQuery { stage: Stage::Scanning(chunks) },
                        LogsRequest::HeadersRange { from_block: from, to_block: to },
                    ),
                    None => (LogQuery { stage: Stage::Finished }, LogsRequest::Done(Ok(Vec::new()))),
                }
            },
            // a reply the query does not take is ruled out by `requires`
            (stage, _) => (LogQuery { stage }, LogsRequest::ChainInfo),
        }
    }

    fn after_from_block<L, E>(
        info: ChainInfo,
        from_block: Option<u64>,
        to_block: Option<BlockNumberOrTag>,
    ) -> (r: (LogQuery, LogsRequest<L, E>))
        ensures
            (r.0.stage(), r.1.ask()) == after_from_block::<L, E>(info, from_block, to_block),
    {
        match to_block {
            Some(tag) => (
                LogQuery { stage: Stage::AwaitToBlock { info, from_number: from_block } },
                LogsRequest::BlockNumber(tag),
            ),
            None => {
                let (from, to) = get_filter_block_range(from_block, None, info.best_number, info);
                Self::scan(from, to)
            },
        }
    }
}

} // verus!
