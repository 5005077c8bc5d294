//! Blocks of payload, built ahead of the senders that emit them.
//!
//! A cache is either fixed, a pool of blocks built once and cycled through
//! for ever, or streaming, a producer that builds each block when it is
//! asked for. In both, no block is larger than one of the configured sizes.

use crate::payload::serialized;
use crate::payload::Payload;
use crate::rng::choose_from;
use crate::rng::rng_from_seed;
use crate::text::copy_of;
use rand::rngs::StdRng;
use vstd::prelude::*;

verus! {

/// How many blocks the hand-off between a cache and its consumer holds at
/// most.
pub const CHANNEL_CAPACITY: usize = 1024;

/// Why no cache could be built.
#[derive(Debug, Clone, Copy, PartialEq, Eq, Structural)]
pub enum Error {
    /// No block size was given.
    NoBlockSizes,
    /// The byte budget is below the smallest block size.
    InsufficientBudget,
    /// The payload produced no block: no record fitted any size drawn.
    NoBlocks,
}

/// How a cache supplies its blocks.
#[derive(Debug, Clone, Copy, PartialEq, Eq, Structural)]
pub enum CacheMethod {
    /// Build each block when it is asked for.
    Streaming,
    /// Build a pool once and cycle through it.
    Fixed,
}

/// The method of a cache unless configured: fixed.
pub fn default_cache_method() -> (m: CacheMethod)
    ensures
        m == CacheMethod::Fixed,
{
    CacheMethod::Fixed
}

/// A run of whole records, ready to be sent.
#[derive(Debug)]
pub struct Block {
    /// The number of bytes. Never zero.
    pub total_bytes: u32,
    /// The bytes.
    pub bytes: Vec<u8>,
}

impl Block {
    /// The block is not empty, and `total_bytes` is its length.
    pub open spec fn wf(self) -> bool {
        self.total_bytes > 0 && self.total_bytes == self.bytes@.len()
    }

    /// A block with the same bytes.
    pub fn duplicate(&self) -> (r: Block)
        ensures
            r.total_bytes == self.total_bytes,
            r.bytes@ == self.bytes@,
    {
        Block { total_bytes: self.total_bytes, bytes: copy_of(&self.bytes) }
    }
}

/// The sizes are usable: each is positive and fits the length field of a
/// block.
pub open spec fn sizes_wf(sizes: Seq<usize>) -> bool {
    forall|i: int| 0 <= i < sizes.len() ==> 0 < #[trigger] sizes[i] <= u32::MAX
}

/// `size` is one of `sizes`.
pub open spec fn is_size(sizes: Seq<usize>, size: usize) -> bool {
    exists|i: int| 0 <= i < sizes.len() && sizes[i] == size
}

/// The block is well formed and fits one of the `sizes`.
pub open spec fn fits(sizes: Seq<usize>, block: Block) -> bool {
    block.wf() && exists|i: int| 0 <= i < sizes.len() && block.total_bytes <= #[trigger] sizes[i]
}

/// Every one of the blocks is well formed and fits one of the `sizes`.
pub open spec fn all_fit(sizes: Seq<usize>, blocks: Seq<Block>) -> bool {
    forall|i: int| 0 <= i < blocks.len() ==> fits(sizes, #[trigger] blocks[i])
}

/// The block is one that `payload` serialised for one of the `sizes`: it is
/// well formed, and its bytes are what that size, as a budget, let through
/// of a run of the payload's records.
pub open spec fn drawn(payload: Payload, sizes: Seq<usize>, block: Block) -> bool {
    block.wf() && exists|i: int|
        0 <= i < sizes.len() && serialized(
            payload.source(),
            #[trigger] sizes[i],
            Seq::empty(),
            block.bytes@,
        )
}

/// Every one of the blocks is one that `payload` serialised for one of the
/// `sizes`.
pub open spec fn all_drawn(payload: Payload, sizes: Seq<usize>, blocks: Seq<Block>) -> bool {
    forall|i: int| 0 <= i < blocks.len() ==> drawn(payload, sizes, #[trigger] blocks[i])
}

/// A block that was serialised for one of the sizes fits that size.
pub proof fn lemma_drawn_fits(payload: Payload, sizes: Seq<usize>, block: Block)
    requires
        drawn(payload, sizes, block),
    ensures
        fits(sizes, block),
{
    let i = choose|i: int|
        0 <= i < sizes.len() && serialized(
            payload.source(),
            #[trigger] sizes[i],
            Seq::empty(),
            block.bytes@,
        );
    assert(block.total_bytes <= sizes[i]);
}

/// Block sizing, up to a record. A block that was serialised for one of
/// the sizes is no longer than that size, and falls short of it by less
/// than some record of the payload needs with its newline: the record that
/// was drawn last and did not fit.
pub proof fn lemma_drawn_up_to_a_record(payload: Payload, sizes: Seq<usize>, block: Block)
    requires
        drawn(payload, sizes, block),
    ensures
        exists|i: int, record: Seq<u8>|
            #![trigger sizes[i], payload.source().is_record(record)]
            {
                &&& 0 <= i < sizes.len()
                &&& payload.source().is_record(record)
                &&& block.total_bytes <= sizes[i]
                &&& sizes[i] - block.total_bytes < record.len() + 1
            },
{
    let i = choose|i: int|
        0 <= i < sizes.len() && serialized(
            payload.source(),
            #[trigger] sizes[i],
            Seq::empty(),
            block.bytes@,
        );
    let size = sizes[i];
    let written = block.bytes@.subrange(0, block.bytes@.len() as int);
    let records = choose|records: Seq<Seq<u8>>|
        {
            &&& payload.source().all_records(records)
            &&& crate::payload::admitted(records, size as int) + 1 == records.len()
            &&& #[trigger] crate::payload::fill(records, size as int) == written
        };
    crate::payload::lemma_fill_stops_at_misfit(records, size as int);
    let record = records[records.len() - 1];
    assert(payload.source().is_record(record));
    assert(written.len() == block.total_bytes);
    assert(0 <= i < sizes.len() && payload.source().is_record(record) && block.total_bytes
        <= sizes[i] && sizes[i] - block.total_bytes < record.len() + 1);
}

/// Those of the sizes that a budget admits: the ones that are not above it,
/// in their order.
pub open spec fn admitted_sizes(sizes: Seq<usize>, budget: usize) -> Seq<usize> {
    sizes.filter(|s: usize| s <= budget)
}

/// What a budget admits of the sizes is a choice among them: every admitted
/// size is one of the sizes and is not above the budget, and every size that
/// is not above the budget is admitted.
pub proof fn lemma_admitted_sizes(sizes: Seq<usize>, budget: usize)
    ensures
        forall|i: int|
            0 <= i < admitted_sizes(sizes, budget).len() ==> is_size(
                sizes,
                #[trigger] admitted_sizes(sizes, budget)[i],
            ) && admitted_sizes(sizes, budget)[i] <= budget,
        forall|i: int|
            0 <= i < sizes.len() && #[trigger] sizes[i] <= budget ==> is_size(
                admitted_sizes(sizes, budget),
                sizes[i],
            ),
{
    let admits = |s: usize| s <= budget;
    let kept = sizes.filter(admits);
    assert forall|i: int| 0 <= i < kept.len() implies is_size(sizes, #[trigger] kept[i]) && kept[i]
        <= budget by {
        assert(kept.contains(kept[i]));
        sizes.lemma_filter_pred(admits, i);
        sizes.lemma_filter_contains_rev(admits, kept[i]);
        let from = choose|j: int| 0 <= j < sizes.len() && sizes[j] == kept[i];
        assert(sizes[from] == kept[i]);
    }
    assert forall|i: int| 0 <= i < sizes.len() && #[trigger] sizes[i] <= budget implies is_size(
        kept,
        sizes[i],
    ) by {
        assert(admits(sizes[i]));
        sizes.lemma_filter_contains(admits, i);
        let at = choose|j: int| 0 <= j < kept.len() && kept[j] == sizes[i];
        assert(kept[at] == sizes[i]);
    }
}

/// The bytes of all the blocks together.
pub open spec fn total_size(blocks: Seq<Block>) -> int
    decreases blocks.len(),
{
    if blocks.len() == 0 {
        0
    } else {
        total_size(blocks.drop_last()) + blocks.last().total_bytes
    }
}

/// The smallest of the sizes. An empty list has none; zero stands for that.
pub open spec fn smallest(sizes: Seq<usize>) -> usize
    decreases sizes.len(),
{
    if sizes.len() == 0 {
        0
    } else if sizes.len() == 1 {
        sizes[0]
    } else if sizes.last() < smallest(sizes.drop_last()) {
        sizes.last()
    } else {
        smallest(sizes.drop_last())
    }
}

/// If every one of the sizes is above a bound, so is the smallest.
pub proof fn lemma_smallest_is_above(sizes: Seq<usize>, bound: int)
    requires
        sizes.len() > 0,
        forall|i: int| 0 <= i < sizes.len() ==> #[trigger] sizes[i] > bound,
    ensures
        smallest(sizes) > bound,
{
    lemma_smallest(sizes);
    let at = choose|i: int| 0 <= i < sizes.len() && sizes[i] == smallest(sizes);
    assert(sizes[at] > bound);
}

/// The largest of the sizes, zero for an empty list.
pub open spec fn largest(sizes: Seq<usize>) -> usize
    decreases sizes.len(),
{
    if sizes.len() == 0 {
        0
    } else if sizes.last() > largest(sizes.drop_last()) {
        sizes.last()
    } else {
        largest(sizes.drop_last())
    }
}

/// The smallest size is one of the sizes and not above any of them.
pub proof fn lemma_smallest(sizes: Seq<usize>)
    requires
        sizes.len() > 0,
    ensures
        is_size(sizes, smallest(sizes)),
        forall|i: int| 0 <= i < sizes.len() ==> smallest(sizes) <= #[trigger] sizes[i],
    decreases sizes.len(),
{
    if sizes.len() == 1 {
        assert(sizes[0] == smallest(sizes));
    } else {
        let front = sizes.drop_last();
        lemma_smallest(front);
        let at = choose|i: int| 0 <= i < front.len() && front[i] == smallest(front);
        assert(sizes[at] == front[at]);
        assert(sizes[sizes.len() - 1] == sizes.last());
        assert forall|i: int| 0 <= i < sizes.len() implies smallest(sizes) <= #[trigger] sizes[i] by {
            if i < front.len() {
                assert(front[i] == sizes[i]);
            }
        }
    }
}

/// The largest size is one of the sizes and not below any of them.
pub proof fn lemma_largest(sizes: Seq<usize>)
    requires
        sizes.len() > 0,
    ensures
        is_size(sizes, largest(sizes)),
        forall|i: int| 0 <= i < sizes.len() ==> #[trigger] sizes[i] <= largest(sizes),
    decreases sizes.len(),
{
    if sizes.len() == 1 {
        assert(sizes.drop_last().len() == 0);
        assert(largest(sizes.drop_last()) == 0);
        assert(sizes.last() == sizes[0]);
        assert(sizes[0] == largest(sizes));
    } else {
        let front = sizes.drop_last();
        lemma_largest(front);
        let at = choose|i: int| 0 <= i < front.len() && front[i] == largest(front);
        assert(sizes[at] == front[at]);
        assert(sizes[sizes.len() - 1] == sizes.last());
        assert forall|i: int| 0 <= i < sizes.len() implies #[trigger] sizes[i] <= largest(sizes) by {
            if i < front.len() {
                assert(front[i] == sizes[i]);
            }
        }
    }
}

/// The smallest of the sizes.
pub fn smallest_of(sizes: &Vec<usize>) -> (r: usize)
    requires
        sizes@.len() > 0,
    ensures
        r == smallest(sizes@),
{
    let mut r: usize = sizes[0];
    let mut i: usize = 1;
    assert(sizes@.take(1) =~= seq![sizes@[0]]);
    while i < sizes.len()
        invariant
            1 <= i <= sizes.len(),
            r == smallest(sizes@.take(i as int)),
        decreases sizes.len() - i,
    {
        proof {
            let next = sizes@.take(i + 1);
            assert(next.drop_last() =~= sizes@.take(i as int));
            assert(next.last() == sizes@[i as int]);
        }
        if sizes[i] < r {
            r = sizes[i];
        }
        i += 1;
    }
    assert(sizes@.take(sizes@.len() as int) =~= sizes@);
    r
}

/// The largest of the sizes.
pub fn largest_of(sizes: &Vec<usize>) -> (r: usize)
    ensures
        r == largest(sizes@),
{
    let mut r: usize = 0;
    let mut i: usize = 0;
    while i < sizes.len()
        invariant
            i <= sizes.len(),
            r == largest(sizes@.take(i as int)),
        decreases sizes.len() - i,
    {
        proof {
            let next = sizes@.take(i + 1);
            assert(next.drop_last() =~= sizes@.take(i as int));
            assert(next.last() == sizes@[i as int]);
        }
        if sizes[i] > r {
            r = sizes[i];
        }
        i += 1;
    }
    assert(sizes@.take(sizes@.len() as int) =~= sizes@);
    r
}

/// Serialises one block of at most `chunk_size` bytes. `None` stands for a
/// block without a single record: the first record drawn did not fit. Where
/// every record of the payload fits the size, there is a block.
pub fn construct_block(rng: &mut StdRng, payload: &Payload, chunk_size: usize) -> (r: Option<Block>)
    requires
        payload.wf(),
        chunk_size <= u32::MAX,
    ensures
        r matches Some(block) ==> {
            &&& block.wf()
            &&& block.total_bytes <= chunk_size
            &&& serialized(payload.source(), chunk_size, Seq::empty(), block.bytes@)
        },
        r is None ==> serialized(payload.source(), chunk_size, Seq::empty(), Seq::empty()),
        payload.source().records_fit(chunk_size) ==> r is Some,
{
    let mut bytes: Vec<u8> = Vec::new();
    let _ = payload.to_bytes(rng, chunk_size, &mut bytes);
    proof {
        if payload.source().records_fit(chunk_size) {
            crate::payload::lemma_serialized_is_not_empty(
                payload.source(),
                chunk_size,
                Seq::empty(),
                bytes@,
            );
        }
    }
    if bytes.len() == 0 {
        assert(bytes@ =~= Seq::<u8>::empty());
        None
    } else {
        Some(Block { total_bytes: bytes.len() as u32, bytes })
    }
}

/// Checks what every cache asks of its budget and sizes.
///
/// Fails with `NoBlockSizes` exactly when there is no size, and with
/// `InsufficientBudget` exactly when there are sizes and the budget is below
/// the smallest. Else answers with the smallest size.
pub fn check_budget(total_bytes: usize, block_byte_sizes: &Vec<usize>) -> (r: Result<usize, Error>)
    ensures
        block_byte_sizes@.len() == 0 <==> r == Err::<usize, Error>(Error::NoBlockSizes),
        block_byte_sizes@.len() > 0 && total_bytes < smallest(block_byte_sizes@) <==> r == Err::<
            usize,
            Error,
        >(Error::InsufficientBudget),
        block_byte_sizes@.len() > 0 && total_bytes >= smallest(block_byte_sizes@) <==> r == Ok::<
            usize,
            Error,
        >(smallest(block_byte_sizes@)),
{
    if block_byte_sizes.len() == 0 {
        return Err(Error::NoBlockSizes);
    }
    let minimum = smallest_of(block_byte_sizes);
    if total_bytes < minimum {
        return Err(Error::InsufficientBudget);
    }
    Ok(minimum)
}

/// A source of blocks.
pub enum Cache {
    /// A pool of blocks, handed out in order, again and again.
    Fixed {
        /// The block that is handed out next.
        idx: usize,
        /// The pool.
        blocks: Vec<Block>,
        /// The sizes the blocks were built for.
        block_chunks: Vec<usize>,
        /// The byte budget of the pool.
        total_bytes: usize,
    },
    /// A producer that builds each block when it is asked for.
    Stream {
        /// The seed of the producer's draws.
        seed: [u8; 32],
        /// The byte budget of the hand-off.
        total_bytes: usize,
        /// The sizes that blocks are built for: the configured ones that
        /// the budget admits.
        block_chunks: Vec<usize>,
        /// The payload to build.
        payload: crate::payload::Config,
    },
}

impl Cache {
    /// The state invariant.
    ///
    /// A fixed cache holds at least one block; each block is well formed
    /// and fits one of the sizes; all of them together fit the budget; the
    /// cursor points at one of them. A streaming cache has at least one
    /// size, none above the budget, and a payload that can be built.
    pub open spec fn wf(self) -> bool {
        match self {
            Cache::Fixed { idx, blocks, block_chunks, total_bytes } => {
                &&& blocks@.len() > 0
                &&& idx < blocks@.len()
                &&& all_fit(block_chunks@, blocks@)
                &&& total_size(blocks@) <= total_bytes
            },
            Cache::Stream { seed, total_bytes, block_chunks, payload } => {
                &&& block_chunks@.len() > 0
                &&& sizes_wf(block_chunks@)
                &&& forall|i: int|
                    0 <= i < block_chunks@.len() ==> #[trigger] block_chunks@[i] <= total_bytes
                &&& payload.valid()
            },
        }
    }

    /// The cache is a fixed one as [`Cache::fixed`] builds it for these
    /// sizes, this budget and this payload: its cursor is at the start, it
    /// keeps the sizes and the budget, and every block of its pool was
    /// serialised for one of the sizes by one and the same payload, built
    /// from the configuration.
    pub open spec fn fixed_for(
        self,
        budget: usize,
        sizes: Seq<usize>,
        payload: crate::payload::Config,
    ) -> bool {
        &&& self matches Cache::Fixed { idx, blocks, block_chunks, total_bytes }
        &&& idx == 0
        &&& block_chunks@ == sizes
        &&& total_bytes == budget
        &&& exists|source: Payload|
            source.wf() && source.made_of(payload) && #[trigger] all_drawn(source, sizes, blocks@)
    }

    /// The cache is a streaming one as [`Cache::stream`] sets it up for this
    /// seed, these sizes, this budget and this payload: it keeps seed,
    /// budget and payload, and of the sizes those that the budget admits.
    pub open spec fn stream_for(
        self,
        seed: [u8; 32],
        budget: usize,
        sizes: Seq<usize>,
        payload: crate::payload::Config,
    ) -> bool {
        &&& self matches Cache::Stream { seed: s, total_bytes, block_chunks, payload: p }
        &&& s == seed
        &&& total_bytes == budget
        &&& p == payload
        &&& block_chunks@ == admitted_sizes(sizes, budget)
    }

    /// The cache is one of the given method, built for what is given: see
    /// [`Cache::fixed_for`] and [`Cache::stream_for`].
    pub open spec fn built_for(
        self,
        method: CacheMethod,
        seed: [u8; 32],
        budget: usize,
        sizes: Seq<usize>,
        payload: crate::payload::Config,
    ) -> bool {
        match method {
            CacheMethod::Fixed => self.fixed_for(budget, sizes, payload),
            CacheMethod::Streaming => self.stream_for(seed, budget, sizes, payload),
        }
    }

    /// A fixed cache over blocks that were built for `block_chunks` under a
    /// budget of `total_bytes`. Fails, with `NoBlocks`, exactly when there
    /// is no block.
    pub fn from_blocks(blocks: Vec<Block>, block_chunks: Vec<usize>, total_bytes: usize) -> (r:
        Result<Cache, Error>)
        requires
            all_fit(block_chunks@, blocks@),
            total_size(blocks@) <= total_bytes,
        ensures
            blocks@.len() == 0 <==> r == Err::<Cache, Error>(Error::NoBlocks),
            blocks@.len() > 0 ==> r == Ok::<Cache, Error>(
                Cache::Fixed { idx: 0, blocks, block_chunks, total_bytes },
            ) && r->Ok_0.wf(),
    {
        if blocks.len() == 0 {
            Err(Error::NoBlocks)
        } else {
            Ok(Cache::Fixed { idx: 0, blocks, block_chunks, total_bytes })
        }
    }

    /// Builds a fixed cache: a pool of blocks of `payload`, each built for
    /// a size drawn from `block_byte_sizes`, all of them together within
    /// `total_bytes`.
    ///
    /// Sizes are drawn until less than the smallest size is left of the
    /// budget. A size drawn that exceeds what is left is replaced by the
    /// smallest.
    ///
    /// Fails with `NoBlockSizes` exactly when there is no size, with
    /// `InsufficientBudget` exactly when the budget is below the smallest
    /// size, and otherwise with `NoBlocks` if not one record fitted. Where
    /// every record of the payload fits the smallest size, some record
    /// always does, and the cache is built. A cache that is built holds
    /// serialisations of the payload and nothing else: see
    /// [`Cache::fixed_for`].
    pub fn fixed(
        rng: &mut StdRng,
        total_bytes: usize,
        block_byte_sizes: &Vec<usize>,
        payload: &crate::payload::Config,
    ) -> (r: Result<Cache, Error>)
        requires
            sizes_wf(block_byte_sizes@),
            payload.valid(),
        ensures
            block_byte_sizes@.len() == 0 <==> r == Err::<Cache, Error>(Error::NoBlockSizes),
            block_byte_sizes@.len() > 0 && total_bytes < smallest(block_byte_sizes@) <==> r
                == Err::<Cache, Error>(Error::InsufficientBudget),
            r matches Ok(cache) ==> {
                &&& cache.wf()
                &&& cache.fixed_for(total_bytes, block_byte_sizes@, *payload)
            },
            r is Err ==> r == Err::<Cache, Error>(Error::NoBlockSizes) || r == Err::<Cache, Error>(
                Error::InsufficientBudget,
            ) || r == Err::<Cache, Error>(Error::NoBlocks),
            block_byte_sizes@.len() > 0 && total_bytes >= smallest(block_byte_sizes@)
                && payload.every_record_fits(smallest(block_byte_sizes@)) ==> r is Ok,
    {
        let minimum = match check_budget(total_bytes, block_byte_sizes) {
            Ok(m) => m,
            Err(e) => {
                return Err(e);
            },
        };
        proof {
            lemma_smallest(block_byte_sizes@);
        }
        let built = Payload::new(payload, rng);
        proof {
            if payload.every_record_fits(minimum) {
                crate::payload::lemma_built_records_fit(*payload, built, minimum);
            }
        }
        let mut blocks: Vec<Block> = Vec::new();
        let mut bytes_remaining: usize = total_bytes;
        while bytes_remaining >= minimum
            invariant
                built.wf(),
                block_byte_sizes@.len() > 0,
                sizes_wf(block_byte_sizes@),
                minimum == smallest(block_byte_sizes@),
                is_size(block_byte_sizes@, minimum),
                bytes_remaining <= total_bytes,
                all_fit(block_byte_sizes@, blocks@),
                all_drawn(built, block_byte_sizes@, blocks@),
                total_size(blocks@) <= total_bytes - bytes_remaining,
                built.source().records_fit(minimum) ==> blocks@.len() > 0 || bytes_remaining
                    == total_bytes,
                forall|i: int|
                    0 <= i < block_byte_sizes@.len() ==> minimum <= #[trigger] block_byte_sizes@[i],
            decreases bytes_remaining,
        {
            let picked: usize = match choose_from(rng, block_byte_sizes) {
                Some(size) => *size,
                None => minimum,
            };
            let chunk_size: usize = if picked <= bytes_remaining {
                picked
            } else {
                minimum
            };
            assert(is_size(block_byte_sizes@, chunk_size));
            let ghost at = choose|i: int|
                0 <= i < block_byte_sizes@.len() && block_byte_sizes@[i] == chunk_size;
            assert(minimum <= block_byte_sizes@[at]);
            match construct_block(rng, &built, chunk_size) {
                Some(block) => {
                    proof {
                        assert(block.total_bytes <= block_byte_sizes@[at]);
                        assert(fits(block_byte_sizes@, block));
                        assert(drawn(built, block_byte_sizes@, block));
                        let after = blocks@.push(block);
                        assert(after.drop_last() =~= blocks@);
                    }
                    blocks.push(block);
                },
                None => {},
            }
            bytes_remaining = bytes_remaining - chunk_size;
        }
        let mut block_chunks: Vec<usize> = Vec::new();
        let mut i: usize = 0;
        while i < block_byte_sizes.len()
            invariant
                i <= block_byte_sizes.len(),
                block_chunks@ == block_byte_sizes@.take(i as int),
            decreases block_byte_sizes.len() - i,
        {
            block_chunks.push(block_byte_sizes[i]);
            i += 1;
            assert(block_byte_sizes@.take(i as int) =~= block_byte_sizes@.take(i - 1).push(
                block_byte_sizes@[i - 1],
            ));
        }
        assert(block_byte_sizes@.take(block_byte_sizes@.len() as int) =~= block_byte_sizes@);
        Self::from_blocks(blocks, block_chunks, total_bytes)
    }

    /// Sets up a streaming cache. Nothing is built yet: the configuration
    /// is kept, with those of the sizes that the budget admits.
    ///
    /// Fails with `NoBlockSizes` exactly when there is no size and with
    /// `InsufficientBudget` exactly when the budget is below the smallest
    /// size; on every other input it succeeds.
    pub fn stream(
        seed: [u8; 32],
        total_bytes: usize,
        block_byte_sizes: &Vec<usize>,
        payload: crate::payload::Config,
    ) -> (r: Result<Cache, Error>)
        requires
            sizes_wf(block_byte_sizes@),
            payload.valid(),
        ensures
            block_byte_sizes@.len() == 0 <==> r == Err::<Cache, Error>(Error::NoBlockSizes),
            block_byte_sizes@.len() > 0 && total_bytes < smallest(block_byte_sizes@) <==> r
                == Err::<Cache, Error>(Error::InsufficientBudget),
            block_byte_sizes@.len() > 0 && total_bytes >= smallest(block_byte_sizes@) <==> r is Ok,
            r matches Ok(cache) ==> {
                &&& cache.wf()
                &&& cache.stream_for(seed, total_bytes, block_byte_sizes@, payload)
            },
    {
        match check_budget(total_bytes, block_byte_sizes) {
            Ok(_) => {},
            Err(e) => {
                return Err(e);
            },
        }
        proof {
            lemma_smallest(block_byte_sizes@);
        }
        let ghost admits = |s: usize| s <= total_bytes;
        let mut block_chunks: Vec<usize> = Vec::new();
        let mut i: usize = 0;
        proof {
            assert(block_byte_sizes@.take(0).filter(admits) =~= Seq::<usize>::empty()) by {
                reveal(Seq::filter);
            }
        }
        while i < block_byte_sizes.len()
            invariant
                i <= block_byte_sizes.len(),
                admits == |s: usize| s <= total_bytes,
                sizes_wf(block_byte_sizes@),
                block_chunks@ == block_byte_sizes@.take(i as int).filter(admits),
            decreases block_byte_sizes.len() - i,
        {
            proof {
                let next = block_byte_sizes@.take(i + 1);
                assert(next.drop_last() =~= block_byte_sizes@.take(i as int));
                assert(next.last() == block_byte_sizes@[i as int]);
                reveal(Seq::filter);
            }
            if block_byte_sizes[i] <= total_bytes {
                block_chunks.push(block_byte_sizes[i]);
            }
            i += 1;
        }
        proof {
            assert(block_byte_sizes@.take(block_byte_sizes@.len() as int) =~= block_byte_sizes@);
            let kept = block_byte_sizes@.filter(admits);
            let least = choose|k: int|
                0 <= k < block_byte_sizes@.len() && block_byte_sizes@[k] == smallest(
                    block_byte_sizes@,
                );
            assert(admits(block_byte_sizes@[least]));
            block_byte_sizes@.lemma_filter_contains(admits, least);
            assert(kept.contains(block_byte_sizes@[least]));
            assert forall|k: int| 0 <= k < kept.len() implies 0 < #[trigger] kept[k] <= u32::MAX
                && kept[k] <= total_bytes by {
                assert(kept.contains(kept[k]));
                block_byte_sizes@.lemma_filter_pred(admits, k);
                block_byte_sizes@.lemma_filter_contains_rev(admits, kept[k]);
                let from = choose|j: int|
                    0 <= j < block_byte_sizes@.len() && block_byte_sizes@[j] == kept[k];
                assert(0 < block_byte_sizes@[from] <= u32::MAX);
            }
        }
        Ok(Cache::Stream { seed, total_bytes, block_chunks, payload })
    }

    /// `capacity` is the number of blocks that the hand-off to the consumer
    /// may hold: 1024 for a fixed cache, whose pool is built already; for a
    /// streaming cache the most blocks of the largest size that the budget
    /// admits, at least one and at most 1024.
    pub open spec fn admits(self, capacity: usize) -> bool {
        &&& 1 <= capacity <= CHANNEL_CAPACITY
        &&& self matches Cache::Fixed { .. } ==> capacity == CHANNEL_CAPACITY
        &&& self matches Cache::Stream { total_bytes, block_chunks, .. } ==> {
            &&& capacity * largest(block_chunks@) <= total_bytes
            &&& capacity == CHANNEL_CAPACITY || (capacity + 1) * largest(block_chunks@)
                > total_bytes
        }
    }

    /// How many blocks the hand-off to the consumer may hold, so that what
    /// it holds stays within the budget.
    pub fn channel_capacity(&self) -> (capacity: usize)
        requires
            self.wf(),
        ensures
            self.admits(capacity),
    {
        match self {
            Cache::Fixed { .. } => CHANNEL_CAPACITY,
            Cache::Stream { total_bytes, block_chunks, .. } => {
                let most = largest_of(block_chunks);
                proof {
                    lemma_largest(block_chunks@);
                    let at = choose|i: int|
                        0 <= i < block_chunks@.len() && block_chunks@[i] == largest(block_chunks@);
                    assert(0 < block_chunks@[at] <= *total_bytes);
                }
                let admitted: usize = *total_bytes / most;
                proof {
                    let t = *total_bytes as int;
                    let m = most as int;
                    vstd::arithmetic::div_mod::lemma_fundamental_div_mod(t, m);
                    vstd::arithmetic::div_mod::lemma_mod_bound(t, m);
                    assert(m * (t / m) == (t / m) * m) by (nonlinear_arith);
                    assert(t / m >= 1) by {
                        vstd::arithmetic::div_mod::lemma_div_is_ordered(m, t, m);
                        vstd::arithmetic::div_mod::lemma_div_by_self(m);
                    }
                    assert((t / m + 1) * m == (t / m) * m + m) by (nonlinear_arith);
                }
                if admitted < CHANNEL_CAPACITY {
                    admitted
                } else {
                    proof {
                        let m = most as int;
                        assert(CHANNEL_CAPACITY * m <= admitted * m) by (nonlinear_arith)
                            requires
                                CHANNEL_CAPACITY <= admitted,
                                m >= 0,
                        ;
                    }
                    CHANNEL_CAPACITY
                }
            },
        }
    }

    /// Turns the cache into the producer that hands out its blocks.
    pub fn into_producer(self) -> (p: Producer)
        requires
            self.wf(),
        ensures
            p.wf(),
            p.of(self),
    {
        match self {
            Cache::Fixed { idx, blocks, block_chunks, total_bytes } => Producer {
                rng: None,
                payload: None,
                idx,
                blocks,
                block_chunks,
            },
            Cache::Stream { seed, total_bytes, block_chunks, payload } => {
                let mut rng = rng_from_seed(seed);
                let built = Payload::new(&payload, &mut rng);
                Producer {
                    rng: Some(rng),
                    payload: Some(built),
                    idx: 0,
                    blocks: Vec::new(),
                    block_chunks,
                }
            },
        }
    }
}

/// Block sizing. Every block of a well-formed fixed cache has as many bytes
/// as it says it has, at least one, and no more than one of the sizes that
/// the cache was built for; and all its blocks together stay within its
/// budget.
pub proof fn lemma_block_sizing(cache: Cache, at: int)
    requires
        cache.wf(),
        cache matches Cache::Fixed { blocks, .. } && 0 <= at < blocks@.len(),
    ensures
        cache matches Cache::Fixed { blocks, block_chunks, total_bytes, .. } && {
            let block = blocks@[at];
            &&& block.bytes@.len() == block.total_bytes
            &&& block.total_bytes > 0
            &&& exists|i: int|
                0 <= i < block_chunks@.len() && block.total_bytes <= #[trigger] block_chunks@[i]
            &&& total_size(blocks@) <= total_bytes
        },
{
    if let Cache::Fixed { blocks, block_chunks, .. } = cache {
        assert(fits(block_chunks@, blocks@[at]));
    }
}

/// The bytes of a block, if there is one, and no bytes else.
pub open spec fn bytes_of(block: Option<Block>) -> Seq<u8> {
    match block {
        Some(block) => block.bytes@,
        None => Seq::empty(),
    }
}

/// A cache at work: hands out one block after the other, without end.
pub struct Producer {
    rng: Option<StdRng>,
    payload: Option<Payload>,
    idx: usize,
    blocks: Vec<Block>,
    block_chunks: Vec<usize>,
}

impl Producer {
    /// The payload that a streaming producer builds its blocks of; `None`
    /// for a fixed one.
    pub closed spec fn payload(self) -> Option<Payload> {
        self.payload
    }

    /// The producer is the one that the cache turns into: a fixed producer
    /// with the pool, the cursor and the sizes of a fixed cache, or a
    /// streaming one with the sizes of a streaming cache and a payload that
    /// is built from its configuration.
    pub open spec fn of(self, cache: Cache) -> bool {
        match cache {
            Cache::Fixed { idx, blocks, block_chunks, total_bytes } => {
                &&& self.pool() == Some(blocks@)
                &&& self.payload() is None
                &&& self.cursor() == idx
                &&& self.sizes() == block_chunks@
            },
            Cache::Stream { seed, total_bytes, block_chunks, payload } => {
                &&& self.pool() is None
                &&& self.sizes() == block_chunks@
                &&& self.payload() matches Some(built)
                &&& built.wf()
                &&& built.made_of(payload)
            },
        }
    }

    /// The pool of a fixed producer; `None` for a streaming one.
    pub closed spec fn pool(self) -> Option<Seq<Block>> {
        if self.payload is None {
            Some(self.blocks@)
        } else {
            None
        }
    }

    /// Which block of the pool is handed out next.
    pub closed spec fn cursor(self) -> usize {
        self.idx
    }

    /// The sizes that blocks are built for.
    pub closed spec fn sizes(self) -> Seq<usize> {
        self.block_chunks@
    }

    /// The state invariant: a fixed producer has a pool that is not empty,
    /// of blocks that fit the sizes, and a cursor into it; a streaming one
    /// has sizes to draw from, a payload that can draw and a generator to
    /// draw with.
    pub closed spec fn wf(self) -> bool {
        match self.payload {
            None => {
                &&& self.blocks@.len() > 0
                &&& self.idx < self.blocks@.len()
                &&& all_fit(self.block_chunks@, self.blocks@)
            },
            Some(payload) => {
                &&& payload.wf()
                &&& self.rng is Some
                &&& self.block_chunks@.len() > 0
                &&& sizes_wf(self.block_chunks@)
            },
        }
    }

    /// The next block to offer to the consumer.
    ///
    /// A fixed producer hands out a copy of the block under the cursor and
    /// moves the cursor on, back to the start after the last block: it
    /// always has a block. A streaming producer draws one of its sizes and
    /// has its payload serialise a block for it. The block is then what
    /// that size let through of the records drawn; `None` means that it let
    /// nothing through, the first record drawn being too long for it, and
    /// that the producer should be asked again.
    pub fn next_block(&mut self) -> (r: Option<Block>)
        requires
            old(self).wf(),
        ensures
            final(self).wf(),
            final(self).pool() == old(self).pool(),
            final(self).payload() == old(self).payload(),
            final(self).sizes() == old(self).sizes(),
            r matches Some(block) ==> fits(old(self).sizes(), block),
            old(self).payload() matches Some(payload) ==> exists|i: int|
                0 <= i < old(self).sizes().len() && serialized(
                    payload.source(),
                    #[trigger] old(self).sizes()[i],
                    Seq::empty(),
                    bytes_of(r),
                ),
            old(self).pool() matches Some(pool) ==> {
                &&& r matches Some(block)
                &&& block.bytes@ == pool[old(self).cursor() as int].bytes@
                &&& block.total_bytes == pool[old(self).cursor() as int].total_bytes
                &&& final(self).cursor() == if old(self).cursor() + 1 == pool.len() {
                    0
                } else {
                    old(self).cursor() + 1
                }
            },
    {
        match &self.payload {
            None => {
                let block = self.blocks[self.idx].duplicate();
                proof {
                    let pooled = self.blocks@[self.idx as int];
                    assert(fits(self.block_chunks@, pooled));
                    let at = choose|i: int|
                        0 <= i < self.block_chunks@.len() && pooled.total_bytes
                            <= #[trigger] self.block_chunks@[i];
                    assert(block.total_bytes <= self.block_chunks@[at]);
                }
                let following: usize = if self.idx == self.blocks.len() - 1 {
                    0
                } else {
                    self.idx + 1
                };
                self.idx = following;
                Some(block)
            },
            Some(payload) => {
                let mut rng = self.rng.take().unwrap();
                let chunk_size: usize = match choose_from(&mut rng, &self.block_chunks) {
                    Some(size) => *size,
                    None => self.block_chunks[0],
                };
                assert(exists|i: int|
                    0 <= i < self.block_chunks@.len() && self.block_chunks@[i] == chunk_size) by {
                    assert(self.block_chunks@[0] == self.block_chunks[0]);
                }
                let ghost at = choose|i: int|
                    0 <= i < self.block_chunks@.len() && self.block_chunks@[i] == chunk_size;
                let r = construct_block(&mut rng, payload, chunk_size);
                proof {
                    if r is Some {
                        assert(r->Some_0.total_bytes <= self.block_chunks@[at]);
                    }
                    assert(serialized(
                        payload.source(),
                        self.block_chunks@[at],
                        Seq::empty(),
                        bytes_of(r),
                    ));
                    assert(old(self).sizes()[at] == self.block_chunks@[at]);
                    assert(exists|i: int|
                        0 <= i < old(self).sizes().len() && serialized(
                            payload.source(),
                            #[trigger] old(self).sizes()[i],
                            Seq::empty(),
                            bytes_of(r),
                        ));
                }
                self.rng = Some(rng);
                r
            },
        }
    }
}

} // verus!
