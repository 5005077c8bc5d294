use lading::block::check_budget;
use lading::block::construct_block;
use lading::block::default_cache_method;
use lading::block::largest_of;
use lading::block::smallest_of;
use lading::block::Block;
use lading::block::Cache;
use lading::block::CacheMethod;
use lading::block::Error;
use lading::block::CHANNEL_CAPACITY;
use lading::common::PeekableReceiver;
use lading::payload::Config;
use lading::payload::Payload;
use rand::rngs::StdRng;
use rand::SeedableRng;

fn block_of(kib: usize) -> Block {
    Block { total_bytes: (kib * 1024) as u32, bytes: vec![b'x'; kib * 1024] }
}

#[test]
fn default_method_is_fixed() {
    assert_eq!(default_cache_method(), CacheMethod::Fixed);
}

#[test]
fn smallest_and_largest() {
    let sizes = vec![40usize, 10, 30, 10, 50, 20];
    assert_eq!(smallest_of(&sizes), 10);
    assert_eq!(largest_of(&sizes), 50);
    assert_eq!(smallest_of(&vec![7]), 7);
    assert_eq!(largest_of(&Vec::new()), 0);
}

#[test]
fn budget_check() {
    assert_eq!(check_budget(100, &Vec::new()), Err(Error::NoBlockSizes));
    assert_eq!(check_budget(9, &vec![20, 10]), Err(Error::InsufficientBudget));
    assert_eq!(check_budget(10, &vec![20, 10]), Ok(10));
    assert_eq!(check_budget(0, &Vec::new()), Err(Error::NoBlockSizes));
}

#[test]
fn fixed_cache_errors() {
    let mut rng = StdRng::from_seed([1; 32]);
    let r = Cache::fixed(&mut rng, 1_000, &Vec::new(), &Config::Ascii);
    assert!(matches!(r, Err(Error::NoBlockSizes)));
    let r = Cache::fixed(&mut rng, 99, &vec![100, 200], &Config::Ascii);
    assert!(matches!(r, Err(Error::InsufficientBudget)));
    // No word with its newline fits into one byte: no block can be built.
    let r = Cache::fixed(&mut rng, 10, &vec![1], &Config::Ascii);
    assert!(matches!(r, Err(Error::NoBlocks)));
    let r = Cache::from_blocks(Vec::new(), vec![1], 10);
    assert!(matches!(r, Err(Error::NoBlocks)));
}

#[test]
fn fixed_cache_blocks_fit_sizes_and_budget() {
    let sizes = vec![8_192usize, 16_384, 65_536];
    let budget = 300_000usize;
    let mut rng = StdRng::from_seed([2; 32]);
    let cache = Cache::fixed(&mut rng, budget, &sizes, &Config::Ascii).unwrap();
    match &cache {
        Cache::Fixed { idx, blocks, block_chunks, total_bytes } => {
            assert_eq!(*idx, 0);
            assert_eq!(block_chunks, &sizes);
            assert_eq!(*total_bytes, budget);
            assert!(!blocks.is_empty());
            let mut sum = 0usize;
            for block in blocks {
                assert!(block.total_bytes > 0);
                assert_eq!(block.total_bytes as usize, block.bytes.len());
                assert!(block.bytes.len() <= 65_536);
                assert_eq!(*block.bytes.last().unwrap(), b'\n');
                sum += block.bytes.len();
            }
            assert!(sum <= budget);
            // The budget is used up to less than the smallest size.
            assert!(sum > budget - 8_192 - blocks.len() * 6_145);
        }
        Cache::Stream { .. } => panic!("a fixed cache was asked for"),
    }
    assert_eq!(cache.channel_capacity(), CHANNEL_CAPACITY);
}

#[test]
fn fixed_cache_is_a_function_of_the_seed() {
    let sizes = vec![1_024usize];
    let mut first = Vec::new();
    for _ in 0..2 {
        let mut rng = StdRng::from_seed([3; 32]);
        let cache = Cache::fixed(&mut rng, 65_536, &sizes, &Config::Ascii).unwrap();
        let mut producer = cache.into_producer();
        let mut bytes = Vec::new();
        while bytes.len() < 65_536 {
            bytes.extend_from_slice(&producer.next_block().unwrap().bytes);
        }
        bytes.truncate(65_536);
        first.push(bytes);
    }
    assert_eq!(first[0], first[1]);
}

#[test]
fn fixed_producer_cycles_through_its_pool() {
    let blocks = vec![block_of(3), block_of(1), block_of(4)];
    let cache = Cache::from_blocks(blocks, vec![4096], 8 * 1024).unwrap();
    let mut producer = cache.into_producer();
    let sizes: Vec<u32> = (0..7).map(|_| producer.next_block().unwrap().total_bytes).collect();
    assert_eq!(sizes, vec![3072, 1024, 4096, 3072, 1024, 4096, 3072]);
}

#[test]
fn stream_cache_keeps_the_sizes_that_fit() {
    let r = Cache::stream([0; 32], 1_000, &Vec::new(), Config::Ascii);
    assert!(matches!(r, Err(Error::NoBlockSizes)));
    let r = Cache::stream([0; 32], 99, &vec![100, 200], Config::Ascii);
    assert!(matches!(r, Err(Error::InsufficientBudget)));
    let cache = Cache::stream([5; 32], 1_000, &vec![2_000, 100, 500, 1_000, 1_001], Config::Ascii)
        .unwrap();
    match &cache {
        Cache::Stream { seed, total_bytes, block_chunks, payload } => {
            assert_eq!(seed, &[5; 32]);
            assert_eq!(*total_bytes, 1_000);
            assert_eq!(block_chunks, &vec![100, 500, 1_000]);
            assert_eq!(*payload, Config::Ascii);
        }
        Cache::Fixed { .. } => panic!("a streaming cache was asked for"),
    }
    // One block of the largest size fills the budget.
    assert_eq!(cache.channel_capacity(), 1);
    let cache = Cache::stream([5; 32], 10_000, &vec![100, 500], Config::Ascii).unwrap();
    assert_eq!(cache.channel_capacity(), 20);
    let cache = Cache::stream([5; 32], 10_000_000, &vec![100, 500], Config::Ascii).unwrap();
    assert_eq!(cache.channel_capacity(), CHANNEL_CAPACITY);
}

#[test]
fn stream_producer_builds_blocks_that_fit() {
    let sizes = vec![20_000usize, 40_000];
    let cache = Cache::stream([8; 32], 1_000_000, &sizes, Config::Ascii).unwrap();
    let mut producer = cache.into_producer();
    let mut built = 0;
    for _ in 0..20 {
        if let Some(block) = producer.next_block() {
            assert!(block.total_bytes > 0);
            assert_eq!(block.total_bytes as usize, block.bytes.len());
            assert!(block.bytes.len() <= 40_000);
            built += 1;
        }
    }
    assert!(built > 0);
}

#[test]
fn construct_block_is_bounded_by_its_size() {
    let mut rng = StdRng::from_seed([4; 32]);
    let payload = Payload::new(&Config::Ascii, &mut rng);
    let block = construct_block(&mut rng, &payload, 50_000).unwrap();
    assert!(block.bytes.len() <= 50_000);
    assert_eq!(block.total_bytes as usize, block.bytes.len());
    assert!(construct_block(&mut rng, &payload, 0).is_none());
    assert!(construct_block(&mut rng, &payload, 1).is_none());
}

#[test]
fn duplicate_has_the_same_bytes() {
    let block = Block { total_bytes: 3, bytes: b"ab\n".to_vec() };
    let copy = block.duplicate();
    assert_eq!(copy.total_bytes, 3);
    assert_eq!(copy.bytes, b"ab\n".to_vec());
}

#[test]
fn peek_then_next_returns_the_same_block() {
    let mut rcv: PeekableReceiver<Block> = PeekableReceiver::new();
    assert!(rcv.peek().is_none());
    assert!(rcv.next().is_none());
    for kib in [3, 1, 4, 1, 5] {
        rcv.push(block_of(kib));
    }
    assert_eq!(rcv.len(), 5);
    let mut pairs = Vec::new();
    while rcv.len() > 0 {
        let peeked = rcv.peek().unwrap().total_bytes / 1024;
        let taken = rcv.next().unwrap().total_bytes / 1024;
        pairs.push((peeked, taken));
    }
    assert_eq!(pairs, vec![(3, 3), (1, 1), (4, 4), (1, 1), (5, 5)]);
    assert!(rcv.peek().is_none());
}

#[test]
fn peek_is_idempotent() {
    let mut rcv: PeekableReceiver<u32> = PeekableReceiver::new();
    rcv.push(7);
    rcv.push(8);
    assert_eq!(rcv.peek(), Some(&7));
    assert_eq!(rcv.peek(), Some(&7));
    assert_eq!(rcv.len(), 2);
    assert_eq!(rcv.next(), Some(7));
    assert_eq!(rcv.peek(), Some(&8));
    assert_eq!(rcv.next(), Some(8));
    assert_eq!(rcv.next(), None);
}

#[test]
fn a_fixed_cache_of_words_in_blocks_above_their_length_is_always_built() {
    // A word has up to 6144 bytes, so every block of 6146 bytes or more
    // holds the first word that is drawn.
    for seed in 0..16u8 {
        let mut rng = StdRng::from_seed([seed; 32]);
        let cache = Cache::fixed(&mut rng, 6_146, &vec![6_146], &Config::Ascii).unwrap();
        match cache {
            Cache::Fixed { blocks, .. } => {
                assert_eq!(blocks.len(), 1);
                assert!(blocks[0].total_bytes > 0);
            }
            Cache::Stream { .. } => panic!("a fixed cache was asked for"),
        }
    }
}

#[test]
fn a_fixed_cache_of_records_in_blocks_above_their_length_is_always_built() {
    let config = lading::payload::dogstatsd::Config {
        contexts_minimum: 2,
        contexts_maximum: 6,
        tags_per_msg_maximum: 4,
        tags_per_msg_minimum: 1,
        multivalue_pack_probability: 500_000,
        multivalue_cnt_minimum: 2,
        multivalue_cnt_maximum: 5,
        kind_weights: lading::payload::dogstatsd::KindWeights::default(),
        metric_weights: lading::payload::dogstatsd::MetricWeights::default(),
    };
    // The longest record has 1182 + 21 * 5 + 74 * 4 bytes.
    let size = 1182 + 21 * 5 + 74 * 4 + 1;
    for seed in 0..16u8 {
        let mut rng = StdRng::from_seed([seed; 32]);
        let cache =
            Cache::fixed(&mut rng, 4 * size, &vec![size], &Config::DogStatsD(config)).unwrap();
        match cache {
            Cache::Fixed { blocks, .. } => assert_eq!(blocks.len(), 4),
            Cache::Stream { .. } => panic!("a fixed cache was asked for"),
        }
    }
}
