//! Generators: what every sender of load is built from.
//!
//! A generator has labels for its metrics, a throttle and a block cache,
//! all made from its configuration here, and a send loop that decides what
//! it does: see [`send_loop`].

use crate::block::sizes_wf;
use crate::block::Cache;
use crate::block::CacheMethod;
use crate::throttle::Bucket;
use crate::throttle::Throttle;
use rand::rngs::StdRng;
use vstd::prelude::*;

pub use crate::generator::send_loop::Action;
pub use crate::generator::send_loop::Event;
pub use crate::generator::send_loop::Failure;
pub use crate::generator::send_loop::Model;
pub use crate::generator::send_loop::Phase;
pub use crate::generator::send_loop::SendLoop;
pub use crate::generator::send_loop::Step;
pub use crate::generator::send_loop::Transport;
pub use crate::generator::send_loop::Update;

pub mod file_gen;
pub mod grpc;
pub mod send_loop;
pub mod tcp;
pub mod unix_stream;

verus! {

/// The bytes of one mebibyte.
pub const MEBIBYTE: u128 = 1_048_576;

/// What all generators are configured with.
#[derive(Debug, Clone)]
pub struct General {
    /// A name that tells this generator from others of its kind.
    pub id: Option<String>,
}

/// The low bits of a byte count that make up a `usize`: what is left of a
/// count that a machine word cannot hold.
pub open spec fn low_usize(bytes: u128) -> usize {
    (bytes as int % (usize::MAX as int + 1)) as usize
}

/// The low 32 bits of a byte count.
pub open spec fn low_u32(bytes: u128) -> u32 {
    (bytes as int % 0x1_0000_0000) as u32
}

/// A byte count that fits 32 bits is left as it is.
pub proof fn lemma_low_bits(bytes: u128)
    requires
        bytes <= u32::MAX,
    ensures
        low_usize(bytes) == bytes,
        low_u32(bytes) == bytes,
{
    vstd::arithmetic::div_mod::lemma_small_mod(bytes as nat, (usize::MAX as int + 1) as nat);
    vstd::arithmetic::div_mod::lemma_small_mod(bytes as nat, 0x1_0000_0000);
}

/// The low bits of a byte count that make up a `usize`.
pub fn truncate_usize(bytes: u128) -> (r: usize)
    ensures
        r == low_usize(bytes),
{
    (bytes % (usize::MAX as u128 + 1)) as usize
}

/// The low 32 bits of a byte count.
pub fn truncate_u32(bytes: u128) -> (r: u32)
    ensures
        r == low_u32(bytes),
{
    (bytes % 0x1_0000_0000) as u32
}

/// The block sizes of a generator that speaks over a wire, unless
/// configured: from a thirty-second of a mebibyte to four mebibytes, each
/// twice the one before.
pub open spec fn wire_block_sizes() -> Seq<u128> {
    seq![32_768, 65_536, 131_072, 262_144, 524_288, 1_048_576, 2_097_152, 4_194_304]
}

/// The block sizes of a generator that writes files, unless configured:
/// from one mebibyte to thirty-two, each twice the one before.
pub open spec fn file_block_sizes() -> Seq<u128> {
    seq![1_048_576, 2_097_152, 4_194_304, 8_388_608, 16_777_216, 33_554_432]
}

/// The block sizes of a generator that speaks over a wire, unless
/// configured.
pub fn default_wire_block_sizes() -> (r: Vec<u128>)
    ensures
        r@ == wire_block_sizes(),
{
    let r: Vec<u128> = vec![
        MEBIBYTE / 32,
        MEBIBYTE / 16,
        MEBIBYTE / 8,
        MEBIBYTE / 4,
        MEBIBYTE / 2,
        MEBIBYTE,
        MEBIBYTE * 2,
        MEBIBYTE * 4,
    ];
    assert(r@ =~= wire_block_sizes());
    r
}

/// The block sizes of a generator that writes files, unless configured.
pub fn default_file_block_sizes() -> (r: Vec<u128>)
    ensures
        r@ == file_block_sizes(),
{
    let r: Vec<u128> = vec![
        MEBIBYTE,
        MEBIBYTE * 2,
        MEBIBYTE * 4,
        MEBIBYTE * 8,
        MEBIBYTE * 16,
        MEBIBYTE * 32,
    ];
    assert(r@ =~= file_block_sizes());
    r
}

/// The sizes that are in force: the configured ones, or else the defaults.
pub open spec fn sizes_in_force(configured: Option<Vec<u128>>, defaults: Seq<u128>) -> Seq<u128> {
    match configured {
        Some(sizes) => sizes@,
        None => defaults,
    }
}

/// The byte counts as block sizes: the low bits of each.
pub open spec fn as_sizes(bytes: Seq<u128>) -> Seq<usize> {
    bytes.map_values(|b: u128| low_usize(b))
}

/// The block sizes of a generator: the configured byte counts, or else the
/// defaults, each cut down to a `usize`.
pub fn block_sizes(configured: &Option<Vec<u128>>, defaults: Vec<u128>) -> (r: Vec<usize>)
    ensures
        r@ == as_sizes(sizes_in_force(*configured, defaults@)),
{
    let chosen: &Vec<u128> = match configured {
        Some(sizes) => sizes,
        None => &defaults,
    };
    let mut r: Vec<usize> = Vec::new();
    let mut i: usize = 0;
    while i < chosen.len()
        invariant
            i <= chosen.len(),
            r@ == as_sizes(chosen@.take(i as int)),
        decreases chosen.len() - i,
    {
        r.push(truncate_usize(chosen[i]));
        i += 1;
        assert(as_sizes(chosen@.take(i as int)) =~= as_sizes(chosen@.take(i - 1)).push(
            low_usize(chosen@[i - 1]),
        ));
    }
    assert(chosen@.take(chosen@.len() as int) =~= chosen@);
    r
}

/// The texts of a list of labels.
pub open spec fn label_texts(labels: Seq<(String, String)>) -> Seq<(Seq<char>, Seq<char>)> {
    labels.map_values(|l: (String, String)| (l.0@, l.1@))
}

/// The labels of a component's metrics: its kind, its name, and its id if
/// it has one.
pub open spec fn labels_for(component: Seq<char>, name: Seq<char>, id: Option<String>) -> Seq<
    (Seq<char>, Seq<char>),
> {
    let base = seq![("component"@, component), ("component_name"@, name)];
    match id {
        Some(i) => base.push(("id"@, i@)),
        None => base,
    }
}

/// The labels of a component's metrics.
pub fn metric_labels(component: &str, name: &str, id: &Option<String>) -> (r: Vec<(String, String)>)
    ensures
        label_texts(r@) == labels_for(component@, name@, *id),
{
    let mut r: Vec<(String, String)> = Vec::new();
    r.push(("component".to_owned(), component.to_owned()));
    r.push(("component_name".to_owned(), name.to_owned()));
    match id {
        Some(i) => {
            r.push(("id".to_owned(), i.clone()));
        },
        None => {},
    }
    assert(label_texts(r@) =~= labels_for(component@, name@, *id));
    r
}

/// What a generator is built from, whatever its transport.
pub struct Settings<'a> {
    /// The seed of all draws.
    pub seed: [u8; 32],
    /// The payload.
    pub variant: crate::payload::Config,
    /// The rate, in bytes per second.
    pub bytes_per_second: u128,
    /// The block sizes, in bytes, if configured.
    pub block_sizes: &'a Option<Vec<u128>>,
    /// The byte budget of the block cache.
    pub maximum_prebuild_cache_size_bytes: u128,
    /// How the cache supplies its blocks.
    pub block_cache_method: CacheMethod,
    /// The burst model of the throttle.
    pub throttle: crate::throttle::Config,
}

impl<'a> Settings<'a> {
    /// A generator can be built from the settings: the payload can be
    /// built, the rate and the cache budget are not zero once cut down to
    /// their machine types, and every block size in force is positive and
    /// fits the length field of a block.
    pub open spec fn valid(self, defaults: Seq<u128>) -> bool {
        &&& self.variant.valid()
        &&& low_u32(self.bytes_per_second) != 0
        &&& low_usize(self.maximum_prebuild_cache_size_bytes) != 0
        &&& sizes_wf(as_sizes(sizes_in_force(*self.block_sizes, defaults)))
    }

    /// Whether a generator can be built from the settings.
    pub fn is_valid(&self, defaults: &Vec<u128>) -> (r: bool)
        ensures
            r == self.valid(defaults@),
    {
        if !self.variant.is_valid() {
            return false;
        }
        if truncate_u32(self.bytes_per_second) == 0 {
            return false;
        }
        if truncate_usize(self.maximum_prebuild_cache_size_bytes) == 0 {
            return false;
        }
        let chosen: &Vec<u128> = match self.block_sizes {
            Some(sizes) => sizes,
            None => defaults,
        };
        let ghost sizes = as_sizes(chosen@);
        assert(sizes == as_sizes(sizes_in_force(*self.block_sizes, defaults@)));
        let mut i: usize = 0;
        while i < chosen.len()
            invariant
                i <= chosen.len(),
                sizes == as_sizes(chosen@),
                sizes == as_sizes(sizes_in_force(*self.block_sizes, defaults@)),
                self.variant.valid(),
                low_u32(self.bytes_per_second) != 0,
                low_usize(self.maximum_prebuild_cache_size_bytes) != 0,
                forall|k: int| 0 <= k < i ==> 0 < #[trigger] sizes[k] <= u32::MAX,
            decreases chosen.len() - i,
        {
            let size: usize = truncate_usize(chosen[i]);
            if size == 0 || size > u32::MAX as usize {
                assert(!(0 < sizes[i as int] <= u32::MAX));
                assert(!sizes_wf(sizes));
                return false;
            }
            i += 1;
        }
        true
    }
}

/// Why a generator could not be built.
#[derive(Debug, Clone, Copy, PartialEq, Eq, Structural)]
pub enum SetupError {
    /// The throttle refused its configuration.
    Throttle(crate::throttle::Error),
    /// The block cache could not be built.
    Block(crate::block::Error),
}

/// The parts of a generator that do not depend on its transport.
pub struct Parts {
    /// The throttle, empty, its clock at zero.
    pub throttle: Throttle,
    /// The block cache.
    pub block_cache: Cache,
    /// The labels of the generator's metrics.
    pub metric_labels: Vec<(String, String)>,
    /// The rate, in bytes per second: the value of the gauge of that name.
    pub bytes_per_second: u32,
}

/// The throttle that the settings ask for, if they ask for one that can be:
/// empty, its clock at zero, filling at the low 32 bits of the rate.
pub open spec fn throttle_for(settings: Settings) -> Result<Bucket, crate::throttle::Error> {
    if settings.throttle.max_burst == Some(0u32) {
        Err(crate::throttle::Error::ZeroBurst)
    } else {
        Ok(
            Bucket {
                capacity_per_second: low_u32(settings.bytes_per_second),
                max_burst: match settings.throttle.max_burst {
                    Some(burst) => burst,
                    None => low_u32(settings.bytes_per_second),
                },
                accumulated: 0,
                fraction: 0,
                last_refill: 0,
            },
        )
    }
}

/// The failure that the settings make certain, if they do: a throttle that
/// cannot be, no block size at all, or a cache budget below the smallest
/// block size, in this order.
pub open spec fn certain_failure(settings: Settings, defaults: Seq<u128>) -> Option<SetupError> {
    let sizes = as_sizes(sizes_in_force(*settings.block_sizes, defaults));
    let budget = low_usize(settings.maximum_prebuild_cache_size_bytes);
    if throttle_for(settings) is Err {
        Some(SetupError::Throttle(throttle_for(settings)->Err_0))
    } else if sizes.len() == 0 {
        Some(SetupError::Block(crate::block::Error::NoBlockSizes))
    } else if budget < crate::block::smallest(sizes) {
        Some(SetupError::Block(crate::block::Error::InsufficientBudget))
    } else {
        None
    }
}

/// The settings make success certain: they make no failure certain, and
/// the cache is a streaming one, which draws nothing yet, or every record of
/// the payload fits the smallest block size in force, so that no block of a
/// fixed cache stays empty.
pub open spec fn certain_success(settings: Settings, defaults: Seq<u128>) -> bool {
    &&& certain_failure(settings, defaults) is None
    &&& settings.block_cache_method == CacheMethod::Streaming
        || settings.variant.every_record_fits(
        crate::block::smallest(as_sizes(sizes_in_force(*settings.block_sizes, defaults))),
    )
}

/// The default block sizes hold every plain word. Their smallest, over a
/// wire as in files, is above the 6144 bytes of the longest word, so that a
/// generator of plain words with default sizes is built whenever its
/// settings make no failure certain.
pub proof fn lemma_defaults_hold_plain_words(settings: Settings, defaults: Seq<u128>)
    requires
        settings.variant == crate::payload::Config::Ascii,
        *settings.block_sizes is None,
        defaults == wire_block_sizes() || defaults == file_block_sizes(),
    ensures
        sizes_wf(as_sizes(defaults)),
        crate::block::smallest(as_sizes(defaults)) == low_usize(defaults[0]) == defaults[0],
        certain_success(settings, defaults) <==> certain_failure(settings, defaults) is None,
{
    let sizes = as_sizes(sizes_in_force(*settings.block_sizes, defaults));
    assert forall|i: int| 0 <= i < sizes.len() implies defaults[0] <= #[trigger] sizes[i]
        <= u32::MAX by {
        assert(i == 0 || i == 1 || i == 2 || i == 3 || i == 4 || i == 5 || i == 6 || i == 7);
        assert(32_768 <= defaults[i] <= 33_554_432);
        lemma_low_bits(defaults[i]);
        assert(sizes[i] == low_usize(defaults[i]));
    }
    assert(defaults[0] == 32_768 || defaults[0] == 1_048_576);
    lemma_low_bits(defaults[0]);
    assert(sizes[0] == low_usize(defaults[0]));
    crate::block::lemma_smallest(sizes);
}

/// Builds what every generator needs: labels, a throttle and a block cache.
///
/// The throttle comes first: a burst of zero fails with its error, before
/// anything is drawn. Then the cache is built by the configured method, a
/// fixed one from `rng`, a streaming one from the seed; its error is handed
/// on. So a failure that the settings make certain is the outcome; without
/// one, a streaming cache always succeeds, and a fixed one fails only if
/// not one record that was drawn fitted its block, which cannot be where
/// every record fits the smallest size: see [`certain_success`]. On success
/// the parts are
/// what the settings say: the labels of a generator of this name, the rate
/// cut down to 32 bits, a throttle for that rate, and a cache of the
/// configured method, built for the seed, the block sizes in force, the
/// budget and the payload of the settings.
pub fn assemble(
    name: &str,
    general: &General,
    settings: &Settings,
    defaults: Vec<u128>,
    rng: &mut StdRng,
) -> (r: Result<Parts, SetupError>)
    requires
        settings.valid(defaults@),
    ensures
        certain_failure(*settings, defaults@) matches Some(e) ==> r == Err::<Parts, SetupError>(e),
        certain_failure(*settings, defaults@) is None ==> r is Ok || (r == Err::<
            Parts,
            SetupError,
        >(SetupError::Block(crate::block::Error::NoBlocks)) && settings.block_cache_method
            == CacheMethod::Fixed),
        certain_success(*settings, defaults@) ==> r is Ok,
        r matches Ok(parts) ==> {
            &&& parts.throttle.wf()
            &&& throttle_for(*settings) == Ok::<Bucket, crate::throttle::Error>(parts.throttle@)
            &&& parts.bytes_per_second == low_u32(settings.bytes_per_second)
            &&& label_texts(parts.metric_labels@) == labels_for("generator"@, name@, general.id)
            &&& parts.block_cache.wf()
            &&& parts.block_cache.built_for(
                settings.block_cache_method,
                settings.seed,
                low_usize(settings.maximum_prebuild_cache_size_bytes),
                as_sizes(sizes_in_force(*settings.block_sizes, defaults@)),
                settings.variant,
            )
        },
{
    let sizes = block_sizes(settings.block_sizes, defaults);
    let metric_labels = metric_labels("generator", name, &general.id);
    let bytes_per_second = truncate_u32(settings.bytes_per_second);
    let throttle = match Throttle::new_with_config(settings.throttle, bytes_per_second, 0) {
        Ok(t) => t,
        Err(e) => {
            return Err(SetupError::Throttle(e));
        },
    };
    let total_bytes = truncate_usize(settings.maximum_prebuild_cache_size_bytes);
    let built = match settings.block_cache_method {
        CacheMethod::Streaming => Cache::stream(settings.seed, total_bytes, &sizes, settings.variant),
        CacheMethod::Fixed => Cache::fixed(rng, total_bytes, &sizes, &settings.variant),
    };
    match built {
        Ok(block_cache) => Ok(Parts { throttle, block_cache, metric_labels, bytes_per_second }),
        Err(e) => Err(SetupError::Block(e)),
    }
}

} // verus!
