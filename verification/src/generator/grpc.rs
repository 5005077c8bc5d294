//! The gRPC generator.
//!
//! Every block is the body of one unary call. Counters: `requests_sent`,
//! `request_ok`, `request_failure`, `connection_failure`, `bytes_written`,
//! `response_bytes`. Gauge: `bytes_per_second`.

use crate::block::Cache;
use crate::block::CacheMethod;
use crate::block::Producer;
use crate::generator::as_sizes;
use crate::generator::low_usize;
use crate::generator::sizes_in_force;
use crate::generator::assemble;
use crate::generator::certain_failure;
use crate::generator::certain_success;
use crate::generator::default_wire_block_sizes;
use crate::generator::label_texts;
use crate::generator::labels_for;
use crate::generator::low_u32;
use crate::generator::throttle_for;
use crate::generator::wire_block_sizes;
use crate::generator::Event;
use crate::generator::General;
use crate::generator::Model;
use crate::generator::SendLoop;
use crate::generator::Settings;
use crate::generator::SetupError;
use crate::generator::Step;
use crate::generator::Transport;
use crate::rng::rng_from_seed;
use crate::text::append;
use crate::throttle::Bucket;
use crate::uri::path_and_query;
use crate::uri::uri_path_and_query;
use vstd::prelude::*;

verus! {

/// The configuration of the generator.
#[derive(Debug)]
pub struct Config {
    /// The URI of the call, such as `http://host/service.path/endpoint`.
    pub target_uri: String,
    /// The seed of all draws.
    pub seed: [u8; 32],
    /// The payload.
    pub variant: crate::payload::Config,
    /// The rate, in bytes per second.
    pub bytes_per_second: u128,
    /// The block sizes, in bytes.
    pub block_sizes: Option<Vec<u128>>,
    /// The byte budget of the block cache.
    pub maximum_prebuild_cache_size_bytes: u128,
    /// How the cache supplies its blocks.
    pub block_cache_method: CacheMethod,
    /// How many calls the channel carries at a time.
    pub parallel_connections: u16,
    /// The burst model of the throttle.
    pub throttle: crate::throttle::Config,
}

impl Config {
    /// What the configuration says of the parts that all generators share.
    pub open spec fn settings(&self) -> Settings<'_> {
        Settings {
            seed: self.seed,
            variant: self.variant,
            bytes_per_second: self.bytes_per_second,
            block_sizes: &self.block_sizes,
            maximum_prebuild_cache_size_bytes: self.maximum_prebuild_cache_size_bytes,
            block_cache_method: self.block_cache_method,
            throttle: self.throttle,
        }
    }

    /// A generator can be built from the configuration: the shared parts
    /// can be, and the target URI has a path to call.
    pub open spec fn valid(&self) -> bool {
        self.settings().valid(wire_block_sizes()) && path_and_query(self.target_uri@) is Some
    }
}

/// Why the generator failed.
#[derive(Debug)]
pub enum Error {
    /// The configuration is not valid.
    Config,
    /// The throttle refused its configuration.
    Throttle(crate::throttle::Error),
    /// The block cache could not be built.
    Block(crate::block::Error),
    /// The endpoint answered a call with an error, with this message.
    Rpc(String),
    /// The channel failed, with this message.
    Transport(String),
    /// Something else failed, with this message.
    Io(String),
}

/// Why a message could not be coded.
#[derive(Debug)]
pub struct Status {
    /// What went wrong.
    pub message: String,
}

/// A codec that does nothing: what is sent is the bytes as they are, and
/// what is received is only counted.
#[derive(Debug, Clone, Copy, Default)]
pub struct NoopCodec;

/// A decoder that answers with the number of bytes received.
#[derive(Debug, Clone, Copy, Default)]
pub struct CountingDecoder;

impl NoopCodec {
    /// The encoder of the codec: the codec itself.
    pub fn encoder(&mut self) -> (r: NoopCodec) {
        NoopCodec
    }

    /// The decoder of the codec.
    pub fn decoder(&mut self) -> (r: CountingDecoder) {
        CountingDecoder
    }

    /// Puts `item` at the end of `buf`, as it is. Never fails.
    pub fn encode(&mut self, item: Vec<u8>, buf: &mut Vec<u8>) -> (r: Result<(), Status>)
        ensures
            r is Ok,
            final(buf)@ == old(buf)@ + item@,
    {
        append(buf, &item);
        Ok(())
    }
}

impl CountingDecoder {
    /// Counts the bytes of `buf` and consumes them all, so that nothing is
    /// left for the transport to trip over. Never fails, and always has an
    /// answer.
    pub fn decode(&mut self, buf: &mut Vec<u8>) -> (r: Result<Option<usize>, Status>)
        ensures
            r matches Ok(Some(count)) && count == old(buf)@.len(),
            final(buf)@.len() == 0,
    {
        let response_bytes: usize = buf.len();
        buf.clear();
        Ok(Some(response_bytes))
    }
}

/// The gRPC generator: a send loop over a channel to the host of
/// `target_uri`, calling `rpc_path`.
pub struct Grpc {
    target_uri: String,
    rpc_path: String,
    parallel_connections: u16,
    send_loop: SendLoop,
    block_cache: Option<Cache>,
    metric_labels: Vec<(String, String)>,
    bytes_per_second: u32,
}

impl View for Grpc {
    type V = Model;

    /// The state of the send loop.
    closed spec fn view(&self) -> Model {
        self.send_loop@
    }
}

impl Grpc {
    /// The URI of the call.
    pub closed spec fn target(&self) -> Seq<char> {
        self.target_uri@
    }

    /// The path and query of the call.
    pub closed spec fn path(&self) -> Seq<char> {
        self.rpc_path@
    }

    /// How many calls the channel carries at a time.
    pub closed spec fn concurrency(&self) -> u16 {
        self.parallel_connections
    }

    /// The labels of the generator's metrics.
    pub closed spec fn labels(&self) -> Seq<(Seq<char>, Seq<char>)> {
        label_texts(self.metric_labels@)
    }

    /// The rate, in bytes per second.
    pub closed spec fn rate(&self) -> u32 {
        self.bytes_per_second
    }

    /// The block cache, until its producer is taken.
    pub closed spec fn cache(&self) -> Option<Cache> {
        self.block_cache
    }

    /// The state invariant: the send loop and the cache are well formed,
    /// and the loop makes calls.
    pub open spec fn wf(&self) -> bool {
        &&& self@.wf()
        &&& self@.transport == Transport::Grpc
        &&& self.cache() matches Some(cache) ==> cache.wf()
    }

    /// Builds the generator.
    ///
    /// An invalid configuration fails with `Config`. A failure that the
    /// configuration makes certain is the outcome, as `Throttle` or `Block`:
    /// see [`certain_failure`]. Without one, only a fixed cache can fail,
    /// if nothing that was drawn fitted its blocks; where every record of
    /// the payload fits the smallest block size, it cannot: see
    /// [`certain_success`]. Else the generator
    /// stands at the start of its loop: not connected, nothing received, its
    /// throttle and the method of its cache as configured, its path that of
    /// the target URI.
    pub fn new(general: General, config: &Config) -> (r: Result<Self, Error>)
        ensures
            !config.valid() <==> r matches Err(Error::Config),
            config.valid() ==> match certain_failure(config.settings(), wire_block_sizes()) {
                Some(SetupError::Throttle(e)) => r matches Err(Error::Throttle(x)) && x == e,
                Some(SetupError::Block(e)) => r matches Err(Error::Block(x)) && x == e,
                None => r is Ok || r matches Err(Error::Block(crate::block::Error::NoBlocks)),
            },
            config.valid() && certain_success(config.settings(), wire_block_sizes()) ==> r is Ok,
            r matches Ok(generator) ==> {
                &&& generator.wf()
                &&& throttle_for(config.settings()) == Ok::<Bucket, crate::throttle::Error>(
                    generator@.bucket,
                )
                &&& generator@ == Model::initial(Transport::Grpc, generator@.bucket)
                &&& generator.target() == config.target_uri@
                &&& Some(generator.path()) == path_and_query(config.target_uri@)
                &&& generator.concurrency() == config.parallel_connections
                &&& generator.labels() == labels_for("generator"@, "grpc"@, general.id)
                &&& generator.rate() == low_u32(config.bytes_per_second)
                &&& generator.cache() matches Some(cache) && cache.built_for(
                    config.block_cache_method,
                    config.seed,
                    low_usize(config.maximum_prebuild_cache_size_bytes),
                    as_sizes(sizes_in_force(config.block_sizes, wire_block_sizes())),
                    config.variant,
                )
            },
    {
        let settings = Settings {
            seed: config.seed,
            variant: config.variant,
            bytes_per_second: config.bytes_per_second,
            block_sizes: &config.block_sizes,
            maximum_prebuild_cache_size_bytes: config.maximum_prebuild_cache_size_bytes,
            block_cache_method: config.block_cache_method,
            throttle: config.throttle,
        };
        let defaults = default_wire_block_sizes();
        if !settings.is_valid(&defaults) {
            return Err(Error::Config);
        }
        let rpc_path = match uri_path_and_query(config.target_uri.as_str()) {
            Some(path) => path,
            None => {
                return Err(Error::Config);
            },
        };
        let mut rng = rng_from_seed(config.seed);
        match assemble("grpc", &general, &settings, defaults, &mut rng) {
            Ok(parts) => Ok(
                Grpc {
                    target_uri: config.target_uri.clone(),
                    rpc_path,
                    parallel_connections: config.parallel_connections,
                    send_loop: SendLoop::new(Transport::Grpc, parts.throttle),
                    block_cache: Some(parts.block_cache),
                    metric_labels: parts.metric_labels,
                    bytes_per_second: parts.bytes_per_second,
                },
            ),
            Err(SetupError::Throttle(e)) => Err(Error::Throttle(e)),
            Err(SetupError::Block(e)) => Err(Error::Block(e)),
        }
    }

    /// The URI of the call.
    pub fn target_uri(&self) -> (r: &String)
        ensures
            r@ == self.target(),
    {
        &self.target_uri
    }

    /// The path and query of the call.
    pub fn rpc_path(&self) -> (r: &String)
        ensures
            r@ == self.path(),
    {
        &self.rpc_path
    }

    /// How many calls the channel carries at a time.
    pub fn parallel_connections(&self) -> (r: u16)
        ensures
            r == self.concurrency(),
    {
        self.parallel_connections
    }

    /// The labels of the generator's metrics.
    pub fn metric_labels(&self) -> (r: &Vec<(String, String)>)
        ensures
            label_texts(r@) == self.labels(),
    {
        &self.metric_labels
    }

    /// The rate, in bytes per second: the value of the gauge of that name.
    pub fn bytes_per_second(&self) -> (r: u32)
        ensures
            r == self.rate(),
    {
        self.bytes_per_second
    }

    /// How many blocks the hand-off between the producer and the generator
    /// may hold: what the cache admits, or 1024 once the producer is taken.
    pub fn channel_capacity(&self) -> (r: usize)
        requires
            self.wf(),
        ensures
            match self.cache() {
                Some(cache) => cache.admits(r),
                None => r == crate::block::CHANNEL_CAPACITY,
            },
    {
        match &self.block_cache {
            Some(cache) => cache.channel_capacity(),
            None => crate::block::CHANNEL_CAPACITY,
        }
    }

    /// The block that is being written, if any.
    pub fn in_hand(&self) -> (r: Option<&crate::block::Block>)
        ensures
            match r {
                Some(block) => self@.current == Some(*block),
                None => self@.current is None,
            },
    {
        self.send_loop.in_hand()
    }

    /// Hands out the producer of the generator's blocks: the one that the
    /// cache turns into, with its pool or its payload and its sizes. There
    /// is one, and it is handed out once. All else stays as it is.
    pub fn producer(&mut self) -> (r: Option<Producer>)
        requires
            old(self).wf(),
        ensures
            final(self).wf(),
            final(self)@ == old(self)@,
            final(self).cache() is None,
            final(self).target() == old(self).target(),
            final(self).path() == old(self).path(),
            final(self).concurrency() == old(self).concurrency(),
            final(self).labels() == old(self).labels(),
            final(self).rate() == old(self).rate(),
            r is Some <==> old(self).cache() is Some,
            r matches Some(p) ==> {
                &&& p.wf()
                &&& old(self).cache() matches Some(cache)
                &&& p.of(cache)
            },
    {
        match self.block_cache.take() {
            Some(cache) => Some(cache.into_producer()),
            None => None,
        }
    }

    /// One turn of the generator's loop: takes in what has just happened at
    /// time `now` and answers with what is to be done next and which
    /// counters move. See [`Model::step`]. Only the send loop moves: what
    /// the generator was built with stays as it is.
    pub fn spin(&mut self, event: Event, now: u64) -> (r: Step)
        requires
            old(self).wf(),
            event matches Event::Block(block) ==> block.wf(),
        ensures
            final(self).wf(),
            final(self).cache() == old(self).cache(),
            final(self).target() == old(self).target(),
            final(self).path() == old(self).path(),
            final(self).concurrency() == old(self).concurrency(),
            final(self).labels() == old(self).labels(),
            final(self).rate() == old(self).rate(),
            (final(self)@, r) == old(self)@.step(event, now),
    {
        self.send_loop.step(event, now)
    }
}

} // verus!
