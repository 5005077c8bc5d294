//! The DogStatsD payload.
//!
//! A record is a metric, an event or a service check, drawn by weight. Every
//! record is ASCII and ends with a newline.

use crate::payload::dogstatsd::common::copy_words;
use crate::payload::dogstatsd::common::is_word;
use crate::payload::dogstatsd::common::tags::lemma_same_tags_within;
use crate::payload::dogstatsd::common::tags::tagsets_within;
use crate::payload::dogstatsd::event::drawn_from;
use crate::payload::dogstatsd::common::lemma_words_are_plain;
use crate::payload::dogstatsd::common::random_strings;
use crate::payload::dogstatsd::common::tags::copy_tagsets;
use crate::payload::dogstatsd::common::random_strings_with_length;
use crate::payload::dogstatsd::common::tags::Generator;
use crate::payload::dogstatsd::common::tags::Tagset;
use crate::payload::dogstatsd::event::lemma_event_is_line;
use crate::payload::dogstatsd::event::Event;
use crate::payload::dogstatsd::event::EventGenerator;
use crate::payload::dogstatsd::metric::lemma_metric_is_line;
use crate::payload::dogstatsd::metric::Metric;
use crate::payload::dogstatsd::metric::MetricGenerator;
use crate::payload::dogstatsd::service_check::lemma_service_check_is_line;
use crate::payload::dogstatsd::service_check::ServiceCheck;
use crate::payload::dogstatsd::service_check::ServiceCheckGenerator;
use crate::payload::serialize;
use crate::payload::serialized;
use crate::payload::Error;
use crate::payload::Source;
use crate::rng::gen_range_usize;
use crate::text::is_line;
use crate::rng::sample_weighted;
use crate::rng::weight_total;
use crate::rng::weighted_index;
use crate::rng::weights_of;
use crate::rng::WeightedChoice;
use rand::rngs::StdRng;
use std::ops::Range;
use vstd::prelude::*;

pub mod common;
pub mod event;
pub mod metric;
pub mod service_check;

verus! {

/// The least number of metric contexts, unless configured.
pub fn contexts_minimum() -> (r: usize)
    ensures
        r == 5000,
{
    5000
}

/// The number of metric contexts stays below this, unless configured.
pub fn contexts_maximum() -> (r: usize)
    ensures
        r == 10000,
{
    10000
}

/// The least number of tags of a record, unless configured.
pub fn tags_per_msg_minimum() -> (r: usize)
    ensures
        r == 5000,
{
    5000
}

/// The number of tags of a record stays below this, unless configured.
pub fn tags_per_msg_maximum() -> (r: usize)
    ensures
        r == 10000,
{
    10000
}

/// How often a metric packs several values, in parts of a million, unless
/// configured: eight in a hundred.
pub fn multivalue_pack_probability() -> (r: u32)
    ensures
        r == 80_000,
{
    80_000
}

/// The least number of values of a packed metric, unless configured.
pub fn multivalue_cnt_minimum() -> (r: usize)
    ensures
        r == 2,
{
    2
}

/// The number of values of a packed metric stays below this, unless
/// configured.
pub fn multivalue_cnt_maximum() -> (r: usize)
    ensures
        r == 32,
{
    32
}

/// The weights fit a weighted draw: their sum is positive and fits in a
/// byte.
pub open spec fn weights_valid(weights: Seq<u8>) -> bool {
    0 < weight_total(weights) <= u8::MAX
}

/// The sum of three weights.
pub proof fn lemma_total_of_three(a: u8, b: u8, c: u8)
    ensures
        weight_total(seq![a, b, c]) == a + b + c,
{
    let s = seq![a, b, c];
    assert(s.drop_last() =~= seq![a, b]);
    assert(seq![a, b].drop_last() =~= seq![a]);
    assert(seq![a].drop_last() =~= Seq::<u8>::empty());
    reveal_with_fuel(weight_total, 4);
}

/// The sum of six weights.
pub proof fn lemma_total_of_six(a: u8, b: u8, c: u8, d: u8, e: u8, f: u8)
    ensures
        weight_total(seq![a, b, c, d, e, f]) == a + b + c + d + e + f,
{
    let s = seq![a, b, c, d, e, f];
    assert(s.drop_last() =~= seq![a, b, c, d, e]);
    assert(seq![a, b, c, d, e].drop_last() =~= seq![a, b, c, d]);
    assert(seq![a, b, c, d].drop_last() =~= seq![a, b, c]);
    lemma_total_of_three(a, b, c);
    reveal_with_fuel(weight_total, 4);
}

/// How often each kind of record is drawn, relative to the others.
#[derive(Debug, Clone, Copy, PartialEq, Eq, Structural)]
pub struct KindWeights {
    /// The weight of metrics.
    pub metric: u8,
    /// The weight of events.
    pub event: u8,
    /// The weight of service checks.
    pub service_check: u8,
}

impl Default for KindWeights {
    fn default() -> (r: Self)
        ensures
            r == (KindWeights { metric: 80, event: 10, service_check: 10 }),
    {
        KindWeights { metric: 80, event: 10, service_check: 10 }
    }
}

impl KindWeights {
    /// The weights in the order they are drawn by: metric, event, service
    /// check.
    pub open spec fn list(self) -> Seq<u8> {
        seq![self.metric, self.event, self.service_check]
    }

    /// Whether the weights fit a weighted draw.
    pub fn is_valid(&self) -> (r: bool)
        ensures
            r == weights_valid(self.list()),
    {
        proof {
            lemma_total_of_three(self.metric, self.event, self.service_check);
        }
        let total: u16 = self.metric as u16 + self.event as u16 + self.service_check as u16;
        0 < total && total <= 255
    }
}

/// How often each kind of metric is drawn, relative to the others.
#[derive(Debug, Clone, Copy, PartialEq, Eq, Structural)]
pub struct MetricWeights {
    /// The weight of counters.
    pub count: u8,
    /// The weight of gauges.
    pub gauge: u8,
    /// The weight of timers.
    pub timer: u8,
    /// The weight of distributions.
    pub distribution: u8,
    /// The weight of sets.
    pub set: u8,
    /// The weight of histograms.
    pub histogram: u8,
}

impl Default for MetricWeights {
    fn default() -> (r: Self)
        ensures
            r == (MetricWeights {
                count: 34,
                gauge: 34,
                timer: 5,
                distribution: 1,
                set: 1,
                histogram: 25,
            }),
    {
        MetricWeights { count: 34, gauge: 34, timer: 5, distribution: 1, set: 1, histogram: 25 }
    }
}

impl MetricWeights {
    /// The weights in the order they are drawn by: count, gauge, timer,
    /// distribution, set, histogram.
    pub open spec fn list(self) -> Seq<u8> {
        seq![self.count, self.gauge, self.timer, self.distribution, self.set, self.histogram]
    }

    /// Whether the weights fit a weighted draw.
    pub fn is_valid(&self) -> (r: bool)
        ensures
            r == weights_valid(self.list()),
    {
        proof {
            lemma_total_of_six(
                self.count,
                self.gauge,
                self.timer,
                self.distribution,
                self.set,
                self.histogram,
            );
        }
        let total: u16 = self.count as u16 + self.gauge as u16 + self.timer as u16
            + self.distribution as u16 + self.set as u16 + self.histogram as u16;
        0 < total && total <= 255
    }
}

/// The configuration of the payload.
#[derive(Debug, Clone, Copy, PartialEq, Eq, Structural)]
pub struct Config {
    /// The least number of metric contexts.
    pub contexts_minimum: usize,
    /// The number of metric contexts stays below this.
    pub contexts_maximum: usize,
    /// The number of tags of a record stays below this.
    pub tags_per_msg_maximum: usize,
    /// The least number of tags of a record.
    pub tags_per_msg_minimum: usize,
    /// How often a metric packs several values, in parts of a million.
    pub multivalue_pack_probability: u32,
    /// The least number of values of a packed metric.
    pub multivalue_cnt_minimum: usize,
    /// The number of values of a packed metric stays below this.
    pub multivalue_cnt_maximum: usize,
    /// How often each kind of record is drawn.
    pub kind_weights: KindWeights,
    /// How often each kind of metric is drawn.
    pub metric_weights: MetricWeights,
}

impl Default for Config {
    fn default() -> (r: Self)
        ensures
            r == (Config {
                contexts_minimum: 5000,
                contexts_maximum: 10000,
                tags_per_msg_maximum: 10000,
                tags_per_msg_minimum: 5000,
                multivalue_pack_probability: 80_000,
                multivalue_cnt_minimum: 2,
                multivalue_cnt_maximum: 32,
                kind_weights: KindWeights { metric: 80, event: 10, service_check: 10 },
                metric_weights: MetricWeights {
                    count: 34,
                    gauge: 34,
                    timer: 5,
                    distribution: 1,
                    set: 1,
                    histogram: 25,
                },
            }),
    {
        Config {
            contexts_minimum: contexts_minimum(),
            contexts_maximum: contexts_maximum(),
            tags_per_msg_maximum: tags_per_msg_maximum(),
            tags_per_msg_minimum: tags_per_msg_minimum(),
            multivalue_pack_probability: multivalue_pack_probability(),
            multivalue_cnt_minimum: multivalue_cnt_minimum(),
            multivalue_cnt_maximum: multivalue_cnt_maximum(),
            kind_weights: KindWeights { metric: 80, event: 10, service_check: 10 },
            metric_weights: MetricWeights {
                count: 34,
                gauge: 34,
                timer: 5,
                distribution: 1,
                set: 1,
                histogram: 25,
            },
        }
    }
}

impl Config {
    /// A payload can be built from the configuration: no range is empty, no
    /// lower bound is zero, and the weights fit a weighted draw.
    pub open spec fn valid(self) -> bool {
        &&& 0 < self.contexts_minimum < self.contexts_maximum
        &&& 0 < self.tags_per_msg_minimum < self.tags_per_msg_maximum
        &&& 0 < self.multivalue_cnt_minimum < self.multivalue_cnt_maximum
        &&& weights_valid(self.kind_weights.list())
        &&& weights_valid(self.metric_weights.list())
    }

    /// A length that no record of a payload of this configuration exceeds:
    /// 1182 bytes for the longest record without tags and with one value, 21
    /// for each value that a packed metric may have, and 74 for each tag
    /// that a record may have.
    pub open spec fn longest_record(self) -> int {
        1182 + 21 * self.multivalue_cnt_maximum + 74 * self.tags_per_msg_maximum
    }

    /// Whether a payload can be built from the configuration.
    pub fn is_valid(&self) -> (r: bool)
        ensures
            r == self.valid(),
    {
        0 < self.contexts_minimum && self.contexts_minimum < self.contexts_maximum && 0
            < self.tags_per_msg_minimum && self.tags_per_msg_minimum < self.tags_per_msg_maximum
            && 0 < self.multivalue_cnt_minimum && self.multivalue_cnt_minimum
            < self.multivalue_cnt_maximum && self.kind_weights.is_valid()
            && self.metric_weights.is_valid()
    }
}

/// The pool has `count` tag sets, each with a number of tags in `range`.
pub open spec fn tag_counts_in(pool: Seq<Tagset>, count: nat, range: Range<usize>) -> bool {
    &&& pool.len() == count
    &&& forall|i: int| 0 <= i < pool.len() ==> range.start <= (#[trigger] pool[i])@.len() < range.end
}

/// Any record of the payload.
#[derive(Debug)]
pub enum Member<'a> {
    /// A metric.
    Metric(Metric<'a>),
    /// An event.
    Event(Event<'a>),
    /// A service check.
    ServiceCheck(ServiceCheck<'a>),
}

impl<'a> Member<'a> {
    /// The record, without its newline.
    pub open spec fn encoding(self) -> Seq<u8> {
        match self {
            Member::Metric(m) => m.encoding(),
            Member::Event(e) => e.encoding(),
            Member::ServiceCheck(sc) => sc.encoding(),
        }
    }

    /// Appends the record, without a newline, to `out`.
    pub fn write(&self, out: &mut Vec<u8>)
        ensures
            final(out)@ == old(out)@ + self.encoding(),
    {
        match self {
            Member::Metric(m) => m.write(out),
            Member::Event(e) => e.write(out),
            Member::ServiceCheck(sc) => sc.write(out),
        }
    }

    /// The record, without its newline.
    pub fn to_bytes(&self) -> (bytes: Vec<u8>)
        ensures
            bytes@ == self.encoding(),
    {
        let mut bytes: Vec<u8> = Vec::new();
        self.write(&mut bytes);
        assert(Seq::<u8>::empty() + self.encoding() =~= self.encoding());
        bytes
    }
}

/// Draws records: first the kind, by weight, then the record from the
/// generator of that kind.
pub struct MemberGenerator {
    /// The weights of the kinds, in the order metric, event, service check.
    pub kind_weights: WeightedChoice,
    /// Draws the events.
    pub event_generator: EventGenerator,
    /// Draws the service checks.
    pub service_check_generator: ServiceCheckGenerator,
    /// Draws the metrics.
    pub metric_generator: MetricGenerator,
}

impl MemberGenerator {
    /// The pools of the three generators are within bounds, with fewer than
    /// `tags_below` tags to a record.
    pub open spec fn bounded(self, tags_below: usize) -> bool {
        &&& self.event_generator.bounded(tags_below)
        &&& self.service_check_generator.bounded(tags_below)
        &&& self.metric_generator.bounded(tags_below)
    }

    /// The length of a record: with the pools within bounds, no record that
    /// the generator draws is longer than 1182 bytes, 21 for each value
    /// that a packed metric may have, and 74 for each tag.
    pub proof fn lemma_member_length(self, member: Member, tags_below: usize)
        requires
            self.wf(),
            self.bounded(tags_below),
            self.yields(member),
        ensures
            member.encoding().len() <= 1182 + 21 * self.metric_generator.multivalue_cnt_range.end
                + 74 * tags_below,
    {
        match member {
            Member::Metric(m) => self.metric_generator.lemma_metric_length(m, tags_below),
            Member::Event(e) => self.event_generator.lemma_event_length(e, tags_below),
            Member::ServiceCheck(sc) => self.service_check_generator.lemma_service_check_length(
                sc,
                tags_below,
            ),
        }
    }

    /// There are three weights, and each generator can draw.
    pub open spec fn wf(self) -> bool {
        &&& weights_of(self.kind_weights).len() == 3
        &&& self.event_generator.wf()
        &&& self.service_check_generator.wf()
        &&& self.metric_generator.wf()
    }

    /// What holds of every record this generator draws: its kind has a
    /// weight above zero, and it is a record of that kind's generator.
    pub open spec fn yields(self, member: Member) -> bool {
        match member {
            Member::Metric(m) => weights_of(self.kind_weights)[0] > 0
                && self.metric_generator.yields(m),
            Member::Event(e) => weights_of(self.kind_weights)[1] > 0
                && self.event_generator.yields(e),
            Member::ServiceCheck(sc) => weights_of(self.kind_weights)[2] > 0
                && self.service_check_generator.yields(sc),
        }
    }

    /// The generator is one that `new` builds from these ranges and
    /// weights: the pools have the sizes that the ranges allow, every pool of
    /// tag sets has as many sets as there are contexts, each with a number of
    /// tags in its range, no context has a kind of weight zero, and the
    /// words of the pools are within their bounds.
    pub open spec fn built_from(
        self,
        context_range: Range<usize>,
        tags_per_msg_range: Range<usize>,
        multivalue_cnt_range: Range<usize>,
        multivalue_pack_probability: u32,
        kind_weights: KindWeights,
        metric_weights: MetricWeights,
    ) -> bool {
        let contexts = self.metric_generator.contexts@.len();
        &&& self.bounded(tags_per_msg_range.end)
        &&& weights_of(self.kind_weights) == kind_weights.list()
        &&& context_range.start <= contexts < context_range.end
        &&& self.event_generator.titles@.len() == contexts
        &&& self.service_check_generator.names@.len() == contexts
        &&& 4 <= self.event_generator.texts_or_messages@.len() < 128
        &&& self.service_check_generator.texts_or_messages@.len()
            == self.event_generator.texts_or_messages@.len()
        &&& 16 <= self.event_generator.small_strings@.len() < 1024
        &&& self.service_check_generator.small_strings@.len()
            == self.event_generator.small_strings@.len()
        &&& tag_counts_in(self.metric_generator.tagsets@, contexts, tags_per_msg_range)
        &&& tag_counts_in(self.event_generator.tagsets@, contexts, tags_per_msg_range)
        &&& tag_counts_in(self.service_check_generator.tagsets@, contexts, tags_per_msg_range)
        &&& self.metric_generator.multivalue_cnt_range == multivalue_cnt_range
        &&& self.metric_generator.multivalue_pack_probability == multivalue_pack_probability
        &&& forall|i: int|
            0 <= i < contexts ==> metric_weights.list()[(
            #[trigger] self.metric_generator.contexts@[i]).kind.index()] > 0
    }

    /// Draws the pools and builds the generators.
    ///
    /// The number of contexts is drawn from `context_range`. Titles and
    /// service names are that many words of up to 64 bytes; texts are 4 to
    /// 127 words of up to 1024 bytes; small strings are 16 to 1023 words of
    /// up to 8 bytes; tags have keys and values of up to 36 bytes.
    pub fn new(
        context_range: Range<usize>,
        tags_per_msg_range: Range<usize>,
        multivalue_cnt_range: Range<usize>,
        multivalue_pack_probability: u32,
        kind_weights: KindWeights,
        metric_weights: MetricWeights,
        rng: &mut StdRng,
    ) -> (r: Self)
        requires
            0 < context_range.start < context_range.end,
            tags_per_msg_range.start < tags_per_msg_range.end,
            0 < multivalue_cnt_range.start < multivalue_cnt_range.end,
            weights_valid(kind_weights.list()),
            weights_valid(metric_weights.list()),
        ensures
            r.wf(),
            r.built_from(
                context_range,
                tags_per_msg_range,
                multivalue_cnt_range,
                multivalue_pack_probability,
                kind_weights,
                metric_weights,
            ),
    {
        let num_contexts: usize = gen_range_usize(rng, context_range.start, context_range.end);
        let max_tag_length: u16 = 36;
        let tags_generator = Generator {
            num_tagsets: num_contexts,
            tags_per_msg_range,
            max_length: max_tag_length,
        };
        let service_event_titles = random_strings(num_contexts, 64, rng);
        let tagsets = tags_generator.generate(rng);
        let texts_or_messages = random_strings_with_length(4..128, 1024, rng);
        let small_strings = random_strings_with_length(16..1024, 8, rng);
        let event_generator = EventGenerator {
            titles: copy_words(&service_event_titles),
            texts_or_messages: copy_words(&texts_or_messages),
            small_strings: copy_words(&small_strings),
            tagsets: copy_tagsets(&tagsets),
        };
        let service_check_generator = ServiceCheckGenerator {
            names: copy_words(&service_event_titles),
            small_strings: copy_words(&small_strings),
            texts_or_messages: copy_words(&texts_or_messages),
            tagsets: copy_tagsets(&tagsets),
        };
        proof {
            assert(tagsets_within(tagsets@, tags_per_msg_range.end, 36));
            lemma_same_tags_within(
                tagsets@,
                event_generator.tagsets@,
                tags_per_msg_range.end,
                36,
            );
            lemma_same_tags_within(
                tagsets@,
                service_check_generator.tagsets@,
                tags_per_msg_range.end,
                36,
            );
            lemma_words_are_plain(service_event_titles@, event_generator.titles@, 64);
            lemma_words_are_plain(texts_or_messages@, event_generator.texts_or_messages@, 1024);
            lemma_words_are_plain(small_strings@, event_generator.small_strings@, 8);
            lemma_words_are_plain(service_event_titles@, service_check_generator.names@, 64);
            lemma_words_are_plain(
                texts_or_messages@,
                service_check_generator.texts_or_messages@,
                1024,
            );
            lemma_words_are_plain(small_strings@, service_check_generator.small_strings@, 8);
        }
        // The order of the weights is that of `MetricKind`.
        let metric_choices: Vec<u8> = vec![
            metric_weights.count,
            metric_weights.gauge,
            metric_weights.timer,
            metric_weights.distribution,
            metric_weights.set,
            metric_weights.histogram,
        ];
        assert(metric_choices@ =~= metric_weights.list());
        let metric_index = weighted_index(&metric_choices);
        let ghost names = small_strings@;
        let metric_generator = MetricGenerator::new(
            num_contexts,
            multivalue_cnt_range,
            multivalue_pack_probability,
            &metric_index,
            small_strings,
            tagsets,
            rng,
        );
        proof {
            let views = names.map_values(|w: Vec<u8>| w@);
            assert forall|i: int| 0 <= i < metric_generator.contexts@.len() implies is_word(
                (#[trigger] metric_generator.contexts@[i]).name@,
                8,
            ) by {
                let name = metric_generator.contexts@[i].name@;
                assert(drawn_from(views, name));
                let at = choose|at: int| 0 <= at < views.len() && views[at] == name;
                assert(is_word(names[at]@, 8));
            }
        }
        // The order of the weights is that of `Member`.
        let member_choices: Vec<u8> = vec![
            kind_weights.metric,
            kind_weights.event,
            kind_weights.service_check,
        ];
        assert(member_choices@ =~= kind_weights.list());
        MemberGenerator {
            kind_weights: weighted_index(&member_choices),
            event_generator,
            service_check_generator,
            metric_generator,
        }
    }

    /// Every record that this generator draws is one line of printable
    /// ASCII: it has no newline in it, nor any other byte that is no text.
    pub proof fn lemma_member_is_line(self, member: Member)
        requires
            self.yields(member),
        ensures
            is_line(member.encoding()),
    {
        match member {
            Member::Metric(m) => lemma_metric_is_line(m),
            Member::Event(e) => lemma_event_is_line(e),
            Member::ServiceCheck(sc) => lemma_service_check_is_line(sc),
        }
    }

    /// Draws one record.
    pub fn generate<'a>(&'a self, rng: &mut StdRng) -> (member: Member<'a>)
        requires
            self.wf(),
        ensures
            self.yields(member),
    {
        let kind: usize = sample_weighted(&self.kind_weights, rng);
        if kind == 0 {
            Member::Metric(self.metric_generator.generate(rng))
        } else if kind == 1 {
            Member::Event(self.event_generator.generate(rng))
        } else {
            Member::ServiceCheck(self.service_check_generator.generate(rng))
        }
    }
}

/// The DogStatsD serialiser.
pub struct DogStatsD {
    member_generator: MemberGenerator,
}

impl DogStatsD {
    /// The generator that draws the records.
    pub closed spec fn generator(self) -> MemberGenerator {
        self.member_generator
    }

    /// The record generator is well formed.
    pub open spec fn wf(self) -> bool {
        self.generator().wf()
    }

    /// `record` is the text of a record that this payload may draw.
    pub open spec fn is_record(self, record: Seq<u8>) -> bool {
        exists|member: Member| #[trigger] self.generator().yields(member) && record == member.encoding()
    }

    /// Every one of `records` is the text of a record that this payload may
    /// draw.
    pub open spec fn all_records(self, records: Seq<Seq<u8>>) -> bool {
        forall|i: int| 0 <= i < records.len() ==> self.is_record(#[trigger] records[i])
    }

    /// No record of a payload that is built from a configuration is longer
    /// than the configuration's longest record.
    pub proof fn lemma_record_length(self, config: Config, record: Seq<u8>)
        requires
            self.wf(),
            self.made_of(config),
            self.is_record(record),
        ensures
            record.len() <= config.longest_record(),
    {
        let member = choose|member: Member|
            #[trigger] self.generator().yields(member) && record == member.encoding();
        self.generator().lemma_member_length(member, config.tags_per_msg_maximum);
    }

    /// Every record of the payload is one line of printable ASCII.
    pub proof fn lemma_record_is_line(self, record: Seq<u8>)
        requires
            self.is_record(record),
        ensures
            is_line(record),
    {
        let member = choose|member: Member|
            #[trigger] self.generator().yields(member) && record == member.encoding();
        self.generator().lemma_member_is_line(member);
    }

    /// A payload with the default ranges and weights.
    pub fn default(rng: &mut StdRng) -> (r: Self)
        ensures
            r.wf(),
            r.generator().built_from(
                5000usize..10000usize,
                5000usize..10000usize,
                2usize..32usize,
                80_000,
                KindWeights { metric: 80, event: 10, service_check: 10 },
                MetricWeights {
                    count: 34,
                    gauge: 34,
                    timer: 5,
                    distribution: 1,
                    set: 1,
                    histogram: 25,
                },
            ),
    {
        let kind_weights = KindWeights::default();
        let metric_weights = MetricWeights::default();
        proof {
            lemma_total_of_three(80, 10, 10);
            lemma_total_of_six(34, 34, 5, 1, 1, 25);
        }
        Self::new(
            contexts_minimum()..contexts_maximum(),
            tags_per_msg_minimum()..tags_per_msg_maximum(),
            multivalue_cnt_minimum()..multivalue_cnt_maximum(),
            multivalue_pack_probability(),
            kind_weights,
            metric_weights,
            rng,
        )
    }

    /// A payload for the given ranges and weights.
    pub fn new(
        context_range: Range<usize>,
        tags_per_msg_range: Range<usize>,
        multivalue_cnt_range: Range<usize>,
        multivalue_pack_probability: u32,
        kind_weights: KindWeights,
        metric_weights: MetricWeights,
        rng: &mut StdRng,
    ) -> (r: Self)
        requires
            0 < context_range.start < context_range.end,
            tags_per_msg_range.start < tags_per_msg_range.end,
            0 < multivalue_cnt_range.start < multivalue_cnt_range.end,
            weights_valid(kind_weights.list()),
            weights_valid(metric_weights.list()),
        ensures
            r.wf(),
            r.generator().built_from(
                context_range,
                tags_per_msg_range,
                multivalue_cnt_range,
                multivalue_pack_probability,
                kind_weights,
                metric_weights,
            ),
    {
        let member_generator = MemberGenerator::new(
            context_range,
            tags_per_msg_range,
            multivalue_cnt_range,
            multivalue_pack_probability,
            kind_weights,
            metric_weights,
            rng,
        );
        DogStatsD { member_generator }
    }

    /// The payload is one that is built from the configuration: its
    /// generator has the ranges and weights that the configuration gives.
    pub open spec fn made_of(self, config: Config) -> bool {
        self.generator().built_from(
            config.contexts_minimum..config.contexts_maximum,
            config.tags_per_msg_minimum..config.tags_per_msg_maximum,
            config.multivalue_cnt_minimum..config.multivalue_cnt_maximum,
            config.multivalue_pack_probability,
            config.kind_weights,
            config.metric_weights,
        )
    }

    /// A payload for a configuration.
    pub fn from_config(config: &Config, rng: &mut StdRng) -> (r: Self)
        requires
            config.valid(),
        ensures
            r.wf(),
            r.made_of(*config),
    {
        Self::new(
            config.contexts_minimum..config.contexts_maximum,
            config.tags_per_msg_minimum..config.tags_per_msg_maximum,
            config.multivalue_cnt_minimum..config.multivalue_cnt_maximum,
            config.multivalue_pack_probability,
            config.kind_weights,
            config.metric_weights,
            rng,
        )
    }

    /// Draws one record.
    pub fn generate<'a>(&'a self, rng: &mut StdRng) -> (member: Member<'a>)
        requires
            self.wf(),
        ensures
            self.generator().yields(member),
    {
        self.member_generator.generate(rng)
    }

    /// Draws records and writes each with its newline, until one is drawn
    /// that no longer fits into what is left of `max_bytes`. That record is
    /// dropped whole. Never fails, and never writes more than `max_bytes`.
    pub fn to_bytes(&self, rng: &mut StdRng, max_bytes: usize, writer: &mut Vec<u8>) -> (r: Result<
        (),
        Error,
    >)
        requires
            self.wf(),
        ensures
            r is Ok,
            serialized(Source::DogStatsD(self), max_bytes, old(writer)@, final(writer)@),
    {
        serialize(Source::DogStatsD(self), rng, max_bytes, writer);
        Ok(())
    }
}

} // verus!
