//! Metrics: named values of one of six kinds.

use crate::payload::dogstatsd::common::lemma_regroup;
use crate::payload::dogstatsd::common::lemma_tag_section_is_line;
use crate::payload::dogstatsd::common::plain_words;
use crate::payload::dogstatsd::common::tags::plain_tags;
use crate::payload::dogstatsd::common::tags::plain_tagsets;
use crate::payload::dogstatsd::common::tag_section;
use crate::payload::dogstatsd::common::tags::Tagset;
use crate::payload::dogstatsd::common::tags::Tagsets;
use crate::payload::dogstatsd::common::write_tag_section;
use crate::payload::dogstatsd::common::NumValueGenerator;
use crate::payload::dogstatsd::common::is_word;
use crate::payload::dogstatsd::common::tags::tagsets_within;
use crate::payload::dogstatsd::event::drawn_from;
use crate::payload::dogstatsd::event::lemma_drawn_tags_length;
use crate::payload::dogstatsd::event::maybe_drawn_from;
use crate::text::lemma_decimal_length;
use crate::rng::choose_from;
use crate::rng::gen_range_usize;
use crate::rng::sample_weighted;
use crate::rng::weights_of;
use crate::rng::WeightedChoice;
use crate::text::append;
use crate::text::copy_of;
use crate::text::decimal;
use crate::text::is_alphanumeric;
use crate::text::is_line;
use crate::text::lemma_alphanumeric_is_line;
use crate::text::lemma_decimal_is_line;
use crate::text::lemma_line_of_parts;
use crate::text::push_i64;
use crate::text::COLON;
use crate::text::PIPE;
use rand::rngs::StdRng;
use std::ops::Range;
use vstd::prelude::*;

verus! {

/// One part in a million: the unit probabilities are held in.
pub const PARTS: u32 = 1_000_000;

/// The kind of a metric. The order of the variants is the order of the
/// weights they are drawn by.
#[derive(Debug, Clone, Copy, PartialEq, Eq, Structural)]
pub enum MetricKind {
    /// A counter.
    Count,
    /// A gauge.
    Gauge,
    /// A timer.
    Timer,
    /// A distribution.
    Distribution,
    /// A set.
    UniqueSet,
    /// A histogram.
    Histogram,
}

impl MetricKind {
    /// The place of the kind among the weights.
    pub open spec fn index(self) -> int {
        match self {
            MetricKind::Count => 0,
            MetricKind::Gauge => 1,
            MetricKind::Timer => 2,
            MetricKind::Distribution => 3,
            MetricKind::UniqueSet => 4,
            MetricKind::Histogram => 5,
        }
    }

    /// The type field of the kind: `c`, `g`, `ms`, `d`, `s` or `h`.
    pub open spec fn text(self) -> Seq<u8> {
        match self {
            MetricKind::Count => seq![99u8],
            MetricKind::Gauge => seq![103u8],
            MetricKind::Timer => seq![109u8, 115],
            MetricKind::Distribution => seq![100u8],
            MetricKind::UniqueSet => seq![115u8],
            MetricKind::Histogram => seq![104u8],
        }
    }

    /// The kind at a place among the weights.
    pub fn from_index(index: usize) -> (kind: MetricKind)
        requires
            index < 6,
        ensures
            kind.index() == index,
    {
        if index == 0 {
            MetricKind::Count
        } else if index == 1 {
            MetricKind::Gauge
        } else if index == 2 {
            MetricKind::Timer
        } else if index == 3 {
            MetricKind::Distribution
        } else if index == 4 {
            MetricKind::UniqueSet
        } else {
            MetricKind::Histogram
        }
    }

    /// Appends the type field to `out`.
    pub fn write(self, out: &mut Vec<u8>)
        ensures
            final(out)@ == old(out)@ + self.text(),
    {
        match self {
            MetricKind::Count => out.push(99),
            MetricKind::Gauge => out.push(103),
            MetricKind::Timer => {
                out.push(109);
                out.push(115);
            },
            MetricKind::Distribution => out.push(100),
            MetricKind::UniqueSet => out.push(115),
            MetricKind::Histogram => out.push(104),
        }
        assert(out@ =~= old(out)@ + self.text());
    }
}

/// The values of a metric on the wire: each in decimal, parted by colons.
pub open spec fn values_text(values: Seq<i64>) -> Seq<u8>
    decreases values.len(),
{
    if values.len() == 0 {
        Seq::empty()
    } else if values.len() == 1 {
        decimal(values[0] as int)
    } else {
        values_text(values.drop_last()) + seq![COLON] + decimal(values.last() as int)
    }
}

/// The text of the values is part of a line.
pub proof fn lemma_values_are_line(values: Seq<i64>)
    ensures
        is_line(values_text(values)),
    decreases values.len(),
{
    if values.len() > 0 {
        lemma_decimal_is_line(values.last() as int);
        if values.len() == 1 {
            assert(values[0] == values.last());
        } else {
            lemma_values_are_line(values.drop_last());
            lemma_line_of_parts(values_text(values.drop_last()), seq![COLON]);
            lemma_line_of_parts(
                values_text(values.drop_last()) + seq![COLON],
                decimal(values.last() as int),
            );
        }
    }
}

/// The length of the text of values: each takes at most twenty bytes and
/// one for the colon.
pub proof fn lemma_values_length(values: Seq<i64>)
    ensures
        values_text(values).len() <= 21 * values.len(),
    decreases values.len(),
{
    if values.len() > 0 {
        lemma_decimal_length(values.last() as int);
        if values.len() == 1 {
            assert(values[0] == values.last());
        } else {
            lemma_values_length(values.drop_last());
        }
    }
}

/// Appends the values, parted by colons, to `out`.
pub fn write_values(out: &mut Vec<u8>, values: &Vec<i64>)
    ensures
        final(out)@ == old(out)@ + values_text(values@),
{
    let mut i: usize = 0;
    assert(old(out)@ + values_text(values@.take(0)) == old(out)@);
    while i < values.len()
        invariant
            i <= values.len(),
            out@ == old(out)@ + values_text(values@.take(i as int)),
        decreases values.len() - i,
    {
        let ghost before = out@;
        if i > 0 {
            out.push(COLON);
        }
        push_i64(out, values[i]);
        proof {
            let done = values@.take(i as int);
            let next = values@.take(i + 1);
            assert(next.drop_last() == done);
            assert(next.last() == values@[i as int]);
            if i > 0 {
                assert(out@ == before + (seq![COLON] + decimal(values@[i as int] as int)));
            }
        }
        i += 1;
    }
    assert(values@.take(values@.len() as int) == values@);
}

/// A metric. Its name and tags are borrowed from the generator that drew it.
#[derive(Debug)]
pub struct Metric<'a> {
    /// The name.
    pub name: &'a Vec<u8>,
    /// The values, at least one.
    pub values: Vec<i64>,
    /// The kind.
    pub kind: MetricKind,
    /// The tags.
    pub tags: Option<&'a Tagset>,
}

impl<'a> Metric<'a> {
    /// Name and tags of the metric are made of letters and digits.
    pub open spec fn plain(self) -> bool {
        &&& is_alphanumeric(self.name@)
        &&& self.tags matches Some(t) ==> plain_tags(t@)
    }

    /// The record, without its newline: the name, a colon, the values, a
    /// bar, the type and the tags.
    pub open spec fn encoding(self) -> Seq<u8> {
        self.name@ + seq![COLON] + values_text(self.values@) + seq![PIPE] + self.kind.text()
            + tag_section(self.tags)
    }

    /// Appends the record, without a newline, to `out`.
    pub fn write(&self, out: &mut Vec<u8>)
        ensures
            final(out)@ == old(out)@ + self.encoding(),
    {
        let ghost start = out@;
        append(out, self.name);
        out.push(COLON);
        let ghost mut acc = self.name@ + seq![COLON];
        assert(out@ =~= start + acc);
        write_values(out, &self.values);
        proof {
            lemma_regroup(start, acc, values_text(self.values@));
            acc = acc + values_text(self.values@);
        }
        out.push(PIPE);
        proof {
            assert(out@ =~= start + acc + seq![PIPE]);
            lemma_regroup(start, acc, seq![PIPE]);
            acc = acc + seq![PIPE];
        }
        self.kind.write(out);
        proof {
            lemma_regroup(start, acc, self.kind.text());
            acc = acc + self.kind.text();
        }
        write_tag_section(out, self.tags);
        proof {
            lemma_regroup(start, acc, tag_section(self.tags));
        }
    }
}

/// The record of a metric whose name and tags are made of letters and
/// digits is one line of printable ASCII.
pub proof fn lemma_metric_is_line(metric: Metric)
    requires
        metric.plain(),
    ensures
        is_line(metric.encoding()),
{
    lemma_alphanumeric_is_line(metric.name@);
    lemma_values_are_line(metric.values@);
    lemma_tag_section_is_line(metric.tags);
    let a = metric.name@ + seq![COLON];
    let b = a + values_text(metric.values@);
    let c = b + seq![PIPE];
    let d = c + metric.kind.text();
    lemma_line_of_parts(metric.name@, seq![COLON]);
    lemma_line_of_parts(a, values_text(metric.values@));
    lemma_line_of_parts(b, seq![PIPE]);
    lemma_line_of_parts(c, metric.kind.text());
    lemma_line_of_parts(d, tag_section(metric.tags));
}

/// A metric name with its kind and tags: what many records of one series
/// share.
#[derive(Debug)]
pub struct Context {
    /// The name.
    pub name: Vec<u8>,
    /// The kind.
    pub kind: MetricKind,
    /// Which tag set of the generator's pool goes with it, if any.
    pub tagset: Option<usize>,
}

/// Draws metrics from a pool of contexts.
#[derive(Debug)]
pub struct MetricGenerator {
    /// The contexts.
    pub contexts: Vec<Context>,
    /// The tag sets the contexts point into.
    pub tagsets: Tagsets,
    /// How many values a packed record holds: at least `start`, fewer than
    /// `end`.
    pub multivalue_cnt_range: Range<usize>,
    /// How often a record is packed, in parts of a million.
    pub multivalue_pack_probability: u32,
    /// Where the values come from.
    pub values: NumValueGenerator,
}

/// The length of a metric is that of its parts: the name, the values, the
/// tags, and at most four bytes between them.
pub proof fn lemma_metric_parts_length(metric: Metric)
    ensures
        metric.encoding().len() <= 4 + metric.name@.len() + values_text(metric.values@).len()
            + tag_section(metric.tags).len(),
{
    assert(metric.kind.text().len() <= 2);
}

/// Whether a metric is packed, given a draw out of a million parts and the
/// packing probability in such parts: the draws below the probability pack.
pub fn packs(draw: usize, probability: u32) -> (r: bool)
    ensures
        r == (draw < probability),
{
    draw < probability as usize
}

impl MetricGenerator {
    /// The pools are within bounds: names of up to 8 bytes, and tag sets of
    /// fewer than `tags_below` tags with keys and values of up to 36 bytes.
    pub open spec fn bounded(self, tags_below: usize) -> bool {
        &&& forall|i: int|
            0 <= i < self.contexts@.len() ==> is_word((#[trigger] self.contexts@[i]).name@, 8)
        &&& tagsets_within(self.tagsets@, tags_below, 36)
    }

    /// The length of a metric: with its pools within bounds, no metric that
    /// the generator draws is longer than 14 bytes, 21 for each value that
    /// a packed metric may have, and 74 for each tag.
    pub proof fn lemma_metric_length(self, metric: Metric, tags_below: usize)
        requires
            self.wf(),
            self.bounded(tags_below),
            self.yields(metric),
        ensures
            metric.encoding().len() <= 14 + 21 * self.multivalue_cnt_range.end + 74 * tags_below,
    {
        let i = choose|i: int|
            0 <= i < self.contexts@.len() && self.from_context(#[trigger] self.contexts@[i], metric);
        let context = self.contexts@[i];
        assert(is_word(context.name@, 8));
        assert(maybe_drawn_from(self.tagsets@, metric.tags)) by {
            if let Some(t) = context.tagset {
                assert(self.tagsets@[t as int] == *metric.tags->Some_0);
            }
        }
        lemma_drawn_tags_length(self.tagsets@, metric.tags, tags_below, 36);
        assert(tags_below * (2 * 36 + 2) == 74 * tags_below) by (nonlinear_arith);
        lemma_values_length(metric.values@);
        lemma_metric_parts_length(metric);
    }

    /// There is a context to draw, every context has a name of letters and
    /// digits and points at a tag set that exists, the tags are made of
    /// letters and digits, a packed record holds at least one value, and the
    /// value range is not empty.
    pub open spec fn wf(self) -> bool {
        &&& self.contexts@.len() > 0
        &&& forall|i: int|
            0 <= i < self.contexts@.len() ==> (#[trigger] self.contexts@[i].tagset matches Some(t)
                ==> t < self.tagsets@.len())
        &&& forall|i: int|
            0 <= i < self.contexts@.len() ==> is_alphanumeric((#[trigger] self.contexts@[i]).name@)
        &&& plain_tagsets(self.tagsets@)
        &&& 0 < self.multivalue_cnt_range.start < self.multivalue_cnt_range.end
        &&& self.values.wf()
    }

    /// The context `c` is the one the metric was drawn from.
    pub open spec fn from_context(self, c: Context, metric: Metric) -> bool {
        &&& *metric.name == c.name
        &&& metric.kind == c.kind
        &&& match c.tagset {
            Some(t) => metric.tags == Some(&self.tagsets@[t as int]),
            None => metric.tags is None,
        }
    }

    /// What holds of every metric this generator draws: it comes from one
    /// of the contexts, its name and tags are made of letters and digits,
    /// and it has either one value or a number of them in the packing range,
    /// each from the value range. With a packing probability of zero it has
    /// one value, with one of a million parts or more it is packed.
    pub open spec fn yields(self, metric: Metric) -> bool {
        &&& metric.plain()
        &&& exists|i: int|
            0 <= i < self.contexts@.len() && self.from_context(#[trigger] self.contexts@[i], metric)
        &&& metric.values@.len() == 1 || self.multivalue_cnt_range.start <= metric.values@.len()
            < self.multivalue_cnt_range.end
        &&& self.multivalue_pack_probability == 0 ==> metric.values@.len() == 1
        &&& self.multivalue_pack_probability >= PARTS ==> self.multivalue_cnt_range.start
            <= metric.values@.len() < self.multivalue_cnt_range.end
        &&& forall|i: int|
            0 <= i < metric.values@.len() ==> self.values.yields(#[trigger] metric.values@[i])
    }

    /// Builds `num_contexts` contexts. Each takes a name from
    /// `small_strings`, a kind drawn by `metric_weights`, and one of the tag
    /// sets, if there are any.
    pub fn new(
        num_contexts: usize,
        multivalue_cnt_range: Range<usize>,
        multivalue_pack_probability: u32,
        metric_weights: &WeightedChoice,
        small_strings: Vec<Vec<u8>>,
        tagsets: Tagsets,
        rng: &mut StdRng,
    ) -> (r: Self)
        requires
            num_contexts > 0,
            0 < multivalue_cnt_range.start < multivalue_cnt_range.end,
            weights_of(*metric_weights).len() == 6,
            small_strings@.len() > 0,
            plain_words(small_strings@),
            plain_tagsets(tagsets@),
        ensures
            r.wf(),
            r.contexts@.len() == num_contexts,
            r.tagsets == tagsets,
            r.multivalue_cnt_range == multivalue_cnt_range,
            r.multivalue_pack_probability == multivalue_pack_probability,
            forall|i: int|
                0 <= i < r.contexts@.len() ==> {
                    &&& drawn_from(small_strings@.map_values(|w: Vec<u8>| w@), (
                    #[trigger] r.contexts@[i]).name@)
                    &&& weights_of(*metric_weights)[r.contexts@[i].kind.index()] > 0
                },
    {
        let mut contexts: Vec<Context> = Vec::new();
        let mut i: usize = 0;
        while i < num_contexts
            invariant
                i <= num_contexts,
                contexts@.len() == i,
                weights_of(*metric_weights).len() == 6,
                small_strings@.len() > 0,
                plain_words(small_strings@),
                forall|k: int|
                    0 <= k < contexts@.len() ==> is_alphanumeric((#[trigger] contexts@[k]).name@),
                forall|k: int|
                    0 <= k < contexts@.len() ==> {
                        &&& (#[trigger] contexts@[k]).tagset matches Some(t) ==> t
                            < tagsets@.len()
                        &&& drawn_from(small_strings@.map_values(|w: Vec<u8>| w@), contexts@[k].name@)
                        &&& weights_of(*metric_weights)[contexts@[k].kind.index()] > 0
                    },
            decreases num_contexts - i,
        {
            let picked = match choose_from(rng, &small_strings) {
                Some(n) => n,
                None => &small_strings[0],
            };
            let name = copy_of(picked);
            proof {
                let views = small_strings@.map_values(|w: Vec<u8>| w@);
                let at = choose|at: int|
                    0 <= at < small_strings@.len() && small_strings@[at] == *picked;
                assert(views[at] == name@);
                assert(is_alphanumeric(small_strings@[at]@));
            }
            let kind = MetricKind::from_index(sample_weighted(metric_weights, rng));
            let tagset = if tagsets.len() > 0 {
                Some(gen_range_usize(rng, 0, tagsets.len()))
            } else {
                None
            };
            contexts.push(Context { name, kind, tagset });
            i += 1;
        }
        MetricGenerator {
            contexts,
            tagsets,
            multivalue_cnt_range,
            multivalue_pack_probability,
            values: NumValueGenerator::Uniform { min: i64::MIN, max: i64::MAX },
        }
    }

    /// Draws one metric: a context, then whether to pack, then the values.
    /// The metric is packed exactly if a draw out of a million parts falls
    /// below the packing probability: see [`packs`].
    pub fn generate<'a>(&'a self, rng: &mut StdRng) -> (metric: Metric<'a>)
        requires
            self.wf(),
        ensures
            self.yields(metric),
    {
        let at: usize = gen_range_usize(rng, 0, self.contexts.len());
        let context = &self.contexts[at];
        let packed: bool = packs(
            gen_range_usize(rng, 0, PARTS as usize),
            self.multivalue_pack_probability,
        );
        let count: usize = if packed {
            gen_range_usize(rng, self.multivalue_cnt_range.start, self.multivalue_cnt_range.end)
        } else {
            1
        };
        let mut values: Vec<i64> = Vec::new();
        let mut i: usize = 0;
        while i < count
            invariant
                self.values.wf(),
                i <= count,
                values@.len() == i,
                forall|k: int| 0 <= k < values@.len() ==> self.values.yields(#[trigger] values@[k]),
            decreases count - i,
        {
            values.push(self.values.generate(rng));
            i += 1;
        }
        let tags = match context.tagset {
            Some(t) => Some(&self.tagsets[t]),
            None => None,
        };
        let metric = Metric { name: &context.name, values, kind: context.kind, tags };
        assert(self.from_context(self.contexts@[at as int], metric));
        assert(is_alphanumeric(self.contexts@[at as int].name@));
        proof {
            if let Some(t) = context.tagset {
                assert(plain_tags(self.tagsets@[t as int]@));
            }
        }
        metric
    }
}

} // verus!
