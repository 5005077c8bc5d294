//! What the record kinds share: random words, optional picks and numeric
//! values.

use crate::rng::choose_from;
use crate::rng::gen_bool;
use crate::rng::gen_range_i64;
use crate::rng::gen_range_usize;
use crate::payload::dogstatsd::common::tags::lemma_tags_are_line;
use crate::payload::dogstatsd::common::tags::tags_text;
use crate::payload::dogstatsd::common::tags::plain_tags;
use crate::payload::dogstatsd::common::tags::write_tags;
use crate::payload::dogstatsd::common::tags::Tagset;
use crate::text::alphabet_byte;
use crate::text::append;
use crate::text::copy_of;
use crate::text::is_line;
use crate::text::lemma_line_of_parts;
use crate::text::digits;
use crate::text::is_alphanumeric;
use crate::text::push_u64;
use crate::text::COLON;
use crate::text::HASH;
use crate::text::PIPE;
use rand::rngs::StdRng;
use std::ops::Range;
use vstd::prelude::*;

pub mod tags;

verus! {

/// A word: between one and `max_length` ASCII letters and digits.
pub open spec fn is_word(s: Seq<u8>, max_length: u16) -> bool {
    1 <= s.len() <= max_length && is_alphanumeric(s)
}

/// Every entry of the pool is a word of at most `max_length` bytes.
pub open spec fn all_words(pool: Seq<Vec<u8>>, max_length: u16) -> bool {
    forall|i: int| 0 <= i < pool.len() ==> is_word((#[trigger] pool[i])@, max_length)
}

/// A copy of the pool: the same words in the same order.
pub fn copy_words(pool: &Vec<Vec<u8>>) -> (r: Vec<Vec<u8>>)
    ensures
        r@.len() == pool@.len(),
        forall|i: int| 0 <= i < r@.len() ==> (#[trigger] r@[i])@ == pool@[i]@,
{
    let mut r: Vec<Vec<u8>> = Vec::new();
    let mut i: usize = 0;
    while i < pool.len()
        invariant
            i <= pool.len(),
            r@.len() == i,
            forall|k: int| 0 <= k < r@.len() ==> (#[trigger] r@[k])@ == pool@[k]@,
        decreases pool.len() - i,
    {
        r.push(copy_of(&pool[i]));
        i += 1;
    }
    r
}

/// Every entry of the pool is made of letters and digits.
pub open spec fn plain_words(pool: Seq<Vec<u8>>) -> bool {
    forall|i: int| 0 <= i < pool.len() ==> is_alphanumeric((#[trigger] pool[i])@)
}

/// A pool of words is made of letters and digits, and so is a copy of it,
/// whose words are no longer.
pub proof fn lemma_words_are_plain(pool: Seq<Vec<u8>>, copy: Seq<Vec<u8>>, max_length: u16)
    requires
        all_words(pool, max_length),
        copy.len() == pool.len(),
        forall|i: int| 0 <= i < copy.len() ==> (#[trigger] copy[i])@ == pool[i]@,
    ensures
        plain_words(pool),
        plain_words(copy),
        all_words(copy, max_length),
{
    assert forall|i: int| 0 <= i < copy.len() implies is_word((#[trigger] copy[i])@, max_length) by {
        assert(is_word(pool[i]@, max_length));
    }
    assert forall|i: int| 0 <= i < pool.len() implies is_alphanumeric((#[trigger] pool[i])@) by {
        assert(is_word(pool[i]@, max_length));
    }
    assert forall|i: int| 0 <= i < copy.len() implies is_alphanumeric((#[trigger] copy[i])@) by {
        assert(is_word(pool[i]@, max_length));
    }
}

/// Draws a word of at most `max_length` bytes.
pub fn random_ascii(rng: &mut StdRng, max_length: u16) -> (word: Vec<u8>)
    requires
        max_length >= 1,
    ensures
        is_word(word@, max_length),
{
    let length: usize = gen_range_usize(rng, 1, max_length as usize + 1);
    let mut word: Vec<u8> = Vec::new();
    let mut i: usize = 0;
    while i < length
        invariant
            i <= length,
            word@.len() == i,
            is_alphanumeric(word@),
        decreases length - i,
    {
        let pick: usize = gen_range_usize(rng, 0, 62);
        word.push(alphabet_byte(pick));
        i += 1;
    }
    word
}

/// Draws `total` words of at most `max_length` bytes each.
pub fn random_strings(total: usize, max_length: u16, rng: &mut StdRng) -> (pool: Vec<Vec<u8>>)
    requires
        max_length >= 1,
    ensures
        pool@.len() == total,
        all_words(pool@, max_length),
{
    let mut pool: Vec<Vec<u8>> = Vec::new();
    let mut i: usize = 0;
    while i < total
        invariant
            max_length >= 1,
            i <= total,
            pool@.len() == i,
            all_words(pool@, max_length),
        decreases total - i,
    {
        pool.push(random_ascii(rng, max_length));
        i += 1;
    }
    pool
}

/// Draws a number of words that is at least `min_max.start` and below
/// `min_max.end`, each of at most `max_length` bytes.
pub fn random_strings_with_length(min_max: Range<usize>, max_length: u16, rng: &mut StdRng) -> (pool:
    Vec<Vec<u8>>)
    requires
        min_max.start < min_max.end,
        max_length >= 1,
    ensures
        min_max.start <= pool@.len() < min_max.end,
        all_words(pool@, max_length),
{
    let total: usize = gen_range_usize(rng, min_max.start, min_max.end);
    random_strings(total, max_length, rng)
}

/// Flips a coin, and on one side picks an element of the pool. `None` comes
/// from the other side of the coin or from an empty pool: an empty pool
/// always gives `None`, and whether a pool with elements gives one of them
/// lies with the coin. What each side of the coin leads to is said by
/// [`choose_when`].
pub fn choose_or_not<'a, T>(rng: &mut StdRng, pool: &'a Vec<T>) -> (r: Option<&'a T>)
    ensures
        pool@.len() == 0 ==> r is None,
        r matches Some(item) ==> exists|i: int| 0 <= i < pool@.len() && pool@[i] == *item,
{
    let heads: bool = gen_bool(rng);
    choose_when(heads, rng, pool)
}

/// What a coin that has been flipped makes of the pool: on tails nothing,
/// on heads an element of the pool, if it has one. So there is an element
/// exactly on heads with a pool that is not empty.
pub fn choose_when<'a, T>(heads: bool, rng: &mut StdRng, pool: &'a Vec<T>) -> (r: Option<&'a T>)
    ensures
        r is Some <==> heads && pool@.len() > 0,
        r matches Some(item) ==> exists|i: int| 0 <= i < pool@.len() && pool@[i] == *item,
{
    if heads {
        choose_from(rng, pool)
    } else {
        None
    }
}

/// An optional field of a record: a bar, the field's letter, a colon and the
/// body. An absent field is no text at all.
pub open spec fn field(letter: u8, body: Option<Seq<u8>>) -> Seq<u8> {
    match body {
        Some(b) => seq![PIPE, letter, COLON] + b,
        None => Seq::empty(),
    }
}

/// The view of an optional word.
pub open spec fn word_view(word: Option<&Vec<u8>>) -> Option<Seq<u8>> {
    match word {
        Some(w) => Some(w@),
        None => None,
    }
}

/// The digits of an optional number.
pub open spec fn number_view(number: Option<u32>) -> Option<Seq<u8>> {
    match number {
        Some(n) => Some(digits(n as nat)),
        None => None,
    }
}

/// The tag section of a record: a bar, a hash and the tags. Without tags,
/// or with an empty set of them, there is no section.
pub open spec fn tag_section(tags: Option<&Tagset>) -> Seq<u8> {
    match tags {
        Some(t) => if t@.len() > 0 {
            seq![PIPE, HASH] + tags_text(t@)
        } else {
            Seq::empty()
        },
        None => Seq::empty(),
    }
}

/// A field with a printable letter and a body that is part of a line is part
/// of a line, and so is an absent field.
pub proof fn lemma_field_is_line(letter: u8, body: Option<Seq<u8>>)
    requires
        32 <= letter < 127,
        body matches Some(b) ==> is_line(b),
    ensures
        is_line(field(letter, body)),
{
    if let Some(b) = body {
        lemma_line_of_parts(seq![PIPE, letter, COLON], b);
    }
}

/// The tag section of tags made of letters and digits is part of a line.
pub proof fn lemma_tag_section_is_line(tags: Option<&Tagset>)
    requires
        tags matches Some(t) ==> plain_tags(t@),
    ensures
        is_line(tag_section(tags)),
{
    if let Some(t) = tags {
        if t@.len() > 0 {
            lemma_tags_are_line(t@);
            lemma_line_of_parts(seq![PIPE, HASH], tags_text(t@));
        }
    }
}

/// An optional word is made of letters and digits.
pub open spec fn plain_word(word: Option<&Vec<u8>>) -> bool {
    word matches Some(w) ==> is_alphanumeric(w@)
}

/// A field whose body is a word of letters and digits is part of a line.
pub proof fn lemma_word_field_is_line(letter: u8, word: Option<&Vec<u8>>)
    requires
        32 <= letter < 127,
        plain_word(word),
    ensures
        is_line(field(letter, word_view(word))),
{
    if let Some(w) = word {
        crate::text::lemma_alphanumeric_is_line(w@);
    }
    lemma_field_is_line(letter, word_view(word));
}

/// A field whose body is a number is part of a line.
pub proof fn lemma_number_field_is_line(letter: u8, number: Option<u32>)
    requires
        32 <= letter < 127,
    ensures
        is_line(field(letter, number_view(number))),
{
    if let Some(n) = number {
        crate::text::lemma_decimal_is_line(n as int);
    }
    lemma_field_is_line(letter, number_view(number));
}

/// Concatenation may be regrouped.
pub proof fn lemma_regroup(a: Seq<u8>, b: Seq<u8>, c: Seq<u8>)
    ensures
        (a + b) + c == a + (b + c),
{
    assert((a + b) + c =~= a + (b + c));
}

/// Appends an optional word as the field `letter`.
pub fn write_word_field(out: &mut Vec<u8>, letter: u8, word: Option<&Vec<u8>>)
    ensures
        final(out)@ == old(out)@ + field(letter, word_view(word)),
{
    match word {
        Some(w) => {
            out.push(PIPE);
            out.push(letter);
            out.push(COLON);
            append(out, w);
            assert(out@ =~= old(out)@ + (seq![PIPE, letter, COLON] + w@));
        },
        None => {
            assert(out@ =~= old(out)@ + Seq::<u8>::empty());
        },
    }
}

/// Appends an optional number, in decimal, as the field `letter`.
pub fn write_number_field(out: &mut Vec<u8>, letter: u8, number: Option<u32>)
    ensures
        final(out)@ == old(out)@ + field(letter, number_view(number)),
{
    match number {
        Some(n) => {
            out.push(PIPE);
            out.push(letter);
            out.push(COLON);
            push_u64(out, n as u64);
            assert(out@ =~= old(out)@ + (seq![PIPE, letter, COLON] + digits(n as nat)));
        },
        None => {
            assert(out@ =~= old(out)@ + Seq::<u8>::empty());
        },
    }
}

/// Appends the tag section.
pub fn write_tag_section(out: &mut Vec<u8>, tags: Option<&Tagset>)
    ensures
        final(out)@ == old(out)@ + tag_section(tags),
{
    match tags {
        Some(t) => {
            if t.len() > 0 {
                out.push(PIPE);
                out.push(HASH);
                write_tags(out, t);
                assert(out@ =~= old(out)@ + (seq![PIPE, HASH] + tags_text(t@)));
            } else {
                assert(out@ =~= old(out)@ + Seq::<u8>::empty());
            }
        },
        None => {
            assert(out@ =~= old(out)@ + Seq::<u8>::empty());
        },
    }
}

/// The range a numeric value is drawn from.
#[derive(Debug, Clone, Copy, PartialEq, Eq, Structural)]
pub enum ValueRange {
    /// Always this value.
    Constant(i64),
    /// Any value from `min` to `max`, both included.
    Inclusive {
        /// The least value.
        min: i64,
        /// The greatest value.
        max: i64,
    },
}

/// How numeric values are drawn.
#[derive(Debug, Clone, Copy, PartialEq, Eq, Structural)]
pub struct ValueConf {
    /// The range of the values.
    pub range: ValueRange,
}

/// Draws numeric values.
#[derive(Debug, Clone, Copy, PartialEq, Eq, Structural)]
pub enum NumValueGenerator {
    /// Always yields `value`.
    Constant {
        /// The value.
        value: i64,
    },
    /// Yields any value from `min` to `max`.
    Uniform {
        /// The least value.
        min: i64,
        /// The greatest value.
        max: i64,
    },
}

impl NumValueGenerator {
    /// A uniform range is not empty.
    pub open spec fn wf(self) -> bool {
        self matches NumValueGenerator::Uniform { min, max } ==> min <= max
    }

    /// `v` is a value this generator may yield.
    pub open spec fn yields(self, v: i64) -> bool {
        match self {
            NumValueGenerator::Constant { value } => v == value,
            NumValueGenerator::Uniform { min, max } => min <= v <= max,
        }
    }

    /// The generator for a configured range.
    pub fn new(conf: ValueConf) -> (r: Self)
        ensures
            r == match conf.range {
                ValueRange::Constant(c) => NumValueGenerator::Constant { value: c },
                ValueRange::Inclusive { min, max } => NumValueGenerator::Uniform { min, max },
            },
    {
        match conf.range {
            ValueRange::Constant(c) => NumValueGenerator::Constant { value: c },
            ValueRange::Inclusive { min, max } => NumValueGenerator::Uniform { min, max },
        }
    }

    /// Draws one value.
    pub fn generate(&self, rng: &mut StdRng) -> (v: i64)
        requires
            self.wf(),
        ensures
            self.yields(v),
    {
        match self {
            NumValueGenerator::Constant { value } => *value,
            NumValueGenerator::Uniform { min, max } => gen_range_i64(rng, *min, *max),
        }
    }
}

} // verus!
