//! Tags: `key:value` pairs attached to a record.

use crate::payload::dogstatsd::common::is_word;
use crate::text::is_alphanumeric;
use crate::payload::dogstatsd::common::random_ascii;
use crate::rng::gen_range_usize;
use crate::text::append;
use crate::text::copy_of;
use crate::text::is_line;
use crate::text::lemma_alphanumeric_is_line;
use crate::text::lemma_line_of_parts;
use crate::text::COLON;
use crate::text::COMMA;
use rand::rngs::StdRng;
use std::ops::Range;
use vstd::prelude::*;

verus! {

/// One tag.
#[derive(Debug, Clone)]
pub struct Tag {
    /// What the tag is about.
    pub key: Vec<u8>,
    /// What it says.
    pub value: Vec<u8>,
}

/// The tags of one record.
pub type Tagset = Vec<Tag>;

/// A pool of tag sets to draw from.
pub type Tagsets = Vec<Tagset>;

/// The wire text of one tag: key, colon, value.
pub open spec fn tag_text(tag: Tag) -> Seq<u8> {
    tag.key@ + seq![COLON] + tag.value@
}

/// The wire text of a list of tags: the tags, parted by commas.
pub open spec fn tags_text(tags: Seq<Tag>) -> Seq<u8>
    decreases tags.len(),
{
    if tags.len() == 0 {
        Seq::empty()
    } else if tags.len() == 1 {
        tag_text(tags[0])
    } else {
        tags_text(tags.drop_last()) + seq![COMMA] + tag_text(tags.last())
    }
}

/// Key and value of the tag are words of at most `max_length` bytes.
pub open spec fn tag_wf(tag: Tag, max_length: u16) -> bool {
    is_word(tag.key@, max_length) && is_word(tag.value@, max_length)
}

/// Every tag of the set is well formed.
pub open spec fn tagset_wf(tags: Seq<Tag>, max_length: u16) -> bool {
    forall|i: int| 0 <= i < tags.len() ==> tag_wf(#[trigger] tags[i], max_length)
}

/// Every set of the pool has fewer than `count_below` tags, each of them
/// well formed.
pub open spec fn tagsets_within(pool: Seq<Tagset>, count_below: usize, max_length: u16) -> bool {
    forall|i: int|
        0 <= i < pool.len() ==> (#[trigger] pool[i])@.len() < count_below && tagset_wf(
            pool[i]@,
            max_length,
        )
}

/// The two lists hold the same tags: as many, with the same keys and
/// values.
pub open spec fn same_tags(a: Seq<Tag>, b: Seq<Tag>) -> bool {
    &&& a.len() == b.len()
    &&& forall|j: int|
        0 <= j < a.len() ==> (#[trigger] a[j]).key@ == b[j].key@ && a[j].value@ == b[j].value@
}

/// The length of the text of tags: well-formed tags take no more than
/// twice their longest word and two bytes each, for the colon and the
/// comma.
pub proof fn lemma_tags_length(tags: Seq<Tag>, max_length: u16)
    requires
        tagset_wf(tags, max_length),
    ensures
        tags_text(tags).len() <= tags.len() * (2 * max_length + 2),
    decreases tags.len(),
{
    let each = 2 * max_length + 2;
    if tags.len() > 0 {
        let last = tags.last();
        assert(tag_wf(tags[tags.len() - 1], max_length));
        assert(tag_text(last).len() == last.key@.len() + 1 + last.value@.len());
        if tags.len() > 1 {
            let front = tags.drop_last();
            assert forall|i: int| 0 <= i < front.len() implies tag_wf(
                #[trigger] front[i],
                max_length,
            ) by {
                assert(front[i] == tags[i]);
            }
            lemma_tags_length(front, max_length);
            assert(front.len() * each + each == tags.len() * each) by (nonlinear_arith)
                requires
                    front.len() + 1 == tags.len(),
            ;
        } else {
            assert(tags[0] == last);
            assert(tags.len() * each == each) by (nonlinear_arith)
                requires
                    tags.len() == 1,
            ;
        }
    } else {
        assert(tags.len() * each == 0) by (nonlinear_arith)
            requires
                tags.len() == 0,
        ;
    }
}

/// A pool within bounds stays within them when copied tag by tag.
pub proof fn lemma_same_tags_within(
    pool: Seq<Tagset>,
    copy: Seq<Tagset>,
    count_below: usize,
    max_length: u16,
)
    requires
        tagsets_within(pool, count_below, max_length),
        copy.len() == pool.len(),
        forall|i: int| 0 <= i < copy.len() ==> same_tags((#[trigger] copy[i])@, pool[i]@),
    ensures
        tagsets_within(copy, count_below, max_length),
{
    assert forall|i: int| 0 <= i < copy.len() implies (#[trigger] copy[i])@.len() < count_below
        && tagset_wf(copy[i]@, max_length) by {
        assert(same_tags(copy[i]@, pool[i]@));
        assert(tagset_wf(pool[i]@, max_length));
        assert forall|j: int| 0 <= j < copy[i]@.len() implies tag_wf(
            #[trigger] copy[i]@[j],
            max_length,
        ) by {
            assert(tag_wf(pool[i]@[j], max_length));
        }
    }
}

/// Keys and values of the tags are made of letters and digits.
pub open spec fn plain_tags(tags: Seq<Tag>) -> bool {
    forall|i: int|
        0 <= i < tags.len() ==> is_alphanumeric((#[trigger] tags[i]).key@) && is_alphanumeric(
            tags[i].value@,
        )
}

/// Every set of the pool has tags made of letters and digits.
pub open spec fn plain_tagsets(pool: Seq<Tagset>) -> bool {
    forall|i: int| 0 <= i < pool.len() ==> plain_tags((#[trigger] pool[i])@)
}

/// The text of tags made of letters and digits is part of a line.
pub proof fn lemma_tags_are_line(tags: Seq<Tag>)
    requires
        plain_tags(tags),
    ensures
        is_line(tags_text(tags)),
    decreases tags.len(),
{
    if tags.len() > 0 {
        let last = tags.last();
        assert(is_alphanumeric(tags[tags.len() - 1].key@));
        lemma_alphanumeric_is_line(last.key@);
        lemma_alphanumeric_is_line(last.value@);
        lemma_line_of_parts(last.key@, seq![COLON]);
        lemma_line_of_parts(last.key@ + seq![COLON], last.value@);
        if tags.len() > 1 {
            let front = tags.drop_last();
            assert forall|i: int| 0 <= i < front.len() implies is_alphanumeric(
                (#[trigger] front[i]).key@,
            ) && is_alphanumeric(front[i].value@) by {
                assert(front[i] == tags[i]);
            }
            lemma_tags_are_line(front);
            lemma_line_of_parts(tags_text(front), seq![COMMA]);
            lemma_line_of_parts(tags_text(front) + seq![COMMA], tag_text(last));
        }
    }
}

/// A copy of the pool: the same tags in the same sets.
pub fn copy_tagsets(pool: &Tagsets) -> (r: Tagsets)
    requires
        plain_tagsets(pool@),
    ensures
        r@.len() == pool@.len(),
        plain_tagsets(r@),
        forall|i: int| 0 <= i < r@.len() ==> (#[trigger] r@[i])@.len() == pool@[i]@.len(),
        forall|i: int| 0 <= i < r@.len() ==> same_tags((#[trigger] r@[i])@, pool@[i]@),
{
    let mut r: Tagsets = Vec::new();
    let mut i: usize = 0;
    while i < pool.len()
        invariant
            i <= pool.len(),
            r@.len() == i,
            plain_tagsets(pool@),
            plain_tagsets(r@),
            forall|k: int| 0 <= k < r@.len() ==> (#[trigger] r@[k])@.len() == pool@[k]@.len(),
            forall|k: int| 0 <= k < r@.len() ==> same_tags((#[trigger] r@[k])@, pool@[k]@),
        decreases pool.len() - i,
    {
        let tags = &pool[i];
        assert(plain_tags(pool@[i as int]@));
        let mut copy: Tagset = Vec::new();
        let mut j: usize = 0;
        while j < tags.len()
            invariant
                j <= tags.len(),
                copy@.len() == j,
                plain_tags(tags@),
                plain_tags(copy@),
                forall|k: int|
                    0 <= k < copy@.len() ==> (#[trigger] copy@[k]).key@ == tags@[k].key@
                        && copy@[k].value@ == tags@[k].value@,
            decreases tags.len() - j,
        {
            assert(is_alphanumeric(tags@[j as int].key@));
            copy.push(Tag { key: copy_of(&tags[j].key), value: copy_of(&tags[j].value) });
            j += 1;
        }
        r.push(copy);
        i += 1;
    }
    r
}

/// Appends the tags, parted by commas, to `out`.
pub fn write_tags(out: &mut Vec<u8>, tags: &Tagset)
    ensures
        final(out)@ == old(out)@ + tags_text(tags@),
{
    let mut i: usize = 0;
    assert(old(out)@ + tags_text(tags@.take(0)) == old(out)@);
    while i < tags.len()
        invariant
            i <= tags.len(),
            out@ == old(out)@ + tags_text(tags@.take(i as int)),
        decreases tags.len() - i,
    {
        let ghost before = out@;
        if i > 0 {
            out.push(COMMA);
        }
        append(out, &tags[i].key);
        out.push(COLON);
        append(out, &tags[i].value);
        proof {
            let done = tags@.take(i as int);
            let next = tags@.take(i + 1);
            assert(next.drop_last() == done);
            assert(next.last() == tags@[i as int]);
            if i == 0 {
                assert(out@ == before + tag_text(tags@[0]));
            } else {
                assert(out@ == before + (seq![COMMA] + tag_text(tags@[i as int])));
            }
        }
        i += 1;
    }
    assert(tags@.take(tags@.len() as int) == tags@);
}

/// Draws tag sets.
#[derive(Debug)]
pub struct Generator {
    /// How many tag sets to draw.
    pub num_tagsets: usize,
    /// How many tags a set may have: at least `start`, fewer than `end`.
    pub tags_per_msg_range: Range<usize>,
    /// The most bytes a key or a value may have.
    pub max_length: u16,
}

impl Generator {
    /// The ranges are not empty.
    pub open spec fn wf(self) -> bool {
        self.tags_per_msg_range.start < self.tags_per_msg_range.end && self.max_length >= 1
    }

    /// What holds of every pool this generator draws.
    pub open spec fn yields(self, pool: Seq<Tagset>) -> bool {
        &&& pool.len() == self.num_tagsets
        &&& plain_tagsets(pool)
        &&& forall|i: int|
            0 <= i < pool.len() ==> {
                &&& self.tags_per_msg_range.start <= (#[trigger] pool[i])@.len()
                    < self.tags_per_msg_range.end
                &&& tagset_wf(pool[i]@, self.max_length)
            }
    }

    /// Draws `num_tagsets` tag sets, each with a number of tags in
    /// `tags_per_msg_range`, each tag a pair of words.
    pub fn generate(&self, rng: &mut StdRng) -> (pool: Tagsets)
        requires
            self.wf(),
        ensures
            self.yields(pool@),
    {
        let mut pool: Tagsets = Vec::new();
        let mut i: usize = 0;
        while i < self.num_tagsets
            invariant
                self.wf(),
                i <= self.num_tagsets,
                pool@.len() == i,
                plain_tagsets(pool@),
                forall|k: int|
                    0 <= k < pool@.len() ==> {
                        &&& self.tags_per_msg_range.start <= (#[trigger] pool@[k])@.len()
                            < self.tags_per_msg_range.end
                        &&& tagset_wf(pool@[k]@, self.max_length)
                    },
            decreases self.num_tagsets - i,
        {
            let count: usize = gen_range_usize(
                rng,
                self.tags_per_msg_range.start,
                self.tags_per_msg_range.end,
            );
            let mut tags: Tagset = Vec::new();
            let mut j: usize = 0;
            while j < count
                invariant
                    self.max_length >= 1,
                    j <= count,
                    tags@.len() == j,
                    tagset_wf(tags@, self.max_length),
                decreases count - j,
            {
                let key = random_ascii(rng, self.max_length);
                let value = random_ascii(rng, self.max_length);
                tags.push(Tag { key, value });
                j += 1;
            }
            assert(plain_tags(tags@)) by {
                assert forall|k: int| 0 <= k < tags@.len() implies is_alphanumeric(
                    (#[trigger] tags@[k]).key@,
                ) && is_alphanumeric(tags@[k].value@) by {
                    assert(tag_wf(tags@[k], self.max_length));
                }
            }
            pool.push(tags);
            i += 1;
        }
        pool
    }
}

} // verus!
