//! Service checks: the state of a named service.

use crate::payload::dogstatsd::common::choose_or_not;
use crate::payload::dogstatsd::common::field;
use crate::payload::dogstatsd::common::lemma_number_field_is_line;
use crate::payload::dogstatsd::common::lemma_regroup;
use crate::payload::dogstatsd::common::lemma_tag_section_is_line;
use crate::payload::dogstatsd::common::lemma_word_field_is_line;
use crate::payload::dogstatsd::common::plain_word;
use crate::payload::dogstatsd::common::plain_words;
use crate::payload::dogstatsd::common::tags::plain_tags;
use crate::payload::dogstatsd::common::tags::plain_tagsets;
use crate::payload::dogstatsd::common::number_view;
use crate::payload::dogstatsd::common::tag_section;
use crate::payload::dogstatsd::common::tags::Tagset;
use crate::payload::dogstatsd::common::tags::Tagsets;
use crate::payload::dogstatsd::common::word_view;
use crate::payload::dogstatsd::common::write_number_field;
use crate::payload::dogstatsd::common::write_tag_section;
use crate::payload::dogstatsd::common::write_word_field;
use crate::payload::dogstatsd::event::drawn_from;
use crate::payload::dogstatsd::event::lemma_drawn_tags;
use crate::payload::dogstatsd::event::lemma_drawn_word;
use crate::payload::dogstatsd::common::all_words;
use crate::payload::dogstatsd::common::tags::tagsets_within;
use crate::payload::dogstatsd::event::lemma_drawn_tags_length;
use crate::payload::dogstatsd::event::lemma_drawn_word_length;
use crate::text::lemma_decimal_length;
use crate::payload::dogstatsd::event::maybe_drawn_from;
use crate::rng::choose_from;
use crate::rng::gen_bool;
use crate::rng::gen_range_usize;
use crate::rng::gen_u32;
use crate::text::append;
use crate::text::is_alphanumeric;
use crate::text::is_line;
use crate::text::lemma_alphanumeric_is_line;
use crate::text::lemma_line_of_parts;
use crate::text::PIPE;
use rand::rngs::StdRng;
use vstd::prelude::*;

verus! {

/// The state a check found its service in.
#[derive(Debug, Clone, Copy, PartialEq, Eq, Structural)]
pub enum Status {
    /// All is well.
    Okay,
    /// Not quite.
    Warning,
    /// Not at all.
    Critical,
    /// Nobody knows.
    Unknown,
}

impl Status {
    /// The digit that stands for the status on the wire: `0` to `3`, in the
    /// order of the variants.
    pub open spec fn digit(self) -> u8 {
        match self {
            Status::Okay => 48,
            Status::Warning => 49,
            Status::Critical => 50,
            Status::Unknown => 51,
        }
    }

    /// The digit that stands for the status on the wire.
    pub fn wire_digit(self) -> (d: u8)
        ensures
            d == self.digit(),
    {
        match self {
            Status::Okay => 48,
            Status::Warning => 49,
            Status::Critical => 50,
            Status::Unknown => 51,
        }
    }

    /// Draws a status: the status that one draw below four stands for.
    /// Which of the four it is lies with the draw.
    pub fn sample(rng: &mut StdRng) -> (s: Status)
        ensures
            exists|pick: usize| pick < 4 && s == #[trigger] Status::of_draw(pick),
    {
        let pick: usize = gen_range_usize(rng, 0, 4);
        Status::from_draw(pick)
    }

    /// The status that a draw stands for: the variants in their order for
    /// zero, one and two, and `Unknown` for all else.
    pub open spec fn of_draw(pick: usize) -> Status {
        if pick == 0 {
            Status::Okay
        } else if pick == 1 {
            Status::Warning
        } else if pick == 2 {
            Status::Critical
        } else {
            Status::Unknown
        }
    }

    /// The status that a draw stands for.
    pub fn from_draw(pick: usize) -> (s: Status)
        ensures
            s == Status::of_draw(pick),
    {
        if pick == 0 {
            Status::Okay
        } else if pick == 1 {
            Status::Warning
        } else if pick == 2 {
            Status::Critical
        } else {
            Status::Unknown
        }
    }
}

/// A service check. Its texts are borrowed from the generator that drew it.
#[derive(Debug)]
pub struct ServiceCheck<'a> {
    /// The service.
    pub name: &'a Vec<u8>,
    /// What state it is in.
    pub status: Status,
    /// When it was checked, in seconds.
    pub timestamp_second: Option<u32>,
    /// Where it was checked.
    pub hostname: Option<&'a Vec<u8>>,
    /// Its tags.
    pub tags: Option<&'a Tagset>,
    /// What the check has to say.
    pub message: Option<&'a Vec<u8>>,
}

impl<'a> ServiceCheck<'a> {
    /// The texts of the check are made of letters and digits.
    pub open spec fn plain(self) -> bool {
        &&& is_alphanumeric(self.name@)
        &&& plain_word(self.hostname)
        &&& plain_word(self.message)
        &&& self.tags matches Some(t) ==> plain_tags(t@)
    }

    /// The opening of the record: `_sc|`, the name, a bar and the status
    /// digit.
    pub open spec fn head(self) -> Seq<u8> {
        seq![95u8, 115, 99, PIPE] + self.name@ + seq![PIPE, self.status.digit()]
    }

    /// The record, without its newline: the head, then the fields that are
    /// present, in the order `d`, `h`, tags, `m`.
    pub open spec fn encoding(self) -> Seq<u8> {
        self.head() + field(100, number_view(self.timestamp_second)) + field(
            104,
            word_view(self.hostname),
        ) + tag_section(self.tags) + field(109, word_view(self.message))
    }

    /// Appends the record, without a newline, to `out`.
    pub fn write(&self, out: &mut Vec<u8>)
        ensures
            final(out)@ == old(out)@ + self.encoding(),
    {
        let ghost start = out@;
        out.push(95);
        out.push(115);
        out.push(99);
        out.push(PIPE);
        append(out, self.name);
        out.push(PIPE);
        out.push(self.status.wire_digit());
        assert(out@ =~= start + self.head());
        let ghost mut acc = self.head();
        write_number_field(out, 100, self.timestamp_second);
        proof {
            lemma_regroup(start, acc, field(100, number_view(self.timestamp_second)));
            acc = acc + field(100, number_view(self.timestamp_second));
        }
        write_word_field(out, 104, self.hostname);
        proof {
            lemma_regroup(start, acc, field(104, word_view(self.hostname)));
            acc = acc + field(104, word_view(self.hostname));
        }
        write_tag_section(out, self.tags);
        proof {
            lemma_regroup(start, acc, tag_section(self.tags));
            acc = acc + tag_section(self.tags);
        }
        write_word_field(out, 109, self.message);
        proof {
            lemma_regroup(start, acc, field(109, word_view(self.message)));
        }
    }
}

/// The record of a check whose texts are made of letters and digits is one
/// line of printable ASCII.
pub proof fn lemma_service_check_is_line(check: ServiceCheck)
    requires
        check.plain(),
    ensures
        is_line(check.encoding()),
{
    lemma_alphanumeric_is_line(check.name@);
    let a = seq![95u8, 115, 99, PIPE];
    lemma_line_of_parts(a, check.name@);
    lemma_line_of_parts(a + check.name@, seq![PIPE, check.status.digit()]);
    let h1 = check.head() + field(100, number_view(check.timestamp_second));
    let h2 = h1 + field(104, word_view(check.hostname));
    let h3 = h2 + tag_section(check.tags);
    lemma_number_field_is_line(100, check.timestamp_second);
    lemma_word_field_is_line(104, check.hostname);
    lemma_tag_section_is_line(check.tags);
    lemma_word_field_is_line(109, check.message);
    lemma_line_of_parts(check.head(), field(100, number_view(check.timestamp_second)));
    lemma_line_of_parts(h1, field(104, word_view(check.hostname)));
    lemma_line_of_parts(h2, tag_section(check.tags));
    lemma_line_of_parts(h3, field(109, word_view(check.message)));
}

/// Draws service checks from pools of texts.
#[derive(Debug)]
pub struct ServiceCheckGenerator {
    /// Service names.
    pub names: Vec<Vec<u8>>,
    /// Host names.
    pub small_strings: Vec<Vec<u8>>,
    /// Messages.
    pub texts_or_messages: Vec<Vec<u8>>,
    /// Tag sets.
    pub tagsets: Tagsets,
}

/// The length of a check is that of its parts: an opening of six bytes
/// and the name, a time of at most 13, and the two words and the tags as
/// they are.
pub proof fn lemma_service_check_parts_length(check: ServiceCheck)
    ensures
        check.encoding().len() <= 19 + check.name@.len() + field(
            104,
            word_view(check.hostname),
        ).len() + tag_section(check.tags).len() + field(109, word_view(check.message)).len(),
{
    if let Some(n) = check.timestamp_second {
        lemma_decimal_length(n as int);
    }
    assert(check.head().len() == 6 + check.name@.len());
    assert(field(100, number_view(check.timestamp_second)).len() <= 13);
}

impl ServiceCheckGenerator {
    /// The pools are within bounds: names of up to 64 bytes, messages of up
    /// to 1024, small strings of up to 8, and tag sets of fewer than
    /// `tags_below` tags with keys and values of up to 36 bytes.
    pub open spec fn bounded(self, tags_below: usize) -> bool {
        &&& all_words(self.names@, 64)
        &&& all_words(self.texts_or_messages@, 1024)
        &&& all_words(self.small_strings@, 8)
        &&& tagsets_within(self.tagsets@, tags_below, 36)
    }

    /// The length of a check: with its pools within bounds, no check that
    /// the generator draws is longer than 1123 bytes and 74 for each tag.
    pub proof fn lemma_service_check_length(self, check: ServiceCheck, tags_below: usize)
        requires
            self.bounded(tags_below),
            self.yields(check),
        ensures
            check.encoding().len() <= 1123 + 74 * tags_below,
    {
        lemma_drawn_word_length(self.names@, Some(check.name), 0, 64);
        lemma_drawn_word_length(self.small_strings@, check.hostname, 104, 8);
        lemma_drawn_word_length(self.texts_or_messages@, check.message, 109, 1024);
        lemma_drawn_tags_length(self.tagsets@, check.tags, tags_below, 36);
        assert(tags_below * (2 * 36 + 2) == 74 * tags_below) by (nonlinear_arith);
        lemma_service_check_parts_length(check);
    }

    /// There is a name to draw, and all texts of the pools are made of
    /// letters and digits.
    pub open spec fn wf(self) -> bool {
        &&& self.names@.len() > 0
        &&& plain_words(self.names@)
        &&& plain_words(self.small_strings@)
        &&& plain_words(self.texts_or_messages@)
        &&& plain_tagsets(self.tagsets@)
    }

    /// What holds of every check this generator draws: its parts come from
    /// the pools, and they are made of letters and digits.
    pub open spec fn yields(self, check: ServiceCheck) -> bool {
        &&& check.plain()
        &&& drawn_from(self.names@, *check.name)
        &&& maybe_drawn_from(self.small_strings@, check.hostname)
        &&& maybe_drawn_from(self.tagsets@, check.tags)
        &&& maybe_drawn_from(self.texts_or_messages@, check.message)
    }

    /// Draws one service check.
    pub fn generate<'a>(&'a self, rng: &mut StdRng) -> (check: ServiceCheck<'a>)
        requires
            self.wf(),
        ensures
            self.yields(check),
    {
        let name = match choose_from(rng, &self.names) {
            Some(n) => n,
            None => &self.names[0],
        };
        let hostname = choose_or_not(rng, &self.small_strings);
        let message = choose_or_not(rng, &self.texts_or_messages);
        let tags = choose_or_not(rng, &self.tagsets);
        let status = Status::sample(rng);
        let timestamp_second = if gen_bool(rng) {
            Some(gen_u32(rng))
        } else {
            None
        };
        proof {
            lemma_drawn_word(self.names@, Some(name));
            lemma_drawn_word(self.small_strings@, hostname);
            lemma_drawn_word(self.texts_or_messages@, message);
            lemma_drawn_tags(self.tagsets@, tags);
        }
        ServiceCheck { name, status, timestamp_second, hostname, tags, message }
    }
}

} // verus!
