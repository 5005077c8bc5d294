//! Events: free-form happenings, a little like syslog lines.

use crate::payload::dogstatsd::common::choose_or_not;
use crate::payload::dogstatsd::common::field;
use crate::payload::dogstatsd::common::lemma_field_is_line;
use crate::payload::dogstatsd::common::lemma_number_field_is_line;
use crate::payload::dogstatsd::common::lemma_regroup;
use crate::payload::dogstatsd::common::lemma_tag_section_is_line;
use crate::payload::dogstatsd::common::lemma_word_field_is_line;
use crate::payload::dogstatsd::common::plain_word;
use crate::payload::dogstatsd::common::plain_words;
use crate::payload::dogstatsd::common::tags::plain_tags;
use crate::payload::dogstatsd::common::tags::plain_tagsets;
use crate::payload::dogstatsd::common::number_view;
use crate::payload::dogstatsd::common::tag_section;
use crate::payload::dogstatsd::common::tags::Tagset;
use crate::payload::dogstatsd::common::tags::Tagsets;
use crate::payload::dogstatsd::common::word_view;
use crate::payload::dogstatsd::common::write_number_field;
use crate::payload::dogstatsd::common::write_tag_section;
use crate::payload::dogstatsd::common::write_word_field;
use crate::rng::choose_from;
use crate::rng::gen_bool;
use crate::rng::gen_range_usize;
use crate::rng::gen_u32;
use crate::text::append;
use crate::text::digits;
use crate::text::is_alphanumeric;
use crate::text::is_line;
use crate::payload::dogstatsd::common::all_words;
use crate::payload::dogstatsd::common::is_word;
use crate::payload::dogstatsd::common::tags::lemma_tags_length;
use crate::payload::dogstatsd::common::tags::tagset_wf;
use crate::payload::dogstatsd::common::tags::tagsets_within;
use crate::text::lemma_alphanumeric_is_line;
use crate::text::lemma_decimal_length;
use crate::text::lemma_decimal_is_line;
use crate::text::lemma_line_of_parts;
use crate::text::push_u64;
use crate::text::COLON;
use crate::text::COMMA;
use crate::text::PIPE;
use rand::rngs::StdRng;
use vstd::prelude::*;

verus! {

/// How urgent an event is.
#[derive(Debug, Clone, Copy, PartialEq, Eq, Structural)]
pub enum Priority {
    /// Nothing special.
    Normal,
    /// Less than that.
    Low,
}

/// What kind of news an event is.
#[derive(Debug, Clone, Copy, PartialEq, Eq, Structural)]
pub enum Alert {
    /// Something failed.
    Error,
    /// Something may fail.
    Warning,
    /// Something happened.
    Info,
    /// Something worked.
    Success,
}

impl Priority {
    /// The word for the priority: `normal` or `low`.
    pub open spec fn text(self) -> Seq<u8> {
        match self {
            Priority::Normal => seq![110u8, 111, 114, 109, 97, 108],
            Priority::Low => seq![108u8, 111, 119],
        }
    }

    /// The word for the priority.
    pub fn word(self) -> (w: Vec<u8>)
        ensures
            w@ == self.text(),
    {
        let w = match self {
            Priority::Normal => vec![110u8, 111, 114, 109, 97, 108],
            Priority::Low => vec![108u8, 111, 119],
        };
        assert(w@ =~= self.text());
        w
    }

    /// Draws a priority: the priority that one draw below two stands for.
    /// Which of the two it is lies with the draw.
    pub fn sample(rng: &mut StdRng) -> (p: Priority)
        ensures
            exists|pick: usize| pick < 2 && p == #[trigger] Priority::of_draw(pick),
    {
        let pick: usize = gen_range_usize(rng, 0, 2);
        Priority::from_draw(pick)
    }

    /// The priority that a draw stands for: zero for `Low`, all else for
    /// `Normal`.
    pub open spec fn of_draw(pick: usize) -> Priority {
        if pick == 0 {
            Priority::Low
        } else {
            Priority::Normal
        }
    }

    /// The priority that a draw stands for.
    pub fn from_draw(pick: usize) -> (p: Priority)
        ensures
            p == Priority::of_draw(pick),
    {
        if pick == 0 {
            Priority::Low
        } else {
            Priority::Normal
        }
    }
}

impl Alert {
    /// The word for the alert type: `error`, `warning`, `info` or `success`.
    pub open spec fn text(self) -> Seq<u8> {
        match self {
            Alert::Error => seq![101u8, 114, 114, 111, 114],
            Alert::Warning => seq![119u8, 97, 114, 110, 105, 110, 103],
            Alert::Info => seq![105u8, 110, 102, 111],
            Alert::Success => seq![115u8, 117, 99, 99, 101, 115, 115],
        }
    }

    /// The word for the alert type.
    pub fn word(self) -> (w: Vec<u8>)
        ensures
            w@ == self.text(),
    {
        let w = match self {
            Alert::Error => vec![101u8, 114, 114, 111, 114],
            Alert::Warning => vec![119u8, 97, 114, 110, 105, 110, 103],
            Alert::Info => vec![105u8, 110, 102, 111],
            Alert::Success => vec![115u8, 117, 99, 99, 101, 115, 115],
        };
        assert(w@ =~= self.text());
        w
    }

    /// Draws an alert type: the type that one draw below four stands for.
    /// Which of the four it is lies with the draw.
    pub fn sample(rng: &mut StdRng) -> (a: Alert)
        ensures
            exists|pick: usize| pick < 4 && a == #[trigger] Alert::of_draw(pick),
    {
        let pick: usize = gen_range_usize(rng, 0, 4);
        Alert::from_draw(pick)
    }

    /// The alert type that a draw stands for: the variants in their order
    /// for zero, one and two, and `Success` for all else.
    pub open spec fn of_draw(pick: usize) -> Alert {
        if pick == 0 {
            Alert::Error
        } else if pick == 1 {
            Alert::Warning
        } else if pick == 2 {
            Alert::Info
        } else {
            Alert::Success
        }
    }

    /// The alert type that a draw stands for.
    pub fn from_draw(pick: usize) -> (a: Alert)
        ensures
            a == Alert::of_draw(pick),
    {
        if pick == 0 {
            Alert::Error
        } else if pick == 1 {
            Alert::Warning
        } else if pick == 2 {
            Alert::Info
        } else {
            Alert::Success
        }
    }
}

/// The words of an optional priority.
pub open spec fn priority_view(priority: Option<Priority>) -> Option<Seq<u8>> {
    match priority {
        Some(p) => Some(p.text()),
        None => None,
    }
}

/// The words of an optional alert type.
pub open spec fn alert_view(alert: Option<Alert>) -> Option<Seq<u8>> {
    match alert {
        Some(a) => Some(a.text()),
        None => None,
    }
}

/// An event. Its texts are borrowed from the generator that drew it.
#[derive(Debug)]
pub struct Event<'a> {
    /// The headline.
    pub title: &'a Vec<u8>,
    /// The body.
    pub text: &'a Vec<u8>,
    /// The length of the headline as the record states it.
    pub title_utf8_length: usize,
    /// The length of the body as the record states it.
    pub text_utf8_length: usize,
    /// When it happened, in seconds.
    pub timestamp_second: Option<u32>,
    /// Where it happened.
    pub hostname: Option<&'a Vec<u8>>,
    /// What it is grouped by.
    pub aggregation_key: Option<&'a Vec<u8>>,
    /// How urgent it is.
    pub priority: Option<Priority>,
    /// What kind of source sent it.
    pub source_type_name: Option<&'a Vec<u8>>,
    /// What kind of news it is.
    pub alert_type: Option<Alert>,
    /// Its tags.
    pub tags: Option<&'a Tagset>,
}

impl<'a> Event<'a> {
    /// The stated lengths are the true ones.
    pub open spec fn wf(self) -> bool {
        self.title_utf8_length == self.title@.len() && self.text_utf8_length == self.text@.len()
    }

    /// The texts of the event are made of letters and digits.
    pub open spec fn plain(self) -> bool {
        &&& is_alphanumeric(self.title@)
        &&& is_alphanumeric(self.text@)
        &&& plain_word(self.hostname)
        &&& plain_word(self.aggregation_key)
        &&& plain_word(self.source_type_name)
        &&& self.tags matches Some(t) ==> plain_tags(t@)
    }

    /// The opening of the record: `_e{`, the two lengths parted by a comma,
    /// `}:`, the title, a bar and the text.
    pub open spec fn head(self) -> Seq<u8> {
        seq![95u8, 101, 123] + digits(self.title_utf8_length as nat) + seq![COMMA] + digits(
            self.text_utf8_length as nat,
        ) + seq![125u8, COLON] + self.title@ + seq![PIPE] + self.text@
    }

    /// The record, without its newline: the head, then the fields that are
    /// present, in the order `d`, `h`, `p`, `t`, `k`, `s`, then the tags.
    pub open spec fn encoding(self) -> Seq<u8> {
        self.head() + field(100, number_view(self.timestamp_second)) + field(
            104,
            word_view(self.hostname),
        ) + field(112, priority_view(self.priority)) + field(116, alert_view(self.alert_type))
            + field(107, word_view(self.aggregation_key)) + field(
            115,
            word_view(self.source_type_name),
        ) + tag_section(self.tags)
    }

    fn write_head(&self, out: &mut Vec<u8>)
        ensures
            final(out)@ == old(out)@ + self.head(),
    {
        out.push(95);
        out.push(101);
        out.push(123);
        push_u64(out, self.title_utf8_length as u64);
        out.push(COMMA);
        push_u64(out, self.text_utf8_length as u64);
        out.push(125);
        out.push(COLON);
        append(out, self.title);
        out.push(PIPE);
        append(out, self.text);
        assert(out@ =~= old(out)@ + self.head());
    }

    /// Appends the record, without a newline, to `out`.
    pub fn write(&self, out: &mut Vec<u8>)
        ensures
            final(out)@ == old(out)@ + self.encoding(),
    {
        let ghost start = out@;
        self.write_head(out);
        let ghost mut acc = self.head();
        write_number_field(out, 100, self.timestamp_second);
        proof {
            lemma_regroup(start, acc, field(100, number_view(self.timestamp_second)));
            acc = acc + field(100, number_view(self.timestamp_second));
        }
        write_word_field(out, 104, self.hostname);
        proof {
            lemma_regroup(start, acc, field(104, word_view(self.hostname)));
            acc = acc + field(104, word_view(self.hostname));
        }
        match self.priority {
            Some(p) => {
                let w = p.word();
                write_word_field(out, 112, Some(&w));
            },
            None => {
                write_word_field(out, 112, None);
            },
        }
        proof {
            lemma_regroup(start, acc, field(112, priority_view(self.priority)));
            acc = acc + field(112, priority_view(self.priority));
        }
        match self.alert_type {
            Some(a) => {
                let w = a.word();
                write_word_field(out, 116, Some(&w));
            },
            None => {
                write_word_field(out, 116, None);
            },
        }
        proof {
            lemma_regroup(start, acc, field(116, alert_view(self.alert_type)));
            acc = acc + field(116, alert_view(self.alert_type));
        }
        write_word_field(out, 107, self.aggregation_key);
        proof {
            lemma_regroup(start, acc, field(107, word_view(self.aggregation_key)));
            acc = acc + field(107, word_view(self.aggregation_key));
        }
        write_word_field(out, 115, self.source_type_name);
        proof {
            lemma_regroup(start, acc, field(115, word_view(self.source_type_name)));
            acc = acc + field(115, word_view(self.source_type_name));
        }
        write_tag_section(out, self.tags);
        proof {
            lemma_regroup(start, acc, tag_section(self.tags));
        }
    }
}

/// The record of an event whose texts are made of letters and digits is one
/// line of printable ASCII.
pub proof fn lemma_event_is_line(event: Event)
    requires
        event.plain(),
    ensures
        is_line(event.encoding()),
{
    lemma_decimal_is_line(event.title_utf8_length as int);
    lemma_decimal_is_line(event.text_utf8_length as int);
    lemma_alphanumeric_is_line(event.title@);
    lemma_alphanumeric_is_line(event.text@);
    let a = seq![95u8, 101, 123];
    let b = a + digits(event.title_utf8_length as nat);
    let c = b + seq![COMMA];
    let d = c + digits(event.text_utf8_length as nat);
    let e = d + seq![125u8, COLON];
    let f = e + event.title@;
    let g = f + seq![PIPE];
    lemma_line_of_parts(a, digits(event.title_utf8_length as nat));
    lemma_line_of_parts(b, seq![COMMA]);
    lemma_line_of_parts(c, digits(event.text_utf8_length as nat));
    lemma_line_of_parts(d, seq![125u8, COLON]);
    lemma_line_of_parts(e, event.title@);
    lemma_line_of_parts(f, seq![PIPE]);
    lemma_line_of_parts(g, event.text@);
    assert(is_line(event.head()));
    let h1 = event.head() + field(100, number_view(event.timestamp_second));
    let h2 = h1 + field(104, word_view(event.hostname));
    let h3 = h2 + field(112, priority_view(event.priority));
    let h4 = h3 + field(116, alert_view(event.alert_type));
    let h5 = h4 + field(107, word_view(event.aggregation_key));
    let h6 = h5 + field(115, word_view(event.source_type_name));
    lemma_number_field_is_line(100, event.timestamp_second);
    lemma_word_field_is_line(104, event.hostname);
    lemma_field_is_line(112, priority_view(event.priority));
    lemma_field_is_line(116, alert_view(event.alert_type));
    lemma_word_field_is_line(107, event.aggregation_key);
    lemma_word_field_is_line(115, event.source_type_name);
    lemma_tag_section_is_line(event.tags);
    lemma_line_of_parts(event.head(), field(100, number_view(event.timestamp_second)));
    lemma_line_of_parts(h1, field(104, word_view(event.hostname)));
    lemma_line_of_parts(h2, field(112, priority_view(event.priority)));
    lemma_line_of_parts(h3, field(116, alert_view(event.alert_type)));
    lemma_line_of_parts(h4, field(107, word_view(event.aggregation_key)));
    lemma_line_of_parts(h5, field(115, word_view(event.source_type_name)));
    lemma_line_of_parts(h6, tag_section(event.tags));
}

/// Draws events from pools of texts.
#[derive(Debug)]
pub struct EventGenerator {
    /// Headlines.
    pub titles: Vec<Vec<u8>>,
    /// Bodies.
    pub texts_or_messages: Vec<Vec<u8>>,
    /// Host names, keys and source types.
    pub small_strings: Vec<Vec<u8>>,
    /// Tag sets.
    pub tagsets: Tagsets,
}

/// `item` is one of the entries of `pool`.
pub open spec fn drawn_from<T>(pool: Seq<T>, item: T) -> bool {
    exists|i: int| 0 <= i < pool.len() && pool[i] == item
}

/// `item`, if there is one, is one of the entries of `pool`.
pub open spec fn maybe_drawn_from<T>(pool: Seq<T>, item: Option<&T>) -> bool {
    item matches Some(it) ==> drawn_from(pool, *it)
}

impl EventGenerator {
    /// The pools are within bounds: headlines of up to 64 bytes, bodies of
    /// up to 1024, small strings of up to 8, and tag sets of fewer than
    /// `tags_below` tags with keys and values of up to 36 bytes.
    pub open spec fn bounded(self, tags_below: usize) -> bool {
        &&& all_words(self.titles@, 64)
        &&& all_words(self.texts_or_messages@, 1024)
        &&& all_words(self.small_strings@, 8)
        &&& tagsets_within(self.tagsets@, tags_below, 36)
    }

    /// The length of an event: with its pools within bounds, no event that
    /// the generator draws is longer than 1182 bytes and 74 for each tag.
    pub proof fn lemma_event_length(self, event: Event, tags_below: usize)
        requires
            self.bounded(tags_below),
            self.yields(event),
        ensures
            event.encoding().len() <= 1182 + 74 * tags_below,
    {
        lemma_drawn_word_length(self.titles@, Some(event.title), 0, 64);
        lemma_drawn_word_length(self.texts_or_messages@, Some(event.text), 0, 1024);
        lemma_drawn_word_length(self.small_strings@, event.hostname, 104, 8);
        lemma_drawn_word_length(self.small_strings@, event.aggregation_key, 107, 8);
        lemma_drawn_word_length(self.small_strings@, event.source_type_name, 115, 8);
        lemma_drawn_tags_length(self.tagsets@, event.tags, tags_below, 36);
        assert(tags_below * (2 * 36 + 2) == 74 * tags_below) by (nonlinear_arith);
        lemma_event_parts_length(event);
    }

    /// There is a headline and a body to draw, and all texts of the pools
    /// are made of letters and digits.
    pub open spec fn wf(self) -> bool {
        &&& self.titles@.len() > 0
        &&& self.texts_or_messages@.len() > 0
        &&& plain_words(self.titles@)
        &&& plain_words(self.texts_or_messages@)
        &&& plain_words(self.small_strings@)
        &&& plain_tagsets(self.tagsets@)
    }

    /// What holds of every event this generator draws: its parts come from
    /// the pools, they are made of letters and digits, and its stated
    /// lengths are true.
    pub open spec fn yields(self, event: Event) -> bool {
        &&& event.wf()
        &&& event.plain()
        &&& drawn_from(self.titles@, *event.title)
        &&& drawn_from(self.texts_or_messages@, *event.text)
        &&& maybe_drawn_from(self.small_strings@, event.hostname)
        &&& maybe_drawn_from(self.small_strings@, event.aggregation_key)
        &&& maybe_drawn_from(self.small_strings@, event.source_type_name)
        &&& maybe_drawn_from(self.tagsets@, event.tags)
    }

    /// Draws one event.
    pub fn generate<'a>(&'a self, rng: &mut StdRng) -> (event: Event<'a>)
        requires
            self.wf(),
        ensures
            self.yields(event),
    {
        let title = match choose_from(rng, &self.titles) {
            Some(t) => t,
            None => &self.titles[0],
        };
        let text = match choose_from(rng, &self.texts_or_messages) {
            Some(t) => t,
            None => &self.texts_or_messages[0],
        };
        let tags = choose_or_not(rng, &self.tagsets);
        let timestamp_second = if gen_bool(rng) {
            Some(gen_u32(rng))
        } else {
            None
        };
        let hostname = choose_or_not(rng, &self.small_strings);
        let aggregation_key = choose_or_not(rng, &self.small_strings);
        let priority = if gen_bool(rng) {
            Some(Priority::sample(rng))
        } else {
            None
        };
        let source_type_name = choose_or_not(rng, &self.small_strings);
        let alert_type = if gen_bool(rng) {
            Some(Alert::sample(rng))
        } else {
            None
        };
        proof {
            lemma_drawn_word(self.titles@, Some(title));
            lemma_drawn_word(self.texts_or_messages@, Some(text));
            lemma_drawn_word(self.small_strings@, hostname);
            lemma_drawn_word(self.small_strings@, aggregation_key);
            lemma_drawn_word(self.small_strings@, source_type_name);
            lemma_drawn_tags(self.tagsets@, tags);
        }
        Event {
            title_utf8_length: title.len(),
            text_utf8_length: text.len(),
            title,
            text,
            timestamp_second,
            hostname,
            aggregation_key,
            priority,
            source_type_name,
            alert_type,
            tags,
        }
    }
}

/// A word drawn from a pool of words of letters and digits is such a word.
pub proof fn lemma_drawn_word(pool: Seq<Vec<u8>>, word: Option<&Vec<u8>>)
    requires
        plain_words(pool),
        maybe_drawn_from(pool, word),
    ensures
        plain_word(word),
{
    if let Some(w) = word {
        let i = choose|i: int| 0 <= i < pool.len() && pool[i] == *w;
        assert(is_alphanumeric(pool[i]@));
    }
}

/// The length of an event is that of its parts: an opening of at most
/// 1115 bytes where headline and body have at most 64 and 1024, a time of
/// at most 13, a priority of at most 9, an alert type of at most 10, and
/// the three words and the tags as they are.
pub proof fn lemma_event_parts_length(event: Event)
    requires
        event.wf(),
        event.title@.len() <= 64,
        event.text@.len() <= 1024,
    ensures
        event.encoding().len() <= 1147 + field(104, word_view(event.hostname)).len() + field(
            107,
            word_view(event.aggregation_key),
        ).len() + field(115, word_view(event.source_type_name)).len() + tag_section(
            event.tags,
        ).len(),
{
    lemma_decimal_length(event.title_utf8_length as int);
    lemma_decimal_length(event.text_utf8_length as int);
    if let Some(n) = event.timestamp_second {
        lemma_decimal_length(n as int);
    }
    assert(event.head().len() <= 1115);
    assert(field(100, number_view(event.timestamp_second)).len() <= 13);
    assert(field(112, priority_view(event.priority)).len() <= 9);
    assert(field(116, alert_view(event.alert_type)).len() <= 10);
}

/// A word drawn from a pool of words of at most `max_length` bytes is such
/// a word, and as a field it has three bytes more.
pub proof fn lemma_drawn_word_length(
    pool: Seq<Vec<u8>>,
    word: Option<&Vec<u8>>,
    letter: u8,
    max_length: u16,
)
    requires
        all_words(pool, max_length),
        maybe_drawn_from(pool, word),
    ensures
        word matches Some(w) ==> is_word(w@, max_length),
        field(letter, word_view(word)).len() <= 3 + max_length,
{
    if let Some(w) = word {
        let i = choose|i: int| 0 <= i < pool.len() && pool[i] == *w;
        assert(is_word(pool[i]@, max_length));
    }
}

/// The tag section of a set drawn from a pool within bounds: two bytes, and
/// for each tag no more than twice the longest word and two bytes.
pub proof fn lemma_drawn_tags_length(
    pool: Seq<Tagset>,
    tags: Option<&Tagset>,
    count_below: usize,
    max_length: u16,
)
    requires
        tagsets_within(pool, count_below, max_length),
        maybe_drawn_from(pool, tags),
    ensures
        tag_section(tags).len() <= 2 + count_below * (2 * max_length + 2),
{
    let each = 2 * max_length + 2;
    assert(count_below * each >= 0) by (nonlinear_arith)
        requires
            count_below >= 0,
            each >= 0,
    ;
    if let Some(t) = tags {
        let i = choose|i: int| 0 <= i < pool.len() && pool[i] == *t;
        assert(pool[i]@.len() < count_below && tagset_wf(pool[i]@, max_length));
        lemma_tags_length(t@, max_length);
        assert(t@.len() * each <= count_below * each) by (nonlinear_arith)
            requires
                t@.len() <= count_below,
                each >= 0,
        ;
    }
}

/// A tag set drawn from a pool of sets of letters and digits is such a set.
pub proof fn lemma_drawn_tags(pool: Seq<Tagset>, tags: Option<&Tagset>)
    requires
        plain_tagsets(pool),
        maybe_drawn_from(pool, tags),
    ensures
        tags matches Some(t) ==> plain_tags(t@),
{
    if let Some(t) = tags {
        let i = choose|i: int| 0 <= i < pool.len() && pool[i] == *t;
        assert(plain_tags(pool[i]@));
    }
}

} // verus!
