//! Payload variants: serialisers that turn random draws into bytes, never
//! more of them than a given budget.
//!
//! A payload is a run of records, each ended by a newline. A serialiser
//! draws record after record and stops at the first that no longer fits:
//! no record is ever cut.

use crate::payload::dogstatsd::common::is_word;
use crate::payload::dogstatsd::common::random_ascii;
use crate::payload::dogstatsd::DogStatsD;
use crate::text::append;
use crate::text::is_line;
use crate::text::lemma_alphanumeric_is_line;
use crate::text::NEWLINE;
use rand::rngs::StdRng;
use vstd::prelude::*;

pub mod dogstatsd;

verus! {

/// Why serialising failed.
#[derive(Debug, Clone, Copy, PartialEq, Eq, Structural)]
pub enum Error {
    /// The writer refused bytes. A writer in memory never does.
    Io,
}

/// A record with the newline that ends it.
pub open spec fn line(record: Seq<u8>) -> Seq<u8> {
    record.push(NEWLINE)
}

/// The bytes that a budget of `max_bytes` lets through: the lines of the
/// records up to, and without, the first one that would overrun it.
pub open spec fn fill(records: Seq<Seq<u8>>, max_bytes: int) -> Seq<u8>
    decreases records.len(),
{
    if records.len() == 0 || records[0].len() + 1 > max_bytes {
        Seq::empty()
    } else {
        line(records[0]) + fill(records.skip(1), max_bytes - records[0].len() - 1)
    }
}

/// How many of the records a budget of `max_bytes` lets through.
pub open spec fn admitted(records: Seq<Seq<u8>>, max_bytes: int) -> nat
    decreases records.len(),
{
    if records.len() == 0 || records[0].len() + 1 > max_bytes {
        0
    } else {
        1 + admitted(records.skip(1), max_bytes - records[0].len() - 1)
    }
}

/// The budget bound: what is let through is never longer than the budget.
pub proof fn lemma_fill_within_budget(records: Seq<Seq<u8>>, max_bytes: int)
    requires
        max_bytes >= 0,
    ensures
        fill(records, max_bytes).len() <= max_bytes,
    decreases records.len(),
{
    if !(records.len() == 0 || records[0].len() + 1 > max_bytes) {
        lemma_fill_within_budget(records.skip(1), max_bytes - records[0].len() - 1);
    }
}

/// Writing stops at the first record that does not fit, and for no other
/// reason: if not all records are let through, the first that is not is
/// longer, with its newline, than what the records before it left of the
/// budget.
pub proof fn lemma_fill_stops_at_misfit(records: Seq<Seq<u8>>, max_bytes: int)
    requires
        max_bytes >= 0,
        admitted(records, max_bytes) < records.len(),
    ensures
        fill(records, max_bytes).len() <= max_bytes,
        records[admitted(records, max_bytes) as int].len() + 1 > max_bytes - fill(
            records,
            max_bytes,
        ).len(),
    decreases records.len(),
{
    if !(records[0].len() + 1 > max_bytes) {
        let rest = records.skip(1);
        let left = max_bytes - records[0].len() - 1;
        lemma_fill_stops_at_misfit(rest, left);
        assert(rest[admitted(rest, left) as int] == records[admitted(records, max_bytes) as int]);
    }
}

/// What is let through depends on the admitted records alone: records
/// behind the first that does not fit change nothing.
pub proof fn lemma_fill_ignores_rest(records: Seq<Seq<u8>>, more: Seq<Seq<u8>>, max_bytes: int)
    requires
        admitted(records, max_bytes) < records.len(),
    ensures
        fill(records + more, max_bytes) == fill(records, max_bytes),
    decreases records.len(),
{
    let all = records + more;
    assert(all[0] == records[0]);
    if !(records[0].len() + 1 > max_bytes) {
        assert(all.skip(1) == records.skip(1) + more);
        lemma_fill_ignores_rest(records.skip(1), more, max_bytes - records[0].len() - 1);
    }
}

/// With one more admitted record the output grows by that record's line.
pub proof fn lemma_fill_push(records: Seq<Seq<u8>>, next: Seq<u8>, max_bytes: int)
    requires
        max_bytes >= 0,
        admitted(records, max_bytes) == records.len(),
    ensures
        fill(records, max_bytes).len() <= max_bytes,
        next.len() + 1 <= max_bytes - fill(records, max_bytes).len() ==> {
            &&& fill(records.push(next), max_bytes) == fill(records, max_bytes) + line(next)
            &&& admitted(records.push(next), max_bytes) == records.len() + 1
        },
        next.len() + 1 > max_bytes - fill(records, max_bytes).len() ==> {
            &&& fill(records.push(next), max_bytes) == fill(records, max_bytes)
            &&& admitted(records.push(next), max_bytes) == records.len()
        },
    decreases records.len(),
{
    let all = records.push(next);
    if records.len() == 0 {
        assert(all[0] == next);
        assert(all.skip(1) =~= Seq::<Seq<u8>>::empty());
        assert(fill(records, max_bytes) =~= Seq::<u8>::empty());
        if next.len() + 1 <= max_bytes {
            assert(fill(all.skip(1), max_bytes - next.len() - 1) =~= Seq::<u8>::empty());
            assert(admitted(all.skip(1), max_bytes - next.len() - 1) == 0);
            assert(fill(all, max_bytes) == line(next) + fill(
                all.skip(1),
                max_bytes - next.len() - 1,
            ));
            assert(line(next) + Seq::<u8>::empty() =~= line(next));
            assert(Seq::<u8>::empty() + line(next) =~= line(next));
        }
    } else {
        let rest = max_bytes - records[0].len() - 1;
        assert(records[0].len() + 1 <= max_bytes);
        assert(admitted(records.skip(1), rest) == records.skip(1).len());
        assert(all[0] == records[0]);
        assert(all.skip(1) =~= records.skip(1).push(next));
        lemma_fill_push(records.skip(1), next, rest);
        let head = line(records[0]);
        let tail = fill(records.skip(1), rest);
        assert(fill(records, max_bytes) == head + tail);
        assert(fill(all, max_bytes) == head + fill(all.skip(1), rest));
        assert(admitted(all, max_bytes) == 1 + admitted(all.skip(1), rest));
        assert((head + tail) + line(next) =~= head + (tail + line(next)));
    }
}

/// Writes `record` and a newline if both fit into `bytes_remaining`, and
/// says what is left of the budget then. A record that does not fit leaves
/// the writer untouched.
pub fn write_line(writer: &mut Vec<u8>, record: &Vec<u8>, bytes_remaining: usize) -> (rest: Option<
    usize,
>)
    ensures
        record@.len() + 1 <= bytes_remaining ==> rest == Some(
            (bytes_remaining - record@.len() - 1) as usize,
        ) && final(writer)@ == old(writer)@ + line(record@),
        record@.len() + 1 > bytes_remaining ==> rest is None && final(writer)@ == old(writer)@,
{
    if record.len() < bytes_remaining {
        append(writer, record);
        writer.push(NEWLINE);
        assert(writer@ =~= old(writer)@ + line(record@));
        Some(bytes_remaining - record.len() - 1)
    } else {
        None
    }
}

/// The views of a list of records.
pub open spec fn views(records: Seq<Vec<u8>>) -> Seq<Seq<u8>> {
    records.map_values(|r: Vec<u8>| r@)
}

/// Writes the records, one line each, up to the first that does not fit
/// into what is left of `max_bytes`.
pub fn write_records(records: &Vec<Vec<u8>>, max_bytes: usize, writer: &mut Vec<u8>)
    ensures
        final(writer)@ == old(writer)@ + fill(views(records@), max_bytes as int),
        final(writer)@.len() <= old(writer)@.len() + max_bytes,
{
    let mut bytes_remaining: usize = max_bytes;
    let mut i: usize = 0;
    let ghost all = views(records@);
    proof {
        assert(all.take(0) =~= Seq::<Seq<u8>>::empty());
        assert(writer@ =~= old(writer)@ + fill(all.take(0), max_bytes as int));
        assert(all.take(records.len() as int) =~= all);
    }
    while i < records.len()
        invariant_except_break
            i <= records.len(),
            all == views(records@),
            all.take(records.len() as int) == all,
            admitted(all.take(i as int), max_bytes as int) == i,
            writer@ == old(writer)@ + fill(all.take(i as int), max_bytes as int),
            bytes_remaining == max_bytes - fill(all.take(i as int), max_bytes as int).len(),
        ensures
            writer@ == old(writer)@ + fill(all, max_bytes as int),
        decreases records.len() - i,
    {
        let ghost done = all.take(i as int);
        proof {
            lemma_fill_push(done, all[i as int], max_bytes as int);
            assert(done.push(all[i as int]) =~= all.take(i + 1));
        }
        match write_line(writer, &records[i], bytes_remaining) {
            Some(rest) => {
                proof {
                    assert(writer@ =~= old(writer)@ + (fill(done, max_bytes as int) + line(
                        all[i as int],
                    )));
                }
                bytes_remaining = rest;
                i += 1;
            },
            None => {
                proof {
                    let upto = all.take(i + 1);
                    let more = all.skip(i + 1);
                    assert(upto + more =~= all);
                    lemma_fill_ignores_rest(upto, more, max_bytes as int);
                }
                break ;
            },
        }
    }
    proof {
        lemma_fill_within_budget(all, max_bytes as int);
    }
}

/// The plain ASCII payload: every record is one word of letters and digits.
#[derive(Debug, Clone, Copy, PartialEq, Eq, Structural)]
pub struct Ascii {
    /// The most bytes a record may have, the newline not counted.
    pub max_length: u16,
}

impl Ascii {
    /// The longest record of the payload, unless configured.
    pub const MAX_LENGTH: u16 = 6144;

    /// A record may have at least one byte.
    pub open spec fn wf(self) -> bool {
        self.max_length >= 1
    }

    /// The payload with the default record length.
    pub fn new() -> (r: Self)
        ensures
            r.wf(),
            r.max_length == 6144,
    {
        Ascii { max_length: Self::MAX_LENGTH }
    }

    /// Draws words and writes each with its newline, until one is drawn
    /// that no longer fits into what is left of `max_bytes`. Never fails,
    /// and never writes more than `max_bytes`.
    pub fn to_bytes(&self, rng: &mut StdRng, max_bytes: usize, writer: &mut Vec<u8>) -> (r: Result<
        (),
        Error,
    >)
        requires
            self.wf(),
        ensures
            r is Ok,
            serialized(Source::Ascii(self), max_bytes, old(writer)@, final(writer)@),
    {
        serialize(Source::Ascii(self), rng, max_bytes, writer);
        Ok(())
    }
}

/// A payload that is lent to a serialiser.
pub enum Source<'a> {
    /// DogStatsD records.
    DogStatsD(&'a DogStatsD),
    /// Plain words.
    Ascii(&'a Ascii),
}

impl<'a> Source<'a> {
    /// The payload can draw records.
    pub open spec fn wf(self) -> bool {
        match self {
            Source::DogStatsD(d) => d.wf(),
            Source::Ascii(a) => a.wf(),
        }
    }

    /// `record` is the text of a record that the payload may draw.
    pub open spec fn is_record(self, record: Seq<u8>) -> bool {
        match self {
            Source::DogStatsD(d) => d.is_record(record),
            Source::Ascii(a) => is_word(record, a.max_length),
        }
    }

    /// Every one of `records` is the text of a record that the payload may
    /// draw.
    pub open spec fn all_records(self, records: Seq<Seq<u8>>) -> bool {
        forall|i: int| 0 <= i < records.len() ==> self.is_record(#[trigger] records[i])
    }

    /// Every record that the payload may draw fits, with its newline, into
    /// `size` bytes.
    pub open spec fn records_fit(self, size: usize) -> bool {
        forall|record: Seq<u8>| #[trigger] self.is_record(record) ==> record.len() < size
    }

    /// Whatever the payload, a record is one line of printable ASCII: the
    /// newline that ends it is the only one, so that what is written can be
    /// read back record by record.
    pub proof fn lemma_record_is_line(self, record: Seq<u8>)
        requires
            self.is_record(record),
        ensures
            is_line(record),
    {
        match self {
            Source::DogStatsD(d) => d.lemma_record_is_line(record),
            Source::Ascii(a) => lemma_alphanumeric_is_line(record),
        }
    }

    /// Draws one record, without its newline.
    pub fn record(&self, rng: &mut StdRng) -> (record: Vec<u8>)
        requires
            self.wf(),
        ensures
            self.is_record(record@),
    {
        match self {
            Source::DogStatsD(d) => {
                let member = d.generate(rng);
                member.to_bytes()
            },
            Source::Ascii(a) => random_ascii(rng, a.max_length),
        }
    }
}

/// What serialising `source` under a budget of `max_bytes` does to a
/// writer: what was there stays, and what is added is what the budget lets
/// through of some run of the payload's records, so at most `max_bytes`.
/// The run ends with the one record that did not fit: writing stops for no
/// other reason.
pub open spec fn serialized(source: Source, max_bytes: usize, before: Seq<u8>, after: Seq<u8>) -> bool {
    &&& before.len() <= after.len() <= before.len() + max_bytes
    &&& after.subrange(0, before.len() as int) == before
    &&& exists|records: Seq<Seq<u8>>|
        {
            &&& source.all_records(records)
            &&& admitted(records, max_bytes as int) + 1 == records.len()
            &&& #[trigger] fill(records, max_bytes as int) == after.subrange(
                before.len() as int,
                after.len() as int,
            )
        }
}

/// Where every record fits the budget, something is written: the first
/// record that is drawn is let through, whatever it is.
pub proof fn lemma_serialized_is_not_empty(
    source: Source,
    max_bytes: usize,
    before: Seq<u8>,
    after: Seq<u8>,
)
    requires
        serialized(source, max_bytes, before, after),
        source.records_fit(max_bytes),
    ensures
        after.len() > before.len(),
{
    let records = choose|records: Seq<Seq<u8>>|
        {
            &&& source.all_records(records)
            &&& admitted(records, max_bytes as int) + 1 == records.len()
            &&& #[trigger] fill(records, max_bytes as int) == after.subrange(
                before.len() as int,
                after.len() as int,
            )
        };
    assert(source.is_record(records[0]));
    assert(fill(records, max_bytes as int).len() > 0);
}

/// Draws records from `source` and writes each with its newline, until one
/// is drawn that no longer fits into what is left of `max_bytes`. That
/// record is dropped whole.
pub fn serialize(source: Source, rng: &mut StdRng, max_bytes: usize, writer: &mut Vec<u8>)
    requires
        source.wf(),
    ensures
        serialized(source, max_bytes, old(writer)@, final(writer)@),
{
    let mut bytes_remaining: usize = max_bytes;
    let ghost mut records: Seq<Seq<u8>> = Seq::empty();
    proof {
        assert(writer@ =~= old(writer)@ + fill(records, max_bytes as int));
    }
    loop
        invariant_except_break
            source.wf(),
            source.all_records(records),
            admitted(records, max_bytes as int) == records.len(),
            writer@ == old(writer)@ + fill(records, max_bytes as int),
            bytes_remaining == max_bytes - fill(records, max_bytes as int).len(),
        ensures
            source.all_records(records),
            admitted(records, max_bytes as int) + 1 == records.len(),
            writer@ == old(writer)@ + fill(records, max_bytes as int),
        decreases bytes_remaining,
    {
        let encoding = source.record(rng);
        proof {
            lemma_fill_push(records, encoding@, max_bytes as int);
        }
        let ghost before = records;
        proof {
            records = before.push(encoding@);
        }
        match write_line(writer, &encoding, bytes_remaining) {
            Some(remainder) => {
                proof {
                    assert(writer@ =~= old(writer)@ + (fill(before, max_bytes as int) + line(
                        encoding@,
                    )));
                }
                bytes_remaining = remainder;
            },
            None => {
                break ;
            },
        }
    }
    proof {
        lemma_fill_within_budget(records, max_bytes as int);
        let written = fill(records, max_bytes as int);
        assert(writer@.subrange(old(writer)@.len() as int, writer@.len() as int) =~= written);
        assert(writer@.subrange(0, old(writer)@.len() as int) =~= old(writer)@);
    }
}

/// Which payload to synthesise, and how.
#[derive(Debug, Clone, Copy, PartialEq, Eq, Structural)]
pub enum Config {
    /// DogStatsD records.
    DogStatsD(crate::payload::dogstatsd::Config),
    /// Plain words.
    Ascii,
}

impl Config {
    /// A payload can be built from the configuration.
    pub open spec fn valid(self) -> bool {
        match self {
            Config::DogStatsD(c) => c.valid(),
            Config::Ascii => true,
        }
    }

    /// Whether a payload can be built from the configuration.
    pub fn is_valid(&self) -> (r: bool)
        ensures
            r == self.valid(),
    {
        match self {
            Config::DogStatsD(c) => c.is_valid(),
            Config::Ascii => true,
        }
    }

    /// Whatever payload is built from the configuration, every record that
    /// it may draw fits, with its newline, into `size` bytes. A plain word
    /// has up to 6144 bytes, so there `size` is above 6144. How long a
    /// DogStatsD record can be depends on the ranges of the configuration:
    /// a size above its longest record will do, see
    /// [`lemma_dogstatsd_records_fit`].
    pub open spec fn every_record_fits(self, size: usize) -> bool {
        match self {
            Config::Ascii => size > 6144,
            Config::DogStatsD(c) => forall|built: Payload|
                built.wf() && #[trigger] built.made_of(self) ==> built.source().records_fit(size),
        }
    }
}

/// A size above the longest record of a DogStatsD configuration holds
/// every record of every payload that is built from it.
pub proof fn lemma_dogstatsd_records_fit(config: crate::payload::dogstatsd::Config, size: usize)
    requires
        size > config.longest_record(),
    ensures
        Config::DogStatsD(config).every_record_fits(size),
{
    assert forall|built: Payload|
        built.wf() && #[trigger] built.made_of(Config::DogStatsD(config)) implies built.source().records_fit(
        size,
    ) by {
        if let Payload::DogStatsD(d) = built {
            assert forall|record: Seq<u8>| #[trigger]
                built.source().is_record(record) implies record.len() < size by {
                d.lemma_record_length(config, record);
            }
        }
    }
}

/// What a configuration says of the length of records holds of every
/// payload that is built from it.
pub proof fn lemma_built_records_fit(config: Config, built: Payload, size: usize)
    requires
        config.every_record_fits(size),
        built.wf(),
        built.made_of(config),
    ensures
        built.source().records_fit(size),
{
}

/// A payload, ready to serialise.
pub enum Payload {
    /// DogStatsD records.
    DogStatsD(DogStatsD),
    /// Plain words.
    Ascii(Ascii),
}

impl Payload {
    /// The payload, lent.
    pub open spec fn source(&self) -> Source<'_> {
        match self {
            Payload::DogStatsD(d) => Source::DogStatsD(d),
            Payload::Ascii(a) => Source::Ascii(a),
        }
    }

    /// The payload can draw records.
    pub open spec fn wf(&self) -> bool {
        self.source().wf()
    }

    /// The payload is one that is built from the configuration: DogStatsD
    /// records from a generator with the configured ranges and weights, or
    /// plain words of the default length.
    pub open spec fn made_of(&self, config: Config) -> bool {
        match config {
            Config::DogStatsD(c) => *self matches Payload::DogStatsD(d) && d.made_of(c),
            Config::Ascii => *self == Payload::Ascii(Ascii { max_length: 6144 }),
        }
    }

    /// Builds the payload of a configuration, drawing its pools from `rng`.
    pub fn new(config: &Config, rng: &mut StdRng) -> (r: Self)
        requires
            config.valid(),
        ensures
            r.wf(),
            r.made_of(*config),
    {
        match config {
            Config::DogStatsD(c) => Payload::DogStatsD(DogStatsD::from_config(c, rng)),
            Config::Ascii => Payload::Ascii(Ascii::new()),
        }
    }

    /// Serialises under a budget: see [`serialize`]. Never fails, and never
    /// writes more than `max_bytes`.
    pub fn to_bytes(&self, rng: &mut StdRng, max_bytes: usize, writer: &mut Vec<u8>) -> (r: Result<
        (),
        Error,
    >)
        requires
            self.wf(),
        ensures
            r is Ok,
            serialized(self.source(), max_bytes, old(writer)@, final(writer)@),
    {
        match self {
            Payload::DogStatsD(d) => serialize(Source::DogStatsD(d), rng, max_bytes, writer),
            Payload::Ascii(a) => serialize(Source::Ascii(a), rng, max_bytes, writer),
        }
        Ok(())
    }
}

} // verus!
