//! The file generator.
//!
//! It has no target to connect to: it writes files, and once a file has
//! grown past its limit it moves on to the next. Counter: `bytes_written`.
//! Gauge: `bytes_per_second`.
//!
//! Over a whole run every file that a worker closes holds more than the
//! limit, by one block at most ([`lemma_files_are_closed_full`]); the
//! files that it opens are numbered in a row ([`lemma_files_in_a_row`]);
//! and where full files are unlinked, only the open one is left
//! ([`lemma_full_files_are_unlinked`]).

use crate::block::Cache;
use crate::block::Producer;
use crate::generator::as_sizes;
use crate::generator::low_usize;
use crate::generator::sizes_in_force;
use crate::generator::assemble;
use crate::generator::certain_failure;
use crate::generator::certain_success;
use crate::generator::default_file_block_sizes;
use crate::generator::file_block_sizes;
use crate::generator::label_texts;
use crate::generator::labels_for;
use crate::generator::low_u32;
use crate::generator::metric_labels;
use crate::generator::throttle_for;
use crate::generator::truncate_u32;
use crate::generator::send_loop::arrivals_within;
use crate::generator::send_loop::written_by;
use crate::generator::send_loop::written_over;
use crate::generator::send_loop::Phase;
use crate::generator::send_loop::Turn;
use crate::generator::Action;
use crate::generator::Event;
use crate::generator::General;
use crate::generator::Model;
use crate::generator::SendLoop;
use crate::generator::Settings;
use crate::generator::SetupError;
use crate::generator::Step;
use crate::generator::Transport;
use crate::rng::rng_from_seed;
use crate::text::lemma_digits_are_digits;
use crate::text::push_zero_padded;
use crate::text::zero_padded;
use crate::throttle::Bucket;
use vstd::prelude::*;
use vstd::string::StringExecFns;

verus! {

/// Whether full files are unlinked, unless configured: they are.
pub fn default_rotation() -> (r: bool)
    ensures
        r,
{
    true
}

/// The marker in a path template that stands for the file's index.
pub open spec fn marker() -> Seq<char> {
    seq!['%', 'N', 'N', 'N', '%']
}

/// The index as it appears in a path: in decimal, with zeros in front up to
/// four digits.
pub open spec fn index_text(index: u32) -> Seq<char> {
    zero_padded(index as nat, 4).map_values(|b: u8| b as char)
}

/// The template with every marker replaced by `with`, from left to right.
pub open spec fn substituted(template: Seq<char>, with: Seq<char>) -> Seq<char>
    decreases template.len(),
{
    if template.len() < 5 {
        template
    } else if template.subrange(0, 5) == marker() {
        with + substituted(template.skip(5), with)
    } else {
        seq![template[0]] + substituted(template.skip(1), with)
    }
}

/// The text of one ASCII digit.
fn digit_str(b: u8) -> (r: &'static str)
    requires
        48 <= b <= 57,
    ensures
        r@ == seq![b as char],
{
    proof {
        reveal_strlit("0");
        reveal_strlit("1");
        reveal_strlit("2");
        reveal_strlit("3");
        reveal_strlit("4");
        reveal_strlit("5");
        reveal_strlit("6");
        reveal_strlit("7");
        reveal_strlit("8");
        reveal_strlit("9");
    }
    let r = if b == 48 {
        "0"
    } else if b == 49 {
        "1"
    } else if b == 50 {
        "2"
    } else if b == 51 {
        "3"
    } else if b == 52 {
        "4"
    } else if b == 53 {
        "5"
    } else if b == 54 {
        "6"
    } else if b == 55 {
        "7"
    } else if b == 56 {
        "8"
    } else {
        "9"
    };
    assert(r@ =~= seq![b as char]);
    r
}

/// The index as it appears in a path.
fn index_string(index: u32) -> (r: String)
    ensures
        r@ == index_text(index),
{
    let mut bytes: Vec<u8> = Vec::new();
    push_zero_padded(&mut bytes, index, 4);
    proof {
        assert(bytes@ =~= zero_padded(index as nat, 4));
        lemma_digits_are_digits(index as nat);
    }
    let mut r = String::new();
    let mut i: usize = 0;
    while i < bytes.len()
        invariant
            i <= bytes.len(),
            forall|k: int| 0 <= k < bytes@.len() ==> 48 <= #[trigger] bytes@[k] <= 57,
            r@ == bytes@.take(i as int).map_values(|b: u8| b as char),
        decreases bytes.len() - i,
    {
        r.append(digit_str(bytes[i]));
        i += 1;
        assert(bytes@.take(i as int).map_values(|b: u8| b as char) =~= bytes@.take(i - 1).map_values(
            |b: u8| b as char,
        ).push(bytes@[i - 1] as char));
    }
    assert(bytes@.take(bytes@.len() as int) =~= bytes@);
    r
}

/// Whether the five characters of `template` from `at` on are the marker.
fn marker_at(template: &str, at: usize, length: usize) -> (r: bool)
    requires
        length == template@.len(),
        at + 5 <= length,
    ensures
        r == (template@.subrange(at as int, at + 5) == marker()),
{
    let r = template.get_char(at) == '%' && template.get_char(at + 1) == 'N' && template.get_char(
        at + 2,
    ) == 'N' && template.get_char(at + 3) == 'N' && template.get_char(at + 4) == '%';
    proof {
        let part = template@.subrange(at as int, at + 5);
        if r {
            assert(part =~= marker());
        } else {
            assert(part[0] == template@[at as int]);
            assert(part[1] == template@[at + 1]);
            assert(part[2] == template@[at + 2]);
            assert(part[3] == template@[at + 3]);
            assert(part[4] == template@[at + 4]);
        }
    }
    r
}

/// The path of the file with the given index: the template with every
/// `%NNN%` replaced by the index, in decimal and with zeros in front up to
/// four digits.
pub fn path_from_template(path_template: &str, index: u32) -> (path: String)
    ensures
        path@ == substituted(path_template@, index_text(index)),
{
    let fidx = index_string(index);
    let length: usize = path_template.unicode_len();
    let mut path = String::new();
    let mut at: usize = 0;
    assert(path_template@.skip(0) =~= path_template@);
    assert(Seq::<char>::empty() + substituted(path_template@, fidx@) =~= substituted(
        path_template@,
        fidx@,
    ));
    while at < length
        invariant
            at <= length,
            length == path_template@.len(),
            fidx@ == index_text(index),
            substituted(path_template@, fidx@) == path@ + substituted(
                path_template@.skip(at as int),
                fidx@,
            ),
        decreases length - at,
    {
        let ghost rest = path_template@.skip(at as int);
        let ghost before = path@;
        if length - at >= 5 && marker_at(path_template, at, length) {
            assert(rest.subrange(0, 5) =~= path_template@.subrange(at as int, at + 5));
            assert(rest.skip(5) =~= path_template@.skip(at + 5));
            path.append(fidx.as_str());
            at += 5;
            assert(before + (fidx@ + substituted(rest.skip(5), fidx@)) =~= (before + fidx@)
                + substituted(rest.skip(5), fidx@));
        } else {
            let one = path_template.substring_char(at, at + 1);
            assert(one@ =~= seq![path_template@[at as int]]);
            assert(rest[0] == path_template@[at as int]);
            assert(rest.skip(1) =~= path_template@.skip(at + 1));
            proof {
                if rest.len() >= 5 {
                    assert(rest.subrange(0, 5) =~= path_template@.subrange(at as int, at + 5));
                } else {
                    // What is shorter than the marker is kept as it is.
                    assert(substituted(rest, fidx@) == rest);
                    assert(substituted(rest.skip(1), fidx@) == rest.skip(1));
                    assert(rest =~= seq![rest[0]] + rest.skip(1));
                }
            }
            path.append(one);
            at += 1;
            assert(before + (seq![rest[0]] + substituted(rest.skip(1), fidx@)) =~= (before
                + seq![rest[0]]) + substituted(rest.skip(1), fidx@));
        }
    }
    assert(path_template@.skip(length as int) =~= Seq::<char>::empty());
    assert(path@ + Seq::<char>::empty() =~= path@);
    path
}

/// The counter that hands out file indices. All workers of a generator
/// share one, so that no two files get the same index.
#[derive(Debug, Clone, Copy, PartialEq, Eq, Structural)]
pub struct IndexCounter {
    /// The index that is handed out next.
    pub next: u32,
}

impl IndexCounter {
    /// The index that is handed out next, and the counter after that: moved
    /// on by one, or back at zero after the last `u32`.
    pub open spec fn fetched(self) -> (u32, IndexCounter) {
        (
            self.next,
            IndexCounter {
                next: if self.next == u32::MAX {
                    0
                } else {
                    (self.next + 1) as u32
                },
            },
        )
    }

    /// A counter that starts at zero.
    pub fn new() -> (r: Self)
        ensures
            r.next == 0,
    {
        IndexCounter { next: 0 }
    }

    /// Hands out the next index and moves the counter on.
    pub fn fetch_add(&mut self) -> (index: u32)
        ensures
            (index, *final(self)) == old(self).fetched(),
    {
        let index: u32 = self.next;
        self.next = if index == u32::MAX {
            0
        } else {
            index + 1
        };
        index
    }
}

/// Two indices handed out in a row differ by one: the file that follows on
/// a rotation has the index after that of the file before, as long as no
/// other worker draws from the counter in between and the indices have not
/// run out.
pub proof fn lemma_indices_follow(counter: IndexCounter)
    requires
        counter.next < u32::MAX,
    ensures
        counter.fetched().1.fetched().0 == counter.fetched().0 + 1,
{
}

/// Whether the turn brings the fresh file that the loop `m` waits for.
pub open spec fn opens_file(m: Model, turn: Turn) -> bool {
    m.phase == Phase::Rotating && turn.event is Rotated
}

/// The indices of the files that the loop opens over the turns, in the
/// order in which it opens them.
pub open spec fn opened_over(m: Model, turns: Seq<Turn>) -> Seq<u32>
    decreases turns.len(),
{
    if turns.len() == 0 {
        Seq::empty()
    } else {
        let rest = opened_over(m.step(turns[0].event, turns[0].at).0, turns.skip(1));
        if opens_file(m, turns[0]) {
            seq![turns[0].event->Rotated_0] + rest
        } else {
            rest
        }
    }
}

/// Every fresh file that the loop waits for over the turns comes with the
/// index that `counter` hands out next: the loop is the only one that
/// draws from the counter.
pub open spec fn served_by(m: Model, counter: IndexCounter, turns: Seq<Turn>) -> bool
    decreases turns.len(),
{
    turns.len() > 0 ==> {
        let next = m.step(turns[0].event, turns[0].at).0;
        if opens_file(m, turns[0]) {
            turns[0].event->Rotated_0 == counter.fetched().0 && served_by(
                next,
                counter.fetched().1,
                turns.skip(1),
            )
        } else {
            served_by(next, counter, turns.skip(1))
        }
    }
}

/// A loop that fills files with blocks of at most `largest` bytes: it is
/// well formed and writes to files; no block that it holds is larger; the
/// open file is over its limit by less than one such block; and the loop
/// waits for the next file only with a file that is over its limit.
pub open spec fn fills_files(m: Model, largest: u32) -> bool {
    &&& m.wf()
    &&& m.transport == Transport::File
    &&& forall|i: int| 0 <= i < m.queue.len() ==> (#[trigger] m.queue[i]).total_bytes <= largest
    &&& m.current matches Some(block) ==> block.total_bytes <= largest
    &&& m.total_bytes_written <= m.maximum_bytes_per_file + largest
    &&& m.phase == Phase::Rotating ==> m.total_bytes_written > m.maximum_bytes_per_file
}

/// One step of a loop that fills files. The step keeps it one. A step that
/// opens a file leaves behind a file that is over its limit, by one block
/// at most, and starts the fresh one empty under the reported index. Every
/// other step adds what it reports as written to the open file and keeps
/// its index.
pub proof fn lemma_step_fills_files(m: Model, turn: Turn, largest: u32)
    requires
        fills_files(m, largest),
        turn.event matches Event::Block(block) ==> block.wf() && block.total_bytes <= largest,
    ensures
        ({
            let (after, step) = m.step(turn.event, turn.at);
            &&& fills_files(after, largest)
            &&& after.maximum_bytes_per_file == m.maximum_bytes_per_file
            &&& written_by(step.update) >= 0
            &&& opens_file(m, turn) ==> {
                &&& written_by(step.update) == 0
                &&& m.maximum_bytes_per_file < m.total_bytes_written <= m.maximum_bytes_per_file
                    + largest
                &&& after.total_bytes_written == 0
                &&& after.file_index == turn.event->Rotated_0
            }
            &&& !opens_file(m, turn) ==> {
                &&& after.total_bytes_written == m.total_bytes_written + written_by(step.update)
                &&& after.file_index == m.file_index
            }
        }),
{
    let event = turn.event;
    let now = turn.at;
    crate::generator::send_loop::lemma_step_keeps_wf(m, event, now);
    crate::generator::send_loop::lemma_step_keeps_transport(m, event, now);
    if m.phase != Phase::Stopped {
        match event {
            Event::Block(block) => {
                lemma_decide_fills_files(Model { queue: m.queue.push(block), ..m }, now, largest);
            },
            Event::Woke => {
                lemma_decide_fills_files(m, now, largest);
            },
            Event::Wrote(written) => {
                if m.phase == Phase::Writing && m.current is Some {
                    let left = m.current->Some_0.bytes@.len() - m.offset;
                    let done = Model {
                        current: None,
                        offset: 0,
                        total_bytes_written: (m.total_bytes_written + left) as u64,
                        ..m
                    };
                    lemma_decide_fills_files(done, now, largest);
                }
            },
            Event::Rotated(index) => {
                lemma_decide_fills_files(
                    Model { file_index: index, total_bytes_written: 0, ..m },
                    now,
                    largest,
                );
            },
            _ => {},
        }
    }
}

/// Deciding keeps the blocks of a loop within `largest` bytes, and changes
/// neither the open file nor what is written to it.
proof fn lemma_decide_fills_files(m: Model, now: u64, largest: u32)
    requires
        forall|i: int| 0 <= i < m.queue.len() ==> (#[trigger] m.queue[i]).total_bytes <= largest,
        m.current matches Some(block) ==> block.total_bytes <= largest,
    ensures
        ({
            let after = m.decide(now).0;
            &&& forall|i: int|
                0 <= i < after.queue.len() ==> (#[trigger] after.queue[i]).total_bytes <= largest
            &&& after.current matches Some(block) ==> block.total_bytes <= largest
            &&& after.total_bytes_written == m.total_bytes_written
            &&& after.file_index == m.file_index
            &&& after.phase != Phase::Rotating
        }),
{
    if m.current is None && m.queue.len() > 0 {
        let rest = m.queue.skip(1);
        assert(m.queue[0].total_bytes <= largest);
        assert forall|i: int| 0 <= i < rest.len() implies (#[trigger] rest[i]).total_bytes
            <= largest by {
            assert(m.queue[i + 1].total_bytes <= largest);
        }
    }
}

/// Files are closed full, and only then. Over any run of a loop that fills
/// files with blocks of at most `largest` bytes, every file that was closed
/// held more than the limit, by one block at most. So the bytes written,
/// less those in the file that is open at the end, lie between the limit
/// and the limit plus `largest`, once for each file opened: how many files
/// a run opens follows from how much it writes.
pub proof fn lemma_files_are_closed_full(m: Model, turns: Seq<Turn>, largest: u32)
    requires
        fills_files(m, largest),
        arrivals_within(turns, largest),
    ensures
        ({
            let opened = opened_over(m, turns).len();
            let closed = written_over(m, turns) + m.total_bytes_written - m.after(
                turns,
            ).total_bytes_written;
            &&& fills_files(m.after(turns), largest)
            &&& m.after(turns).maximum_bytes_per_file == m.maximum_bytes_per_file
            &&& opened * (m.maximum_bytes_per_file + 1) <= closed
            &&& closed <= opened * (m.maximum_bytes_per_file + largest)
        }),
    decreases turns.len(),
{
    if turns.len() > 0 {
        let rest = turns.skip(1);
        let next = m.step(turns[0].event, turns[0].at).0;
        lemma_step_fills_files(m, turns[0], largest);
        assert(arrivals_within(rest, largest)) by {
            assert forall|i: int| 0 <= i < rest.len() implies ((#[trigger] rest[i]).event matches Event::Block(
                block,
            ) ==> block.wf() && block.total_bytes <= largest) by {
                assert(rest[i] == turns[i + 1]);
            }
        }
        lemma_files_are_closed_full(next, rest, largest);
        let limit = m.maximum_bytes_per_file as int;
        let before = opened_over(next, rest).len() as int;
        if opens_file(m, turns[0]) {
            assert(opened_over(m, turns).len() == before + 1);
            assert((before + 1) * (limit + 1) == before * (limit + 1) + (limit + 1))
                by (nonlinear_arith);
            assert((before + 1) * (limit + largest) == before * (limit + largest) + (limit
                + largest)) by (nonlinear_arith);
        }
    }
}

/// A step that opens a file takes on the reported index; every other step
/// keeps the index of the open file.
proof fn lemma_step_file_index(m: Model, turn: Turn)
    ensures
        m.step(turn.event, turn.at).0.file_index == if opens_file(m, turn) {
            turn.event->Rotated_0
        } else {
            m.file_index
        },
{
    let now = turn.at;
    if m.phase != Phase::Stopped {
        match turn.event {
            Event::Block(block) => {
                crate::generator::send_loop::lemma_decide_keeps_settings(
                    Model { queue: m.queue.push(block), ..m },
                    now,
                );
            },
            Event::Connected => {
                crate::generator::send_loop::lemma_decide_keeps_settings(
                    Model { connected: true, ..m },
                    now,
                );
            },
            Event::Woke => {
                crate::generator::send_loop::lemma_decide_keeps_settings(m, now);
            },
            Event::Wrote(written) => {
                if m.phase == Phase::Writing && m.current is Some {
                    let left = m.current->Some_0.bytes@.len() - m.offset;
                    let in_file = if m.transport == Transport::File {
                        (m.total_bytes_written + left) as u64
                    } else {
                        m.total_bytes_written
                    };
                    crate::generator::send_loop::lemma_decide_keeps_settings(
                        Model { current: None, offset: 0, total_bytes_written: in_file, ..m },
                        now,
                    );
                }
            },
            Event::WriteFailed(error) => {
                crate::generator::send_loop::lemma_decide_keeps_settings(
                    Model {
                        current: None,
                        offset: 0,
                        connected: m.connected && !m.transport.drops_connection(),
                        ..m
                    },
                    now,
                );
            },
            Event::Responded(response_bytes) => {
                crate::generator::send_loop::lemma_decide_keeps_settings(
                    Model { current: None, offset: 0, ..m },
                    now,
                );
            },
            Event::Rotated(index) => {
                crate::generator::send_loop::lemma_decide_keeps_settings(
                    Model { file_index: index, total_bytes_written: 0, ..m },
                    now,
                );
            },
            _ => {},
        }
    }
}

/// The files of a run are numbered in a row. If the loop is the only one to
/// draw from the counter, and the counter does not run out, the files that
/// it opens over a run carry the indices that follow one another from the
/// counter's next, and the file that is open at the end is the last of
/// them, or the one that was open at the start if none was opened.
pub proof fn lemma_files_in_a_row(m: Model, counter: IndexCounter, turns: Seq<Turn>)
    requires
        served_by(m, counter, turns),
        counter.next + opened_over(m, turns).len() <= u32::MAX,
    ensures
        forall|k: int|
            0 <= k < opened_over(m, turns).len() ==> #[trigger] opened_over(m, turns)[k]
                == counter.next + k,
        m.after(turns).file_index == if opened_over(m, turns).len() == 0 {
            m.file_index
        } else {
            opened_over(m, turns).last()
        },
    decreases turns.len(),
{
    if turns.len() > 0 {
        let rest = turns.skip(1);
        let next = m.step(turns[0].event, turns[0].at).0;
        let later = opened_over(next, rest);
        lemma_step_file_index(m, turns[0]);
        if opens_file(m, turns[0]) {
            let index = turns[0].event->Rotated_0;
            let opened = opened_over(m, turns);
            assert(opened == seq![index] + later);
            lemma_files_in_a_row(next, counter.fetched().1, rest);
            assert forall|k: int| 0 <= k < opened.len() implies #[trigger] opened[k]
                == counter.next + k by {
                if k > 0 {
                    assert(opened[k] == later[k - 1]);
                }
            }
            if later.len() > 0 {
                assert(opened.last() == later.last());
            }
        } else {
            lemma_files_in_a_row(next, counter, rest);
        }
    }
}

/// The files that are linked after the turns, by their indices and in the
/// order in which they were opened. `linked` are the files that are linked
/// at the start, the last of them the one that is open. The caller unlinks
/// the open file where the loop, waiting for the next one, says so, and
/// nowhere else.
pub open spec fn linked_over(m: Model, linked: Seq<u32>, turns: Seq<Turn>) -> Seq<u32>
    decreases turns.len(),
{
    if turns.len() == 0 {
        linked
    } else {
        let next = m.step(turns[0].event, turns[0].at).0;
        if opens_file(m, turns[0]) {
            let kept = if m.standing() == (Action::Rotate { remove: true }) {
                linked.drop_last()
            } else {
                linked
            };
            linked_over(next, kept.push(turns[0].event->Rotated_0), turns.skip(1))
        } else {
            linked_over(next, linked, turns.skip(1))
        }
    }
}

/// Full files are unlinked. Where a loop is set to unlink full files, and
/// the one file that is linked at the start is the open one, then after
/// any run one file is linked: the one that is open at the end.
pub proof fn lemma_full_files_are_unlinked(m: Model, turns: Seq<Turn>)
    requires
        m.rotate,
    ensures
        linked_over(m, seq![m.file_index], turns) == seq![m.after(turns).file_index],
    decreases turns.len(),
{
    if turns.len() > 0 {
        let next = m.step(turns[0].event, turns[0].at).0;
        lemma_step_file_index(m, turns[0]);
        crate::generator::send_loop::lemma_step_keeps_transport(m, turns[0].event, turns[0].at);
        lemma_full_files_are_unlinked(next, turns.skip(1));
        if opens_file(m, turns[0]) {
            assert(seq![m.file_index].drop_last().push(turns[0].event->Rotated_0)
                == seq![next.file_index]);
        }
    }
}

/// Full files are kept. Where a loop is not set to unlink full files, the
/// files that are linked after a run are those that were linked at the
/// start and, behind them, every file that the run opened.
pub proof fn lemma_full_files_are_kept(m: Model, linked: Seq<u32>, turns: Seq<Turn>)
    requires
        !m.rotate,
    ensures
        linked_over(m, linked, turns) == linked + opened_over(m, turns),
    decreases turns.len(),
{
    if turns.len() > 0 {
        let next = m.step(turns[0].event, turns[0].at).0;
        let rest = turns.skip(1);
        crate::generator::send_loop::lemma_step_keeps_transport(m, turns[0].event, turns[0].at);
        if opens_file(m, turns[0]) {
            let index = turns[0].event->Rotated_0;
            lemma_full_files_are_kept(next, linked.push(index), rest);
            assert(linked.push(index) + opened_over(next, rest) == linked + (seq![index]
                + opened_over(next, rest)));
        } else {
            lemma_full_files_are_kept(next, linked, rest);
        }
    } else {
        assert(linked + Seq::<u32>::empty() == linked);
    }
}

/// The configuration of the generator.
#[derive(Debug)]
pub struct Config {
    /// The seed of all draws.
    pub seed: [u8; 32],
    /// The template of the files' paths. `%NNN%` stands for the index of
    /// the file.
    pub path_template: String,
    /// How many workers write files of this template.
    pub duplicates: u8,
    /// The payload.
    pub variant: crate::payload::Config,
    /// The size above which a file is full. The limit is soft: the block
    /// that crosses it is written whole.
    pub maximum_bytes_per_file: u128,
    /// The rate of each worker, in bytes per second.
    pub bytes_per_second: u128,
    /// The block sizes, in bytes.
    pub block_sizes: Option<Vec<u128>>,
    /// The byte budget of each worker's block cache.
    pub maximum_prebuild_cache_size_bytes: u128,
    /// How the caches supply their blocks.
    pub block_cache_method: crate::block::CacheMethod,
    /// Whether full files are unlinked.
    pub rotate: bool,
    /// The burst model of the throttles.
    pub throttle: crate::throttle::Config,
}

impl Config {
    /// What the configuration says of the parts that all generators share.
    pub open spec fn settings(&self) -> Settings<'_> {
        Settings {
            seed: self.seed,
            variant: self.variant,
            bytes_per_second: self.bytes_per_second,
            block_sizes: &self.block_sizes,
            maximum_prebuild_cache_size_bytes: self.maximum_prebuild_cache_size_bytes,
            block_cache_method: self.block_cache_method,
            throttle: self.throttle,
        }
    }

    /// A generator can be built from the configuration: the shared parts
    /// can be, and the file limit is not zero once cut down to 32 bits.
    pub open spec fn valid(&self) -> bool {
        self.settings().valid(file_block_sizes()) && low_u32(self.maximum_bytes_per_file) != 0
    }
}

/// Why the generator failed.
#[derive(Debug)]
pub enum Error {
    /// The configuration is not valid.
    Config,
    /// The throttle refused its configuration.
    Throttle(crate::throttle::Error),
    /// A file could not be opened, written or removed, with this message.
    Io(String),
    /// The block cache could not be built.
    Block(crate::block::Error),
    /// A worker did not come to an end of its own, with this message.
    Child(String),
}

/// One worker of the generator: a send loop into files of one template.
pub struct Child {
    path_template: String,
    send_loop: SendLoop,
    block_cache: Option<Cache>,
    bytes_per_second: u32,
}

impl View for Child {
    type V = Model;

    /// The state of the send loop.
    closed spec fn view(&self) -> Model {
        self.send_loop@
    }
}

impl Child {
    /// The template of the worker's paths.
    pub closed spec fn template(&self) -> Seq<char> {
        self.path_template@
    }

    /// The rate, in bytes per second.
    pub closed spec fn rate(&self) -> u32 {
        self.bytes_per_second
    }

    /// The block cache, until its producer is taken.
    pub closed spec fn cache(&self) -> Option<Cache> {
        self.block_cache
    }

    /// The state invariant: the send loop and the cache are well formed,
    /// and the loop writes to files.
    pub open spec fn wf(&self) -> bool {
        &&& self@.wf()
        &&& self@.transport == Transport::File
        &&& self.cache() matches Some(cache) ==> cache.wf()
    }

    /// The path of the file that is open.
    pub fn path(&self) -> (r: String)
        ensures
            r@ == substituted(self.template(), index_text(self@.file_index)),
    {
        path_from_template(self.path_template.as_str(), self.send_loop.file_index())
    }

    /// The template of the worker's paths.
    pub fn path_template(&self) -> (r: &String)
        ensures
            r@ == self.template(),
    {
        &self.path_template
    }

    /// The rate, in bytes per second: the size of the write buffer.
    pub fn bytes_per_second(&self) -> (r: u32)
        ensures
            r == self.rate(),
    {
        self.bytes_per_second
    }

    /// How many blocks the hand-off between the producer and the worker may
    /// hold: what the cache admits, or 1024 once the producer is taken.
    pub fn channel_capacity(&self) -> (r: usize)
        requires
            self.wf(),
        ensures
            match self.cache() {
                Some(cache) => cache.admits(r),
                None => r == crate::block::CHANNEL_CAPACITY,
            },
    {
        match &self.block_cache {
            Some(cache) => cache.channel_capacity(),
            None => crate::block::CHANNEL_CAPACITY,
        }
    }

    /// The block that is being written, if any.
    pub fn in_hand(&self) -> (r: Option<&crate::block::Block>)
        ensures
            match r {
                Some(block) => self@.current == Some(*block),
                None => self@.current is None,
            },
    {
        self.send_loop.in_hand()
    }

    /// Hands out the producer of the worker's blocks: the one that the
    /// cache turns into, with its pool or its payload and its sizes. There
    /// is one, and it is handed out once. All else stays as it is.
    pub fn producer(&mut self) -> (r: Option<Producer>)
        requires
            old(self).wf(),
        ensures
            final(self).wf(),
            final(self)@ == old(self)@,
            final(self).template() == old(self).template(),
            final(self).rate() == old(self).rate(),
            final(self).cache() is None,
            r is Some <==> old(self).cache() is Some,
            r matches Some(p) ==> {
                &&& p.wf()
                &&& old(self).cache() matches Some(cache)
                &&& p.of(cache)
            },
    {
        match self.block_cache.take() {
            Some(cache) => Some(cache.into_producer()),
            None => None,
        }
    }

    /// One turn of the worker's loop: takes in what has just happened at
    /// time `now` and answers with what is to be done next and which
    /// counters move. See [`Model::step`].
    pub fn spin(&mut self, event: Event, now: u64) -> (r: Step)
        requires
            old(self).wf(),
            event matches Event::Block(block) ==> block.wf(),
        ensures
            final(self).wf(),
            final(self).cache() == old(self).cache(),
            final(self).template() == old(self).template(),
            final(self).rate() == old(self).rate(),
            (final(self)@, r) == old(self)@.step(event, now),
    {
        proof {
            crate::generator::send_loop::lemma_step_keeps_transport(self@, event, now);
        }
        self.send_loop.step(event, now)
    }
}

/// The file generator: workers that write files, side by side.
pub struct FileGen {
    children: Vec<Child>,
    file_index: IndexCounter,
    metric_labels: Vec<(String, String)>,
    bytes_per_second: u32,
}

/// The first failure among the outcomes, in order; success if there is
/// none.
pub open spec fn first_failure(outcomes: Seq<Result<(), Error>>) -> Result<(), Error>
    decreases outcomes.len(),
{
    if outcomes.len() == 0 {
        Ok(())
    } else if outcomes[0] is Err {
        outcomes[0]
    } else {
        first_failure(outcomes.skip(1))
    }
}

impl FileGen {
    /// The workers that have not been handed out.
    pub closed spec fn workers(&self) -> Seq<Child> {
        self.children@
    }

    /// The counter of file indices.
    pub closed spec fn counter(&self) -> IndexCounter {
        self.file_index
    }

    /// The labels of the generator's metrics.
    pub closed spec fn labels(&self) -> Seq<(Seq<char>, Seq<char>)> {
        label_texts(self.metric_labels@)
    }

    /// The rate of each worker, in bytes per second.
    pub closed spec fn rate(&self) -> u32 {
        self.bytes_per_second
    }

    /// Builds the generator and its workers.
    ///
    /// An invalid configuration fails with `Config`. Each worker gets a
    /// throttle and a block cache of its own, all drawn from one generator
    /// seeded by the configuration; the first that cannot be built fails the
    /// whole with its error: a failure that the configuration makes certain,
    /// see [`certain_failure`], or that of a fixed cache into whose blocks
    /// nothing that was drawn fitted. Else there are `duplicates` workers. Worker
    /// `k` starts with the empty file of index `k` open, and the counter
    /// stands at `duplicates`.
    pub fn new(general: General, config: &Config) -> (r: Result<Self, Error>)
        ensures
            !config.valid() <==> r matches Err(Error::Config),
            config.valid() && config.duplicates == 0 ==> r is Ok,
            config.valid() && config.duplicates > 0 ==> match certain_failure(
                config.settings(),
                file_block_sizes(),
            ) {
                Some(SetupError::Throttle(e)) => r matches Err(Error::Throttle(x)) && x == e,
                Some(SetupError::Block(e)) => r matches Err(Error::Block(x)) && x == e,
                None => r is Ok || r matches Err(Error::Block(crate::block::Error::NoBlocks)),
            },
            config.valid() && certain_success(config.settings(), file_block_sizes()) ==> r is Ok,
            r matches Ok(generator) ==> {
                &&& generator.workers().len() == config.duplicates
                &&& generator.counter().next == config.duplicates
                &&& generator.labels() == labels_for("generator"@, "file_gen"@, general.id)
                &&& generator.rate() == low_u32(config.bytes_per_second)
                &&& forall|k: int|
                    0 <= k < generator.workers().len() ==> {
                        let child = #[trigger] generator.workers()[k];
                        &&& child.wf()
                        &&& child.cache() matches Some(cache) && cache.built_for(
                            config.block_cache_method,
                            config.seed,
                            low_usize(config.maximum_prebuild_cache_size_bytes),
                            as_sizes(sizes_in_force(config.block_sizes, file_block_sizes())),
                            config.variant,
                        )
                        &&& child.template() == config.path_template@
                        &&& child.rate() == low_u32(config.bytes_per_second)
                        &&& throttle_for(config.settings()) == Ok::<
                            Bucket,
                            crate::throttle::Error,
                        >(child@.bucket)
                        &&& child@ == (Model {
                            maximum_bytes_per_file: low_u32(config.maximum_bytes_per_file) as u64,
                            rotate: config.rotate,
                            file_index: k as u32,
                            ..Model::initial(Transport::File, child@.bucket)
                        })
                    }
            },
    {
        let settings = Settings {
            seed: config.seed,
            variant: config.variant,
            bytes_per_second: config.bytes_per_second,
            block_sizes: &config.block_sizes,
            maximum_prebuild_cache_size_bytes: config.maximum_prebuild_cache_size_bytes,
            block_cache_method: config.block_cache_method,
            throttle: config.throttle,
        };
        let defaults = default_file_block_sizes();
        let maximum_bytes_per_file: u32 = truncate_u32(config.maximum_bytes_per_file);
        if !settings.is_valid(&defaults) || maximum_bytes_per_file == 0 {
            return Err(Error::Config);
        }
        let mut rng = rng_from_seed(config.seed);
        let labels = metric_labels("generator", "file_gen", &general.id);
        let bytes_per_second: u32 = truncate_u32(config.bytes_per_second);
        let mut file_index = IndexCounter::new();
        let mut children: Vec<Child> = Vec::new();
        let mut made: u8 = 0;
        while made < config.duplicates
            invariant
                made <= config.duplicates,
                config.valid(),
                settings == config.settings(),
                settings.valid(file_block_sizes()),
                maximum_bytes_per_file == low_u32(config.maximum_bytes_per_file),
                bytes_per_second == low_u32(config.bytes_per_second),
                file_index.next == made,
                children@.len() == made,
                made > 0 ==> certain_failure(config.settings(), file_block_sizes()) is None,
                forall|k: int|
                    0 <= k < children@.len() ==> {
                        let child = #[trigger] children@[k];
                        &&& child.wf()
                        &&& child.cache() matches Some(cache) && cache.built_for(
                            config.block_cache_method,
                            config.seed,
                            low_usize(config.maximum_prebuild_cache_size_bytes),
                            as_sizes(sizes_in_force(config.block_sizes, file_block_sizes())),
                            config.variant,
                        )
                        &&& child.template() == config.path_template@
                        &&& child.rate() == low_u32(config.bytes_per_second)
                        &&& throttle_for(config.settings()) == Ok::<
                            Bucket,
                            crate::throttle::Error,
                        >(child@.bucket)
                        &&& child@ == (Model {
                            maximum_bytes_per_file: low_u32(config.maximum_bytes_per_file) as u64,
                            rotate: config.rotate,
                            file_index: k as u32,
                            ..Model::initial(Transport::File, child@.bucket)
                        })
                    },
            decreases config.duplicates - made,
        {
            let parts = match assemble(
                "file_gen",
                &general,
                &settings,
                default_file_block_sizes(),
                &mut rng,
            ) {
                Ok(parts) => parts,
                Err(SetupError::Throttle(e)) => {
                    return Err(Error::Throttle(e));
                },
                Err(SetupError::Block(e)) => {
                    return Err(Error::Block(e));
                },
            };
            let index: u32 = file_index.fetch_add();
            let child = Child {
                path_template: config.path_template.clone(),
                send_loop: SendLoop::for_file(
                    parts.throttle,
                    maximum_bytes_per_file,
                    config.rotate,
                    index,
                ),
                block_cache: Some(parts.block_cache),
                bytes_per_second,
            };
            children.push(child);
            made += 1;
        }
        Ok(FileGen { children, file_index, metric_labels: labels, bytes_per_second })
    }

    /// The labels of the generator's metrics.
    pub fn metric_labels(&self) -> (r: &Vec<(String, String)>)
        ensures
            label_texts(r@) == self.labels(),
    {
        &self.metric_labels
    }

    /// The rate of each worker, in bytes per second: the value of the gauge
    /// of that name.
    pub fn bytes_per_second(&self) -> (r: u32)
        ensures
            r == self.rate(),
    {
        self.bytes_per_second
    }

    /// Hands out the workers, to be run side by side, and the counter that
    /// they share. None are left behind.
    pub fn children(&mut self) -> (r: (Vec<Child>, IndexCounter))
        ensures
            r.0@ == old(self).workers(),
            r.1 == old(self).counter(),
            final(self).workers().len() == 0,
            final(self).counter() == old(self).counter(),
            final(self).labels() == old(self).labels(),
            final(self).rate() == old(self).rate(),
    {
        let mut out: Vec<Child> = Vec::new();
        out.append(&mut self.children);
        assert(Seq::<Child>::empty() + old(self).children@ =~= old(self).children@);
        (out, self.file_index)
    }

    /// The end of the generator, once the run is over and every worker has
    /// come to its end: the first failure among the workers' outcomes, in
    /// the order of the workers, or success if none failed.
    pub fn spin(self, outcomes: Vec<Result<(), Error>>) -> (r: Result<(), Error>)
        ensures
            r == first_failure(outcomes@),
    {
        let ghost all = outcomes@;
        let mut list = outcomes;
        let mut i: usize = 0;
        assert(all.skip(0) =~= all);
        while i < list.len()
            invariant
                i <= list.len(),
                list@ == all,
                all == outcomes@,
                first_failure(all) == first_failure(all.skip(i as int)),
            decreases list.len() - i,
        {
            let ghost rest = all.skip(i as int);
            assert(rest.len() > 0);
            assert(rest[0] == all[i as int]);
            assert(rest.skip(1) =~= all.skip(i + 1));
            let failed: bool = match &list[i] {
                Ok(_) => false,
                Err(_) => true,
            };
            assert(failed == (rest[0] is Err));
            if failed {
                assert(first_failure(rest) == rest[0]);
                return list.swap_remove(i);
            }
            assert(first_failure(rest) == first_failure(rest.skip(1)));
            i += 1;
        }
        assert(first_failure(all.skip(i as int)) == Ok::<(), Error>(()));
        Ok(())
    }
}

} // verus!
