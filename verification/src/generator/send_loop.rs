//! The send loop: what a generator does, turn by turn.
//!
//! A generator takes blocks from its cache, asks its throttle for as many
//! bytes as the block at the head has, and hands the block to its transport
//! once they are granted. The transport itself — a socket, a file, an RPC
//! channel — is not here. What is here is every decision of the loop: given
//! what has just happened, what is to be done next and which counters move.
//! The caller carries out the action and reports back what came of it.
//!
//! What holds of one turn is stated by [`Model::step`]. What holds of a
//! whole run, whatever is reported and whenever, is stated by
//! [`lemma_written_within_rate`]: a loop whose blocks are within the burst
//! writes no faster than its rate.

use crate::block::Block;
use crate::common::PeekableReceiver;
use crate::throttle::Bucket;
use crate::throttle::Decision;
use crate::throttle::Throttle;
use vstd::prelude::*;

verus! {

/// The kind of transport a send loop drives.
#[derive(Debug, Clone, Copy, PartialEq, Eq, Structural)]
pub enum Transport {
    /// A TCP connection.
    Tcp,
    /// A Unix domain stream socket.
    UnixStream,
    /// Unary gRPC calls over one channel.
    Grpc,
    /// A file on disk.
    File,
}

impl Transport {
    /// Whether the transport has a connection to set up. A file has none.
    pub open spec fn connects(self) -> bool {
        self != Transport::File
    }

    /// How long to wait after a failed connection attempt, in ticks: a
    /// second for TCP, a tenth of a second else.
    pub open spec fn backoff(self) -> u64 {
        if self == Transport::Tcp {
            1_000_000
        } else {
            100_000
        }
    }

    /// Whether a failed write gives up the connection. An RPC channel
    /// outlives a failed call.
    pub open spec fn drops_connection(self) -> bool {
        self == Transport::Tcp || self == Transport::UnixStream
    }

    /// Whether the transport has a connection to set up.
    pub fn has_connection(self) -> (r: bool)
        ensures
            r == self.connects(),
    {
        match self {
            Transport::File => false,
            _ => true,
        }
    }

    /// How long to wait after a failed connection attempt, in ticks.
    pub fn backoff_ticks(self) -> (r: u64)
        ensures
            r == self.backoff(),
    {
        match self {
            Transport::Tcp => 1_000_000,
            _ => 100_000,
        }
    }
}

/// Why a send loop gave up.
#[derive(Debug)]
pub enum Failure {
    /// The cache stopped handing out blocks.
    CacheClosed,
    /// The transport failed in a way that there is no coming back from.
    Io(String),
}

/// What has just happened.
#[derive(Debug)]
pub enum Event {
    /// The cache handed out a block.
    Block(Block),
    /// The cache hung up.
    Closed,
    /// A connection attempt succeeded.
    Connected,
    /// A connection attempt failed, with this message.
    ConnectFailed(String),
    /// A sleep is over.
    Woke,
    /// The transport took this many bytes of the block in hand. A call
    /// carries a whole block, so a loop that makes calls takes no such
    /// report.
    Wrote(usize),
    /// The transport was not ready; nothing was written.
    WouldBlock,
    /// A write failed, with this message.
    WriteFailed(String),
    /// A call that carried the whole block in hand was answered with this
    /// many bytes.
    Responded(usize),
    /// A fresh file with this index is open.
    Rotated(u32),
    /// The run is over.
    Shutdown,
}

/// What is to be done next.
#[derive(Debug)]
pub enum Action {
    /// Wait for a block from the cache.
    Receive,
    /// Try to connect.
    Connect,
    /// Sleep for this many ticks.
    Sleep(u64),
    /// Write the block in hand, from this offset on.
    Write(usize),
    /// Flush the file, unlink it if `remove` is set, and open the next one.
    Rotate {
        /// Whether the full file is to be unlinked.
        remove: bool,
    },
    /// Flush what is buffered and end with success.
    Stop,
    /// End with this failure.
    Fail(Failure),
}

/// Which counters move.
#[derive(Debug)]
pub enum Update {
    /// None.
    Nothing,
    /// `connection_failure` by one, labelled with the error.
    ConnectionFailure(String),
    /// `request_failure` by one, labelled with the error.
    RequestFailure(String),
    /// `requests_sent` by one.
    RequestSent,
    /// `bytes_written` by `bytes`, and `packets_sent` by `packets`.
    Written {
        /// The bytes that the transport took.
        bytes: u64,
        /// One if a block was completed, else zero.
        packets: u64,
    },
    /// `bytes_written` by `bytes`, `request_ok` by one and `response_bytes`
    /// by `response_bytes`.
    Answered {
        /// The bytes of the block that was sent.
        bytes: u64,
        /// The bytes of the answer.
        response_bytes: u64,
    },
}

/// The answer of a send loop to an event.
#[derive(Debug)]
pub struct Step {
    /// What is to be done next.
    pub action: Action,
    /// Which counters move.
    pub update: Update,
}

/// Where a send loop stands.
#[derive(Debug, Clone, Copy, PartialEq, Eq, Structural)]
pub enum Phase {
    /// It waits for a block.
    Receiving,
    /// It waits for a connection attempt to end.
    Connecting,
    /// It sits out the pause after a failed attempt.
    BackingOff,
    /// It waits for the throttle; the wait is this many ticks.
    Throttled(u64),
    /// It waits for a write to end.
    Writing,
    /// It waits for the next file.
    Rotating,
    /// It has ended.
    Stopped,
}

/// The state of a send loop as contracts speak of it.
pub struct Model {
    /// The transport.
    pub transport: Transport,
    /// The throttle's bucket.
    pub bucket: Bucket,
    /// The blocks that have arrived and not been taken, oldest first.
    pub queue: Seq<Block>,
    /// The block that is being written.
    pub current: Option<Block>,
    /// How much of it has been written.
    pub offset: usize,
    /// Whether there is a connection.
    pub connected: bool,
    /// Where the loop stands.
    pub phase: Phase,
    /// The size above which a file is full.
    pub maximum_bytes_per_file: u64,
    /// The bytes written into the file that is open.
    pub total_bytes_written: u64,
    /// Whether full files are unlinked.
    pub rotate: bool,
    /// The index of the file that is open.
    pub file_index: u32,
}

/// Every one of the blocks is well formed.
pub open spec fn all_wf(blocks: Seq<Block>) -> bool {
    forall|i: int| 0 <= i < blocks.len() ==> (#[trigger] blocks[i]).wf()
}

impl Model {
    /// The state invariant: the bucket and all blocks are well formed; the
    /// offset lies inside the block in hand, and without such a block it
    /// is zero, as it is for a loop that makes calls; only a file transport
    /// counts bytes towards a limit, and while it writes, its file is not
    /// over that limit by more than the part of the block in hand that is
    /// out.
    pub open spec fn wf(self) -> bool {
        &&& self.bucket.wf()
        &&& all_wf(self.queue)
        &&& match self.current {
            Some(block) => block.wf() && self.offset < block.bytes@.len(),
            None => self.offset == 0,
        }
        &&& self.transport == Transport::Grpc ==> self.offset == 0
        &&& self.maximum_bytes_per_file <= u32::MAX
        &&& self.transport != Transport::File ==> self.total_bytes_written == 0
        &&& self.total_bytes_written <= self.maximum_bytes_per_file + u32::MAX
        &&& self.phase != Phase::Rotating && self.phase != Phase::Stopped ==> self.settled()
    }

    /// The file that is open is not over its limit by more than the part of
    /// the block in hand that is written.
    pub open spec fn settled(self) -> bool {
        self.total_bytes_written <= self.maximum_bytes_per_file + self.offset
    }

    /// A loop at its start: nothing received, nothing in hand, no
    /// connection, waiting for its first block, no file limit.
    pub open spec fn initial(transport: Transport, bucket: Bucket) -> Model {
        Model {
            transport,
            bucket,
            queue: Seq::empty(),
            current: None,
            offset: 0,
            connected: false,
            phase: Phase::Receiving,
            maximum_bytes_per_file: 0,
            total_bytes_written: 0,
            rotate: false,
            file_index: 0,
        }
    }

    /// The loop with another phase.
    pub open spec fn at(self, phase: Phase) -> Model {
        Model { phase, ..self }
    }

    /// The action that goes with the phase the loop is in: what the caller
    /// is waiting for, said again.
    pub open spec fn standing(self) -> Action {
        match self.phase {
            Phase::Receiving => Action::Receive,
            Phase::Connecting => Action::Connect,
            Phase::BackingOff => Action::Sleep(self.transport.backoff()),
            Phase::Throttled(ticks) => Action::Sleep(ticks),
            Phase::Writing => Action::Write(self.offset),
            Phase::Rotating => Action::Rotate { remove: self.rotate },
            Phase::Stopped => Action::Stop,
        }
    }

    /// What to do when nothing is under way.
    ///
    /// A block in hand is written on. Without one, and without a block in
    /// the queue, one is waited for. A transport that connects and has no
    /// connection connects first: no block is taken while disconnected.
    /// Else the throttle is asked for the bytes of the head. If they are
    /// granted, the head is taken and written from its start; if not, the
    /// loop sleeps for as long as the throttle says, and the head stays
    /// where it is. A head larger than the burst, which the throttle can
    /// never grant, is not held back: it is taken at once, and nothing is
    /// charged for it.
    ///
    /// This is meant. The throttle's refusal of such a request is no
    /// failure of the loop, and a loop that waited for it would never send
    /// again, so the block goes out beside the throttle. The rate then
    /// bounds only the blocks within the burst: with the burst left at one
    /// second's bytes, a generator whose block sizes are above its rate
    /// sends them as fast as the transport takes them. Whoever wants the
    /// rate kept sets block sizes at or below the burst.
    pub open spec fn decide(self, now: u64) -> (Model, Step) {
        if self.current is Some {
            (
                self.at(Phase::Writing),
                Step { action: Action::Write(self.offset), update: Update::Nothing },
            )
        } else if self.queue.len() == 0 {
            (self.at(Phase::Receiving), Step { action: Action::Receive, update: Update::Nothing })
        } else if self.transport.connects() && !self.connected {
            (self.at(Phase::Connecting), Step { action: Action::Connect, update: Update::Nothing })
        } else {
            let bytes = self.queue[0].total_bytes;
            let filled = self.bucket.refilled(now);
            if bytes > self.bucket.max_burst || filled.accumulated >= bytes {
                (
                    Model {
                        phase: Phase::Writing,
                        bucket: if bytes > self.bucket.max_burst {
                            self.bucket
                        } else {
                            filled.charged(bytes)
                        },
                        current: Some(self.queue[0]),
                        queue: self.queue.skip(1),
                        offset: 0,
                        ..self
                    },
                    Step {
                        action: Action::Write(0),
                        update: if self.transport == Transport::Grpc {
                            Update::RequestSent
                        } else {
                            Update::Nothing
                        },
                    },
                )
            } else {
                let ticks = filled.wait_for(bytes) as u64;
                (
                    Model { phase: Phase::Throttled(ticks), bucket: filled, ..self },
                    Step { action: Action::Sleep(ticks), update: Update::Nothing },
                )
            }
        }
    }

    /// The loop after `written` more bytes of the block in hand went out,
    /// and its answer.
    ///
    /// No more is counted than the block had left. A block that is not yet
    /// out is written on. Once it is out, a packet is counted; a file that
    /// has grown past its limit is rotated; and otherwise the next block is
    /// decided on.
    pub open spec fn wrote(self, written: usize, now: u64) -> (Model, Step) {
        let block = self.current->Some_0;
        let left = block.bytes@.len() - self.offset;
        let taken = if written < left {
            written as int
        } else {
            left
        };
        let in_file = if self.transport == Transport::File {
            (self.total_bytes_written + taken) as u64
        } else {
            self.total_bytes_written
        };
        if taken < left {
            (
                Model { offset: (self.offset + taken) as usize, total_bytes_written: in_file, ..self },
                Step {
                    action: Action::Write((self.offset + taken) as usize),
                    update: Update::Written { bytes: taken as u64, packets: 0 },
                },
            )
        } else {
            let done = Model { current: None, offset: 0, total_bytes_written: in_file, ..self };
            if self.transport == Transport::File && in_file > self.maximum_bytes_per_file {
                (
                    done.at(Phase::Rotating),
                    Step {
                        action: Action::Rotate { remove: self.rotate },
                        update: Update::Written { bytes: taken as u64, packets: 1 },
                    },
                )
            } else {
                (
                    done.decide(now).0,
                    Step {
                        action: done.decide(now).1.action,
                        update: Update::Written { bytes: taken as u64, packets: 1 },
                    },
                )
            }
        }
    }

    /// The loop after `event` at time `now`, and its answer.
    ///
    /// A loop that has ended stays ended. The end of the run ends it with
    /// success, the loss of the cache with a failure. A block joins the
    /// queue. Every other event counts only in the phase that waits for it
    /// and for the transport that can report it: a partial write is no
    /// report of a loop that makes calls, an answer none of the others.
    /// Elsewhere it changes nothing, and the answer is the standing action.
    pub open spec fn step(self, event: Event, now: u64) -> (Model, Step) {
        let unmoved = (self, Step { action: self.standing(), update: Update::Nothing });
        if self.phase == Phase::Stopped {
            unmoved
        } else {
            match event {
                Event::Shutdown => (
                    self.at(Phase::Stopped),
                    Step { action: Action::Stop, update: Update::Nothing },
                ),
                Event::Closed => (
                    self.at(Phase::Stopped),
                    Step { action: Action::Fail(Failure::CacheClosed), update: Update::Nothing },
                ),
                Event::Block(block) => {
                    let more = Model { queue: self.queue.push(block), ..self };
                    if self.phase == Phase::Receiving {
                        more.decide(now)
                    } else {
                        (more, Step { action: more.standing(), update: Update::Nothing })
                    }
                },
                Event::Connected => if self.phase == Phase::Connecting {
                    Model { connected: true, ..self }.decide(now)
                } else {
                    unmoved
                },
                Event::ConnectFailed(error) => if self.phase == Phase::Connecting {
                    (
                        self.at(Phase::BackingOff),
                        Step {
                            action: Action::Sleep(self.transport.backoff()),
                            update: Update::ConnectionFailure(error),
                        },
                    )
                } else {
                    unmoved
                },
                Event::Woke => if self.phase == Phase::BackingOff {
                    (
                        self.at(Phase::Connecting),
                        Step { action: Action::Connect, update: Update::Nothing },
                    )
                } else if self.phase is Throttled {
                    self.decide(now)
                } else {
                    unmoved
                },
                Event::Wrote(written) => if self.phase == Phase::Writing && self.current is Some
                    && self.transport != Transport::Grpc {
                    self.wrote(written, now)
                } else {
                    unmoved
                },
                Event::WouldBlock => unmoved,
                Event::WriteFailed(error) => if self.phase == Phase::Writing
                    && self.current is Some {
                    if self.transport == Transport::File {
                        (
                            Model { current: None, offset: 0, phase: Phase::Stopped, ..self },
                            Step {
                                action: Action::Fail(Failure::Io(error)),
                                update: Update::Nothing,
                            },
                        )
                    } else {
                        let dropped = Model {
                            current: None,
                            offset: 0,
                            connected: self.connected && !self.transport.drops_connection(),
                            ..self
                        };
                        (
                            dropped.decide(now).0,
                            Step {
                                action: dropped.decide(now).1.action,
                                update: Update::RequestFailure(error),
                            },
                        )
                    }
                } else {
                    unmoved
                },
                Event::Responded(response_bytes) => if self.phase == Phase::Writing
                    && self.current is Some && self.transport == Transport::Grpc {
                    let done = Model { current: None, offset: 0, ..self };
                    (
                        done.decide(now).0,
                        Step {
                            action: done.decide(now).1.action,
                            update: Update::Answered {
                                bytes: self.current->Some_0.total_bytes as u64,
                                response_bytes: response_bytes as u64,
                            },
                        },
                    )
                } else {
                    unmoved
                },
                Event::Rotated(index) => if self.phase == Phase::Rotating {
                    Model { file_index: index, total_bytes_written: 0, ..self }.decide(now)
                } else {
                    unmoved
                },
            }
        }
    }
}

/// Deciding keeps a loop well formed, if its file is within its limit.
pub proof fn lemma_decide_keeps_wf(m: Model, now: u64)
    requires
        m.at(Phase::Receiving).wf(),
    ensures
        m.decide(now).0.wf(),
{
    crate::throttle::lemma_refilled(m.bucket, now);
    if m.queue.len() > 0 {
        let rest = m.queue.skip(1);
        assert(m.queue[0].wf());
        assert forall|i: int| 0 <= i < rest.len() implies (#[trigger] rest[i]).wf() by {
            assert(m.queue[i + 1].wf());
        }
    }
}

/// A step keeps a well-formed loop well formed.
pub proof fn lemma_step_keeps_wf(m: Model, event: Event, now: u64)
    requires
        m.wf(),
        event matches Event::Block(block) ==> block.wf(),
    ensures
        m.step(event, now).0.wf(),
{
    if m.phase != Phase::Stopped {
        match event {
            Event::Block(block) => {
                let more = Model { queue: m.queue.push(block), ..m };
                assert(all_wf(more.queue));
                if m.phase == Phase::Receiving {
                    lemma_decide_keeps_wf(more, now);
                }
            },
            Event::Connected => {
                if m.phase == Phase::Connecting {
                    lemma_decide_keeps_wf(Model { connected: true, ..m }, now);
                }
            },
            Event::Woke => {
                if m.phase is Throttled {
                    lemma_decide_keeps_wf(m, now);
                }
            },
            Event::Wrote(written) => {
                if m.phase == Phase::Writing && m.current is Some {
                    let left = m.current->Some_0.bytes@.len() - m.offset;
                    let in_file = if m.transport == Transport::File {
                        (m.total_bytes_written + left) as u64
                    } else {
                        m.total_bytes_written
                    };
                    let done = Model { current: None, offset: 0, total_bytes_written: in_file, ..m };
                    if written >= left && !(m.transport == Transport::File && in_file
                        > m.maximum_bytes_per_file) {
                        lemma_decide_keeps_wf(done, now);
                    }
                }
            },
            Event::WriteFailed(error) => {
                if m.phase == Phase::Writing && m.current is Some && m.transport
                    != Transport::File {
                    lemma_decide_keeps_wf(
                        Model {
                            current: None,
                            offset: 0,
                            connected: m.connected && !m.transport.drops_connection(),
                            ..m
                        },
                        now,
                    );
                }
            },
            Event::Responded(response_bytes) => {
                if m.phase == Phase::Writing && m.current is Some && m.transport
                    == Transport::Grpc {
                    lemma_decide_keeps_wf(Model { current: None, offset: 0, ..m }, now);
                }
            },
            Event::Rotated(index) => {
                if m.phase == Phase::Rotating {
                    lemma_decide_keeps_wf(
                        Model { file_index: index, total_bytes_written: 0, ..m },
                        now,
                    );
                }
            },
            _ => {},
        }
    }
}

/// Deciding changes neither the transport nor the file limit nor whether
/// full files are unlinked nor the index of the open file.
pub proof fn lemma_decide_keeps_settings(m: Model, now: u64)
    ensures
        m.decide(now).0.transport == m.transport,
        m.decide(now).0.maximum_bytes_per_file == m.maximum_bytes_per_file,
        m.decide(now).0.rotate == m.rotate,
        m.decide(now).0.file_index == m.file_index,
{
}

/// A step changes neither the transport nor the file limit nor whether full
/// files are unlinked.
pub proof fn lemma_step_keeps_transport(m: Model, event: Event, now: u64)
    ensures
        m.step(event, now).0.transport == m.transport,
        m.step(event, now).0.maximum_bytes_per_file == m.maximum_bytes_per_file,
        m.step(event, now).0.rotate == m.rotate,
{
    if m.phase != Phase::Stopped {
        match event {
            Event::Block(block) => {
                lemma_decide_keeps_settings(Model { queue: m.queue.push(block), ..m }, now);
            },
            Event::Connected => {
                lemma_decide_keeps_settings(Model { connected: true, ..m }, now);
            },
            Event::Woke => {
                lemma_decide_keeps_settings(m, now);
            },
            Event::Wrote(written) => {
                if m.phase == Phase::Writing && m.current is Some {
                    let left = m.current->Some_0.bytes@.len() - m.offset;
                    let in_file = if m.transport == Transport::File {
                        (m.total_bytes_written + left) as u64
                    } else {
                        m.total_bytes_written
                    };
                    lemma_decide_keeps_settings(
                        Model { current: None, offset: 0, total_bytes_written: in_file, ..m },
                        now,
                    );
                }
            },
            Event::WriteFailed(error) => {
                lemma_decide_keeps_settings(
                    Model {
                        current: None,
                        offset: 0,
                        connected: m.connected && !m.transport.drops_connection(),
                        ..m
                    },
                    now,
                );
            },
            Event::Responded(response_bytes) => {
                lemma_decide_keeps_settings(Model { current: None, offset: 0, ..m }, now);
            },
            Event::Rotated(index) => {
                lemma_decide_keeps_settings(
                    Model { file_index: index, total_bytes_written: 0, ..m },
                    now,
                );
            },
            _ => {},
        }
    }
}

/// No block is taken without a connection, and none that the throttle can
/// grant without its leave. Whenever a step takes a block in hand, the
/// transport is one that needs no connection or is connected, and the block
/// is the head of what had arrived. If the block is no larger than the
/// burst, the bucket, filled up to the time of the step, held the block's
/// bytes and has been charged exactly those; a larger block leaves the
/// bucket as it was.
pub proof fn lemma_taking_a_block(m: Model, event: Event, now: u64)
    requires
        m.wf(),
        event matches Event::Block(block) ==> block.wf(),
        m.current is None,
        m.step(event, now).0.current is Some,
    ensures
        ({
            let after = m.step(event, now).0;
            let arrived = match event {
                Event::Block(block) => m.queue.push(block),
                _ => m.queue,
            };
            let block = after.current->Some_0;
            &&& !m.transport.connects() || after.connected
            &&& arrived.len() > 0
            &&& block == arrived[0]
            &&& after.queue == arrived.skip(1)
            &&& after.offset == 0
            &&& block.total_bytes <= m.bucket.max_burst ==> {
                &&& m.bucket.refilled(now).accumulated >= block.total_bytes
                &&& after.bucket == m.bucket.refilled(now).charged(block.total_bytes)
            }
            &&& block.total_bytes > m.bucket.max_burst ==> after.bucket == m.bucket
        }),
{
}

/// While the loop is not connected, failed attempts are counted and nothing
/// else is: an attempt that fails moves `connection_failure` and no other
/// counter, takes no block, and is followed by the transport's pause.
pub proof fn lemma_failed_attempt(m: Model, error: String, now: u64)
    requires
        m.wf(),
        m.phase == Phase::Connecting,
    ensures
        ({
            let (after, step) = m.step(Event::ConnectFailed(error), now);
            &&& step.update == Update::ConnectionFailure(error)
            &&& step.action == Action::Sleep(m.transport.backoff())
            &&& after == m.at(Phase::BackingOff)
            &&& after.step(Event::Woke, now).1.action == Action::Connect
            &&& after.step(Event::Woke, now).0 == m
        }),
{
}

/// Rotation. When a write completes a block and leaves the open file above
/// its limit, the answer is to rotate, unlinking the full file exactly if
/// the loop is set to; nothing is written until the next file is reported;
/// and with that report the count of bytes starts again at zero under the
/// reported index.
pub proof fn lemma_rotation(m: Model, written: usize, index: u32, now: u64)
    requires
        m.wf(),
        m.transport == Transport::File,
        m.phase == Phase::Writing,
        m.current is Some,
        written >= m.current->Some_0.bytes@.len() - m.offset,
    ensures
        ({
            let (after, step) = m.step(Event::Wrote(written), now);
            let left = m.current->Some_0.bytes@.len() - m.offset;
            let crossed = m.total_bytes_written + left > m.maximum_bytes_per_file;
            &&& after.total_bytes_written == m.total_bytes_written + left
            &&& step.update == Update::Written { bytes: left as u64, packets: 1 }
            &&& crossed <==> step.action == Action::Rotate { remove: m.rotate }
            &&& crossed ==> {
                &&& after.phase == Phase::Rotating
                &&& after.step(Event::Wrote(written), now).0 == after
                &&& after.step(Event::Rotated(index), now).0.file_index == index
                &&& after.step(Event::Rotated(index), now).0.total_bytes_written == 0
            }
        }),
{
    let (after, step) = m.step(Event::Wrote(written), now);
    let left = m.current->Some_0.bytes@.len() - m.offset;
    let done = Model {
        current: None,
        offset: 0,
        total_bytes_written: (m.total_bytes_written + left) as u64,
        ..m
    };
    if m.total_bytes_written + left <= m.maximum_bytes_per_file {
        // Not over the limit: the answer is that of `decide`, which never rotates.
        assert(!(done.decide(now).1.action is Rotate));
    }
}

/// A loop that has ended stays ended, whatever is reported to it.
pub proof fn lemma_stopped_is_final(m: Model, event: Event, now: u64)
    requires
        m.phase == Phase::Stopped,
    ensures
        m.step(event, now).0 == m,
        m.step(event, now).1.action == Action::Stop,
{
}

/// The end of the run ends the loop at once, in whatever phase it is.
pub proof fn lemma_shutdown_stops(m: Model, now: u64)
    ensures
        m.step(Event::Shutdown, now).0.phase == Phase::Stopped,
        m.step(Event::Shutdown, now).1.action == Action::Stop,
{
}

/// The throttle holds a block back no longer than it must. A loop that is
/// told to sleep for its throttle, and is woken once that long has passed,
/// takes the block at the head at once and writes it from its start.
pub proof fn lemma_woken_loop_takes_its_block(m: Model, now: u64, later: u64)
    requires
        m.wf(),
        m.current is None,
        m.queue.len() > 0,
        !m.transport.connects() || m.connected,
        m.bucket.last_refill <= now,
        m.phase != Phase::Stopped,
        m.decide(now).1.action matches Action::Sleep(ticks) && later >= now + ticks,
    ensures
        ({
            let waiting = m.decide(now).0;
            let (after, step) = waiting.step(Event::Woke, later);
            &&& waiting.phase is Throttled
            &&& step.action == Action::Write(0)
            &&& after.current == Some(m.queue[0])
            &&& after.queue == m.queue.skip(1)
        }),
{
    let bytes = m.queue[0].total_bytes;
    let filled = m.bucket.refilled(now);
    crate::throttle::lemma_refilled(m.bucket, now);
    assert(m.queue[0].wf());
    crate::throttle::lemma_shortest_wait(filled, bytes, filled.wait_for(bytes) as u64);
    crate::throttle::lemma_granted_after_wait(filled, bytes, later);
}

/// One turn of a loop: what happened, and when.
pub struct Turn {
    /// What happened.
    pub event: Event,
    /// The time at which it is reported, in ticks.
    pub at: u64,
}

/// The turns come at times that never go back, none before `start`.
pub open spec fn turns_in_order(start: u64, turns: Seq<Turn>) -> bool
    decreases turns.len(),
{
    turns.len() > 0 ==> start <= turns[0].at && turns_in_order(turns[0].at, turns.skip(1))
}

/// The time of the last turn, or `start` if there is none.
pub open spec fn last_turn(start: u64, turns: Seq<Turn>) -> u64 {
    if turns.len() == 0 {
        start
    } else {
        turns.last().at
    }
}

/// Every block that arrives in the turns is well formed and no larger than
/// `burst`.
pub open spec fn arrivals_within(turns: Seq<Turn>, burst: u32) -> bool {
    forall|i: int|
        0 <= i < turns.len() ==> ((#[trigger] turns[i]).event matches Event::Block(block)
            ==> block.wf() && block.total_bytes <= burst)
}

/// The bytes that an update adds to `bytes_written`.
pub open spec fn written_by(update: Update) -> int {
    match update {
        Update::Written { bytes, packets } => bytes as int,
        Update::Answered { bytes, response_bytes } => bytes as int,
        _ => 0,
    }
}

/// The bytes that the loop reports as written over the turns, taken one
/// after the other.
pub open spec fn written_over(m: Model, turns: Seq<Turn>) -> int
    decreases turns.len(),
{
    if turns.len() == 0 {
        0
    } else {
        let (next, step) = m.step(turns[0].event, turns[0].at);
        written_by(step.update) + written_over(next, turns.skip(1))
    }
}

impl Model {
    /// The loop after the turns, taken one after the other.
    pub open spec fn after(self, turns: Seq<Turn>) -> Model
        decreases turns.len(),
    {
        if turns.len() == 0 {
            self
        } else {
            self.step(turns[0].event, turns[0].at).0.after(turns.skip(1))
        }
    }

    /// No block that waits in the queue is larger than the burst.
    pub open spec fn within_burst(self) -> bool {
        forall|i: int|
            0 <= i < self.queue.len() ==> (#[trigger] self.queue[i]).total_bytes
                <= self.bucket.max_burst
    }

    /// The bytes of the block in hand that are not written yet: what the
    /// loop may write without asking its throttle again.
    pub open spec fn owed(self) -> int {
        match self.current {
            Some(block) => block.bytes@.len() - self.offset,
            None => 0,
        }
    }

    /// What the loop can write by the time `now` without the bucket
    /// filling further, in millionths of a byte: what the bucket holds at
    /// that time, and what is owed.
    pub open spec fn credit(self, now: u64) -> int {
        self.bucket.refilled(now).balance() + self.owed() * (crate::throttle::TICKS_PER_SECOND as int)
    }
}

/// A bucket that was filled up to a time, and charged or not, is not
/// changed by filling it up to that time again.
proof fn lemma_refilled_twice(b: Bucket, bytes: u32, now: u64)
    requires
        b.wf(),
    ensures
        b.refilled(now).refilled(now) == b.refilled(now),
        b.refilled(now).charged(bytes).refilled(now) == b.refilled(now).charged(bytes),
{
}

/// Deciding where no block in the queue is above the burst does not raise
/// the credit of the loop, and leaves rate and burst as they were.
proof fn lemma_decide_keeps_credit(m: Model, now: u64)
    requires
        m.at(Phase::Receiving).wf(),
        m.within_burst(),
    ensures
        m.decide(now).0.wf(),
        m.decide(now).0.within_burst(),
        m.decide(now).0.bucket.capacity_per_second == m.bucket.capacity_per_second,
        m.decide(now).0.bucket.max_burst == m.bucket.max_burst,
        m.decide(now).0.credit(now) <= m.credit(now),
{
    lemma_decide_keeps_wf(m, now);
    crate::throttle::lemma_refilled(m.bucket, now);
    lemma_refilled_twice(m.bucket, 0, now);
    if m.current is None && m.queue.len() > 0 {
        let head = m.queue[0];
        let rest = m.queue.skip(1);
        assert(head.wf());
        assert(head.total_bytes <= m.bucket.max_burst);
        lemma_refilled_twice(m.bucket, head.total_bytes, now);
        assert forall|i: int| 0 <= i < rest.len() implies (#[trigger] rest[i]).total_bytes
            <= m.bucket.max_burst by {
            assert(m.queue[i + 1].total_bytes <= m.bucket.max_burst);
        }
    }
}

/// The loop `after` and its `step` spend no more than the credit that the
/// loop `m` has at the time `now`, and are as well formed as it is.
pub open spec fn within_credit(m: Model, after: Model, step: Step, now: u64) -> bool {
    &&& after.wf()
    &&& after.within_burst()
    &&& after.bucket.capacity_per_second == m.bucket.capacity_per_second
    &&& after.bucket.max_burst == m.bucket.max_burst
    &&& written_by(step.update) >= 0
    &&& written_by(step.update) * (crate::throttle::TICKS_PER_SECOND as int) + after.credit(now)
        <= m.credit(now)
}

/// A loop that lets go of the block in hand, and then decides, spends no
/// credit.
proof fn lemma_dropped_within_credit(m: Model, dropped: Model, update: Update, now: u64)
    requires
        m.wf(),
        m.within_burst(),
        m.transport != Transport::File,
        dropped.current is None,
        dropped.offset == 0,
        dropped.bucket == m.bucket,
        dropped.queue == m.queue,
        dropped.transport == m.transport,
        dropped.maximum_bytes_per_file == m.maximum_bytes_per_file,
        dropped.total_bytes_written == m.total_bytes_written,
        written_by(update) == 0,
    ensures
        within_credit(
            m,
            dropped.decide(now).0,
            Step { action: dropped.decide(now).1.action, update },
            now,
        ),
{
    lemma_decide_keeps_credit(dropped, now);
}

/// A write spends what it takes of the block in hand, and no more.
proof fn lemma_wrote_within_credit(m: Model, written: usize, now: u64)
    requires
        m.wf(),
        m.within_burst(),
        m.phase == Phase::Writing,
        m.current is Some,
        m.transport != Transport::Grpc,
    ensures
        within_credit(m, m.wrote(written, now).0, m.wrote(written, now).1, now),
{
    let left = m.current->Some_0.bytes@.len() - m.offset;
    let in_file = if m.transport == Transport::File {
        (m.total_bytes_written + left) as u64
    } else {
        m.total_bytes_written
    };
    let done = Model { current: None, offset: 0, total_bytes_written: in_file, ..m };
    if written >= left {
        if m.transport == Transport::File && in_file > m.maximum_bytes_per_file {
            assert(m.wrote(written, now).0 == done.at(Phase::Rotating));
        } else {
            lemma_decide_keeps_credit(done, now);
            assert(m.wrote(written, now).0 == done.decide(now).0);
            assert(done.credit(now) + left * (crate::throttle::TICKS_PER_SECOND as int) == m.credit(
                now,
            ));
        }
    }
}

/// One step under the rate. Where no block is above the burst, what a step
/// reports as written comes out of the credit of the loop: written bytes
/// and the credit left are together no more than the credit before.
pub proof fn lemma_step_within_credit(m: Model, event: Event, now: u64)
    requires
        m.wf(),
        m.within_burst(),
        event matches Event::Block(block) ==> block.wf() && block.total_bytes <= m.bucket.max_burst,
    ensures
        within_credit(m, m.step(event, now).0, m.step(event, now).1, now),
{
    let unmoved = (m, Step { action: m.standing(), update: Update::Nothing });
    assert(within_credit(m, unmoved.0, unmoved.1, now));
    if m.phase != Phase::Stopped {
        match event {
            Event::Block(block) => {
                let more = Model { queue: m.queue.push(block), ..m };
                assert(all_wf(more.queue));
                assert(more.within_burst());
                if m.phase == Phase::Receiving {
                    lemma_decide_keeps_credit(more, now);
                } else {
                    assert(more.wf());
                }
            },
            Event::Connected => {
                if m.phase == Phase::Connecting {
                    let joined = Model { connected: true, ..m };
                    lemma_decide_keeps_credit(joined, now);
                }
            },
            Event::Woke => {
                if m.phase is Throttled {
                    lemma_decide_keeps_credit(m, now);
                }
            },
            Event::Wrote(written) => {
                if m.phase == Phase::Writing && m.current is Some && m.transport
                    != Transport::Grpc {
                    lemma_wrote_within_credit(m, written, now);
                }
            },
            Event::WriteFailed(error) => {
                if m.phase == Phase::Writing && m.current is Some && m.transport
                    != Transport::File {
                    lemma_dropped_within_credit(
                        m,
                        Model {
                            current: None,
                            offset: 0,
                            connected: m.connected && !m.transport.drops_connection(),
                            ..m
                        },
                        Update::RequestFailure(error),
                        now,
                    );
                }
            },
            Event::Responded(response_bytes) => {
                if m.phase == Phase::Writing && m.current is Some && m.transport
                    == Transport::Grpc {
                    let done = Model { current: None, offset: 0, ..m };
                    lemma_decide_keeps_credit(done, now);
                    assert(done.credit(now) + m.current->Some_0.total_bytes * (
                    crate::throttle::TICKS_PER_SECOND as int) == m.credit(now));
                }
            },
            Event::Rotated(index) => {
                if m.phase == Phase::Rotating {
                    let fresh = Model { file_index: index, total_bytes_written: 0, ..m };
                    lemma_decide_keeps_credit(fresh, now);
                }
            },
            _ => {},
        }
    }
}

/// The last turn of an ordered run is not before its start.
proof fn lemma_last_turn(start: u64, turns: Seq<Turn>)
    requires
        turns_in_order(start, turns),
    ensures
        start <= last_turn(start, turns),
    decreases turns.len(),
{
    if turns.len() > 0 {
        let rest = turns.skip(1);
        lemma_last_turn(turns[0].at, rest);
        if rest.len() > 0 {
            assert(rest.last() == turns.last());
        }
    }
}

/// The credit of a loop grows with time by no more than the rate.
proof fn lemma_credit_grows_with_rate(m: Model, earlier: u64, later: u64)
    requires
        m.bucket.wf(),
        earlier <= later,
    ensures
        m.credit(later) <= m.credit(earlier) + m.bucket.capacity_per_second * (later - earlier),
{
    let b = m.bucket;
    let cap = b.capacity_per_second as int;
    crate::throttle::lemma_refill_composes(b, earlier, later);
    crate::throttle::lemma_refilled(b, earlier);
    crate::throttle::lemma_refilled(b.refilled(earlier), later);
    let mid = b.refilled(earlier);
    if later >= mid.last_refill {
        assert(cap * (later - mid.last_refill) <= cap * (later - earlier)) by (nonlinear_arith)
            requires
                cap >= 0,
                later - mid.last_refill <= later - earlier,
        ;
    } else {
        assert(cap * (later - earlier) >= 0) by (nonlinear_arith)
            requires
                cap >= 0,
                later - earlier >= 0,
        ;
    }
}

/// The rate ceiling on what is written. From any well-formed loop, over
/// any run of turns that come in the order of time, in which no block is
/// above the burst: the bytes reported as written, and the credit that is
/// left at the last turn, are no more than the credit at the start and what
/// the rate yields over the time passed.
pub proof fn lemma_run_within_credit(m: Model, start: u64, turns: Seq<Turn>)
    requires
        m.wf(),
        m.within_burst(),
        turns_in_order(start, turns),
        arrivals_within(turns, m.bucket.max_burst),
    ensures
        m.after(turns).wf(),
        m.after(turns).within_burst(),
        written_over(m, turns) >= 0,
        written_over(m, turns) * (crate::throttle::TICKS_PER_SECOND as int) + m.after(turns).credit(
            last_turn(start, turns),
        ) <= m.credit(start) + m.bucket.capacity_per_second * (last_turn(start, turns) - start),
    decreases turns.len(),
{
    if turns.len() > 0 {
        let first = turns[0];
        let rest = turns.skip(1);
        let (next, step) = m.step(first.event, first.at);
        lemma_step_within_credit(m, first.event, first.at);
        assert(within_credit(m, next, step, first.at));
        lemma_credit_grows_with_rate(m, start, first.at);
        assert(arrivals_within(rest, next.bucket.max_burst)) by {
            assert forall|i: int| 0 <= i < rest.len() implies ((#[trigger] rest[i]).event matches Event::Block(
                block,
            ) ==> block.wf() && block.total_bytes <= next.bucket.max_burst) by {
                assert(rest[i] == turns[i + 1]);
            }
        }
        lemma_run_within_credit(next, first.at, rest);
        lemma_last_turn(first.at, rest);
        let end = last_turn(start, turns);
        assert(end == last_turn(first.at, rest)) by {
            if rest.len() > 0 {
                assert(rest.last() == turns.last());
            }
        }
        let cap = m.bucket.capacity_per_second as int;
        let d1 = first.at - start;
        let d2 = end - first.at;
        assert(cap * d1 + cap * d2 == cap * (end - start)) by (nonlinear_arith)
            requires
                d1 + d2 == end - start,
        ;
    }
}

/// The rate ceiling of a generator. Over any window of time, a loop whose
/// blocks are all within the burst writes no more than the burst, and what
/// the rate yields over the window, beyond what was left of the block that
/// it had in hand when the window began.
pub proof fn lemma_written_within_rate(m: Model, start: u64, turns: Seq<Turn>)
    requires
        m.wf(),
        m.within_burst(),
        turns_in_order(start, turns),
        arrivals_within(turns, m.bucket.max_burst),
    ensures
        (written_over(m, turns) - m.owed()) * (crate::throttle::TICKS_PER_SECOND as int)
            <= m.bucket.max_burst * (crate::throttle::TICKS_PER_SECOND as int)
            + m.bucket.capacity_per_second * (last_turn(start, turns) - start),
{
    lemma_run_within_credit(m, start, turns);
    crate::throttle::lemma_refilled(m.bucket, start);
    crate::throttle::lemma_refilled(m.after(turns).bucket, last_turn(start, turns));
}

/// A send loop: the state that the decisions of a generator rest on.
pub struct SendLoop {
    transport: Transport,
    throttle: Throttle,
    rcv: PeekableReceiver<Block>,
    current: Option<Block>,
    offset: usize,
    connected: bool,
    phase: Phase,
    maximum_bytes_per_file: u64,
    total_bytes_written: u64,
    rotate: bool,
    file_index: u32,
}

impl View for SendLoop {
    type V = Model;

    closed spec fn view(&self) -> Model {
        Model {
            transport: self.transport,
            bucket: self.throttle@,
            queue: self.rcv@,
            current: self.current,
            offset: self.offset,
            connected: self.connected,
            phase: self.phase,
            maximum_bytes_per_file: self.maximum_bytes_per_file,
            total_bytes_written: self.total_bytes_written,
            rotate: self.rotate,
            file_index: self.file_index,
        }
    }
}

impl SendLoop {
    /// The state invariant, that of the model.
    pub open spec fn wf(&self) -> bool {
        self@.wf()
    }

    /// A loop for a `transport` that connects, with the given throttle:
    /// nothing received, nothing connected, waiting for its first block. A
    /// loop that writes to files is made by [`SendLoop::for_file`].
    pub fn new(transport: Transport, throttle: Throttle) -> (r: Self)
        requires
            throttle.wf(),
            transport.connects(),
        ensures
            r.wf(),
            r@ == Model::initial(transport, throttle@),
    {
        SendLoop {
            transport,
            throttle,
            rcv: PeekableReceiver::new(),
            current: None,
            offset: 0,
            connected: false,
            phase: Phase::Receiving,
            maximum_bytes_per_file: 0,
            total_bytes_written: 0,
            rotate: false,
            file_index: 0,
        }
    }

    /// A loop that writes to files: the file with index `file_index` is
    /// open and empty, a file is full above `maximum_bytes_per_file`, and
    /// full files are unlinked if `rotate` is set.
    pub fn for_file(
        throttle: Throttle,
        maximum_bytes_per_file: u32,
        rotate: bool,
        file_index: u32,
    ) -> (r: Self)
        requires
            throttle.wf(),
        ensures
            r.wf(),
            r@ == (Model {
                maximum_bytes_per_file: maximum_bytes_per_file as u64,
                rotate,
                file_index,
                ..Model::initial(Transport::File, throttle@)
            }),
    {
        SendLoop {
            transport: Transport::File,
            throttle,
            rcv: PeekableReceiver::new(),
            current: None,
            offset: 0,
            connected: false,
            phase: Phase::Receiving,
            maximum_bytes_per_file: maximum_bytes_per_file as u64,
            total_bytes_written: 0,
            rotate,
            file_index,
        }
    }

    /// The block that is being written, if any.
    pub fn in_hand(&self) -> (r: Option<&Block>)
        ensures
            match r {
                Some(block) => self@.current == Some(*block),
                None => self@.current is None,
            },
    {
        self.current.as_ref()
    }

    /// The index of the file that is open.
    pub fn file_index(&self) -> (r: u32)
        ensures
            r == self@.file_index,
    {
        self.file_index
    }

    /// The action that goes with the phase the loop is in.
    pub fn standing(&self) -> (r: Action)
        ensures
            r == self@.standing(),
    {
        match self.phase {
            Phase::Receiving => Action::Receive,
            Phase::Connecting => Action::Connect,
            Phase::BackingOff => Action::Sleep(self.transport.backoff_ticks()),
            Phase::Throttled(ticks) => Action::Sleep(ticks),
            Phase::Writing => Action::Write(self.offset),
            Phase::Rotating => Action::Rotate { remove: self.rotate },
            Phase::Stopped => Action::Stop,
        }
    }

    fn decide(&mut self, now: u64) -> (r: Step)
        requires
            old(self)@.at(Phase::Receiving).wf(),
        ensures
            final(self).wf(),
            (final(self)@, r) == old(self)@.decide(now),
    {
        if self.current.is_some() {
            self.phase = Phase::Writing;
            return Step { action: Action::Write(self.offset), update: Update::Nothing };
        }
        let bytes: u32 = match self.rcv.peek() {
            Some(head) => head.total_bytes,
            None => {
                self.phase = Phase::Receiving;
                return Step { action: Action::Receive, update: Update::Nothing };
            },
        };
        assert(self.rcv@[0].wf());
        if self.transport.has_connection() && !self.connected {
            self.phase = Phase::Connecting;
            return Step { action: Action::Connect, update: Update::Nothing };
        }
        match self.throttle.request(bytes, now) {
            Ok(Decision::Wait(ticks)) => {
                self.phase = Phase::Throttled(ticks);
                Step { action: Action::Sleep(ticks), update: Update::Nothing }
            },
            _ => {
                let head = self.rcv.next();
                self.current = head;
                self.offset = 0;
                self.phase = Phase::Writing;
                let update = match self.transport {
                    Transport::Grpc => Update::RequestSent,
                    _ => Update::Nothing,
                };
                Step { action: Action::Write(0), update }
            },
        }
    }

    fn wrote(&mut self, written: usize, now: u64) -> (r: Step)
        requires
            old(self).wf(),
            old(self)@.current is Some,
            old(self)@.phase == Phase::Writing,
            old(self)@.transport != Transport::Grpc,
        ensures
            final(self).wf(),
            (final(self)@, r) == old(self)@.wrote(written, now),
    {
        let length: usize = match &self.current {
            Some(block) => block.bytes.len(),
            None => 0,
        };
        let left: usize = length - self.offset;
        let taken: usize = if written < left {
            written
        } else {
            left
        };
        match self.transport {
            Transport::File => {
                self.total_bytes_written = self.total_bytes_written + taken as u64;
            },
            _ => {},
        }
        if taken < left {
            self.offset = self.offset + taken;
            return Step {
                action: Action::Write(self.offset),
                update: Update::Written { bytes: taken as u64, packets: 0 },
            };
        }
        self.current = None;
        self.offset = 0;
        let full: bool = match self.transport {
            Transport::File => self.total_bytes_written > self.maximum_bytes_per_file,
            _ => false,
        };
        if full {
            self.phase = Phase::Rotating;
            Step {
                action: Action::Rotate { remove: self.rotate },
                update: Update::Written { bytes: taken as u64, packets: 1 },
            }
        } else {
            let next = self.decide(now);
            Step { action: next.action, update: Update::Written { bytes: taken as u64, packets: 1 } }
        }
    }

    /// Takes in what has just happened at time `now` and answers with what
    /// is to be done next and which counters move: see [`Model::step`].
    pub fn step(&mut self, event: Event, now: u64) -> (r: Step)
        requires
            old(self).wf(),
            event matches Event::Block(block) ==> block.wf(),
        ensures
            final(self).wf(),
            (final(self)@, r) == old(self)@.step(event, now),
    {
        if self.phase == Phase::Stopped {
            return Step { action: Action::Stop, update: Update::Nothing };
        }
        match event {
            Event::Shutdown => {
                self.phase = Phase::Stopped;
                Step { action: Action::Stop, update: Update::Nothing }
            },
            Event::Closed => {
                self.phase = Phase::Stopped;
                Step { action: Action::Fail(Failure::CacheClosed), update: Update::Nothing }
            },
            Event::Block(block) => {
                self.rcv.push(block);
                if self.phase == Phase::Receiving {
                    self.decide(now)
                } else {
                    Step { action: self.standing(), update: Update::Nothing }
                }
            },
            Event::Connected => {
                if self.phase == Phase::Connecting {
                    self.connected = true;
                    self.decide(now)
                } else {
                    Step { action: self.standing(), update: Update::Nothing }
                }
            },
            Event::ConnectFailed(error) => {
                if self.phase == Phase::Connecting {
                    self.phase = Phase::BackingOff;
                    Step {
                        action: Action::Sleep(self.transport.backoff_ticks()),
                        update: Update::ConnectionFailure(error),
                    }
                } else {
                    Step { action: self.standing(), update: Update::Nothing }
                }
            },
            Event::Woke => {
                match self.phase {
                    Phase::BackingOff => {
                        self.phase = Phase::Connecting;
                        Step { action: Action::Connect, update: Update::Nothing }
                    },
                    Phase::Throttled(_) => self.decide(now),
                    _ => Step { action: self.standing(), update: Update::Nothing },
                }
            },
            Event::Wrote(written) => {
                if self.phase == Phase::Writing && self.current.is_some() && !(self.transport
                    == Transport::Grpc) {
                    self.wrote(written, now)
                } else {
                    Step { action: self.standing(), update: Update::Nothing }
                }
            },
            Event::WouldBlock => Step { action: self.standing(), update: Update::Nothing },
            Event::WriteFailed(error) => {
                if self.phase == Phase::Writing && self.current.is_some() {
                    self.current = None;
                    self.offset = 0;
                    match self.transport {
                        Transport::File => {
                            self.phase = Phase::Stopped;
                            Step { action: Action::Fail(Failure::Io(error)), update: Update::Nothing }
                        },
                        Transport::Grpc => {
                            let next = self.decide(now);
                            Step { action: next.action, update: Update::RequestFailure(error) }
                        },
                        _ => {
                            self.connected = false;
                            let next = self.decide(now);
                            Step { action: next.action, update: Update::RequestFailure(error) }
                        },
                    }
                } else {
                    Step { action: self.standing(), update: Update::Nothing }
                }
            },
            Event::Responded(response_bytes) => {
                if self.phase == Phase::Writing && self.current.is_some() && self.transport
                    == Transport::Grpc {
                    let bytes: u64 = match &self.current {
                        Some(block) => block.total_bytes as u64,
                        None => 0,
                    };
                    self.current = None;
                    self.offset = 0;
                    let next = self.decide(now);
                    Step {
                        action: next.action,
                        update: Update::Answered { bytes, response_bytes: response_bytes as u64 },
                    }
                } else {
                    Step { action: self.standing(), update: Update::Nothing }
                }
            },
            Event::Rotated(index) => {
                if self.phase == Phase::Rotating {
                    self.file_index = index;
                    self.total_bytes_written = 0;
                    self.decide(now)
                } else {
                    Step { action: self.standing(), update: Update::Nothing }
                }
            },
        }
    }
}

} // verus!
