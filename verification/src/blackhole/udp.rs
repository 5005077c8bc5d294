//! The UDP blackhole.
//!
//! Counters: `bytes_received`, `packet_received`.

use crate::generator::label_texts;
use crate::generator::labels_for;
use crate::generator::metric_labels;
use crate::generator::General;
use vstd::prelude::*;

verus! {

/// Why the blackhole failed.
#[derive(Debug)]
pub enum Error {
    /// The socket failed, with this message.
    Io(String),
}

/// The configuration of the blackhole.
#[derive(Debug, Clone)]
pub struct Config {
    /// The address to bind to: IP and port.
    pub binding_addr: String,
}

/// What has just happened at the socket.
#[derive(Debug)]
pub enum Event {
    /// A datagram of this many bytes came in.
    Packet(usize),
    /// Receiving failed, with this message.
    Failed(String),
    /// The run is over.
    Shutdown,
}

/// What the blackhole does about it.
#[derive(Debug)]
pub enum Outcome {
    /// Count one packet and this many bytes, and go on receiving.
    Count {
        /// The rise of `packet_received`.
        packets: u64,
        /// The rise of `bytes_received`.
        bytes: u64,
    },
    /// End, with success or with the failure.
    Done(Result<(), Error>),
}

/// What the blackhole does about an event: a datagram is counted, with
/// its bytes; a failure to receive ends the loop with that failure, the end
/// of the run with success.
pub open spec fn outcome(event: Event) -> Outcome {
    match event {
        Event::Packet(bytes) => Outcome::Count { packets: 1, bytes: bytes as u64 },
        Event::Failed(error) => Outcome::Done(Err(Error::Io(error))),
        Event::Shutdown => Outcome::Done(Ok(())),
    }
}

/// What the counters `packet_received` and `bytes_received` rise by over
/// the events, taken one after the other until the loop ends.
pub open spec fn received_over(events: Seq<Event>) -> (int, int)
    decreases events.len(),
{
    if events.len() == 0 {
        (0, 0)
    } else {
        match outcome(events[0]) {
            Outcome::Count { packets, bytes } => (
                packets + received_over(events.skip(1)).0,
                bytes + received_over(events.skip(1)).1,
            ),
            Outcome::Done(_) => (0, 0),
        }
    }
}

/// The sum of the lengths.
pub open spec fn total_length(lengths: Seq<usize>) -> int
    decreases lengths.len(),
{
    if lengths.len() == 0 {
        0
    } else {
        lengths[0] + total_length(lengths.skip(1))
    }
}

/// Every datagram is counted, with every byte of it. Over datagrams of the
/// given lengths, and whatever comes after them, `packet_received` rises by
/// at least their number and `bytes_received` by at least the sum of their
/// lengths; and by exactly that much if the run ends or the socket fails
/// right after them, or nothing follows.
pub proof fn lemma_every_datagram_is_counted(lengths: Seq<usize>, then: Seq<Event>)
    ensures
        ({
            let events = lengths.map_values(|n: usize| Event::Packet(n)) + then;
            let (packets, bytes) = received_over(events);
            &&& packets == lengths.len() + received_over(then).0
            &&& bytes == total_length(lengths) + received_over(then).1
            &&& received_over(then).0 >= 0
            &&& received_over(then).1 >= 0
            &&& then.len() == 0 || !(then[0] is Packet) ==> received_over(then) == (0int, 0int)
        }),
    decreases lengths.len() + then.len(),
{
    let events = lengths.map_values(|n: usize| Event::Packet(n)) + then;
    if lengths.len() > 0 {
        let rest = lengths.skip(1);
        assert(events[0] == Event::Packet(lengths[0]));
        assert(events.skip(1) == rest.map_values(|n: usize| Event::Packet(n)) + then);
        lemma_every_datagram_is_counted(rest, then);
    } else {
        assert(events == then);
        if then.len() > 0 {
            lemma_every_datagram_is_counted(Seq::empty(), then.skip(1));
            assert(Seq::<usize>::empty().map_values(|n: usize| Event::Packet(n)) + then.skip(1)
                == then.skip(1));
        }
    }
}

/// The UDP blackhole.
#[derive(Debug)]
pub struct Udp {
    binding_addr: String,
    metric_labels: Vec<(String, String)>,
}

impl Udp {
    /// The address the blackhole binds to.
    pub closed spec fn address(&self) -> Seq<char> {
        self.binding_addr@
    }

    /// The labels of the blackhole's metrics.
    pub closed spec fn labels(&self) -> Seq<(Seq<char>, Seq<char>)> {
        label_texts(self.metric_labels@)
    }

    /// A blackhole for the configured address, with the labels of a
    /// blackhole named `udp`.
    pub fn new(general: General, config: &Config) -> (r: Self)
        ensures
            r.address() == config.binding_addr@,
            r.labels() == labels_for("blackhole"@, "udp"@, general.id),
    {
        Udp {
            binding_addr: config.binding_addr.clone(),
            metric_labels: metric_labels("blackhole", "udp", &general.id),
        }
    }

    /// The address the blackhole binds to.
    pub fn binding_addr(&self) -> (r: &String)
        ensures
            r@ == self.address(),
    {
        &self.binding_addr
    }

    /// The labels of the blackhole's metrics.
    pub fn metric_labels(&self) -> (r: &Vec<(String, String)>)
        ensures
            label_texts(r@) == self.labels(),
    {
        &self.metric_labels
    }

    /// One turn of the blackhole's loop. A datagram is counted, with its
    /// bytes, and dropped. A failure to receive ends the loop with that
    /// failure, the end of the run with success.
    pub fn run(&self, event: Event) -> (r: Outcome)
        ensures
            r == outcome(event),
    {
        match event {
            Event::Packet(bytes) => Outcome::Count { packets: 1, bytes: bytes as u64 },
            Event::Failed(error) => Outcome::Done(Err(Error::Io(error))),
            Event::Shutdown => Outcome::Done(Ok(())),
        }
    }
}

} // verus!
