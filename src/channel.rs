//! The reliable-delivery state machine of the data channel: sequence numbers,
//! the outgoing buffer with adaptive retransmission, and the incoming reorder
//! buffer. It decides; the caller moves the bytes and reads the clock.
use vstd::prelude::*;
use vstd::hash_map::HashMapWithView;
use vstd::utf8::encode_utf8;
use crate::builder::build_agent_message;
use crate::digest::sha256_of;
use crate::message::{encoded, ClientMessage, MessageType, PayloadType};
use crate::payloads::AcknowledgeContent;

verus! {

broadcast use vstd::std_specs::hash::group_hash_axioms;

/// Limits and initial values of a channel, in milliseconds where a time.
#[derive(Debug, Clone, Copy)]
pub struct ChannelConfig {
    /// Most unacknowledged messages kept.
    pub outgoing_capacity: usize,
    /// What a send does when the buffer is full: evict the oldest entry
    /// (capacity wins over delivery of the oldest message), or refuse.
    pub evict_oldest_when_full: bool,
    /// Resends of one message before it is given up.
    pub max_resend_attempts: u32,
    pub clock_granularity: u64,
    /// Upper bound of the retransmission timeout.
    pub max_transmission_timeout: u64,
    pub initial_round_trip_time: u64,
    pub initial_round_trip_time_variation: u64,
    pub initial_transmission_timeout: u64,
}

/// Default buffer capacity.
pub const OUTGOING_MESSAGE_BUFFER_CAPACITY: usize = 10000;
/// Default resend limit: five minutes of resend sweeps 100 ms apart.
pub const RESEND_MAX_ATTEMPT: u32 = 3000;
/// Default clock granularity.
pub const CLOCK_GRANULARITY: u64 = 10;
/// Default bound of the retransmission timeout.
pub const MAX_TRANSMISSION_TIMEOUT: u64 = 1000;
/// Default initial round-trip time.
pub const DEFAULT_ROUND_TRIP_TIME: u64 = 100;
/// Default initial round-trip-time variation.
pub const DEFAULT_ROUND_TRIP_TIME_VARIATION: u64 = 0;
/// Default initial retransmission timeout.
pub const DEFAULT_TRANSMISSION_TIMEOUT: u64 = 200;
/// Interval between two resend sweeps.
pub const RESEND_SLEEP_INTERVAL: u64 = 100;

impl ChannelConfig {
    /// The configuration with the documented defaults.
    pub fn standard() -> (r: ChannelConfig)
        ensures
            r.outgoing_capacity == OUTGOING_MESSAGE_BUFFER_CAPACITY,
            r.evict_oldest_when_full,
            r.max_resend_attempts == RESEND_MAX_ATTEMPT,
            r.clock_granularity == CLOCK_GRANULARITY,
            r.max_transmission_timeout == MAX_TRANSMISSION_TIMEOUT,
            r.initial_round_trip_time == DEFAULT_ROUND_TRIP_TIME,
            r.initial_round_trip_time_variation == DEFAULT_ROUND_TRIP_TIME_VARIATION,
            r.initial_transmission_timeout == DEFAULT_TRANSMISSION_TIMEOUT,
            r.wf(),
    {
        ChannelConfig {
            outgoing_capacity: OUTGOING_MESSAGE_BUFFER_CAPACITY,
            evict_oldest_when_full: true,
            max_resend_attempts: RESEND_MAX_ATTEMPT,
            clock_granularity: CLOCK_GRANULARITY,
            max_transmission_timeout: MAX_TRANSMISSION_TIMEOUT,
            initial_round_trip_time: DEFAULT_ROUND_TRIP_TIME,
            initial_round_trip_time_variation: DEFAULT_ROUND_TRIP_TIME_VARIATION,
            initial_transmission_timeout: DEFAULT_TRANSMISSION_TIMEOUT,
        }
    }

    /// A usable configuration: room for one message, and an initial timeout within the bound.
    pub open spec fn wf(&self) -> bool {
        &&& self.outgoing_capacity > 0
        &&& self.initial_transmission_timeout <= self.max_transmission_timeout
    }
}

/// The life cycle of a channel.
#[derive(Debug, Clone, Copy, PartialEq, Eq, Structural)]
pub enum ChannelState {
    Idle,
    Active,
    Closing,
    Closed,
}

/// A sent message kept until it is acknowledged.
#[derive(Debug)]
pub struct BufferedOutbound {
    /// The frame bytes, resent unchanged.
    pub content: Vec<u8>,
    pub sequence_number: i64,
    /// When the frame was last handed to the transport.
    pub last_sent_time: u64,
    /// Resends so far; none before the first.
    pub resend_attempt: Option<u32>,
}

/// Why a channel refused an operation.
#[derive(Debug, Clone, Copy, PartialEq, Eq, Structural)]
pub enum ChannelError {
    /// The channel is closing or closed.
    Closed,
    /// The outgoing buffer is full and the configuration forbids eviction.
    BufferFull,
    /// No random message identifier could be drawn.
    IdUnavailable,
}

/// What `send` hands back: the frame to transmit and what it displaced.
#[derive(Debug)]
pub struct SendOutcome {
    pub sequence_number: i64,
    pub frame: Vec<u8>,
    /// The sequence number of the oldest entry, evicted because the buffer was full.
    pub evicted: Option<i64>,
}

/// The smoothed round-trip time after a sample: 7/8 of the old value plus 1/8 of the sample.
pub open spec fn next_srtt(srtt: u64, sample: u64) -> int {
    (7 * srtt + sample) / 8
}

/// The round-trip-time variation after a sample: 3/4 of the old value plus
/// 1/4 of the distance between the old smoothed time and the sample.
pub open spec fn next_rttvar(srtt: u64, rttvar: u64, sample: u64) -> int {
    let diff: int = if srtt >= sample {
        srtt - sample
    } else {
        sample - srtt
    };
    (3 * rttvar + diff) / 4
}

/// The retransmission timeout: smoothed time plus the larger of the clock
/// granularity and four variations, at most `max`.
pub open spec fn next_rto(srtt: int, rttvar: int, granularity: u64, max: u64) -> int {
    let spread: int = if granularity >= 4 * rttvar {
        granularity as int
    } else {
        4 * rttvar
    };
    if srtt + spread > max {
        max as int
    } else {
        srtt + spread
    }
}

/// Milliseconds from `then` to `now`, 0 when the clock went back.
pub open spec fn elapsed(then: u64, now: u64) -> u64 {
    if now >= then {
        (now - then) as u64
    } else {
        0
    }
}

/// Whether the entries have strictly increasing sequence numbers.
pub open spec fn strictly_increasing(s: Seq<BufferedOutbound>) -> bool {
    forall|i: int, j: int| 0 <= i < j < s.len() ==> s[i].sequence_number < s[j].sequence_number
}

/// Whether some entry holds sequence number `seq`.
pub open spec fn holds_sequence(s: Seq<BufferedOutbound>, seq: i64) -> bool {
    exists|i: int| 0 <= i < s.len() && s[i].sequence_number == seq
}

/// Whether a send took `before` to `after` and gave `o` the next sequence number.
pub open spec fn numbered(before: ReliableChannel, after: ReliableChannel, o: SendOutcome) -> bool {
    &&& o.sequence_number == before.stream_data_sequence_number
    &&& after.stream_data_sequence_number == before.stream_data_sequence_number + 1
}

/// Successive sends number their messages consecutively: the second gets the
/// first one's sequence number plus one.
pub proof fn lemma_successive_sends(
    c0: ReliableChannel,
    c1: ReliableChannel,
    c2: ReliableChannel,
    first: SendOutcome,
    second: SendOutcome,
)
    requires
        numbered(c0, c1, first),
        numbered(c1, c2, second),
    ensures
        second.sequence_number == first.sequence_number + 1,
        first.sequence_number < second.sequence_number,
{
}

/// The reliable, ordered channel above the transport.
pub struct ReliableChannel {
    pub config: ChannelConfig,
    pub state: ChannelState,
    /// Sequence number of the next stream message expected from the peer.
    pub expected_sequence_number: i64,
    /// Sequence number the next sent stream message gets.
    pub stream_data_sequence_number: i64,
    /// Unacknowledged sent messages, oldest first.
    pub outgoing_message_buffer: Vec<BufferedOutbound>,
    /// Messages that arrived ahead of the expected one, by sequence number.
    pub incoming_message_buffer: HashMapWithView<i64, ClientMessage>,
    pub round_trip_time: u64,
    pub round_trip_time_variation: u64,
    pub retransmission_timeout: u64,
}

impl ReliableChannel {
    /// The channel's invariant: the outgoing buffer is within its capacity,
    /// ordered by sequence number and below the next one to send; buffered
    /// incoming messages are ahead of the expected one and keyed by their own
    /// sequence number; the timeout is within its bound.
    pub open spec fn wf(&self) -> bool {
        &&& self.config.wf()
        &&& self.outgoing_message_buffer@.len() <= self.config.outgoing_capacity
        &&& strictly_increasing(self.outgoing_message_buffer@)
        &&& forall|i: int|
            0 <= i < self.outgoing_message_buffer@.len()
                ==> #[trigger] self.outgoing_message_buffer@[i].sequence_number
                < self.stream_data_sequence_number
        &&& forall|k: i64|
            #[trigger] self.incoming_message_buffer@.contains_key(k) ==> {
                &&& self.expected_sequence_number < k < i64::MAX
                &&& self.incoming_message_buffer@[k].sequence_number == k
            }
        &&& self.retransmission_timeout <= self.config.max_transmission_timeout
    }

    /// A channel in state `Idle` with empty buffers. Outgoing sequence numbers
    /// start at `outgoing_base`; the first expected incoming one is `incoming_base`.
    pub fn new(config: ChannelConfig, outgoing_base: i64, incoming_base: i64) -> (r: ReliableChannel)
        requires
            config.wf(),
        ensures
            r.wf(),
            r.config == config,
            r.state == ChannelState::Idle,
            r.stream_data_sequence_number == outgoing_base,
            r.expected_sequence_number == incoming_base,
            r.outgoing_message_buffer@.len() == 0,
            r.incoming_message_buffer@ == Map::<i64, ClientMessage>::empty(),
            r.round_trip_time == config.initial_round_trip_time,
            r.round_trip_time_variation == config.initial_round_trip_time_variation,
            r.retransmission_timeout == config.initial_transmission_timeout,
    {
        ReliableChannel {
            config,
            state: ChannelState::Idle,
            expected_sequence_number: incoming_base,
            stream_data_sequence_number: outgoing_base,
            outgoing_message_buffer: Vec::new(),
            incoming_message_buffer: HashMapWithView::new(),
            round_trip_time: config.initial_round_trip_time,
            round_trip_time_variation: config.initial_round_trip_time_variation,
            retransmission_timeout: config.initial_transmission_timeout,
        }
    }

    /// Folds one round-trip sample into the statistics.
    pub fn update_round_trip_time(&mut self, sample: u64)
        requires
            old(self).wf(),
        ensures
            final(self).wf(),
            final(self).round_trip_time == next_srtt(old(self).round_trip_time, sample),
            final(self).round_trip_time_variation == next_rttvar(
                old(self).round_trip_time,
                old(self).round_trip_time_variation,
                sample,
            ),
            final(self).retransmission_timeout == next_rto(
                next_srtt(old(self).round_trip_time, sample),
                next_rttvar(old(self).round_trip_time, old(self).round_trip_time_variation, sample),
                old(self).config.clock_granularity,
                old(self).config.max_transmission_timeout,
            ),
            final(self).config == old(self).config,
            final(self).state == old(self).state,
            final(self).expected_sequence_number == old(self).expected_sequence_number,
            final(self).stream_data_sequence_number == old(self).stream_data_sequence_number,
            final(self).outgoing_message_buffer == old(self).outgoing_message_buffer,
            final(self).incoming_message_buffer == old(self).incoming_message_buffer,
    {
        let srtt = self.round_trip_time as u128;
        let rttvar = self.round_trip_time_variation as u128;
        let s = sample as u128;
        let new_srtt = (7 * srtt + s) / 8;
        let diff = if srtt >= s {
            srtt - s
        } else {
            s - srtt
        };
        let new_rttvar = (3 * rttvar + diff) / 4;
        let granularity = self.config.clock_granularity as u128;
        let spread = if granularity >= 4 * new_rttvar {
            granularity
        } else {
            4 * new_rttvar
        };
        let max = self.config.max_transmission_timeout as u128;
        let rto = if new_srtt + spread > max {
            max
        } else {
            new_srtt + spread
        };
        self.round_trip_time = new_srtt as u64;
        self.round_trip_time_variation = new_rttvar as u64;
        self.retransmission_timeout = rto as u64;
    }

    /// Frames `payload` as the next input stream message and keeps it for
    /// retransmission. When the buffer is full the configuration decides:
    /// evict the oldest entry first, or refuse with `BufferFull`.
    pub fn send(&mut self, payload: String, payload_type: PayloadType, flags: u64, now: u64) -> (r:
        Result<SendOutcome, ChannelError>)
        requires
            old(self).wf(),
            encode_utf8(payload@).len() <= u32::MAX,
            old(self).stream_data_sequence_number < i64::MAX,
        ensures
            final(self).wf(),
            final(self).config == old(self).config,
            final(self).expected_sequence_number == old(self).expected_sequence_number,
            final(self).incoming_message_buffer == old(self).incoming_message_buffer,
            final(self).round_trip_time == old(self).round_trip_time,
            final(self).round_trip_time_variation == old(self).round_trip_time_variation,
            final(self).retransmission_timeout == old(self).retransmission_timeout,
            (old(self).state == ChannelState::Closing || old(self).state == ChannelState::Closed)
                ==> r == Err::<SendOutcome, ChannelError>(ChannelError::Closed),
            r matches Err(e) ==> (e == ChannelError::Closed <==> (old(self).state
                == ChannelState::Closing || old(self).state == ChannelState::Closed)),
            r matches Err(e) ==> (e == ChannelError::BufferFull <==> (!(old(self).state
                == ChannelState::Closing || old(self).state == ChannelState::Closed) && old(
                self,
            ).outgoing_message_buffer@.len() == old(self).config.outgoing_capacity
                && !old(self).config.evict_oldest_when_full)),
            r is Err ==> {
                &&& final(self).state == old(self).state
                &&& final(self).stream_data_sequence_number == old(self).stream_data_sequence_number
                &&& final(self).outgoing_message_buffer == old(self).outgoing_message_buffer
            },
            r matches Ok(o) ==> numbered(*old(self), *final(self), o),
            r matches Ok(o) ==> {
                let full = old(self).outgoing_message_buffer@.len()
                    == old(self).config.outgoing_capacity;
                let kept = if full {
                    old(self).outgoing_message_buffer@.drop_first()
                } else {
                    old(self).outgoing_message_buffer@
                };
                let last = final(self).outgoing_message_buffer@.last();
                &&& final(self).state == ChannelState::Active
                &&& (full ==> old(self).config.evict_oldest_when_full)
                &&& o.sequence_number == old(self).stream_data_sequence_number
                &&& final(self).stream_data_sequence_number == old(
                    self,
                ).stream_data_sequence_number + 1
                &&& final(self).outgoing_message_buffer@ == kept.push(last)
                &&& last.content@ == o.frame@
                &&& last.sequence_number == o.sequence_number
                &&& last.last_sent_time == now
                &&& last.resend_attempt is None
                &&& (full ==> o.evicted == Some(old(self).outgoing_message_buffer@[0].sequence_number))
                &&& (!full ==> o.evicted is None)
                &&& exists|m: ClientMessage|
                    {
                        &&& o.frame@ == encoded(m)
                        &&& m.well_formed()
                        &&& m.message_type == MessageType::InputStreamData
                        &&& m.sequence_number == o.sequence_number
                        &&& m.flags == flags
                        &&& m.payload_type == payload_type
                        &&& m.payload@ == payload@
                        &&& m.payload_digest@ == sha256_of(encode_utf8(payload@))
                    }
            },
    {
        if self.state == ChannelState::Closing || self.state == ChannelState::Closed {
            return Err(ChannelError::Closed);
        }
        if self.outgoing_message_buffer.len() >= self.config.outgoing_capacity
            && !self.config.evict_oldest_when_full {
            return Err(ChannelError::BufferFull);
        }
        let sequence_number = self.stream_data_sequence_number;
        let m = match build_agent_message(
            payload,
            MessageType::InputStreamData,
            sequence_number,
            payload_type,
            flags,
        ) {
            Some(m) => m,
            None => {
                return Err(ChannelError::IdUnavailable);
            },
        };
        let frame = m.serialize_client_message();
        let mut content: Vec<u8> = Vec::new();
        crate::wire::put_bytes(&mut content, frame.as_slice());
        let evicted = if self.outgoing_message_buffer.len() >= self.config.outgoing_capacity {
            let oldest = self.outgoing_message_buffer.remove(0);
            assert(self.outgoing_message_buffer@ =~= old(self).outgoing_message_buffer@.drop_first());
            Some(oldest.sequence_number)
        } else {
            None
        };
        self.outgoing_message_buffer.push(
            BufferedOutbound { content, sequence_number, last_sent_time: now, resend_attempt: None },
        );
        self.stream_data_sequence_number = sequence_number + 1;
        self.state = ChannelState::Active;
        Ok(SendOutcome { sequence_number, frame, evicted })
    }

    /// The index of the entry with sequence number `seq`, found by binary search.
    fn find_outgoing(&self, seq: i64) -> (r: Option<usize>)
        requires
            strictly_increasing(self.outgoing_message_buffer@),
        ensures
            r is None <==> !holds_sequence(self.outgoing_message_buffer@, seq),
            r matches Some(i) ==> i < self.outgoing_message_buffer@.len()
                && self.outgoing_message_buffer@[i as int].sequence_number == seq,
    {
        let mut lo: usize = 0;
        let mut hi: usize = self.outgoing_message_buffer.len();
        while lo < hi
            invariant
                strictly_increasing(self.outgoing_message_buffer@),
                lo <= hi <= self.outgoing_message_buffer@.len(),
                forall|i: int|
                    0 <= i < lo ==> #[trigger] self.outgoing_message_buffer@[i].sequence_number
                        < seq,
                forall|i: int|
                    hi <= i < self.outgoing_message_buffer@.len()
                        ==> #[trigger] self.outgoing_message_buffer@[i].sequence_number > seq,
            decreases hi - lo,
        {
            let mid = lo + (hi - lo) / 2;
            let s = self.outgoing_message_buffer[mid].sequence_number;
            if s == seq {
                return Some(mid);
            } else if s < seq {
                lo = mid + 1;
            } else {
                hi = mid;
            }
        }
        None
    }

    /// Handles an acknowledgment of the sent message with sequence number
    /// `seq`: removes that one entry and folds the time since it was last sent
    /// into the round-trip statistics. An unknown sequence number changes
    /// nothing. Returns whether an entry was removed.
    pub fn on_acknowledge(&mut self, seq: i64, now: u64) -> (r: bool)
        requires
            old(self).wf(),
        ensures
            final(self).wf(),
            r == holds_sequence(old(self).outgoing_message_buffer@, seq),
            final(self).config == old(self).config,
            final(self).state == old(self).state,
            final(self).expected_sequence_number == old(self).expected_sequence_number,
            final(self).stream_data_sequence_number == old(self).stream_data_sequence_number,
            final(self).incoming_message_buffer == old(self).incoming_message_buffer,
            !r ==> final(self).outgoing_message_buffer == old(self).outgoing_message_buffer,
            !r ==> final(self).round_trip_time == old(self).round_trip_time,
            !r ==> final(self).round_trip_time_variation == old(self).round_trip_time_variation,
            !r ==> final(self).retransmission_timeout == old(self).retransmission_timeout,
            r ==> exists|i: int|
                {
                    let entry = #[trigger] old(self).outgoing_message_buffer@[i];
                    let sample = elapsed(entry.last_sent_time, now);
                    &&& 0 <= i < old(self).outgoing_message_buffer@.len()
                    &&& entry.sequence_number == seq
                    &&& final(self).outgoing_message_buffer@ == old(
                        self,
                    ).outgoing_message_buffer@.remove(i)
                    &&& final(self).round_trip_time == next_srtt(old(self).round_trip_time, sample)
                    &&& final(self).round_trip_time_variation == next_rttvar(
                        old(self).round_trip_time,
                        old(self).round_trip_time_variation,
                        sample,
                    )
                    &&& final(self).retransmission_timeout == next_rto(
                        next_srtt(old(self).round_trip_time, sample),
                        next_rttvar(
                            old(self).round_trip_time,
                            old(self).round_trip_time_variation,
                            sample,
                        ),
                        old(self).config.clock_granularity,
                        old(self).config.max_transmission_timeout,
                    )
                },
    {
        match self.find_outgoing(seq) {
            None => false,
            Some(i) => {
                let entry = self.outgoing_message_buffer.remove(i);
                let sample = if now >= entry.last_sent_time {
                    now - entry.last_sent_time
                } else {
                    0
                };
                proof {
                    let s = old(self).outgoing_message_buffer@;
                    let t = self.outgoing_message_buffer@;
                    assert(t =~= s.remove(i as int));
                    assert forall|a: int, b: int| 0 <= a < b < t.len() implies t[a].sequence_number
                        < t[b].sequence_number by {
                        let a2 = if a < i {
                            a
                        } else {
                            a + 1
                        };
                        let b2 = if b < i {
                            b
                        } else {
                            b + 1
                        };
                        assert(t[a] == s[a2] && t[b] == s[b2]);
                    }
                    assert forall|a: int| 0 <= a < t.len() implies #[trigger] t[a].sequence_number
                        < self.stream_data_sequence_number by {
                        let a2 = if a < i {
                            a
                        } else {
                            a + 1
                        };
                        assert(t[a] == s[a2]);
                    }
                }
                self.update_round_trip_time(sample);
                true
            },
        }
    }

    /// Closes the channel: no more sends or sweeps, and every buffered entry
    /// is released. Closing again changes nothing.
    pub fn close(&mut self)
        requires
            old(self).wf(),
        ensures
            final(self).wf(),
            final(self).state == ChannelState::Closed,
            final(self).outgoing_message_buffer@.len() == 0,
            final(self).incoming_message_buffer@ == Map::<i64, ClientMessage>::empty(),
            final(self).config == old(self).config,
            final(self).expected_sequence_number == old(self).expected_sequence_number,
            final(self).stream_data_sequence_number == old(self).stream_data_sequence_number,
            final(self).round_trip_time == old(self).round_trip_time,
            final(self).round_trip_time_variation == old(self).round_trip_time_variation,
            final(self).retransmission_timeout == old(self).retransmission_timeout,
    {
        self.state = ChannelState::Closing;
        self.outgoing_message_buffer.clear();
        self.incoming_message_buffer.clear();
        self.state = ChannelState::Closed;
    }
}


/// What `on_stream_data` hands back: the messages now delivered in order, and
/// the acknowledgment to send for the received message.
#[derive(Debug)]
pub struct StreamDataOutcome {
    pub delivered: Vec<ClientMessage>,
    pub ack: AcknowledgeContent,
}

/// The acknowledgment of a received message.
pub open spec fn ack_of(m: ClientMessage) -> AcknowledgeContent {
    AcknowledgeContent {
        message_type: m.message_type,
        message_id: m.message_id,
        sequence_number: m.sequence_number,
        is_sequential_message: true,
    }
}

/// What `resend_sweep` hands back: the frames to send again, oldest first,
/// and the sequence numbers given up after too many resends.
#[derive(Debug)]
pub struct SweepOutcome {
    pub resend: Vec<Vec<u8>>,
    pub exhausted: Vec<i64>,
}

/// Whether an entry has waited longer than the timeout since it was last sent.
pub open spec fn is_due(e: BufferedOutbound, now: u64, rto: u64) -> bool {
    elapsed(e.last_sent_time, now) > rto
}

/// How often an entry has been resent.
pub open spec fn attempts(e: BufferedOutbound) -> u32 {
    match e.resend_attempt {
        Some(a) => a,
        None => 0,
    }
}

/// An entry after one more resend at time `now`: same bytes, one attempt more.
pub open spec fn resent_entry(e: BufferedOutbound, now: u64) -> BufferedOutbound {
    BufferedOutbound {
        content: e.content,
        sequence_number: e.sequence_number,
        last_sent_time: now,
        resend_attempt: Some((attempts(e) + 1) as u32),
    }
}

/// The buffer after a sweep: entries that are not due stay, due entries
/// resent fewer than `max` times are resent, the others leave.
pub open spec fn swept(s: Seq<BufferedOutbound>, now: u64, rto: u64, max: u32) -> Seq<
    BufferedOutbound,
>
    decreases s.len(),
{
    if s.len() == 0 {
        Seq::empty()
    } else {
        let rest = swept(s.drop_last(), now, rto, max);
        let e = s.last();
        if !is_due(e, now, rto) {
            rest.push(e)
        } else if attempts(e) >= max {
            rest
        } else {
            rest.push(resent_entry(e, now))
        }
    }
}

/// The frames a sweep sends again, oldest first.
pub open spec fn resent_frames(s: Seq<BufferedOutbound>, now: u64, rto: u64, max: u32) -> Seq<
    Seq<u8>,
>
    decreases s.len(),
{
    if s.len() == 0 {
        Seq::empty()
    } else {
        let rest = resent_frames(s.drop_last(), now, rto, max);
        let e = s.last();
        if is_due(e, now, rto) && attempts(e) < max {
            rest.push(e.content@)
        } else {
            rest
        }
    }
}

/// The sequence numbers a sweep gives up, oldest first.
pub open spec fn exhausted_sequences(s: Seq<BufferedOutbound>, now: u64, rto: u64, max: u32) -> Seq<
    i64,
>
    decreases s.len(),
{
    if s.len() == 0 {
        Seq::empty()
    } else {
        let rest = exhausted_sequences(s.drop_last(), now, rto, max);
        let e = s.last();
        if is_due(e, now, rto) && attempts(e) >= max {
            rest.push(e.sequence_number)
        } else {
            rest
        }
    }
}

/// Entries of an increasing buffer keep their order when a sweep drops some of
/// them, and every number a sweep gives up is gone from what it keeps.
proof fn lemma_swept(s: Seq<BufferedOutbound>, now: u64, rto: u64, max: u32)
    ensures
        swept(s, now, rto, max).len() <= s.len(),
        forall|i: int|
            0 <= i < swept(s, now, rto, max).len() ==> exists|j: int|
                0 <= j < s.len() && #[trigger] swept(s, now, rto, max)[i].sequence_number
                    == s[j].sequence_number,
        forall|i: int|
            0 <= i < exhausted_sequences(s, now, rto, max).len() ==> exists|j: int|
                0 <= j < s.len() && #[trigger] exhausted_sequences(s, now, rto, max)[i]
                    == s[j].sequence_number,
        strictly_increasing(s) ==> strictly_increasing(swept(s, now, rto, max)),
        strictly_increasing(s) ==> forall|x: i64|
            #[trigger] exhausted_sequences(s, now, rto, max).contains(x) ==> !holds_sequence(
                swept(s, now, rto, max),
                x,
            ),
    decreases s.len(),
{
    if s.len() > 0 {
        let p = s.drop_last();
        let e = s.last();
        lemma_swept(p, now, rto, max);
        let rest = swept(p, now, rto, max);
        let r = swept(s, now, rto, max);
        let pre = exhausted_sequences(p, now, rto, max);
        let ex = exhausted_sequences(s, now, rto, max);
        assert(e == s[s.len() - 1]);
        assert forall|j: int| 0 <= j < p.len() implies #[trigger] p[j] == s[j] by {}
        assert forall|i: int| 0 <= i < r.len() implies exists|j: int|
            0 <= j < s.len() && #[trigger] r[i].sequence_number == s[j].sequence_number by {
            if i < rest.len() {
                assert(r[i] == rest[i]);
                let j = choose|j: int| 0 <= j < p.len() && rest[i].sequence_number == p[j].sequence_number;
                assert(p[j] == s[j]);
            } else {
                assert(r[i].sequence_number == s[s.len() - 1].sequence_number);
            }
        }
        assert forall|i: int| 0 <= i < ex.len() implies exists|j: int|
            0 <= j < s.len() && #[trigger] ex[i] == s[j].sequence_number by {
            if i < pre.len() {
                assert(ex[i] == pre[i]);
                let j = choose|j: int| 0 <= j < p.len() && pre[i] == p[j].sequence_number;
                assert(p[j] == s[j]);
            } else {
                assert(ex[i] == s[s.len() - 1].sequence_number);
            }
        }
        if strictly_increasing(s) {
            assert(strictly_increasing(p));
            assert forall|i: int| 0 <= i < rest.len() implies #[trigger] rest[i].sequence_number
                < e.sequence_number by {
                let j = choose|j: int| 0 <= j < p.len() && rest[i].sequence_number == p[j].sequence_number;
                assert(p[j] == s[j]);
            }
            assert forall|i: int| 0 <= i < pre.len() implies #[trigger] pre[i] < e.sequence_number by {
                let j = choose|j: int| 0 <= j < p.len() && pre[i] == p[j].sequence_number;
                assert(p[j] == s[j]);
            }
            assert forall|a: int, b: int| 0 <= a < b < r.len() implies r[a].sequence_number
                < r[b].sequence_number by {
                assert(r[a] == rest[a]);
                if b < rest.len() {
                    assert(r[b] == rest[b]);
                } else {
                    assert(r[b].sequence_number == e.sequence_number);
                }
            }
            assert forall|x: i64| #[trigger] ex.contains(x) implies !holds_sequence(r, x) by {
                let m = choose|m: int| 0 <= m < ex.len() && ex[m] == x;
                if holds_sequence(r, x) {
                    let k = choose|k: int| 0 <= k < r.len() && r[k].sequence_number == x;
                    if m < pre.len() {
                        assert(ex[m] == pre[m]);
                        assert(pre.contains(x));
                        assert(x < e.sequence_number);
                        if k < rest.len() {
                            assert(r[k] == rest[k]);
                            assert(holds_sequence(rest, x));
                        } else {
                            assert(r[k].sequence_number == e.sequence_number);
                        }
                    } else {
                        assert(x == e.sequence_number);
                        assert(r == rest);
                        assert(r[k].sequence_number < e.sequence_number);
                    }
                }
            }
        }
    }
}

impl ReliableChannel {
    /// Handles a received stream message and returns the acknowledgment to
    /// send for it, whatever its order; a closing or closed channel refuses it. The expected message is delivered at
    /// once, followed by the run of buffered messages that now follow on
    /// without a gap; a later one is buffered (replacing one with the same
    /// number); an earlier one is a duplicate and is dropped.
    pub fn on_stream_data(&mut self, message: ClientMessage) -> (r: Result<StreamDataOutcome, ChannelError>)
        requires
            old(self).wf(),
            message.sequence_number < i64::MAX,
        ensures
            final(self).wf(),
            r is Err <==> (old(self).state == ChannelState::Closing || old(self).state
                == ChannelState::Closed),
            r matches Err(e) ==> e == ChannelError::Closed,
            r is Err ==> final(self).expected_sequence_number == old(self).expected_sequence_number
                && final(self).incoming_message_buffer@ == old(self).incoming_message_buffer@,
            r matches Ok(o) ==> o.ack == ack_of(message),
            final(self).config == old(self).config,
            final(self).state == old(self).state,
            final(self).stream_data_sequence_number == old(self).stream_data_sequence_number,
            final(self).outgoing_message_buffer == old(self).outgoing_message_buffer,
            final(self).round_trip_time == old(self).round_trip_time,
            final(self).round_trip_time_variation == old(self).round_trip_time_variation,
            final(self).retransmission_timeout == old(self).retransmission_timeout,
            r matches Ok(o) ==> message.sequence_number < old(self).expected_sequence_number ==> {
                &&& o.delivered@.len() == 0
                &&& final(self).expected_sequence_number == old(self).expected_sequence_number
                &&& final(self).incoming_message_buffer@ == old(self).incoming_message_buffer@
            },
            r matches Ok(o) ==> message.sequence_number > old(self).expected_sequence_number ==> {
                &&& o.delivered@.len() == 0
                &&& final(self).expected_sequence_number == old(self).expected_sequence_number
                &&& final(self).incoming_message_buffer@ == old(self).incoming_message_buffer@.insert(
                    message.sequence_number,
                    message,
                )
            },
            r matches Ok(o) ==> message.sequence_number == old(self).expected_sequence_number ==> {
                let e = old(self).expected_sequence_number;
                let n = o.delivered@.len();
                &&& n >= 1
                &&& o.delivered@[0] == message
                &&& final(self).expected_sequence_number == e + n
                &&& forall|k: i64|
                    e < k < e + n ==> #[trigger] old(self).incoming_message_buffer@.contains_key(k)
                &&& forall|j: int|
                    1 <= j < n ==> #[trigger] o.delivered@[j] == old(
                        self,
                    ).incoming_message_buffer@[(e + j) as i64]
                &&& !old(self).incoming_message_buffer@.contains_key((e + n) as i64)
                &&& final(self).incoming_message_buffer@ == old(
                    self,
                ).incoming_message_buffer@.remove_keys(Set::new(|k: i64| e < k < e + n))
            },
    {
        if self.state == ChannelState::Closing || self.state == ChannelState::Closed {
            return Err(ChannelError::Closed);
        }
        let ack = AcknowledgeContent {
            message_type: message.message_type,
            message_id: message.message_id,
            sequence_number: message.sequence_number,
            is_sequential_message: true,
        };
        let seq = message.sequence_number;
        let mut delivered: Vec<ClientMessage> = Vec::new();
        if seq == self.expected_sequence_number {
            delivered.push(message);
            self.expected_sequence_number = seq + 1;
            assert(self.incoming_message_buffer@ =~= old(self).incoming_message_buffer@.remove_keys(
                Set::new(|k: i64| seq < k < seq + 1),
            ));
            while self.incoming_message_buffer.contains_key(&self.expected_sequence_number)
                invariant
                    old(self).wf(),
                    seq == old(self).expected_sequence_number,
                    delivered@.len() >= 1,
                    delivered@[0] == message,
                    self.expected_sequence_number == seq + delivered@.len(),
                    self.expected_sequence_number <= i64::MAX,
                    forall|k: i64|
                        seq < k < self.expected_sequence_number ==> #[trigger] old(
                            self,
                        ).incoming_message_buffer@.contains_key(k),
                    forall|j: int|
                        1 <= j < delivered@.len() ==> #[trigger] delivered@[j] == old(
                            self,
                        ).incoming_message_buffer@[(seq + j) as i64],
                    self.incoming_message_buffer@ == old(self).incoming_message_buffer@.remove_keys(
                        Set::new(|k: i64| seq < k < self.expected_sequence_number),
                    ),
                    self.config == old(self).config,
                    self.state == old(self).state,
                    self.stream_data_sequence_number == old(self).stream_data_sequence_number,
                    self.outgoing_message_buffer == old(self).outgoing_message_buffer,
                    self.round_trip_time == old(self).round_trip_time,
                    self.round_trip_time_variation == old(self).round_trip_time_variation,
                    self.retransmission_timeout == old(self).retransmission_timeout,
                decreases i64::MAX - self.expected_sequence_number,
            {
                let key = self.expected_sequence_number;
                let ghost before = self.incoming_message_buffer@;
                let ghost delivered_before = delivered@;
                assert(before.contains_key(key) && before[key] == old(self).incoming_message_buffer@[key]);
                let next = self.incoming_message_buffer.remove(&key);
                match next {
                    Some(m) => {
                        delivered.push(m);
                    },
                    None => {},
                }
                assert(old(self).incoming_message_buffer@.contains_key(key));
                assert forall|j: int| 1 <= j < delivered@.len() implies #[trigger] delivered@[j] == old(
                    self,
                ).incoming_message_buffer@[(seq + j) as i64] by {
                    if j < delivered_before.len() {
                        assert(delivered@[j] == delivered_before[j]);
                    } else {
                        assert((seq + j) as i64 == key);
                    }
                }
                self.expected_sequence_number = key + 1;
                assert(self.incoming_message_buffer@ =~= old(
                    self,
                ).incoming_message_buffer@.remove_keys(
                    Set::new(|k: i64| seq < k < self.expected_sequence_number),
                ));
            }
            proof {
                let e = self.expected_sequence_number;
                let removed = Set::new(|k: i64| seq < k < e);
                assert(!removed.contains(e));
                assert(!old(self).incoming_message_buffer@.contains_key(e));
                assert forall|k: i64| #[trigger]
                    self.incoming_message_buffer@.contains_key(k) implies e < k < i64::MAX
                    && self.incoming_message_buffer@[k].sequence_number == k by {
                    assert(old(self).incoming_message_buffer@.contains_key(k));
                    assert(!removed.contains(k));
                }
            }
        } else if seq > self.expected_sequence_number {
            self.incoming_message_buffer.insert(seq, message);
        }
        Ok(StreamDataOutcome { delivered, ack })
    }
}


impl ReliableChannel {
    /// Resends, unchanged, every buffered frame older than the retransmission
    /// timeout, and gives up those already resent the configured number of
    /// times: they leave the buffer and are reported once. A closing or
    /// closed channel does nothing.
    pub fn resend_sweep(&mut self, now: u64) -> (r: SweepOutcome)
        requires
            old(self).wf(),
        ensures
            final(self).wf(),
            final(self).config == old(self).config,
            final(self).state == old(self).state,
            final(self).expected_sequence_number == old(self).expected_sequence_number,
            final(self).stream_data_sequence_number == old(self).stream_data_sequence_number,
            final(self).incoming_message_buffer == old(self).incoming_message_buffer,
            final(self).round_trip_time == old(self).round_trip_time,
            final(self).round_trip_time_variation == old(self).round_trip_time_variation,
            final(self).retransmission_timeout == old(self).retransmission_timeout,
            (old(self).state == ChannelState::Closing || old(self).state == ChannelState::Closed)
                ==> {
                &&& r.resend@.len() == 0
                &&& r.exhausted@.len() == 0
                &&& final(self).outgoing_message_buffer == old(self).outgoing_message_buffer
            },
            !(old(self).state == ChannelState::Closing || old(self).state == ChannelState::Closed)
                ==> {
                let s = old(self).outgoing_message_buffer@;
                let rto = old(self).retransmission_timeout;
                let max = old(self).config.max_resend_attempts;
                let frames = resent_frames(s, now, rto, max);
                &&& final(self).outgoing_message_buffer@ == swept(s, now, rto, max)
                &&& r.exhausted@ == exhausted_sequences(s, now, rto, max)
                &&& r.resend@.len() == frames.len()
                &&& forall|i: int| 0 <= i < frames.len() ==> #[trigger] r.resend@[i]@ == frames[i]
                &&& forall|x: i64|
                    #[trigger] r.exhausted@.contains(x) ==> !holds_sequence(
                        final(self).outgoing_message_buffer@,
                        x,
                    )
            },
    {
        let mut resend: Vec<Vec<u8>> = Vec::new();
        let mut exhausted: Vec<i64> = Vec::new();
        if self.state == ChannelState::Closing || self.state == ChannelState::Closed {
            return SweepOutcome { resend, exhausted };
        }
        let rto = self.retransmission_timeout;
        let max = self.config.max_resend_attempts;
        let ghost s = old(self).outgoing_message_buffer@;
        let ghost n = s.len();
        let mut i: usize = 0;
        let mut j: usize = 0;
        while i < self.outgoing_message_buffer.len()
            invariant
                old(self).wf(),
                s == old(self).outgoing_message_buffer@,
                n == s.len(),
                rto == old(self).retransmission_timeout,
                max == old(self).config.max_resend_attempts,
                j <= n,
                i == swept(s.subrange(0, j as int), now, rto, max).len(),
                self.outgoing_message_buffer@ == swept(s.subrange(0, j as int), now, rto, max)
                    + s.subrange(j as int, n as int),
                exhausted@ == exhausted_sequences(s.subrange(0, j as int), now, rto, max),
                resend@.len() == resent_frames(s.subrange(0, j as int), now, rto, max).len(),
                forall|k: int|
                    0 <= k < resend@.len() ==> #[trigger] resend@[k]@ == resent_frames(
                        s.subrange(0, j as int),
                        now,
                        rto,
                        max,
                    )[k],
                self.config == old(self).config,
                self.state == old(self).state,
                self.expected_sequence_number == old(self).expected_sequence_number,
                self.stream_data_sequence_number == old(self).stream_data_sequence_number,
                self.incoming_message_buffer == old(self).incoming_message_buffer,
                self.round_trip_time == old(self).round_trip_time,
                self.round_trip_time_variation == old(self).round_trip_time_variation,
                self.retransmission_timeout == old(self).retransmission_timeout,
            decreases self.outgoing_message_buffer@.len() - i, n - j,
        {
            let ghost pre = s.subrange(0, j as int);
            let ghost next = s.subrange(0, j + 1);
            let ghost buf = self.outgoing_message_buffer@;
            let ghost frames_before = resend@;
            assert(next.drop_last() =~= pre);
            assert(next.last() == s[j as int]);
            assert(j < n) by {
                if j >= n {
                    assert(s.subrange(j as int, n as int).len() == 0);
                }
            }
            assert(buf[i as int] == s[j as int]);
            let last_sent = self.outgoing_message_buffer[i].last_sent_time;
            let age = if now >= last_sent {
                now - last_sent
            } else {
                0
            };
            let count = match self.outgoing_message_buffer[i].resend_attempt {
                Some(a) => a,
                None => 0,
            };
            if age <= rto {
                i = i + 1;
                j = j + 1;
                assert(self.outgoing_message_buffer@ =~= swept(next, now, rto, max) + s.subrange(
                    j as int,
                    n as int,
                ));
            } else if count >= max {
                let gone = self.outgoing_message_buffer.remove(i);
                exhausted.push(gone.sequence_number);
                j = j + 1;
                assert(self.outgoing_message_buffer@ =~= swept(next, now, rto, max) + s.subrange(
                    j as int,
                    n as int,
                ));
            } else {
                let mut frame: Vec<u8> = Vec::new();
                crate::wire::put_bytes(&mut frame, self.outgoing_message_buffer[i].content.as_slice());
                resend.push(frame);
                self.outgoing_message_buffer[i].last_sent_time = now;
                self.outgoing_message_buffer[i].resend_attempt = Some(count + 1);
                assert(self.outgoing_message_buffer@[i as int] == resent_entry(s[j as int], now));
                i = i + 1;
                j = j + 1;
                assert(self.outgoing_message_buffer@ =~= swept(next, now, rto, max) + s.subrange(
                    j as int,
                    n as int,
                ));
                assert forall|k: int| 0 <= k < resend@.len() implies #[trigger] resend@[k]@
                    == resent_frames(next, now, rto, max)[k] by {
                    if k < frames_before.len() {
                        assert(resend@[k] == frames_before[k]);
                    }
                }
            }
        }
        proof {
            assert(j == n) by {
                if j < n {
                    assert(self.outgoing_message_buffer@.len() > i);
                }
            }
            assert(s.subrange(0, n as int) =~= s);
            assert(s.subrange(n as int, n as int) =~= Seq::<BufferedOutbound>::empty());
            assert(self.outgoing_message_buffer@ =~= swept(s, now, rto, max));
            lemma_swept(s, now, rto, max);
            let t = self.outgoing_message_buffer@;
            assert forall|a: int| 0 <= a < t.len() implies #[trigger] t[a].sequence_number
                < self.stream_data_sequence_number by {
                let b = choose|b: int| 0 <= b < s.len() && t[a].sequence_number == s[b].sequence_number;
            }
        }
        SweepOutcome { resend, exhausted }
    }
}

} // verus!
