//! Data packets of a link that wait to be sent together.

use crate::clock::{elapsed, since};
use smallvec::SmallVec;
use vstd::prelude::*;

verus! {

/// Packets at which a queue is full.
pub const BATCH_SIZE_THRESHOLD: usize = 16;

/// Datagrams handed to the socket in one call at most.
pub const BATCH_SEND_SIZE: usize = 32;

/// Age of a non-empty queue at which it is flushed.
pub const FLUSH_INTERVAL_MS: u64 = 15;

/// The bytes of a queued datagram.
pub uninterp spec fn datagram_bytes(datagram: &SmallVec<u8, 1500>) -> Seq<u8>;

/// `SmallVec::from_slice_copy`: a copy of the bytes, in order.
#[verifier::external_body]
fn copy_datagram(data: &[u8]) -> (datagram: SmallVec<u8, 1500>)
    ensures
        datagram_bytes(&datagram) == data@,
{
    SmallVec::from_slice_copy(data)
}

/// `SmallVec::as_slice`: the bytes, in order.
#[verifier::external_body]
pub(crate) fn datagram_slice(datagram: &SmallVec<u8, 1500>) -> (data: &[u8])
    ensures
        data@ == datagram_bytes(datagram),
{
    datagram.as_slice()
}

/// A queued packet: its bytes, its sequence number where it is a data packet,
/// and the time it was queued.
pub struct QueuedPacket {
    pub data: SmallVec<u8, 1500>,
    pub seq: Option<u32>,
    pub queued_ms: u64,
}

/// What is known of a queued packet.
pub struct QueuedPacketView {
    pub data: Seq<u8>,
    pub seq: Option<u32>,
    pub queued_ms: u64,
}

impl View for QueuedPacket {
    type V = QueuedPacketView;

    open spec fn view(&self) -> QueuedPacketView {
        QueuedPacketView {
            data: datagram_bytes(&self.data),
            seq: self.seq,
            queued_ms: self.queued_ms,
        }
    }
}

impl QueuedPacket {
    /// The packet's bytes.
    pub fn bytes(&self) -> (data: &[u8])
        ensures
            data@ == self@.data,
    {
        datagram_slice(&self.data)
    }
}

/// Packets in the order in which they were queued.
pub struct BatchSender {
    pub queue: Vec<QueuedPacket>,
    pub last_flush_ms: u64,
}

/// The views of a list of packets.
pub open spec fn packet_views(packets: Seq<QueuedPacket>) -> Seq<QueuedPacketView> {
    packets.map_values(|p: QueuedPacket| p@)
}

/// What the in-flight log is told of sent packets: number and queue time.
pub open spec fn tracking_info(packets: Seq<QueuedPacket>) -> Seq<(Option<u32>, u64)> {
    packets.map_values(|p: QueuedPacket| (p.seq, p.queued_ms))
}

impl BatchSender {
    /// An empty queue, last flushed at `now_ms`.
    pub fn new(now_ms: u64) -> (sender: Self)
        ensures
            sender.queue@ == Seq::<QueuedPacket>::empty(),
            sender.last_flush_ms == now_ms,
    {
        BatchSender { queue: Vec::new(), last_flush_ms: now_ms }
    }

    /// Queues a copy of a packet; true once the queue is full and should be
    /// flushed.
    pub fn queue_packet(
        &mut self,
        data: &[u8],
        seq: Option<u32>,
        current_time_ms: u64,
    ) -> (full: bool)
        ensures
            final(self).queue@.len() == old(self).queue@.len() + 1,
            final(self).queue@.drop_last() == old(self).queue@,
            final(self).queue@.last()@ == (QueuedPacketView {
                data: data@,
                seq,
                queued_ms: current_time_ms,
            }),
            final(self).last_flush_ms == old(self).last_flush_ms,
            full == (final(self).queue@.len() >= BATCH_SIZE_THRESHOLD),
    {
        self.queue.push(QueuedPacket { data: copy_datagram(data), seq, queued_ms: current_time_ms });
        assert(self.queue@.drop_last() =~= old(self).queue@);
        self.queue.len() >= BATCH_SIZE_THRESHOLD
    }

    /// Whether the queue holds packets and has not been flushed for
    /// `FLUSH_INTERVAL_MS`.
    pub open spec fn flush_due(&self, now_ms: u64) -> bool {
        self.queue@.len() > 0 && since(now_ms, self.last_flush_ms) >= FLUSH_INTERVAL_MS
    }

    /// Whether the queue holds packets and has not been flushed for
    /// `FLUSH_INTERVAL_MS`.
    pub fn needs_time_flush(&self, now_ms: u64) -> (r: bool)
        ensures
            r == self.flush_due(now_ms),
    {
        self.queue.len() > 0 && elapsed(now_ms, self.last_flush_ms) >= FLUSH_INTERVAL_MS
    }

    /// Whether the queue holds packets.
    pub fn has_queued_packets(&self) -> (r: bool)
        ensures
            r == (self.queue@.len() > 0),
    {
        self.queue.len() > 0
    }

    /// How many packets the queue holds.
    pub fn queued_count(&self) -> (n: i32)
        ensures
            n == self.queue@.len() as i32,
    {
        self.queue.len() as i32
    }

    /// Takes all packets out of the queue.
    pub fn drain(&mut self, now_ms: u64) -> (batch: Vec<QueuedPacket>)
        ensures
            batch@ == old(self).queue@,
            final(self).queue@ == Seq::<QueuedPacket>::empty(),
            final(self).last_flush_ms == if old(self).queue@.len() > 0 {
                now_ms
            } else {
                old(self).last_flush_ms
            },
    {
        let mut batch: Vec<QueuedPacket> = Vec::new();
        if self.queue.len() > 0 {
            self.last_flush_ms = now_ms;
        }
        batch.append(&mut self.queue);
        assert(batch@ =~= old(self).queue@);
        batch
    }

    /// Whether `self` is `before` once the socket took the first `sent` packets of the
    /// queue, with what the log is to be told of them.
    pub open spec fn has_flushed(
        &self,
        before: &Self,
        sent: usize,
        now_ms: u64,
        tracking: Option<Seq<(Option<u32>, u64)>>,
    ) -> bool {
        &&& self.queue@ == before.queue@.skip(sent as int)
        &&& sent == before.queue@.len() <==> tracking is Some
        &&& tracking is Some ==> tracking->0 == tracking_info(before.queue@)
        &&& self.last_flush_ms == if tracking is Some && sent > 0 {
            now_ms
        } else {
            before.last_flush_ms
        }
    }

    /// Ends a flush in which the socket took the first `sent` packets of the
    /// queue. Where that is all of them, the queue is empty and what the log is to
    /// be told of them is returned. Otherwise the send failed: the packets that
    /// went out leave the queue, so that they are not sent twice, and the others
    /// stay.
    pub fn flush(&mut self, sent: usize, now_ms: u64) -> (tracking: Option<
        Vec<(Option<u32>, u64)>,
    >)
        requires
            sent <= old(self).queue@.len(),
        ensures
            final(self).has_flushed(
                old(self),
                sent,
                now_ms,
                match tracking {
                    Some(list) => Some(list@),
                    None => None,
                },
            ),
    {
        if sent == self.queue.len() {
            let batch: Vec<QueuedPacket> = self.drain(now_ms);
            let mut info: Vec<(Option<u32>, u64)> = Vec::new();
            let mut i: usize = 0;
            while i < batch.len()
                invariant
                    i <= batch@.len(),
                    info@ == tracking_info(batch@.take(i as int)),
                decreases batch@.len() - i,
            {
                info.push((batch[i].seq, batch[i].queued_ms));
                i += 1;
                assert(info@ =~= tracking_info(batch@.take(i as int)));
            }
            assert(batch@.take(batch@.len() as int) =~= batch@);
            assert(self.queue@ =~= old(self).queue@.skip(sent as int));
            return Some(info);
        }
        let rest: Vec<QueuedPacket> = self.queue.split_off(sent);
        self.queue = rest;
        assert(self.queue@ =~= old(self).queue@.skip(sent as int));
        None
    }

    /// Drops what is queued.
    pub fn reset(&mut self, now_ms: u64)
        ensures
            final(self).queue@ == Seq::<QueuedPacket>::empty(),
            final(self).last_flush_ms == now_ms,
    {
        self.queue.clear();
        self.last_flush_ms = now_ms;
    }
}

/// The socket took no datagram of those it was offered.
#[derive(Debug, Clone, Copy, PartialEq, Eq, Structural)]
pub struct SendStalled;

impl SendStalled {
    /// The failure in words.
    pub fn to_text(&self) -> (s: String)
        ensures
            s@ == "sendmmsg accepted no datagrams"@,
    {
        "sendmmsg accepted no datagrams".to_owned()
    }
}

/// A batch on its way to the socket, in chunks of at most [`BATCH_SEND_SIZE`].
#[derive(Debug, Clone, Copy, PartialEq, Eq, Structural)]
pub struct SendProgress {
    pub total: usize,
    pub sent: usize,
}

impl SendProgress {
    /// What holds at all times: no more was sent than there is.
    pub open spec fn wf(&self) -> bool {
        self.sent <= self.total
    }

    /// Datagrams to offer next.
    pub open spec fn chunk_len(&self) -> int {
        if self.total - self.sent < BATCH_SEND_SIZE {
            self.total - self.sent
        } else {
            BATCH_SEND_SIZE as int
        }
    }

    /// Nothing sent yet.
    pub fn new(total: usize) -> (progress: Self)
        ensures
            progress == (SendProgress { total, sent: 0 }),
            progress.wf(),
    {
        SendProgress { total, sent: 0 }
    }

    /// The datagrams to offer next, from the first number to before the second;
    /// none once all were sent.
    pub fn next_chunk(&self) -> (chunk: Option<(usize, usize)>)
        requires
            self.wf(),
        ensures
            self.sent == self.total ==> chunk is None,
            self.sent < self.total ==> chunk == Some(
                (self.sent, (self.sent + self.chunk_len()) as usize),
            ),
    {
        if self.sent == self.total {
            return None;
        }
        let left: usize = self.total - self.sent;
        let take: usize = if left < BATCH_SEND_SIZE {
            left
        } else {
            BATCH_SEND_SIZE
        };
        Some((self.sent, self.sent + take))
    }

    /// Notes how many datagrams of the chunk the socket took. Where it took none,
    /// sending has failed: offering them again and again would never end.
    pub fn accept(&mut self, taken: usize) -> (r: Result<(), SendStalled>)
        requires
            old(self).wf(),
            taken <= old(self).chunk_len(),
        ensures
            final(self).wf(),
            r is Ok <==> taken > 0,
            *final(self) == (SendProgress { sent: (old(self).sent + taken) as usize, ..*old(self) }),
    {
        if taken == 0 {
            return Err(SendStalled);
        }
        self.sent = self.sent + taken;
        Ok(())
    }
}

/// Every chunk that is not refused brings the end nearer, and none goes beyond it.
pub proof fn sending_makes_progress(progress: SendProgress, taken: usize)
    requires
        progress.wf(),
        0 < taken <= progress.chunk_len(),
    ensures
        progress.total - (progress.sent + taken) < progress.total - progress.sent,
        progress.sent + taken <= progress.total,
        progress.chunk_len() <= BATCH_SEND_SIZE,
{
}

/// A queue that holds packets is due 15 milliseconds after its last flush; an empty one
/// never is.
pub proof fn queue_is_flushed_after_fifteen_milliseconds(sender: BatchSender, now_ms: u64)
    ensures
        sender.queue@.len() == 0 ==> !sender.flush_due(now_ms),
        sender.queue@.len() > 0 ==> (sender.flush_due(now_ms) <==> now_ms >= sender.last_flush_ms
            + 15),
{
}

/// A flush loses nothing: what was sent and what stays are together what was queued, in
/// order. The log is told exactly where all went out, and then of each packet its own
/// number and time.
pub proof fn flush_loses_nothing(
    before: BatchSender,
    after: BatchSender,
    sent: usize,
    now_ms: u64,
    tracking: Option<Seq<(Option<u32>, u64)>>,
    i: int,
)
    requires
        after.has_flushed(&before, sent, now_ms, tracking),
        sent <= before.queue@.len(),
        0 <= i < before.queue@.len(),
    ensures
        after.queue@.len() + sent == before.queue@.len(),
        i >= sent ==> after.queue@[i - sent] == before.queue@[i],
        tracking is Some <==> after.queue@.len() == 0,
        tracking is Some ==> tracking->0.len() == before.queue@.len() && tracking->0[i] == (
            before.queue@[i].seq,
            before.queue@[i].queued_ms,
        ),
        tracking is Some ==> after.last_flush_ms == now_ms,
        tracking is None ==> after.last_flush_ms == before.last_flush_ms,
{
}

/// At most 32 datagrams are offered at once, and fewer only where fewer are left.
pub proof fn chunks_are_full_but_the_last(progress: SendProgress)
    requires
        progress.wf(),
    ensures
        progress.total - progress.sent >= 32 ==> progress.chunk_len() == 32,
        progress.total - progress.sent < 32 ==> progress.chunk_len() == progress.total
            - progress.sent,
{
}

/// Ending a flush of an empty queue does not count as one.
pub proof fn empty_flush_does_not_count(
    before: BatchSender,
    after: BatchSender,
    now_ms: u64,
    tracking: Option<Seq<(Option<u32>, u64)>>,
)
    requires
        before.queue@.len() == 0,
        after.has_flushed(&before, 0, now_ms, tracking),
    ensures
        after.last_flush_ms == before.last_flush_ms,
        after.queue@.len() == 0,
        tracking is Some && tracking->0.len() == 0,
{
}

} // verus!
