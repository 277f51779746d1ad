//! IPC between the daemon and its clients: the event envelopes, the framing of messages on
//! the socket (a little-endian `u32` length, then the CBOR bytes), the retrying writer, and
//! the daemon's table of connected clients.
use vstd::prelude::*;
use crate::assoc::AssocMap;
use crate::bytes::copy_bytes;

verus! {

/// A client's event, with the id of the client that sent it.
pub struct IPCEventRequest<T> {
    pub event: T,
    pub client_id: String,
}

/// The daemon's event for its clients.
pub struct IPCEventResponse<T> {
    pub event: T,
}

impl<T> IPCEventResponse<T> {
    /// Wraps an event.
    pub fn from(event: T) -> (r: IPCEventResponse<T>)
        ensures
            r.event == event,
    {
        IPCEventResponse { event }
    }
}

/// The little-endian bytes of a `u32`.
pub open spec fn u32_le_bytes(n: u32) -> Seq<u8> {
    seq![(n & 0xff) as u8, ((n >> 8u32) & 0xff) as u8, ((n >> 16u32) & 0xff) as u8, ((n >> 24u32) & 0xff) as u8]
}

/// The `u32` whose little-endian bytes are the first four given.
pub open spec fn le_u32(b: Seq<u8>) -> u32 {
    (b[0] as u32) | ((b[1] as u32) << 8u32) | ((b[2] as u32) << 16u32) | ((b[3] as u32) << 24u32)
}

/// Reading back the little-endian bytes of a number gives the number.
pub proof fn lemma_le_roundtrip(n: u32)
    ensures
        le_u32(u32_le_bytes(n)) == n,
{
    let b = u32_le_bytes(n);
    let b0 = (n & 0xff) as u8;
    let b1 = ((n >> 8u32) & 0xff) as u8;
    let b2 = ((n >> 16u32) & 0xff) as u8;
    let b3 = ((n >> 24u32) & 0xff) as u8;
    assert(b[0] == b0 && b[1] == b1 && b[2] == b2 && b[3] == b3);
    assert((b0 as u32) | ((b1 as u32) << 8u32) | ((b2 as u32) << 16u32) | ((b3 as u32) << 24u32) == n) by (bit_vector)
        requires
            b0 == (n & 0xff) as u8,
            b1 == ((n >> 8u32) & 0xff) as u8,
            b2 == ((n >> 16u32) & 0xff) as u8,
            b3 == ((n >> 24u32) & 0xff) as u8,
    ;
}

/// The frame of a message: its length, truncated to 32 bits, then the message.
pub open spec fn frame(payload: Seq<u8>) -> Seq<u8> {
    u32_le_bytes((payload.len() as int % 0x1_0000_0000) as u32) + payload
}

/// The messages of a sequence of complete frames, or `None` when the bytes are not one.
pub open spec fn frames_parse(p: Seq<u8>) -> Option<Seq<Seq<u8>>>
    decreases p.len(),
{
    if p.len() == 0 {
        Some(Seq::empty())
    } else if p.len() < 4 {
        None
    } else {
        let size = le_u32(p.take(4)) as int;
        if p.len() - 4 < size {
            None
        } else {
            match frames_parse(p.skip(4 + size)) {
                Some(rest) => Some(seq![p.subrange(4, 4 + size)] + rest),
                None => None,
            }
        }
    }
}

/// A frame followed by more frames reads back as its message followed by theirs.
pub proof fn lemma_frame_parse(payload: Seq<u8>, rest: Seq<u8>)
    requires
        payload.len() < 0x1_0000_0000,
    ensures
        frames_parse(frame(payload) + rest) == match frames_parse(rest) {
            Some(msgs) => Some(seq![payload] + msgs),
            None => None::<Seq<Seq<u8>>>,
        },
{
    let p = frame(payload) + rest;
    let n = payload.len() as u32;
    assert((payload.len() as int % 0x1_0000_0000) as u32 == n);
    lemma_le_roundtrip(n);
    assert(p.take(4) =~= u32_le_bytes(n));
    assert(p.skip(4 + payload.len() as int) =~= rest);
    assert(p.subrange(4, 4 + payload.len() as int) =~= payload);
}

/// The frames of the messages, one after another.
pub open spec fn frames_of(msgs: Seq<Seq<u8>>) -> Seq<u8>
    decreases msgs.len(),
{
    if msgs.len() == 0 {
        Seq::empty()
    } else {
        frame(msgs[0]) + frames_of(msgs.drop_first())
    }
}

/// Reading the frames written for some messages gives the messages back, in order.
pub proof fn lemma_frames_roundtrip(msgs: Seq<Seq<u8>>)
    requires
        forall|i: int| 0 <= i < msgs.len() ==> (#[trigger] msgs[i]).len() < 0x1_0000_0000,
    ensures
        frames_parse(frames_of(msgs)) == Some(msgs),
    decreases msgs.len(),
{
    if msgs.len() == 0 {
    } else {
        lemma_frames_roundtrip(msgs.drop_first());
        lemma_frame_parse(msgs[0], frames_of(msgs.drop_first()));
        assert(seq![msgs[0]] + msgs.drop_first() =~= msgs);
    }
}

/// The frame of a message: its length as a little-endian `u32` (truncated to 32 bits), then
/// the message.
pub fn encode_frame(payload: &[u8]) -> (r: Vec<u8>)
    ensures
        r@ == frame(payload@),
{
    let size = (payload.len() as u64 % 0x1_0000_0000u64) as u32;
    let mut out: Vec<u8> = Vec::new();
    out.push((size & 0xff) as u8);
    out.push(((size >> 8u32) & 0xff) as u8);
    out.push(((size >> 16u32) & 0xff) as u8);
    out.push(((size >> 24u32) & 0xff) as u8);
    let mut i: usize = 0;
    while i < payload.len()
        invariant
            0 <= i <= payload.len(),
            out@ == u32_le_bytes(size) + payload@.take(i as int),
        decreases payload.len() - i,
    {
        out.push(payload[i]);
        assert(payload@.take(i + 1) =~= payload@.take(i as int).push(payload@[i as int]));
        i = i + 1;
    }
    assert(payload@.take(payload.len() as int) =~= payload@);
    assert(size == (payload@.len() as int % 0x1_0000_0000) as u32);
    out
}

/// Whether a packet is a sequence of complete frames.
pub fn frames_fit(packet: &[u8]) -> (r: bool)
    ensures
        r == frames_parse(packet@) is Some,
{
    let n = packet.len();
    let mut read: usize = 0;
    assert(packet@.skip(0) =~= packet@);
    while read < n
        invariant
            n == packet@.len(),
            read <= n,
            frames_parse(packet@) is Some <==> frames_parse(packet@.skip(read as int)) is Some,
        decreases n - read,
    {
        let ghost rest = packet@.skip(read as int);
        if n - read < 4 {
            return false;
        }
        let size = le_u32_at(packet, read) as usize;
        proof {
            assert(rest.take(4) =~= packet@.subrange(read as int, read + 4));
        }
        if n - read - 4 < size {
            return false;
        }
        proof {
            assert(rest.skip(4 + size) =~= packet@.skip(read + 4 + size));
        }
        read = read + 4 + size;
    }
    assert(packet@.skip(n as int) =~= Seq::<u8>::empty());
    true
}

/// The `u32` whose little-endian bytes start at `at`.
fn le_u32_at(b: &[u8], at: usize) -> (r: u32)
    requires
        at + 4 <= b@.len(),
    ensures
        r == le_u32(b@.subrange(at as int, at + 4)),
{
    (b[at] as u32) | ((b[at + 1] as u32) << 8u32) | ((b[at + 2] as u32) << 16u32) | ((b[at + 3] as u32) << 24u32)
}

/// Why a packet was refused.
#[derive(Clone, Copy, PartialEq, Eq, Structural, Debug)]
pub enum ReadChunkError {
    /// Fewer than four bytes arrived.
    ShortPacket,
}

/// Reassembles messages from the bytes read off a socket.
pub struct StreamReader {
    buf: Vec<u8>,
    reading_size: usize,
}

impl StreamReader {
    /// No message is half read.
    pub closed spec fn wf(&self) -> bool {
        self.buf@.len() == 0 && self.reading_size == 0
    }

    pub fn new() -> (r: StreamReader)
        ensures
            r.wf(),
    {
        StreamReader { buf: Vec::new(), reading_size: 0 }
    }

    /// The messages of one packet. A packet of fewer than four bytes is refused; a longer
    /// packet must be a sequence of complete frames (anything else panics in the protocol
    /// and is left out), and its messages come back in order.
    pub fn read_chunk(&mut self, packet: &[u8]) -> (r: Result<Vec<Vec<u8>>, ReadChunkError>)
        requires
            old(self).wf(),
            packet@.len() < 4 || frames_parse(packet@) is Some,
        ensures
            final(self).wf(),
            packet@.len() < 4 ==> r == Err::<Vec<Vec<u8>>, ReadChunkError>(ReadChunkError::ShortPacket),
            packet@.len() >= 4 ==> (r matches Ok(msgs) && msgs@.map_values(|m: Vec<u8>| m@) == frames_parse(packet@).unwrap()),
    {
        if packet.len() < 4 {
            return Err(ReadChunkError::ShortPacket);
        }
        let packet_size = packet.len();
        let mut out: Vec<Vec<u8>> = Vec::new();
        let mut read: usize = 0;
        let ghost all = frames_parse(packet@).unwrap();
        proof {
            assert(packet@.skip(0) =~= packet@);
            assert(out@.map_values(|m: Vec<u8>| m@) =~= Seq::<Seq<u8>>::empty());
            assert(Seq::<Seq<u8>>::empty() + all =~= all);
        }
        while read < packet_size
            invariant
                packet_size == packet@.len(),
                read <= packet_size,
                self.wf(),
                frames_parse(packet@.skip(read as int)) is Some,
                out@.map_values(|m: Vec<u8>| m@) + frames_parse(packet@.skip(read as int)).unwrap() == all,
            decreases packet_size - read,
        {
            let ghost rest = packet@.skip(read as int);
            if self.buf.len() == 0 {
                proof {
                    assert(rest.take(4) =~= packet@.subrange(read as int, read + 4));
                }
                self.reading_size = le_u32_at(packet, read) as usize;
                read = read + 4;
            }
            proof {
                assert(rest.len() >= 4);
                assert(self.reading_size == le_u32(rest.take(4)) as int);
                assert(self.reading_size <= rest.len() - 4);
            }
            let remaining = self.reading_size - self.buf.len();
            let remaining = if packet_size < read + remaining {
                packet_size - read + 1
            } else {
                remaining
            };
            assert(remaining == self.reading_size);
            if remaining > 0 {
                let mut j: usize = 0;
                while j < remaining
                    invariant
                        packet_size == packet@.len(),
                        read + remaining <= packet_size,
                        self.reading_size == remaining,
                        0 <= j <= remaining,
                        self.buf@ == packet@.subrange(read as int, read + j),
                    decreases remaining - j,
                {
                    self.buf.push(packet[read + j]);
                    assert(packet@.subrange(read as int, read + j + 1) =~= packet@.subrange(read as int, read + j).push(
                        packet@[read + j],
                    ));
                    j = j + 1;
                }
                read = read + remaining;
            }
            assert(self.buf@.len() == self.reading_size);
            if self.buf.len() == self.reading_size {
                let ghost before = out@.map_values(|m: Vec<u8>| m@);
                let ghost msg = self.buf@;
                out.push(copy_bytes(self.buf.as_slice()));
                self.buf.clear();
                self.reading_size = 0;
                proof {
                    let size = le_u32(rest.take(4)) as int;
                    let tail = frames_parse(rest.skip(4 + size)).unwrap();
                    assert(rest.skip(4 + size) =~= packet@.skip(read as int));
                    assert(rest.subrange(4, 4 + size) =~= packet@.subrange(read - size, read as int));
                    assert(msg =~= rest.subrange(4, 4 + size));
                    assert(out@.map_values(|m: Vec<u8>| m@) =~= before.push(rest.subrange(4, 4 + size)));
                    assert(before + (seq![rest.subrange(4, 4 + size)] + tail) =~= before.push(rest.subrange(4, 4 + size)) + tail);
                }
            }
        }
        proof {
            assert(packet@.skip(packet_size as int) =~= Seq::<u8>::empty());
            assert(out@.map_values(|m: Vec<u8>| m@) =~= all);
        }
        Ok(out)
    }
}

/// How a write attempt on the socket went.
#[derive(Clone, Copy, PartialEq, Eq, Structural, Debug)]
pub enum WriteOutcome {
    /// Some bytes were written.
    Written(usize),
    /// The socket would block.
    WouldBlock,
    /// Any other error.
    Failed,
}

/// What the writer does next.
#[derive(Clone, Copy, PartialEq, Eq, Structural, Debug)]
pub enum WriteStep {
    /// Write the rest, from `sent` on.
    Continue,
    /// Sleep 100 ms, then write again.
    RetryAfterSleep,
    /// All bytes were written.
    Done,
    /// The socket blocked too many times in a row.
    MaxRetryReached,
    /// The write failed.
    Fail,
}

/// Tries a socket may block in a row before a message is given up.
pub const MAX_WRITE_ATTEMPTS: usize = 5;

/// Progress of writing one framed message.
pub struct WriteProgress {
    pub total: usize,
    pub sent: usize,
    pub attempts: usize,
}

/// The progress and the next step after a write attempt's outcome.
pub open spec fn write_step(p: WriteProgress, outcome: WriteOutcome) -> (WriteProgress, WriteStep) {
    match outcome {
        WriteOutcome::Written(n) => {
            let q = WriteProgress { sent: (p.sent + n) as usize, attempts: 0, ..p };
            (q, if q.sent < q.total { WriteStep::Continue } else { WriteStep::Done })
        },
        WriteOutcome::WouldBlock => {
            let q = WriteProgress { attempts: (p.attempts + 1) as usize, ..p };
            (q, if q.attempts >= MAX_WRITE_ATTEMPTS { WriteStep::MaxRetryReached } else { WriteStep::RetryAfterSleep })
        },
        WriteOutcome::Failed => (p, WriteStep::Fail),
    }
}

impl WriteProgress {
    pub open spec fn wf(&self) -> bool {
        self.sent <= self.total && self.attempts < MAX_WRITE_ATTEMPTS
    }

    /// Nothing written yet.
    pub fn new(total: usize) -> (r: WriteProgress)
        ensures
            r.wf(),
            r.total == total,
            r.sent == 0,
            r.attempts == 0,
    {
        WriteProgress { total, sent: 0, attempts: 0 }
    }

    /// Whether bytes remain to be written.
    pub fn pending(&self) -> (r: bool)
        ensures
            r == (self.sent < self.total),
    {
        self.sent < self.total
    }

    /// Takes the outcome of a write attempt: written bytes count and reset the blocked
    /// attempts; a blocked socket is retried after a sleep until it has blocked five times
    /// in a row; any other error ends the write.
    pub fn on_outcome(&mut self, outcome: WriteOutcome) -> (r: WriteStep)
        requires
            old(self).wf(),
            old(self).sent < old(self).total,
            outcome matches WriteOutcome::Written(n) ==> n <= old(self).total - old(self).sent,
        ensures
            (*final(self), r) == write_step(*old(self), outcome),
            final(self).total == old(self).total,
            match outcome {
                WriteOutcome::Written(n) => {
                    &&& final(self).sent == old(self).sent + n
                    &&& final(self).attempts == 0
                    &&& final(self).wf()
                    &&& r == if final(self).sent < final(self).total { WriteStep::Continue } else { WriteStep::Done }
                },
                WriteOutcome::WouldBlock => {
                    &&& final(self).sent == old(self).sent
                    &&& final(self).attempts == old(self).attempts + 1
                    &&& r == if old(self).attempts + 1 >= MAX_WRITE_ATTEMPTS {
                        WriteStep::MaxRetryReached
                    } else {
                        WriteStep::RetryAfterSleep
                    }
                    &&& r == WriteStep::RetryAfterSleep ==> final(self).wf()
                },
                WriteOutcome::Failed => r == WriteStep::Fail && *final(self) == *old(self),
            },
    {
        match outcome {
            WriteOutcome::Written(n) => {
                self.sent = self.sent + n;
                self.attempts = 0;
                if self.sent < self.total {
                    WriteStep::Continue
                } else {
                    WriteStep::Done
                }
            },
            WriteOutcome::WouldBlock => {
                self.attempts = self.attempts + 1;
                if self.attempts >= MAX_WRITE_ATTEMPTS {
                    WriteStep::MaxRetryReached
                } else {
                    WriteStep::RetryAfterSleep
                }
            },
            WriteOutcome::Failed => WriteStep::Fail,
        }
    }
}

/// The daemon's connected clients, by client id, with what to write to each.
pub struct ClientRegistry<W> {
    pub clients: AssocMap<String, W>,
}

impl<W> ClientRegistry<W> {
    pub open spec fn wf(&self) -> bool {
        self.clients.wf()
    }

    pub fn new() -> (r: ClientRegistry<W>)
        ensures
            r.wf(),
            r.clients.view() == Map::<Seq<char>, W>::empty(),
    {
        ClientRegistry { clients: AssocMap::new() }
    }

    /// Records the stream a client's event came on; says whether the client is new.
    pub fn register(&mut self, client_id: String, stream: W) -> (is_new: bool)
        requires
            old(self).wf(),
        ensures
            final(self).wf(),
            final(self).clients.view() == old(self).clients.view().insert(client_id@, stream),
            is_new == !old(self).clients.view().contains_key(client_id@),
    {
        let is_new = !self.clients.contains_key(&client_id);
        self.clients.insert(client_id, stream);
        is_new
    }

    /// The stream of a client, for a reply.
    pub fn stream_of(&self, client_id: &String) -> (r: Option<&W>)
        requires
            self.wf(),
        ensures
            match r {
                Some(w) => self.clients.view().contains_key(client_id@) && *w == self.clients.view()[client_id@],
                None => !self.clients.view().contains_key(client_id@),
            },
    {
        self.clients.get(client_id)
    }

    /// Forgets the clients a broadcast could not reach.
    pub fn remove_clients(&mut self, failed: &Vec<String>)
        requires
            old(self).wf(),
        ensures
            final(self).wf(),
            forall|k: Seq<char>| #[trigger] final(self).clients.view().contains_key(k) <==> (old(self).clients.view().contains_key(k)
                && !failed@.map_values(|s: String| s@).contains(k)),
            forall|k: Seq<char>| #[trigger] final(self).clients.view().contains_key(k) ==> final(self).clients.view()[k]
                == old(self).clients.view()[k],
    {
        let mut i: usize = 0;
        let ghost ids = failed@.map_values(|s: String| s@);
        while i < failed.len()
            invariant
                0 <= i <= failed.len(),
                ids == failed@.map_values(|s: String| s@),
                self.wf(),
                forall|k: Seq<char>| #[trigger] self.clients.view().contains_key(k) <==> (old(self).clients.view().contains_key(k)
                    && !ids.take(i as int).contains(k)),
                forall|k: Seq<char>| #[trigger] self.clients.view().contains_key(k) ==> self.clients.view()[k]
                    == old(self).clients.view()[k],
            decreases failed.len() - i,
        {
            self.clients.remove(&failed[i]);
            proof {
                assert(ids.take(i + 1) =~= ids.take(i as int).push(ids[i as int]));
                assert forall|k: Seq<char>| ids.take(i + 1).contains(k) <==> (ids.take(i as int).contains(k) || k == ids[i as int]) by {
                    if ids.take(i + 1).contains(k) {
                        let j = ids.take(i + 1).index_of(k);
                        if j < i {
                            assert(ids.take(i as int)[j] == k);
                        }
                    }
                    if k == ids[i as int] {
                        assert(ids.take(i + 1)[i as int] == k);
                    }
                    if ids.take(i as int).contains(k) {
                        let j = ids.take(i as int).index_of(k);
                        assert(ids.take(i + 1)[j] == k);
                    }
                }
            }
            i = i + 1;
        }
        proof {
            assert(ids.take(failed.len() as int) =~= ids);
        }
    }

    /// Drops every client.
    pub fn release(&mut self)
        ensures
            final(self).wf(),
            final(self).clients.view() == Map::<Seq<char>, W>::empty(),
    {
        self.clients = AssocMap::new();
    }
}

} // verus!
