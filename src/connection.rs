use vstd::prelude::*;
use crate::framer::{BitcoinMessage, HEADER_LEN, MessageParser, command_text, frame_description, message_of_frame, scan};
use crate::framer_laws::{feed_all, joined, lemma_yielded_frames};
use crate::message_type::{MessageType, command_type};
use crate::network::{Network, network_magic};

verus! {

/// A direction of traffic through a connection.
#[derive(Debug, Clone, Copy, PartialEq, Eq, Structural)]
pub enum Direction {
    /// From the client to the target.
    Inbound,
    /// From the target to the client.
    Outbound,
}

impl Direction {
    /// The name stored with each message record.
    pub fn as_str(&self) -> (r: &'static str)
        ensures
            r@ == (match self {
                Direction::Inbound => "inbound"@,
                Direction::Outbound => "outbound"@,
            }),
    {
        match self {
            Direction::Inbound => "inbound",
            Direction::Outbound => "outbound",
        }
    }

    /// The arrow shown in log lines.
    pub fn arrow(&self) -> (r: &'static str)
        ensures
            r@ == (match self {
                Direction::Inbound => "→"@,
                Direction::Outbound => "←"@,
            }),
    {
        match self {
            Direction::Inbound => "→",
            Direction::Outbound => "←",
        }
    }
}

/// Byte and message totals of one connection.
#[derive(Debug, Clone, Copy, PartialEq, Eq, Structural)]
pub struct ConnectionStats {
    pub bytes_inbound: u64,
    pub bytes_outbound: u64,
    pub messages_inbound: u64,
    pub messages_outbound: u64,
}

impl Default for ConnectionStats {
    fn default() -> (r: ConnectionStats)
        ensures
            r.bytes_inbound == 0 && r.bytes_outbound == 0,
            r.messages_inbound == 0 && r.messages_outbound == 0,
    {
        ConnectionStats { bytes_inbound: 0, bytes_outbound: 0, messages_inbound: 0, messages_outbound: 0 }
    }
}

/// The row written when a connection opens.
#[derive(Debug, Clone)]
pub struct OpenRecord {
    pub connection_id: u64,
    pub client_addr: String,
    pub target_addr: String,
}

/// The totals written when a connection closes.
#[derive(Debug, Clone, Copy, PartialEq, Eq, Structural)]
pub struct CloseRecord {
    pub connection_id: u64,
    pub bytes_inbound: u64,
    pub bytes_outbound: u64,
}

/// The row written for one framed message.
#[derive(Debug, Clone)]
pub struct MessageRecord {
    pub connection_id: u64,
    pub direction: Direction,
    pub source_peer: String,
    pub destination_peer: String,
    pub message_type: MessageType,
    pub payload_size: u64,
    pub description: String,
}

/// Sum of payload sizes of frames.
pub open spec fn payload_total(fs: Seq<Seq<u8>>) -> int
    decreases fs.len(),
{
    if fs.len() == 0 {
        0
    } else {
        (fs[0].len() - HEADER_LEN) + payload_total(fs.drop_first())
    }
}

proof fn lemma_feed_push(held: Seq<u8>, chunks: Seq<Seq<u8>>, c: Seq<u8>, magic: Seq<u8>)
    ensures
        ({
            let r = feed_all(held, chunks, magic);
            let s = scan(r.1 + c, magic);
            feed_all(held, chunks.push(c), magic) == (r.0 + s.0, s.1)
        }),
    decreases chunks.len(),
{
    if chunks.len() == 0 {
        let s = scan(held + c, magic);
        assert(chunks.push(c).drop_first() =~= Seq::<Seq<u8>>::empty());
        assert(chunks.push(c)[0] == c);
        assert(feed_all(s.1, Seq::<Seq<u8>>::empty(), magic) == (Seq::<Seq<u8>>::empty(), s.1));
        assert(Seq::<Seq<u8>>::empty() + s.0 =~= s.0);
        assert(s.0 + Seq::<Seq<u8>>::empty() =~= s.0);
    } else {
        let s0 = scan(held + chunks[0], magic);
        lemma_feed_push(s0.1, chunks.drop_first(), c, magic);
        assert(chunks.push(c).drop_first() =~= chunks.drop_first().push(c));
        let r = feed_all(s0.1, chunks.drop_first(), magic);
        let s = scan(r.1 + c, magic);
        assert(s0.0 + (r.0 + s.0) =~= (s0.0 + r.0) + s.0);
    }
}

proof fn lemma_joined_push(fs: Seq<Seq<u8>>, f: Seq<u8>)
    ensures
        joined(fs.push(f)) == joined(fs) + f,
    decreases fs.len(),
{
    if fs.len() == 0 {
        assert(fs.push(f).drop_first() =~= Seq::<Seq<u8>>::empty());
        assert(joined(Seq::<Seq<u8>>::empty()) =~= Seq::<u8>::empty());
        assert(joined(fs.push(f)) =~= joined(fs) + f);
    } else {
        lemma_joined_push(fs.drop_first(), f);
        assert(fs.push(f).drop_first() =~= fs.drop_first().push(f));
        assert(joined(fs.push(f)) =~= joined(fs) + f);
    }
}

proof fn lemma_joined_concat(a: Seq<Seq<u8>>, b: Seq<Seq<u8>>)
    ensures
        joined(a + b) == joined(a) + joined(b),
    decreases a.len(),
{
    if a.len() == 0 {
        assert(a + b =~= b);
        assert(joined(a) + joined(b) =~= joined(b));
    } else {
        lemma_joined_concat(a.drop_first(), b);
        assert((a + b).drop_first() =~= a.drop_first() + b);
        assert(joined(a + b) =~= joined(a) + joined(b));
    }
}

proof fn lemma_payload_concat(a: Seq<Seq<u8>>, b: Seq<Seq<u8>>)
    ensures
        payload_total(a + b) == payload_total(a) + payload_total(b),
    decreases a.len(),
{
    if a.len() == 0 {
        assert(a + b =~= b);
    } else {
        lemma_payload_concat(a.drop_first(), b);
        assert((a + b).drop_first() =~= a.drop_first() + b);
    }
}

/// Sum of payload sizes plus one header per frame is the frames' total length.
proof fn lemma_payload_joined(fs: Seq<Seq<u8>>)
    requires
        forall|i: int| 0 <= i < fs.len() ==> (#[trigger] fs[i]).len() >= HEADER_LEN,
    ensures
        payload_total(fs) + HEADER_LEN * fs.len() == joined(fs).len(),
        payload_total(fs) >= 0,
    decreases fs.len(),
{
    if fs.len() > 0 {
        assert forall|i: int| 0 <= i < fs.drop_first().len() implies (
        #[trigger] fs.drop_first()[i]).len() >= HEADER_LEN by {
            assert(fs.drop_first()[i] == fs[i + 1]);
        }
        lemma_payload_joined(fs.drop_first());
    }
}

/// Sum of the sizes of the chunks read.
pub open spec fn read_total(chunks: Seq<Seq<u8>>) -> int
    decreases chunks.len(),
{
    if chunks.len() == 0 {
        0
    } else {
        chunks[0].len() + read_total(chunks.drop_first())
    }
}

proof fn lemma_read_total(chunks: Seq<Seq<u8>>)
    ensures
        read_total(chunks) == joined(chunks).len(),
    decreases chunks.len(),
{
    if chunks.len() > 0 {
        lemma_read_total(chunks.drop_first());
    }
}

/// Bytes counted in direction `d`.
pub open spec fn bytes_of(s: ConnectionStats, d: Direction) -> u64 {
    match d {
        Direction::Inbound => s.bytes_inbound,
        Direction::Outbound => s.bytes_outbound,
    }
}

/// Messages counted in direction `d`.
pub open spec fn messages_of(s: ConnectionStats, d: Direction) -> u64 {
    match d {
        Direction::Inbound => s.messages_inbound,
        Direction::Outbound => s.messages_outbound,
    }
}

/// The other direction.
pub open spec fn opposite(d: Direction) -> Direction {
    match d {
        Direction::Inbound => Direction::Outbound,
        Direction::Outbound => Direction::Inbound,
    }
}

/// Owns one client/target pair: a framer for each direction and the connection's totals.
pub struct ConnectionHandler {
    connection_id: u64,
    client_addr: String,
    target_addr: String,
    network: Network,
    stats: ConnectionStats,
    inbound: MessageParser,
    outbound: MessageParser,
    reads_in: Ghost<Seq<Seq<u8>>>,
    reads_out: Ghost<Seq<Seq<u8>>>,
    frames_in: Ghost<Seq<Seq<u8>>>,
    frames_out: Ghost<Seq<Seq<u8>>>,
}

impl ConnectionHandler {
    pub closed spec fn id(&self) -> u64 {
        self.connection_id
    }

    pub closed spec fn client(&self) -> Seq<char> {
        self.client_addr@
    }

    pub closed spec fn target(&self) -> Seq<char> {
        self.target_addr@
    }

    pub closed spec fn network_spec(&self) -> Network {
        self.network
    }

    pub closed spec fn totals(&self) -> ConnectionStats {
        self.stats
    }

    /// The chunks read in direction `d`, in order.
    pub closed spec fn reads(&self, d: Direction) -> Seq<Seq<u8>> {
        match d {
            Direction::Inbound => self.reads_in@,
            Direction::Outbound => self.reads_out@,
        }
    }

    /// The frames yielded in direction `d`, in order.
    pub closed spec fn frames(&self, d: Direction) -> Seq<Seq<u8>> {
        match d {
            Direction::Inbound => self.frames_in@,
            Direction::Outbound => self.frames_out@,
        }
    }

    /// The bytes the framer of direction `d` holds.
    pub closed spec fn held(&self, d: Direction) -> Seq<u8> {
        match d {
            Direction::Inbound => self.inbound.pending(),
            Direction::Outbound => self.outbound.pending(),
        }
    }

    pub closed spec fn parsers_ok(&self) -> bool {
        self.inbound.network_spec() == self.network && self.outbound.network_spec() == self.network
    }

    /// The totals and held bytes of one direction agree with what was read there.
    pub open spec fn direction_ok(&self, d: Direction) -> bool {
        &&& feed_all(Seq::<u8>::empty(), self.reads(d), network_magic(self.network_spec())) == (
            self.frames(d),
            self.held(d),
        )
        &&& bytes_of(self.totals(), d) == joined(self.reads(d)).len()
        &&& messages_of(self.totals(), d) == self.frames(d).len()
        &&& joined(self.frames(d)).len() + self.held(d).len() <= bytes_of(self.totals(), d)
        &&& forall|i: int|
            0 <= i < self.frames(d).len() ==> (#[trigger] self.frames(d)[i]).len() >= HEADER_LEN
    }

    pub open spec fn wf(&self) -> bool {
        &&& self.parsers_ok()
        &&& self.direction_ok(Direction::Inbound)
        &&& self.direction_ok(Direction::Outbound)
    }

    /// `r` is the record of frame `f`, read in direction `d` of this connection.
    pub open spec fn record_of(&self, r: MessageRecord, f: Seq<u8>, d: Direction) -> bool {
        &&& r.connection_id == self.id()
        &&& r.direction == d
        &&& r.source_peer@ == (if d == Direction::Inbound { self.client() } else { self.target() })
        &&& r.destination_peer@ == (if d == Direction::Inbound { self.target() } else { self.client() })
        &&& r.message_type == command_type(command_text(f))
        &&& r.payload_size == f.len() - HEADER_LEN
        &&& r.description@ == frame_description(f)
    }

    /// A handler for a connection just accepted, with nothing read yet.
    pub fn new(connection_id: u64, client_addr: String, target_addr: String, network: Network) -> (r: ConnectionHandler)
        ensures
            r.wf(),
            r.id() == connection_id,
            r.client() == client_addr@,
            r.target() == target_addr@,
            r.network_spec() == network,
            r.totals().bytes_inbound == 0 && r.totals().bytes_outbound == 0,
            r.totals().messages_inbound == 0 && r.totals().messages_outbound == 0,
            r.reads(Direction::Inbound).len() == 0,
            r.reads(Direction::Outbound).len() == 0,
    {
        let r = ConnectionHandler {
            connection_id,
            client_addr,
            target_addr,
            network,
            stats: ConnectionStats::default(),
            inbound: MessageParser::new(network),
            outbound: MessageParser::new(network),
            reads_in: Ghost(Seq::empty()),
            reads_out: Ghost(Seq::empty()),
            frames_in: Ghost(Seq::empty()),
            frames_out: Ghost(Seq::empty()),
        };
        assert(joined(Seq::<Seq<u8>>::empty()) =~= Seq::<u8>::empty());
        r
    }

    /// The connection's identifier.
    pub fn connection_id(&self) -> (r: u64)
        ensures
            r == self.id(),
    {
        self.connection_id
    }

    /// The totals so far.
    pub fn stats(&self) -> (r: ConnectionStats)
        ensures
            r == self.totals(),
    {
        self.stats
    }

    /// The row that records the connection's opening.
    pub fn open_record(&self) -> (r: OpenRecord)
        ensures
            r.connection_id == self.id(),
            r.client_addr@ == self.client(),
            r.target_addr@ == self.target(),
    {
        OpenRecord {
            connection_id: self.connection_id,
            client_addr: self.client_addr.clone(),
            target_addr: self.target_addr.clone(),
        }
    }

    /// The totals recorded when the connection closes.
    pub fn close_record(&self) -> (r: CloseRecord)
        ensures
            r.connection_id == self.id(),
            r.bytes_inbound == self.totals().bytes_inbound,
            r.bytes_outbound == self.totals().bytes_outbound,
    {
        CloseRecord {
            connection_id: self.connection_id,
            bytes_inbound: self.stats.bytes_inbound,
            bytes_outbound: self.stats.bytes_outbound,
        }
    }

    /// Whether a chunk of `n` more bytes in direction `d` can still be counted.
    pub fn can_accept(&self, d: Direction, n: usize) -> (r: bool)
        ensures
            r == (bytes_of(self.totals(), d) + n <= u64::MAX && self.held(d).len() + n
                <= usize::MAX),
    {
        let (bytes, held) = match d {
            Direction::Inbound => (self.stats.bytes_inbound, self.inbound.buffer_len()),
            Direction::Outbound => (self.stats.bytes_outbound, self.outbound.buffer_len()),
        };
        bytes <= u64::MAX - (n as u64) && (n as u64) <= u64::MAX && held <= usize::MAX - n
    }

    /// Counts a chunk of `data` read in direction `d`, feeds it to that direction's framer,
    /// and returns the record of each message it completes, in stream order. The chunk itself
    /// is forwarded unchanged by the caller.
    pub fn on_chunk(&mut self, d: Direction, data: &[u8]) -> (r: Vec<MessageRecord>)
        requires
            old(self).wf(),
            bytes_of(old(self).totals(), d) + data@.len() <= u64::MAX,
            old(self).held(d).len() + data@.len() <= usize::MAX,
        ensures
            final(self).wf(),
            final(self).id() == old(self).id(),
            final(self).client() == old(self).client(),
            final(self).target() == old(self).target(),
            final(self).network_spec() == old(self).network_spec(),
            final(self).reads(d) == old(self).reads(d).push(data@),
            final(self).reads(opposite(d)) == old(self).reads(opposite(d)),
            final(self).frames(opposite(d)) == old(self).frames(opposite(d)),
            final(self).held(opposite(d)) == old(self).held(opposite(d)),
            bytes_of(final(self).totals(), opposite(d)) == bytes_of(old(self).totals(), opposite(d)),
            messages_of(final(self).totals(), opposite(d)) == messages_of(old(self).totals(), opposite(d)),
            bytes_of(final(self).totals(), d) == bytes_of(old(self).totals(), d) + data@.len(),
            ({
                let s = scan(old(self).held(d) + data@, network_magic(old(self).network_spec()));
                &&& final(self).frames(d) == old(self).frames(d) + s.0
                &&& final(self).held(d) == s.1
                &&& messages_of(final(self).totals(), d) == messages_of(old(self).totals(), d) + s.0.len()
                &&& r@.len() == s.0.len()
                &&& forall|i: int| 0 <= i < r@.len() ==> final(self).record_of(#[trigger] r@[i], s.0[i], d)
            }),
    {
        let ghost magic = network_magic(self.network);
        let ghost s = scan(self.held(d) + data@, magic);
        let ghost reads = self.reads(d);
        let ghost frames = self.frames(d);
        proof {
            lemma_feed_push(Seq::<u8>::empty(), reads, data@, magic);
            lemma_joined_push(reads, data@);
            lemma_yielded_frames(self.held(d) + data@, magic);
            lemma_joined_concat(frames, s.0);
            assert forall|i: int| 0 <= i < (frames + s.0).len() implies (#[trigger] (frames + s.0)[i]).len() >= HEADER_LEN by {
                if i >= frames.len() {
                    assert((frames + s.0)[i] == s.0[i - frames.len()]);
                }
            }
            lemma_payload_joined(frames + s.0);
        }
        let msgs = match d {
            Direction::Inbound => self.inbound.push_data(data),
            Direction::Outbound => self.outbound.push_data(data),
        };
        let n = data.len() as u64;
        let k = msgs.len() as u64;
        match d {
            Direction::Inbound => {
                self.stats.bytes_inbound = self.stats.bytes_inbound + n;
                self.stats.messages_inbound = self.stats.messages_inbound + k;
                self.reads_in = Ghost(reads.push(data@));
                self.frames_in = Ghost(frames + s.0);
            },
            Direction::Outbound => {
                self.stats.bytes_outbound = self.stats.bytes_outbound + n;
                self.stats.messages_outbound = self.stats.messages_outbound + k;
                self.reads_out = Ghost(reads.push(data@));
                self.frames_out = Ghost(frames + s.0);
            },
        }
        let mut records: Vec<MessageRecord> = Vec::new();
        let mut i: usize = 0;
        while i < msgs.len()
            invariant
                i <= msgs@.len(),
                msgs@.len() == s.0.len(),
                records@.len() == i,
                forall|j: int| 0 <= j < msgs@.len() ==> message_of_frame(#[trigger] msgs@[j], s.0[j], self.network),
                forall|j: int| 0 <= j < i ==> self.record_of(#[trigger] records@[j], s.0[j], d),
            decreases msgs@.len() - i,
        {
            let rec = self.record(&msgs[i], d);
            assert(message_of_frame(msgs@[i as int], s.0[i as int], self.network));
            records.push(rec);
            i = i + 1;
        }
        records
    }

    fn record(&self, m: &BitcoinMessage, d: Direction) -> (r: MessageRecord)
        requires
            m.payload_len <= u64::MAX,
        ensures
            r.connection_id == self.id(),
            r.direction == d,
            r.source_peer@ == (if d == Direction::Inbound { self.client() } else { self.target() }),
            r.destination_peer@ == (if d == Direction::Inbound { self.target() } else { self.client() }),
            r.message_type == command_type(m.command@),
            r.payload_size == m.payload_len,
            r.description@ == m.description@,
    {
        let (source_peer, destination_peer) = match d {
            Direction::Inbound => (self.client_addr.clone(), self.target_addr.clone()),
            Direction::Outbound => (self.target_addr.clone(), self.client_addr.clone()),
        };
        MessageRecord {
            connection_id: self.connection_id,
            direction: d,
            source_peer,
            destination_peer,
            message_type: m.message_type(),
            payload_size: m.payload_len as u64,
            description: m.description.clone(),
        }
    }
}

/// Each direction's byte total is the sum of the sizes of the chunks read in it.
pub proof fn lemma_bytes_are_reads(h: ConnectionHandler)
    requires
        h.wf(),
    ensures
        h.totals().bytes_inbound == read_total(h.reads(Direction::Inbound)),
        h.totals().bytes_outbound == read_total(h.reads(Direction::Outbound)),
{
    lemma_read_total(h.reads(Direction::Inbound));
    lemma_read_total(h.reads(Direction::Outbound));
}

/// Each direction's byte total covers the payloads of its messages plus one header per
/// message: the totals written at close are never short of the messages recorded.
pub proof fn lemma_totals_cover_messages(h: ConnectionHandler)
    requires
        h.wf(),
    ensures
        h.totals().bytes_inbound >= payload_total(h.frames(Direction::Inbound)) + HEADER_LEN
            * h.totals().messages_inbound,
        h.totals().bytes_outbound >= payload_total(h.frames(Direction::Outbound)) + HEADER_LEN
            * h.totals().messages_outbound,
{
    lemma_payload_joined(h.frames(Direction::Inbound));
    lemma_payload_joined(h.frames(Direction::Outbound));
}

} // verus!
