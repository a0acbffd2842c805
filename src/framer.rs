use vstd::prelude::*;
use bitcoin::consensus::Decodable;
use bitcoin::p2p::message::RawNetworkMessage;
use crate::describe::{describe, description_text};
use crate::payload::{payload_detail, read_detail};
use crate::message_type::{MessageType, command_type};
use crate::network::{Network, network_magic};
use crate::text::{ascii_chars, push_ascii};

verus! {

/// Size of a frame header: magic, command, payload length and checksum.
pub const HEADER_LEN: usize = 24;

/// Largest payload length a frame may declare (32 MiB).
pub const MAX_PAYLOAD: usize = 33554432;

/// Size beyond which a buffer that keeps failing to parse is discarded (10 MiB).
pub const MAX_BUFFER: usize = 10485760;

/// Whether rust-bitcoin decodes these bytes as one network message: the checksum matches
/// and the payload parses as the message that the command names.
pub uninterp spec fn frame_decodes(frame: Seq<u8>) -> bool;

/// Relies on `RawNetworkMessage::consensus_decode_from_finite_reader` of rust-bitcoin: whether
/// it accepts a frame depends on the frame's bytes alone.
#[verifier::external_body]
fn decodes(frame: &[u8]) -> (r: bool)
    ensures
        r == frame_decodes(frame@),
{
    let mut reader: &[u8] = frame;
    RawNetworkMessage::consensus_decode_from_finite_reader(&mut reader).is_ok()
}

/// The little-endian 32-bit number at offset `i`.
pub open spec fn le_u32_at(b: Seq<u8>, i: int) -> nat {
    (b[i] as nat) + 256 * (b[i + 1] as nat) + 65536 * (b[i + 2] as nat) + 16777216 * (
    b[i + 3] as nat)
}

/// The payload length a header declares.
pub open spec fn declared_length(b: Seq<u8>) -> nat {
    le_u32_at(b, 16)
}

/// Size of the frame that a header announces.
pub open spec fn frame_size(b: Seq<u8>) -> nat {
    (HEADER_LEN + declared_length(b)) as nat
}

/// The bytes present agree with the network magic, as far as they go.
pub open spec fn magic_prefix_ok(b: Seq<u8>, magic: Seq<u8>) -> bool {
    forall|j: int| 0 <= j < b.len() && j < 4 ==> b[j] == magic[j]
}

/// The twelve command bytes are ASCII.
pub open spec fn command_ascii(b: Seq<u8>) -> bool {
    forall|j: int| 4 <= j < 16 ==> b[j] < 128
}

/// The header at the start of `b` is one the framer accepts, whether or not the frame
/// is complete yet.
pub open spec fn header_ok(b: Seq<u8>, magic: Seq<u8>) -> bool {
    &&& b.len() >= HEADER_LEN
    &&& magic_prefix_ok(b, magic)
    &&& command_ascii(b)
    &&& declared_length(b) <= MAX_PAYLOAD
}

/// The buffer may still start a frame: more bytes are needed before anything is decided.
pub open spec fn waits(b: Seq<u8>, magic: Seq<u8>) -> bool {
    magic_prefix_ok(b, magic) && (b.len() < HEADER_LEN || (header_ok(b, magic) && b.len()
        < frame_size(b)))
}

/// The buffer starts with a whole frame that decodes.
pub open spec fn frame_at(b: Seq<u8>, magic: Seq<u8>) -> bool {
    header_ok(b, magic) && b.len() >= frame_size(b) && frame_decodes(b.take(frame_size(b) as int))
}

/// What the framer makes of a buffer: the frames it yields, in order, and the bytes it
/// keeps. Each step yields a whole frame, waits for more bytes, or drops one leading
/// byte. A buffer over `MAX_BUFFER` whose leading byte would be dropped is discarded whole
/// instead: it has grown past the limit without yielding a frame.
///
/// A buffer that waits on an accepted header is kept whatever its size: a frame of up to
/// `MAX_PAYLOAD` bytes of payload, larger than `MAX_BUFFER`, must be able to arrive whole.
/// The size limit therefore applies to noise, not to a frame still being received.
pub open spec fn scan(b: Seq<u8>, magic: Seq<u8>) -> (Seq<Seq<u8>>, Seq<u8>)
    decreases b.len(),
{
    if b.len() == 0 {
        (seq![], seq![])
    } else if waits(b, magic) {
        (seq![], b)
    } else if frame_at(b, magic) {
        let r = scan(b.skip(frame_size(b) as int), magic);
        (seq![b.take(frame_size(b) as int)] + r.0, r.1)
    } else if b.len() > MAX_BUFFER {
        (seq![], seq![])
    } else {
        scan(b.skip(1), magic)
    }
}

/// The command text of a frame: its command field without the trailing NUL bytes.
pub open spec fn command_len(f: Seq<u8>, k: nat) -> nat
    decreases k,
{
    if k == 0 {
        0
    } else if f[4 + k - 1] != 0 {
        k
    } else {
        command_len(f, (k - 1) as nat)
    }
}

pub open spec fn command_text(f: Seq<u8>) -> Seq<char> {
    ascii_chars(f.subrange(4, 4 + command_len(f, 12) as int))
}

/// The description of frame `f`: its kind, command text and the payload fields its kind shows.
pub open spec fn frame_description(f: Seq<u8>) -> Seq<char> {
    let kind = command_type(command_text(f));
    description_text(kind, command_text(f), payload_detail(kind, f.skip(HEADER_LEN as int)))
}

/// One Bitcoin message taken from the stream.
#[derive(Debug, Clone)]
pub struct BitcoinMessage {
    pub network: Network,
    /// The command as it stands in the header, without NUL padding.
    pub command: String,
    /// Payload bytes, not counting the header.
    pub payload_len: usize,
    /// One-line summary, starting with the command.
    pub description: String,
}

/// `m` is the message the framer yields for frame `f` on `network`.
pub open spec fn message_of_frame(m: BitcoinMessage, f: Seq<u8>, network: Network) -> bool {
    &&& f.len() >= HEADER_LEN
    &&& m.network == network
    &&& m.payload_len == f.len() - HEADER_LEN
    &&& m.payload_len <= MAX_PAYLOAD
    &&& m.command@ == command_text(f)
    &&& m.description@ == frame_description(f)
}

impl BitcoinMessage {
    /// The command as it stands in the header.
    pub fn command_name(&self) -> (r: &str)
        ensures
            r@ == self.command@,
    {
        self.command.as_str()
    }

    /// The message's one-line summary.
    pub fn description(&self) -> (r: String)
        ensures
            r@ == self.description@,
    {
        self.description.clone()
    }

    /// The stored kind of the message: the known command it names, else `Unknown`.
    pub fn message_type(&self) -> (r: MessageType)
        ensures
            r == command_type(self.command@),
    {
        MessageType::from_command(self.command.as_str())
    }
}

/// What the header checks decide at one position of the buffer.
enum Check {
    /// More bytes are needed.
    Wait,
    /// The bytes there cannot start a frame.
    Drop,
    /// A whole frame of this many bytes stands there, header accepted.
    Whole(usize),
}

fn check_at(buf: &Vec<u8>, pos: usize, magic: &[u8; 4]) -> (r: Check)
    requires
        pos < buf@.len(),
    ensures
        ({
            let b = buf@.skip(pos as int);
            match r {
                Check::Wait => waits(b, magic@),
                Check::Drop => !waits(b, magic@) && !(header_ok(b, magic@) && b.len() >= frame_size(
                    b)),
                Check::Whole(n) => !waits(b, magic@) && header_ok(b, magic@) && n == frame_size(b)
                    && b.len() >= n,
            }
        }),
{
    let ghost b = buf@.skip(pos as int);
    let total = buf.len();
    let avail = total - pos;
    let mut j: usize = 0;
    while j < 4 && j < avail
        invariant
            b == buf@.skip(pos as int),
            pos < buf@.len(),
            total == buf@.len(),
            avail == total - pos,
            avail == b.len(),
            j <= 4,
            forall|k: int| 0 <= k < j ==> b[k] == magic@[k],
        decreases 4 - j,
    {
        if buf[pos + j] != magic[j] {
            assert(b[j as int] == buf@[pos + j]);
            assert(!magic_prefix_ok(b, magic@));
            return Check::Drop;
        }
        j = j + 1;
    }
    assert(magic_prefix_ok(b, magic@));
    if avail < HEADER_LEN {
        return Check::Wait;
    }
    let mut j: usize = 4;
    while j < 16
        invariant
            b == buf@.skip(pos as int),
            pos < buf@.len(),
            total == buf@.len(),
            avail == total - pos,
            avail == b.len(),
            avail >= HEADER_LEN,
            4 <= j <= 16,
            forall|k: int| 4 <= k < j ==> b[k] < 128,
        decreases 16 - j,
    {
        if buf[pos + j] >= 128 {
            assert(b[j as int] == buf@[pos + j]);
            assert(!command_ascii(b));
            return Check::Drop;
        }
        j = j + 1;
    }
    let len = buf[pos + 16] as usize + 256 * (buf[pos + 17] as usize) + 65536 * (
    buf[pos + 18] as usize) + 16777216 * (buf[pos + 19] as usize);
    if len > MAX_PAYLOAD {
        return Check::Drop;
    }
    if avail < HEADER_LEN + len {
        return Check::Wait;
    }
    Check::Whole(HEADER_LEN + len)
}

fn build_message(frame: &[u8], network: Network) -> (r: BitcoinMessage)
    requires
        frame@.len() >= HEADER_LEN,
        frame@.len() - HEADER_LEN <= MAX_PAYLOAD,
    ensures
        message_of_frame(r, frame@, network),
{
    let ghost f = frame@;
    let mut k: usize = 12;
    while k > 0 && frame[4 + k - 1] == 0
        invariant
            k <= 12,
            f == frame@,
            f.len() >= HEADER_LEN,
            command_len(f, 12) == command_len(f, k as nat),
        decreases k,
    {
        k = k - 1;
    }
    let mut command = String::new();
    push_ascii(&mut command, &frame[4..4 + k]);
    assert(command@ =~= command_text(f));
    let kind = MessageType::from_command(command.as_str());
    let payload = &frame[HEADER_LEN..frame.len()];
    assert(payload@ =~= f.skip(HEADER_LEN as int));
    let d = read_detail(kind, payload);
    let description = describe(kind, command.as_str(), &d);
    BitcoinMessage { network, command, payload_len: frame.len() - HEADER_LEN, description }
}

/// Streaming framer for one direction of a connection: it keeps the bytes that do not yet
/// make a frame and yields each frame once it is whole.
pub struct MessageParser {
    buffer: Vec<u8>,
    network: Network,
}

impl MessageParser {
    /// The bytes held for the next feed.
    pub closed spec fn pending(&self) -> Seq<u8> {
        self.buffer@
    }

    /// The network whose frames are accepted.
    pub closed spec fn network_spec(&self) -> Network {
        self.network
    }

    /// A framer for `network` with nothing held.
    pub fn new(network: Network) -> (r: MessageParser)
        ensures
            r.pending() == Seq::<u8>::empty(),
            r.network_spec() == network,
    {
        MessageParser { buffer: Vec::new(), network }
    }

    /// Number of bytes held for the next feed.
    pub fn buffer_len(&self) -> (r: usize)
        ensures
            r == self.pending().len(),
    {
        self.buffer.len()
    }

    /// Appends `data` and yields every message that is now whole, in stream order; what is
    /// left is held for the next feed.
    pub fn push_data(&mut self, data: &[u8]) -> (r: Vec<BitcoinMessage>)
        requires
            old(self).pending().len() + data@.len() <= usize::MAX,
        ensures
            final(self).network_spec() == old(self).network_spec(),
            ({
                let s = scan(old(self).pending() + data@, network_magic(old(self).network_spec()));
                &&& final(self).pending() == s.1
                &&& r@.len() == s.0.len()
                &&& forall|i: int|
                    0 <= i < r@.len() ==> message_of_frame(
                        #[trigger] r@[i],
                        s.0[i],
                        old(self).network_spec(),
                    )
            }),
    {
        let ghost start = self.buffer@ + data@;
        let magic = self.network.magic();
        let ghost mg = magic@;
        let mut i: usize = 0;
        while i < data.len()
            invariant
                i <= data@.len(),
                self.buffer@ == old(self).buffer@ + data@.subrange(0, i as int),
                self.network == old(self).network,
                old(self).buffer@.len() + data@.len() <= usize::MAX,
            decreases data@.len() - i,
        {
            self.buffer.push(data[i]);
            i = i + 1;
            assert(self.buffer@ =~= old(self).buffer@ + data@.subrange(0, i as int));
        }
        assert(data@.subrange(0, data@.len() as int) =~= data@);
        let ghost full = self.buffer@;
        assert(full == start);
        let total = self.buffer.len();
        let mut msgs: Vec<BitcoinMessage> = Vec::new();
        let ghost mut frames: Seq<Seq<u8>> = seq![];
        let mut pos: usize = 0;
        let mut cleared = false;
        let mut done = false;
        assert(full.skip(0) =~= full);
        assert(frames + scan(full, mg).0 =~= scan(full, mg).0);
        while !done
            invariant
                self.buffer@ == full,
                self.network == old(self).network,
                mg == network_magic(self.network),
                magic@ == mg,
                total == full.len(),
                pos <= total,
                msgs@.len() == frames.len(),
                forall|k: int|
                    0 <= k < msgs@.len() ==> message_of_frame(#[trigger] msgs@[k], frames[k], self.network),
                cleared ==> done,
                cleared ==> scan(full, mg) == (frames, Seq::<u8>::empty()),
                !cleared ==> scan(full, mg) == (frames + scan(full.skip(pos as int), mg).0, scan(
                    full.skip(pos as int),
                    mg,
                ).1),
                done && !cleared ==> scan(full.skip(pos as int), mg) == (Seq::<Seq<u8>>::empty(), full.skip(pos as int)),
            decreases total - pos + if done { 0int } else { 1int },
        {
            if pos == total {
                assert(full.skip(pos as int) =~= Seq::<u8>::empty());
                done = true;
            } else {
                let ghost b = full.skip(pos as int);
                let mut drop = false;
                match check_at(&self.buffer, pos, &magic) {
                    Check::Wait => {
                        done = true;
                    },
                    Check::Drop => {
                        drop = true;
                    },
                    Check::Whole(n) => {
                        let frame = &self.buffer[pos..pos + n];
                        assert(frame@ =~= b.take(n as int));
                        if decodes(frame) {
                                let msg = build_message(frame, self.network);
                                msgs.push(msg);
                                proof {
                                    assert(b.skip(n as int) =~= full.skip(pos + n));
                                    assert(frames.push(frame@) + scan(b.skip(n as int), mg).0
                                        =~= frames + scan(b, mg).0);
                                    frames = frames.push(frame@);
                                }
                                pos = pos + n;
                        } else {
                            drop = true;
                        }
                    },
                }
                if drop {
                    if total - pos > MAX_BUFFER {
                        cleared = true;
                        done = true;
                        assert(frames + Seq::<Seq<u8>>::empty() =~= frames);
                    } else {
                        assert(b.skip(1) =~= full.skip(pos + 1));
                        pos = pos + 1;
                    }
                }
            }
        }
        if cleared {
            self.buffer = Vec::new();
        } else {
            let rest = self.buffer.split_off(pos);
            self.buffer = rest;
            assert(frames + Seq::<Seq<u8>>::empty() =~= frames);
        }
        msgs
    }
}

} // verus!
