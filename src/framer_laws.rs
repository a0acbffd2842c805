use vstd::prelude::*;
use crate::framer::{HEADER_LEN, MAX_BUFFER, MAX_PAYLOAD, command_ascii, declared_length, frame_at, frame_decodes, frame_size, header_ok, magic_prefix_ok, scan, waits};

verus! {

/// The bytes of a sequence of frames laid end to end.
pub open spec fn joined(fs: Seq<Seq<u8>>) -> Seq<u8>
    decreases fs.len(),
{
    if fs.len() == 0 {
        seq![]
    } else {
        fs[0] + joined(fs.drop_first())
    }
}

/// A complete frame for `magic` whose header the framer accepts and that rust-bitcoin decodes.
pub open spec fn well_formed(f: Seq<u8>, magic: Seq<u8>) -> bool {
    header_ok(f, magic) && f.len() == frame_size(f) && frame_decodes(f)
}

/// `q` is a proper prefix of frame `g`.
pub open spec fn proper_prefix(q: Seq<u8>, g: Seq<u8>) -> bool {
    q.len() < g.len() && q == g.take(q.len() as int)
}

/// The framer's state after each chunk in turn is fed to a framer holding `held`: the
/// frames yielded over all feeds, and the bytes held at the end.
pub open spec fn feed_all(held: Seq<u8>, chunks: Seq<Seq<u8>>, magic: Seq<u8>) -> (
    Seq<Seq<u8>>,
    Seq<u8>,
)
    decreases chunks.len(),
{
    if chunks.len() == 0 {
        (seq![], held)
    } else {
        let s = scan(held + chunks[0], magic);
        let r = feed_all(s.1, chunks.drop_first(), magic);
        (s.0 + r.0, r.1)
    }
}

/// Garbage runs and frames laid out as `gs[0] fs[0] gs[1] fs[1] ...`.
pub open spec fn interleaved(gs: Seq<Seq<u8>>, fs: Seq<Seq<u8>>) -> Seq<u8>
    decreases fs.len(),
{
    if fs.len() == 0 || gs.len() == 0 {
        seq![]
    } else {
        gs[0] + fs[0] + interleaved(gs.drop_first(), fs.drop_first())
    }
}

/// Number of single bytes the framer drops while scanning `b`.
pub open spec fn resyncs(b: Seq<u8>, magic: Seq<u8>) -> nat
    decreases b.len(),
{
    if b.len() == 0 || waits(b, magic) {
        0
    } else if frame_at(b, magic) {
        resyncs(b.skip(frame_size(b) as int), magic)
    } else if b.len() > MAX_BUFFER {
        0
    } else {
        1 + resyncs(b.skip(1), magic)
    }
}

/// Total length of the garbage runs.
pub open spec fn garbage_len(gs: Seq<Seq<u8>>) -> nat
    decreases gs.len(),
{
    if gs.len() == 0 {
        0
    } else {
        gs[0].len() + garbage_len(gs.drop_first())
    }
}

proof fn lemma_magic_extend(x: Seq<u8>, y: Seq<u8>, magic: Seq<u8>)
    requires
        x.len() >= 4,
    ensures
        magic_prefix_ok(x + y, magic) == magic_prefix_ok(x, magic),
{
    if magic_prefix_ok(x, magic) {
        assert forall|j: int| 0 <= j < (x + y).len() && j < 4 implies (x + y)[j] == magic[j] by {
            assert(x[j] == magic[j]);
        }
    }
    if magic_prefix_ok(x + y, magic) {
        assert forall|j: int| 0 <= j < x.len() && j < 4 implies x[j] == magic[j] by {
            assert((x + y)[j] == magic[j]);
        }
    }
}

/// Header checks look at the first 24 bytes only.
proof fn lemma_header_extend(x: Seq<u8>, y: Seq<u8>, magic: Seq<u8>)
    requires
        x.len() >= HEADER_LEN,
    ensures
        header_ok(x + y, magic) == header_ok(x, magic),
        declared_length(x + y) == declared_length(x),
        frame_size(x + y) == frame_size(x),
{
    lemma_magic_extend(x, y, magic);
    assert(forall|j: int| 0 <= j < HEADER_LEN ==> (x + y)[j] == x[j]);
}

/// A well-formed frame at the front is yielded whole, whatever follows it.
proof fn lemma_frame_first(f: Seq<u8>, rest: Seq<u8>, magic: Seq<u8>)
    requires
        well_formed(f, magic),
    ensures
        (f + rest).len() > 0,
        !waits(f + rest, magic),
        frame_at(f + rest, magic),
        frame_size(f + rest) == f.len(),
        (f + rest).take(f.len() as int) == f,
        (f + rest).skip(f.len() as int) == rest,
{
    lemma_header_extend(f, rest, magic);
    assert((f + rest).take(f.len() as int) =~= f);
    assert((f + rest).skip(f.len() as int) =~= rest);
}

/// A non-empty proper prefix of a well-formed frame waits for more bytes.
proof fn lemma_prefix_waits(q: Seq<u8>, g: Seq<u8>, magic: Seq<u8>)
    requires
        well_formed(g, magic),
        proper_prefix(q, g),
    ensures
        waits(q, magic),
{
    assert forall|j: int| 0 <= j < q.len() && j < 4 implies q[j] == magic[j] by {
        assert(q[j] == g[j]);
    }
    if q.len() >= HEADER_LEN {
        assert(forall|j: int| 0 <= j < HEADER_LEN ==> q[j] == g[j]);
    }
}

/// Frames laid end to end, then part of one more frame: every whole frame is yielded and
/// the part is held.
proof fn lemma_scan_frames(fs: Seq<Seq<u8>>, q: Seq<u8>, g: Seq<u8>, magic: Seq<u8>)
    requires
        forall|i: int| 0 <= i < fs.len() ==> well_formed(#[trigger] fs[i], magic),
        q.len() == 0 || (well_formed(g, magic) && proper_prefix(q, g)),
    ensures
        scan(joined(fs) + q, magic) == (fs, q),
    decreases fs.len(),
{
    if fs.len() == 0 {
        assert(joined(fs) + q =~= q);
        if q.len() > 0 {
            lemma_prefix_waits(q, g, magic);
        }
    } else {
        let tail = fs.drop_first();
        lemma_scan_frames(tail, q, g, magic);
        let b = joined(fs) + q;
        assert(b =~= fs[0] + (joined(tail) + q));
        lemma_frame_first(fs[0], joined(tail) + q, magic);
        assert(seq![fs[0]] + tail =~= fs);
    }
}

proof fn lemma_joined_split(fs: Seq<Seq<u8>>, k: int)
    requires
        0 <= k <= fs.len(),
    ensures
        joined(fs) == joined(fs.take(k)) + joined(fs.skip(k)),
    decreases fs.len(),
{
    if k == 0 {
        assert(fs.skip(0) =~= fs);
        assert(joined(fs.take(0)) =~= Seq::<u8>::empty());
        assert(joined(fs) =~= Seq::<u8>::empty() + joined(fs));
    } else {
        let tail = fs.drop_first();
        lemma_joined_split(tail, k - 1);
        assert(fs.take(k).drop_first() =~= tail.take(k - 1));
        assert(fs.take(k)[0] == fs[0]);
        assert(tail.skip(k - 1) =~= fs.skip(k));
        assert(joined(fs.take(k)) == fs[0] + joined(tail.take(k - 1)));
        assert(joined(fs) =~= joined(fs.take(k)) + joined(fs.skip(k)));
    }
}

/// Every prefix of frames laid end to end is some whole frames and then part of the next.
proof fn lemma_prefix_split(fs: Seq<Seq<u8>>, x: Seq<u8>) -> (k: int)
    requires
        forall|i: int| 0 <= i < fs.len() ==> (#[trigger] fs[i]).len() > 0,
        x.len() <= joined(fs).len(),
        x == joined(fs).take(x.len() as int),
    ensures
        0 <= k <= fs.len(),
        x.len() >= joined(fs.take(k)).len(),
        x == joined(fs.take(k)) + x.skip(joined(fs.take(k)).len() as int),
        ({
            let q = x.skip(joined(fs.take(k)).len() as int);
            q.len() == 0 || (k < fs.len() && proper_prefix(q, fs[k]))
        }),
    decreases fs.len(),
{
    if fs.len() == 0 {
        assert(joined(fs.take(0)) =~= Seq::<u8>::empty());
        assert(x =~= Seq::<u8>::empty());
        assert(x.skip(0) =~= x);
        0
    } else if x.len() < fs[0].len() {
        assert(joined(fs.take(0)) =~= Seq::<u8>::empty());
        assert(x.skip(0) =~= x);
        assert(joined(fs) == fs[0] + joined(fs.drop_first()));
        assert(x =~= fs[0].take(x.len() as int));
        0
    } else {
        let tail = fs.drop_first();
        let rest = x.skip(fs[0].len() as int);
        assert(joined(fs) == fs[0] + joined(tail));
        assert(rest =~= joined(tail).take(rest.len() as int));
        let k1 = lemma_prefix_split(tail, rest);
        let k = k1 + 1;
        assert(fs.take(k).drop_first() =~= tail.take(k1));
        assert(fs.take(k)[0] == fs[0]);
        assert(joined(fs.take(k)) == fs[0] + joined(tail.take(k1)));
        assert(x.skip(joined(fs.take(k)).len() as int) =~= rest.skip(joined(tail.take(k1)).len() as int));
        assert(x =~= fs[0] + rest);
        assert(x =~= joined(fs.take(k)) + x.skip(joined(fs.take(k)).len() as int));
        if k1 < tail.len() {
            assert(tail[k1] == fs[k]);
        }
        k
    }
}

proof fn lemma_feed_frames(fs: Seq<Seq<u8>>, held: Seq<u8>, chunks: Seq<Seq<u8>>, magic: Seq<u8>)
    requires
        forall|i: int| 0 <= i < fs.len() ==> well_formed(#[trigger] fs[i], magic),
        held.len() == 0 || (fs.len() > 0 && proper_prefix(held, fs[0])),
        held + joined(chunks) == joined(fs),
    ensures
        feed_all(held, chunks, magic) == (fs, Seq::<u8>::empty()),
    decreases chunks.len(),
{
    if chunks.len() == 0 {
        assert(held + joined(chunks) =~= held);
        if fs.len() > 0 {
            assert(joined(fs) == fs[0] + joined(fs.drop_first()));
        }
        assert(fs =~= Seq::<Seq<u8>>::empty());
    } else {
        let x = held + chunks[0];
        assert(joined(chunks) == chunks[0] + joined(chunks.drop_first()));
        assert(held + joined(chunks) =~= x + joined(chunks.drop_first()));
        assert(x =~= joined(fs).take(x.len() as int));
        let k = lemma_prefix_split(fs, x);
        let done = fs.take(k);
        let left = fs.skip(k);
        let q = x.skip(joined(done).len() as int);
        if q.len() == 0 {
            lemma_scan_frames(done, q, fs[0], magic);
        } else {
            lemma_scan_frames(done, q, fs[k], magic);
        }
        assert(scan(x, magic) == (done, q));
        lemma_joined_split(fs, k);
        let jd = joined(done);
        let rest_in = q + joined(chunks.drop_first());
        assert(joined(fs) =~= jd + rest_in);
        assert((jd + rest_in).skip(jd.len() as int) =~= rest_in);
        assert((jd + joined(left)).skip(jd.len() as int) =~= joined(left));
        assert(rest_in =~= joined(left));
        assert forall|i: int| 0 <= i < left.len() implies well_formed(#[trigger] left[i], magic) by {
            assert(left[i] == fs[k + i]);
        }
        if q.len() > 0 {
            assert(left[0] == fs[k]);
        }
        lemma_feed_frames(left, q, chunks.drop_first(), magic);
        assert(done + left =~= fs);
    }
}

/// Feeding well-formed frames laid end to end, cut into chunks anywhere, yields exactly
/// those frames in order and leaves nothing held.
pub proof fn lemma_chunking_invariant(fs: Seq<Seq<u8>>, chunks: Seq<Seq<u8>>, magic: Seq<u8>)
    requires
        forall|i: int| 0 <= i < fs.len() ==> well_formed(#[trigger] fs[i], magic),
        joined(chunks) == joined(fs),
    ensures
        feed_all(Seq::<u8>::empty(), chunks, magic) == (fs, Seq::<u8>::empty()),
{
    assert(Seq::<u8>::empty() + joined(chunks) =~= joined(chunks));
    lemma_feed_frames(fs, Seq::<u8>::empty(), chunks, magic);
}

/// A well-formed frame cut in two: the first part yields nothing and is held; the held part
/// followed by the rest yields the frame once and leaves nothing held.
pub proof fn lemma_split_frame(f: Seq<u8>, t: int, magic: Seq<u8>)
    requires
        well_formed(f, magic),
        0 < t < f.len(),
    ensures
        scan(f.take(t), magic) == (Seq::<Seq<u8>>::empty(), f.take(t)),
        scan(f.take(t) + f.skip(t), magic) == (seq![f], Seq::<u8>::empty()),
{
    lemma_prefix_waits(f.take(t), f, magic);
    assert(f.take(t) + f.skip(t) =~= f);
    lemma_frame_first(f, Seq::<u8>::empty(), magic);
    assert(f + Seq::<u8>::empty() =~= f);
    assert(f.skip(f.len() as int) =~= Seq::<u8>::empty());
    assert(scan(Seq::<u8>::empty(), magic) == (Seq::<Seq<u8>>::empty(), Seq::<u8>::empty()));
    assert(seq![f] + Seq::<Seq<u8>>::empty() =~= seq![f]);
}

/// Bytes none of whose positions starts the magic are dropped one at a time, and what follows
/// is framed as if they were absent, while the buffer stays within `MAX_BUFFER`.
proof fn lemma_skip_garbage(g: Seq<u8>, rest: Seq<u8>, magic: Seq<u8>)
    requires
        forall|i: int| 0 <= i < g.len() ==> !magic_prefix_ok(#[trigger] g.skip(i) + rest, magic),
        (g + rest).len() <= MAX_BUFFER,
    ensures
        scan(g + rest, magic) == scan(rest, magic),
        resyncs(g + rest, magic) == g.len() + resyncs(rest, magic),
    decreases g.len(),
{
    if g.len() == 0 {
        assert(g + rest =~= rest);
    } else {
        let b = g + rest;
        assert(g.skip(0) =~= g);
        assert(!magic_prefix_ok(b, magic));
        assert(b.skip(1) =~= g.skip(1) + rest);
        assert forall|i: int| 0 <= i < g.skip(1).len() implies !magic_prefix_ok(
            #[trigger] g.skip(1).skip(i) + rest,
            magic,
        ) by {
            assert(g.skip(1).skip(i) =~= g.skip(i + 1));
        }
        lemma_skip_garbage(g.skip(1), rest, magic);
    }
}

/// Garbage before each frame, none of whose positions starts the magic, is skipped one byte
/// at a time: the framer yields the frames alone, in order, after exactly as many single-byte
/// drops as there are garbage bytes, while the whole input stays within `MAX_BUFFER`.
pub proof fn lemma_garbage_skipped(gs: Seq<Seq<u8>>, fs: Seq<Seq<u8>>, magic: Seq<u8>)
    requires
        gs.len() == fs.len(),
        forall|k: int| 0 <= k < fs.len() ==> well_formed(#[trigger] fs[k], magic),
        forall|k: int, i: int|
            0 <= k < fs.len() && 0 <= i < gs[k].len() ==> !magic_prefix_ok(
                #[trigger] gs[k].skip(i) + fs[k],
                magic,
            ),
        interleaved(gs, fs).len() <= MAX_BUFFER,
    ensures
        scan(interleaved(gs, fs), magic) == (fs, Seq::<u8>::empty()),
        resyncs(interleaved(gs, fs), magic) == garbage_len(gs),
    decreases fs.len(),
{
    if fs.len() == 0 {
        assert(fs =~= Seq::<Seq<u8>>::empty());
        assert(gs =~= Seq::<Seq<u8>>::empty());
    } else {
        let g = gs[0];
        let f = fs[0];
        let tail = interleaved(gs.drop_first(), fs.drop_first());
        assert(interleaved(gs, fs) =~= g + (f + tail));
        assert forall|i: int| 0 <= i < g.len() implies !magic_prefix_ok(
            #[trigger] g.skip(i) + (f + tail),
            magic,
        ) by {
            assert(!magic_prefix_ok(gs[0].skip(i) + fs[0], magic));
            lemma_magic_extend(g.skip(i) + f, tail, magic);
            assert(g.skip(i) + (f + tail) =~= (g.skip(i) + f) + tail);
        }
        lemma_skip_garbage(g, f + tail, magic);
        assert forall|k: int, i: int|
            0 <= k < fs.drop_first().len() && 0 <= i < gs.drop_first()[k].len() implies !magic_prefix_ok(
            #[trigger] gs.drop_first()[k].skip(i) + fs.drop_first()[k],
            magic,
        ) by {
            assert(!magic_prefix_ok(gs[k + 1].skip(i) + fs[k + 1], magic));
        }
        assert forall|k: int| 0 <= k < fs.drop_first().len() implies well_formed(
            #[trigger] fs.drop_first()[k],
            magic,
        ) by {
            assert(well_formed(fs[k + 1], magic));
        }
        lemma_garbage_skipped(gs.drop_first(), fs.drop_first(), magic);
        lemma_frame_first(f, tail, magic);
        assert(seq![f] + fs.drop_first() =~= fs);
    }
}

/// A header that declares exactly `MAX_PAYLOAD` bytes is a frame in the making: until the
/// frame is whole the framer waits. One that declares a byte more is noise: its leading byte
/// is dropped.
pub proof fn lemma_payload_limit(b: Seq<u8>, magic: Seq<u8>)
    requires
        b.len() >= HEADER_LEN,
        magic_prefix_ok(b, magic),
        command_ascii(b),
    ensures
        declared_length(b) == MAX_PAYLOAD && b.len() < frame_size(b) ==> waits(b, magic),
        declared_length(b) == MAX_PAYLOAD + 1 ==> !waits(b, magic) && !frame_at(b, magic),
{
}

/// A buffer over `MAX_BUFFER` bytes whose leading byte is noise is discarded whole: nothing
/// is yielded and nothing is held, so the next feed starts from an empty buffer.
pub proof fn lemma_oversized_cleared(b: Seq<u8>, magic: Seq<u8>)
    requires
        b.len() > MAX_BUFFER,
        !waits(b, magic),
        !frame_at(b, magic),
    ensures
        scan(b, magic) == (Seq::<Seq<u8>>::empty(), Seq::<u8>::empty()),
{
}

/// What the framer holds is nothing, or bytes that may still start a frame; held bytes over
/// `MAX_BUFFER` have a whole header that the framer accepts.
pub proof fn lemma_held_bytes(b: Seq<u8>, magic: Seq<u8>)
    ensures
        scan(b, magic).1.len() == 0 || waits(scan(b, magic).1, magic),
        scan(b, magic).1.len() > MAX_BUFFER ==> header_ok(scan(b, magic).1, magic),
    decreases b.len(),
{
    if b.len() > 0 && !waits(b, magic) {
        if frame_at(b, magic) {
            lemma_held_bytes(b.skip(frame_size(b) as int), magic);
        } else if b.len() <= MAX_BUFFER {
            lemma_held_bytes(b.skip(1), magic);
        }
    }
}

/// Each yielded frame is well formed for the magic, so it starts with the magic; it is a
/// whole frame of at least a header and at most `MAX_PAYLOAD` bytes of payload. The frames
/// and held bytes together are no longer than the input.
pub proof fn lemma_yielded_frames(b: Seq<u8>, magic: Seq<u8>)
    ensures
        joined(scan(b, magic).0).len() + scan(b, magic).1.len() <= b.len(),
        forall|i: int|
            0 <= i < scan(b, magic).0.len() ==> well_formed(#[trigger] scan(b, magic).0[i], magic),
        forall|i: int|
            0 <= i < scan(b, magic).0.len() ==> HEADER_LEN <= (#[trigger] scan(b, magic).0[i]).len()
                <= HEADER_LEN + MAX_PAYLOAD,
    decreases b.len(),
{
    if b.len() > 0 && !waits(b, magic) {
        if frame_at(b, magic) {
            let n = frame_size(b) as int;
            lemma_yielded_frames(b.skip(n), magic);
            let r = scan(b.skip(n), magic);
            let fs = seq![b.take(n)] + r.0;
            lemma_header_extend(b.take(n), b.skip(n), magic);
            assert(b.take(n) + b.skip(n) =~= b);
            assert(well_formed(b.take(n), magic));
            assert forall|i: int| 0 <= i < fs.len() implies well_formed(#[trigger] fs[i], magic) by {
                if i > 0 {
                    assert(fs[i] == r.0[i - 1]);
                }
            }
            assert(fs.drop_first() =~= r.0);
            assert(joined(fs) == b.take(n) + joined(r.0));
            assert forall|i: int| 0 <= i < fs.len() implies HEADER_LEN <= (#[trigger] fs[i]).len()
                <= HEADER_LEN + MAX_PAYLOAD by {
                if i > 0 {
                    assert(fs[i] == r.0[i - 1]);
                }
            }
        } else if b.len() <= MAX_BUFFER {
            lemma_yielded_frames(b.skip(1), magic);
        }
    }
}

/// Once the start of a buffer yields a frame or a drop, more bytes after it change nothing.
proof fn lemma_step_settled(a: Seq<u8>, c: Seq<u8>, magic: Seq<u8>)
    requires
        a.len() > 0,
        !waits(a, magic),
    ensures
        !waits(a + c, magic),
        frame_at(a + c, magic) == frame_at(a, magic),
        frame_at(a, magic) ==> frame_size(a + c) == frame_size(a) && (a + c).skip(
            frame_size(a) as int,
        ) == a.skip(frame_size(a) as int) + c && (a + c).take(frame_size(a) as int) == a.take(
            frame_size(a) as int,
        ),
        (a + c).skip(1) == a.skip(1) + c,
{
    assert((a + c).skip(1) =~= a.skip(1) + c);
    if !magic_prefix_ok(a, magic) {
        let j = choose|j: int| 0 <= j < a.len() && j < 4 && a[j] != magic[j];
        assert((a + c)[j] == a[j]);
    } else {
        lemma_header_extend(a, c, magic);
        if header_ok(a, magic) {
            let n = frame_size(a) as int;
            assert((a + c).take(n) =~= a.take(n));
            assert((a + c).skip(n) =~= a.skip(n) + c);
        }
    }
}

/// Scanning `a` and then the held bytes followed by `c` yields what scanning `a + c` at once
/// yields, while no buffer grows past `MAX_BUFFER`.
proof fn lemma_scan_append(a: Seq<u8>, c: Seq<u8>, magic: Seq<u8>)
    requires
        (a + c).len() <= MAX_BUFFER,
    ensures
        ({
            let s = scan(a, magic);
            let t = scan(s.1 + c, magic);
            scan(a + c, magic) == (s.0 + t.0, t.1)
        }),
    decreases a.len(),
{
    let s = scan(a, magic);
    if a.len() == 0 {
        assert(a + c =~= c);
        assert(s.1 + c =~= c);
        assert(Seq::<Seq<u8>>::empty() + scan(c, magic).0 =~= scan(c, magic).0);
    } else if waits(a, magic) {
        assert(Seq::<Seq<u8>>::empty() + scan(a + c, magic).0 =~= scan(a + c, magic).0);
    } else {
        lemma_step_settled(a, c, magic);
        if frame_at(a, magic) {
            let n = frame_size(a) as int;
            lemma_scan_append(a.skip(n), c, magic);
            let r = scan(a.skip(n), magic);
            let t = scan(r.1 + c, magic);
            assert(seq![a.take(n)] + (r.0 + t.0) =~= (seq![a.take(n)] + r.0) + t.0);
        } else {
            lemma_scan_append(a.skip(1), c, magic);
        }
    }
}

/// Feeding chunks one after another to a framer holding `held` yields what one scan of all
/// the bytes yields, while they stay within `MAX_BUFFER`.
proof fn lemma_feed_is_scan(held: Seq<u8>, chunks: Seq<Seq<u8>>, magic: Seq<u8>)
    requires
        (held + joined(chunks)).len() <= MAX_BUFFER,
        held.len() == 0 || waits(held, magic),
    ensures
        feed_all(held, chunks, magic) == scan(held + joined(chunks), magic),
    decreases chunks.len(),
{
    if chunks.len() == 0 {
        assert(held + joined(chunks) =~= held);
    } else {
        let c = chunks[0];
        let rest = joined(chunks.drop_first());
        assert(held + joined(chunks) =~= (held + c) + rest);
        lemma_scan_append(held + c, rest, magic);
        let s = scan(held + c, magic);
        lemma_yielded_frames(held + c, magic);
        lemma_held_bytes(held + c, magic);
        lemma_feed_is_scan(s.1, chunks.drop_first(), magic);
    }
}

/// Garbage before each frame, none of whose positions starts the magic, is skipped however
/// the stream is cut into chunks: feeding the chunks in order yields the frames alone, in
/// order, while the whole input stays within `MAX_BUFFER`.
pub proof fn lemma_garbage_skipped_in_chunks(
    gs: Seq<Seq<u8>>,
    fs: Seq<Seq<u8>>,
    chunks: Seq<Seq<u8>>,
    magic: Seq<u8>,
)
    requires
        gs.len() == fs.len(),
        forall|k: int| 0 <= k < fs.len() ==> well_formed(#[trigger] fs[k], magic),
        forall|k: int, i: int|
            0 <= k < fs.len() && 0 <= i < gs[k].len() ==> !magic_prefix_ok(
                #[trigger] gs[k].skip(i) + fs[k],
                magic,
            ),
        joined(chunks) == interleaved(gs, fs),
        interleaved(gs, fs).len() <= MAX_BUFFER,
    ensures
        feed_all(Seq::<u8>::empty(), chunks, magic) == (fs, Seq::<u8>::empty()),
{
    assert(Seq::<u8>::empty() + joined(chunks) =~= joined(chunks));
    lemma_feed_is_scan(Seq::<u8>::empty(), chunks, magic);
    lemma_garbage_skipped(gs, fs, magic);
}

} // verus!
