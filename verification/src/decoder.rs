//! The streaming decoder: it fills a frame from a byte stream that may cut
//! the frame anywhere, and may carry the end of one frame and the start of
//! the next in one buffer.

use vstd::prelude::*;
use vstd::slice::{slice_subrange, slice_to_vec};

use crate::chat_protocol::{be_u32, FrameView, Protocol, ProtocolFieldNameEnum};

verus! {

/// The part of `buf` that a read left between `index` and `total_len`; it is
/// empty where the two do not name a range of `buf`.
pub open spec fn window(buf: Seq<u8>, index: int, total_len: int) -> Seq<u8> {
    if 0 <= index <= total_len <= buf.len() {
        buf.subrange(index, total_len)
    } else {
        Seq::empty()
    }
}

/// The length on the wire of the frame whose header opens `s`.
pub open spec fn frame_len(s: Seq<u8>) -> nat
    recommends
        s.len() >= 6,
{
    6 + be_u32(s.subrange(2, 6))
}

/// How many leading bytes of the stream `s` belong to its first frame: the
/// whole frame where `s` holds all of it, and all of `s` otherwise.
pub open spec fn first_frame_end(s: Seq<u8>) -> nat {
    if s.len() >= 6 && frame_len(s) <= s.len() {
        frame_len(s)
    } else {
        s.len()
    }
}

impl FrameView {
    /// The number of leading bytes of `input` that this frame takes: all of
    /// them, or as many as it lacks where that is fewer.
    pub open spec fn absorbed(self, input: Seq<u8>) -> nat {
        (first_frame_end(self.bytes() + input) - self.bytes().len()) as nat
    }

    /// The frame after it has taken those bytes.
    pub open spec fn absorb(self, input: Seq<u8>) -> FrameView {
        FrameView::from_bytes(
            (self.bytes() + input).take(first_frame_end(self.bytes() + input) as int),
        )
    }
}

/// A well-formed frame is the one that its own bytes spell.
pub proof fn lemma_from_bytes_of_bytes(f: FrameView)
    requires
        f.wf(),
    ensures
        FrameView::from_bytes(f.bytes()) == f,
        f.bytes().len() >= 6 ==> f.bytes().subrange(2, 6) == f.data_len,
        f.bytes().len() >= 6 <==> f.data_len.len() == 4,
        f.is_complete() <==> f.bytes().len() >= 6 && f.bytes().len() == frame_len(f.bytes()),
        f.bytes().len() >= 6 ==> f.bytes().len() <= frame_len(f.bytes()),
{
    let g = FrameView::from_bytes(f.bytes());
    assert(g.version =~= f.version);
    assert(g.data_type =~= f.data_type);
    assert(g.data_len =~= f.data_len);
    assert(g.data =~= f.data);
    if f.bytes().len() >= 6 {
        assert(f.bytes().subrange(2, 6) =~= f.data_len);
    }
}

/// Cutting a stream at the header's offsets gives a frame that holds exactly
/// that stream, and a well-formed one unless the stream runs past the frame's
/// end.
pub proof fn lemma_bytes_of_from_bytes(s: Seq<u8>)
    ensures
        FrameView::from_bytes(s).bytes() == s,
        FrameView::from_bytes(s).wf() <==> (s.len() >= 6 ==> s.len() <= frame_len(s)),
{
    let f = FrameView::from_bytes(s);
    assert(f.bytes() =~= s);
    if s.len() >= 6 {
        assert(f.data_len =~= s.subrange(2, 6));
    }
}

/// What `absorb` yields is well-formed, it holds the old bytes followed by
/// the bytes taken, and bytes are left over only where the frame is complete.
pub proof fn lemma_absorb(f: FrameView, input: Seq<u8>)
    requires
        f.wf(),
    ensures
        f.absorb(input).wf(),
        f.absorbed(input) <= input.len(),
        f.absorb(input).bytes() == f.bytes() + input.take(f.absorbed(input) as int),
        f.absorbed(input) < input.len() ==> f.absorb(input).is_complete(),
        f.is_complete() ==> f.absorbed(input) == 0 && f.absorb(input) == f,
        !f.is_complete() && input.len() > 0 ==> f.absorbed(input) > 0,
{
    let r = f.bytes();
    let s = r + input;
    let e = first_frame_end(s);
    lemma_from_bytes_of_bytes(f);
    if r.len() >= 6 {
        assert(s.subrange(2, 6) =~= r.subrange(2, 6));
    }
    let t = s.take(e as int);
    if t.len() >= 6 {
        assert(t.subrange(2, 6) =~= s.subrange(2, 6));
    }
    lemma_bytes_of_from_bytes(t);
    assert(t =~= r + input.take(e - r.len()));
    lemma_from_bytes_of_bytes(f.absorb(input));
    if f.is_complete() {
        assert(t =~= r);
    }
}

/// Feeding a frame two chunks, one after the other, leaves it as feeding it
/// the two chunks joined does, and takes as many bytes in all.
pub proof fn lemma_absorb_chunks(f: FrameView, a: Seq<u8>, b: Seq<u8>)
    requires
        f.wf(),
    ensures
        f.absorb(a).absorb(b) == f.absorb(a + b),
        f.absorbed(a) == a.len() ==> f.absorbed(a + b) == a.len() + f.absorb(a).absorbed(b),
        f.absorbed(a) < a.len() ==> f.absorbed(a + b) == f.absorbed(a),
{
    let r = f.bytes();
    lemma_absorb(f, a);
    lemma_absorb(f, a + b);
    let f1 = f.absorb(a);
    lemma_absorb(f1, b);
    lemma_from_bytes_of_bytes(f);
    lemma_from_bytes_of_bytes(f1);
    let s = r + (a + b);
    assert(s =~= (r + a) + b);
    if (r + a).len() >= 6 {
        assert(s.subrange(2, 6) =~= (r + a).subrange(2, 6));
    }
    if f.absorbed(a) < a.len() {
        assert(s.take(first_frame_end(s) as int) =~= (r + a).take(first_frame_end(r + a) as int));
    } else {
        assert(a.take(a.len() as int) =~= a);
        assert(f1.bytes() == r + a);
    }
}

/// The frame after the chunks have been fed to it one by one.
pub open spec fn absorb_all(f: FrameView, chunks: Seq<Seq<u8>>) -> FrameView
    decreases chunks.len(),
{
    if chunks.len() == 0 {
        f
    } else {
        absorb_all(f.absorb(chunks.first()), chunks.drop_first())
    }
}

/// Incremental decoding of one frame: however a byte sequence is cut into
/// chunks, feeding the chunks to a frame one by one leaves the frame as
/// feeding it the whole sequence at once does.
pub proof fn lemma_absorb_all(f: FrameView, chunks: Seq<Seq<u8>>)
    requires
        f.wf(),
    ensures
        absorb_all(f, chunks) == f.absorb(chunks.flatten()),
    decreases chunks.len(),
{
    if chunks.len() == 0 {
        lemma_take_nothing(f.bytes(), Seq::<u8>::empty());
        lemma_absorb_reached(f, Seq::<u8>::empty(), f, 0);
    } else {
        lemma_absorb(f, chunks.first());
        lemma_absorb_all(f.absorb(chunks.first()), chunks.drop_first());
        lemma_absorb_chunks(f, chunks.first(), chunks.drop_first().flatten());
    }
}

/// Nothing has been taken from the input yet.
proof fn lemma_take_nothing(r: Seq<u8>, win: Seq<u8>)
    ensures
        r + win.take(0) == r,
{
    assert(r + win.take(0) =~= r);
}

/// Taking `k` more bytes after `c` bytes is taking `c + k` bytes.
proof fn lemma_take_more(r: Seq<u8>, win: Seq<u8>, c: int, k: int)
    requires
        0 <= c,
        0 <= k,
        c + k <= win.len(),
    ensures
        r + win.take(c) + win.subrange(c, c + k) == r + win.take(c + k),
{
    assert(r + win.take(c) + win.subrange(c, c + k) =~= r + win.take(c + k));
}

/// A frame that holds the old bytes and a prefix of the input, and that is
/// complete or has left nothing of the input, is what `absorb` yields.
proof fn lemma_absorb_reached(f: FrameView, input: Seq<u8>, g: FrameView, c: int)
    requires
        f.wf(),
        g.wf(),
        0 <= c <= input.len(),
        g.bytes() == f.bytes() + input.take(c),
        g.is_complete() || c == input.len(),
        f.is_complete() ==> c == 0,
    ensures
        g == f.absorb(input),
        c == f.absorbed(input),
{
    let r = f.bytes();
    let s = r + input;
    lemma_from_bytes_of_bytes(f);
    lemma_from_bytes_of_bytes(g);
    assert(s.take(g.bytes().len() as int) =~= g.bytes());
    if g.bytes().len() >= 6 {
        assert(s.subrange(2, 6) =~= g.bytes().subrange(2, 6));
    }
    if c == input.len() {
        assert(input.take(c) =~= input);
    }
}

/// The place of a frame field in wire order.
spec fn wire_position(name: ProtocolFieldNameEnum) -> int {
    match name {
        ProtocolFieldNameEnum::version => 0,
        ProtocolFieldNameEnum::data_type => 1,
        ProtocolFieldNameEnum::data_len => 2,
        _ => 3,
    }
}

/// Whether the first `n` fields of the frame, in wire order, are complete.
spec fn filled_before(f: FrameView, n: int) -> bool {
    &&& n > 0 ==> f.version.len() == 1
    &&& n > 1 ==> f.data_type.len() == 1
    &&& n > 2 ==> f.data_len.len() == 4
    &&& n > 3 ==> f.data.len() == be_u32(f.data_len)
}

/// Moves into the named field the bytes it lacks, or the bytes that are left
/// before `total_len`, whichever is fewer, and starts the field if it was not
/// started. The fields before it are complete. A field that is filled is left
/// alone.
fn fill_one(
    pkg: &mut Protocol,
    name: &ProtocolFieldNameEnum,
    all_bytes: &Vec<u8>,
    index: usize,
    total_len: usize,
) -> (next: usize)
    requires
        old(pkg)@.wf(),
        name.is_frame_field(),
        index <= total_len <= all_bytes.len(),
        filled_before(old(pkg)@, wire_position(*name)),
    ensures
        final(pkg)@.wf(),
        index <= next <= total_len,
        final(pkg)@.bytes() == old(pkg)@.bytes() + all_bytes@.subrange(index as int, next as int),
        next < total_len ==> filled_before(final(pkg)@, wire_position(*name) + 1),
        old(pkg)@.is_complete() ==> next == index,
        final(pkg).field(*name) is Some,
        index < total_len && !old(pkg)@.is_filled(*name) ==> next > index,
        forall|other: ProtocolFieldNameEnum|
            other != *name ==> final(pkg).field(other) == old(pkg).field(other),
{
    if pkg.check_field_fill(name) {
        assert(all_bytes@.subrange(index as int, index as int) =~= Seq::<u8>::empty());
        assert(pkg@.bytes() + Seq::<u8>::empty() =~= pkg@.bytes());
        return index;
    }
    match pkg.get_diff_size(name) {
        Ok(lack) => {
            let left: usize = total_len - index;
            let take: usize = if lack < left {
                lack
            } else {
                left
            };
            let bytes: Vec<u8> = slice_to_vec(
                slice_subrange(all_bytes.as_slice(), index, index + take),
            );
            let ghost held = *pkg;
            pkg.fill_field(name, bytes);
            proof {
                let taken = all_bytes@.subrange(index as int, index + take);
                assert(pkg.field(ProtocolFieldNameEnum::version) == held.field(
                    ProtocolFieldNameEnum::version,
                ) || *name == ProtocolFieldNameEnum::version);
                assert(pkg.field(ProtocolFieldNameEnum::data_type) == held.field(
                    ProtocolFieldNameEnum::data_type,
                ) || *name == ProtocolFieldNameEnum::data_type);
                assert(pkg.field(ProtocolFieldNameEnum::data_len) == held.field(
                    ProtocolFieldNameEnum::data_len,
                ) || *name == ProtocolFieldNameEnum::data_len);
                assert(pkg.field(ProtocolFieldNameEnum::data) == held.field(
                    ProtocolFieldNameEnum::data,
                ) || *name == ProtocolFieldNameEnum::data);
                assert(pkg@.field(*name) == held@.field(*name) + taken);
                assert(pkg@.bytes() =~= held@.bytes() + taken);
            }
            index + take
        },
        Err(_) => {
            proof {
                assert(false);
            }
            index
        },
    }
}

/// Which accumulators are there after `fill` has worked on the frame `old`
/// with the bytes `input`, and left it as `new`. Nothing changes where there
/// are no bytes. Otherwise an accumulator that was there stays; one of the
/// header is started when it takes its first byte; and the payload's is
/// started as soon as the length field is complete, with no bytes in it
/// where none are due or none are left.
pub open spec fn started_by_fill(old: Protocol, input: Seq<u8>, new: Protocol) -> bool {
    if input.len() == 0 {
        new == old
    } else {
        &&& new.version is None <==> old.version is None && new@.version.len() == 0
        &&& new.data_type is None <==> old.data_type is None && new@.data_type.len() == 0
        &&& new.data_len is None <==> old.data_len is None && new@.data_len.len() == 0
        &&& new.data is None <==> old.data is None && new@.data_len.len() != 4
    }
}

/// Moves bytes of `all_bytes`, from `index` on and before `total_len`, into
/// the fields of `pkg` that are not complete yet, in wire order: version,
/// command, length, payload. Each field takes the bytes it lacks or the bytes
/// that are left, whichever is fewer. Returns the index of the first byte
/// that was not taken.
///
/// At most one frame is filled: once `pkg` is complete, the bytes that are
/// left belong to the next frame. A frame that is filled to the end is
/// complete: all four accumulators are there, the payload's too where the
/// message has no payload.
pub fn fill(pkg: &mut Protocol, all_bytes: &Vec<u8>, index: usize, total_len: usize) -> (next:
    usize)
    requires
        old(pkg)@.wf(),
        total_len <= all_bytes.len(),
    ensures
        final(pkg)@ == old(pkg)@.absorb(window(all_bytes@, index as int, total_len as int)),
        next == index + old(pkg)@.absorbed(window(all_bytes@, index as int, total_len as int)),
        started_by_fill(
            *old(pkg),
            window(all_bytes@, index as int, total_len as int),
            *final(pkg),
        ),
        final(pkg)@.wf(),
        index <= next,
        index <= total_len ==> next <= total_len,
        next < total_len ==> final(pkg).is_complete(),
        index < total_len && final(pkg)@.is_complete() ==> final(pkg).is_complete(),
{
    let ghost win = window(all_bytes@, index as int, total_len as int);
    let ghost given = *old(pkg);
    proof {
        lemma_take_nothing(given@.bytes(), win);
        lemma_absorb(given@, win);
    }
    if index >= total_len {
        proof {
            lemma_absorb_reached(given@, win, given@, 0);
        }
        return index;
    }
    let names = Protocol::get_all_filed_name();
    let ghost first = index;
    let mut index = index;
    let mut i: usize = 0;
    while i < 3
        invariant
            i <= 3,
            names@ == seq![
                ProtocolFieldNameEnum::version,
                ProtocolFieldNameEnum::data_type,
                ProtocolFieldNameEnum::data_len,
                ProtocolFieldNameEnum::data,
            ],
            total_len <= all_bytes.len(),
            first <= index <= total_len,
            win == all_bytes@.subrange(first as int, total_len as int),
            pkg@.wf(),
            pkg@.bytes() == given@.bytes() + win.take(index - first),
            index < total_len ==> filled_before(pkg@, i as int),
            given@.is_complete() ==> index == first && pkg@ == given@,
            pkg.version is None <==> given.version is None && pkg@.version.len() == 0,
            pkg.data_type is None <==> given.data_type is None && pkg@.data_type.len() == 0,
            pkg.data_len is None <==> given.data_len is None && pkg@.data_len.len() == 0,
            pkg.data == given.data,
        decreases 3 - i,
    {
        if index < total_len {
            let ghost c = index - first;
            let ghost held = *pkg;
            let next = fill_one(pkg, &names[i], all_bytes, index, total_len);
            proof {
                assert(all_bytes@.subrange(index as int, next as int) =~= win.subrange(
                    c,
                    c + (next - index),
                ));
                lemma_take_more(given@.bytes(), win, c, next - index);
                assert(pkg.field(ProtocolFieldNameEnum::version) == held.field(
                    ProtocolFieldNameEnum::version,
                ) || i == 0);
                assert(pkg.field(ProtocolFieldNameEnum::data_type) == held.field(
                    ProtocolFieldNameEnum::data_type,
                ) || i == 1);
                assert(pkg.field(ProtocolFieldNameEnum::data_len) == held.field(
                    ProtocolFieldNameEnum::data_len,
                ) || i == 2);
                assert(pkg.field(ProtocolFieldNameEnum::data) == held.field(
                    ProtocolFieldNameEnum::data,
                ));
                lemma_from_bytes_of_bytes(held@);
                lemma_from_bytes_of_bytes(pkg@);
                if given@.is_complete() {
                    assert(pkg@.bytes() =~= held@.bytes());
                }
            }
            index = next;
        }
        i += 1;
    }
    if pkg.check_field_fill(&names[2]) {
        let ghost c = index - first;
        let ghost held = *pkg;
        let next = fill_one(pkg, &names[3], all_bytes, index, total_len);
        proof {
            assert(all_bytes@.subrange(index as int, next as int) =~= win.subrange(
                c,
                c + (next - index),
            ));
            lemma_take_more(given@.bytes(), win, c, next - index);
            assert(pkg.field(ProtocolFieldNameEnum::version) == held.field(
                ProtocolFieldNameEnum::version,
            ));
            assert(pkg.field(ProtocolFieldNameEnum::data_type) == held.field(
                ProtocolFieldNameEnum::data_type,
            ));
            assert(pkg.field(ProtocolFieldNameEnum::data_len) == held.field(
                ProtocolFieldNameEnum::data_len,
            ));
            lemma_from_bytes_of_bytes(held@);
            lemma_from_bytes_of_bytes(pkg@);
            if given@.is_complete() {
                assert(pkg@.bytes() =~= held@.bytes());
            }
        }
        index = next;
    }
    proof {
        lemma_absorb_reached(given@, win, pkg@, index - first);
    }
    index
}

/// Round trip, accumulator by accumulator: a complete frame that is written
/// to the wire and read back by `fill` into a fresh frame comes back
/// complete, with every accumulator there and holding the bytes that were
/// sent, the payload's too where the message has no payload.
pub proof fn lemma_round_trip_frame(sent: Protocol, got: Protocol)
    requires
        sent@.wf(),
        sent.is_complete(),
        got@ == Protocol::fresh()@.absorb(sent@.bytes()),
        started_by_fill(Protocol::fresh(), sent@.bytes(), got),
    ensures
        got.is_complete(),
        forall|name: ProtocolFieldNameEnum|
            name.is_frame_field() ==> #[trigger] got.field(name) is Some && got.field(name)->0@
                == sent.field(name)->0@,
{
    assert(Protocol::fresh()@ == FrameView::empty());
    lemma_round_trip(sent@);
}

/// Multi-frame packing, accumulator by accumulator: where the bytes of a
/// complete frame are followed by more bytes, `fill` into a fresh frame stops
/// at the end of the frame, and the frame comes back complete, with every
/// accumulator there and holding the bytes that were sent. What follows is
/// left for the next frame, which [`lemma_round_trip_frame`] speaks of.
pub proof fn lemma_first_frame_of_many(sent: Protocol, rest: Seq<u8>, got: Protocol)
    requires
        sent@.wf(),
        sent.is_complete(),
        got@ == Protocol::fresh()@.absorb(sent@.bytes() + rest),
        started_by_fill(Protocol::fresh(), sent@.bytes() + rest, got),
    ensures
        Protocol::fresh()@.absorbed(sent@.bytes() + rest) == sent@.bytes().len(),
        got.is_complete(),
        forall|name: ProtocolFieldNameEnum|
            name.is_frame_field() ==> #[trigger] got.field(name) is Some && got.field(name)->0@
                == sent.field(name)->0@,
{
    assert(Protocol::fresh()@ == FrameView::empty());
    lemma_round_trip(sent@);
    lemma_absorb(FrameView::empty(), sent@.bytes());
    lemma_absorb(sent@, rest);
    lemma_absorb_chunks(FrameView::empty(), sent@.bytes(), rest);
    lemma_from_bytes_of_bytes(sent@);
}

/// A byte stream cut into frames.
pub struct Split {
    /// The frames that the stream holds in full, each as its bytes on the
    /// wire, in the order of arrival.
    pub frames: Seq<Seq<u8>>,
    /// The bytes after the last full frame, which open a frame that the
    /// stream does not hold in full; `None` where their header announces a
    /// payload over the limit.
    pub rest: Option<Seq<u8>>,
}

/// Cuts the stream `s` into the frames it holds. Cutting stops at the first
/// header that announces more than `max_data_len` bytes of payload.
pub open spec fn split_frames(s: Seq<u8>, max_data_len: nat) -> Split
    decreases s.len(),
{
    if s.len() < 6 {
        Split { frames: Seq::empty(), rest: Some(s) }
    } else if be_u32(s.subrange(2, 6)) > max_data_len {
        Split { frames: Seq::empty(), rest: None }
    } else if frame_len(s) > s.len() {
        Split { frames: Seq::empty(), rest: Some(s) }
    } else {
        let tail = split_frames(s.skip(frame_len(s) as int), max_data_len);
        Split { frames: seq![s.take(frame_len(s) as int)] + tail.frames, rest: tail.rest }
    }
}

/// What a connection has decoded once `chunk` has arrived after `done`: the
/// bytes left over are decoded together with the chunk. After a violation
/// nothing more is decoded.
pub open spec fn split_more(done: Split, chunk: Seq<u8>, max_data_len: nat) -> Split {
    match done.rest {
        Some(rest) => {
            let next = split_frames(rest + chunk, max_data_len);
            Split { frames: done.frames + next.frames, rest: next.rest }
        },
        None => done,
    }
}

/// What a connection has decoded once the chunks have arrived one by one.
pub open spec fn split_chunks(done: Split, chunks: Seq<Seq<u8>>, max_data_len: nat) -> Split
    decreases chunks.len(),
{
    if chunks.len() == 0 {
        done
    } else {
        split_chunks(split_more(done, chunks.first(), max_data_len), chunks.drop_first(), max_data_len)
    }
}

/// Whether `f` is a frame within the limit: well-formed, complete, and with a
/// payload of at most `max_data_len` bytes.
pub open spec fn valid_frame(f: FrameView, max_data_len: nat) -> bool {
    &&& f.wf()
    &&& f.is_complete()
    &&& f.data.len() <= max_data_len
}

/// Round trip: a complete frame that is written to the wire and read back
/// into a fresh frame comes back as it was, and all its bytes are taken.
pub proof fn lemma_round_trip(f: FrameView)
    requires
        f.wf(),
        f.is_complete(),
    ensures
        FrameView::empty().absorb(f.bytes()) == f,
        FrameView::empty().absorbed(f.bytes()) == f.bytes().len(),
        FrameView::from_bytes(f.bytes()) == f,
{
    let s = f.bytes();
    lemma_from_bytes_of_bytes(f);
    assert(FrameView::empty().bytes() + s =~= s);
    assert(s.take(s.len() as int) =~= s);
}

/// Round trip through the stream: the bytes of a valid frame are cut into
/// that one frame, and nothing is left over.
pub proof fn lemma_round_trip_stream(f: FrameView, max_data_len: nat)
    requires
        valid_frame(f, max_data_len),
    ensures
        split_frames(f.bytes(), max_data_len) == (Split {
            frames: seq![f.bytes()],
            rest: Some(Seq::empty()),
        }),
        FrameView::from_bytes(split_frames(f.bytes(), max_data_len).frames[0]) == f,
{
    let s = f.bytes();
    lemma_from_bytes_of_bytes(f);
    assert(s.take(s.len() as int) =~= s);
    assert(s.skip(s.len() as int) =~= Seq::<u8>::empty());
    let tail = split_frames(s.skip(frame_len(s) as int), max_data_len);
    assert(seq![s.take(frame_len(s) as int)] + tail.frames =~= seq![s]);
}

/// Cutting loses and invents nothing: every frame that comes out is a valid
/// frame within the limit, and where cutting did not stop at a violation,
/// the frames and what is left over are, joined, the stream that went in.
pub proof fn lemma_split_conserves(s: Seq<u8>, max_data_len: nat)
    ensures
        forall|i: int|
            0 <= i < split_frames(s, max_data_len).frames.len() ==> valid_frame(
                FrameView::from_bytes(#[trigger] split_frames(s, max_data_len).frames[i]),
                max_data_len,
            ),
        split_frames(s, max_data_len).rest matches Some(rest) ==> split_frames(
            s,
            max_data_len,
        ).frames.flatten() + rest == s,
    decreases s.len(),
{
    let cut = split_frames(s, max_data_len);
    if s.len() >= 6 && be_u32(s.subrange(2, 6)) <= max_data_len && frame_len(s) <= s.len() {
        let n = frame_len(s) as int;
        let head = s.take(n);
        let tail = split_frames(s.skip(n), max_data_len);
        lemma_split_conserves(s.skip(n), max_data_len);
        lemma_bytes_of_from_bytes(head);
        assert(head.subrange(2, 6) =~= s.subrange(2, 6));
        assert(FrameView::from_bytes(head).data_len =~= head.subrange(2, 6));
        assert forall|i: int| 0 <= i < cut.frames.len() implies valid_frame(
            FrameView::from_bytes(#[trigger] cut.frames[i]),
            max_data_len,
        ) by {
            if i > 0 {
                assert(cut.frames[i] == tail.frames[i - 1]);
            }
        }
        if cut.rest is Some {
            assert(cut.frames.drop_first() =~= tail.frames);
            assert(cut.frames.flatten() + cut.rest->0 =~= head + (tail.frames.flatten()
                + tail.rest->0));
            assert(head + s.skip(n) =~= s);
        }
    } else if cut.rest is Some {
        assert(cut.frames.flatten() + s =~= s);
    }
}

/// Bytes that belong to one frame which is not complete, and is within the
/// limit as far as its header tells, hold no frame.
pub proof fn lemma_split_partial(f: FrameView, max_data_len: nat)
    requires
        f.wf(),
        !f.is_complete(),
        f.data_len.len() == 4 ==> be_u32(f.data_len) <= max_data_len,
    ensures
        split_frames(f.bytes(), max_data_len) == (Split {
            frames: Seq::empty(),
            rest: Some(f.bytes()),
        }),
{
    lemma_from_bytes_of_bytes(f);
}

/// What is left over after cutting holds no frame.
pub proof fn lemma_split_rest(s: Seq<u8>, max_data_len: nat)
    ensures
        split_frames(s, max_data_len).rest matches Some(rest) ==> split_frames(rest, max_data_len)
            == (Split { frames: Seq::empty(), rest: Some(rest) }),
    decreases s.len(),
{
    if s.len() >= 6 && be_u32(s.subrange(2, 6)) <= max_data_len && frame_len(s) <= s.len() {
        lemma_split_rest(s.skip(frame_len(s) as int), max_data_len);
    }
}

/// Incremental decoding, two chunks: decoding `s`, then `chunk` together with
/// what `s` left over, gives what decoding the two joined gives.
pub proof fn lemma_split_more(s: Seq<u8>, chunk: Seq<u8>, max_data_len: nat)
    ensures
        split_more(split_frames(s, max_data_len), chunk, max_data_len) == split_frames(
            s + chunk,
            max_data_len,
        ),
    decreases s.len(),
{
    let whole = s + chunk;
    if s.len() >= 6 {
        assert(whole.subrange(2, 6) =~= s.subrange(2, 6));
        if be_u32(s.subrange(2, 6)) <= max_data_len && frame_len(s) <= s.len() {
            let n = frame_len(s) as int;
            lemma_split_more(s.skip(n), chunk, max_data_len);
            assert(whole.skip(n) =~= s.skip(n) + chunk);
            assert(whole.take(n) =~= s.take(n));
            let tail = split_frames(s.skip(n), max_data_len);
            let more = split_more(tail, chunk, max_data_len);
            assert(split_frames(whole, max_data_len).frames =~= seq![s.take(n)] + more.frames);
            assert(split_more(split_frames(s, max_data_len), chunk, max_data_len).frames =~= seq![
                s.take(n),
            ] + more.frames);
        } else {
            let none = Seq::<Seq<u8>>::empty();
            assert(none + split_frames(whole, max_data_len).frames =~= split_frames(
                whole,
                max_data_len,
            ).frames);
        }
    } else {
        let none = Seq::<Seq<u8>>::empty();
        assert(none + split_frames(whole, max_data_len).frames =~= split_frames(
            whole,
            max_data_len,
        ).frames);
    }
}

/// Incremental decoding: however a byte stream is cut into chunks, decoding
/// the chunks one by one gives the frames, in the order, that decoding the
/// whole stream at once gives, and leaves the same bytes over. `pending` is
/// what the connection held before the first chunk.
pub proof fn lemma_split_chunks(pending: Seq<u8>, chunks: Seq<Seq<u8>>, max_data_len: nat)
    requires
        split_frames(pending, max_data_len) == (Split {
            frames: Seq::empty(),
            rest: Some(pending),
        }),
    ensures
        split_chunks(
            Split { frames: Seq::empty(), rest: Some(pending) },
            chunks,
            max_data_len,
        ) == split_frames(pending + chunks.flatten(), max_data_len),
{
    let start = Split { frames: Seq::empty(), rest: Some(pending) };
    lemma_split_chunks_from(pending, chunks, max_data_len);
    lemma_split_more(pending, chunks.flatten(), max_data_len);
    assert(split_more(start, chunks.flatten(), max_data_len).frames =~= split_frames(
        pending + chunks.flatten(),
        max_data_len,
    ).frames);
}

/// The same, for a connection that has decoded `s` so far.
proof fn lemma_split_chunks_from(s: Seq<u8>, chunks: Seq<Seq<u8>>, max_data_len: nat)
    ensures
        split_chunks(split_frames(s, max_data_len), chunks, max_data_len) == split_frames(
            s + chunks.flatten(),
            max_data_len,
        ),
    decreases chunks.len(),
{
    if chunks.len() == 0 {
        assert(s + chunks.flatten() =~= s);
    } else {
        let first = chunks.first();
        let others = chunks.drop_first();
        lemma_split_more(s, first, max_data_len);
        lemma_split_chunks_from(s + first, others, max_data_len);
        assert((s + first) + others.flatten() =~= s + chunks.flatten());
    }
}

/// A fresh start after a frame: where a read ends with the last byte of a
/// frame, nothing is left over, and what the next read yields is what its
/// own bytes hold. No byte of the frames that were handed on shows in it.
pub proof fn lemma_fresh_after_complete(
    pending: Seq<u8>,
    read: Seq<u8>,
    next_read: Seq<u8>,
    max_data_len: nat,
)
    requires
        split_frames(pending + read, max_data_len).rest == Some(Seq::<u8>::empty()),
    ensures
        split_more(split_frames(pending + read, max_data_len), next_read, max_data_len) == (Split {
            frames: split_frames(pending + read, max_data_len).frames + split_frames(
                next_read,
                max_data_len,
            ).frames,
            rest: split_frames(next_read, max_data_len).rest,
        }),
{
    assert(Seq::<u8>::empty() + next_read =~= next_read);
}

/// Multi-frame packing: two valid frames written one after the other are
/// decoded as those two frames, in that order, and no byte is left over.
pub proof fn lemma_two_frames(first: FrameView, second: FrameView, max_data_len: nat)
    requires
        valid_frame(first, max_data_len),
        valid_frame(second, max_data_len),
    ensures
        split_frames(first.bytes() + second.bytes(), max_data_len) == (Split {
            frames: seq![first.bytes(), second.bytes()],
            rest: Some(Seq::empty()),
        }),
{
    lemma_round_trip_stream(first, max_data_len);
    lemma_round_trip_stream(second, max_data_len);
    lemma_split_more(first.bytes(), second.bytes(), max_data_len);
    assert(Seq::<u8>::empty() + second.bytes() =~= second.bytes());
    assert(seq![first.bytes()] + seq![second.bytes()] =~= seq![first.bytes(), second.bytes()]);
}

/// One step of cutting a stream: a frame under construction takes what it
/// can of `input`. Then its header is over the limit, or it is complete and
/// the bytes after it are cut in turn, or it has taken all of `input`.
proof fn lemma_split_step(f: FrameView, input: Seq<u8>, max_data_len: nat)
    requires
        f.wf(),
        !f.is_complete(),
        f.data_len.len() == 4 ==> be_u32(f.data_len) <= max_data_len,
    ensures
        ({
            let g = f.absorb(input);
            let n = f.absorbed(input) as int;
            let cut = split_frames(f.bytes() + input, max_data_len);
            if g.data_len.len() == 4 && be_u32(g.data_len) > max_data_len {
                cut == (Split { frames: Seq::empty(), rest: None })
            } else if g.is_complete() {
                let tail = split_frames(input.skip(n), max_data_len);
                cut == (Split { frames: seq![g.bytes()] + tail.frames, rest: tail.rest })
            } else {
                &&& n == input.len()
                &&& cut == (Split { frames: Seq::empty(), rest: Some(g.bytes()) })
            }
        }),
{
    let g = f.absorb(input);
    let n = f.absorbed(input) as int;
    let s = f.bytes() + input;
    lemma_absorb(f, input);
    lemma_from_bytes_of_bytes(f);
    lemma_from_bytes_of_bytes(g);
    assert(g.bytes() =~= s.take(g.bytes().len() as int));
    if g.bytes().len() >= 6 {
        assert(s.subrange(2, 6) =~= g.bytes().subrange(2, 6));
    }
    if g.data_len.len() == 4 && be_u32(g.data_len) > max_data_len {
    } else if g.is_complete() {
        assert(s.skip(g.bytes().len() as int) =~= input.skip(n));
    } else {
        assert(input.take(n) =~= input);
    }
}

impl Protocol {
    /// Whether the accumulators of the frame are there as `fill` leaves them
    /// in a frame that it filled from nothing: one of the header is there
    /// once it holds a byte, and the payload's is there once the length
    /// field is complete.
    pub open spec fn is_tidy(self) -> bool {
        &&& self.version is Some <==> self@.version.len() > 0
        &&& self.data_type is Some <==> self@.data_type.len() > 0
        &&& self.data_len is Some <==> self@.data_len.len() > 0
        &&& self.data is Some <==> self@.data_len.len() == 4
    }
}

/// The bytes that a connection holds of a frame under construction.
pub open spec fn pending_bytes(pending: Option<Protocol>) -> Seq<u8> {
    match pending {
        Some(pkg) => pkg@.bytes(),
        None => Seq::empty(),
    }
}

/// Whether `pending` can stand in a connection's cache entry: a frame there
/// is well-formed and not complete, its accumulators are there as `fill`
/// leaves them, and its length field, once complete, announces at most
/// `max_data_len` bytes.
pub open spec fn pending_ok(pending: Option<Protocol>, max_data_len: nat) -> bool {
    pending matches Some(pkg) ==> {
        &&& pkg@.wf()
        &&& !pkg@.is_complete()
        &&& pkg.is_tidy()
        &&& pkg@.data_len.len() == 4 ==> be_u32(pkg@.data_len) <= max_data_len
    }
}

/// Whether `pkg` is a frame as the decoder hands it on: a complete frame
/// within the limit, with all four accumulators there.
pub open spec fn delivered_ok(pkg: Protocol, max_data_len: nat) -> bool {
    &&& valid_frame(pkg@, max_data_len)
    &&& pkg.is_complete()
}

/// The bytes on the wire of each of the frames.
pub open spec fn wire_of(frames: Seq<Protocol>) -> Seq<Seq<u8>> {
    Seq::new(frames.len(), |i: int| frames[i]@.bytes())
}

/// What a read buffer held.
#[derive(Debug)]
pub struct Decoded {
    /// The frames that the buffer completed, in the order of arrival.
    pub frames: Vec<Protocol>,
    /// Whether decoding stopped at a header that announces more payload than
    /// the limit allows.
    pub violation: bool,
}

/// Decodes one read buffer of a connection: the first `total_len` bytes of
/// `all_bytes`, which follow what `pending` holds. Returns the frames that
/// the buffer completed and leaves in `pending` the frame that it started
/// and did not complete, or `None` where the last byte ended a frame, so
/// that the next read starts from a fresh frame.
///
/// A header that announces more than `max_data_len` bytes of payload is a
/// violation: decoding stops there, and `pending` is cleared.
pub fn decode_buffer(
    pending: &mut Option<Protocol>,
    all_bytes: &Vec<u8>,
    total_len: usize,
    max_data_len: u32,
) -> (out: Decoded)
    requires
        pending_ok(*old(pending), max_data_len as nat),
        total_len <= all_bytes.len(),
    ensures
        ({
            let cut = split_frames(
                pending_bytes(*old(pending)) + all_bytes@.take(total_len as int),
                max_data_len as nat,
            );
            &&& wire_of(out.frames@) == cut.frames
            &&& out.violation == (cut.rest is None)
            &&& cut.rest matches Some(rest) ==> pending_bytes(*final(pending)) == rest
            &&& *final(pending) is None <==> (cut.rest matches Some(rest) ==> rest.len() == 0)
        }),
        forall|i: int|
            0 <= i < out.frames.len() ==> delivered_ok(#[trigger] out.frames[i], max_data_len as nat),
        pending_ok(*final(pending), max_data_len as nat),
{
    let ghost max = max_data_len as nat;
    let ghost whole = pending_bytes(*old(pending)) + all_bytes@.take(total_len as int);
    let mut frames: Vec<Protocol> = Vec::new();
    let mut current = match pending.take() {
        Some(pkg) => pkg,
        None => Protocol::create_new(),
    };
    let mut index: usize = 0;
    proof {
        assert(all_bytes@.subrange(0, total_len as int) =~= all_bytes@.take(total_len as int));
        assert(wire_of(frames@) =~= Seq::<Seq<u8>>::empty());
        let cut = split_frames(current@.bytes() + all_bytes@.subrange(0, total_len as int), max);
        assert(wire_of(frames@) + cut.frames =~= cut.frames);
    }
    while index < total_len
        invariant
            index <= total_len <= all_bytes.len(),
            max == max_data_len as nat,
            whole == pending_bytes(*old(pending)) + all_bytes@.take(total_len as int),
            *pending is None,
            pending_ok(Some(current), max),
            forall|i: int| 0 <= i < frames.len() ==> delivered_ok(#[trigger] frames[i], max),
            split_frames(whole, max) == ({
                let cut = split_frames(
                    current@.bytes() + all_bytes@.subrange(index as int, total_len as int),
                    max,
                );
                Split { frames: wire_of(frames@) + cut.frames, rest: cut.rest }
            }),
        decreases total_len - index,
    {
        let ghost input = all_bytes@.subrange(index as int, total_len as int);
        let ghost held = current;
        let ghost done = frames@;
        proof {
            lemma_split_step(held@, input, max);
            lemma_absorb(held@, input);
        }
        index = fill(&mut current, all_bytes, index, total_len);
        let over = match current.get_field_usize(&ProtocolFieldNameEnum::data) {
            Ok(size) => size > max_data_len as usize,
            Err(_) => false,
        };
        if over {
            proof {
                assert(wire_of(done) + Seq::<Seq<u8>>::empty() =~= wire_of(done));
            }
            return Decoded { frames, violation: true };
        }
        if current.completion() {
            frames.push(current);
            current = Protocol::create_new();
            proof {
                let n = held@.absorbed(input) as int;
                let rest = all_bytes@.subrange(index as int, total_len as int);
                assert(input.skip(n) =~= rest);
                assert(current@.bytes() + rest =~= rest);
                let tail = split_frames(rest, max);
                assert(wire_of(frames@) =~= wire_of(done) + seq![frames@.last()@.bytes()]);
                assert(wire_of(done) + (seq![frames@.last()@.bytes()] + tail.frames) =~= wire_of(
                    frames@,
                ) + tail.frames);
            }
        } else {
            proof {
                let rest = all_bytes@.subrange(index as int, total_len as int);
                assert(current@.bytes() + rest =~= current@.bytes());
                lemma_split_partial(current@, max);
            }
        }
    }
    proof {
        let rest = all_bytes@.subrange(index as int, total_len as int);
        assert(current@.bytes() + rest =~= current@.bytes());
        lemma_split_partial(current@, max);
        assert(wire_of(frames@) + Seq::<Seq<u8>>::empty() =~= wire_of(frames@));
    }
    if current.version.is_some() {
        *pending = Some(current);
    }
    Decoded { frames, violation: false }
}

} // verus!
