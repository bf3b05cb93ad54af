//! Splitting a logical message into fixed-size transport frames and
//! joining frames back into a message.
//!
//! A frame is one header byte followed by the frame body. The header's high
//! bit marks the last frame of a message; the remaining seven bits give the
//! number of meaningful body bytes.
use vstd::prelude::*;
use vstd::arithmetic::div_mod::{lemma_basic_div, lemma_div_plus_one};

verus! {

/// Header bit that marks the last frame of a message.
pub const FINAL_FLAG: u8 = 0x80;

/// Largest frame size whose body length fits in the header's seven bits.
pub const MAX_FRAME_SIZE: usize = 128;

/// Why a frame stream could not be joined into a message.
#[derive(Debug, Clone, Copy, PartialEq, Eq, Structural)]
pub enum FramingError {
    /// A header declares more body bytes than the frame can carry.
    OversizedChunk,
    /// The stream ended before a frame marked final arrived.
    StreamEnded,
}

/// Frame sizes the codec works with: a header byte and at least one body
/// byte, with the body length representable in the header.
pub open spec fn valid_capacity(cap: nat) -> bool {
    2 <= cap <= MAX_FRAME_SIZE
}

/// The header byte of a frame carrying `len` body bytes.
pub open spec fn header_byte(len: nat, last: bool) -> u8 {
    if last {
        (FINAL_FLAG + len) as u8
    } else {
        len as u8
    }
}

/// A frame of total size `cap` carrying `chunk`, zero-filled after it.
pub open spec fn frame_of(chunk: Seq<u8>, last: bool, cap: nat) -> Seq<u8> {
    seq![header_byte(chunk.len(), last)] + chunk + Seq::new((cap - 1 - chunk.len()) as nat, |j: int| 0u8)
}

/// The frames that carry `msg`: chunks of `cap - 1` bytes, the last one
/// (possibly empty) marked final.
pub open spec fn fragments(msg: Seq<u8>, cap: nat) -> Seq<Seq<u8>>
    recommends
        valid_capacity(cap),
    decreases msg.len(),
{
    if msg.len() <= cap - 1 || cap < 2 {
        seq![frame_of(msg, true, cap)]
    } else {
        seq![frame_of(msg.take(cap - 1), false, cap)] + fragments(msg.skip(cap - 1), cap)
    }
}

/// The body length that a frame's header declares.
pub open spec fn declared_len(f: Seq<u8>) -> nat {
    (f[0] % 128) as nat
}

/// Whether a frame's header marks it final.
pub open spec fn is_final(f: Seq<u8>) -> bool {
    f[0] >= 128
}

/// A received frame whose header can be trusted.
pub open spec fn frame_valid(f: Seq<u8>, cap: nat) -> bool {
    &&& f.len() >= 1
    &&& declared_len(f) <= cap - 1
    &&& 1 + declared_len(f) <= f.len()
}

/// The meaningful body bytes of a valid frame.
pub open spec fn payload(f: Seq<u8>) -> Seq<u8> {
    f.subrange(1, 1 + declared_len(f) as int)
}

/// `a` put in front of a joined message, errors passed on.
pub open spec fn prepend(a: Seq<u8>, r: Result<Seq<u8>, FramingError>) -> Result<Seq<u8>, FramingError> {
    match r {
        Ok(m) => Ok(a + m),
        Err(e) => Err(e),
    }
}

/// The message joined from `frames` in arrival order, up to the first frame
/// marked final.
pub open spec fn reassembled(frames: Seq<Seq<u8>>, cap: nat) -> Result<Seq<u8>, FramingError>
    decreases frames.len(),
{
    if frames.len() == 0 {
        Err(FramingError::StreamEnded)
    } else if !frame_valid(frames[0], cap) {
        Err(FramingError::OversizedChunk)
    } else if is_final(frames[0]) {
        Ok(payload(frames[0]))
    } else {
        prepend(payload(frames[0]), reassembled(frames.drop_first(), cap))
    }
}

/// The views of a sequence of frames.
pub open spec fn frames_view(frames: Seq<Vec<u8>>) -> Seq<Seq<u8>> {
    frames.map_values(|f: Vec<u8>| f@)
}

/// The view of a joined message.
pub open spec fn message_view(r: Result<Vec<u8>, FramingError>) -> Result<Seq<u8>, FramingError> {
    match r {
        Ok(m) => Ok(m@),
        Err(e) => Err(e),
    }
}

proof fn lemma_frame_of_parses(chunk: Seq<u8>, last: bool, cap: nat)
    requires
        valid_capacity(cap),
        chunk.len() <= cap - 1,
    ensures
        frame_valid(frame_of(chunk, last, cap), cap),
        is_final(frame_of(chunk, last, cap)) == last,
        payload(frame_of(chunk, last, cap)) == chunk,
        frame_of(chunk, last, cap).len() == cap,
{
    let f = frame_of(chunk, last, cap);
    assert(f[0] == header_byte(chunk.len(), last));
    assert(payload(f) =~= chunk);
}

/// Splitting a message into frames and joining them gives the message back,
/// for every message length, the empty message included.
pub proof fn lemma_fragment_reassemble(msg: Seq<u8>, cap: nat)
    requires
        valid_capacity(cap),
    ensures
        reassembled(fragments(msg, cap), cap) == Ok::<Seq<u8>, FramingError>(msg),
    decreases msg.len(),
{
    let fs = fragments(msg, cap);
    if msg.len() <= cap - 1 {
        lemma_frame_of_parses(msg, true, cap);
    } else {
        let head = msg.take(cap - 1);
        let rest = msg.skip(cap - 1);
        lemma_frame_of_parses(head, false, cap);
        lemma_fragment_reassemble(rest, cap);
        assert(fs.drop_first() =~= fragments(rest, cap));
        assert(head + rest =~= msg);
    }
}

/// A non-empty message of `len` bytes takes `ceil(len / (cap - 1))`
/// frames; the empty message takes one. Every frame but the last carries
/// `cap - 1` bytes and is not final; the last carries what is left and is
/// final.
pub proof fn lemma_fragments_shape(msg: Seq<u8>, cap: nat)
    requires
        valid_capacity(cap),
    ensures
        msg.len() == 0 ==> fragments(msg, cap).len() == 1,
        msg.len() > 0 ==> fragments(msg, cap).len() == (msg.len() + cap - 2) / ((cap - 1) as int),
        forall|i: int|
            0 <= i < fragments(msg, cap).len() - 1 ==> !is_final(#[trigger] fragments(msg, cap)[i])
                && declared_len(fragments(msg, cap)[i]) == cap - 1,
        is_final(fragments(msg, cap).last()),
        declared_len(fragments(msg, cap).last()) == msg.len() - (fragments(msg, cap).len() - 1) * (cap - 1),
    decreases msg.len(),
{
    let c = (cap - 1) as int;
    let fs = fragments(msg, cap);
    if msg.len() <= cap - 1 {
        lemma_frame_of_parses(msg, true, cap);
        if msg.len() > 0 {
            lemma_basic_div(msg.len() - 1, c);
            lemma_div_plus_one(msg.len() - 1, c);
            assert(c + msg.len() - 1 == msg.len() + cap - 2);
        }
    } else {
        let head = msg.take(c);
        let rest = msg.skip(c);
        lemma_frame_of_parses(head, false, cap);
        lemma_fragments_shape(rest, cap);
        let rs = fragments(rest, cap);
        assert(fs =~= seq![fs[0]] + rs);
        lemma_div_plus_one(msg.len() - 1, c);
        assert(rest.len() + cap - 2 == msg.len() - 1);
        assert(c + msg.len() - 1 == msg.len() + cap - 2);
        let n = rs.len() as int;
        assert((n - 1) * c + c == n * c) by (nonlinear_arith);
        assert forall|i: int| 0 <= i < fs.len() - 1 implies !is_final(#[trigger] fs[i])
            && declared_len(fs[i]) == cap - 1 by {
            if i > 0 {
                assert(fs[i] == rs[i - 1]);
            }
        }
        assert(fs.last() == rs.last());
    }
}

/// Every frame is exactly `cap` bytes long.
pub proof fn lemma_fragments_sized(msg: Seq<u8>, cap: nat, i: int)
    requires
        valid_capacity(cap),
        0 <= i < fragments(msg, cap).len(),
    ensures
        fragments(msg, cap)[i].len() == cap,
    decreases msg.len(),
{
    if msg.len() <= cap - 1 {
        lemma_frame_of_parses(msg, true, cap);
    } else {
        lemma_frame_of_parses(msg.take(cap - 1), false, cap);
        if i > 0 {
            lemma_fragments_sized(msg.skip(cap - 1), cap, i - 1);
        }
    }
}

/// Builds one frame of size `cap` around `msg[start..end]`.
fn build_frame(msg: &Vec<u8>, start: usize, end: usize, last: bool, cap: usize) -> (f: Vec<u8>)
    requires
        valid_capacity(cap as nat),
        start <= end <= msg@.len(),
        end - start <= cap - 1,
    ensures
        f@ == frame_of(msg@.subrange(start as int, end as int), last, cap as nat),
{
    let len: usize = end - start;
    let mut f: Vec<u8> = Vec::with_capacity(cap);
    let header: u8 = if last { FINAL_FLAG + len as u8 } else { len as u8 };
    f.push(header);
    let mut i: usize = start;
    while i < end
        invariant
            start <= i <= end <= msg@.len(),
            f@ == seq![header] + msg@.subrange(start as int, i as int),
        decreases end - i,
    {
        f.push(msg[i]);
        assert(msg@.subrange(start as int, i + 1) =~= msg@.subrange(start as int, i as int).push(msg@[i as int]));
        i = i + 1;
    }
    let mut k: usize = 1 + len;
    while k < cap
        invariant
            1 + len <= k <= cap,
            f@ == seq![header] + msg@.subrange(start as int, end as int) + Seq::new((k - 1 - len) as nat, |j: int| 0u8),
        decreases cap - k,
    {
        f.push(0u8);
        assert(Seq::new((k + 1 - 1 - len) as nat, |j: int| 0u8) =~= Seq::new((k - 1 - len) as nat, |j: int| 0u8).push(0u8));
        k = k + 1;
    }
    f
}

/// Splits `msg` into frames of `cap` bytes each.
pub fn fragment(msg: &Vec<u8>, cap: usize) -> (frames: Vec<Vec<u8>>)
    requires
        valid_capacity(cap as nat),
    ensures
        frames_view(frames@) == fragments(msg@, cap as nat),
{
    let body: usize = cap - 1;
    let mut frames: Vec<Vec<u8>> = Vec::new();
    let mut start: usize = 0;
    let len = msg.len();
    assert(msg@.skip(0) =~= msg@);
    assert(frames_view(frames@) + fragments(msg@, cap as nat) =~= fragments(msg@, cap as nat));
    while len - start > body
        invariant
            body == cap - 1,
            valid_capacity(cap as nat),
            start <= len == msg@.len(),
            frames_view(frames@) + fragments(msg@.skip(start as int), cap as nat) == fragments(msg@, cap as nat),
        decreases len - start,
    {
        let f = build_frame(msg, start, start + body, false, cap);
        let ghost rest = msg@.skip(start as int);
        assert(rest.take(body as int) =~= msg@.subrange(start as int, start + body));
        assert(rest.skip(body as int) =~= msg@.skip(start + body));
        let ghost before = frames_view(frames@);
        frames.push(f);
        assert(frames_view(frames@) =~= before.push(f@));
        assert(frames_view(frames@) + fragments(msg@.skip(start + body), cap as nat)
            =~= before + fragments(rest, cap as nat));
        start = start + body;
    }
    let f = build_frame(msg, start, len, true, cap);
    assert(msg@.skip(start as int) =~= msg@.subrange(start as int, len as int));
    let ghost before = frames_view(frames@);
    frames.push(f);
    assert(frames_view(frames@) =~= before.push(f@));
    assert(frames_view(frames@) =~= before + fragments(msg@.skip(start as int), cap as nat));
    frames
}

/// Takes in one received frame: checks its header and appends its body to
/// `acc`. Returns whether the frame was the last of its message.
pub fn accept_frame(acc: &mut Vec<u8>, frame: &Vec<u8>, cap: usize) -> (r: Result<bool, FramingError>)
    requires
        valid_capacity(cap as nat),
    ensures
        match r {
            Ok(last) => frame_valid(frame@, cap as nat) && last == is_final(frame@)
                && final(acc)@ == old(acc)@ + payload(frame@),
            Err(e) => !frame_valid(frame@, cap as nat) && e == FramingError::OversizedChunk
                && final(acc)@ == old(acc)@,
        },
{
    if frame.len() == 0 {
        return Err(FramingError::OversizedChunk);
    }
    let len: usize = (frame[0] % 128) as usize;
    if len > cap - 1 || len + 1 > frame.len() {
        return Err(FramingError::OversizedChunk);
    }
    let ghost start = acc@;
    let mut i: usize = 1;
    while i <= len
        invariant
            1 <= i <= len + 1 <= frame@.len(),
            len == declared_len(frame@),
            acc@ == start + frame@.subrange(1, i as int),
        decreases len + 1 - i,
    {
        acc.push(frame[i]);
        assert(frame@.subrange(1, i + 1) =~= frame@.subrange(1, i as int).push(frame@[i as int]));
        i = i + 1;
    }
    Ok(frame[0] >= FINAL_FLAG)
}

/// Joins received frames, in arrival order, into the message they carry.
pub fn reassemble(frames: &Vec<Vec<u8>>, cap: usize) -> (r: Result<Vec<u8>, FramingError>)
    requires
        valid_capacity(cap as nat),
    ensures
        message_view(r) == reassembled(frames_view(frames@), cap as nat),
{
    let ghost fv = frames_view(frames@);
    let mut acc: Vec<u8> = Vec::new();
    let mut i: usize = 0;
    assert(fv.skip(0) =~= fv);
    assert(acc@ + Seq::<u8>::empty() =~= Seq::<u8>::empty());
    while i < frames.len()
        invariant
            i <= frames@.len(),
            fv == frames_view(frames@),
            valid_capacity(cap as nat),
            reassembled(fv, cap as nat) == prepend(acc@, reassembled(fv.skip(i as int), cap as nat)),
        decreases frames@.len() - i,
    {
        let ghost before = acc@;
        let ghost tail = fv.skip(i as int);
        assert(tail[0] == frames@[i as int]@);
        assert(tail.drop_first() =~= fv.skip(i + 1));
        match accept_frame(&mut acc, &frames[i], cap) {
            Err(e) => {
                return Err(e);
            },
            Ok(last) => {
                if last {
                    return Ok(acc);
                }
                let ghost r = reassembled(fv.skip(i + 1), cap as nat);
                assert(prepend(before, prepend(payload(tail[0]), r)) == prepend(acc@, r)) by {
                    match r {
                        Ok(m) => {
                            assert(before + (payload(tail[0]) + m) =~= acc@ + m);
                        },
                        Err(_) => {},
                    }
                }
            },
        }
        i = i + 1;
    }
    assert(fv.skip(i as int).len() == 0);
    Err(FramingError::StreamEnded)
}

} // verus!
