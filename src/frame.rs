//! The wire format: a 4-byte little-endian length prefix, then the payload.
use vstd::prelude::*;

use crate::error::ChannelError;

verus! {

/// The largest payload a frame can announce.
pub const MAX_PAYLOAD: u64 = 0xffff_ffff;

/// The four little-endian bytes of `n`.
pub open spec fn le_bytes(n: nat) -> Seq<u8> {
    seq![
        (n % 256) as u8,
        (n / 256 % 256) as u8,
        (n / 65536 % 256) as u8,
        (n / 16777216 % 256) as u8,
    ]
}

/// The number that four little-endian bytes stand for.
pub open spec fn le_value(b: Seq<u8>) -> nat {
    b[0] as nat + 256 * (b[1] as nat) + 65536 * (b[2] as nat) + 16777216 * (b[3] as nat)
}

/// Four bytes read back give the number they were made from.
pub proof fn lemma_le_value_of_bytes(n: nat)
    requires
        n <= MAX_PAYLOAD,
    ensures
        le_value(le_bytes(n)) == n,
{
    let b = le_bytes(n);
    assert(b[0] as nat == n % 256);
    assert(b[1] as nat == n / 256 % 256);
    assert(b[2] as nat == n / 65536 % 256);
    assert(b[3] as nat == n / 16777216 % 256);
    assert(n == n % 256 + 256 * (n / 256 % 256) + 65536 * (n / 65536 % 256) + 16777216 * (
    n / 16777216 % 256)) by (nonlinear_arith)
        requires
            n <= MAX_PAYLOAD,
    ;
}

/// Encodes a length as the four bytes of a frame's prefix.
pub fn encode_len(n: u32) -> (r: Vec<u8>)
    ensures
        r@ == le_bytes(n as nat),
{
    let mut r: Vec<u8> = Vec::new();
    r.push((n % 256) as u8);
    r.push((n / 256 % 256) as u8);
    r.push((n / 65536 % 256) as u8);
    r.push((n / 16777216 % 256) as u8);
    assert(r@ =~= le_bytes(n as nat));
    r
}

/// Reads the length that a frame's prefix, the first four bytes of `b`,
/// announces.
pub fn decode_len(b: &[u8]) -> (r: u32)
    requires
        b@.len() >= 4,
    ensures
        r as nat == le_value(b@),
        r as nat == le_value(b@.take(4)),
{
    b[0] as u32 + 256 * (b[1] as u32) + 65536 * (b[2] as u32) + 16777216 * (b[3] as u32)
}

/// Four bytes are the little-endian bytes of the number they stand for.
pub proof fn lemma_le_bytes_of_value(b: Seq<u8>)
    requires
        b.len() == 4,
    ensures
        le_value(b) <= MAX_PAYLOAD,
        le_bytes(le_value(b)) == b,
{
    let n = le_value(b);
    let (b0, b1, b2, b3) = (b[0] as nat, b[1] as nat, b[2] as nat, b[3] as nat);
    assert(n % 256 == b0 && n / 256 % 256 == b1 && n / 65536 % 256 == b2 && n / 16777216 % 256
        == b3) by (nonlinear_arith)
        requires
            n == b0 + 256 * b1 + 65536 * b2 + 16777216 * b3,
            b0 < 256,
            b1 < 256,
            b2 < 256,
            b3 < 256,
    ;
    assert(le_bytes(n) =~= b);
}

/// The frame that carries `payload`: its length as four little-endian bytes,
/// then the payload itself.
pub open spec fn frame_of(payload: Seq<u8>) -> Seq<u8> {
    le_bytes(payload.len()) + payload
}

/// Reads one frame from the front of `s`, the bytes a stream delivers before
/// it ends. Gives the payload and the bytes after the frame, or `None` when
/// `s` ends inside the prefix or inside the announced payload.
pub open spec fn parse_frame(s: Seq<u8>) -> Option<(Seq<u8>, Seq<u8>)> {
    if s.len() < 4 {
        None
    } else {
        let l = le_value(s.take(4));
        if s.len() < 4 + l {
            None
        } else {
            Some((s.subrange(4, 4 + l as int), s.skip(4 + l as int)))
        }
    }
}

/// A frame read back from the front of a stream gives exactly the payload it
/// was made from, and leaves every byte that follows it untouched.
pub proof fn lemma_frame_round_trip(payload: Seq<u8>, rest: Seq<u8>)
    requires
        payload.len() <= MAX_PAYLOAD,
    ensures
        parse_frame(frame_of(payload) + rest) == Some((payload, rest)),
{
    let s = frame_of(payload) + rest;
    lemma_le_value_of_bytes(payload.len());
    assert(s.take(4) =~= le_bytes(payload.len()));
    assert(s.subrange(4, 4 + payload.len() as int) =~= payload);
    assert(s.skip(4 + payload.len() as int) =~= rest);
}

/// Two frames sent back to back are read back in order, each with its own
/// payload whatever their sizes, and nothing after them is consumed.
pub proof fn lemma_back_to_back(a: Seq<u8>, b: Seq<u8>, rest: Seq<u8>)
    requires
        a.len() <= MAX_PAYLOAD,
        b.len() <= MAX_PAYLOAD,
    ensures
        parse_frame(frame_of(a) + frame_of(b) + rest) == Some((a, frame_of(b) + rest)),
        parse_frame(frame_of(b) + rest) == Some((b, rest)),
{
    assert(frame_of(a) + frame_of(b) + rest =~= frame_of(a) + (frame_of(b) + rest));
    lemma_frame_round_trip(a, frame_of(b) + rest);
    lemma_frame_round_trip(b, rest);
}

/// The frame of an empty payload is a zero prefix alone, and it reads back as
/// an empty payload.
pub proof fn lemma_empty_frame(rest: Seq<u8>)
    ensures
        frame_of(Seq::empty()) == seq![0u8, 0u8, 0u8, 0u8],
        parse_frame(seq![0u8, 0u8, 0u8, 0u8] + rest) == Some((Seq::<u8>::empty(), rest)),
{
    assert(frame_of(Seq::empty()) =~= seq![0u8, 0u8, 0u8, 0u8]);
    lemma_frame_round_trip(Seq::empty(), rest);
}

/// A stream that ends anywhere before the last byte of a frame yields no
/// frame: a cut-off payload is never read as a shorter one.
pub proof fn lemma_truncated(payload: Seq<u8>, k: int)
    requires
        payload.len() <= MAX_PAYLOAD,
        0 <= k < frame_of(payload).len(),
    ensures
        parse_frame(frame_of(payload).take(k)) is None,
{
    let s = frame_of(payload).take(k);
    lemma_le_value_of_bytes(payload.len());
    if k >= 4 {
        assert(s.take(4) =~= le_bytes(payload.len()));
    }
}

/// The frames of `payloads`, one after another.
pub open spec fn frames(payloads: Seq<Seq<u8>>) -> Seq<u8>
    decreases payloads.len(),
{
    if payloads.len() == 0 {
        Seq::empty()
    } else {
        frame_of(payloads[0]) + frames(payloads.drop_first())
    }
}

/// Framing is self-delimiting: the bytes of a run of frames determine the
/// payloads, their number and their order. So a receiver that read back the
/// bytes a sender wrote got the sender's payloads, in order.
pub proof fn lemma_frames_determine_payloads(a: Seq<Seq<u8>>, b: Seq<Seq<u8>>)
    requires
        forall|i: int| 0 <= i < a.len() ==> (#[trigger] a[i]).len() <= MAX_PAYLOAD,
        forall|i: int| 0 <= i < b.len() ==> (#[trigger] b[i]).len() <= MAX_PAYLOAD,
        frames(a) == frames(b),
    ensures
        a == b,
    decreases a.len(),
{
    if a.len() == 0 {
        if b.len() != 0 {
            assert(frames(b).len() >= 4);
        }
        assert(a =~= b);
    } else {
        if b.len() == 0 {
            assert(frames(a).len() >= 4);
        }
        lemma_frame_round_trip(a[0], frames(a.drop_first()));
        lemma_frame_round_trip(b[0], frames(b.drop_first()));
        let ra = a.drop_first();
        let rb = b.drop_first();
        assert forall|i: int| 0 <= i < ra.len() implies (#[trigger] ra[i]).len() <= MAX_PAYLOAD by {
            assert(ra[i] == a[i + 1]);
        }
        assert forall|i: int| 0 <= i < rb.len() implies (#[trigger] rb[i]).len() <= MAX_PAYLOAD by {
            assert(rb[i] == b[i + 1]);
        }
        lemma_frames_determine_payloads(ra, rb);
        assert(a =~= seq![a[0]] + ra);
        assert(b =~= seq![b[0]] + rb);
    }
}

/// Builds the frame that carries `payload`; fails with `Encode` when the
/// payload is too long for its length to fit the prefix.
pub fn frame(payload: &[u8]) -> (r: Result<Vec<u8>, ChannelError>)
    ensures
        payload@.len() > MAX_PAYLOAD <==> r == Err::<Vec<u8>, ChannelError>(ChannelError::Encode),
        r is Ok ==> r->Ok_0@ == frame_of(payload@),
        r is Err ==> r->Err_0 == ChannelError::Encode,
{
    if payload.len() as u64 > MAX_PAYLOAD {
        return Err(ChannelError::Encode);
    }
    let mut r = encode_len(payload.len() as u32);
    let mut i: usize = 0;
    while i < payload.len()
        invariant
            payload@.len() <= MAX_PAYLOAD,
            i <= payload@.len(),
            r@ == le_bytes(payload@.len()) + payload@.take(i as int),
        decreases payload@.len() - i,
    {
        r.push(payload[i]);
        assert(payload@.take(i + 1) =~= payload@.take(i as int).push(payload@[i as int]));
        i = i + 1;
    }
    assert(payload@.take(i as int) =~= payload@);
    Ok(r)
}

/// Takes the first frame off the bytes a stream delivered before it ended:
/// gives its payload and the number of bytes it spans, or `None` when the
/// bytes end inside the prefix or inside the announced payload.
pub fn split_frame(buf: &[u8]) -> (r: Option<(Vec<u8>, usize)>)
    ensures
        r is None <==> parse_frame(buf@) is None,
        r is Some ==> parse_frame(buf@) == Some(((r->0).0@, buf@.skip((r->0).1 as int))),
        r is Some ==> (r->0).1 == 4 + (r->0).0@.len(),
{
    if buf.len() < 4 {
        return None;
    }
    let len = decode_len(buf);
    if buf.len() - 4 < len as usize {
        return None;
    }
    let end: usize = 4 + len as usize;
    let mut payload: Vec<u8> = Vec::new();
    let mut i: usize = 4;
    while i < end
        invariant
            4 <= i <= end,
            end <= buf@.len(),
            payload@ == buf@.subrange(4, i as int),
        decreases end - i,
    {
        payload.push(buf[i]);
        assert(buf@.subrange(4, i + 1) =~= buf@.subrange(4, i as int).push(buf@[i as int]));
        i = i + 1;
    }
    Some((payload, end))
}

} // verus!
