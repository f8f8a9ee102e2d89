//! Message framing of the media stream: each message is an 8-byte
//! big-endian length prefix followed by exactly that many payload bytes,
//! frames standing back to back in the byte stream of one direction.

use vstd::prelude::*;

use crate::wire::push_all;

verus! {

/// The 8 bytes of `n` in big-endian order.
pub open spec fn spec_u64_be(n: u64) -> Seq<u8> {
    seq![
        ((n >> 56) & 0xff) as u8,
        ((n >> 48) & 0xff) as u8,
        ((n >> 40) & 0xff) as u8,
        ((n >> 32) & 0xff) as u8,
        ((n >> 24) & 0xff) as u8,
        ((n >> 16) & 0xff) as u8,
        ((n >> 8) & 0xff) as u8,
        (n & 0xff) as u8,
    ]
}

/// The value of 8 big-endian bytes.
pub open spec fn spec_u64_from_be(b: Seq<u8>) -> u64
    recommends
        b.len() == 8,
{
    ((b[0] as u64) << 56) | ((b[1] as u64) << 48) | ((b[2] as u64) << 40) | ((b[3] as u64) << 32)
        | ((b[4] as u64) << 24) | ((b[5] as u64) << 16) | ((b[6] as u64) << 8) | (b[7] as u64)
}

/// Reading back the 8 bytes of a value gives the value.
pub proof fn lemma_u64_be_round_trip(n: u64)
    ensures
        spec_u64_from_be(spec_u64_be(n)) == n,
{
    let b = spec_u64_be(n);
    assert(b[0] == ((n >> 56) & 0xff) as u8);
    assert(b[1] == ((n >> 48) & 0xff) as u8);
    assert(b[2] == ((n >> 40) & 0xff) as u8);
    assert(b[3] == ((n >> 32) & 0xff) as u8);
    assert(b[4] == ((n >> 24) & 0xff) as u8);
    assert(b[5] == ((n >> 16) & 0xff) as u8);
    assert(b[6] == ((n >> 8) & 0xff) as u8);
    assert(b[7] == (n & 0xff) as u8);
    let b0 = (((n >> 56) & 0xff) as u8 as u64) << 56;
    let b1 = (((n >> 48) & 0xff) as u8 as u64) << 48;
    let b2 = (((n >> 40) & 0xff) as u8 as u64) << 40;
    let b3 = (((n >> 32) & 0xff) as u8 as u64) << 32;
    let b4 = (((n >> 24) & 0xff) as u8 as u64) << 24;
    let b5 = (((n >> 16) & 0xff) as u8 as u64) << 16;
    let b6 = (((n >> 8) & 0xff) as u8 as u64) << 8;
    let b7 = (n & 0xff) as u8 as u64;
    assert(spec_u64_from_be(b) == (b0 | b1 | b2 | b3 | b4 | b5 | b6 | b7));
    assert((b0 | b1 | b2 | b3 | b4 | b5 | b6 | b7) == n) by (bit_vector)
        requires
            b0 == (((n >> 56) & 0xff) as u8 as u64) << 56,
            b1 == (((n >> 48) & 0xff) as u8 as u64) << 48,
            b2 == (((n >> 40) & 0xff) as u8 as u64) << 40,
            b3 == (((n >> 32) & 0xff) as u8 as u64) << 32,
            b4 == (((n >> 24) & 0xff) as u8 as u64) << 24,
            b5 == (((n >> 16) & 0xff) as u8 as u64) << 16,
            b6 == (((n >> 8) & 0xff) as u8 as u64) << 8,
            b7 == (n & 0xff) as u8 as u64,
    ;
}

/// One frame on the wire: the payload's length, then the payload.
pub open spec fn spec_frame(payload: Seq<u8>) -> Seq<u8> {
    spec_u64_be(payload.len() as u64) + payload
}

/// A sequence of frames laid back to back, in order.
pub open spec fn spec_frames(ps: Seq<Seq<u8>>) -> Seq<u8>
    decreases ps.len(),
{
    if ps.len() == 0 {
        Seq::empty()
    } else {
        spec_frame(ps.first()) + spec_frames(ps.drop_first())
    }
}

/// Split a byte stream into its framed payloads: repeatedly read a length
/// prefix and take that many bytes. `None` when the stream ends inside a
/// prefix or a payload.
pub open spec fn spec_parse_frames(b: Seq<u8>) -> Option<Seq<Seq<u8>>>
    decreases b.len(),
{
    if b.len() == 0 {
        Some(Seq::empty())
    } else if b.len() < 8 {
        None
    } else {
        let n = spec_u64_from_be(b.subrange(0, 8)) as int;
        if 8 + n > b.len() {
            None
        } else {
            match spec_parse_frames(b.subrange(8 + n, b.len() as int)) {
                Option::None => None,
                Option::Some(rest) => Some(seq![b.subrange(8, 8 + n)] + rest),
            }
        }
    }
}

/// Frames written in some order are read back whole, in that order: the
/// stream of any payload sequence parses back to exactly that sequence.
/// Within one direction of an open connection this is the order guarantee
/// of the media session.
pub proof fn lemma_frames_round_trip(ps: Seq<Seq<u8>>)
    requires
        forall|i: int| 0 <= i < ps.len() ==> #[trigger] ps[i].len() <= u64::MAX,
    ensures
        spec_parse_frames(spec_frames(ps)) == Some(ps),
    decreases ps.len(),
{
    if ps.len() == 0 {
        assert(spec_frames(ps) =~= Seq::empty());
        assert(spec_parse_frames(spec_frames(ps)) == Some(Seq::<Seq<u8>>::empty()));
        assert(Seq::<Seq<u8>>::empty() =~= ps);
    } else {
        let p = ps.first();
        let pre = spec_u64_be(p.len() as u64);
        let rest = spec_frames(ps.drop_first());
        let b = spec_frames(ps);
        assert(ps[0].len() <= u64::MAX);
        assert(b =~= pre + p + rest);
        assert(b.len() == 8 + p.len() + rest.len());
        assert(b.subrange(0, 8) =~= pre);
        lemma_u64_be_round_trip(p.len() as u64);
        assert(spec_u64_from_be(b.subrange(0, 8)) as int == p.len());
        assert(b.subrange(8, (8 + p.len()) as int) =~= p);
        assert(b.subrange((8 + p.len()) as int, b.len() as int) =~= rest);
        assert(forall|i: int|
            0 <= i < ps.drop_first().len() ==> #[trigger] ps.drop_first()[i].len()
                <= u64::MAX) by {
            assert(forall|i: int|
                0 <= i < ps.drop_first().len() ==> ps.drop_first()[i] == ps[i + 1]);
        }
        lemma_frames_round_trip(ps.drop_first());
        assert(seq![p] + ps.drop_first() =~= ps);
    }
}

/// The 8 big-endian bytes of `n`, as the prefix a sender writes.
pub fn u64_to_be_bytes(n: u64) -> (r: Vec<u8>)
    ensures
        r@ == spec_u64_be(n),
        r@.len() == 8,
{
    proof {
        assert((n >> 56) & 0xff <= 0xff && (n >> 48) & 0xff <= 0xff && (n >> 40) & 0xff <= 0xff && (
        n >> 32) & 0xff <= 0xff && (n >> 24) & 0xff <= 0xff && (n >> 16) & 0xff <= 0xff && (n >> 8)
            & 0xff <= 0xff && n & 0xff <= 0xff) by (bit_vector);
    }
    let mut out: Vec<u8> = Vec::new();
    out.push(((n >> 56) & 0xff) as u8);
    out.push(((n >> 48) & 0xff) as u8);
    out.push(((n >> 40) & 0xff) as u8);
    out.push(((n >> 32) & 0xff) as u8);
    out.push(((n >> 24) & 0xff) as u8);
    out.push(((n >> 16) & 0xff) as u8);
    out.push(((n >> 8) & 0xff) as u8);
    out.push((n & 0xff) as u8);
    proof {
        assert(out@ =~= spec_u64_be(n));
    }
    out
}

/// The value of a received 8-byte length prefix.
pub fn u64_from_be_bytes(b: &Vec<u8>) -> (n: u64)
    requires
        b@.len() == 8,
    ensures
        n == spec_u64_from_be(b@),
{
    ((b[0] as u64) << 56) | ((b[1] as u64) << 48) | ((b[2] as u64) << 40) | ((b[3] as u64) << 32)
        | ((b[4] as u64) << 24) | ((b[5] as u64) << 16) | ((b[6] as u64) << 8) | (b[7] as u64)
}

/// Wrap a payload in a frame: length prefix, then the bytes.
pub fn encode_frame(payload: &Vec<u8>) -> (r: Vec<u8>)
    ensures
        r@ == spec_frame(payload@),
{
    let mut out = u64_to_be_bytes(payload.len() as u64);
    push_all(&mut out, payload);
    out
}

} // verus!
