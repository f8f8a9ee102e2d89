//! Shared pieces of the binary wire format: byte-buffer helpers, the
//! length-prefixed UTF-8 string segment used by both codecs, and the one
//! trusted call into the standard library that validates UTF-8.

use vstd::prelude::*;
use vstd::utf8::*;
use vstd::string::StrSliceExecFns;
use vstd::string::StringSliceAdditionalSpecFns;

use crate::varint::{
    lemma_varint_dec_bounds, lemma_varint_round_trip, spec_varint, spec_varint_dec, varint_decode,
    varint_encode,
};

verus! {

/// Append every byte of `src` to `out`.
pub fn push_all(out: &mut Vec<u8>, src: &Vec<u8>)
    ensures
        final(out)@ == old(out)@ + src@,
{
    let mut i: usize = 0;
    while i < src.len()
        invariant
            i <= src.len(),
            out@ == old(out)@ + src@.subrange(0, i as int),
        decreases src.len() - i,
    {
        proof {
            assert(src@.subrange(0, i as int + 1) =~= src@.subrange(0, i as int).push(
                src@[i as int],
            ));
        }
        out.push(src[i]);
        i = i + 1;
    }
    proof {
        assert(old(out)@ + src@.subrange(0, src@.len() as int) =~= old(out)@ + src@);
    }
}

/// Copy the bytes of `input` between `start` and `end` into a fresh buffer.
pub fn copy_range(input: &Vec<u8>, start: usize, end: usize) -> (r: Vec<u8>)
    requires
        start <= end <= input@.len(),
    ensures
        r@ == input@.subrange(start as int, end as int),
{
    let mut out: Vec<u8> = Vec::new();
    let mut i: usize = start;
    while i < end
        invariant
            start <= i <= end <= input@.len(),
            out@ == input@.subrange(start as int, i as int),
        decreases end - i,
    {
        proof {
            assert(input@.subrange(start as int, i as int + 1) =~= input@.subrange(
                start as int,
                i as int,
            ).push(input@[i as int]));
        }
        out.push(input[i]);
        i = i + 1;
    }
    out
}

/// Inside a window of `b` known to equal `s`, any sub-window equals the
/// matching sub-window of `s`.
pub proof fn lemma_subrange_within(b: Seq<u8>, pos: int, s: Seq<u8>, i: int, j: int)
    requires
        0 <= pos,
        pos + s.len() <= b.len(),
        b.subrange(pos, pos + s.len()) == s,
        0 <= i <= j <= s.len(),
    ensures
        b.subrange(pos + i, pos + j) == s.subrange(i, j),
{
    assert forall|k: int| 0 <= k < j - i implies b.subrange(pos + i, pos + j)[k] == s.subrange(
        i,
        j,
    )[k] by {
        assert(b.subrange(pos, pos + s.len())[i + k] == s[i + k]);
    }
    assert(b.subrange(pos + i, pos + j) =~= s.subrange(i, j));
}

/// Relies on `String::from_utf8` of std: it returns `Ok` exactly when the
/// bytes are a valid UTF-8 encoding, and the string it returns then holds
/// the characters those bytes encode.
#[verifier::external_body]
pub(crate) fn string_from_utf8(bytes: Vec<u8>) -> (r: Option<String>)
    ensures
        r is Some <==> valid_utf8(bytes@),
        r matches Some(s) ==> s@ == decode_utf8(bytes@),
{
    String::from_utf8(bytes).ok()
}

/// The wire encoding of a string: the byte length of its UTF-8 form as a
/// varint, then those bytes.
pub open spec fn spec_string_enc(s: Seq<char>) -> Seq<u8> {
    spec_varint(encode_utf8(s).len()) + encode_utf8(s)
}

/// Decode a string segment starting at `pos`: a varint byte count, then
/// that many bytes, which must be valid UTF-8. Returns the characters and
/// the position just past the segment.
pub open spec fn spec_string_dec(b: Seq<u8>, pos: int) -> Option<(Seq<char>, int)> {
    match spec_varint_dec(b, pos) {
        Option::None => None,
        Option::Some((n, p)) => if n > u64::MAX || p + n > b.len() {
            None
        } else {
            let sb = b.subrange(p, p + n);
            if valid_utf8(sb) {
                Some((decode_utf8(sb), p + n))
            } else {
                None
            }
        },
    }
}

/// Decoding a string segment written at `pos` yields the characters it was
/// written from.
pub proof fn lemma_string_round_trip(b: Seq<u8>, pos: int, s: Seq<char>)
    requires
        0 <= pos,
        pos + spec_string_enc(s).len() <= b.len(),
        b.subrange(pos, pos + spec_string_enc(s).len()) == spec_string_enc(s),
        encode_utf8(s).len() <= u64::MAX,
    ensures
        spec_string_dec(b, pos) == Some((s, pos + spec_string_enc(s).len())),
{
    broadcast use encode_utf8_valid_utf8, encode_utf8_decode_utf8;

    let u = encode_utf8(s);
    let v = spec_varint(u.len());
    assert(spec_string_enc(s) == v + u);
    lemma_subrange_within(b, pos, spec_string_enc(s), 0, v.len() as int);
    assert(spec_string_enc(s).subrange(0, v.len() as int) =~= v);
    lemma_varint_round_trip(b, pos, u.len());
    lemma_subrange_within(
        b,
        pos,
        spec_string_enc(s),
        v.len() as int,
        (v.len() + u.len()) as int,
    );
    assert(spec_string_enc(s).subrange(v.len() as int, (v.len() + u.len()) as int) =~= u);
}

/// Append the wire encoding of `s` to `out`.
pub fn string_encode(s: &String, out: &mut Vec<u8>)
    ensures
        final(out)@ == old(out)@ + spec_string_enc(s@),
{
    let bytes: Vec<u8> = s.as_str().as_bytes_vec();
    varint_encode(bytes.len() as u64, out);
    push_all(out, &bytes);
    proof {
        assert(final(out)@ =~= old(out)@ + spec_string_enc(s@));
    }
}

/// Decode a string segment of the wire format starting at `pos`.
pub fn string_decode(input: &Vec<u8>, pos: usize) -> (r: Option<(String, usize)>)
    ensures
        match spec_string_dec(input@, pos as int) {
            Option::None => r is None,
            Option::Some(p) => r matches Some(q) && q.0@ == p.0 && q.1 == p.1,
        },
{
    match varint_decode(input, pos) {
        Option::None => None,
        Option::Some((n, p)) => {
            proof {
                lemma_varint_dec_bounds(input@, pos as int);
            }
            if n > (input.len() - p) as u64 {
                return None;
            }
            let end: usize = p + (n as usize);
            let sb = copy_range(input, p, end);
            match string_from_utf8(sb) {
                Option::None => None,
                Option::Some(s) => Some((s, end)),
            }
        },
    }
}

} // verus!
