//! Little-endian base-128 varints, the integer encoding of the wire format.
//!
//! Every multi-byte integer of the ticket and media codecs (string and byte
//! lengths, timestamps, enum discriminants) is carried as a varint: seven
//! value bits per byte, least significant group first, the high bit of a
//! byte marking that another byte follows.

use vstd::prelude::*;

verus! {

/// The canonical varint encoding of an unbounded natural number.
pub open spec fn spec_varint(n: nat) -> Seq<u8>
    decreases n,
{
    if n < 128 {
        seq![n as u8]
    } else {
        seq![(128 + (n % 128)) as u8] + spec_varint(n / 128)
    }
}

/// Decode a varint that starts at `pos`. Returns the decoded value and the
/// position just past the final byte, or `None` when the input ends before
/// a byte with a clear continuation bit. Non-canonical encodings (needless
/// continuation bytes) decode to the same value they would canonically.
pub open spec fn spec_varint_dec(b: Seq<u8>, pos: int) -> Option<(nat, int)>
    decreases b.len() - pos,
{
    if pos < 0 || pos >= b.len() {
        None
    } else if b[pos] < 128 {
        Some((b[pos] as nat, pos + 1))
    } else {
        match spec_varint_dec(b, pos + 1) {
            Option::None => None,
            Option::Some(p) => Some((((b[pos] - 128) as nat + 128 * p.0), p.1)),
        }
    }
}

/// A successful decode lands strictly beyond `pos` and within the input.
pub proof fn lemma_varint_dec_bounds(b: Seq<u8>, pos: int)
    requires
        spec_varint_dec(b, pos) is Some,
    ensures
        pos < spec_varint_dec(b, pos)->Some_0.1 <= b.len(),
    decreases b.len() - pos,
{
    if 0 <= pos < b.len() && b[pos] >= 128 {
        lemma_varint_dec_bounds(b, pos + 1);
    }
}

/// The encoding is at least one byte long, and every byte but the last has
/// its continuation bit set while the last one has it clear.
pub proof fn lemma_varint_nonempty(n: nat)
    ensures
        spec_varint(n).len() >= 1,
    decreases n,
{
    if n >= 128 {
        lemma_varint_nonempty(n / 128);
    }
}

/// Decoding inverts encoding: a varint written at `pos` of a larger buffer
/// decodes to the value it was written from, ending just past its bytes.
pub proof fn lemma_varint_round_trip(b: Seq<u8>, pos: int, n: nat)
    requires
        0 <= pos,
        pos + spec_varint(n).len() <= b.len(),
        b.subrange(pos, pos + spec_varint(n).len()) == spec_varint(n),
    ensures
        spec_varint_dec(b, pos) == Some((n, pos + spec_varint(n).len())),
    decreases n,
{
    lemma_varint_nonempty(n);
    if n < 128 {
        assert(b[pos] == spec_varint(n)[0]);
    } else {
        let tail = spec_varint(n / 128);
        assert(b[pos] == spec_varint(n)[0]);
        assert(b[pos] == 128 + (n % 128));
        assert(b.subrange(pos + 1, pos + 1 + tail.len() as int) =~= tail) by {
            assert forall|i: int| 0 <= i < tail.len() implies b.subrange(
                pos + 1,
                pos + 1 + tail.len() as int,
            )[i] == tail[i] by {
                assert(b.subrange(pos, pos + spec_varint(n).len())[i + 1] == tail[i]);
            }
        }
        lemma_varint_round_trip(b, pos + 1, n / 128);
        assert((b[pos] - 128) as nat + 128 * (n / 128) == n) by {
            vstd::arithmetic::div_mod::lemma_fundamental_div_mod(n as int, 128);
        }
    }
}

/// Append the varint encoding of `n` to `out`.
pub fn varint_encode(n: u64, out: &mut Vec<u8>)
    ensures
        final(out)@ == old(out)@ + spec_varint(n as nat),
{
    let mut v: u64 = n;
    while v >= 128
        invariant
            old(out)@ + spec_varint(n as nat) == out@ + spec_varint(v as nat),
        decreases v,
    {
        let byte: u8 = 128 + (v % 128) as u8;
        proof {
            assert(spec_varint(v as nat) == seq![byte] + spec_varint((v / 128) as nat));
            assert(out@ + (seq![byte] + spec_varint((v / 128) as nat)) =~= (out@ + seq![byte])
                + spec_varint((v / 128) as nat));
        }
        out.push(byte);
        v = v / 128;
    }
    proof {
        assert(spec_varint(v as nat) =~= seq![v as u8]);
    }
    out.push(v as u8);
    proof {
        assert(out@ =~= old(out)@ + spec_varint(n as nat));
    }
}

/// Decode a varint starting at `pos`. Returns the value and the position
/// just past it; `None` when the input is malformed or the value does not
/// fit in 64 bits.
pub fn varint_decode(input: &Vec<u8>, pos: usize) -> (r: Option<(u64, usize)>)
    ensures
        match spec_varint_dec(input@, pos as int) {
            Option::None => r is None,
            Option::Some(p) => if p.0 <= u64::MAX {
                r == Some((p.0 as u64, p.1 as usize))
            } else {
                r is None
            },
        },
    decreases input@.len() - pos,
{
    if pos >= input.len() {
        return None;
    }
    let byte: u8 = input[pos];
    if byte < 128 {
        return Some((byte as u64, pos + 1));
    }
    proof {
        if spec_varint_dec(input@, pos as int + 1) is Some {
            lemma_varint_dec_bounds(input@, pos as int + 1);
        }
    }
    match varint_decode(input, pos + 1) {
        Option::None => None,
        Option::Some((v, end)) => {
            let low: u64 = (byte - 128) as u64;
            if v <= (u64::MAX - low) / 128 {
                proof {
                    vstd::arithmetic::div_mod::lemma_fundamental_div_mod(
                        (u64::MAX - low) as int,
                        128,
                    );
                }
                Some((low + 128 * v, end))
            } else {
                proof {
                    let p = spec_varint_dec(input@, pos as int + 1)->Some_0;
                    assert(128 * p.0 >= 128 * ((u64::MAX - low) / 128 + 1)) by {
                        vstd::arithmetic::mul::lemma_mul_inequality(
                            ((u64::MAX - low) / 128 + 1) as int,
                            p.0 as int,
                            128,
                        );
                    }
                    vstd::arithmetic::div_mod::lemma_fundamental_div_mod(
                        (u64::MAX - low) as int,
                        128,
                    );
                }
                None
            }
        },
    }
}

} // verus!
