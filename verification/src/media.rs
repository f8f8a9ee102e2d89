//! Call media frames: the tagged payloads (video or audio) that a live
//! call streams in each direction, and their binary wire codec.
//!
//! The wire form is: a varint discriminant (0 video, 1 audio), then the
//! frame type as a length-prefixed UTF-8 segment, the timestamp as a
//! varint, the optional duration as a presence byte (0 absent, 1 present)
//! followed by a varint, the declared byte length as a varint, and the
//! frame data as a varint byte count followed by the bytes themselves.

use vstd::prelude::*;
use vstd::utf8::encode_utf8;

use crate::ProtocolError;
use crate::varint::{
    lemma_varint_dec_bounds, lemma_varint_round_trip, spec_varint, spec_varint_dec, varint_decode,
    varint_encode,
};
use crate::wire::{
    copy_range, lemma_string_round_trip, push_all, spec_string_dec, spec_string_enc, string_decode,
    string_encode,
};

verus! {

/// The mathematical value of a media frame.
pub ghost struct MediaView {
    /// True for a video frame, false for an audio frame.
    pub video: bool,
    pub frame_type: Seq<char>,
    pub timestamp_micros: u64,
    pub duration_micros: Option<u64>,
    pub byte_length: u64,
    pub frame_data: Seq<u8>,
}

/// One media frame of a call: a video or audio payload with its codec
/// name, presentation timestamp, optional duration, and raw data.
#[derive(Clone, Debug, PartialEq, Eq)]
pub enum CallMedia {
    Video {
        frame_type: String,
        timestamp_micros: u64,
        duration_micros: Option<u64>,
        byte_length: u64,
        frame_data: Vec<u8>,
    },
    Audio {
        frame_type: String,
        timestamp_micros: u64,
        duration_micros: Option<u64>,
        byte_length: u64,
        frame_data: Vec<u8>,
    },
}

impl View for CallMedia {
    type V = MediaView;

    open spec fn view(&self) -> MediaView {
        match *self {
            CallMedia::Video {
                frame_type,
                timestamp_micros,
                duration_micros,
                byte_length,
                frame_data,
            } => MediaView {
                video: true,
                frame_type: frame_type@,
                timestamp_micros,
                duration_micros,
                byte_length,
                frame_data: frame_data@,
            },
            CallMedia::Audio {
                frame_type,
                timestamp_micros,
                duration_micros,
                byte_length,
                frame_data,
            } => MediaView {
                video: false,
                frame_type: frame_type@,
                timestamp_micros,
                duration_micros,
                byte_length,
                frame_data: frame_data@,
            },
        }
    }
}

/// The producer-side invariant of a frame: the declared byte length is the
/// actual length of the frame data. Constructors establish it; receivers
/// do not re-validate it.
pub open spec fn media_wf(m: MediaView) -> bool {
    m.byte_length == m.frame_data.len()
}

/// The machine bounds under which a frame can be put on the wire: both
/// variable-length segments fit the 64-bit lengths the codec writes.
/// Every frame held in memory satisfies them.
pub open spec fn media_bounded(m: MediaView) -> bool {
    &&& encode_utf8(m.frame_type).len() <= u64::MAX
    &&& m.frame_data.len() <= u64::MAX
}

/// Wire discriminant of a frame: video is 0, audio is 1.
pub open spec fn spec_media_disc(m: MediaView) -> nat {
    if m.video {
        0
    } else {
        1
    }
}

/// Encoding of the optional duration: a presence byte, then the value.
pub open spec fn spec_opt_u64_enc(d: Option<u64>) -> Seq<u8> {
    match d {
        Option::None => seq![0u8],
        Option::Some(v) => seq![1u8] + spec_varint(v as nat),
    }
}

/// The wire encoding of a media frame.
pub open spec fn spec_serialize_media(m: MediaView) -> Seq<u8> {
    spec_varint(spec_media_disc(m)) + spec_string_enc(m.frame_type) + spec_varint(
        m.timestamp_micros as nat,
    ) + spec_opt_u64_enc(m.duration_micros) + spec_varint(m.byte_length as nat) + spec_varint(
        m.frame_data.len(),
    ) + m.frame_data
}

/// Decode a varint that must fit in 64 bits.
pub open spec fn spec_dec_u64(b: Seq<u8>, pos: int) -> Option<(u64, int)> {
    match spec_varint_dec(b, pos) {
        Option::None => None,
        Option::Some((n, p)) => if n <= u64::MAX {
            Some((n as u64, p))
        } else {
            None
        },
    }
}

/// Decode an optional value: presence byte 0 or 1, then a varint.
pub open spec fn spec_dec_opt_u64(b: Seq<u8>, pos: int) -> Option<(Option<u64>, int)> {
    if pos < 0 || pos >= b.len() {
        None
    } else if b[pos] == 0 {
        Some((None, pos + 1))
    } else if b[pos] == 1 {
        match spec_dec_u64(b, pos + 1) {
            Option::None => None,
            Option::Some((v, p)) => Some((Some(v), p)),
        }
    } else {
        None
    }
}

/// Decode a byte segment: a varint count, then that many bytes.
pub open spec fn spec_dec_bytes(b: Seq<u8>, pos: int) -> Option<(Seq<u8>, int)> {
    match spec_varint_dec(b, pos) {
        Option::None => None,
        Option::Some((n, p)) => if n > u64::MAX || p + n > b.len() {
            None
        } else {
            Some((b.subrange(p, p + n), p + n))
        },
    }
}

/// Decode a media frame from the start of `b`. Trailing bytes are ignored.
pub open spec fn spec_deserialize_media(b: Seq<u8>) -> Option<MediaView> {
    match spec_varint_dec(b, 0) {
        Option::None => None,
        Option::Some((disc, p0)) => if disc != 0 && disc != 1 {
            None
        } else {
            match spec_string_dec(b, p0) {
                Option::None => None,
                Option::Some((ft, p1)) => match spec_dec_u64(b, p1) {
                    Option::None => None,
                    Option::Some((ts, p2)) => match spec_dec_opt_u64(b, p2) {
                        Option::None => None,
                        Option::Some((dur, p3)) => match spec_dec_u64(b, p3) {
                            Option::None => None,
                            Option::Some((bl, p4)) => match spec_dec_bytes(b, p4) {
                                Option::None => None,
                                Option::Some((fd, _p5)) => Some(
                                    MediaView {
                                        video: disc == 0,
                                        frame_type: ft,
                                        timestamp_micros: ts,
                                        duration_micros: dur,
                                        byte_length: bl,
                                        frame_data: fd,
                                    },
                                ),
                            },
                        },
                    },
                },
            }
        },
    }
}

/// Round trip: any frame within the machine bounds survives serialization
/// unchanged.
pub proof fn lemma_media_round_trip(m: MediaView)
    requires
        media_bounded(m),
    ensures
        spec_deserialize_media(spec_serialize_media(m)) == Some(m),
{
    let b = spec_serialize_media(m);
    let s0 = spec_varint(spec_media_disc(m));
    let s1 = spec_string_enc(m.frame_type);
    let s2 = spec_varint(m.timestamp_micros as nat);
    let s3 = spec_opt_u64_enc(m.duration_micros);
    let s4 = spec_varint(m.byte_length as nat);
    let s5 = spec_varint(m.frame_data.len());
    let s6 = m.frame_data;
    let p0 = s0.len() as int;
    let p1 = p0 + s1.len();
    let p2 = p1 + s2.len();
    let p3 = p2 + s3.len();
    let p4 = p3 + s4.len();
    let p5 = p4 + s5.len();

    assert(b =~= s0 + s1 + s2 + s3 + s4 + s5 + s6);
    assert(b.len() == p5 + s6.len());

    assert(b.subrange(0, p0) =~= s0);
    lemma_varint_round_trip(b, 0, spec_media_disc(m));

    assert(b.subrange(p0, p1) =~= s1);
    lemma_string_round_trip(b, p0, m.frame_type);

    assert(b.subrange(p1, p2) =~= s2);
    lemma_varint_round_trip(b, p1, m.timestamp_micros as nat);
    assert(spec_dec_u64(b, p1) == Some((m.timestamp_micros, p2)));

    match m.duration_micros {
        Option::None => {
            assert(b[p2] == 0);
            assert(spec_dec_opt_u64(b, p2) == Some((None::<u64>, p3)));
        },
        Option::Some(d) => {
            assert(b[p2] == s3[0]);
            assert(b.subrange(p2 + 1, p3) =~= spec_varint(d as nat));
            lemma_varint_round_trip(b, p2 + 1, d as nat);
            assert(spec_dec_opt_u64(b, p2) == Some((Some(d), p3)));
        },
    }

    assert(b.subrange(p3, p4) =~= s4);
    lemma_varint_round_trip(b, p3, m.byte_length as nat);
    assert(spec_dec_u64(b, p3) == Some((m.byte_length, p4)));

    assert(b.subrange(p4, p5) =~= s5);
    lemma_varint_round_trip(b, p4, m.frame_data.len());
    assert(b.subrange(p5, p5 + s6.len()) =~= s6);
    assert(spec_dec_bytes(b, p4) == Some((m.frame_data, p5 + s6.len())));
}

impl CallMedia {
    /// The producer invariant as a predicate on a frame.
    pub open spec fn wf(&self) -> bool {
        media_wf(self@)
    }

    /// Build a video frame. The declared byte length is taken from the
    /// data itself, so the frame is well formed by construction.
    pub fn new_video(
        frame_type: String,
        timestamp_micros: u64,
        duration_micros: Option<u64>,
        frame_data: Vec<u8>,
    ) -> (m: CallMedia)
        ensures
            m@ == (MediaView {
                video: true,
                frame_type: frame_type@,
                timestamp_micros,
                duration_micros,
                byte_length: frame_data@.len() as u64,
                frame_data: frame_data@,
            }),
            m.wf(),
    {
        let byte_length: u64 = frame_data.len() as u64;
        CallMedia::Video { frame_type, timestamp_micros, duration_micros, byte_length, frame_data }
    }

    /// Build an audio frame; well formed by construction, as for video.
    pub fn new_audio(
        frame_type: String,
        timestamp_micros: u64,
        duration_micros: Option<u64>,
        frame_data: Vec<u8>,
    ) -> (m: CallMedia)
        ensures
            m@ == (MediaView {
                video: false,
                frame_type: frame_type@,
                timestamp_micros,
                duration_micros,
                byte_length: frame_data@.len() as u64,
                frame_data: frame_data@,
            }),
            m.wf(),
    {
        let byte_length: u64 = frame_data.len() as u64;
        CallMedia::Audio { frame_type, timestamp_micros, duration_micros, byte_length, frame_data }
    }

    /// Serialize for the wire.
    pub fn to_bytes(&self) -> (r: Vec<u8>)
        ensures
            r@ == spec_serialize_media(self@),
    {
        let mut out: Vec<u8> = Vec::new();
        match self {
            CallMedia::Video {
                frame_type,
                timestamp_micros,
                duration_micros,
                byte_length,
                frame_data,
            } => {
                varint_encode(0, &mut out);
                encode_media_body(
                    frame_type,
                    *timestamp_micros,
                    duration_micros,
                    *byte_length,
                    frame_data,
                    &mut out,
                );
            },
            CallMedia::Audio {
                frame_type,
                timestamp_micros,
                duration_micros,
                byte_length,
                frame_data,
            } => {
                varint_encode(1, &mut out);
                encode_media_body(
                    frame_type,
                    *timestamp_micros,
                    duration_micros,
                    *byte_length,
                    frame_data,
                    &mut out,
                );
            },
        }
        proof {
            assert(out@ =~= spec_serialize_media(self@));
        }
        out
    }

    /// Decode a frame received on the wire. Fails with a codec error on
    /// any input that does not begin with a valid encoding.
    pub fn from_bytes(bytes: &Vec<u8>) -> (r: Result<CallMedia, ProtocolError>)
        ensures
            match spec_deserialize_media(bytes@) {
                Option::Some(mv) => r matches Ok(m) && m@ == mv,
                Option::None => r == Err::<CallMedia, ProtocolError>(ProtocolError::Codec),
            },
    {
        let total: usize = bytes.len();
        let disc_dec = varint_decode(bytes, 0);
        if disc_dec.is_none() {
            proof {
                assert(spec_deserialize_media(bytes@) is None);
            }
            return Err(ProtocolError::Codec);
        }
        let (disc, p0) = disc_dec.unwrap();
        if disc != 0 && disc != 1 {
            proof {
                assert(spec_deserialize_media(bytes@) is None);
            }
            return Err(ProtocolError::Codec);
        }
        proof {
            lemma_varint_dec_bounds(bytes@, 0);
        }
        let ft_dec = string_decode(bytes, p0);
        if ft_dec.is_none() {
            proof {
                assert(spec_deserialize_media(bytes@) is None);
            }
            return Err(ProtocolError::Codec);
        }
        let (frame_type, p1) = ft_dec.unwrap();
        let ts_dec = varint_decode(bytes, p1);
        proof {
            if spec_varint_dec(bytes@, p1 as int) is Some {
                lemma_varint_dec_bounds(bytes@, p1 as int);
            }
        }
        if ts_dec.is_none() {
            proof {
                assert(spec_deserialize_media(bytes@) is None);
            }
            return Err(ProtocolError::Codec);
        }
        let (timestamp_micros, p2) = ts_dec.unwrap();
        let dur_dec = opt_u64_decode(bytes, p2);
        if dur_dec.is_none() {
            proof {
                assert(spec_deserialize_media(bytes@) is None);
            }
            return Err(ProtocolError::Codec);
        }
        let (duration_micros, p3) = dur_dec.unwrap();
        proof {
            lemma_dec_opt_u64_bounds(bytes@, p2 as int);
        }
        let bl_dec = varint_decode(bytes, p3);
        proof {
            if spec_varint_dec(bytes@, p3 as int) is Some {
                lemma_varint_dec_bounds(bytes@, p3 as int);
            }
        }
        if bl_dec.is_none() {
            proof {
                assert(spec_deserialize_media(bytes@) is None);
            }
            return Err(ProtocolError::Codec);
        }
        let (byte_length, p4) = bl_dec.unwrap();
        let fd_dec = varint_decode(bytes, p4);
        if fd_dec.is_none() {
            proof {
                assert(spec_deserialize_media(bytes@) is None);
            }
            return Err(ProtocolError::Codec);
        }
        let (fd_len, p5) = fd_dec.unwrap();
        proof {
            lemma_varint_dec_bounds(bytes@, p4 as int);
        }
        if fd_len > (total - p5) as u64 {
            proof {
                assert(spec_deserialize_media(bytes@) is None);
            }
            return Err(ProtocolError::Codec);
        }
        let frame_data = copy_range(bytes, p5, p5 + (fd_len as usize));
        let m = if disc == 0 {
            CallMedia::Video { frame_type, timestamp_micros, duration_micros, byte_length, frame_data }
        } else {
            CallMedia::Audio { frame_type, timestamp_micros, duration_micros, byte_length, frame_data }
        };
        proof {
            let b = bytes@;
            assert(spec_varint_dec(b, 0) == Some((disc as nat, p0 as int)));
            assert(spec_string_dec(b, p0 as int) matches Some(q) && q.0 == frame_type@ && q.1
                == p1 as int);
            assert(spec_dec_u64(b, p1 as int) == Some((timestamp_micros, p2 as int)));
            assert(spec_dec_opt_u64(b, p2 as int) == Some((duration_micros, p3 as int)));
            assert(spec_dec_u64(b, p3 as int) == Some((byte_length, p4 as int)));
            assert(spec_dec_bytes(b, p4 as int) matches Some(q) && q.0 == frame_data@);
            assert(spec_deserialize_media(b) matches Some(mv) && m@ == mv);
        }
        Ok(m)
    }
}

/// Append everything after the discriminant of a media frame to `out`.
fn encode_media_body(
    frame_type: &String,
    timestamp_micros: u64,
    duration_micros: &Option<u64>,
    byte_length: u64,
    frame_data: &Vec<u8>,
    out: &mut Vec<u8>,
)
    ensures
        final(out)@ == old(out)@ + spec_string_enc(frame_type@) + spec_varint(
            timestamp_micros as nat,
        ) + spec_opt_u64_enc(*duration_micros) + spec_varint(byte_length as nat) + spec_varint(
            frame_data@.len(),
        ) + frame_data@,
{
    string_encode(frame_type, out);
    varint_encode(timestamp_micros, out);
    match duration_micros {
        Option::None => {
            out.push(0);
        },
        Option::Some(d) => {
            out.push(1);
            varint_encode(*d, out);
        },
    }
    proof {
        assert(out@ =~= old(out)@ + spec_string_enc(frame_type@) + spec_varint(
            timestamp_micros as nat,
        ) + spec_opt_u64_enc(*duration_micros));
    }
    varint_encode(byte_length, out);
    varint_encode(frame_data.len() as u64, out);
    push_all(out, frame_data);
}

/// A successful optional-value decode ends within the input.
proof fn lemma_dec_opt_u64_bounds(b: Seq<u8>, pos: int)
    requires
        spec_dec_opt_u64(b, pos) is Some,
    ensures
        pos < spec_dec_opt_u64(b, pos)->Some_0.1 <= b.len(),
{
    if b[pos] == 1 {
        lemma_varint_dec_bounds(b, pos + 1);
    }
}

/// Decode an optional duration starting at `pos`.
fn opt_u64_decode(input: &Vec<u8>, pos: usize) -> (r: Option<(Option<u64>, usize)>)
    ensures
        match spec_dec_opt_u64(input@, pos as int) {
            Option::None => r is None,
            Option::Some(p) => r == Some((p.0, p.1 as usize)),
        },
{
    if pos >= input.len() {
        return None;
    }
    let tag: u8 = input[pos];
    if tag == 0 {
        Some((None, pos + 1))
    } else if tag == 1 {
        proof {
            if spec_varint_dec(input@, pos as int + 1) is Some {
                lemma_varint_dec_bounds(input@, pos as int + 1);
            }
        }
        match varint_decode(input, pos + 1) {
            Option::None => None,
            Option::Some((v, p)) => Some((Some(v), p)),
        }
    } else {
        None
    }
}

} // verus!
