//! A verified GDL-90 message codec: flag-delimited framing with
//! byte-stuffing, a CRC-16/CCITT integrity check, a message-ID dispatch
//! layer, and bit-precise encode/decode for Traffic/Ownship Reports and
//! AHRS attitude payloads.

use vstd::prelude::*;

pub mod error;
pub mod fixed;
pub mod crc;
pub mod framing;
pub mod messages;

pub use error::AhrsField;
pub use error::Gdl90Error;
pub use framing::FLAG;
pub use framing::deframe;
pub use framing::escape;
pub use framing::frame;
pub use framing::unescape;
pub use crc::crc_compute;
pub use crc::crc_init;
pub use crc::crc_verify;

use crate::crc::spec_be16;
use crate::crc::spec_crc_compute;
use crate::fixed::spec_b0;
use crate::fixed::spec_b1;
use crate::framing::spec_escape;
use crate::framing::spec_strip_flags;
use crate::framing::spec_unescape;
use crate::messages::traffic_report::TrafficReport;
use crate::messages::traffic_report::TrafficReportView;
use crate::messages::traffic_report::spec_tr_canonical;
use crate::messages::traffic_report::spec_tr_decode;
use crate::messages::traffic_report::spec_tr_fields;
use crate::messages::traffic_report::spec_tr_to_bytes;
use crate::messages::traffic_report::lemma_tr_canonical_round_trip;
use crate::framing::lemma_unescape_escape;
use vstd::arithmetic::div_mod::lemma_fundamental_div_mod;
use vstd::arithmetic::div_mod::lemma_small_mod;

verus! {

/// The mathematical value of a GDL-90 message: the tag, and for the two
/// report-carrying messages the decoded report.
pub enum MessageView {
    Heartbeat,
    Initialization,
    UplinkData,
    HeightAboveTerrain,
    OwnshipReport(TrafficReportView),
    OwnshipGeometricAltitude,
    TrafficReport(TrafficReportView),
    BasicReport,
    LongReport,
    Unknown,
}

/// A GDL-90 message, tagged by its one-byte message ID. Only the Ownship
/// and Traffic Reports carry a payload here; the other known IDs are
/// marker variants, and every unknown ID decodes to `Unknown` rather than
/// failing.
#[derive(Clone, Debug, PartialEq)]
pub enum GDL90Message {
    Heartbeat,
    Initialization,
    UplinkData,
    HeightAboveTerrain,
    OwnshipReport(TrafficReport),
    OwnshipGeometricAltitude,
    TrafficReport(TrafficReport),
    BasicReport,
    LongReport,
    Unknown,
}

impl View for GDL90Message {
    type V = MessageView;

    open spec fn view(&self) -> MessageView {
        match self {
            GDL90Message::Heartbeat => MessageView::Heartbeat,
            GDL90Message::Initialization => MessageView::Initialization,
            GDL90Message::UplinkData => MessageView::UplinkData,
            GDL90Message::HeightAboveTerrain => MessageView::HeightAboveTerrain,
            GDL90Message::OwnshipReport(t) => MessageView::OwnshipReport(t@),
            GDL90Message::OwnshipGeometricAltitude => MessageView::OwnshipGeometricAltitude,
            GDL90Message::TrafficReport(t) => MessageView::TrafficReport(t@),
            GDL90Message::BasicReport => MessageView::BasicReport,
            GDL90Message::LongReport => MessageView::LongReport,
            GDL90Message::Unknown => MessageView::Unknown,
        }
    }
}

/// Dispatch on the message ID in byte 0 of a CRC-checked body: known
/// marker IDs yield their variants, IDs 10 and 20 delegate the rest of the
/// body to the Traffic Report codec, and any other ID yields `Unknown`,
/// never an error.
pub open spec fn spec_dispatch(body: Seq<u8>) -> Result<MessageView, Gdl90Error> {
    let id = body[0];
    let payload = body.drop_first();
    if id == 0 {
        Ok(MessageView::Heartbeat)
    } else if id == 2 {
        Ok(MessageView::Initialization)
    } else if id == 7 {
        Ok(MessageView::UplinkData)
    } else if id == 9 {
        Ok(MessageView::HeightAboveTerrain)
    } else if id == 10 {
        match spec_tr_decode(payload) {
            Ok(v) => Ok(MessageView::OwnshipReport(v)),
            Err(e) => Err(e),
        }
    } else if id == 11 {
        Ok(MessageView::OwnshipGeometricAltitude)
    } else if id == 20 {
        match spec_tr_decode(payload) {
            Ok(v) => Ok(MessageView::TrafficReport(v)),
            Err(e) => Err(e),
        }
    } else if id == 30 {
        Ok(MessageView::BasicReport)
    } else if id == 31 {
        Ok(MessageView::LongReport)
    } else {
        Ok(MessageView::Unknown)
    }
}

/// What decoding a raw frame yields under CRC table `t`: strip optional
/// flags, unescape, reject anything too short to hold an ID and a CRC,
/// check the trailing big-endian CRC over everything before it, then
/// dispatch on the message ID.
pub open spec fn spec_message_decode(t: Seq<u16>, s: Seq<u8>) -> Result<MessageView, Gdl90Error> {
    if s.len() == 0 {
        Err(Gdl90Error::EmptyInput)
    } else {
        let u = spec_unescape(spec_strip_flags(s));
        if u.len() < 3 {
            Err(Gdl90Error::BufferTooShort)
        } else {
            let body = u.take(u.len() - 2);
            let wire = spec_be16(u[u.len() - 2], u[u.len() - 1]);
            let comp = spec_crc_compute(t, body);
            if wire != comp {
                Err(Gdl90Error::CrcMismatch { expected: wire as u16, actual: comp })
            } else {
                spec_dispatch(body)
            }
        }
    }
}

/// A decode result abstracted to the view level.
pub open spec fn spec_message_result(r: Result<GDL90Message, Gdl90Error>) -> Result<
    MessageView,
    Gdl90Error,
> {
    match r {
        Ok(m) => Ok(m@),
        Err(e) => Err(e),
    }
}

/// The two CRC bytes appended to a body: its checksum, big-endian.
pub open spec fn spec_crc_trailer(t: Seq<u16>, body: Seq<u8>) -> Seq<u8> {
    let c = spec_crc_compute(t, body);
    seq![spec_b1(c as int), spec_b0(c as int)]
}

/// A full wire frame for `body`: checksum appended, byte-stuffed, and
/// wrapped in flag bytes.
pub open spec fn spec_frame_encode(t: Seq<u16>, body: Seq<u8>) -> Seq<u8> {
    seq![FLAG] + spec_escape(body + spec_crc_trailer(t, body)) + seq![FLAG]
}

/// What encoding a message yields under CRC table `t`: the two
/// report-carrying messages frame their ID and packed payload, the other
/// known IDs frame an ID-only stub, and `Unknown`, which has no ID, yields
/// a bare empty frame.
pub open spec fn spec_message_encode(t: Seq<u16>, m: MessageView) -> Seq<u8> {
    match m {
        MessageView::Heartbeat => spec_frame_encode(t, seq![0u8]),
        MessageView::Initialization => spec_frame_encode(t, seq![2u8]),
        MessageView::UplinkData => spec_frame_encode(t, seq![7u8]),
        MessageView::HeightAboveTerrain => spec_frame_encode(t, seq![9u8]),
        MessageView::OwnshipReport(v) => spec_frame_encode(t, seq![10u8] + spec_tr_to_bytes(v)),
        MessageView::OwnshipGeometricAltitude => spec_frame_encode(t, seq![11u8]),
        MessageView::TrafficReport(v) => spec_frame_encode(t, seq![20u8] + spec_tr_to_bytes(v)),
        MessageView::BasicReport => spec_frame_encode(t, seq![30u8]),
        MessageView::LongReport => spec_frame_encode(t, seq![31u8]),
        MessageView::Unknown => seq![FLAG, FLAG],
    }
}

/// Appends all of `src` to `out`.
fn push_all(out: &mut Vec<u8>, src: &[u8])
    ensures
        final(out)@ == old(out)@ + src@,
{
    let mut i: usize = 0;
    proof {
        assert(out@ =~= old(out)@ + src@.take(0));
    }
    while i < src.len()
        invariant
            i <= src@.len(),
            out@ == old(out)@ + src@.take(i as int),
        decreases src@.len() - i,
    {
        out.push(src[i]);
        proof {
            assert(out@ =~= old(out)@ + src@.take(i + 1));
        }
        i += 1;
    }
    proof {
        assert(src@.take(src@.len() as int) =~= src@);
    }
}

/// Appends the checksum to `body`, escapes and flag-wraps it: the shared
/// tail of every message encoding.
fn encode_frame_body(crc_table: &[u16], body: Vec<u8>) -> (r: Vec<u8>)
    requires
        crc_table@.len() == 256,
    ensures
        r@ == spec_frame_encode(crc_table@, body@),
{
    let ghost b0 = body@;
    let mut full = body;
    let c = crc_compute(crc_table, full.as_slice());
    full.push(crate::fixed::b1_u32(c as u32));
    full.push(crate::fixed::b0_u32(c as u32));
    proof {
        assert(full@ =~= b0 + spec_crc_trailer(crc_table@, b0));
    }
    let escaped = escape(full.as_slice());
    frame(escaped.as_slice())
}

/// Frames an ID-only stub message.
fn encode_frame_id(crc_table: &[u16], id: u8) -> (r: Vec<u8>)
    requires
        crc_table@.len() == 256,
    ensures
        r@ == spec_frame_encode(crc_table@, seq![id]),
{
    let mut body: Vec<u8> = Vec::new();
    body.push(id);
    proof {
        assert(body@ =~= seq![id]);
    }
    encode_frame_body(crc_table, body)
}

/// Frames a report-carrying message: the ID byte followed by the packed
/// 27-byte report.
fn encode_frame_report(crc_table: &[u16], id: u8, t: TrafficReport) -> (r: Vec<u8>)
    requires
        crc_table@.len() == 256,
    ensures
        r@ == spec_frame_encode(crc_table@, seq![id] + spec_tr_to_bytes(t@)),
{
    let ghost v = t@;
    let payload = t.to_bytes();
    let mut body: Vec<u8> = Vec::new();
    body.push(id);
    push_all(&mut body, payload.as_slice());
    proof {
        assert(body@ =~= seq![id] + spec_tr_to_bytes(v));
    }
    encode_frame_body(crc_table, body)
}

impl GDL90Message {
    /// Decodes a received datagram, which may arrive with or without its
    /// flag bytes, against the CRC table from `crc_init`.
    ///
    /// Fails with `EmptyInput` on an empty buffer, `BufferTooShort` when
    /// fewer than three unescaped bytes remain, `CrcMismatch` when the
    /// trailing CRC disagrees with the computed one, and a payload codec
    /// error when the report payload is too short; an unknown message ID
    /// is not an error.
    pub fn from_bytes(crc_table: &[u16], buf: &[u8]) -> (r: Result<Self, Gdl90Error>)
        requires
            crc_table@.len() == 256,
        ensures
            spec_message_result(r) == spec_message_decode(crc_table@, buf@),
    {
        let stripped = match deframe(buf) {
            Ok(v) => v,
            Err(e) => {
                return Err(e);
            },
        };
        let u = unescape(stripped.as_slice());
        if u.len() < 3 {
            return Err(Gdl90Error::BufferTooShort);
        }
        let n = u.len();
        let wire: u16 = (u[n - 2] as u16) * 256 + (u[n - 1] as u16);
        let body = vstd::slice::slice_subrange(u.as_slice(), 0, n - 2);
        let comp = crc_compute(crc_table, body);
        if wire != comp {
            return Err(Gdl90Error::CrcMismatch { expected: wire, actual: comp });
        }
        proof {
            assert(body@ =~= u@.take(n - 2));
        }
        let id = u[0];
        let payload = vstd::slice::slice_subrange(u.as_slice(), 1, n - 2);
        proof {
            assert(payload@ =~= u@.take(n - 2).drop_first());
        }
        match id {
            0 => Ok(GDL90Message::Heartbeat),
            2 => Ok(GDL90Message::Initialization),
            7 => Ok(GDL90Message::UplinkData),
            9 => Ok(GDL90Message::HeightAboveTerrain),
            10 => match TrafficReport::from_bytes(payload) {
                Ok(t) => Ok(GDL90Message::OwnshipReport(t)),
                Err(e) => Err(e),
            },
            11 => Ok(GDL90Message::OwnshipGeometricAltitude),
            20 => match TrafficReport::from_bytes(payload) {
                Ok(t) => Ok(GDL90Message::TrafficReport(t)),
                Err(e) => Err(e),
            },
            30 => Ok(GDL90Message::BasicReport),
            31 => Ok(GDL90Message::LongReport),
            _ => Ok(GDL90Message::Unknown),
        }
    }

    /// Encodes this message as a complete wire frame: ID and payload,
    /// CRC appended big-endian, byte-stuffed, and flag-wrapped.
    #[must_use]
    pub fn to_bytes(self, crc_table: &[u16]) -> (r: Vec<u8>)
        requires
            crc_table@.len() == 256,
        ensures
            r@ == spec_message_encode(crc_table@, self@),
    {
        match self {
            GDL90Message::Heartbeat => encode_frame_id(crc_table, 0),
            GDL90Message::Initialization => encode_frame_id(crc_table, 2),
            GDL90Message::UplinkData => encode_frame_id(crc_table, 7),
            GDL90Message::HeightAboveTerrain => encode_frame_id(crc_table, 9),
            GDL90Message::OwnshipReport(t) => encode_frame_report(crc_table, 10, t),
            GDL90Message::OwnshipGeometricAltitude => encode_frame_id(crc_table, 11),
            GDL90Message::TrafficReport(t) => encode_frame_report(crc_table, 20, t),
            GDL90Message::BasicReport => encode_frame_id(crc_table, 30),
            GDL90Message::LongReport => encode_frame_id(crc_table, 31),
            GDL90Message::Unknown => {
                let mut out: Vec<u8> = Vec::new();
                out.push(FLAG);
                out.push(FLAG);
                proof {
                    assert(out@ =~= seq![FLAG, FLAG]);
                }
                out
            },
        }
    }
}


/// Stripping the flags off a framed escaped buffer gives the escaped
/// buffer back: the appended delimiters are exactly what is removed.
proof fn lemma_strip_framed(u: Seq<u8>)
    ensures
        spec_strip_flags(seq![FLAG] + spec_escape(u) + seq![FLAG]) == spec_escape(u),
{
    let e = spec_escape(u);
    let f = seq![FLAG] + e + seq![FLAG];
    assert(f[0] == FLAG);
    assert(f.drop_first() =~= e + seq![FLAG]);
    let s1 = e + seq![FLAG];
    assert(s1.last() == FLAG);
    assert(s1.drop_last() =~= e);
}

/// The two big-endian digits of a 16-bit checksum reassemble to it.
proof fn lemma_be16_digits(c: u16)
    ensures
        spec_be16(spec_b1(c as int), spec_b0(c as int)) == c as int,
{
    lemma_fundamental_div_mod(c as int, 256);
    lemma_small_mod(((c as int) / 256) as nat, 256);
}

/// A frame whose trailing two bytes disagree with the checksum of the
/// rest is rejected with exactly `CrcMismatch`, carrying the received and
/// the computed value.
pub proof fn lemma_crc_mismatch_detected(t: Seq<u16>, body: Seq<u8>, c1: u8, c0: u8)
    requires
        body.len() >= 1,
        spec_be16(c1, c0) != spec_crc_compute(t, body),
    ensures
        spec_message_decode(t, seq![FLAG] + spec_escape(body + seq![c1, c0]) + seq![FLAG]) == Err::<
            MessageView,
            Gdl90Error,
        >(
            Gdl90Error::CrcMismatch {
                expected: spec_be16(c1, c0) as u16,
                actual: spec_crc_compute(t, body),
            },
        ),
{
    let u = body + seq![c1, c0];
    let f = seq![FLAG] + spec_escape(u) + seq![FLAG];
    assert(f.len() > 0) by {
        crate::framing::lemma_escape_len(u);
    }
    lemma_strip_framed(u);
    lemma_unescape_escape(u);
    assert(spec_unescape(spec_strip_flags(f)) == u);
    assert(u.len() >= 3);
    assert(u.take(u.len() - 2) =~= body);
    assert(u[u.len() - 2] == c1 && u[u.len() - 1] == c0);
    assert(0 <= spec_be16(c1, c0) < 0x10000);
}

/// Flipping either trailing CRC byte of a valid frame makes decoding fail
/// with `CrcMismatch`: a frame carries its checksum in its last two
/// unescaped bytes, and any other pair of bytes there disagrees with the
/// recomputed value.
pub proof fn lemma_crc_flip_rejected(t: Seq<u16>, body: Seq<u8>, d1: u8, d0: u8)
    requires
        body.len() >= 1,
        seq![d1, d0] != spec_crc_trailer(t, body),
    ensures
        spec_message_decode(t, seq![FLAG] + spec_escape(body + seq![d1, d0]) + seq![FLAG])
            matches Err(e) && e matches Gdl90Error::CrcMismatch { expected, actual } && expected
            == spec_be16(d1, d0) && actual == spec_crc_compute(t, body),
{
    let c = spec_crc_compute(t, body);
    lemma_be16_digits(c);
    if spec_be16(d1, d0) == c as int {
        // equal 16-bit values have equal digits, contradicting the flip
        crate::fixed::lemma_be_split(d1 as int, d0 as int, 256);
        crate::fixed::lemma_be_split(spec_b1(c as int) as int, spec_b0(c as int) as int, 256);
        assert(seq![d1, d0] =~= spec_crc_trailer(t, body));
    }
    lemma_crc_mismatch_detected(t, body, d1, d0);
    assert(0 <= spec_be16(d1, d0) < 0x10000);
}

/// Encoding the message decoded from a canonically built report frame
/// reproduces the frame byte for byte: for either report-carrying message
/// ID, a canonical 27-byte payload, the correct checksum and canonical
/// escaping, decode succeeds and encode inverts it.
pub proof fn lemma_report_frame_round_trip(t: Seq<u16>, id: u8, payload: Seq<u8>)
    requires
        id == 10 || id == 20,
        spec_tr_canonical(payload),
    ensures
        ({
            let f = spec_frame_encode(t, seq![id] + payload);
            spec_message_decode(t, f) matches Ok(m) && spec_message_encode(t, m) == f
        }),
{
    let body = seq![id] + payload;
    let full = body + spec_crc_trailer(t, body);
    let f = spec_frame_encode(t, body);
    assert(f == seq![FLAG] + spec_escape(full) + seq![FLAG]);
    assert(f.len() > 0) by {
        crate::framing::lemma_escape_len(full);
    }
    lemma_strip_framed(full);
    lemma_unescape_escape(full);
    assert(spec_unescape(spec_strip_flags(f)) == full);
    assert(full.len() == 30);
    assert(full.take(28) =~= body);
    let c = spec_crc_compute(t, body);
    assert(full[28] == spec_b1(c as int) && full[29] == spec_b0(c as int));
    lemma_be16_digits(c);
    assert(spec_be16(full[28], full[29]) == c as int);
    assert(body[0] == id);
    assert(body.drop_first() =~= payload);
    lemma_tr_canonical_round_trip(payload);
    assert(seq![id] + spec_tr_to_bytes(spec_tr_fields(payload)) =~= body);
}


} // verus!
