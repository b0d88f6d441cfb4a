//! The speech service's v3 binary frames.
//!
//! ```text
//! byte0: high nibble protocol version (1) | low nibble header length in 4-byte words (1)
//! byte1: high nibble message type          | low nibble flags
//! byte2: high nibble serialization (0 none / 1 JSON) | low nibble compression (0 none / 1 gzip)
//! byte3: reserved
//! then:  [i32 sequence when the flags carry SEQ] u32 payload_size payload
//! error: u32 error_code u32 msg_size msg
//! ```
use std::io::{Read, Write};

use flate2::read::GzDecoder;
use flate2::write::GzEncoder;
use flate2::Compression;
use vstd::prelude::*;
use vstd::slice::{slice_subrange, slice_to_vec};

use crate::text::{lossy_text, push_decimal, utf8_lossy};

verus! {

pub const MSG_FULL_CLIENT: u8 = 0b0001;
pub const MSG_AUDIO_ONLY: u8 = 0b0010;
pub const MSG_FULL_SERVER: u8 = 0b1001;
pub const MSG_ERROR: u8 = 0b1111;

pub const FLAG_NONE: u8 = 0b0000;
pub const FLAG_HAS_SEQ: u8 = 0b0001;
pub const FLAG_LAST: u8 = 0b0010;

pub const SER_NONE: u8 = 0;
pub const SER_JSON: u8 = 1;
pub const COMP_NONE: u8 = 0;
pub const COMP_GZIP: u8 = 1;

// ─── Outside: flate2 and std text decoding ──────────────────────────────────

#[verifier::external_type_specification]
#[verifier::external_body]
pub struct ExIoError(std::io::Error);

/// The gzip stream `GzEncoder` (default level) writes for `data`.
pub uninterp spec fn gzip_bytes(data: Seq<u8>) -> Seq<u8>;

/// What `GzDecoder` reads out of `data`; `None` when it is no valid stream.
pub uninterp spec fn gunzip_bytes(data: Seq<u8>) -> Option<Seq<u8>>;

/// `GzEncoder::new(Vec::new(), Compression::default())`, `write_all`, then
/// `finish`. Claims: it succeeds (the writer is a `Vec`, which never fails
/// or writes short, and flate2's miniz_oxide compressor reports an error only
/// for a call after the stream is done, which flate2 answers itself, or for a
/// failing output callback, which it does not use); the output is a function
/// of the input (the header's mtime is 0), is not empty (`finish` always
/// writes the gzip header), and decompresses back to the input.
#[verifier::external_body]
pub fn gzip(data: &[u8]) -> (r: Result<Vec<u8>, std::io::Error>)
    ensures
        r is Ok,
        r matches Ok(z) ==> z@ == gzip_bytes(data@) && z@.len() > 0 && gunzip_bytes(z@) == Some(
            data@,
        ),
{
    let mut enc = GzEncoder::new(Vec::new(), Compression::default());
    enc.write_all(data)?;
    enc.finish()
}

/// `GzDecoder::new(data).read_to_end`: the decompressed bytes, or the error
/// when `data` is not a valid gzip stream.
#[verifier::external_body]
pub fn gunzip(data: &[u8]) -> (r: Result<Vec<u8>, std::io::Error>)
    ensures
        match r {
            Ok(v) => gunzip_bytes(data@) == Some(v@),
            Err(_) => gunzip_bytes(data@) is None,
        },
{
    let mut out = Vec::new();
    GzDecoder::new(data).read_to_end(&mut out)?;
    Ok(out)
}

/// The `Display` text of an I/O error; nothing is claimed of it.
#[verifier::external_body]
fn io_error_text(e: &std::io::Error) -> String {
    e.to_string()
}

// ─── Types ──────────────────────────────────────────────────────────────────

/// A decoded server frame (payload already decompressed).
#[derive(Debug, Default)]
pub struct ServerFrame {
    pub msg_type: u8,
    pub flags: u8,
    pub sequence: Option<i32>,
    pub is_json: bool,
    pub payload: Vec<u8>,
}

/// Why a frame could not be encoded or decoded.
#[derive(Debug)]
pub enum FrameError {
    /// Fewer than four bytes.
    TooShort(usize),
    /// An error frame from the server: its code and message.
    Server { code: u32, message: String },
    /// The gzip layer failed.
    Gzip(std::io::Error),
}

/// Mathematical form of a decoding result.
pub enum DecodedView {
    TooShort(nat),
    Server { code: u32, message: Seq<char> },
    Gzip,
    Frame { msg_type: u8, flags: u8, sequence: Option<i32>, is_json: bool, payload: Seq<u8> },
}

/// The view of a `decode` result.
pub open spec fn decoded_view(r: Result<ServerFrame, FrameError>) -> DecodedView {
    match r {
        Ok(f) => DecodedView::Frame {
            msg_type: f.msg_type,
            flags: f.flags,
            sequence: f.sequence,
            is_json: f.is_json,
            payload: f.payload@,
        },
        Err(FrameError::TooShort(n)) => DecodedView::TooShort(n as nat),
        Err(FrameError::Server { code, message }) => DecodedView::Server { code, message: message@ },
        Err(FrameError::Gzip(_)) => DecodedView::Gzip,
    }
}

impl FrameError {
    /// The error's message: the size of a short response, or the server's
    /// code and message; for a gzip failure, the I/O error's own text.
    pub fn to_string(&self) -> (r: String)
        ensures
            match self {
                FrameError::TooShort(n) => r@ == "response too short ("@ + crate::text::decimal(
                    *n as nat,
                ) + "B)"@,
                FrameError::Server { code, message } => r@ == "server error code="@
                    + crate::text::decimal(*code as nat) + ": "@ + message@,
                FrameError::Gzip(_) => true,
            },
    {
        match self {
            FrameError::TooShort(n) => {
                let mut s = String::from_str("response too short (");
                push_decimal(&mut s, *n as u64);
                s.append("B)");
                s
            },
            FrameError::Server { code, message } => {
                let mut s = String::from_str("server error code=");
                push_decimal(&mut s, *code as u64);
                s.append(": ");
                s.append(message.as_str());
                s
            },
            FrameError::Gzip(e) => io_error_text(e),
        }
    }
}

impl ServerFrame {
    /// The server marked this the last frame (LAST flag, or a negative sequence).
    pub fn is_last(&self) -> (r: bool)
        ensures
            r == ((self.flags & FLAG_LAST) != 0 || (self.sequence matches Some(s) && s < 0)),
    {
        (self.flags & FLAG_LAST) != 0 || match self.sequence {
            Some(s) => s < 0,
            None => false,
        }
    }
}

// ─── Specification ──────────────────────────────────────────────────────────

/// Big-endian value of four bytes.
pub open spec fn be_value(b0: u8, b1: u8, b2: u8, b3: u8) -> u32 {
    (b0 * 0x100_0000 + b1 * 0x1_0000 + b2 * 0x100 + b3) as u32
}

/// Big-endian bytes of `n`.
pub open spec fn be_bytes(n: u32) -> Seq<u8> {
    seq![
        (n / 0x100_0000) as u8,
        ((n / 0x1_0000) % 0x100) as u8,
        ((n / 0x100) % 0x100) as u8,
        (n % 0x100) as u8,
    ]
}

/// The big-endian `u32` at `off`, if four bytes are there.
pub open spec fn u32_at_spec(buf: Seq<u8>, off: int) -> Option<u32> {
    if 0 <= off && off + 4 <= buf.len() {
        Some(be_value(buf[off], buf[off + 1], buf[off + 2], buf[off + 3]))
    } else {
        None
    }
}

/// `buf[a..b]` when in bounds, else nothing.
pub open spec fn range_or_empty(buf: Seq<u8>, a: int, b: int) -> Seq<u8> {
    if 0 <= a <= b <= buf.len() {
        buf.subrange(a, b)
    } else {
        Seq::empty()
    }
}

/// A client frame of the given header fields around `body`.
pub open spec fn frame_bytes(msg_type: u8, flags: u8, ser: u8, comp: u8, body: Seq<u8>) -> Seq<u8> {
    seq![0x11u8, ((msg_type << 4u8) | (flags & 0x0f)) as u8, ((ser << 4u8) | (comp & 0x0f)) as u8, 0u8]
        + be_bytes(body.len() as u32) + body
}

/// What `decode` makes of `buf`.
pub open spec fn decode_spec(buf: Seq<u8>) -> DecodedView {
    if buf.len() < 4 {
        DecodedView::TooShort(buf.len())
    } else {
        let header_len = ((buf[0] & 0x0f) as int) * 4;
        let msg_type = buf[1] >> 4u8;
        let flags = buf[1] & 0x0f;
        let is_json = (buf[2] >> 4u8) == SER_JSON;
        let gz = (buf[2] & 0x0f) == COMP_GZIP;
        if msg_type == MSG_ERROR {
            let code = match u32_at_spec(buf, header_len) {
                Some(c) => c,
                None => 0,
            };
            let size = match u32_at_spec(buf, header_len + 4) {
                Some(s) => s as int,
                None => 0,
            };
            let raw = range_or_empty(buf, header_len + 8, header_len + 8 + size);
            let msg = if gz {
                match gunzip_bytes(raw) {
                    Some(m) => m,
                    None => raw,
                }
            } else {
                raw
            };
            DecodedView::Server { code, message: lossy_text(msg) }
        } else {
            let has_seq = (flags & FLAG_HAS_SEQ) != 0 || flags == 0b0011;
            let sequence = if has_seq {
                match u32_at_spec(buf, header_len) {
                    Some(v) => Some(v as i32),
                    None => None,
                }
            } else {
                None
            };
            let off = if has_seq {
                header_len + 4
            } else {
                header_len
            };
            match u32_at_spec(buf, off) {
                None => DecodedView::Frame { msg_type, flags, sequence, is_json, payload: Seq::empty() },
                Some(size) => {
                    let raw = range_or_empty(buf, off + 4, off + 4 + size);
                    if gz && raw.len() > 0 {
                        match gunzip_bytes(raw) {
                            Some(p) => DecodedView::Frame { msg_type, flags, sequence, is_json, payload: p },
                            None => DecodedView::Gzip,
                        }
                    } else {
                        DecodedView::Frame { msg_type, flags, sequence, is_json, payload: raw }
                    }
                },
            }
        }
    }
}

// ─── Implementation ─────────────────────────────────────────────────────────

/// The big-endian `u32` at `off`, if four bytes are there.
fn u32_at(buf: &[u8], off: usize) -> (r: Option<u32>)
    ensures
        r == u32_at_spec(buf@, off as int),
{
    if off > buf.len() || buf.len() - off < 4 {
        return None;
    }
    let b0 = buf[off] as u32;
    let b1 = buf[off + 1] as u32;
    let b2 = buf[off + 2] as u32;
    let b3 = buf[off + 3] as u32;
    Some(b0 * 0x100_0000 + b1 * 0x1_0000 + b2 * 0x100 + b3)
}

/// A copy of `buf[a..b]` when in bounds, else an empty vector.
fn range_copy(buf: &[u8], a: usize, b: u64) -> (r: Vec<u8>)
    ensures
        r@ == range_or_empty(buf@, a as int, b as int),
{
    if (a as u64) <= b && b <= buf.len() as u64 {
        slice_to_vec(slice_subrange(buf, a, b as usize))
    } else {
        Vec::new()
    }
}

/// Big-endian bytes of `n`.
fn be_bytes_vec(n: u32) -> (r: Vec<u8>)
    ensures
        r@ == be_bytes(n),
{
    let mut r: Vec<u8> = Vec::new();
    r.push((n / 0x100_0000) as u8);
    r.push(((n / 0x1_0000) % 0x100) as u8);
    r.push(((n / 0x100) % 0x100) as u8);
    r.push((n % 0x100) as u8);
    r
}

proof fn lemma_be_roundtrip(n: u32)
    ensures
        be_value(be_bytes(n)[0], be_bytes(n)[1], be_bytes(n)[2], be_bytes(n)[3]) == n,
{
    let a = n / 0x100_0000;
    let b = (n / 0x1_0000) % 0x100;
    let c = (n / 0x100) % 0x100;
    let d = n % 0x100;
    assert(a * 0x100_0000 + b * 0x1_0000 + c * 0x100 + d == n) by (nonlinear_arith)
        requires
            a == n / 0x100_0000,
            b == (n / 0x1_0000) % 0x100,
            c == (n / 0x100) % 0x100,
            d == n % 0x100,
    ;
}

/// Encodes one client frame (no sequence field); with `COMP_GZIP` the
/// payload is gzip-compressed first. It always succeeds.
pub fn encode(msg_type: u8, flags: u8, serialization: u8, compression: u8, payload: &[u8]) -> (r:
    Result<Vec<u8>, FrameError>)
    ensures
        r is Ok,
        r matches Ok(frame) ==> frame@ == frame_bytes(
            msg_type,
            flags,
            serialization,
            compression,
            if compression == COMP_GZIP {
                gzip_bytes(payload@)
            } else {
                payload@
            },
        ),
        // a compressed body is not empty and decompresses back to the payload
        compression == COMP_GZIP ==> gzip_bytes(payload@).len() > 0 && gunzip_bytes(
            gzip_bytes(payload@),
        ) == Some(payload@),
        // what `decode` makes of the frame: the same fields and payload
        r matches Ok(frame) ==> (msg_type < 15 && flags < 16 && flags & FLAG_HAS_SEQ == 0
            && compression < 16 && (if compression == COMP_GZIP {
            gzip_bytes(payload@)
        } else {
            payload@
        }).len() <= u32::MAX) ==> decode_spec(frame@) == (DecodedView::Frame {
            msg_type,
            flags,
            sequence: None,
            is_json: serialization & 0x0f == SER_JSON,
            payload: payload@,
        }),
{
    let body: Vec<u8> = if compression == COMP_GZIP {
        match gzip(payload) {
            Ok(z) => z,
            Err(e) => return Err(FrameError::Gzip(e)),
        }
    } else {
        slice_to_vec(payload)
    };
    let b1: u8 = (msg_type << 4u8) | (flags & 0x0f);
    let b2: u8 = (serialization << 4u8) | (compression & 0x0f);
    let mut frame: Vec<u8> = Vec::new();
    frame.push(0x11u8);
    frame.push(b1);
    frame.push(b2);
    frame.push(0u8);
    let ghost head = frame@;
    assert(head =~= seq![0x11u8, b1, b2, 0u8]);
    let mut len_bytes = be_bytes_vec(#[verifier::truncate] (body.len() as u32));
    let ghost lb = len_bytes@;
    frame.append(&mut len_bytes);
    let mut body_copy = body;
    let ghost body_view = body_copy@;
    frame.append(&mut body_copy);
    proof {
        let f = frame@;
        assert(f =~= head + lb + body_view);
        assert(f =~= frame_bytes(msg_type, flags, serialization, compression, body_view));
        if msg_type < 15 && flags < 16 && flags & FLAG_HAS_SEQ == 0 && compression < 16
            && body_view.len() <= u32::MAX {
            let b1 = ((msg_type << 4u8) | (flags & 0x0f)) as u8;
            let b2 = ((serialization << 4u8) | (compression & 0x0f)) as u8;
            assert(f[1] == b1 && f[2] == b2 && f[0] == 0x11u8);
            assert((0x11u8 & 0x0f) == 1) by (bit_vector);
            assert(msg_type < 15 && flags < 16 ==> (((msg_type << 4u8) | (flags & 0x0f)) as u8) >> 4u8
                == msg_type) by (bit_vector);
            assert(flags < 16 ==> (((msg_type << 4u8) | (flags & 0x0f)) as u8) & 0x0f == flags)
                by (bit_vector);
            assert((((serialization << 4u8) | (compression & 0x0f)) as u8) >> 4u8 == serialization
                & 0x0f) by (bit_vector);
            assert(compression < 16 ==> (((serialization << 4u8) | (compression & 0x0f)) as u8)
                & 0x0f == compression) by (bit_vector);
            assert(flags & FLAG_HAS_SEQ == 0 ==> flags != 0b0011) by (bit_vector);
            lemma_be_roundtrip(body_view.len() as u32);
            assert(u32_at_spec(f, 4) == Some(body_view.len() as u32));
            assert(range_or_empty(f, 8, 8 + body_view.len() as int) == body_view);
        }
    }
    Ok(frame)
}

/// Decodes one server frame. An error frame becomes `Err`; other frames
/// have their payload decompressed as their compression nibble says. A
/// frame cut short does not panic: missing fields read as absent.
pub fn decode(buf: &[u8]) -> (r: Result<ServerFrame, FrameError>)
    ensures
        decoded_view(r) == decode_spec(buf@),
{
    if buf.len() < 4 {
        return Err(FrameError::TooShort(buf.len()));
    }
    let header_len: usize = ((buf[0] & 0x0f) as usize) * 4;
    let msg_type = buf[1] >> 4;
    let flags = buf[1] & 0x0f;
    let is_json = (buf[2] >> 4) == SER_JSON;
    let gz = (buf[2] & 0x0f) == COMP_GZIP;
    let mut off = header_len;

    if msg_type == MSG_ERROR {
        let code = match u32_at(buf, off) {
            Some(c) => c,
            None => 0,
        };
        let size: u64 = match u32_at(buf, off + 4) {
            Some(s) => s as u64,
            None => 0,
        };
        let raw = range_copy(buf, off + 8, (off + 8) as u64 + size);
        let msg = if gz {
            match gunzip(raw.as_slice()) {
                Ok(m) => m,
                Err(_) => raw,
            }
        } else {
            raw
        };
        let message = utf8_lossy(msg.as_slice());
        return Err(FrameError::Server { code, message });
    }

    let mut sequence: Option<i32> = None;
    if (flags & FLAG_HAS_SEQ) != 0 || flags == 0b0011 {
        sequence = match u32_at(buf, off) {
            Some(v) => Some(v as i32),
            None => None,
        };
        off += 4;
    }
    let payload = match u32_at(buf, off) {
        Some(size) => {
            let raw = range_copy(buf, off + 4, (off + 4) as u64 + size as u64);
            if gz && raw.len() > 0 {
                match gunzip(raw.as_slice()) {
                    Ok(p) => p,
                    Err(e) => return Err(FrameError::Gzip(e)),
                }
            } else {
                raw
            }
        },
        None => Vec::new(),
    };
    Ok(ServerFrame { msg_type, flags, sequence, is_json, payload })
}

// ─── Laws ───────────────────────────────────────────────────────────────────

/// A server frame that carries a sequence number decodes to its header
/// fields, that sequence, and its payload: the body that follows the
/// sequence and the body's length, as it is, or decompressed when the
/// compression nibble says gzip.
pub proof fn law_sequenced_frame_decodes(
    msg_type: u8,
    flags: u8,
    seq_no: i32,
    ser: u8,
    comp: u8,
    body: Seq<u8>,
    payload: Seq<u8>,
)
    requires
        msg_type < 15,
        flags < 16,
        flags & FLAG_HAS_SEQ != 0,
        ser < 16,
        comp < 16,
        body.len() <= u32::MAX,
        comp == COMP_GZIP ==> body.len() > 0 && gunzip_bytes(body) == Some(payload),
        comp != COMP_GZIP ==> body == payload,
    ensures
        decode_spec(
            seq![0x11u8, ((msg_type << 4u8) | flags) as u8, ((ser << 4u8) | comp) as u8, 0u8]
                + be_bytes(seq_no as u32) + be_bytes(body.len() as u32) + body,
        ) == (DecodedView::Frame {
            msg_type,
            flags,
            sequence: Some(seq_no),
            is_json: ser == SER_JSON,
            payload,
        }),
{
    let b1 = ((msg_type << 4u8) | flags) as u8;
    let b2 = ((ser << 4u8) | comp) as u8;
    let sb = be_bytes(seq_no as u32);
    let lb = be_bytes(body.len() as u32);
    let f = seq![0x11u8, b1, b2, 0u8] + sb + lb + body;
    assert(f[0] == 0x11u8 && f[1] == b1 && f[2] == b2);
    assert((0x11u8 & 0x0f) == 1) by (bit_vector);
    assert(msg_type < 15 && flags < 16 ==> (((msg_type << 4u8) | flags) as u8) >> 4u8 == msg_type)
        by (bit_vector);
    assert(flags < 16 ==> (((msg_type << 4u8) | flags) as u8) & 0x0f == flags) by (bit_vector);
    assert(ser < 16 && comp < 16 ==> (((ser << 4u8) | comp) as u8) >> 4u8 == ser) by (bit_vector);
    assert(comp < 16 ==> (((ser << 4u8) | comp) as u8) & 0x0f == comp) by (bit_vector);
    assert(((seq_no as u32) as i32) == seq_no) by (bit_vector);
    lemma_be_roundtrip(seq_no as u32);
    lemma_be_roundtrip(body.len() as u32);
    assert(f[4] == sb[0] && f[5] == sb[1] && f[6] == sb[2] && f[7] == sb[3]);
    assert(f[8] == lb[0] && f[9] == lb[1] && f[10] == lb[2] && f[11] == lb[3]);
    assert(u32_at_spec(f, 4) == Some(seq_no as u32));
    assert(u32_at_spec(f, 8) == Some(body.len() as u32));
    assert(f.subrange(12, 12 + body.len() as int) =~= body);
    assert(range_or_empty(f, 12, 12 + body.len() as int) == body);
}

/// A server frame without a sequence number decodes to its header fields
/// and its payload: the body after the body's length, as it is, or
/// decompressed when the compression nibble says gzip.
pub proof fn law_plain_frame_decodes(
    msg_type: u8,
    flags: u8,
    ser: u8,
    comp: u8,
    body: Seq<u8>,
    payload: Seq<u8>,
)
    requires
        msg_type < 15,
        flags < 16,
        flags & FLAG_HAS_SEQ == 0,
        ser < 16,
        comp < 16,
        body.len() <= u32::MAX,
        comp == COMP_GZIP ==> body.len() > 0 && gunzip_bytes(body) == Some(payload),
        comp != COMP_GZIP ==> body == payload,
    ensures
        decode_spec(
            seq![0x11u8, ((msg_type << 4u8) | flags) as u8, ((ser << 4u8) | comp) as u8, 0u8]
                + be_bytes(body.len() as u32) + body,
        ) == (DecodedView::Frame { msg_type, flags, sequence: None, is_json: ser == SER_JSON, payload }),
{
    let b1 = ((msg_type << 4u8) | flags) as u8;
    let b2 = ((ser << 4u8) | comp) as u8;
    let lb = be_bytes(body.len() as u32);
    let f = seq![0x11u8, b1, b2, 0u8] + lb + body;
    assert(f[0] == 0x11u8 && f[1] == b1 && f[2] == b2);
    assert((0x11u8 & 0x0f) == 1) by (bit_vector);
    assert(msg_type < 15 && flags < 16 ==> (((msg_type << 4u8) | flags) as u8) >> 4u8 == msg_type)
        by (bit_vector);
    assert(flags < 16 ==> (((msg_type << 4u8) | flags) as u8) & 0x0f == flags) by (bit_vector);
    assert(ser < 16 && comp < 16 ==> (((ser << 4u8) | comp) as u8) >> 4u8 == ser) by (bit_vector);
    assert(comp < 16 ==> (((ser << 4u8) | comp) as u8) & 0x0f == comp) by (bit_vector);
    assert(flags & FLAG_HAS_SEQ == 0 ==> flags != 0b0011) by (bit_vector);
    lemma_be_roundtrip(body.len() as u32);
    assert(f[4] == lb[0] && f[5] == lb[1] && f[6] == lb[2] && f[7] == lb[3]);
    assert(u32_at_spec(f, 4) == Some(body.len() as u32));
    assert(f.subrange(8, 8 + body.len() as int) =~= body);
    assert(range_or_empty(f, 8, 8 + body.len() as int) == body);
}

/// An error frame decodes to the server error: its code, and its message
/// (decompressed when the compression nibble says gzip) as text.
pub proof fn law_error_frame_decodes(
    flags: u8,
    ser: u8,
    comp: u8,
    code: u32,
    body: Seq<u8>,
    message: Seq<u8>,
)
    requires
        flags < 16,
        ser < 16,
        comp < 16,
        body.len() <= u32::MAX,
        comp == COMP_GZIP ==> gunzip_bytes(body) == Some(message),
        comp != COMP_GZIP ==> body == message,
    ensures
        decode_spec(
            seq![0x11u8, ((MSG_ERROR << 4u8) | flags) as u8, ((ser << 4u8) | comp) as u8, 0u8]
                + be_bytes(code) + be_bytes(body.len() as u32) + body,
        ) == (DecodedView::Server { code, message: lossy_text(message) }),
{
    let b1 = ((MSG_ERROR << 4u8) | flags) as u8;
    let b2 = ((ser << 4u8) | comp) as u8;
    let cb = be_bytes(code);
    let lb = be_bytes(body.len() as u32);
    let f = seq![0x11u8, b1, b2, 0u8] + cb + lb + body;
    assert(f[0] == 0x11u8 && f[1] == b1 && f[2] == b2);
    assert((0x11u8 & 0x0f) == 1) by (bit_vector);
    assert(flags < 16 ==> (((0b1111u8 << 4u8) | flags) as u8) >> 4u8 == 0b1111u8) by (bit_vector);
    assert(comp < 16 ==> (((ser << 4u8) | comp) as u8) & 0x0f == comp) by (bit_vector);
    lemma_be_roundtrip(code);
    lemma_be_roundtrip(body.len() as u32);
    assert(f[4] == cb[0] && f[5] == cb[1] && f[6] == cb[2] && f[7] == cb[3]);
    assert(f[8] == lb[0] && f[9] == lb[1] && f[10] == lb[2] && f[11] == lb[3]);
    assert(u32_at_spec(f, 4) == Some(code));
    assert(u32_at_spec(f, 8) == Some(body.len() as u32));
    assert(f.subrange(12, 12 + body.len() as int) =~= body);
    assert(range_or_empty(f, 12, 12 + body.len() as int) == body);
}

} // verus!
