//! The RTP stage of the video decoder: RTP payloads of H.264 (RFC 6184) and
//! H.265 (RFC 7798) turned into an Annex B byte stream (start code + NAL unit)
//! for the decoder, and the RGB24 frames that come out of it.

use vstd::prelude::*;
use webrtc::rtp::packetizer::Depacketizer;

verus! {

/// One decoded frame in RGB24 (stride = width * 3). Only the latest frame is
/// shown; its time is not kept.
#[derive(Clone)]
pub struct DecodedFrame {
    pub width: u32,
    pub height: u32,
    pub data: Vec<u8>,
}

/// `x`, or `len` where `x` lies beyond it.
pub open spec fn at_most(x: int, len: int) -> int {
    if x < len {
        x
    } else {
        len
    }
}

/// Row `r` of a plane whose rows start `stride` bytes apart: its first
/// `row_len` bytes, fewer where the plane ends sooner.
pub open spec fn plane_row(plane: Seq<u8>, row_len: int, stride: int, r: int) -> Seq<u8> {
    plane.subrange(
        at_most(r * stride, plane.len() as int),
        at_most(r * stride + row_len, plane.len() as int),
    )
}

/// The first `rows` rows of a plane, each cut to `row_len` bytes and joined:
/// the packed picture, without the padding at the end of each row.
pub open spec fn packed_rows(plane: Seq<u8>, row_len: int, stride: int, rows: nat) -> Seq<u8>
    decreases rows,
{
    if rows == 0 {
        Seq::empty()
    } else {
        packed_rows(plane, row_len, stride, (rows - 1) as nat) + plane_row(
            plane,
            row_len,
            stride,
            rows - 1,
        )
    }
}

/// Where the plane holds every row in full, the packed picture holds
/// `rows * row_len` bytes.
pub proof fn lemma_packed_rows_len(plane: Seq<u8>, row_len: nat, stride: nat, rows: nat)
    requires
        row_len <= stride,
        rows * stride <= plane.len(),
    ensures
        packed_rows(plane, row_len as int, stride as int, rows).len() == rows * row_len,
    decreases rows,
{
    if rows > 0 {
        let r = (rows - 1) as nat;
        assert(r * stride + stride == rows * stride) by (nonlinear_arith)
            requires
                r == rows - 1,
        ;
        assert(r * row_len + row_len == rows * row_len) by (nonlinear_arith)
            requires
                r == rows - 1,
        ;
        assert(0 <= r * stride) by (nonlinear_arith);
        lemma_packed_rows_len(plane, row_len, stride, r);
        assert(plane_row(plane, row_len as int, stride as int, r as int).len() == row_len);
        assert(packed_rows(plane, row_len as int, stride as int, rows) == packed_rows(
            plane,
            row_len as int,
            stride as int,
            r,
        ) + plane_row(plane, row_len as int, stride as int, r as int));
    } else {
        assert(rows * row_len == 0) by (nonlinear_arith)
            requires
                rows == 0,
        ;
    }
}

impl DecodedFrame {
    /// The frame held by the first plane of a scaled RGB24 picture whose rows
    /// start `stride` bytes apart: the first `width * 3` bytes of each of the
    /// `height` rows, joined, so that the frame's own stride is `width * 3`.
    pub fn from_rgb_plane(width: u32, height: u32, stride: usize, plane: &[u8]) -> (f: DecodedFrame)
        requires
            stride * height <= usize::MAX,
            width * 3 <= usize::MAX,
        ensures
            f.width == width,
            f.height == height,
            f.data@ == packed_rows(plane@, width * 3, stride as int, height as nat),
            (width * 3 <= stride && stride * height <= plane@.len()) ==> f.data@.len() == width
                * 3 * height,
    {
        let row_len = width as usize * 3;
        let rows = height as usize;
        let len = plane.len();
        let mut data: Vec<u8> = Vec::new();
        let mut r: usize = 0;
        let mut row_start: usize = 0;
        while r < rows
            invariant
                rows == height,
                row_len == width * 3,
                len == plane@.len(),
                stride * height <= usize::MAX,
                r <= rows,
                row_start == r * stride,
                data@ == packed_rows(plane@, row_len as int, stride as int, r as nat),
            decreases rows - r,
        {
            assert(r * stride + stride == (r + 1) * stride) by (nonlinear_arith);
            assert((r + 1) * stride <= rows * stride) by (nonlinear_arith)
                requires
                    r < rows,
            ;
            let lo = if row_start < len {
                row_start
            } else {
                len
            };
            let hi = if row_start < len && row_len < len - row_start {
                row_start + row_len
            } else {
                len
            };
            let mut i = lo;
            while i < hi
                invariant
                    lo <= i <= hi,
                    hi <= len == plane@.len(),
                    data@ == packed_rows(plane@, row_len as int, stride as int, r as nat)
                        + plane@.subrange(lo as int, i as int),
                decreases hi - i,
            {
                data.push(plane[i]);
                assert(plane@.subrange(lo as int, i + 1) =~= plane@.subrange(lo as int, i as int).push(
                    plane@[i as int],
                ));
                i = i + 1;
            }
            assert(plane@.subrange(lo as int, hi as int) =~= plane_row(
                plane@,
                row_len as int,
                stride as int,
                r as int,
            ));
            r = r + 1;
            row_start = row_start + stride;
        }
        proof {
            if width * 3 <= stride && stride * height <= plane@.len() {
                assert(height * stride == stride * height) by (nonlinear_arith);
                lemma_packed_rows_len(plane@, (width * 3) as nat, stride as nat, height as nat);
            }
        }
        DecodedFrame { width, height, data }
    }
}

/// Calls `num_cpus::get`: the CPUs available to this process. The count
/// depends on the machine; the crate documents that it is at least one.
#[verifier::external_body]
fn available_cpus() -> (n: usize)
    ensures
        n >= 1,
{
    num_cpus::get()
}

/// Decoder threads for `cpus` available CPUs: one per CPU, at least one.
pub fn decoder_threads_for(cpus: usize) -> (n: usize)
    ensures
        n == (if cpus > 1 { cpus } else { 1 }),
{
    if cpus > 1 {
        cpus
    } else {
        1
    }
}

/// Decoder threads: one per available CPU, at least one.
pub fn decoder_thread_count() -> (n: usize)
    ensures
        n >= 1,
{
    decoder_threads_for(available_cpus())
}

/// The video codec of the stream.
#[derive(Clone, Copy, Debug, PartialEq, Eq, Structural)]
pub enum VideoCodecKind {
    H264,
    H265,
}

/// The Annex B start code that precedes every NAL unit.
pub open spec fn start_code() -> Seq<u8> {
    seq![0u8, 0u8, 0u8, 1u8]
}

/// `Some(s)`, or `None` where `s` is empty: an empty access unit is not decoded.
pub open spec fn nonempty(s: Seq<u8>) -> Option<Seq<u8>> {
    if s.len() == 0 {
        None
    } else {
        Some(s)
    }
}

// ---------------------------------------------------------------------------
// H.264 through the depacketizer of the `webrtc` crate.
// ---------------------------------------------------------------------------

/// The H.264 depacketizer of the `webrtc` crate (`rtp::codecs::h264::H264Packet`).
#[verifier::external_type_specification]
#[verifier::external_body]
pub struct ExH264Packet(webrtc::rtp::codecs::h264::H264Packet);

/// The error of a depacketizer of the `webrtc` crate (`rtp::Error`).
#[verifier::external_type_specification]
#[verifier::external_body]
pub struct ExRtpError(webrtc::rtp::Error);

/// The bytes of a fragmented NAL unit (FU-A) that an `H264Packet` has
/// collected so far (its `fua_buffer`; an absent buffer counts as empty).
pub uninterp spec fn h264_fragment_buffer(p: webrtc::rtp::codecs::h264::H264Packet) -> Seq<u8>;

/// Whether an `H264Packet` writes length prefixes (AVC) in place of start codes
/// (its public field `is_avc`).
pub uninterp spec fn h264_is_avc(p: webrtc::rtp::codecs::h264::H264Packet) -> bool;

/// Whether the aggregation packet (STAP-A) walk from `off` would index past
/// the end of `p`: a lone length byte where a 16-bit length is read.
pub open spec fn stap_a_truncated(p: Seq<u8>, off: int) -> bool
    decreases p.len() - off,
{
    if off < 0 || off >= p.len() {
        false
    } else if off + 1 >= p.len() {
        true
    } else {
        let next = off + 2 + (p[off] as int) * 256 + (p[off + 1] as int);
        if next > p.len() {
            false
        } else {
            stap_a_truncated(p, next)
        }
    }
}

/// The NAL units of an aggregation packet (STAP-A) from `off` on, each behind
/// a start code; `None` where a length runs past the end of the packet.
pub open spec fn stap_a_units(p: Seq<u8>, off: int) -> Option<Seq<u8>>
    decreases p.len() - off,
{
    if off < 0 || off >= p.len() {
        Some(Seq::empty())
    } else if off + 1 >= p.len() {
        None
    } else {
        let next = off + 2 + (p[off] as int) * 256 + (p[off + 1] as int);
        if next > p.len() {
            None
        } else {
            match stap_a_units(p, next) {
                Some(rest) => Some(start_code() + p.subrange(off + 2, next) + rest),
                None => None,
            }
        }
    }
}

/// The NAL unit type of an H.264 payload (low five bits of the first byte).
pub open spec fn h264_nal_type(p: Seq<u8>) -> u8 {
    p[0] & 0x1F
}

/// The Annex B bytes that the depacketizer returns for payload `p` after
/// collecting `buffer` (start codes, not AVC); `None` where it returns an error.
/// Single NAL units (types 1 to 23) get a start code; an aggregation packet
/// (24) yields its units; a fragment (28) yields nothing until its last
/// piece, which yields the rebuilt NAL unit.
pub open spec fn h264_annex_b(buffer: Seq<u8>, p: Seq<u8>) -> Option<Seq<u8>> {
    if p.len() <= 1 {
        None
    } else if p.len() <= 2 && h264_nal_type(p) != 9 {
        None
    } else if 1 <= h264_nal_type(p) <= 23 {
        Some(start_code() + p)
    } else if h264_nal_type(p) == 24 {
        stap_a_units(p, 1)
    } else if h264_nal_type(p) == 28 {
        if p[1] & 0x40 != 0 {
            Some(start_code() + seq![(p[0] & 0x60) | (p[1] & 0x1F)] + buffer + p.subrange(2, p.len() as int))
        } else {
            Some(Seq::empty())
        }
    } else {
        None
    }
}

/// The fragment buffer after payload `p`: a middle piece of a fragment adds
/// its bytes, the last piece empties it, anything else leaves it.
pub open spec fn h264_buffer_after(buffer: Seq<u8>, p: Seq<u8>) -> Seq<u8> {
    if p.len() > 2 && h264_nal_type(p) == 28 {
        if p[1] & 0x40 != 0 {
            Seq::empty()
        } else {
            buffer + p.subrange(2, p.len() as int)
        }
    } else {
        buffer
    }
}

/// The payloads on which the depacketizer does not panic: an aggregation
/// packet must not end in a lone length byte.
pub open spec fn h264_payload_safe(p: Seq<u8>) -> bool {
    !(p.len() > 2 && h264_nal_type(p) == 24 && stap_a_truncated(p, 1))
}

/// Whether the aggregation walk from `off` ends in a lone length byte.
fn stap_a_truncated_exec(p: &[u8], off: usize) -> (r: bool)
    requires
        off <= p@.len(),
    ensures
        r == stap_a_truncated(p@, off as int),
{
    let n = p.len();
    let mut o = off;
    while o < n
        invariant
            n == p@.len(),
            off <= o <= n,
            stap_a_truncated(p@, o as int) == stap_a_truncated(p@, off as int),
        decreases n - o,
    {
        if o + 1 >= n {
            return true;
        }
        let size = (p[o] as usize) * 256 + p[o + 1] as usize;
        if size > n - o - 2 {
            return false;
        }
        o = o + 2 + size;
    }
    false
}

/// Whether the H.264 depacketizer can take a payload without panicking.
pub fn h264_payload_is_safe(payload: &[u8]) -> (r: bool)
    ensures
        r == h264_payload_safe(payload@),
{
    if payload.len() > 2 && payload[0] & 0x1F == 24 {
        !stap_a_truncated_exec(payload, 1)
    } else {
        true
    }
}

/// A fragmentation unit (FU-A, type 28) carrying `body`, a piece of the
/// H.264 NAL unit `nal`.
pub open spec fn h264_fu_piece(nal: Seq<u8>, first: bool, last: bool, body: Seq<u8>) -> Seq<u8> {
    seq![
        (nal[0] & 0x60) | 28u8,
        (if first { 0x80u8 } else { 0u8 }) | (if last { 0x40u8 } else { 0u8 }) | (nal[0] & 0x1F),
    ] + body
}

/// A NAL unit (forbidden bit clear) cut into a first, a middle and a last
/// fragmentation unit, each carrying at least one byte, is given back whole,
/// behind a start code, by the last one, starting from an empty buffer; the
/// first two give nothing and the buffer is empty again afterwards.
pub proof fn law_h264_fragments_reassemble(nal: Seq<u8>, i: int, j: int)
    requires
        1 < i < j < nal.len(),
        nal[0] & 0x80 == 0,
    ensures
        ({
            let p1 = h264_fu_piece(nal, true, false, nal.subrange(1, i));
            let p2 = h264_fu_piece(nal, false, false, nal.subrange(i, j));
            let p3 = h264_fu_piece(nal, false, true, nal.subrange(j, nal.len() as int));
            let b1 = h264_buffer_after(Seq::empty(), p1);
            let b2 = h264_buffer_after(b1, p2);
            &&& h264_annex_b(Seq::empty(), p1) == Some(Seq::<u8>::empty())
            &&& h264_annex_b(b1, p2) == Some(Seq::<u8>::empty())
            &&& h264_annex_b(b2, p3) == Some(start_code() + nal)
            &&& h264_buffer_after(b2, p3) == Seq::<u8>::empty()
        }),
{
    let n0 = nal[0];
    let ind = (n0 & 0x60) | 28u8;
    let f1 = (0x80u8 | 0u8) | (n0 & 0x1F);
    let f2 = (0u8 | 0u8) | (n0 & 0x1F);
    let f3 = (0u8 | 0x40u8) | (n0 & 0x1F);
    assert(ind & 0x1F == 28 && f1 & 0x40 == 0 && f2 & 0x40 == 0 && f3 & 0x40 != 0 && (ind & 0x60) | (f3
        & 0x1F) == n0) by (bit_vector)
        requires
            n0 & 0x80 == 0,
            ind == (n0 & 0x60) | 28u8,
            f1 == (0x80u8 | 0u8) | (n0 & 0x1F),
            f2 == (0u8 | 0u8) | (n0 & 0x1F),
            f3 == (0u8 | 0x40u8) | (n0 & 0x1F),
    ;
    let p1 = h264_fu_piece(nal, true, false, nal.subrange(1, i));
    let p2 = h264_fu_piece(nal, false, false, nal.subrange(i, j));
    let p3 = h264_fu_piece(nal, false, true, nal.subrange(j, nal.len() as int));
    assert(p1[0] == ind && p1[1] == f1 && p2[0] == ind && p2[1] == f2 && p3[0] == ind && p3[1] == f3);
    assert(p1.subrange(2, p1.len() as int) =~= nal.subrange(1, i));
    assert(p2.subrange(2, p2.len() as int) =~= nal.subrange(i, j));
    assert(p3.subrange(2, p3.len() as int) =~= nal.subrange(j, nal.len() as int));
    assert(Seq::<u8>::empty() + nal.subrange(1, i) =~= nal.subrange(1, i));
    assert(h264_nal_type(p1) == 28 && h264_nal_type(p2) == 28 && h264_nal_type(p3) == 28);
    assert(p1.len() > 2 && p2.len() > 2 && p3.len() > 2);
    let b1 = h264_buffer_after(Seq::empty(), p1);
    assert(b1 =~= nal.subrange(1, i));
    let b2 = h264_buffer_after(b1, p2);
    assert(b2 =~= nal.subrange(1, i) + nal.subrange(i, j));
    assert(h264_annex_b(b2, p3) == Some(start_code() + seq![n0] + b2 + nal.subrange(j, nal.len() as int)));
    assert(start_code() + seq![n0] + (nal.subrange(1, i) + nal.subrange(i, j)) + nal.subrange(
        j,
        nal.len() as int,
    ) =~= start_code() + nal);
}

/// Calls `H264Packet::default()`: an empty fragment buffer, start codes.
#[verifier::external_body]
fn h264_depacketizer_new() -> (p: webrtc::rtp::codecs::h264::H264Packet)
    ensures
        h264_fragment_buffer(p) == Seq::<u8>::empty(),
        !h264_is_avc(p),
{
    webrtc::rtp::codecs::h264::H264Packet::default()
}

/// Calls `H264Packet::depacketize` on a copy of `payload` and returns the
/// bytes it yields. Where the packet writes start codes, the result and the
/// new fragment buffer are those of `h264_annex_b` and `h264_buffer_after`
/// (an error leaves the buffer as it was); the AVC form is never set here
/// and is left unstated.
#[verifier::external_body]
fn h264_depacketize(p: &mut webrtc::rtp::codecs::h264::H264Packet, payload: &[u8]) -> (r: Result<
    Vec<u8>,
    webrtc::rtp::Error,
>)
    requires
        h264_payload_safe(payload@),
    ensures
        h264_is_avc(*final(p)) == h264_is_avc(*old(p)),
        !h264_is_avc(*old(p)) ==> {
            &&& (r matches Ok(v) ==> h264_annex_b(h264_fragment_buffer(*old(p)), payload@) == Some(v@))
            &&& (r is Err ==> h264_annex_b(h264_fragment_buffer(*old(p)), payload@) is None)
            &&& h264_fragment_buffer(*final(p)) == h264_buffer_after(h264_fragment_buffer(*old(p)), payload@)
        },
{
    match p.depacketize(&bytes::Bytes::copy_from_slice(payload)) {
        Ok(b) => Ok(b.to_vec()),
        Err(e) => Err(e),
    }
}

// ---------------------------------------------------------------------------
// H.265 (RFC 7798).
// ---------------------------------------------------------------------------

/// The NAL unit type of an H.265 payload (bits 1..6 of the first byte).
pub open spec fn hevc_nal_type(p: Seq<u8>) -> u8 {
    (p[0] & 0x7E) >> 1
}

/// The NAL units of an aggregation packet (type 48) from `pos` on, each
/// behind a start code; the walk stops at a zero length or at a length that
/// runs past the end.
pub open spec fn hevc_ap_units(p: Seq<u8>, pos: int) -> Seq<u8>
    decreases p.len() - pos,
{
    if pos < 0 || pos + 2 > p.len() {
        Seq::empty()
    } else {
        let len = (p[pos] as int) * 256 + (p[pos + 1] as int);
        let start = pos + 2;
        if len == 0 || start + len > p.len() {
            Seq::empty()
        } else {
            start_code() + p.subrange(start, start + len) + hevc_ap_units(p, start + len)
        }
    }
}

/// The NAL header that a fragmentation unit rebuilds: the F and layer bits of
/// the payload header with the type of the fragmented unit.
pub open spec fn hevc_fu_header(p: Seq<u8>) -> Seq<u8> {
    seq![(p[0] & 0x81) | (((p[2] & 0x3F) << 1u8) & 0x7E), p[1]]
}

/// The Annex B bytes for an H.265 payload `p` after collecting `buf` (empty
/// where nothing is decoded yet): single NAL units and unknown types get a
/// start code, an aggregation packet yields its units, a fragmentation unit
/// yields the rebuilt NAL unit at its last piece.
pub open spec fn hevc_annex_b(buf: Option<Seq<u8>>, p: Seq<u8>) -> Seq<u8> {
    if p.len() < 3 {
        Seq::empty()
    } else if hevc_nal_type(p) <= 47 || hevc_nal_type(p) >= 50 {
        start_code() + p
    } else if hevc_nal_type(p) == 48 {
        hevc_ap_units(p, 2)
    } else if p[2] & 0x80 != 0 {
        if p[2] & 0x40 != 0 {
            start_code() + hevc_fu_header(p) + p.subrange(3, p.len() as int)
        } else {
            Seq::empty()
        }
    } else {
        match buf {
            Some(b) => if p[2] & 0x40 != 0 {
                b + p.subrange(3, p.len() as int)
            } else {
                Seq::empty()
            },
            None => Seq::empty(),
        }
    }
}

/// The fragment buffer after an H.265 payload: a first piece starts it with a
/// start code and the rebuilt header, a middle piece extends it, a last piece
/// hands it over; a middle or last piece without a first one is dropped.
pub open spec fn hevc_buffer_after(buf: Option<Seq<u8>>, p: Seq<u8>) -> Option<Seq<u8>> {
    if p.len() < 3 || hevc_nal_type(p) != 49 {
        buf
    } else if p[2] & 0x80 != 0 {
        if p[2] & 0x40 != 0 {
            buf
        } else {
            Some(start_code() + hevc_fu_header(p) + p.subrange(3, p.len() as int))
        }
    } else {
        match buf {
            Some(b) => if p[2] & 0x40 != 0 {
                None
            } else {
                Some(b + p.subrange(3, p.len() as int))
            },
            None => None,
        }
    }
}

/// An H.265 payload of at least three bytes whose NAL type (bits 1..6 of its
/// first byte) is neither 48 (aggregation packet) nor 49 (fragmentation unit)
/// is one NAL unit: it comes out whole behind a start code, whatever was
/// collected before, and the fragment buffer is left as it was.
pub proof fn law_hevc_single_nal_unit(buf: Option<Seq<u8>>, p: Seq<u8>)
    requires
        p.len() >= 3,
        (p[0] & 0x7E) >> 1 != 48,
        (p[0] & 0x7E) >> 1 != 49,
    ensures
        hevc_annex_b(buf, p) == seq![0u8, 0u8, 0u8, 1u8] + p,
        hevc_buffer_after(buf, p) == buf,
{
}

/// Only a fragmentation unit (NAL type 49) touches the fragment buffer, and
/// only an aggregation packet or a fragmentation unit yields other bytes
/// than the payload behind a start code.
pub proof fn law_hevc_buffer_only_for_fragments(buf: Option<Seq<u8>>, p: Seq<u8>)
    requires
        p.len() >= 3,
        hevc_buffer_after(buf, p) != buf || hevc_annex_b(buf, p) != seq![0u8, 0u8, 0u8, 1u8] + p,
    ensures
        (p[0] & 0x7E) >> 1 == 48 || (p[0] & 0x7E) >> 1 == 49,
        hevc_buffer_after(buf, p) != buf ==> (p[0] & 0x7E) >> 1 == 49,
{
}

/// A fragmentation unit (type 49) carrying `body`, a piece of the H.265 NAL
/// unit `nal`: the payload header keeps the F and layer bits of the unit, the
/// FU header holds the start and end flags and the type of the unit.
pub open spec fn hevc_fu_piece(nal: Seq<u8>, first: bool, last: bool, body: Seq<u8>) -> Seq<u8> {
    seq![
        (nal[0] & 0x81) | 0x62,
        nal[1],
        (if first { 0x80u8 } else { 0u8 }) | (if last { 0x40u8 } else { 0u8 }) | ((nal[0] >> 1u8) & 0x3F),
    ] + body
}

/// A NAL unit cut into a first, a middle and a last fragmentation unit is
/// given back whole, behind a start code, by the last one; the first two give
/// nothing and the buffer is empty again afterwards.
pub proof fn law_hevc_fragments_reassemble(nal: Seq<u8>, i: int, j: int, buf: Option<Seq<u8>>)
    requires
        2 <= i <= j <= nal.len(),
    ensures
        ({
            let p1 = hevc_fu_piece(nal, true, false, nal.subrange(2, i));
            let p2 = hevc_fu_piece(nal, false, false, nal.subrange(i, j));
            let p3 = hevc_fu_piece(nal, false, true, nal.subrange(j, nal.len() as int));
            let b1 = hevc_buffer_after(buf, p1);
            let b2 = hevc_buffer_after(b1, p2);
            &&& hevc_annex_b(buf, p1).len() == 0
            &&& hevc_annex_b(b1, p2).len() == 0
            &&& hevc_annex_b(b2, p3) == start_code() + nal
            &&& hevc_buffer_after(b2, p3) is None
        }),
{
    let n0 = nal[0];
    let p1 = hevc_fu_piece(nal, true, false, nal.subrange(2, i));
    let p2 = hevc_fu_piece(nal, false, false, nal.subrange(i, j));
    let p3 = hevc_fu_piece(nal, false, true, nal.subrange(j, nal.len() as int));
    let h0 = (n0 & 0x81) | 0x62;
    let t = (n0 >> 1u8) & 0x3F;
    assert((((h0 & 0x7E) >> 1u8) == 49u8)) by (bit_vector)
        requires
            h0 == (n0 & 0x81) | 0x62,
    ;
    let f1 = (0x80u8 | 0u8) | t;
    let f2 = (0u8 | 0u8) | t;
    let f3 = (0u8 | 0x40u8) | t;
    assert(f1 & 0x80 != 0 && f1 & 0x40 == 0 && f2 & 0x80 == 0 && f2 & 0x40 == 0 && f3 & 0x80 == 0
        && f3 & 0x40 != 0 && (h0 & 0x81) | (((f1 & 0x3F) << 1u8) & 0x7E) == n0) by (bit_vector)
        requires
            h0 == (n0 & 0x81) | 0x62,
            t == (n0 >> 1u8) & 0x3F,
            f1 == (0x80u8 | 0u8) | t,
            f2 == (0u8 | 0u8) | t,
            f3 == (0u8 | 0x40u8) | t,
    ;
    assert(p1[0] == h0 && p1[1] == nal[1] && p1[2] == f1);
    assert(p2[0] == h0 && p2[2] == f2);
    assert(p3[0] == h0 && p3[2] == f3);
    assert(hevc_fu_header(p1) =~= seq![n0, nal[1]]);
    assert(p1.subrange(3, p1.len() as int) =~= nal.subrange(2, i));
    assert(p2.subrange(3, p2.len() as int) =~= nal.subrange(i, j));
    assert(p3.subrange(3, p3.len() as int) =~= nal.subrange(j, nal.len() as int));
    assert(start_code() + seq![n0, nal[1]] + nal.subrange(2, i) + nal.subrange(i, j) + nal.subrange(
        j,
        nal.len() as int,
    ) =~= start_code() + nal);
}

/// Appends the bytes `p[from..to]` to `out`.
fn extend_from_range(out: &mut Vec<u8>, p: &[u8], from: usize, to: usize)
    requires
        from <= to <= p@.len(),
    ensures
        final(out)@ == old(out)@ + p@.subrange(from as int, to as int),
{
    let mut i = from;
    while i < to
        invariant
            from <= i <= to,
            to <= p@.len(),
            out@ == old(out)@ + p@.subrange(from as int, i as int),
        decreases to - i,
    {
        out.push(p[i]);
        assert(p@.subrange(from as int, i + 1) =~= p@.subrange(from as int, i as int).push(p@[i as int]));
        i = i + 1;
    }
}

/// Appends the start code to `out`.
fn push_start_code(out: &mut Vec<u8>)
    ensures
        final(out)@ == old(out)@ + start_code(),
{
    out.push(0);
    out.push(0);
    out.push(0);
    out.push(1);
    assert(out@ =~= old(out)@ + start_code());
}

/// The units of an aggregation packet, behind start codes.
fn hevc_aggregation_units(payload: &[u8]) -> (out: Vec<u8>)
    ensures
        out@ == hevc_ap_units(payload@, 2),
{
    let mut out: Vec<u8> = Vec::new();
    let mut pos: usize = 2;
    let total = payload.len();
    while pos <= total && total - pos >= 2
        invariant
            total == payload@.len(),
            2 <= pos,
            out@ + hevc_ap_units(payload@, pos as int) == hevc_ap_units(payload@, 2),
        decreases total - pos,
    {
        let nal_len = (payload[pos] as usize) * 256 + payload[pos + 1] as usize;
        let start = pos + 2;
        if nal_len == 0 || nal_len > total - start {
            assert(hevc_ap_units(payload@, pos as int) == Seq::<u8>::empty());
            assert(out@ + Seq::<u8>::empty() =~= out@);
            return out;
        }
        let ghost before = out@;
        push_start_code(&mut out);
        extend_from_range(&mut out, payload, start, start + nal_len);
        assert(out@ + hevc_ap_units(payload@, (start + nal_len) as int) =~= before
            + hevc_ap_units(payload@, pos as int));
        pos = start + nal_len;
    }
    assert(hevc_ap_units(payload@, pos as int) == Seq::<u8>::empty());
    assert(out@ + Seq::<u8>::empty() =~= out@);
    out
}

// ---------------------------------------------------------------------------
// The depacketizer.
// ---------------------------------------------------------------------------

/// Turns the RTP payloads of one video track into Annex B access units.
pub struct RtpDepacketizer {
    kind: VideoCodecKind,
    h264: Option<webrtc::rtp::codecs::h264::H264Packet>,
    hevc_fu_buffer: Option<Vec<u8>>,
}

/// The fragment buffer of an H.265 depacketizer.
pub open spec fn opt_bytes_view(b: Option<Vec<u8>>) -> Option<Seq<u8>> {
    match b {
        Some(v) => Some(v@),
        None => None,
    }
}

impl RtpDepacketizer {
    /// The codec of the track.
    pub closed spec fn codec(&self) -> VideoCodecKind {
        self.kind
    }

    /// The depacketizer holds what it needs for its codec: the H.264
    /// depacketizer of the `webrtc` crate, in its start-code form.
    pub closed spec fn well_formed(&self) -> bool {
        self.kind == VideoCodecKind::H264 ==> (self.h264 matches Some(p) && !h264_is_avc(p))
    }

    /// The bytes of a fragmented H.264 NAL unit collected so far.
    pub closed spec fn h264_pending(&self) -> Seq<u8> {
        match self.h264 {
            Some(p) => h264_fragment_buffer(p),
            None => Seq::empty(),
        }
    }

    /// The H.265 NAL unit being reassembled from fragmentation units, if any.
    pub closed spec fn hevc_pending(&self) -> Option<Seq<u8>> {
        opt_bytes_view(self.hevc_fu_buffer)
    }

    /// A depacketizer for `kind` with nothing collected.
    pub fn new(kind: VideoCodecKind) -> (d: RtpDepacketizer)
        ensures
            d.well_formed(),
            d.codec() == kind,
            d.h264_pending() == Seq::<u8>::empty(),
            d.hevc_pending() is None,
    {
        let h264 = match kind {
            VideoCodecKind::H264 => Some(h264_depacketizer_new()),
            VideoCodecKind::H265 => None,
        };
        RtpDepacketizer { kind, h264, hevc_fu_buffer: None }
    }

    /// The Annex B bytes that one RTP payload completes, or `None` when it
    /// completes nothing (empty payload, a fragment that is not the last, a
    /// payload the depacketizer rejects, or an empty result).
    pub fn depacketize(&mut self, payload: &[u8]) -> (r: Option<Vec<u8>>)
        requires
            old(self).well_formed(),
            old(self).codec() == VideoCodecKind::H264 ==> h264_payload_safe(payload@),
        ensures
            final(self).well_formed(),
            final(self).codec() == old(self).codec(),
            payload@.len() == 0 ==> r is None && final(self).h264_pending() == old(self).h264_pending()
                && final(self).hevc_pending() == old(self).hevc_pending(),
            payload@.len() > 0 && old(self).codec() == VideoCodecKind::H264 ==> {
                &&& final(self).h264_pending() == h264_buffer_after(old(self).h264_pending(), payload@)
                &&& match h264_annex_b(old(self).h264_pending(), payload@) {
                    Some(out) => opt_bytes_view(r) == nonempty(out),
                    None => r is None,
                }
            },
            payload@.len() > 0 && old(self).codec() == VideoCodecKind::H265 ==> {
                &&& final(self).hevc_pending() == hevc_buffer_after(old(self).hevc_pending(), payload@)
                &&& opt_bytes_view(r) == nonempty(hevc_annex_b(old(self).hevc_pending(), payload@))
            },
    {
        if payload.len() == 0 {
            return None;
        }
        let annex_b: Vec<u8> = match self.kind {
            VideoCodecKind::H264 => {
                match &mut self.h264 {
                    Some(dep) => match h264_depacketize(dep, payload) {
                        Ok(b) => b,
                        Err(_) => {
                            return None;
                        },
                    },
                    None => {
                        return None;
                    },
                }
            },
            VideoCodecKind::H265 => {
                match self.hevc_annex_b(payload) {
                    Some(b) => b,
                    None => {
                        return None;
                    },
                }
            },
        };
        if annex_b.len() == 0 {
            return None;
        }
        Some(annex_b)
    }

    /// The H.265 step: `None` where the payload completes nothing.
    fn hevc_annex_b(&mut self, payload: &[u8]) -> (r: Option<Vec<u8>>)
        requires
            old(self).kind == VideoCodecKind::H265,
            payload@.len() > 0,
        ensures
            final(self).kind == old(self).kind,
            final(self).h264 == old(self).h264,
            final(self).hevc_pending() == hevc_buffer_after(old(self).hevc_pending(), payload@),
            match r {
                Some(v) => v@ == hevc_annex_b(old(self).hevc_pending(), payload@),
                None => hevc_annex_b(old(self).hevc_pending(), payload@).len() == 0,
            },
    {
        if payload.len() < 3 {
            return None;
        }
        let b0 = payload[0];
        let b1 = payload[1];
        let nal_type = (b0 & 0x7E) >> 1;
        if nal_type <= 47 || nal_type >= 50 {
            let mut buf: Vec<u8> = Vec::new();
            push_start_code(&mut buf);
            extend_from_range(&mut buf, payload, 0, payload.len());
            assert(payload@.subrange(0, payload@.len() as int) =~= payload@);
            Some(buf)
        } else if nal_type == 48 {
            Some(hevc_aggregation_units(payload))
        } else {
            let fu_header = payload[2];
            let s = (fu_header & 0x80) != 0;
            let e = (fu_header & 0x40) != 0;
            let orig_type = fu_header & 0x3F;
            if s {
                let forbidden = b0 & 0x81;
                let new_b0 = forbidden | ((orig_type << 1u8) & 0x7E);
                let mut buf: Vec<u8> = Vec::new();
                push_start_code(&mut buf);
                buf.push(new_b0);
                buf.push(b1);
                extend_from_range(&mut buf, payload, 3, payload.len());
                assert(buf@ =~= start_code() + hevc_fu_header(payload@) + payload@.subrange(3, payload@.len() as int));
                if e {
                    Some(buf)
                } else {
                    self.hevc_fu_buffer = Some(buf);
                    None
                }
            } else {
                match self.hevc_fu_buffer.take() {
                    Some(mut buf) => {
                        extend_from_range(&mut buf, payload, 3, payload.len());
                        if e {
                            Some(buf)
                        } else {
                            self.hevc_fu_buffer = Some(buf);
                            None
                        }
                    },
                    None => None,
                }
            }
        }
    }
}

} // verus!
