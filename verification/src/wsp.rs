//! A WebSocket framer: frames of three size classes, client-side masking,
//! messages cut into frames, and the client's opening handshake.

use vstd::prelude::*;
use crate::httpp::{header_result, HttpError, HttpRequestParts, HttpResponseParts, RequestView};
use crate::octets::{append, copy_range, same_bytes, utf8};

verus! {

/// What the caller asks of the encoding of a message.
#[derive(Debug, PartialEq, Eq, Structural, Clone, Copy)]
pub enum WspSett {
    Mask,
    Ping,
    Pong,
    TextMsg,
    BinaryMsg,
    MaxFrameLen(usize),
}

/// What can go wrong with a WebSocket message.
#[derive(Debug, PartialEq, Eq, Structural, Clone, Copy)]
pub enum WspError {
    Buggy,
    InvalidMaxFrameLen,
    InvalidDataLen,
    InsufficientSize,
    SizeKindNotFound,
    HandshakeFail1,
    HandshakeFail2,
}

/// The size class of a frame: how its payload length is written.
#[derive(Debug, PartialEq, Eq, Structural, Clone, Copy)]
pub enum SizeKind {
    /// Seven bits: up to 125 bytes.
    S,
    /// Sixteen bits: up to 65535 bytes.
    M,
    /// Sixty-four bits.
    L,
}

/// The key that every masked frame of this client carries.
pub const FIXED_MASK_KEY: u32 = 0x37fa213d;

/// The longest payload that a size class can declare.
pub open spec fn cap(kind: SizeKind) -> int {
    match kind {
        SizeKind::S => 125,
        SizeKind::M => 65535,
        SizeKind::L => u64::MAX as int,
    }
}

/// Whether a set of allowed classes, small, medium and large in this
/// order, holds `kind`.
pub open spec fn allows(kinds: [bool; 3], kind: SizeKind) -> bool {
    match kind {
        SizeKind::S => kinds[0],
        SizeKind::M => kinds[1],
        SizeKind::L => kinds[2],
    }
}

/// The smallest allowed class that can declare `len` bytes, if there is one.
pub open spec fn smallest_kind(kinds: [bool; 3], len: int) -> Option<SizeKind> {
    if kinds[0] && len <= 125 {
        Some(SizeKind::S)
    } else if kinds[1] && len <= 65535 {
        Some(SizeKind::M)
    } else if kinds[2] {
        Some(SizeKind::L)
    } else {
        None
    }
}

/// Size-class minimality: the class chosen for a length is allowed and can
/// declare it, and no allowed class with a smaller cap can; none is chosen
/// only where no allowed class can declare the length.
pub proof fn lemma_smallest_kind_is_minimal(kinds: [bool; 3], len: int, other: SizeKind)
    requires
        0 <= len <= u64::MAX,
    ensures
        smallest_kind(kinds, len) matches Some(k) ==> allows(kinds, k) && len <= cap(k) && (
        allows(kinds, other) && len <= cap(other) ==> cap(k) <= cap(other)),
        smallest_kind(kinds, len).is_none() ==> !(allows(kinds, other) && len <= cap(other)),
{
}

/// The low byte of `x`.
pub open spec fn low(x: u64) -> u8 {
    (x & 0xff) as u8
}

fn low_byte(x: u64) -> (r: u8)
    ensures
        r == low(x),
{
    assert(x & 0xff <= 0xff) by (bit_vector);
    (x & 0xff) as u8
}

/// The four bytes of a mask key, the high byte first.
pub open spec fn key_bytes(key: u32) -> Seq<u8> {
    seq![
        low((key as u64) >> 24),
        low((key as u64) >> 16),
        low((key as u64) >> 8),
        low(key as u64),
    ]
}

/// The two bytes of a sixteen-bit length, the high byte first.
pub open spec fn be16(x: u64) -> Seq<u8> {
    seq![low(x >> 8), low(x)]
}

/// The eight bytes of a sixty-four-bit length, the high byte first.
pub open spec fn be64(x: u64) -> Seq<u8> {
    seq![
        low(x >> 56),
        low(x >> 48),
        low(x >> 40),
        low(x >> 32),
        low(x >> 24),
        low(x >> 16),
        low(x >> 8),
        low(x),
    ]
}

/// `p` with each byte XORed with the key byte that its position, modulo
/// four, selects. Masking and unmasking are this one operation.
pub open spec fn masked(p: Seq<u8>, key: u32) -> Seq<u8> {
    Seq::new(p.len(), |i: int| p[i] ^ key_bytes(key)[i % 4])
}

proof fn lemma_xor_twice(a: u8, b: u8)
    ensures
        (a ^ b) ^ b == a,
{
    assert((a ^ b) ^ b == a) by (bit_vector);
}

/// Masking twice with one key gives the payload back.
pub proof fn lemma_mask_involution(p: Seq<u8>, key: u32)
    ensures
        masked(masked(p, key), key) == p,
{
    assert forall|i: int| 0 <= i < p.len() implies masked(masked(p, key), key)[i] == p[i] by {
        lemma_xor_twice(p[i], key_bytes(key)[i % 4]);
    }
    assert(masked(masked(p, key), key) =~= p);
}

fn key_array(key: u32) -> (r: [u8; 4])
    ensures
        r@ == key_bytes(key),
{
    let k = key as u64;
    let r = [low_byte(k >> 24), low_byte(k >> 16), low_byte(k >> 8), low_byte(k)];
    assert(r@ =~= key_bytes(key));
    r
}

/// Returns `p` masked with `key`.
pub fn mask_payload(p: &[u8], key: u32) -> (r: Vec<u8>)
    ensures
        r@ == masked(p@, key),
{
    let kb = key_array(key);
    let mut out: Vec<u8> = Vec::new();
    let mut i: usize = 0;
    while i < p.len()
        invariant
            0 <= i <= p@.len(),
            kb@ == key_bytes(key),
            out@ == masked(p@, key).take(i as int),
        decreases p@.len() - i,
    {
        let nb: u8 = p[i] ^ kb[i % 4];
        out.push(nb);
        assert(out@ =~= masked(p@, key).take(i + 1));
        i = i + 1;
    }
    assert(masked(p@, key).take(i as int) =~= masked(p@, key));
    out
}

// ------------------------------------------------------------------ frames --

/// One frame. The payload is held unmasked.
#[derive(Debug)]
pub struct WebSocketFrame {
    size_kind: SizeKind,
    ops: u8,
    plen: u64,
    mkey: Option<u32>,
    payload: Vec<u8>,
}

/// What a frame holds.
pub struct FrameView {
    pub size_kind: SizeKind,
    /// FIN, three reserved bits, and the opcode in the low four bits.
    pub ops: u8,
    /// The payload length that the frame declares.
    pub plen: u64,
    pub mkey: Option<u32>,
    pub payload: Seq<u8>,
}

impl FrameView {
    /// The frame that a size class starts from.
    pub open spec fn blank(kind: SizeKind) -> FrameView {
        FrameView { size_kind: kind, ops: 0, plen: 0, mkey: None, payload: Seq::empty() }
    }

    /// The byte that follows the opcode byte: the mask bit and the length,
    /// or the mark of a longer length field.
    pub open spec fn second_byte(self) -> u8 {
        let base: u8 = match self.size_kind {
            SizeKind::S => low(self.plen),
            SizeKind::M => 126,
            SizeKind::L => 127,
        };
        if self.mkey.is_some() {
            base | 0x80
        } else {
            base
        }
    }

    /// The length field behind the second byte.
    pub open spec fn extended_len(self) -> Seq<u8> {
        match self.size_kind {
            SizeKind::S => Seq::empty(),
            SizeKind::M => be16(self.plen),
            SizeKind::L => be64(self.plen),
        }
    }

    /// The frame on the wire: opcode byte, length, and then either the
    /// payload or the key and the masked payload.
    pub open spec fn wire(self) -> Seq<u8> {
        seq![self.ops, self.second_byte()] + self.extended_len() + match self.mkey {
            Some(k) => key_bytes(k) + masked(self.payload, k),
            None => self.payload,
        }
    }

    /// Whether the frame declares no more than its size class can, and
    /// holds as many payload bytes as it declares.
    pub open spec fn wf(self) -> bool {
        self.plen <= cap(self.size_kind) && self.payload.len() == self.plen
    }

    /// Whether FIN is set.
    pub open spec fn fin(self) -> bool {
        self.ops & 0x80 == 0x80
    }

    /// The opcode: the low four bits of the first byte.
    pub open spec fn opcode(self) -> u8 {
        self.ops & 0x0f
    }
}

impl View for WebSocketFrame {
    type V = FrameView;

    closed spec fn view(&self) -> FrameView {
        FrameView {
            size_kind: self.size_kind,
            ops: self.ops,
            plen: self.plen,
            mkey: self.mkey,
            payload: self.payload@,
        }
    }
}

impl WebSocketFrame {
    /// A frame of the large size class with nothing in it.
    pub fn new() -> (r: Self)
        ensures
            r@ == FrameView::blank(SizeKind::L),
    {
        WebSocketFrame { size_kind: SizeKind::L, ops: 0, plen: 0, mkey: None, payload: Vec::new() }
    }

    /// A frame of the smallest allowed size class that can declare
    /// `actual_flen` bytes. `kinds` says whether the small, the medium and
    /// the large class are allowed, in this order.
    pub fn with_size_kinds(kinds: [bool; 3], actual_flen: usize) -> (r: Result<
        WebSocketFrame,
        WspError,
    >)
        ensures
            match r {
                Ok(f) => smallest_kind(kinds, actual_flen as int) == Some(f@.size_kind) && f@
                    == FrameView::blank(f@.size_kind),
                Err(e) => smallest_kind(kinds, actual_flen as int).is_none() && e
                    == WspError::SizeKindNotFound,
            },
    {
        let allow_s = kinds[0];
        let allow_m = kinds[1];
        let allow_l = kinds[2];
        let kind = if allow_s && actual_flen <= 125 {
            SizeKind::S
        } else if allow_m && actual_flen <= 65535 {
            SizeKind::M
        } else if allow_l {
            SizeKind::L
        } else {
            return Err(WspError::SizeKindNotFound);
        };
        Ok(WebSocketFrame { size_kind: kind, ops: 0, plen: 0, mkey: None, payload: Vec::new() })
    }

    /// Sets FIN.
    pub fn set_fin(&mut self) -> (ret: &mut Self)
        ensures
            ret@ == (FrameView { ops: old(self)@.ops | 0x80, ..old(self)@ }),
            *final(self) == *final(ret),
    {
        self.ops = self.ops | 0x80;
        self
    }

    /// Makes the opcode that of a close.
    pub fn set_close(&mut self) -> (ret: &mut Self)
        ensures
            ret@ == (FrameView { ops: (old(self)@.ops & 0xf0) | 0x08, ..old(self)@ }),
            *final(self) == *final(ret),
    {
        self.ops = (self.ops & 0xf0) | 0x08;
        self
    }

    /// Makes the opcode that of a ping.
    pub fn set_ping(&mut self) -> (ret: &mut Self)
        ensures
            ret@ == (FrameView { ops: (old(self)@.ops & 0xf0) | 0x09, ..old(self)@ }),
            *final(self) == *final(ret),
    {
        self.ops = (self.ops & 0xf0) | 0x09;
        self
    }

    /// Makes the opcode that of a pong.
    pub fn set_pong(&mut self) -> (ret: &mut Self)
        ensures
            ret@ == (FrameView { ops: (old(self)@.ops & 0xf0) | 0x0a, ..old(self)@ }),
            *final(self) == *final(ret),
    {
        self.ops = (self.ops & 0xf0) | 0x0a;
        self
    }

    /// Makes the opcode that of a text frame.
    pub fn set_text_frame(&mut self) -> (ret: &mut Self)
        ensures
            ret@ == (FrameView { ops: (old(self)@.ops & 0xf0) | 0x01, ..old(self)@ }),
            *final(self) == *final(ret),
    {
        self.ops = (self.ops & 0xf0) | 0x01;
        self
    }

    /// Makes the opcode that of a binary frame.
    pub fn set_binary_frame(&mut self) -> (ret: &mut Self)
        ensures
            ret@ == (FrameView { ops: (old(self)@.ops & 0xf0) | 0x02, ..old(self)@ }),
            *final(self) == *final(ret),
    {
        self.ops = (self.ops & 0xf0) | 0x02;
        self
    }

    /// Whether the frame is a masked one.
    pub fn is_mask(&self) -> (r: bool)
        ensures
            r == self@.mkey.is_some(),
    {
        self.mkey.is_some()
    }

    /// Makes the frame a masked one, with the client's fixed key.
    pub fn set_mask(&mut self) -> (ret: &mut Self)
        ensures
            ret@ == (FrameView { mkey: Some(FIXED_MASK_KEY), ..old(self)@ }),
            *final(self) == *final(ret),
    {
        self.mkey = Some(FIXED_MASK_KEY);
        self
    }

    /// Declares a payload length, which the size class must be able to hold.
    pub fn set_plen(&mut self, len: usize) -> (r: Result<&mut Self, WspError>)
        ensures
            match r {
                Ok(ret) => len <= cap(old(self)@.size_kind) && ret@ == (FrameView {
                    plen: len as u64,
                    ..old(self)@
                }) && *final(self) == *final(ret),
                Err(e) => len > cap(old(self)@.size_kind) && e == WspError::InsufficientSize
                    && *final(self) == *old(self),
            },
    {
        match self.size_kind {
            SizeKind::S => {
                if len > 125 {
                    return Err(WspError::InsufficientSize);
                }
            },
            SizeKind::M => {
                if len > 65535 {
                    return Err(WspError::InsufficientSize);
                }
            },
            SizeKind::L => {},
        }
        self.plen = len as u64;
        Ok(self)
    }

    /// Adds `bytes` to the payload, which must not outgrow what the size
    /// class can declare. A payload that would outgrow it is refused, and
    /// the frame stays as it was.
    pub fn set_payload(&mut self, bytes: &[u8]) -> (r: Result<&mut Self, WspError>)
        ensures
            match r {
                Ok(ret) => old(self)@.payload.len() + bytes@.len() <= cap(old(self)@.size_kind)
                    && ret@ == (FrameView {
                    payload: old(self)@.payload + bytes@,
                    ..old(self)@
                }) && *final(self) == *final(ret),
                Err(e) => old(self)@.payload.len() + bytes@.len() > cap(old(self)@.size_kind)
                    && e == WspError::InsufficientSize && *final(self) == *old(self),
            },
    {
        let len = bytes.len() as u64;
        let held = self.payload.len() as u64;
        let most: u64 = match self.size_kind {
            SizeKind::S => 125,
            SizeKind::M => 65535,
            SizeKind::L => u64::MAX,
        };
        if held > most || len > most - held {
            return Err(WspError::InsufficientSize);
        }
        append(&mut self.payload, bytes);
        Ok(self)
    }

    /// The frame as it goes on the wire.
    pub fn to_vec(&self) -> (r: Vec<u8>)
        ensures
            r@ == self@.wire(),
    {
        let mut ret: Vec<u8> = Vec::new();
        ret.push(self.ops);
        let flag: u8 = if self.is_mask() {
            0x80
        } else {
            0
        };
        match self.size_kind {
            SizeKind::S => {
                ret.push(low_byte(self.plen) | flag);
            },
            SizeKind::M => {
                ret.push(126u8 | flag);
                ret.push(low_byte(self.plen >> 8));
                ret.push(low_byte(self.plen));
            },
            SizeKind::L => {
                ret.push(127u8 | flag);
                ret.push(low_byte(self.plen >> 56));
                ret.push(low_byte(self.plen >> 48));
                ret.push(low_byte(self.plen >> 40));
                ret.push(low_byte(self.plen >> 32));
                ret.push(low_byte(self.plen >> 24));
                ret.push(low_byte(self.plen >> 16));
                ret.push(low_byte(self.plen >> 8));
                ret.push(low_byte(self.plen));
            },
        }
        proof {
            assert(forall|b: u8| b | 0 == b) by (bit_vector);
            assert(ret@ =~= seq![self@.ops, self@.second_byte()] + self@.extended_len());
        }
        match self.mkey {
            Some(k) => {
                let kb = key_array(k);
                ret.push(kb[0]);
                ret.push(kb[1]);
                ret.push(kb[2]);
                ret.push(kb[3]);
                let m = mask_payload(self.payload.as_slice(), k);
                append(&mut ret, m.as_slice());
            },
            None => {
                append(&mut ret, self.payload.as_slice());
            },
        }
        assert(ret@ =~= self@.wire());
        ret
    }
}


// ---------------------------------------------------------------- messages --

/// A message: its frames in order, and the size classes that its frames
/// may use.
#[derive(Debug)]
pub struct WebSocketMessage {
    size_kinds: [bool; 3],
    frames: Vec<WebSocketFrame>,
}

/// What a message holds.
pub struct MessageView {
    /// Whether the small, the medium and the large class are allowed.
    pub size_kinds: [bool; 3],
    pub frames: Seq<FrameView>,
}

/// How a message is to be encoded: what the settings ask for, the later
/// of two that contradict each other taking effect.
pub struct Plan {
    pub text: bool,
    pub ping: bool,
    pub pong: bool,
    pub mask: bool,
    pub max_flen: usize,
}

/// The plan that a list of settings makes, starting from a binary message
/// without ping, pong or mask, in frames of at most `default_max` bytes.
pub open spec fn plan_of(setts: Seq<WspSett>, default_max: usize) -> Plan
    decreases setts.len(),
{
    if setts.len() == 0 {
        Plan { text: false, ping: false, pong: false, mask: false, max_flen: default_max }
    } else {
        let p = plan_of(setts.drop_last(), default_max);
        match setts.last() {
            WspSett::TextMsg => Plan { text: true, ..p },
            WspSett::BinaryMsg => Plan { text: false, ..p },
            WspSett::Ping => Plan { ping: true, ..p },
            WspSett::Pong => Plan { pong: true, ..p },
            WspSett::Mask => Plan { mask: true, ..p },
            WspSett::MaxFrameLen(ml) => Plan { max_flen: ml, ..p },
        }
    }
}

/// The opcode of the first frame of a message: pong or ping where asked
/// for, else text or binary.
pub open spec fn first_opcode(p: Plan) -> u8 {
    if p.pong {
        0x0a
    } else if p.ping {
        0x09
    } else if p.text {
        0x01
    } else {
        0x02
    }
}

/// The longest frame of a message for which no length was asked: the cap
/// of the smallest allowed class, and 0 where none is allowed.
pub open spec fn default_max_flen(kinds: [bool; 3]) -> usize {
    if kinds[0] {
        125
    } else if kinds[1] {
        65535
    } else if kinds[2] {
        usize::MAX
    } else {
        0
    }
}

/// The frame that carries `chunk`, as the first frame of its message or a
/// later one, and as the last or an earlier one.
pub open spec fn frame_for(chunk: Seq<u8>, p: Plan, kinds: [bool; 3], first: bool, last: bool) -> FrameView {
    let opcode: u8 = if first {
        first_opcode(p)
    } else {
        0
    };
    FrameView {
        size_kind: match smallest_kind(kinds, chunk.len() as int) {
            Some(k) => k,
            None => SizeKind::L,
        },
        ops: if last {
            opcode | 0x80
        } else {
            opcode
        },
        plen: chunk.len() as u64,
        mkey: if p.mask {
            Some(FIXED_MASK_KEY)
        } else {
            None
        },
        payload: chunk,
    }
}

/// The frames that carry `data`: each but the last holds `p.max_flen`
/// bytes, and the last holds what is left.
pub open spec fn framed(data: Seq<u8>, p: Plan, kinds: [bool; 3], first: bool) -> Seq<FrameView>
    decreases data.len(),
{
    if p.max_flen == 0 || data.len() <= p.max_flen {
        seq![frame_for(data, p, kinds, first, true)]
    } else {
        seq![frame_for(data.take(p.max_flen as int), p, kinds, first, false)] + framed(
            data.skip(p.max_flen as int),
            p,
            kinds,
            false,
        )
    }
}

/// The payloads of the frames in a row.
pub open spec fn payloads(frames: Seq<FrameView>) -> Seq<u8>
    decreases frames.len(),
{
    if frames.len() == 0 {
        Seq::empty()
    } else {
        frames.first().payload + payloads(frames.drop_first())
    }
}

/// The frames in a row, each as it goes on the wire.
pub open spec fn wires(frames: Seq<FrameView>) -> Seq<u8>
    decreases frames.len(),
{
    if frames.len() == 0 {
        Seq::empty()
    } else {
        frames.first().wire() + wires(frames.drop_first())
    }
}

proof fn lemma_opcode_bits(p: Plan)
    ensures
        first_opcode(p) & 0x80 == 0,
        first_opcode(p) & 0x0f == first_opcode(p),
        (first_opcode(p) | 0x80) & 0x80 == 0x80,
        (first_opcode(p) | 0x80) & 0x0f == first_opcode(p),
        0u8 & 0x80 == 0,
        0u8 & 0x0f == 0,
        (0u8 | 0x80) & 0x80 == 0x80,
        (0u8 | 0x80) & 0x0f == 0,
{
    let c = first_opcode(p);
    assert(c <= 0x0a);
    assert(c <= 0x0a ==> c & 0x80 == 0 && c & 0x0f == c && (c | 0x80) & 0x80 == 0x80 && (c | 0x80)
        & 0x0f == c) by (bit_vector);
    assert(0u8 & 0x80 == 0 && 0u8 & 0x0f == 0 && (0u8 | 0x80) & 0x80 == 0x80 && (0u8 | 0x80) & 0x0f
        == 0) by (bit_vector);
}

/// Fragmentation: `data`, not empty, cut into frames of at most
/// `p.max_flen` bytes, comes in as many frames as the length divided by
/// `p.max_flen`, rounded up. The last frame, and no other, has FIN set. The
/// first carries the opcode of the message, and every other the opcode 0.
/// No frame holds more than `p.max_flen` bytes, each declares what it
/// holds, and the payloads in a row are `data`.
pub proof fn lemma_fragmentation(data: Seq<u8>, p: Plan, kinds: [bool; 3], first: bool, i: int)
    requires
        p.max_flen > 0,
        data.len() > 0,
        data.len() <= usize::MAX,
        0 <= i < framed(data, p, kinds, first).len(),
    ensures
        framed(data, p, kinds, first).len() == (data.len() + p.max_flen - 1) / (p.max_flen as int),
        framed(data, p, kinds, first)[i].fin() <==> i == framed(data, p, kinds, first).len() - 1,
        framed(data, p, kinds, first)[i].opcode() == if i == 0 && first {
            first_opcode(p)
        } else {
            0
        },
        framed(data, p, kinds, first)[i].payload.len() <= p.max_flen,
        framed(data, p, kinds, first)[i].plen == framed(data, p, kinds, first)[i].payload.len(),
        payloads(framed(data, p, kinds, first)) == data,
    decreases data.len(),
{
    let m = p.max_flen as int;
    let n = data.len() as int;
    lemma_opcode_bits(p);
    if n <= m {
        assert((n + m - 1) / m == 1) by (nonlinear_arith)
            requires
                0 < n <= m,
        ;
        let fs = framed(data, p, kinds, first);
        assert(fs.len() == 1);
        assert(fs.drop_first() =~= Seq::<FrameView>::empty());
        assert(payloads(fs.drop_first()) =~= Seq::<u8>::empty());
        assert(fs.first().payload == data);
        assert(payloads(fs) =~= data);
    } else {
        let head = frame_for(data.take(m), p, kinds, first, false);
        let rest = framed(data.skip(m), p, kinds, false);
        let fs = framed(data, p, kinds, first);
        assert(fs =~= seq![head] + rest);
        assert(fs.drop_first() =~= rest);
        lemma_fragmentation(data.skip(m), p, kinds, false, 0);
        if i > 0 {
            lemma_fragmentation(data.skip(m), p, kinds, false, i - 1);
            assert(fs[i] == rest[i - 1]);
        }
        assert((n + m - 1) / m == (n - m + m - 1) / m + 1) by (nonlinear_arith)
            requires
                m > 0,
        ;
        assert(payloads(fs) =~= data.take(m) + data.skip(m));
        assert(data.take(m) + data.skip(m) =~= data);
    }
}

impl View for WebSocketMessage {
    type V = MessageView;

    closed spec fn view(&self) -> MessageView {
        MessageView {
            size_kinds: self.size_kinds,
            frames: Seq::new(self.frames@.len(), |i: int| self.frames@[i]@),
        }
    }
}

impl WebSocketMessage {
    /// A message without frames, for which no size class is allowed yet.
    pub fn new() -> (r: Self)
        ensures
            r@.size_kinds == [false, false, false],
            r@.frames == Seq::<FrameView>::empty(),
    {
        let r = WebSocketMessage { size_kinds: [false, false, false], frames: Vec::new() };
        assert(r@.frames =~= Seq::<FrameView>::empty());
        r
    }

    /// Allows frames of the small size class.
    pub fn allow_small(&mut self) -> (ret: &mut Self)
        ensures
            ret@.size_kinds == [true, old(self)@.size_kinds[1], old(self)@.size_kinds[2]],
            ret@.frames == old(self)@.frames,
            *final(self) == *final(ret),
    {
        self.size_kinds = [true, self.size_kinds[1], self.size_kinds[2]];
        self
    }

    /// Allows frames of the medium size class.
    pub fn allow_medium(&mut self) -> (ret: &mut Self)
        ensures
            ret@.size_kinds == [old(self)@.size_kinds[0], true, old(self)@.size_kinds[2]],
            ret@.frames == old(self)@.frames,
            *final(self) == *final(ret),
    {
        self.size_kinds = [self.size_kinds[0], true, self.size_kinds[2]];
        self
    }

    /// Allows frames of the large size class.
    pub fn allow_large(&mut self) -> (ret: &mut Self)
        ensures
            ret@.size_kinds == [old(self)@.size_kinds[0], old(self)@.size_kinds[1], true],
            ret@.frames == old(self)@.frames,
            *final(self) == *final(ret),
    {
        self.size_kinds = [self.size_kinds[0], self.size_kinds[1], true];
        self
    }

    /// How many frames the message has.
    pub fn frame_count(&self) -> (r: usize)
        ensures
            r == self@.frames.len(),
    {
        self.frames.len()
    }

    /// The frame at `i`, if there is one.
    pub fn frame(&self, i: usize) -> (r: Option<&WebSocketFrame>)
        ensures
            match r {
                Some(f) => i < self@.frames.len() && f@ == self@.frames[i as int],
                None => i >= self@.frames.len(),
            },
    {
        if i < self.frames.len() {
            Some(&self.frames[i])
        } else {
            None
        }
    }

    /// The message as it goes on the wire: its frames in a row.
    pub fn to_vec(&self) -> (r: Vec<u8>)
        ensures
            r@ == wires(self@.frames),
    {
        let mut big_buf: Vec<u8> = Vec::new();
        let mut i: usize = 0;
        let n = self.frames.len();
        let ghost fs = self@.frames;
        assert(fs.skip(0) =~= fs);
        while i < n
            invariant
                0 <= i <= n,
                n == self.frames@.len(),
                fs == self@.frames,
                big_buf@ + wires(fs.skip(i as int)) == wires(fs),
            decreases n - i,
        {
            let w = self.frames[i].to_vec();
            proof {
                assert(fs.skip(i as int).first() == self.frames@[i as int]@);
                assert(fs.skip(i as int).drop_first() =~= fs.skip(i + 1));
                assert((big_buf@ + w@) + wires(fs.skip(i + 1)) =~= big_buf@ + (w@ + wires(
                    fs.skip(i + 1),
                )));
            }
            append(&mut big_buf, w.as_slice());
            i = i + 1;
        }
        assert(big_buf@ + wires(fs.skip(n as int)) =~= big_buf@);
        big_buf
    }

    /// The longest frame of a message for which no length is asked.
    pub fn get_default_max_flen(&self) -> (r: usize)
        ensures
            r == default_max_flen(self@.size_kinds),
    {
        if self.size_kinds[0] {
            125
        } else if self.size_kinds[1] {
            65535
        } else if self.size_kinds[2] {
            usize::MAX
        } else {
            0
        }
    }

    /// The data of the message: the payloads of its frames in a row.
    pub fn get_message_data(&self) -> (r: Result<Vec<u8>, WspError>)
        ensures
            r matches Ok(v) && v@ == payloads(self@.frames),
    {
        let mut ret: Vec<u8> = Vec::new();
        let mut i: usize = 0;
        let n = self.frames.len();
        let ghost fs = self@.frames;
        assert(fs.skip(0) =~= fs);
        while i < n
            invariant
                0 <= i <= n,
                n == self.frames@.len(),
                fs == self@.frames,
                ret@ + payloads(fs.skip(i as int)) == payloads(fs),
            decreases n - i,
        {
            proof {
                assert(fs.skip(i as int).first() == self.frames@[i as int]@);
                assert(fs.skip(i as int).drop_first() =~= fs.skip(i + 1));
                assert((ret@ + self.frames@[i as int].payload@) + payloads(fs.skip(i + 1)) =~= ret@
                    + (self.frames@[i as int].payload@ + payloads(fs.skip(i + 1))));
            }
            append(&mut ret, self.frames[i].payload.as_slice());
            i = i + 1;
        }
        assert(ret@ + payloads(fs.skip(n as int)) =~= ret@);
        Ok(ret)
    }
}


/// Why a payload cannot be encoded under a plan, if it cannot: the frame
/// length is 0, the payload is empty, or no allowed size class can declare
/// the first frame.
pub open spec fn refusal(total: int, p: Plan, kinds: [bool; 3]) -> Option<WspError> {
    if p.max_flen == 0 {
        Some(WspError::InvalidMaxFrameLen)
    } else if total == 0 {
        Some(WspError::InvalidDataLen)
    } else if smallest_kind(kinds, if total <= p.max_flen { total } else { p.max_flen as int }).is_none() {
        Some(WspError::SizeKindNotFound)
    } else {
        None
    }
}

fn make_plan(setts: &Vec<WspSett>, default_max: usize) -> (r: Plan)
    ensures
        r == plan_of(setts@, default_max),
{
    let mut p = Plan { text: false, ping: false, pong: false, mask: false, max_flen: default_max };
    let mut i: usize = 0;
    assert(setts@.take(0) =~= Seq::<WspSett>::empty());
    while i < setts.len()
        invariant
            0 <= i <= setts@.len(),
            p == plan_of(setts@.take(i as int), default_max),
        decreases setts@.len() - i,
    {
        assert(setts@.take(i + 1).drop_last() =~= setts@.take(i as int));
        assert(setts@.take(i + 1).last() == setts@[i as int]);
        match setts[i] {
            WspSett::TextMsg => {
                p.text = true;
            },
            WspSett::BinaryMsg => {
                p.text = false;
            },
            WspSett::Ping => {
                p.ping = true;
            },
            WspSett::Pong => {
                p.pong = true;
            },
            WspSett::Mask => {
                p.mask = true;
            },
            WspSett::MaxFrameLen(ml) => {
                p.max_flen = ml;
            },
        }
        i = i + 1;
    }
    assert(setts@.take(i as int) =~= setts@);
    p
}

impl WebSocketMessage {
    /// Cuts `bin_data` into frames as `setts` ask and adds them to the
    /// message. A refused payload leaves the message as it was.
    pub fn set_message_data(&mut self, bin_data: &[u8], setts: Vec<WspSett>) -> (r: Result<
        (),
        WspError,
    >)
        ensures
            ({
                let kinds = old(self)@.size_kinds;
                let p = plan_of(setts@, default_max_flen(kinds));
                match refusal(bin_data@.len() as int, p, kinds) {
                    Some(e) => r == Err::<(), WspError>(e) && *final(self) == *old(self),
                    None => r.is_ok() && final(self)@ == (MessageView {
                        frames: old(self)@.frames + framed(bin_data@, p, kinds, true),
                        ..old(self)@
                    }),
                }
            }),
    {
        let total = bin_data.len();
        let kinds = self.size_kinds;
        let p = make_plan(&setts, self.get_default_max_flen());
        if p.max_flen == 0 {
            return Err(WspError::InvalidMaxFrameLen);
        }
        if total == 0 {
            return Err(WspError::InvalidDataLen);
        }
        let first_len = if total <= p.max_flen {
            total
        } else {
            p.max_flen
        };
        if WebSocketFrame::with_size_kinds(kinds, first_len).is_err() {
            return Err(WspError::SizeKindNotFound);
        }
        let ghost before = self@.frames;
        let ghost goal = before + framed(bin_data@, p, kinds, true);
        let mut done: usize = 0;
        assert(bin_data@.skip(0) =~= bin_data@);
        while done < total
            invariant
                0 <= done <= total,
                total == bin_data@.len(),
                p.max_flen > 0,
                kinds == self.size_kinds,
                self@.size_kinds == old(self)@.size_kinds,
                smallest_kind(kinds, first_len as int).is_some(),
                first_len <= p.max_flen,
                first_len <= total,
                goal == before + framed(bin_data@, p, kinds, true),
                done < total ==> goal == self@.frames + framed(
                    bin_data@.skip(done as int),
                    p,
                    kinds,
                    done == 0,
                ),
                done == total ==> goal == self@.frames,
            decreases total - done,
        {
            let rest_len = total - done;
            let last = rest_len <= p.max_flen;
            let n = if last {
                rest_len
            } else {
                p.max_flen
            };
            let first = done == 0;
            let kind = if kinds[0] && n <= 125 {
                SizeKind::S
            } else if kinds[1] && n <= 65535 {
                SizeKind::M
            } else {
                SizeKind::L
            };
            let opcode: u8 = if !first {
                0
            } else if p.pong {
                0x0a
            } else if p.ping {
                0x09
            } else if p.text {
                0x01
            } else {
                0x02
            };
            let f = WebSocketFrame {
                size_kind: kind,
                ops: if last {
                    opcode | 0x80
                } else {
                    opcode
                },
                plen: n as u64,
                mkey: if p.mask {
                    Some(FIXED_MASK_KEY)
                } else {
                    None
                },
                payload: copy_range(bin_data, done, done + n),
            };
            proof {
                let tail = bin_data@.skip(done as int);
                let chunk = bin_data@.subrange(done as int, done + n);
                assert(tail.take(n as int) =~= chunk);
                assert(last ==> tail =~= chunk);
                assert(tail.skip(n as int) =~= bin_data@.skip(done + n));
                assert(f@ == frame_for(chunk, p, kinds, first, last));
                let ghost_frames = self@.frames;
                if last {
                    assert(framed(tail, p, kinds, first) =~= seq![f@]);
                    assert(goal =~= ghost_frames.push(f@));
                } else {
                    assert(framed(tail, p, kinds, first) =~= seq![f@] + framed(
                        bin_data@.skip(done + n),
                        p,
                        kinds,
                        false,
                    ));
                    assert(goal =~= ghost_frames.push(f@) + framed(
                        bin_data@.skip(done + n),
                        p,
                        kinds,
                        false,
                    ));
                }
            }
            let ghost prev = self@.frames;
            self.frames.push(f);
            assert(self@.frames =~= prev.push(f@));
            done = done + n;
        }
        Ok(())
    }
}


// ---------------------------------------------------------------- decoding --

/// How far a decoder got with the bytes it was given.
pub enum Framing<T> {
    /// The frame is not complete: at least this many more bytes belong to it.
    Need(usize),
    /// The frame declares a payload that cannot be held.
    Bad(WspError),
    /// What was decoded, and where the bytes behind it start.
    Done(T, usize),
}

/// The number that two bytes denote, the high byte first.
pub open spec fn from_be16(b: Seq<u8>) -> u64 {
    (b[0] as u64) << 8 | (b[1] as u64)
}

/// The number that four bytes denote, the high byte first.
pub open spec fn from_be32(b: Seq<u8>) -> u32 {
    (b[0] as u32) << 24 | (b[1] as u32) << 16 | (b[2] as u32) << 8 | (b[3] as u32)
}

/// The number that eight bytes denote, the high byte first.
pub open spec fn from_be64(b: Seq<u8>) -> u64 {
    (b[0] as u64) << 56 | (b[1] as u64) << 48 | (b[2] as u64) << 40 | (b[3] as u64) << 32 | (
    b[4] as u64) << 24 | (b[5] as u64) << 16 | (b[6] as u64) << 8 | (b[7] as u64)
}

/// The length of a frame's header: the two leading bytes, the longer
/// length field where the second byte marks one, and the key of a masked
/// frame.
pub open spec fn header_len(second: u8) -> int {
    2 + (if second & 0x7f == 126 {
        2int
    } else if second & 0x7f == 127 {
        8int
    } else {
        0int
    }) + (if second & 0x80 == 0x80 {
        4int
    } else {
        0int
    })
}

/// The frame that starts at `at` in the bytes `s`.
///
/// The first byte is the opcode byte. The second holds the mask bit and
/// seven bits of length, where 126 and 127 stand for a length field of two
/// and of eight bytes behind it. A masked frame carries its key next. The
/// payload follows, and is unmasked where the frame is masked.
pub open spec fn frame_at(s: Seq<u8>, at: int) -> Framing<FrameView> {
    let avail = s.len() - at;
    if avail < 2 {
        Framing::Need((2 - avail) as usize)
    } else {
        let second = s[at + 1];
        let hint = second & 0x7f;
        let hdr = header_len(second);
        if avail < hdr {
            Framing::Need((hdr - avail) as usize)
        } else {
            let plen: u64 = if hint == 126 {
                from_be16(s.subrange(at + 2, at + 4))
            } else if hint == 127 {
                from_be64(s.subrange(at + 2, at + 10))
            } else {
                hint as u64
            };
            let mkey = if second & 0x80 == 0x80 {
                Some(from_be32(s.subrange(at + hdr - 4, at + hdr)))
            } else {
                None
            };
            if plen > usize::MAX {
                Framing::Bad(WspError::InvalidDataLen)
            } else if avail - hdr < plen {
                Framing::Need((plen - (avail - hdr)) as usize)
            } else {
                let raw = s.subrange(at + hdr, at + hdr + plen);
                Framing::Done(
                    FrameView {
                        size_kind: if hint == 126 {
                            SizeKind::M
                        } else if hint == 127 {
                            SizeKind::L
                        } else {
                            SizeKind::S
                        },
                        ops: s[at],
                        plen,
                        mkey,
                        payload: match mkey {
                            Some(k) => masked(raw, k),
                            None => raw,
                        },
                    },
                    (at + hdr + plen) as usize,
                )
            }
        }
    }
}

/// The frames of the message that starts at `at` in the bytes `s`: frame
/// after frame, up to the first with FIN set.
pub open spec fn message_at(s: Seq<u8>, at: int) -> Framing<Seq<FrameView>>
    decreases s.len() - at,
{
    if at < 0 {
        Framing::Need(1)
    } else {
        match frame_at(s, at) {
            Framing::Need(k) => Framing::Need(k),
            Framing::Bad(e) => Framing::Bad(e),
            Framing::Done(f, next) => if f.fin() || next <= at {
                Framing::Done(seq![f], next)
            } else {
                match message_at(s, next as int) {
                    Framing::Need(k) => Framing::Need(k),
                    Framing::Bad(e) => Framing::Bad(e),
                    Framing::Done(fs, end) => Framing::Done(seq![f] + fs, end),
                }
            },
        }
    }
}

proof fn lemma_length_bits(x: u64)
    ensures
        x <= 125 ==> low(x) & 0x7f == x && (low(x) | 0x80) & 0x7f == x && low(x) & 0x80 == 0 && (
        low(x) | 0x80) & 0x80 == 0x80,
        126u8 & 0x7f == 126 && (126u8 | 0x80) & 0x7f == 126 && 126u8 & 0x80 == 0 && (126u8 | 0x80)
            & 0x80 == 0x80,
        127u8 & 0x7f == 127 && (127u8 | 0x80) & 0x7f == 127 && 127u8 & 0x80 == 0 && (127u8 | 0x80)
            & 0x80 == 0x80,
        x <= 65535 ==> ((low(x >> 8) as u64) << 8 | (low(x) as u64)) == x,
        ((low(x >> 56) as u64) << 56 | (low(x >> 48) as u64) << 48 | (low(x >> 40) as u64) << 40 | (
        low(x >> 32) as u64) << 32 | (low(x >> 24) as u64) << 24 | (low(x >> 16) as u64) << 16 | (
        low(x >> 8) as u64) << 8 | (low(x) as u64)) == x,
{
    assert(x <= 125 ==> ((x & 0xff) as u8) & 0x7f == x && (((x & 0xff) as u8) | 0x80) & 0x7f == x
        && ((x & 0xff) as u8) & 0x80 == 0 && (((x & 0xff) as u8) | 0x80) & 0x80 == 0x80)
        by (bit_vector);
    assert(126u8 & 0x7f == 126 && (126u8 | 0x80) & 0x7f == 126 && 126u8 & 0x80 == 0 && (126u8
        | 0x80) & 0x80 == 0x80) by (bit_vector);
    assert(127u8 & 0x7f == 127 && (127u8 | 0x80) & 0x7f == 127 && 127u8 & 0x80 == 0 && (127u8
        | 0x80) & 0x80 == 0x80) by (bit_vector);
    assert(x <= 65535 ==> (((((x >> 8) & 0xff) as u8) as u64) << 8 | (((x & 0xff) as u8) as u64))
        == x) by (bit_vector);
    assert((((((x >> 56) & 0xff) as u8) as u64) << 56 | ((((x >> 48) & 0xff) as u8) as u64) << 48
        | ((((x >> 40) & 0xff) as u8) as u64) << 40 | ((((x >> 32) & 0xff) as u8) as u64) << 32 | (
    (((x >> 24) & 0xff) as u8) as u64) << 24 | ((((x >> 16) & 0xff) as u8) as u64) << 16 | ((((x
        >> 8) & 0xff) as u8) as u64) << 8 | (((x & 0xff) as u8) as u64)) == x) by (bit_vector);
}

proof fn lemma_key_bits(k: u32)
    ensures
        from_be32(key_bytes(k)) == k,
{
    let x = k as u64;
    assert(((((((x >> 24) & 0xff) as u8) as u32) << 24) | (((((x >> 16) & 0xff) as u8) as u32)
        << 16) | (((((x >> 8) & 0xff) as u8) as u32) << 8) | (((x & 0xff) as u8) as u32)) == k)
        by (bit_vector)
        requires
            x == k as u64,
    ;
}

/// A frame is read back as it was written: where the bytes that a frame
/// is written as stand behind `pre`, the frame that starts there is that
/// frame, and the bytes behind it start where its bytes end. This holds of
/// a frame that holds as many bytes as it declares and declares no more
/// than its size class can, where a `usize` can hold the position of
/// its end.
pub proof fn lemma_frame_round_trip(pre: Seq<u8>, f: FrameView, rest: Seq<u8>)
    requires
        f.wf(),
        pre.len() + f.wire().len() <= usize::MAX,
    ensures
        frame_at(pre + f.wire() + rest, pre.len() as int) == Framing::Done(
            f,
            (pre.len() + f.wire().len()) as usize,
        ),
{
    let w = f.wire();
    let s = pre + w + rest;
    let at = pre.len() as int;
    let second = f.second_byte();
    lemma_length_bits(f.plen);
    assert(s[at] == f.ops);
    assert(s[at + 1] == second);
    let ext = f.extended_len();
    let keyed = f.mkey.is_some();
    let hdr = header_len(second);
    assert(hdr == 2 + ext.len() + (if keyed { 4int } else { 0int }));
    assert(w.len() == hdr + f.payload.len());
    match f.size_kind {
        SizeKind::S => {},
        SizeKind::M => {
            assert(s.subrange(at + 2, at + 4) =~= be16(f.plen));
        },
        SizeKind::L => {
            assert(s.subrange(at + 2, at + 10) =~= be64(f.plen));
        },
    }
    match f.mkey {
        Some(k) => {
            lemma_key_bits(k);
            assert(s.subrange(at + hdr - 4, at + hdr) =~= key_bytes(k));
            assert(s.subrange(at + hdr, at + hdr + f.plen) =~= masked(f.payload, k));
            lemma_mask_involution(f.payload, k);
        },
        None => {
            assert(s.subrange(at + hdr, at + hdr + f.plen) =~= f.payload);
        },
    }
}

/// Whether frames make a message: there is one at least, each holds as
/// many bytes as it declares and declares no more than its size class
/// can, and the last, and no other, has FIN set.
pub open spec fn well_framed(fs: Seq<FrameView>) -> bool {
    fs.len() > 0 && forall|i: int|
        0 <= i < fs.len() ==> (#[trigger] fs[i]).wf() && (fs[i].fin() <==> i == fs.len() - 1)
}

/// A message is read back as it was written: where the bytes that the
/// frames of a message are written as stand behind `pre`, the message that
/// starts there is made of those frames, and the bytes behind it start
/// where their bytes end.
pub proof fn lemma_message_round_trip(pre: Seq<u8>, fs: Seq<FrameView>, rest: Seq<u8>)
    requires
        well_framed(fs),
        pre.len() + wires(fs).len() <= usize::MAX,
    ensures
        message_at(pre + wires(fs) + rest, pre.len() as int) == Framing::Done(
            fs,
            (pre.len() + wires(fs).len()) as usize,
        ),
    decreases fs.len(),
{
    let f = fs.first();
    let tail = fs.drop_first();
    let s = pre + wires(fs) + rest;
    assert(f.wf() && fs[0] == f);
    assert(s =~= pre + f.wire() + (wires(tail) + rest));
    lemma_frame_round_trip(pre, f, wires(tail) + rest);
    if fs.len() == 1 {
        assert(tail =~= Seq::<FrameView>::empty());
        assert(wires(tail) =~= Seq::<u8>::empty());
        assert(fs =~= seq![f]);
    } else {
        assert(!f.fin());
        assert forall|i: int| 0 <= i < tail.len() implies (#[trigger] tail[i]).wf() && (
        tail[i].fin() <==> i == tail.len() - 1) by {
            assert(tail[i] == fs[i + 1]);
        }
        assert(s =~= (pre + f.wire()) + wires(tail) + rest);
        lemma_message_round_trip(pre + f.wire(), tail, rest);
        assert(seq![f] + tail =~= fs);
    }
}

/// What is encoded is decoded: the frames that a payload is cut into make
/// a message, so that they are read back as they were written, and their
/// payloads in a row are the payload.
pub proof fn lemma_framed_is_well_framed(data: Seq<u8>, p: Plan, kinds: [bool; 3], first: bool)
    requires
        data.len() <= usize::MAX,
        refusal(data.len() as int, p, kinds).is_none(),
    ensures
        well_framed(framed(data, p, kinds, first)),
        payloads(framed(data, p, kinds, first)) == data,
{
    let fs = framed(data, p, kinds, first);
    lemma_fragmentation(data, p, kinds, first, 0);
    assert forall|i: int| 0 <= i < fs.len() implies (#[trigger] fs[i]).wf() && (fs[i].fin() <==> i
        == fs.len() - 1) by {
        lemma_fragmentation(data, p, kinds, first, i);
        lemma_framed_kinds(data, p, kinds, first, i);
    }
}

proof fn lemma_framed_kinds(data: Seq<u8>, p: Plan, kinds: [bool; 3], first: bool, i: int)
    requires
        data.len() <= usize::MAX,
        refusal(data.len() as int, p, kinds).is_none(),
        0 <= i < framed(data, p, kinds, first).len(),
    ensures
        framed(data, p, kinds, first)[i].plen <= cap(framed(data, p, kinds, first)[i].size_kind),
    decreases data.len(),
{
    let m = p.max_flen as int;
    if data.len() > m {
        let rest = framed(data.skip(m), p, kinds, false);
        assert(framed(data, p, kinds, first) =~= seq![
            frame_for(data.take(m), p, kinds, first, false),
        ] + rest);
        if i > 0 {
            lemma_framed_kinds(data.skip(m), p, kinds, false, i - 1);
        }
    }
}

/// A frame that was decoded stays as it is, whatever bytes arrive behind
/// it.
pub proof fn lemma_frame_stays(s: Seq<u8>, e: Seq<u8>, at: int)
    requires
        0 <= at,
        s.len() <= usize::MAX,
        frame_at(s, at) is Done,
    ensures
        frame_at(s + e, at) == frame_at(s, at),
{
    let t = s + e;
    let second = s[at + 1];
    let hdr = header_len(second);
    assert(t[at] == s[at] && t[at + 1] == s[at + 1]);
    if second & 0x7f == 126 {
        assert(t.subrange(at + 2, at + 4) =~= s.subrange(at + 2, at + 4));
    }
    if second & 0x7f == 127 {
        assert(t.subrange(at + 2, at + 10) =~= s.subrange(at + 2, at + 10));
    }
    if second & 0x80 == 0x80 {
        assert(t.subrange(at + hdr - 4, at + hdr) =~= s.subrange(at + hdr - 4, at + hdr));
    }
    let next = frame_at(s, at)->Done_1 as int;
    assert(t.subrange(at + hdr, next) =~= s.subrange(at + hdr, next));
}

/// The decoder of frames asks for no byte that is not the frame's: where
/// it asks for `k` more bytes, no fewer than `k` bytes complete the frame.
pub proof fn lemma_frame_need_is_due(s: Seq<u8>, e: Seq<u8>, at: int, k: usize)
    requires
        0 <= at <= s.len(),
        frame_at(s, at) == Framing::<FrameView>::Need(k),
        e.len() < k,
    ensures
        frame_at(s + e, at) is Need,
{
    let t = s + e;
    let avail = s.len() - at;
    if avail >= 2 {
        let second = s[at + 1];
        let hdr = header_len(second);
        assert(t[at + 1] == s[at + 1]);
        if avail >= hdr {
            if second & 0x7f == 126 {
                assert(t.subrange(at + 2, at + 4) =~= s.subrange(at + 2, at + 4));
            }
            if second & 0x7f == 127 {
                assert(t.subrange(at + 2, at + 10) =~= s.subrange(at + 2, at + 10));
            }
        }
    }
}

/// The decoder of messages asks for no byte that is not the message's.
pub proof fn lemma_message_need_is_due(s: Seq<u8>, e: Seq<u8>, at: int, k: usize)
    requires
        0 <= at <= s.len(),
        s.len() <= usize::MAX,
        message_at(s, at) == Framing::<Seq<FrameView>>::Need(k),
        e.len() < k,
    ensures
        message_at(s + e, at) is Need,
    decreases s.len() - at,
{
    match frame_at(s, at) {
        Framing::Need(_) => {
            lemma_frame_need_is_due(s, e, at, k);
        },
        Framing::Bad(_) => {},
        Framing::Done(f, next) => {
            lemma_frame_stays(s, e, at);
            if !(f.fin() || next <= at) {
                lemma_message_need_is_due(s, e, next as int, k);
            }
        },
    }
}

/// A decoder's outcome with the frame as what it holds.
pub open spec fn frame_outcome(r: Framing<WebSocketFrame>) -> Framing<FrameView> {
    match r {
        Framing::Need(k) => Framing::Need(k),
        Framing::Bad(e) => Framing::Bad(e),
        Framing::Done(f, next) => Framing::Done(f@, next),
    }
}

/// A decoder's outcome with the message as the frames it holds.
pub open spec fn message_outcome(r: Framing<WebSocketMessage>) -> Framing<Seq<FrameView>> {
    match r {
        Framing::Need(k) => Framing::Need(k),
        Framing::Bad(e) => Framing::Bad(e),
        Framing::Done(m, next) => Framing::Done(m@.frames, next),
    }
}

impl WebSocketFrame {
    /// Decodes the frame that the bytes received so far start with.
    pub fn from_bytes(input: &[u8]) -> (r: Framing<WebSocketFrame>)
        ensures
            frame_outcome(r) == frame_at(input@, 0),
            r matches Framing::Done(_, next) ==> 2 <= next <= input@.len(),
    {
        Self::decode_at(input, 0)
    }

    fn decode_at(input: &[u8], at: usize) -> (r: Framing<WebSocketFrame>)
        requires
            at <= input@.len(),
        ensures
            frame_outcome(r) == frame_at(input@, at as int),
            r matches Framing::Done(_, next) ==> at + 2 <= next <= input@.len(),
    {
        let avail = input.len() - at;
        if avail < 2 {
            return Framing::Need(2 - avail);
        }
        let ops = input[at];
        let second = input[at + 1];
        let hint = second & 0x7f;
        let is_mask = second & 0x80 == 0x80;
        let ext: usize = if hint == 126 {
            2
        } else if hint == 127 {
            8
        } else {
            0
        };
        let hdr: usize = 2 + ext + if is_mask {
            4
        } else {
            0
        };
        if avail < hdr {
            return Framing::Need(hdr - avail);
        }
        let plen: u64 = if hint == 126 {
            let b = vstd::slice::slice_subrange(input, at + 2, at + 4);
            (b[0] as u64) << 8 | (b[1] as u64)
        } else if hint == 127 {
            let b = vstd::slice::slice_subrange(input, at + 2, at + 10);
            (b[0] as u64) << 56 | (b[1] as u64) << 48 | (b[2] as u64) << 40 | (b[3] as u64) << 32
                | (b[4] as u64) << 24 | (b[5] as u64) << 16 | (b[6] as u64) << 8 | (b[7] as u64)
        } else {
            hint as u64
        };
        let mkey: Option<u32> = if is_mask {
            let b = vstd::slice::slice_subrange(input, at + hdr - 4, at + hdr);
            Some((b[0] as u32) << 24 | (b[1] as u32) << 16 | (b[2] as u32) << 8 | (b[3] as u32))
        } else {
            None
        };
        if plen > usize::MAX as u64 {
            return Framing::Bad(WspError::InvalidDataLen);
        }
        let n = plen as usize;
        if avail - hdr < n {
            return Framing::Need(n - (avail - hdr));
        }
        let start = at + hdr;
        let payload = match mkey {
            Some(k) => mask_payload(vstd::slice::slice_subrange(input, start, start + n), k),
            None => copy_range(input, start, start + n),
        };
        let kind = if hint == 126 {
            SizeKind::M
        } else if hint == 127 {
            SizeKind::L
        } else {
            SizeKind::S
        };
        Framing::Done(WebSocketFrame { size_kind: kind, ops, plen, mkey, payload }, start + n)
    }

    /// Whether FIN is set.
    pub fn is_fin(&self) -> (r: bool)
        ensures
            r == self@.fin(),
    {
        self.ops & 0x80 == 0x80
    }

    /// The payload, unmasked.
    pub fn payload(&self) -> (r: &Vec<u8>)
        ensures
            r@ == self@.payload,
    {
        &self.payload
    }

    /// The payload length that the frame declares.
    pub fn plen(&self) -> (r: u64)
        ensures
            r == self@.plen,
    {
        self.plen
    }
}

impl WebSocketMessage {
    /// Decodes the message that the bytes received so far start with. Its
    /// frames may use every size class.
    pub fn from_bytes(input: &[u8]) -> (r: Framing<WebSocketMessage>)
        ensures
            message_outcome(r) == message_at(input@, 0),
            r matches Framing::Done(m, _) ==> m@.size_kinds == [true, true, true],
    {
        let at: usize = 0;
        let mut msg = WebSocketMessage { size_kinds: [true, true, true], frames: Vec::new() };
        let mut cur: usize = at;
        assert(msg@.frames =~= Seq::<FrameView>::empty());
        loop
            invariant
                at == 0,
                at <= cur <= input@.len(),
                msg@.size_kinds == [true, true, true],
                message_at(input@, at as int) == match message_at(input@, cur as int) {
                    Framing::Need(k) => Framing::Need(k),
                    Framing::Bad(e) => Framing::Bad(e),
                    Framing::Done(fs, end) => Framing::Done(msg@.frames + fs, end),
                },
            decreases input@.len() - cur,
        {
            match WebSocketFrame::decode_at(input, cur) {
                Framing::Need(k) => {
                    return Framing::Need(k);
                },
                Framing::Bad(e) => {
                    return Framing::Bad(e);
                },
                Framing::Done(f, next) => {
                    let fin = f.is_fin();
                    let ghost prev = msg@.frames;
                    let ghost fv = f@;
                    msg.frames.push(f);
                    proof {
                        assert(msg@.frames =~= prev.push(fv));
                        assert(prev + seq![fv] =~= prev.push(fv));
                        if !fin {
                            match message_at(input@, next as int) {
                                Framing::Done(fs, end) => {
                                    assert(prev + (seq![fv] + fs) =~= prev.push(fv) + fs);
                                },
                                _ => {},
                            }
                        }
                    }
                    if fin {
                        return Framing::Done(msg, next);
                    }
                    cur = next;
                },
            }
        }
    }
}

// --------------------------------------------------------------- handshake --

/// The client's side of the opening handshake.
pub struct WebSocketHandshaker;

/// The request that opens the handshake.
pub open spec fn handshake_request(uri: Seq<char>, host: Seq<char>) -> RequestView {
    RequestView {
        method: utf8("GET"@),
        requri: utf8(uri),
        httpver: utf8("HTTP/1.1"@),
        ..RequestView::empty()
    }.with_header("Connection"@, utf8("Upgrade"@)).with_header(
        "Upgrade"@,
        utf8("websocket"@),
    ).with_header("Host"@, utf8(host)).with_header(
        "Sec-WebSocket-Key"@,
        utf8("aG93LXRvLWhhbmRzaGFrZQ=="@),
    ).with_header("Sec-WebSocket-Version"@, utf8("13"@))
}

/// Whether a status is one of the two that accept the upgrade.
pub open spec fn switching(status: Seq<u8>) -> bool {
    status == utf8("101 Switching Protocols"@) || status == utf8(
        "101 WebSocket Protocol Handshake"@,
    )
}

/// What the client makes of the server's answer: the status must be one
/// of the two that accept the upgrade, and the accept token the one that
/// belongs to the client's fixed key.
pub open spec fn handshake_verdict(status: Seq<u8>, headers: Seq<u8>) -> Result<(), WspError> {
    if !switching(status) {
        Err(WspError::HandshakeFail1)
    } else {
        match header_result(headers, "Sec-WebSocket-Accept:"@, HttpError::HeaderNotExistWsAccept) {
            Ok(acc) => if acc == utf8("GsCYk86TcY3D9uBDLZuG5FmeV3Y="@) {
                Ok(())
            } else {
                Err(WspError::HandshakeFail1)
            },
            Err(_) => Err(WspError::HandshakeFail2),
        }
    }
}

impl WebSocketHandshaker {
    /// The request that a client sends to `host` to open a WebSocket at `uri`.
    pub fn request(uri: &str, host: &str) -> (r: HttpRequestParts)
        ensures
            r@ == handshake_request(uri@, host@),
    {
        let mut req = HttpRequestParts::from_scratch();
        req.get(uri).http1p1().connection("Upgrade").upgrade("websocket").host(host).ws_key(
            "aG93LXRvLWhhbmRzaGFrZQ==",
        ).ws_ver("13");
        proof {
            assert(Seq::<u8>::empty() + utf8("GET"@) =~= utf8("GET"@));
            assert(Seq::<u8>::empty() + utf8(uri@) =~= utf8(uri@));
            assert(Seq::<u8>::empty() + utf8("HTTP/1.1"@) =~= utf8("HTTP/1.1"@));
        }
        req
    }

    /// Judges the server's answer to the opening request.
    pub fn accept(resp: &HttpResponseParts) -> (r: Result<(), WspError>)
        ensures
            r == handshake_verdict(resp@.status, resp@.headers),
    {
        let ok = match resp.get_status() {
            Ok(status_reason) => same_bytes(status_reason, "101 Switching Protocols".as_bytes())
                || same_bytes(status_reason, "101 WebSocket Protocol Handshake".as_bytes()),
            Err(_) => false,
        };
        if !ok {
            return Err(WspError::HandshakeFail1);
        }
        match resp.get_ws_accept() {
            Ok(acc) => {
                if same_bytes(acc, "GsCYk86TcY3D9uBDLZuG5FmeV3Y=".as_bytes()) {
                    Ok(())
                } else {
                    Err(WspError::HandshakeFail1)
                }
            },
            Err(_) => Err(WspError::HandshakeFail2),
        }
    }
}

} // verus!
