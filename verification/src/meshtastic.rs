//! Meshtastic serial framing: packets travel as a start byte, a big-endian
//! 16-bit length, a header byte and the protobuf payload. The reader is a byte
//! at a time state machine; the serial port and protobuf decoding stay with
//! the caller.
use vstd::prelude::*;
use crate::text::contains;
use crate::text::str_contains;

verus! {

pub const START_BYTE: u8 = 0x94;

pub const HEADER_LEN: usize = 4;

pub const MAX_PACKET_SIZE: usize = 512;

/// Most text messages kept in memory.
pub const MAX_MESSAGES: usize = 100;

/// Most positions kept in memory.
pub const MAX_POSITIONS: usize = 50;

/// The four header bytes of a packet with `len` payload bytes: the start
/// byte, the length's high and low bytes (of its low 16 bits), and 0.
pub open spec fn frame_header(len: nat) -> Seq<u8> {
    seq![START_BYTE, ((len / 256) % 256) as u8, (len % 256) as u8, 0u8]
}

/// The bytes that carry `payload` on the wire.
pub open spec fn frame_bytes(payload: Seq<u8>) -> Seq<u8> {
    frame_header(payload.len()) + payload
}

/// Frame a protobuf payload for the serial link.
pub fn frame_packet(payload: &[u8]) -> (packet: Vec<u8>)
    ensures
        packet@ == frame_bytes(payload@),
{
    let len = payload.len();
    let hi = ((len / 256) % 256) as u8;
    let lo = (len % 256) as u8;
    let mut packet: Vec<u8> = vec![START_BYTE, hi, lo, 0u8];
    let mut k: usize = 0;
    while k < len
        invariant
            len == payload.len(),
            0 <= k <= len,
            packet@ == frame_header(len as nat) + payload@.take(k as int),
        decreases len - k,
    {
        packet.push(payload[k]);
        k = k + 1;
        assert(payload@.take(k as int) =~= payload@.take(k - 1).push(payload@[k - 1]));
    }
    assert(payload@.take(len as int) =~= payload@);
    packet
}

// ── Reading frames ────────────────────────────────────────────────────────────

/// The reader's state: whether a packet is being read, how many bytes of it
/// were read after the start byte, its announced length and its payload so far.
pub struct FrameState {
    pub in_packet: bool,
    pub bytes_read: nat,
    pub packet_len: nat,
    pub buffer: Seq<u8>,
}

/// What reading one byte yields.
pub enum FrameEvent {
    /// Nothing to report.
    Nothing,
    /// The announced length exceeds `MAX_PACKET_SIZE`; the packet is dropped.
    TooLarge(usize),
    /// A complete packet payload.
    Packet(Vec<u8>),
}

pub enum FrameEventView {
    Nothing,
    TooLarge(nat),
    Packet(Seq<u8>),
}

impl View for FrameEvent {
    type V = FrameEventView;

    open spec fn view(&self) -> FrameEventView {
        match self {
            FrameEvent::Nothing => FrameEventView::Nothing,
            FrameEvent::TooLarge(n) => FrameEventView::TooLarge(*n as nat),
            FrameEvent::Packet(p) => FrameEventView::Packet(p@),
        }
    }
}

/// One byte of input. Outside a packet only the start byte matters; inside,
/// the first two bytes give the length, the third is the header byte, and
/// the rest is payload until the announced length is reached (a packet
/// announced as empty still takes one payload byte).
pub open spec fn frame_step(s: FrameState, b: u8) -> (FrameState, FrameEventView) {
    if !s.in_packet {
        if b == START_BYTE {
            (FrameState { in_packet: true, bytes_read: 0, packet_len: 0, buffer: seq![] }, FrameEventView::Nothing)
        } else {
            (s, FrameEventView::Nothing)
        }
    } else if s.bytes_read == 0 {
        (FrameState { bytes_read: 1, packet_len: b as nat * 256, ..s }, FrameEventView::Nothing)
    } else if s.bytes_read == 1 {
        let len = s.packet_len + b as nat;
        if len > MAX_PACKET_SIZE {
            (FrameState { in_packet: false, packet_len: len, ..s }, FrameEventView::TooLarge(len))
        } else {
            (FrameState { bytes_read: 2, packet_len: len, ..s }, FrameEventView::Nothing)
        }
    } else if s.bytes_read < HEADER_LEN - 1 {
        (FrameState { bytes_read: s.bytes_read + 1, ..s }, FrameEventView::Nothing)
    } else {
        let buf = s.buffer.push(b);
        if buf.len() >= s.packet_len {
            (
                FrameState { in_packet: false, bytes_read: s.bytes_read + 1, buffer: buf, ..s },
                FrameEventView::Packet(buf),
            )
        } else {
            (FrameState { bytes_read: s.bytes_read + 1, buffer: buf, ..s }, FrameEventView::Nothing)
        }
    }
}

/// The states the reader can be in.
pub open spec fn frame_state_wf(s: FrameState) -> bool {
    s.in_packet ==> {
        &&& s.bytes_read <= 2 ==> s.buffer.len() == 0
        &&& s.bytes_read == 0 ==> s.packet_len == 0
        &&& s.bytes_read == 1 ==> s.packet_len % 256 == 0 && s.packet_len <= 255 * 256
        &&& s.bytes_read >= 2 ==> s.packet_len <= MAX_PACKET_SIZE
        &&& s.bytes_read >= 3 ==> s.buffer.len() == s.bytes_read - 3
        &&& s.bytes_read >= 3 ==> s.buffer.len() < s.packet_len || s.buffer.len() == 0
    }
}

pub proof fn lemma_frame_step_wf(s: FrameState, b: u8)
    requires
        frame_state_wf(s),
    ensures
        frame_state_wf(frame_step(s, b).0),
{
}

/// Reads a stream of bytes, collecting what each step yields other than
/// `Nothing`.
pub open spec fn frame_feed(s: FrameState, bytes: Seq<u8>) -> (FrameState, Seq<FrameEventView>)
    decreases bytes.len(),
{
    if bytes.len() == 0 {
        (s, seq![])
    } else {
        let (s1, ev) = frame_step(s, bytes[0]);
        let (s2, evs) = frame_feed(s1, bytes.drop_first());
        (s2, if ev is Nothing {
            evs
        } else {
            seq![ev] + evs
        })
    }
}

/// The serial reader.
pub struct FrameDecoder {
    in_packet: bool,
    bytes_read: usize,
    packet_len: usize,
    buffer: Vec<u8>,
}

impl View for FrameDecoder {
    type V = FrameState;

    closed spec fn view(&self) -> FrameState {
        FrameState {
            in_packet: self.in_packet,
            bytes_read: self.bytes_read as nat,
            packet_len: self.packet_len as nat,
            buffer: self.buffer@,
        }
    }
}

impl FrameDecoder {
    pub closed spec fn wf(&self) -> bool {
        frame_state_wf(self@)
    }

    /// A reader waiting for a start byte.
    pub fn new() -> (d: Self)
        ensures
            d.wf(),
            !d@.in_packet,
            d@.buffer == Seq::<u8>::empty(),
    {
        FrameDecoder { in_packet: false, bytes_read: 0, packet_len: 0, buffer: Vec::new() }
    }

    /// Reads one byte.
    pub fn push_byte(&mut self, b: u8) -> (ev: FrameEvent)
        requires
            old(self).wf(),
        ensures
            final(self).wf(),
            (final(self)@, ev@) == frame_step(old(self)@, b),
    {
        proof {
            lemma_frame_step_wf(self@, b);
        }
        if !self.in_packet {
            if b == START_BYTE {
                self.in_packet = true;
                self.buffer = Vec::new();
                self.bytes_read = 0;
                self.packet_len = 0;
            }
            return FrameEvent::Nothing;
        }
        if self.bytes_read == 0 {
            self.packet_len = (b as usize) << 8;
            assert((b as usize) << 8 == (b as usize) * 256) by (bit_vector)
                requires
                    b < 256,
            ;
        } else if self.bytes_read == 1 {
            let hi = self.packet_len;
            self.packet_len = hi | (b as usize);
            assert(hi | (b as usize) == hi + b) by (bit_vector)
                requires
                    hi % 256 == 0,
                    hi <= 65280,
                    b < 256,
            ;
            if self.packet_len > MAX_PACKET_SIZE {
                self.in_packet = false;
                return FrameEvent::TooLarge(self.packet_len);
            }
        } else if self.bytes_read < HEADER_LEN - 1 {
        } else {
            self.buffer.push(b);
            if self.buffer.len() >= self.packet_len {
                self.in_packet = false;
                self.bytes_read = self.bytes_read + 1;
                return FrameEvent::Packet(self.buffer.clone());
            }
        }
        self.bytes_read = self.bytes_read + 1;
        FrameEvent::Nothing
    }
}

} // verus!

verus! {

proof fn lemma_feed_payload(s: FrameState, payload: Seq<u8>, k: nat)
    requires
        s.in_packet,
        s.bytes_read == 3 + k,
        s.packet_len == payload.len(),
        s.buffer == payload.take(k as int),
        k < payload.len(),
    ensures
        frame_feed(s, payload.skip(k as int)).1 == seq![FrameEventView::Packet(payload)],
        !frame_feed(s, payload.skip(k as int)).0.in_packet,
    decreases payload.len() - k,
{
    let rest = payload.skip(k as int);
    assert(rest[0] == payload[k as int]);
    assert(payload.take(k as int).push(payload[k as int]) =~= payload.take((k + 1) as int));
    assert(rest.drop_first() =~= payload.skip((k + 1) as int));
    let (s1, ev) = frame_step(s, rest[0]);
    if k + 1 == payload.len() {
        assert(payload.take((k + 1) as int) =~= payload);
        assert(rest.drop_first().len() == 0);
        assert(frame_feed(s1, rest.drop_first()) == (s1, Seq::<FrameEventView>::empty()));
        assert(seq![ev] + Seq::<FrameEventView>::empty() =~= seq![FrameEventView::Packet(payload)]);
    } else {
        lemma_feed_payload(s1, payload, k + 1);
    }
}

/// Reading the frame of a payload of 1 to `MAX_PACKET_SIZE` bytes, from a
/// reader that is not inside a packet, yields exactly that payload and leaves
/// the reader outside a packet.
pub proof fn frame_roundtrip(s: FrameState, payload: Seq<u8>)
    requires
        !s.in_packet,
        1 <= payload.len() <= MAX_PACKET_SIZE,
    ensures
        frame_feed(s, frame_bytes(payload)).1 == seq![FrameEventView::Packet(payload)],
        !frame_feed(s, frame_bytes(payload)).0.in_packet,
{
    let n = payload.len();
    let hi = ((n / 256) % 256) as u8;
    let lo = (n % 256) as u8;
    let bytes = frame_bytes(payload);
    assert(bytes[0] == START_BYTE);
    let b1 = bytes.drop_first();
    assert(b1 =~= seq![hi, lo, 0u8] + payload);
    let b2 = b1.drop_first();
    assert(b2 =~= seq![lo, 0u8] + payload);
    let b3 = b2.drop_first();
    assert(b3 =~= seq![0u8] + payload);
    let b4 = b3.drop_first();
    assert(b4 =~= payload);
    assert(payload.skip(0) =~= payload);
    assert(payload.take(0) =~= Seq::<u8>::empty());
    let (s1, e1) = frame_step(s, bytes[0]);
    let (s2, e2) = frame_step(s1, b1[0]);
    assert(hi as nat * 256 + lo as nat == n);
    let (s3, e3) = frame_step(s2, b2[0]);
    let (s4, e4) = frame_step(s3, b3[0]);
    assert(e1 is Nothing && e2 is Nothing && e3 is Nothing && e4 is Nothing);
    lemma_feed_payload(s4, payload, 0);
    let f4 = frame_feed(s4, b4);
    assert(f4 == frame_feed(s4, payload.skip(0)));
    assert(frame_feed(s3, b3) == f4);
    assert(frame_feed(s2, b2) == f4);
    assert(frame_feed(s1, b1) == f4);
    assert(frame_feed(s, bytes) == f4);
}

} // verus!

verus! {

// ── Received items ────────────────────────────────────────────────────────────

/// A text message received over the mesh.
#[derive(Debug, Clone)]
pub struct MeshtasticMessage {
    pub from: u32,
    pub to: u32,
    pub text: String,
    pub timestamp: u64,
    pub channel: u32,
}

/// What appending `item` to a log kept to `cap` entries leaves: the oldest
/// entry goes when the log grows past `cap`.
pub open spec fn capped_push<T>(log: Seq<T>, item: T, cap: nat) -> Seq<T> {
    if log.len() + 1 > cap {
        log.push(item).drop_first()
    } else {
        log.push(item)
    }
}

/// Appends `item` to `log`, dropping the oldest entry when the log grows
/// past `cap`.
pub fn push_capped<T>(log: &mut Vec<T>, item: T, cap: usize)
    ensures
        final(log)@ == capped_push(old(log)@, item, cap as nat),
{
    log.push(item);
    if log.len() > cap {
        let _ = log.remove(0);
    }
}

/// A log kept to `cap` entries stays within `cap` entries, and its newest
/// entry is the last one appended.
pub proof fn capped_push_bounded<T>(log: Seq<T>, item: T, cap: nat)
    requires
        log.len() <= cap,
        cap >= 1,
    ensures
        capped_push(log, item, cap).len() <= cap,
        capped_push(log, item, cap).last() == item,
{
}

/// Index of the first node with id `node_id`, if any.
pub fn node_index(node_ids: &Vec<u32>, node_id: u32) -> (r: Option<usize>)
    ensures
        r matches Some(i) ==> i < node_ids.len() && node_ids@[i as int] == node_id && forall|j: int|
            0 <= j < i ==> node_ids@[j] != node_id,
        r is None ==> forall|j: int| 0 <= j < node_ids.len() ==> node_ids@[j] != node_id,
{
    let mut i: usize = 0;
    while i < node_ids.len()
        invariant
            0 <= i <= node_ids.len(),
            forall|j: int| 0 <= j < i ==> node_ids@[j] != node_id,
        decreases node_ids.len() - i,
    {
        if node_ids[i] == node_id {
            return Some(i);
        }
        i = i + 1;
    }
    None
}

// ── Serial ports ──────────────────────────────────────────────────────────────

/// Whether a serial port's name looks like a USB serial device, as
/// Meshtastic radios appear.
pub open spec fn is_meshtastic_port(name: Seq<char>) -> bool {
    contains(name, "usb"@) || contains(name, "USB"@) || contains(name, "ttyACM"@) || contains(
        name,
        "ttyUSB"@,
    ) || contains(name, "cu.usb"@)
}

pub fn meshtastic_port_name(name: &str) -> (b: bool)
    ensures
        b == is_meshtastic_port(name@),
{
    str_contains(name, "usb") || str_contains(name, "USB") || str_contains(name, "ttyACM")
        || str_contains(name, "ttyUSB") || str_contains(name, "cu.usb")
}

/// The names of `names` that look like Meshtastic radios, in order.
pub open spec fn meshtastic_ports(names: Seq<Seq<char>>) -> Seq<Seq<char>>
    decreases names.len(),
{
    if names.len() == 0 {
        seq![]
    } else {
        let rest = meshtastic_ports(names.drop_last());
        if is_meshtastic_port(names.last()) {
            rest.push(names.last())
        } else {
            rest
        }
    }
}

pub open spec fn string_views(v: Seq<String>) -> Seq<Seq<char>> {
    v.map_values(|s: String| s@)
}

/// Keeps the port names that look like Meshtastic radios.
pub fn filter_meshtastic_ports(names: Vec<String>) -> (ports: Vec<String>)
    ensures
        string_views(ports@) == meshtastic_ports(string_views(names@)),
{
    let mut ports: Vec<String> = Vec::new();
    let mut i: usize = 0;
    while i < names.len()
        invariant
            0 <= i <= names.len(),
            string_views(ports@) == meshtastic_ports(string_views(names@.take(i as int))),
        decreases names.len() - i,
    {
        let ghost before = ports@;
        let n = &names[i];
        assert(string_views(names@.take(i + 1)).drop_last() =~= string_views(names@.take(i as int)));
        if meshtastic_port_name(n) {
            ports.push(n.clone());
            assert(string_views(ports@) =~= string_views(before).push(n@));
        }
        i = i + 1;
    }
    assert(names@.take(names.len() as int) =~= names@);
    ports
}

} // verus!
