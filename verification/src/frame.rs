//! Link layer of the ISDT serial-over-BLE protocol.
//!
//! # Frame layout
//!
//! ```text
//! AA  ADDR  LEN  DATA[LEN]  CHK
//! ```
//!
//! * `AA` is a single unescaped sync byte that opens the frame.
//! * `ADDR` is [`ADDR_TO_DEVICE`] (0x12) for host to device and
//!   [`ADDR_TO_HOST`] (0x21) for device to host.
//! * `LEN` counts `DATA` only. `DATA[0]` is the command word.
//! * `CHK` is `(ADDR + LEN + sum(DATA)) & 0xFF`.
//! * Every byte after the opening sync byte is byte stuffed: a literal `0xAA`
//!   is transmitted as `AA AA`.
//!
//! # GATT transport
//!
//! Each GATT write and each notification is `[n][payload; n]`, where
//! `payload` is a slice of the stuffed frame. With a 20 byte MTU a frame
//! longer than 16 bytes is split across several writes of up to 19 payload
//! bytes each.

use vstd::prelude::*;

verus! {

/// Sync byte that opens a frame, and the byte that gets stuffed inside one.
pub const SYNC: u8 = 0xAA;

/// Address byte the host puts in frames it sends to the charger.
pub const ADDR_TO_DEVICE: u8 = 0x12;

/// Address byte the charger puts in frames it sends to the host.
pub const ADDR_TO_HOST: u8 = 0x21;

/// Largest `LEN` the one-byte length field can express.
pub const MAX_DATA_LEN: usize = 255;

// ---- the wire format, as mathematics ---------------------------------------

/// One byte as it goes out after the opening sync byte.
pub open spec fn stuff(b: u8) -> Seq<u8> {
    if b == SYNC {
        seq![SYNC, SYNC]
    } else {
        seq![b]
    }
}

/// Every byte of `s`, stuffed.
#[verifier::opaque]
pub open spec fn stuff_all(s: Seq<u8>) -> Seq<u8>
    decreases s.len(),
{
    if s.len() == 0 {
        Seq::empty()
    } else {
        stuff_all(s.drop_last()) + stuff(s.last())
    }
}

/// The arithmetic sum of the bytes of `s`.
pub open spec fn byte_sum(s: Seq<u8>) -> nat
    decreases s.len(),
{
    if s.len() == 0 {
        0
    } else {
        byte_sum(s.drop_last()) + (s.last() as nat)
    }
}

/// The checksum byte: address, length and data summed modulo 256.
pub open spec fn checksum(addr: u8, data: Seq<u8>) -> u8 {
    ((addr + data.len() + byte_sum(data)) % 256) as u8
}

/// The complete stuffed frame carrying `data` under `addr`.
pub open spec fn frame_bytes(addr: u8, data: Seq<u8>) -> Seq<u8> {
    seq![SYNC] + stuff_all(seq![addr, data.len() as u8] + data + seq![checksum(addr, data)])
}

/// Errors raised while building a frame.
#[derive(Debug, Clone, Copy, PartialEq, Eq, Structural)]
pub enum FrameError {
    /// The payload exceeds the one-byte length field.
    TooLong(usize),
}

impl FrameError {
    /// The message this error reports.
    pub fn message(&self) -> (r: String)
        ensures
            r@ == frame_error_message(*self),
    {
        match self {
            FrameError::TooLong(n) => {
                let mut s = crate::text::string_of("frame data is ");
                crate::text::push_decimal(&mut s, *n as u64);
                crate::text::push_str(&mut s, " bytes, the length field holds at most 255");
                s
            },
        }
    }
}

/// What a [`FrameError`] says.
pub open spec fn frame_error_message(e: FrameError) -> Seq<char> {
    match e {
        FrameError::TooLong(n) => "frame data is "@ + crate::text::decimal(n as nat)
            + " bytes, the length field holds at most 255"@,
    }
}

proof fn lemma_stuff_all_empty()
    ensures
        stuff_all(Seq::<u8>::empty()) == Seq::<u8>::empty(),
{
    reveal(stuff_all);
}

proof fn lemma_stuff_all_push(s: Seq<u8>, x: u8)
    ensures
        stuff_all(s.push(x)) == stuff_all(s) + stuff(x),
{
    reveal(stuff_all);
    assert(s.push(x).drop_last() == s);
}

/// Stuffing distributes over concatenation.
pub proof fn lemma_stuff_all_concat(a: Seq<u8>, b: Seq<u8>)
    ensures
        stuff_all(a + b) == stuff_all(a) + stuff_all(b),
    decreases b.len(),
{
    reveal(stuff_all);
    if b.len() == 0 {
        assert(a + b == a);
        assert(stuff_all(b) == Seq::<u8>::empty());
        assert(stuff_all(a) + stuff_all(b) == stuff_all(a));
    } else {
        lemma_stuff_all_concat(a, b.drop_last());
        assert((a + b).drop_last() == a + b.drop_last());
        assert((a + b).last() == b.last());
        assert(stuff_all(a) + stuff_all(b.drop_last()) + stuff(b.last()) == stuff_all(a) + (
        stuff_all(b.drop_last()) + stuff(b.last())));
    }
}

proof fn lemma_byte_sum_push(s: Seq<u8>, x: u8)
    ensures
        byte_sum(s.push(x)) == byte_sum(s) + x,
{
    assert(s.push(x).drop_last() == s);
}

fn push_stuffed(out: &mut Vec<u8>, b: u8)
    ensures
        final(out)@ == old(out)@ + stuff(b),
{
    if b == SYNC {
        out.push(SYNC);
    }
    out.push(b);
    assert(final(out)@ == old(out)@ + stuff(b));
}

/// Builds the stuffed on-air frame for `data`, addressed to the charger.
///
/// `data` starts with the command word and is at most [`MAX_DATA_LEN`] bytes.
pub fn encode(data: &[u8]) -> (r: Result<Vec<u8>, FrameError>)
    ensures
        data@.len() > MAX_DATA_LEN ==> r == Err::<Vec<u8>, FrameError>(
            FrameError::TooLong(data@.len() as usize),
        ),
        data@.len() <= MAX_DATA_LEN ==> (r matches Ok(v) && v@ == frame_bytes(
            ADDR_TO_DEVICE,
            data@,
        )),
{
    encode_to(ADDR_TO_DEVICE, data)
}

/// Builds the stuffed on-air frame for `data` with an explicit address byte.
pub fn encode_to(addr: u8, data: &[u8]) -> (r: Result<Vec<u8>, FrameError>)
    ensures
        data@.len() > MAX_DATA_LEN ==> r == Err::<Vec<u8>, FrameError>(
            FrameError::TooLong(data@.len() as usize),
        ),
        data@.len() <= MAX_DATA_LEN ==> (r matches Ok(v) && v@ == frame_bytes(addr, data@)),
{
    if data.len() > MAX_DATA_LEN {
        return Err(FrameError::TooLong(data.len()));
    }
    let len = data.len() as u8;
    let mut out: Vec<u8> = Vec::with_capacity(data.len() + 8);
    out.push(SYNC);
    push_stuffed(&mut out, addr);
    push_stuffed(&mut out, len);
    let mut sum: u8 = addr.wrapping_add(len);
    let ghost head = seq![addr, len];
    proof {
        assert(seq![SYNC] + stuff(addr) + stuff(len) == seq![SYNC] + stuff_all(head)) by {
            lemma_stuff_all_push(seq![addr], len);
            lemma_stuff_all_push(Seq::empty(), addr);
            assert(Seq::<u8>::empty().push(addr) == seq![addr]);
            assert(seq![addr].push(len) == head);
            lemma_stuff_all_empty();
        }
        assert(data@.take(0) == Seq::<u8>::empty());
        assert(head + data@.take(0) == head);
    }
    let mut i: usize = 0;
    while i < data.len()
        invariant
            i <= data.len() <= MAX_DATA_LEN,
            len == data@.len(),
            head == seq![addr, len],
            out@ == seq![SYNC] + stuff_all(head + data@.take(i as int)),
            sum as nat == (addr + len + byte_sum(data@.take(i as int))) % 256,
        decreases data.len() - i,
    {
        let b = data[i];
        let ghost before = out@;
        push_stuffed(&mut out, b);
        sum = sum.wrapping_add(b);
        proof {
            assert(data@.take(i + 1) == data@.take(i as int).push(b));
            assert(head + data@.take(i + 1) == (head + data@.take(i as int)).push(b));
            lemma_stuff_all_push(head + data@.take(i as int), b);
            lemma_byte_sum_push(data@.take(i as int), b);
        }
        i = i + 1;
    }
    let ghost before = out@;
    push_stuffed(&mut out, sum);
    proof {
        assert(data@.take(data@.len() as int) == data@);
        assert(sum == checksum(addr, data@));
        lemma_stuff_all_push(head + data@, sum);
        assert((head + data@).push(sum) == head + data@ + seq![sum]);
        assert(data@.len() as u8 == len);
    }
    Ok(out)
}

// ---- GATT chunking ------------------------------------------------------------

/// One GATT packet: a length byte, then the payload.
pub open spec fn packet(payload: Seq<u8>) -> Seq<u8> {
    seq![(payload.len() % 256) as u8] + payload
}

/// `frame` split into packets of at most `budget` payload bytes.
pub open spec fn split_packets(frame: Seq<u8>, budget: nat) -> Seq<Seq<u8>>
    decreases frame.len(),
{
    if frame.len() == 0 || budget == 0 {
        Seq::empty()
    } else if frame.len() <= budget {
        seq![packet(frame)]
    } else {
        seq![packet(frame.take(budget as int))] + split_packets(frame.skip(budget as int), budget)
    }
}

/// Payload bytes per packet on a channel with this MTU.
pub open spec fn chunk_budget(mtu: nat) -> nat {
    if mtu >= 2 {
        (mtu - 1) as nat
    } else {
        1
    }
}

/// The packets [`chunk`] produces: a frame of at most sixteen bytes goes in
/// one packet, as the app sends it; a longer one is cut into packets of at
/// most `mtu - 1` frame bytes.
pub open spec fn chunk_spec(frame: Seq<u8>, mtu: nat) -> Seq<Seq<u8>> {
    if frame.len() <= 16 {
        seq![packet(frame)]
    } else {
        split_packets(frame, chunk_budget(mtu))
    }
}

/// The byte views of a list of buffers.
pub open spec fn views(v: Seq<Vec<u8>>) -> Seq<Seq<u8>> {
    v.map_values(|x: Vec<u8>| x@)
}

fn packet_of(frame: &[u8], from: usize, to: usize) -> (r: Vec<u8>)
    requires
        from <= to <= frame@.len(),
    ensures
        r@ == packet(frame@.subrange(from as int, to as int)),
{
    let n = to - from;
    let mut p: Vec<u8> = Vec::new();
    p.push((n % 256) as u8);
    let mut i = from;
    while i < to
        invariant
            from <= i <= to <= frame@.len(),
            n == to - from,
            p@ == seq![(n % 256) as u8] + frame@.subrange(from as int, i as int),
        decreases to - i,
    {
        p.push(frame[i]);
        assert(frame@.subrange(from as int, i + 1) == frame@.subrange(from as int, i as int).push(
            frame@[i as int],
        ));
        i = i + 1;
    }
    p
}

/// Splits a stuffed frame into GATT write payloads, each prefixed with its
/// own length byte.
///
/// `mtu` is the negotiated ATT MTU as the app tracks it: 20 for the legacy
/// FFF6 channel, 140 or 160 for the FFF7 and FFF8 channels. At most
/// `mtu - 1` frame bytes travel in one write.
pub fn chunk(frame: &[u8], mtu: usize) -> (r: Vec<Vec<u8>>)
    ensures
        views(r@) == chunk_spec(frame@, mtu as nat),
{
    let budget: usize = if mtu >= 2 {
        mtu - 1
    } else {
        1
    };
    let len = frame.len();
    if len <= 16 {
        let p = packet_of(frame, 0, len);
        let mut out: Vec<Vec<u8>> = Vec::new();
        out.push(p);
        assert(frame@.subrange(0, len as int) == frame@);
        assert(views(out@) == seq![packet(frame@)]);
        return out;
    }
    let mut out: Vec<Vec<u8>> = Vec::new();
    let mut pos: usize = 0;
    assert(frame@.skip(0) == frame@);
    while pos < len
        invariant
            budget == chunk_budget(mtu as nat),
            budget >= 1,
            len == frame@.len(),
            pos <= len,
            views(out@) + split_packets(frame@.skip(pos as int), budget as nat) == split_packets(
                frame@,
                budget as nat,
            ),
        decreases len - pos,
    {
        let left = len - pos;
        let n = if left <= budget {
            left
        } else {
            budget
        };
        let p = packet_of(frame, pos, pos + n);
        let ghost rest = frame@.skip(pos as int);
        proof {
            assert(rest.take(n as int) == frame@.subrange(pos as int, pos + n));
            assert(rest.skip(n as int) == frame@.skip(pos + n));
            if left <= budget {
                assert(rest.take(n as int) == rest);
                assert(split_packets(rest, budget as nat) == seq![packet(rest)]);
                assert(frame@.skip(pos + n).len() == 0);
                assert(split_packets(frame@.skip(pos + n), budget as nat) == Seq::<
                    Seq<u8>,
                >::empty());
            } else {
                assert(split_packets(rest, budget as nat) == seq![packet(rest.take(n as int))]
                    + split_packets(rest.skip(n as int), budget as nat));
            }
        }
        let ghost old_views = views(out@);
        out.push(p);
        assert(views(out@) == old_views.push(p@));
        pos = pos + n;
        proof {
            if left <= budget {
                assert(views(out@) + split_packets(frame@.skip(pos as int), budget as nat)
                    == views(out@));
            } else {
                assert(old_views.push(p@) + split_packets(frame@.skip(pos as int), budget as nat)
                    == old_views + (seq![p@] + split_packets(frame@.skip(pos as int), budget as nat)));
            }
        }
    }
    proof {
        assert(frame@.skip(pos as int).len() == 0);
        assert(views(out@) + split_packets(frame@.skip(pos as int), budget as nat) == views(
            out@,
        ));
    }
    out
}


// ---- the decoder ---------------------------------------------------------------

/// Where the decoder is inside a frame.
#[derive(Debug, Clone, Copy, PartialEq, Eq, Structural)]
pub enum State {
    /// Hunting for the opening sync byte.
    WaitSync,
    /// The next byte is the address.
    WaitAddress,
    /// The next byte is the length.
    WaitLength,
    /// Collecting `DATA`.
    WaitData,
    /// The next byte is the checksum.
    WaitChecksum,
}

/// Incremental decoder for the byte stream arriving on the notify
/// characteristic.
///
/// Feed it the payload of each notification (the notification minus its
/// leading length byte) and it yields the `DATA` field of every frame whose
/// address and checksum are valid. Frames split across notifications are
/// reassembled.
#[derive(Debug)]
pub struct Decoder {
    address: u8,
    state: State,
    /// Non-zero while an odd number of sync bytes has just been seen.
    sync_run: usize,
    remaining: usize,
    checksum: u8,
    buffer: Vec<u8>,
}

/// The abstract state of a [`Decoder`].
pub struct DecoderModel {
    /// The address byte frames must carry.
    pub address: u8,
    /// Where the decoder is inside a frame.
    pub state: State,
    /// True after an odd run of sync bytes.
    pub odd_sync: bool,
    /// Data bytes still expected.
    pub remaining: nat,
    /// Running checksum of the frame so far.
    pub checksum: u8,
    /// Data bytes collected so far.
    pub buffer: Seq<u8>,
}

impl View for Decoder {
    type V = DecoderModel;

    closed spec fn view(&self) -> DecoderModel {
        DecoderModel {
            address: self.address,
            state: self.state,
            odd_sync: self.sync_run != 0,
            remaining: self.remaining as nat,
            checksum: self.checksum,
            buffer: self.buffer@,
        }
    }
}

/// What a byte does once the sync-byte bookkeeping has let it through.
pub open spec fn process(m: DecoderModel, b: u8) -> (DecoderModel, Option<Seq<u8>>) {
    match m.state {
        State::WaitAddress => if b == m.address {
            (DecoderModel { checksum: b, state: State::WaitLength, ..m }, None)
        } else {
            (DecoderModel { state: State::WaitSync, ..m }, None)
        },
        State::WaitLength => (
            DecoderModel {
                remaining: b as nat,
                checksum: ((m.checksum + b) % 256) as u8,
                buffer: Seq::empty(),
                state: if b == 0 {
                    State::WaitSync
                } else {
                    State::WaitData
                },
                ..m
            },
            None,
        ),
        State::WaitData => (
            DecoderModel {
                buffer: m.buffer.push(b),
                checksum: ((m.checksum + b) % 256) as u8,
                remaining: if m.remaining == 0 {
                    0
                } else {
                    (m.remaining - 1) as nat
                },
                state: if m.remaining <= 1 {
                    State::WaitChecksum
                } else {
                    State::WaitData
                },
                ..m
            },
            None,
        ),
        State::WaitChecksum => (
            DecoderModel { state: State::WaitSync, buffer: Seq::empty(), ..m },
            if b == m.checksum {
                Some(m.buffer)
            } else {
                None
            },
        ),
        State::WaitSync => (m, None),
    }
}

/// One byte of the stuffed stream. A sync byte after an even run opens a
/// stuffed pair or a frame and carries nothing; the second of a pair is
/// data; any other byte that ends an odd run starts a frame at the address.
pub open spec fn step(m: DecoderModel, b: u8) -> (DecoderModel, Option<Seq<u8>>) {
    if b == SYNC {
        if !m.odd_sync {
            (DecoderModel { odd_sync: true, ..m }, None)
        } else {
            process(DecoderModel { odd_sync: false, ..m }, b)
        }
    } else if m.odd_sync {
        process(DecoderModel { odd_sync: false, state: State::WaitAddress, ..m }, b)
    } else {
        process(m, b)
    }
}

/// The decoder after consuming `bytes`, and the frames completed on the way.
pub open spec fn run(m: DecoderModel, bytes: Seq<u8>) -> (DecoderModel, Seq<Seq<u8>>)
    decreases bytes.len(),
{
    if bytes.len() == 0 {
        (m, Seq::empty())
    } else {
        let (m1, out1) = run(m, bytes.drop_last());
        let (m2, o) = step(m1, bytes.last());
        (
            m2,
            match o {
                Some(d) => out1.push(d),
                None => out1,
            },
        )
    }
}

/// The bytes a raw notification announces: the payload after the length
/// byte, or nothing when the length byte overruns the notification.
pub open spec fn notification_payload(raw: Seq<u8>) -> Seq<u8> {
    if raw.len() == 0 || raw[0] as int > raw.len() - 1 {
        Seq::empty()
    } else {
        raw.subrange(1, 1 + raw[0] as int)
    }
}

impl Decoder {
    /// Creates a decoder for frames the charger addresses to the host.
    pub fn new() -> (d: Self)
        ensures
            d@.address == ADDR_TO_HOST,
            d@.state == State::WaitSync,
            !d@.odd_sync,
            d@.remaining == 0,
            d@.checksum == 0,
            d@.buffer.len() == 0,
    {
        Self::with_address(ADDR_TO_HOST)
    }

    /// Creates a decoder that accepts frames carrying `address`.
    pub fn with_address(address: u8) -> (d: Self)
        ensures
            d@.address == address,
            d@.state == State::WaitSync,
            !d@.odd_sync,
            d@.remaining == 0,
            d@.checksum == 0,
            d@.buffer.len() == 0,
    {
        Self {
            address,
            state: State::WaitSync,
            sync_run: 0,
            remaining: 0,
            checksum: 0,
            buffer: Vec::new(),
        }
    }

    /// Drops any partially decoded frame and returns to hunting for a sync byte.
    pub fn reset(&mut self)
        ensures
            final(self)@.address == old(self)@.address,
            final(self)@.state == State::WaitSync,
            !final(self)@.odd_sync,
            final(self)@.remaining == 0,
            final(self)@.checksum == 0,
            final(self)@.buffer.len() == 0,
    {
        self.state = State::WaitSync;
        self.sync_run = 0;
        self.remaining = 0;
        self.checksum = 0;
        self.buffer.clear();
    }

    /// Strips the leading length byte from a raw notification and decodes the
    /// payload it announces.
    ///
    /// A notification whose length byte overruns the buffer is ignored, which
    /// is what the app does.
    pub fn push_notification(&mut self, raw: &[u8]) -> (r: Vec<Vec<u8>>)
        ensures
            final(self)@ == run(old(self)@, notification_payload(raw@)).0,
            views(r@) == run(old(self)@, notification_payload(raw@)).1,
    {
        if raw.len() == 0 {
            return Vec::new();
        }
        let len = raw[0] as usize;
        if len > raw.len() - 1 {
            return Vec::new();
        }
        let payload = &raw[1..1 + len];
        self.push(payload)
    }

    /// Decodes a slice of the stuffed byte stream, returning the `DATA` field
    /// of each frame that completed.
    pub fn push(&mut self, bytes: &[u8]) -> (r: Vec<Vec<u8>>)
        ensures
            final(self)@ == run(old(self)@, bytes@).0,
            views(r@) == run(old(self)@, bytes@).1,
    {
        let ghost start = self@;
        let mut done: Vec<Vec<u8>> = Vec::new();
        let mut i: usize = 0;
        assert(bytes@.take(0) == Seq::<u8>::empty());
        while i < bytes.len()
            invariant
                i <= bytes@.len(),
                self@ == run(start, bytes@.take(i as int)).0,
                views(done@) == run(start, bytes@.take(i as int)).1,
            decreases bytes@.len() - i,
        {
            let b = bytes[i];
            let ghost before = self@;
            let ghost done_before = views(done@);
            let o = self.push_byte(b);
            match o {
                Some(frame) => {
                    done.push(frame);
                    assert(views(done@) == done_before.push(frame@));
                },
                None => {
                    assert(views(done@) == done_before);
                },
            }
            assert(bytes@.take(i + 1).drop_last() == bytes@.take(i as int));
            i = i + 1;
        }
        assert(bytes@.take(bytes@.len() as int) == bytes@);
        done
    }

    fn push_byte(&mut self, b: u8) -> (r: Option<Vec<u8>>)
        ensures
            final(self)@ == step(old(self)@, b).0,
            step(old(self)@, b).1 == (match r {
                Some(v) => Some(v@),
                None => None::<Seq<u8>>,
            }),
    {
        if b == SYNC {
            if self.sync_run == 0 {
                self.sync_run = 1;
                return None;
            }
            self.sync_run = 0;
        } else {
            if self.sync_run != 0 {
                self.state = State::WaitAddress;
            }
            self.sync_run = 0;
        }

        match self.state {
            State::WaitAddress => {
                if b == self.address {
                    self.checksum = b;
                    self.state = State::WaitLength;
                } else {
                    self.state = State::WaitSync;
                }
                None
            },
            State::WaitLength => {
                self.remaining = b as usize;
                self.checksum = self.checksum.wrapping_add(b);
                self.buffer.clear();
                if self.remaining == 0 || self.remaining > MAX_DATA_LEN {
                    self.state = State::WaitSync;
                } else {
                    self.state = State::WaitData;
                }
                None
            },
            State::WaitData => {
                self.buffer.push(b);
                self.checksum = self.checksum.wrapping_add(b);
                if self.remaining <= 1 {
                    self.state = State::WaitChecksum;
                    self.remaining = 0;
                } else {
                    self.remaining = self.remaining - 1;
                }
                None
            },
            State::WaitChecksum => {
                self.state = State::WaitSync;
                if b == self.checksum {
                    let mut out: Vec<u8> = Vec::new();
                    std::mem::swap(&mut out, &mut self.buffer);
                    Some(out)
                } else {
                    self.buffer.clear();
                    None
                }
            },
            State::WaitSync => None,
        }
    }
}


// ---- laws ----------------------------------------------------------------------

/// The frames an optional output contributes.
pub open spec fn opt_frames(o: Option<Seq<u8>>) -> Seq<Seq<u8>> {
    match o {
        Some(d) => seq![d],
        None => Seq::empty(),
    }
}

/// The decoder after a sequence of raw notifications, and the frames they
/// completed, as repeated calls of [`Decoder::push_notification`] give them.
pub open spec fn run_notifications(m: DecoderModel, packets: Seq<Seq<u8>>) -> (
    DecoderModel,
    Seq<Seq<u8>>,
)
    decreases packets.len(),
{
    if packets.len() == 0 {
        (m, Seq::empty())
    } else {
        let (m1, out1) = run_notifications(m, packets.drop_last());
        let (m2, out2) = run(m1, notification_payload(packets.last()));
        (m2, out1 + out2)
    }
}

/// The frames for several payloads, back to back.
pub open spec fn frames_concat(addr: u8, payloads: Seq<Seq<u8>>) -> Seq<u8>
    decreases payloads.len(),
{
    if payloads.len() == 0 {
        Seq::empty()
    } else {
        frames_concat(addr, payloads.drop_last()) + frame_bytes(addr, payloads.last())
    }
}

/// Decoding is a left fold: decoding `a` then `b` is decoding `a + b`.
pub proof fn lemma_run_concat(m: DecoderModel, a: Seq<u8>, b: Seq<u8>)
    ensures
        run(m, a + b).0 == run(run(m, a).0, b).0,
        run(m, a + b).1 == run(m, a).1 + run(run(m, a).0, b).1,
    decreases b.len(),
{
    if b.len() == 0 {
        assert(a + b == a);
        assert(run(m, a).1 + Seq::<Seq<u8>>::empty() == run(m, a).1);
    } else {
        lemma_run_concat(m, a, b.drop_last());
        assert((a + b).drop_last() == a + b.drop_last());
        assert((a + b).last() == b.last());
        let (m1, o1) = run(run(m, a).0, b.drop_last());
        let (m2, o) = step(m1, b.last());
        match o {
            Some(d) => {
                assert(run(m, a).1 + o1.push(d) == (run(m, a).1 + o1).push(d));
            },
            None => {},
        }
    }
}

proof fn lemma_run_one(m: DecoderModel, x: u8)
    ensures
        run(m, seq![x]).0 == step(m, x).0,
        run(m, seq![x]).1 == opt_frames(step(m, x).1),
{
    reveal_with_fuel(run, 2);
    assert(seq![x].drop_last() == Seq::<u8>::empty());
    assert(seq![x].last() == x);
    match step(m, x).1 {
        Some(d) => {
            assert(Seq::<Seq<u8>>::empty().push(d) == seq![d]);
        },
        None => {},
    }
}

/// A stuffed byte, fed to a decoder that is not halfway through a sync pair,
/// acts as that one byte of the frame.
proof fn lemma_run_stuffed(m: DecoderModel, x: u8)
    requires
        !m.odd_sync,
    ensures
        run(m, stuff(x)).0 == process(m, x).0,
        run(m, stuff(x)).1 == opt_frames(process(m, x).1),
        !process(m, x).0.odd_sync,
{
    if x == SYNC {
        let s = seq![SYNC, SYNC];
        assert(s == seq![SYNC] + seq![SYNC]);
        lemma_run_concat(m, seq![SYNC], seq![SYNC]);
        lemma_run_one(m, SYNC);
        let m1 = step(m, SYNC).0;
        lemma_run_one(m1, SYNC);
        assert(DecoderModel { odd_sync: false, ..m1 } == m);
        assert(Seq::<Seq<u8>>::empty() + opt_frames(process(m, x).1) == opt_frames(
            process(m, x).1,
        ));
    } else {
        lemma_run_one(m, x);
    }
}

proof fn lemma_process_data(m: DecoderModel, b: u8)
    requires
        m.state == State::WaitData,
        m.remaining >= 1,
    ensures
        process(m, b).1 == None::<Seq<u8>>,
        process(m, b).0.buffer == m.buffer.push(b),
        process(m, b).0.remaining == m.remaining - 1,
        process(m, b).0.checksum as nat == (m.checksum + b) % 256,
        process(m, b).0.address == m.address,
        process(m, b).0.odd_sync == m.odd_sync,
        process(m, b).0.state == (if m.remaining == 1 {
            State::WaitChecksum
        } else {
            State::WaitData
        }),
{
}

/// Feeding the stuffed data bytes of a frame collects them, counting down.
#[verifier::rlimit(80)]
#[verifier::spinoff_prover]
proof fn lemma_run_data(m: DecoderModel, d: Seq<u8>, i: nat)
    requires
        !m.odd_sync,
        m.state == State::WaitData,
        m.remaining == d.len(),
        m.buffer.len() == 0,
        1 <= d.len() <= 255,
        i <= d.len(),
    ensures
        ({
            let r = run(m, stuff_all(d.take(i as int)));
            &&& r.1 == Seq::<Seq<u8>>::empty()
            &&& !r.0.odd_sync
            &&& r.0.address == m.address
            &&& r.0.buffer == d.take(i as int)
            &&& r.0.remaining == d.len() - i
            &&& r.0.checksum as nat == (m.checksum + byte_sum(d.take(i as int))) % 256
            &&& r.0.state == (if i < d.len() {
                State::WaitData
            } else {
                State::WaitChecksum
            })
        }),
    decreases i,
{
    if i == 0 {
        assert(d.take(0) == Seq::<u8>::empty());
        lemma_stuff_all_empty();
        assert(m.checksum as nat % 256 == m.checksum as nat);
    } else {
        let j = (i - 1) as nat;
        lemma_run_data(m, d, j);
        assert(d.take(i as int) == d.take(j as int).push(d[j as int]));
        lemma_stuff_all_push(d.take(j as int), d[j as int]);
        lemma_byte_sum_push(d.take(j as int), d[j as int]);
        let r = run(m, stuff_all(d.take(j as int)));
        let b = d[j as int];
        lemma_run_concat(m, stuff_all(d.take(j as int)), stuff(b));
        lemma_run_stuffed(r.0, b);
        lemma_process_data(r.0, b);
        assert(r.1 + Seq::<Seq<u8>>::empty() == r.1);
        vstd::arithmetic::div_mod::lemma_add_mod_noop(
            (m.checksum + byte_sum(d.take(j as int))) as int,
            b as int,
            256,
        );
    }
}

proof fn lemma_frame_shape(a: u8, d: Seq<u8>)
    requires
        a != SYNC,
        d.len() <= 255,
    ensures
        frame_bytes(a, d) == seq![SYNC] + seq![a] + stuff(d.len() as u8) + stuff_all(d) + stuff(
            checksum(a, d),
        ),
{
    let n = d.len() as u8;
    let c = checksum(a, d);
    lemma_stuff_all_concat(seq![a, n] + d, seq![c]);
    lemma_stuff_all_concat(seq![a, n], d);
    lemma_stuff_all_push(seq![a], n);
    lemma_stuff_all_push(Seq::empty(), a);
    lemma_stuff_all_push(Seq::empty(), c);
    assert(Seq::<u8>::empty().push(a) == seq![a]);
    assert(Seq::<u8>::empty().push(c) == seq![c]);
    assert(seq![a].push(n) == seq![a, n]);
    lemma_stuff_all_empty();
}

proof fn lemma_frame_start(m: DecoderModel)
    requires
        !m.odd_sync,
        m.address != SYNC,
    ensures
        run(m, seq![SYNC] + seq![m.address]).1 == Seq::<Seq<u8>>::empty(),
        run(m, seq![SYNC] + seq![m.address]).0.state == State::WaitLength,
        !run(m, seq![SYNC] + seq![m.address]).0.odd_sync,
        run(m, seq![SYNC] + seq![m.address]).0.checksum == m.address,
        run(m, seq![SYNC] + seq![m.address]).0.address == m.address,
{
    lemma_run_concat(m, seq![SYNC], seq![m.address]);
    lemma_run_one(m, SYNC);
    let m0 = step(m, SYNC).0;
    lemma_run_one(m0, m.address);
    assert(Seq::<Seq<u8>>::empty() + Seq::<Seq<u8>>::empty() == Seq::<Seq<u8>>::empty());
}

proof fn lemma_frame_length(m1: DecoderModel, n: u8)
    requires
        !m1.odd_sync,
        m1.state == State::WaitLength,
        n >= 1,
    ensures
        run(m1, stuff(n)).1 == Seq::<Seq<u8>>::empty(),
        run(m1, stuff(n)).0.state == State::WaitData,
        run(m1, stuff(n)).0.remaining == n,
        run(m1, stuff(n)).0.buffer.len() == 0,
        run(m1, stuff(n)).0.checksum as nat == (m1.checksum + n) % 256,
        run(m1, stuff(n)).0.address == m1.address,
        !run(m1, stuff(n)).0.odd_sync,
{
    lemma_run_stuffed(m1, n);
}

proof fn lemma_frame_end(m3: DecoderModel, c: u8)
    requires
        !m3.odd_sync,
        m3.state == State::WaitChecksum,
        m3.checksum == c,
    ensures
        run(m3, stuff(c)).1 == seq![m3.buffer],
        run(m3, stuff(c)).0.state == State::WaitSync,
        !run(m3, stuff(c)).0.odd_sync,
        run(m3, stuff(c)).0.address == m3.address,
{
    lemma_run_stuffed(m3, c);
}

/// What a frame does to a decoder: it comes out whole, and the decoder is
/// left hunting for the next sync byte. This holds whatever the decoder was
/// doing before, unless it had just seen half of a sync pair; the address
/// must not itself be the sync byte, and the decoder drops empty frames.
#[verifier::rlimit(80)]
#[verifier::spinoff_prover]
pub proof fn law_frame_round_trip(m: DecoderModel, d: Seq<u8>)
    requires
        !m.odd_sync,
        m.address != SYNC,
        1 <= d.len() <= 255,
    ensures
        run(m, frame_bytes(m.address, d)).1 == seq![d],
        run(m, frame_bytes(m.address, d)).0.state == State::WaitSync,
        !run(m, frame_bytes(m.address, d)).0.odd_sync,
        run(m, frame_bytes(m.address, d)).0.address == m.address,
{
    let a = m.address;
    let n = d.len() as u8;
    let c = checksum(a, d);
    let head = seq![SYNC] + seq![a];
    let sd = stuff_all(d);
    lemma_frame_shape(a, d);
    lemma_frame_start(m);
    let m1 = run(m, head).0;
    lemma_run_concat(m, head, stuff(n));
    lemma_frame_length(m1, n);
    let m2 = run(m, head + stuff(n)).0;
    assert(run(m, head + stuff(n)).1 == Seq::<Seq<u8>>::empty());
    lemma_run_concat(m, head + stuff(n), sd);
    lemma_run_data(m2, d, d.len());
    assert(d.take(d.len() as int) == d);
    vstd::arithmetic::div_mod::lemma_add_mod_noop(a as int, n as int, 256);
    vstd::arithmetic::div_mod::lemma_add_mod_noop((a + n) as int, byte_sum(d) as int, 256);
    let m3 = run(m, head + stuff(n) + sd).0;
    assert(run(m, head + stuff(n) + sd).1 == Seq::<Seq<u8>>::empty());
    assert(m3.checksum == c);
    lemma_run_concat(m, head + stuff(n) + sd, stuff(c));
    lemma_frame_end(m3, c);
    assert(Seq::<Seq<u8>>::empty() + seq![d] == seq![d]);
}

/// A decoder hunting for a sync byte stays so through any stuffed bytes.
proof fn lemma_run_idle(m: DecoderModel, s: Seq<u8>)
    requires
        !m.odd_sync,
        m.state == State::WaitSync,
    ensures
        run(m, stuff_all(s)).0 == m,
        run(m, stuff_all(s)).1 == Seq::<Seq<u8>>::empty(),
    decreases s.len(),
{
    if s.len() == 0 {
        lemma_stuff_all_empty();
        assert(s == Seq::<u8>::empty());
    } else {
        let init = s.drop_last();
        lemma_run_idle(m, init);
        lemma_stuff_all_push(init, s.last());
        assert(init.push(s.last()) == s);
        lemma_run_concat(m, stuff_all(init), stuff(s.last()));
        lemma_run_stuffed(m, s.last());
        assert(Seq::<Seq<u8>>::empty() + Seq::<Seq<u8>>::empty() == Seq::<Seq<u8>>::empty());
    }
}

/// A frame built for another address yields nothing: the decoder skips it
/// and is left hunting for the next sync byte.
pub proof fn law_other_address_yields_nothing(m: DecoderModel, b: u8, d: Seq<u8>)
    requires
        !m.odd_sync,
        b != m.address,
        b != SYNC,
    ensures
        run(m, frame_bytes(b, d)).1 == Seq::<Seq<u8>>::empty(),
        run(m, frame_bytes(b, d)).0.state == State::WaitSync,
        !run(m, frame_bytes(b, d)).0.odd_sync,
        run(m, frame_bytes(b, d)).0.address == m.address,
{
    let rest = seq![d.len() as u8] + d + seq![checksum(b, d)];
    assert(seq![b, d.len() as u8] + d + seq![checksum(b, d)] == seq![b] + rest);
    lemma_stuff_all_concat(seq![b], rest);
    lemma_stuff_all_push(Seq::empty(), b);
    lemma_stuff_all_empty();
    assert(Seq::<u8>::empty().push(b) == seq![b]);
    assert(Seq::<u8>::empty() + seq![b] == seq![b]);
    let head = seq![SYNC] + seq![b];
    assert(frame_bytes(b, d) == head + stuff_all(rest));
    lemma_run_concat(m, seq![SYNC], seq![b]);
    lemma_run_one(m, SYNC);
    let m0 = step(m, SYNC).0;
    lemma_run_one(m0, b);
    let m1 = run(m, head).0;
    assert(run(m, head).1 == Seq::<Seq<u8>>::empty());
    assert(m1.state == State::WaitSync && !m1.odd_sync && m1.address == m.address);
    lemma_run_concat(m, head, stuff_all(rest));
    lemma_run_idle(m1, rest);
    assert(Seq::<Seq<u8>>::empty() + Seq::<Seq<u8>>::empty() == Seq::<Seq<u8>>::empty());
}

/// Frames sent back to back come out one by one, in order.
pub proof fn law_frames_round_trip(m: DecoderModel, payloads: Seq<Seq<u8>>)
    requires
        !m.odd_sync,
        m.address != SYNC,
        forall|i: int| 0 <= i < payloads.len() ==> 1 <= (#[trigger] payloads[i]).len() <= 255,
    ensures
        run(m, frames_concat(m.address, payloads)).1 == payloads,
        !run(m, frames_concat(m.address, payloads)).0.odd_sync,
        run(m, frames_concat(m.address, payloads)).0.address == m.address,
    decreases payloads.len(),
{
    if payloads.len() == 0 {
    } else {
        let init = payloads.drop_last();
        law_frames_round_trip(m, init);
        let before = frames_concat(m.address, init);
        let m1 = run(m, before).0;
        lemma_run_concat(m, before, frame_bytes(m.address, payloads.last()));
        law_frame_round_trip(m1, payloads.last());
        assert(init + seq![payloads.last()] == payloads);
    }
}

/// Decoding a list of notifications in two parts is decoding it in one.
proof fn lemma_run_notifications_concat(m: DecoderModel, p: Seq<Seq<u8>>, q: Seq<Seq<u8>>)
    ensures
        run_notifications(m, p + q).0 == run_notifications(run_notifications(m, p).0, q).0,
        run_notifications(m, p + q).1 == run_notifications(m, p).1 + run_notifications(
            run_notifications(m, p).0,
            q,
        ).1,
    decreases q.len(),
{
    if q.len() == 0 {
        assert(p + q == p);
        assert(run_notifications(m, p).1 + Seq::<Seq<u8>>::empty() == run_notifications(
            m,
            p,
        ).1);
    } else {
        lemma_run_notifications_concat(m, p, q.drop_last());
        assert((p + q).drop_last() == p + q.drop_last());
        assert((p + q).last() == q.last());
        let r1 = run_notifications(run_notifications(m, p).0, q.drop_last());
        let r2 = run(r1.0, notification_payload(q.last()));
        assert(run_notifications(m, p).1 + r1.1 + r2.1 == run_notifications(m, p).1 + (r1.1
            + r2.1));
    }
}

proof fn lemma_packet_payload(payload: Seq<u8>)
    requires
        payload.len() <= 255,
    ensures
        notification_payload(packet(payload)) == payload,
{
    let p = packet(payload);
    assert(p[0] as int == payload.len());
    assert(p.subrange(1, 1 + payload.len() as int) == payload);
}

proof fn lemma_run_notifications_one(m: DecoderModel, raw: Seq<u8>)
    ensures
        run_notifications(m, seq![raw]) == run(m, notification_payload(raw)),
{
    reveal_with_fuel(run_notifications, 2);
    assert(seq![raw].drop_last() == Seq::<Seq<u8>>::empty());
    let r = run(m, notification_payload(raw));
    assert(Seq::<Seq<u8>>::empty() + r.1 == r.1);
}

proof fn lemma_split_packets(m: DecoderModel, frame: Seq<u8>, budget: nat)
    requires
        1 <= budget <= 255,
    ensures
        run_notifications(m, split_packets(frame, budget)) == run(m, frame),
    decreases frame.len(),
{
    if frame.len() == 0 {
        assert(frame == Seq::<u8>::empty());
    } else if frame.len() <= budget {
        lemma_run_notifications_one(m, packet(frame));
        lemma_packet_payload(frame);
    } else {
        let first = frame.take(budget as int);
        let rest = frame.skip(budget as int);
        lemma_run_notifications_concat(m, seq![packet(first)], split_packets(rest, budget));
        lemma_run_notifications_one(m, packet(first));
        lemma_packet_payload(first);
        let m1 = run(m, first).0;
        lemma_split_packets(m1, rest, budget);
        lemma_run_concat(m, first, rest);
        assert(first + rest == frame);
    }
}

/// The frame bytes that a list of packets carries, in order.
pub open spec fn packet_payloads(ps: Seq<Seq<u8>>) -> Seq<u8>
    decreases ps.len(),
{
    if ps.len() == 0 {
        Seq::empty()
    } else {
        ps[0].skip(1) + packet_payloads(ps.skip(1))
    }
}

proof fn lemma_split_packets_shape(frame: Seq<u8>, budget: nat)
    requires
        1 <= budget <= 255,
    ensures
        packet_payloads(split_packets(frame, budget)) == frame,
        forall|i: int|
            0 <= i < split_packets(frame, budget).len() ==> {
                let p = #[trigger] split_packets(frame, budget)[i];
                &&& 2 <= p.len() <= budget + 1
                &&& p[0] == p.len() - 1
            },
        frame.len() >= 1 ==> split_packets(frame, budget).len() >= 1,
    decreases frame.len(),
{
    let ps = split_packets(frame, budget);
    if frame.len() == 0 {
        assert(frame == Seq::<u8>::empty());
    } else if frame.len() <= budget {
        assert(ps == seq![packet(frame)]);
        assert(ps.skip(1) == Seq::<Seq<u8>>::empty());
        assert(packet(frame).skip(1) == frame);
        assert(packet_payloads(ps.skip(1)) == Seq::<u8>::empty());
        assert(packet_payloads(ps) == ps[0].skip(1) + packet_payloads(ps.skip(1)));
        assert(frame + Seq::<u8>::empty() == frame);
    } else {
        let first = frame.take(budget as int);
        let rest = frame.skip(budget as int);
        lemma_split_packets_shape(rest, budget);
        let tail = split_packets(rest, budget);
        assert(ps == seq![packet(first)] + tail);
        assert(ps[0] == packet(first));
        assert(ps.skip(1) == tail);
        assert(packet(first).skip(1) == first);
        assert(first + rest == frame);
        assert(packet_payloads(ps) == ps[0].skip(1) + packet_payloads(ps.skip(1)));
        assert forall|i: int| 0 <= i < ps.len() implies {
            let p = #[trigger] ps[i];
            &&& 2 <= p.len() <= budget + 1
            &&& p[0] == p.len() - 1
        } by {
            if i > 0 {
                assert(ps[i] == tail[i - 1]);
            }
        }
    }
}

/// Every packet [`chunk`] makes on a channel of at least twenty bytes
/// carries between one and `mtu - 1` frame bytes, its first byte counts them,
/// and the packets' frame bytes, taken in order, are the frame.
pub proof fn law_chunk_packets(frame: Seq<u8>, mtu: nat)
    requires
        20 <= mtu <= 256,
        1 <= frame.len(),
    ensures
        chunk_spec(frame, mtu).len() >= 1,
        packet_payloads(chunk_spec(frame, mtu)) == frame,
        forall|i: int|
            0 <= i < chunk_spec(frame, mtu).len() ==> {
                let p = #[trigger] chunk_spec(frame, mtu)[i];
                &&& 2 <= p.len() <= mtu
                &&& p[0] == p.len() - 1
            },
{
    lemma_split_packets_shape(frame, chunk_budget(mtu));
    if frame.len() <= 16 {
        lemma_split_packets_shape(frame, chunk_budget(mtu));
        assert(split_packets(frame, chunk_budget(mtu)) == seq![packet(frame)]);
    }
}

/// Decoding the packets [`chunk`] makes, one notification at a time, is
/// decoding the whole frame at once. This needs every length byte to be
/// exact, so a packet's budget of `mtu - 1` bytes must fit a length byte.
pub proof fn law_chunks_reassemble(m: DecoderModel, frame: Seq<u8>, mtu: nat)
    requires
        mtu <= 256,
    ensures
        run_notifications(m, chunk_spec(frame, mtu)) == run(m, frame),
{
    if frame.len() <= 16 {
        lemma_run_notifications_one(m, packet(frame));
        lemma_packet_payload(frame);
    } else {
        lemma_split_packets(m, frame, chunk_budget(mtu));
    }
}

/// A frame split into packets on any channel comes out of the decoder whole,
/// provided a packet's budget fits its length byte.
pub proof fn law_chunked_frame_round_trip(m: DecoderModel, d: Seq<u8>, mtu: nat)
    requires
        !m.odd_sync,
        m.address != SYNC,
        1 <= d.len() <= 255,
        mtu <= 256,
    ensures
        run_notifications(m, chunk_spec(frame_bytes(m.address, d), mtu)).1 == seq![d],
{
    law_chunks_reassemble(m, frame_bytes(m.address, d), mtu);
    law_frame_round_trip(m, d);
}

} // verus!
