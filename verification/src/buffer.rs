//! The receive buffer of the agent channel: channel data goes in at the
//! back in whatever pieces it arrives, whole packets come out at the front.

use vstd::prelude::*;
use bytes::BytesMut;
use crate::framing::{after_frame, be_value, first_payload, has_frame, HEADER_LEN};

verus! {

/// Room set aside for a new buffer, enough for one packet of the usual size.
pub const INITIAL_CAPACITY: usize = 2048;

#[verifier::external_type_specification]
#[verifier::external_body]
pub struct ExBytesMut(bytes::BytesMut);

/// The bytes that a `BytesMut` holds, first to last.
pub uninterp spec fn held_bytes(b: BytesMut) -> Seq<u8>;

/// `BytesMut::with_capacity` gives a buffer that holds no bytes.
pub assume_specification[ BytesMut::with_capacity ](capacity: usize) -> (b: BytesMut)
    ensures
        held_bytes(b) == Seq::<u8>::empty(),
;

/// `BytesMut::len` counts the bytes held.
pub assume_specification[ BytesMut::len ](b: &BytesMut) -> (n: usize)
    ensures
        n == held_bytes(*b).len(),
;

/// `BytesMut::extend_from_slice` copies the slice behind the bytes already
/// held. It stops the program where the new length would pass `usize::MAX`,
/// so that case is left out. Like any call that allocates, it also stops
/// where the memory cannot be had; nothing is said of that.
pub assume_specification[ BytesMut::extend_from_slice ](b: &mut BytesMut, extend: &[u8])
    requires
        held_bytes(*old(b)).len() + extend@.len() <= usize::MAX,
    ensures
        held_bytes(*final(b)) == held_bytes(*old(b)) + extend@,
;

/// `BytesMut::split_to` hands out the first `at` bytes and keeps the rest.
/// It stops the program where `at` is past the end, so that case is left
/// out.
pub assume_specification[ BytesMut::split_to ](b: &mut BytesMut, at: usize) -> (front: BytesMut)
    requires
        at <= held_bytes(*old(b)).len(),
    ensures
        held_bytes(front) == held_bytes(*old(b)).subrange(0, at as int),
        held_bytes(*final(b)) == held_bytes(*old(b)).subrange(
            at as int,
            held_bytes(*old(b)).len() as int,
        ),
;

/// Indexing a `BytesMut` reads the byte held at that place.
#[verifier::external_body]
fn byte_at(b: &BytesMut, i: usize) -> (byte: u8)
    requires
        i < held_bytes(*b).len(),
    ensures
        byte == held_bytes(*b)[i as int],
{
    b[i]
}

/// Slicing a `BytesMut` and `to_vec` copy the bytes held in that range.
#[verifier::external_body]
fn copy_range(b: &BytesMut, from: usize, to: usize) -> (bytes: Vec<u8>)
    requires
        from <= to <= held_bytes(*b).len(),
    ensures
        bytes@ == held_bytes(*b).subrange(from as int, to as int),
{
    b[from..to].to_vec()
}

pub struct PacketBuffer {
    bytes: BytesMut,
}

impl View for PacketBuffer {
    type V = Seq<u8>;

    /// The bytes received and not yet handed out as packets.
    closed spec fn view(&self) -> Seq<u8> {
        held_bytes(self.bytes)
    }
}

impl PacketBuffer {
    pub fn new() -> (buffer: Self)
        ensures
            buffer@ == Seq::<u8>::empty(),
    {
        PacketBuffer { bytes: BytesMut::with_capacity(INITIAL_CAPACITY) }
    }

    pub fn len(&self) -> (n: usize)
        ensures
            n == self@.len(),
    {
        self.bytes.len()
    }

    /// Puts `data` behind what is buffered. Returns `false`, and buffers
    /// nothing, where the buffer would grow past what a length can count.
    pub fn push_data(&mut self, data: &[u8]) -> (stored: bool)
        ensures
            stored <==> old(self)@.len() + data@.len() <= usize::MAX,
            stored ==> final(self)@ == old(self)@ + data@,
            !stored ==> final(self)@ == old(self)@,
    {
        if data.len() > usize::MAX - self.bytes.len() {
            return false;
        }
        self.bytes.extend_from_slice(data);
        true
    }

    /// Whether a whole frame stands at the front.
    pub fn has_packet(&self) -> (whole: bool)
        ensures
            whole == has_frame(self@),
    {
        let n = self.bytes.len();
        if n < HEADER_LEN {
            return false;
        }
        let len = self.announced_len();
        n - HEADER_LEN >= len
    }

    /// The payload length that the four bytes at the front announce.
    fn announced_len(&self) -> (len: usize)
        requires
            self@.len() >= 4,
        ensures
            len == be_value(self@),
    {
        let b0: u32 = byte_at(&self.bytes, 0) as u32;
        let b1: u32 = byte_at(&self.bytes, 1) as u32;
        let b2: u32 = byte_at(&self.bytes, 2) as u32;
        let b3: u32 = byte_at(&self.bytes, 3) as u32;
        (b0 * 16777216 + b1 * 65536 + b2 * 256 + b3) as usize
    }

    /// Takes the packet at the front, if a whole one is buffered. Otherwise
    /// the buffer is left as it is.
    pub fn take_packet(&mut self) -> (packet: Option<Vec<u8>>)
        ensures
            packet.is_some() <==> has_frame(old(self)@),
            packet matches Some(p) ==> p@ == first_payload(old(self)@) && final(self)@
                == after_frame(old(self)@),
            packet.is_none() ==> final(self)@ == old(self)@,
    {
        if !self.has_packet() {
            return None;
        }
        let held = self.bytes.len();
        let len = self.announced_len();
        assert(HEADER_LEN + len <= held);
        let end = HEADER_LEN + len;
        let packet = copy_range(&self.bytes, HEADER_LEN, end);
        let _front = self.bytes.split_to(end);
        Some(packet)
    }
}

} // verus!
