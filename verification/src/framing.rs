//! Length-prefixed packets: a four-byte big-endian length, then that many
//! bytes of payload.

use vstd::prelude::*;

verus! {

/// Number of bytes in the length prefix.
pub const HEADER_LEN: usize = 4;

/// The four bytes of `n`, most significant first.
pub open spec fn be_bytes(n: nat) -> Seq<u8> {
    seq![
        ((n / 16777216) % 256) as u8,
        ((n / 65536) % 256) as u8,
        ((n / 256) % 256) as u8,
        (n % 256) as u8,
    ]
}

/// The number whose big-endian bytes open `s`.
pub open spec fn be_value(s: Seq<u8>) -> nat
    recommends
        s.len() >= 4,
{
    (s[0] as nat) * 16777216 + (s[1] as nat) * 65536 + (s[2] as nat) * 256 + (s[3] as nat)
}

/// A payload fits a frame when its length fits the prefix.
pub open spec fn fits_frame(payload: Seq<u8>) -> bool {
    payload.len() <= u32::MAX
}

/// The wire form of one payload.
pub open spec fn frame(payload: Seq<u8>) -> Seq<u8> {
    be_bytes(payload.len()) + payload
}

/// The wire form of several payloads, back to back.
pub open spec fn frames(payloads: Seq<Seq<u8>>) -> Seq<u8>
    decreases payloads.len(),
{
    if payloads.len() == 0 {
        Seq::empty()
    } else {
        frame(payloads[0]) + frames(payloads.subrange(1, payloads.len() as int))
    }
}

/// Whether `s` opens with one whole frame.
pub open spec fn has_frame(s: Seq<u8>) -> bool {
    s.len() >= 4 && s.len() >= 4 + be_value(s)
}

/// The payload of the frame that opens `s`.
pub open spec fn first_payload(s: Seq<u8>) -> Seq<u8>
    recommends
        has_frame(s),
{
    s.subrange(4, 4 + be_value(s) as int)
}

/// What follows the frame that opens `s`.
pub open spec fn after_frame(s: Seq<u8>) -> Seq<u8>
    recommends
        has_frame(s),
{
    s.subrange(4 + be_value(s) as int, s.len() as int)
}

/// The payloads of the first `n` frames of `s`, or `None` where `s` ends
/// before the `n`-th frame does.
pub open spec fn read_frames(s: Seq<u8>, n: nat) -> Option<Seq<Seq<u8>>>
    decreases n,
{
    if n == 0 {
        Some(Seq::empty())
    } else if !has_frame(s) {
        None
    } else {
        match read_frames(after_frame(s), (n - 1) as nat) {
            Some(rest) => Some(seq![first_payload(s)] + rest),
            None => None,
        }
    }
}

#[derive(Clone, Copy, Debug, PartialEq, Eq, Structural)]
pub enum FramingError {
    /// The input ended inside the length prefix or inside the payload.
    UnexpectedEof,
    /// The payload is longer than the length prefix can say.
    PayloadTooLarge,
}

impl FramingError {
    /// A text for logs and error reports.
    pub fn message(&self) -> (text: String)
        ensures
            text@ == match *self {
                FramingError::UnexpectedEof => "unexpected end of stream inside a frame"@,
                FramingError::PayloadTooLarge => "payload too large for a frame"@,
            },
    {
        match self {
            FramingError::UnexpectedEof => "unexpected end of stream inside a frame".to_string(),
            FramingError::PayloadTooLarge => "payload too large for a frame".to_string(),
        }
    }
}

/// A read position in a borrowed run of bytes.
pub struct ByteReader<'a> {
    data: &'a [u8],
    pos: usize,
}

impl<'a> ByteReader<'a> {
    #[verifier::type_invariant]
    spec fn inv(&self) -> bool {
        self.pos <= self.data@.len()
    }

    /// The bytes not yet read.
    pub closed spec fn remaining(&self) -> Seq<u8> {
        self.data@.subrange(self.pos as int, self.data@.len() as int)
    }

    pub fn new(data: &'a [u8]) -> (reader: Self)
        ensures
            reader.remaining() == data@,
    {
        assert(data@.subrange(0, data@.len() as int) =~= data@);
        ByteReader { data, pos: 0 }
    }

    /// How many bytes are left.
    pub fn remaining_len(&self) -> (n: usize)
        ensures
            n == self.remaining().len(),
    {
        proof {
            use_type_invariant(self);
        }
        self.data.len() - self.pos
    }
}

/// Splits `n` into its four big-endian bytes.
pub fn length_prefix(n: u32) -> (bytes: [u8; 4])
    ensures
        bytes@ == be_bytes(n as nat),
{
    let bytes: [u8; 4] = [
        ((n / 16777216) % 256) as u8,
        ((n / 65536) % 256) as u8,
        ((n / 256) % 256) as u8,
        (n % 256) as u8,
    ];
    assert(bytes@ =~= be_bytes(n as nat));
    bytes
}

/// Reads the length that the four bytes at `at` spell.
pub fn decode_length(data: &[u8], at: usize) -> (n: u32)
    requires
        at + 4 <= data@.len(),
    ensures
        n as nat == be_value(data@.subrange(at as int, data@.len() as int)),
{
    let b0: u32 = data[at] as u32;
    let b1: u32 = data[at + 1] as u32;
    let b2: u32 = data[at + 2] as u32;
    let b3: u32 = data[at + 3] as u32;
    b0 * 16777216 + b1 * 65536 + b2 * 256 + b3
}

/// Appends the frame of `packet` to `writer`. A payload longer than the
/// prefix can say is refused and nothing is written.
pub fn write_framed(writer: &mut Vec<u8>, packet: &[u8]) -> (res: Result<(), FramingError>)
    ensures
        res.is_ok() <==> fits_frame(packet@),
        res.is_ok() ==> final(writer)@ == old(writer)@ + frame(packet@),
        res.is_err() ==> res == Err::<(), FramingError>(FramingError::PayloadTooLarge)
            && final(writer)@ == old(writer)@,
{
    if packet.len() > 0xffff_ffff {
        return Err(FramingError::PayloadTooLarge);
    }
    let prefix = length_prefix(packet.len() as u32);
    let ghost before = writer@;
    writer.push(prefix[0]);
    writer.push(prefix[1]);
    writer.push(prefix[2]);
    writer.push(prefix[3]);
    assert(writer@ =~= before + be_bytes(packet@.len()));
    append_bytes(writer, packet);
    assert(before + be_bytes(packet@.len()) + packet@ =~= before + frame(packet@));
    Ok(())
}

/// Puts a copy of `bytes` behind what `target` holds.
pub fn append_bytes(target: &mut Vec<u8>, bytes: &[u8])
    ensures
        final(target)@ == old(target)@ + bytes@,
{
    let ghost before = target@;
    let mut i: usize = 0;
    assert(before + bytes@.subrange(0, 0) =~= before);
    while i < bytes.len()
        invariant
            i <= bytes@.len(),
            target@ == before + bytes@.subrange(0, i as int),
        decreases bytes@.len() - i,
    {
        target.push(bytes[i]);
        assert(before + bytes@.subrange(0, i + 1) =~= (before + bytes@.subrange(0, i as int)).push(
            bytes@[i as int],
        ));
        i = i + 1;
    }
    assert(bytes@.subrange(0, i as int) =~= bytes@);
}

/// Reads one frame from `reader` and returns its payload. Where the bytes
/// left do not hold a whole frame the read fails and the reader stays where
/// it was.
pub fn read_framed(reader: &mut ByteReader) -> (res: Result<Vec<u8>, FramingError>)
    ensures
        res.is_ok() <==> has_frame(old(reader).remaining()),
        res matches Ok(payload) ==> payload@ == first_payload(old(reader).remaining())
            && final(reader).remaining() == after_frame(old(reader).remaining()),
        res matches Err(e) ==> e == FramingError::UnexpectedEof && final(reader).remaining()
            == old(reader).remaining(),
{
    proof {
        use_type_invariant(&*reader);
    }
    let left = reader.data.len() - reader.pos;
    if left < HEADER_LEN {
        return Err(FramingError::UnexpectedEof);
    }
    let len = decode_length(reader.data, reader.pos) as usize;
    if left - HEADER_LEN < len {
        return Err(FramingError::UnexpectedEof);
    }
    let start = reader.pos + HEADER_LEN;
    let ghost rem = reader.remaining();
    let mut payload: Vec<u8> = Vec::with_capacity(len);
    let mut i: usize = 0;
    while i < len
        invariant
            i <= len,
            start + len <= reader.data@.len(),
            reader.data@.len() <= usize::MAX,
            payload@ == reader.data@.subrange(start as int, start + i),
        decreases len - i,
    {
        payload.push(reader.data[start + i]);
        assert(reader.data@.subrange(start as int, start + i + 1) =~= reader.data@.subrange(
            start as int,
            start + i,
        ).push(reader.data@[start + i]));
        i = i + 1;
    }
    assert(payload@ =~= first_payload(rem));
    reader.pos = start + len;
    assert(reader.remaining() =~= after_frame(rem));
    Ok(payload)
}

/// Bytes that start with the frame of a payload hold that frame: reading
/// gives the payload back and leaves what followed it.
pub proof fn lemma_round_trip(payload: Seq<u8>, rest: Seq<u8>)
    requires
        fits_frame(payload),
    ensures
        has_frame(frame(payload) + rest),
        first_payload(frame(payload) + rest) == payload,
        after_frame(frame(payload) + rest) == rest,
{
    let s = frame(payload) + rest;
    lemma_be_value_of_bytes(payload.len());
    assert(s[0] == be_bytes(payload.len())[0]);
    assert(s[1] == be_bytes(payload.len())[1]);
    assert(s[2] == be_bytes(payload.len())[2]);
    assert(s[3] == be_bytes(payload.len())[3]);
    assert(be_value(s) == payload.len());
    assert(first_payload(s) =~= payload);
    assert(after_frame(s) =~= rest);
}

/// Bytes that arrive behind a whole frame change nothing about it: the frame
/// is still whole, holds the same payload, and what follows it is what
/// followed before with the new bytes behind.
pub proof fn lemma_frame_stable(buffered: Seq<u8>, more: Seq<u8>)
    requires
        has_frame(buffered),
    ensures
        has_frame(buffered + more),
        first_payload(buffered + more) == first_payload(buffered),
        after_frame(buffered + more) == after_frame(buffered) + more,
{
    let joined = buffered + more;
    assert(joined[0] == buffered[0]);
    assert(joined[1] == buffered[1]);
    assert(joined[2] == buffered[2]);
    assert(joined[3] == buffered[3]);
    assert(be_value(joined) == be_value(buffered));
    assert(first_payload(joined) =~= first_payload(buffered));
    assert(after_frame(joined) =~= after_frame(buffered) + more);
}

/// The big-endian bytes of a length spell that length.
pub proof fn lemma_be_value_of_bytes(n: nat)
    requires
        n <= u32::MAX,
    ensures
        be_value(be_bytes(n)) == n,
{
    let b = be_bytes(n);
    assert(b[0] as nat == (n / 16777216) % 256);
    assert(b[1] as nat == (n / 65536) % 256);
    assert(b[2] as nat == (n / 256) % 256);
    assert(b[3] as nat == n % 256);
}

/// Every payload of the sequence fits a frame.
pub open spec fn all_fit(payloads: Seq<Seq<u8>>) -> bool {
    forall|i: int| 0 <= i < payloads.len() ==> fits_frame(#[trigger] payloads[i])
}

/// Payloads written back to back are read back, in order, as the same
/// payloads.
pub proof fn lemma_concatenation(payloads: Seq<Seq<u8>>)
    requires
        all_fit(payloads),
    ensures
        read_frames(frames(payloads), payloads.len()) == Some(payloads),
    decreases payloads.len(),
{
    if payloads.len() == 0 {
        assert(payloads =~= Seq::<Seq<u8>>::empty());
    } else {
        let tail = payloads.subrange(1, payloads.len() as int);
        assert(all_fit(tail)) by {
            assert forall|i: int| 0 <= i < tail.len() implies fits_frame(#[trigger] tail[i]) by {
                assert(tail[i] == payloads[i + 1]);
            }
        }
        lemma_concatenation(tail);
        let s = frames(payloads);
        assert(fits_frame(payloads[0]));
        assert(s == frame(payloads[0]) + frames(tail));
        lemma_round_trip(payloads[0], frames(tail));
        assert(read_frames(after_frame(s), tail.len()) == Some(tail));
        assert(seq![payloads[0]] + tail =~= payloads);
    }
}

} // verus!
