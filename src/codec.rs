//! Framing of packets on a byte stream: finding them in received bytes and
//! encoding them for sending.

use crate::error::PacketError;
use crate::packet::{
    body_end, hdr_id_len, hdr_offset, is_valid_packet, Packet, CHECKSUM_SIZE, HEADER_SIZE,
};
use bytes::Buf;
use bytes::BytesMut;
use electricui_embedded::decoder::Decoder as EuiDecoder;
use electricui_embedded::decoder::Error as EuiDecoderError;
use vstd::prelude::*;
use vstd::slice::{slice_subrange, slice_to_vec};

verus! {

#[verifier::external_type_specification]
#[verifier::external_body]
pub struct ExBytesMut(BytesMut);

#[verifier::external_type_specification]
#[verifier::external_body]
pub struct ExEuiDecoderError(EuiDecoderError);

#[verifier::external_type_specification]
#[verifier::external_body]
pub struct ExEuiDecoder<'buf, const N: usize>(EuiDecoder<'buf, N>);

/// The bytes that a `BytesMut` holds.
pub uninterp spec fn buffer_bytes(b: BytesMut) -> Seq<u8>;

/// Names what electricui-embedded's `Framing::encode_buf` (a COBS encoding
/// ended by a zero byte) writes for the bytes of a packet.
pub uninterp spec fn frame_of(raw: Seq<u8>) -> Seq<u8>;

/// Relies on `BytesMut::len`.
#[verifier::external_body]
fn buf_len(b: &BytesMut) -> (r: usize)
    ensures
        r == buffer_bytes(*b).len(),
{
    b.len()
}

/// Relies on indexing a `BytesMut` through its slice.
#[verifier::external_body]
fn buf_get(b: &BytesMut, i: usize) -> (r: u8)
    requires
        i < buffer_bytes(*b).len(),
    ensures
        r == buffer_bytes(*b)[i as int],
{
    b[i]
}

/// Relies on `Buf::advance` for `BytesMut`: it drops the first `n` bytes and
/// panics when fewer are held.
#[verifier::external_body]
fn buf_advance(b: &mut BytesMut, n: usize)
    requires
        n <= buffer_bytes(*old(b)).len(),
    ensures
        buffer_bytes(*final(b)) == buffer_bytes(*old(b)).subrange(
            n as int,
            buffer_bytes(*old(b)).len() as int,
        ),
{
    b.advance(n)
}

/// Relies on `BytesMut::clear`.
#[verifier::external_body]
fn buf_clear(b: &mut BytesMut)
    ensures
        buffer_bytes(*final(b)) == Seq::<u8>::empty(),
{
    b.clear()
}

/// Relies on `BytesMut::resize`: it truncates, or extends with `value`.
#[verifier::external_body]
fn buf_resize(b: &mut BytesMut, n: usize, value: u8)
    ensures
        buffer_bytes(*final(b)).len() == n,
        n <= buffer_bytes(*old(b)).len() ==> buffer_bytes(*final(b)) == buffer_bytes(
            *old(b),
        ).subrange(0, n as int),
{
    b.resize(n, value)
}

/// A COBS frame: no zero byte but the last, which ends it.
pub open spec fn is_cobs_frame(f: Seq<u8>) -> bool {
    f.len() >= 2 && f[f.len() - 1] == 0 && forall|i: int| 0 <= i < f.len() - 1 ==> f[i] != 0
}

/// The acceptor, having been fed `fed`, is between frames: it was just
/// built, a zero byte ended what came before, or it just completed a frame.
pub open spec fn at_frame_boundary(capacity: nat, fed: Seq<u8>) -> bool {
    fed.len() == 0 || fed[fed.len() - 1] == 0 || acceptor_out(capacity, fed) matches Some(Some(_))
}

/// No run of nonzero bytes is longer than 253, so COBS never needs a
/// maximal group for it.
pub open spec fn short_runs(raw: Seq<u8>) -> bool {
    forall|i: int|
        0 <= i && i + 254 <= raw.len() ==> #[trigger] raw.subrange(i, i + 254).contains(0u8)
}

/// A packet that the acceptor takes whole from its frame: valid, exactly as
/// long as its header says, without the offset flag, within the storage,
/// and with short runs.
pub open spec fn frameable(capacity: nat, raw: Seq<u8>) -> bool {
    is_valid_packet(raw) && raw.len() == body_end(raw) + CHECKSUM_SIZE && !hdr_offset(raw)
        && raw.len() <= capacity && short_runs(raw)
}

/// Fed after `fed`, the frame `f` completes `raw` at its last byte before
/// the terminator, and the acceptor answers nothing at every other byte.
pub open spec fn yields_at_end(capacity: nat, fed: Seq<u8>, f: Seq<u8>, raw: Seq<u8>) -> bool {
    f.len() >= 2 && forall|j: int|
        0 <= j < f.len() ==> #[trigger] acceptor_out(capacity, fed + f.subrange(0, j + 1)) == (
        if j == f.len() - 2 {
            Some(Some(raw))
        } else {
            None
        })
}

/// Relies on electricui-embedded's `Framing::encode_buf`: it writes the
/// COBS frame at the start of `dst` and returns its length; `dst` must have
/// room for the longest frame of that many bytes, or it panics.  The
/// acceptor of the same crate (`Decoder::decode`) undoes it: between
/// frames it resets its state, each group code stands for a zero byte
/// after the group, and its header state machine ends on the last
/// checksum byte, where `Packet::new` accepts a valid packet.
#[verifier::external_body]
fn encode_frame(raw: &[u8], dst: &mut BytesMut) -> (r: usize)
    requires
        buffer_bytes(*old(dst)).len() >= max_encoded_len(raw@.len()),
    ensures
        r == frame_of(raw@).len(),
        r <= buffer_bytes(*old(dst)).len(),
        buffer_bytes(*final(dst)).len() == buffer_bytes(*old(dst)).len(),
        buffer_bytes(*final(dst)).subrange(0, r as int) == frame_of(raw@),
        is_cobs_frame(buffer_bytes(*final(dst)).subrange(0, r as int)),
        forall|cap: nat, h: Seq<u8>|
            at_frame_boundary(cap, h) && frameable(cap, raw@) ==> #[trigger] yields_at_end(
                cap,
                h,
                buffer_bytes(*final(dst)).subrange(0, r as int),
                raw@,
            ),
{
    electricui_embedded::wire::Framing::encode_buf(raw, &mut dst[..])
}

/// What electricui-embedded's frame acceptor, built by `Decoder::new` with
/// `capacity` bytes of storage, returns for the last of the bytes `fed`
/// after being handed all of them, one `Decoder::decode` call each:
/// `None` for nothing yet, `Some(Some(p))` for the bytes of a completed
/// packet, `Some(None)` for a rejection.  The acceptor's state is set by
/// those bytes alone.
pub uninterp spec fn acceptor_out(capacity: nat, fed: Seq<u8>) -> Option<Option<Seq<u8>>>;

/// Relies on electricui-embedded's `Decoder::new`: a fresh acceptor over
/// the given storage, which nothing else holds.
#[verifier::external_body]
fn fresh_acceptor<'buf, const N: usize>(storage: &'buf mut [u8; N]) -> (r: EuiDecoder<'buf, N>) {
    EuiDecoder::new(storage)
}

/// Relies on electricui-embedded's `Decoder::decode`: it answers as
/// `acceptor_out` says for the bytes `dec` records as fed, plus this one.
/// A zero byte ends any frame and yields nothing, and a frame is handed out
/// only after `Packet::new` accepted its bytes, which the storage of `N`
/// bytes held.  The record itself is kept by the caller.
#[verifier::external_body]
fn feed_byte<const N: usize>(dec: &mut Decoder<'_, N>, byte: u8) -> (r: Result<
    Option<Vec<u8>>,
    EuiDecoderError,
>)
    ensures
        final(dec).fed_bytes() == old(dec).fed_bytes(),
        byte == 0 ==> r matches Ok(None),
        r matches Ok(Some(p)) ==> is_valid_packet(p@) && p@.len() <= N,
        match acceptor_out(N as nat, old(dec).fed_bytes().push(byte)) {
            None => r matches Ok(None),
            Some(Some(p)) => r matches Ok(Some(v)) && v@ == p,
            Some(None) => r is Err,
        },
{
    match dec.dec.decode(byte) {
        Ok(Some(p)) => Ok(Some(p.as_ref().to_vec())),
        Ok(None) => Ok(None),
        Err(e) => Err(e),
    }
}

/// The acceptor, having been fed `fed`, stops (completes or rejects) at
/// byte `k` of `s`.
pub open spec fn stops_at(capacity: nat, fed: Seq<u8>, s: Seq<u8>, k: int) -> bool {
    acceptor_out(capacity, fed + s.subrange(0, k + 1)) is Some
}

/// The outcome of scanning `s` with an acceptor already fed `fed`, as
/// `decode` reports it: the first byte at which the acceptor stops decides
/// the result, the bytes through it are consumed and fed; with no such
/// byte, all of `s` is consumed and fed and nothing is found.
pub open spec fn scan_ok(
    capacity: nat,
    fed: Seq<u8>,
    s: Seq<u8>,
    r: Result<Option<Packet>, ()>,
    rest: Seq<u8>,
    fed_after: Seq<u8>,
) -> bool {
    if forall|k: int| 0 <= k < s.len() ==> !#[trigger] stops_at(capacity, fed, s, k) {
        r == Ok::<Option<Packet>, ()>(None) && rest == Seq::<u8>::empty() && fed_after == fed + s
    } else {
        exists|k: int|
            0 <= k < s.len() && stops_at(capacity, fed, s, k) && (forall|j: int|
                0 <= j < k ==> !#[trigger] stops_at(capacity, fed, s, j)) && s[k] != 0 && rest
                == s.subrange(k + 1, s.len() as int) && fed_after == fed + s.subrange(0, k + 1)
                && match acceptor_out(capacity, fed + s.subrange(0, k + 1)) {
                Some(Some(p)) => r matches Ok(Some(q)) && q@ == p,
                _ => r is Err,
            }
    }
}

/// A buffer holding one frame that, fed from where the acceptor stands,
/// completes a packet at its last byte before the terminator: decoding it
/// returns that packet, feeds the frame up to that byte and leaves the
/// terminator.  With `Encoder::encode`, which gives such frames from any
/// frame boundary, a packet encoded and then decoded comes back unchanged.
pub proof fn lemma_frame_then_decode(capacity: nat, fed: Seq<u8>, f: Seq<u8>, p: Packet)
    requires
        is_cobs_frame(f),
        yields_at_end(capacity, fed, f, p@),
    ensures
        scan_ok(
            capacity,
            fed,
            f,
            Ok(Some(p)),
            f.subrange(f.len() - 1, f.len() as int),
            fed + f.subrange(0, f.len() - 1),
        ),
{
    let k = f.len() - 2;
    assert(acceptor_out(capacity, fed + f.subrange(0, k + 1)) == Some(Some(p@)));
    assert(stops_at(capacity, fed, f, k));
    assert forall|j: int| 0 <= j < k implies !#[trigger] stops_at(capacity, fed, f, j) by {
        assert(acceptor_out(capacity, fed + f.subrange(0, j + 1)) == None::<Option<Seq<u8>>>);
    }
    assert(f[k] != 0);
    assert(exists|i: int|
        0 <= i < f.len() && stops_at(capacity, fed, f, i) && (forall|j: int|
            0 <= j < i ==> !#[trigger] stops_at(capacity, fed, f, j)) && f[i] != 0
            && f.subrange(f.len() - 1, f.len() as int) == f.subrange(i + 1, f.len() as int)
            && fed + f.subrange(0, f.len() - 1) == fed + f.subrange(0, i + 1)
            && match acceptor_out(capacity, fed + f.subrange(0, i + 1)) {
            Some(Some(q)) => Ok::<Option<Packet>, ()>(Some(p)) matches Ok(Some(pp)) && pp@ == q,
            _ => Ok::<Option<Packet>, ()>(Some(p)) is Err,
        }) by {
        assert(f.subrange(f.len() - 1, f.len() as int) == f.subrange(k + 1, f.len() as int));
    }
}

/// The longest COBS frame, terminator included, for `n` raw bytes.
pub open spec fn max_encoded_len(n: nat) -> nat {
    n + (if n == 0 { 1 } else { (n + 253) / 254 }) + 1
}

fn max_encoded_len_exec(n: usize) -> (r: usize)
    requires
        n <= 0x1_0000,
    ensures
        r == max_encoded_len(n as nat),
{
    n + (if n == 0 { 1 } else { (n + 253) / 254 }) + 1
}

/// Why the stream decoder gave up on a frame.
#[derive(Debug)]
pub enum DecoderError {
    EUiDecoder(crate::error::DecoderError),
}

/// Finds packets in received bytes.
pub struct Decoder<'buf, const N: usize> {
    dec: EuiDecoder<'buf, N>,
    fed: Ghost<Seq<u8>>,
}

impl<'buf, const N: usize> Decoder<'buf, N> {
    /// Every byte handed to the frame acceptor since it was built, in order.
    pub closed spec fn fed_bytes(&self) -> Seq<u8> {
        self.fed@
    }

    /// A decoder whose acceptor keeps frames in `storage`.
    pub fn new(storage: &'buf mut [u8; N]) -> (r: Self)
        ensures
            r.fed_bytes() == Seq::<u8>::empty(),
    {
        Decoder { dec: fresh_acceptor(storage), fed: Ghost(Seq::empty()) }
    }

    fn feed(&mut self, byte: u8) -> (r: Result<Option<Vec<u8>>, EuiDecoderError>)
        ensures
            final(self).fed_bytes() == old(self).fed_bytes().push(byte),
            byte == 0 ==> r matches Ok(None),
            r matches Ok(Some(p)) ==> is_valid_packet(p@) && p@.len() <= N,
            match acceptor_out(N as nat, final(self).fed_bytes()) {
                None => r matches Ok(None),
                Some(Some(p)) => r matches Ok(Some(v)) && v@ == p,
                Some(None) => r is Err,
            },
    {
        let r = feed_byte(self, byte);
        self.fed = Ghost(self.fed@.push(byte));
        r
    }

    /// Scans `src` byte by byte for the end of a frame.  On a frame it drops
    /// the bytes through that frame's last byte and returns the packet; on
    /// a corrupt frame it drops the bytes scanned through the offending one
    /// and reports it, leaving the rest for the next call; when the bytes
    /// run out it drops them all and returns nothing.  The acceptor is
    /// handed each byte once, in order, up to the one it stopped at.
    pub fn decode(&mut self, src: &mut BytesMut) -> (r: Result<Option<Packet>, DecoderError>)
        ensures
            scan_ok(
                N as nat,
                old(self).fed_bytes(),
                buffer_bytes(*old(src)),
                match r {
                    Ok(p) => Ok(p),
                    Err(_) => Err(()),
                },
                buffer_bytes(*final(src)),
                final(self).fed_bytes(),
            ),
            r matches Ok(Some(p)) ==> is_valid_packet(p@) && p@.len() <= N,
    {
        let ghost s = buffer_bytes(*src);
        let ghost f0 = self.fed_bytes();
        assert(s.subrange(0, 0) =~= Seq::<u8>::empty());
        assert(f0 + s.subrange(0, 0) =~= f0);
        let n = buf_len(src);
        let mut idx: usize = 0;
        while idx < n
            invariant
                buffer_bytes(*src) == s,
                s == buffer_bytes(*old(src)),
                f0 == old(self).fed_bytes(),
                self.fed_bytes() == f0 + s.subrange(0, idx as int),
                forall|j: int| 0 <= j < idx ==> !#[trigger] stops_at(N as nat, f0, s, j),
                n == s.len(),
                idx <= n,
            decreases n - idx,
        {
            let b = buf_get(src, idx);
            let r = self.feed(b);
            assert(f0 + s.subrange(0, idx + 1) =~= (f0 + s.subrange(0, idx as int)).push(b));
            let ghost k = idx as int;
            match r {
                Err(e) => {
                    buf_advance(src, idx + 1);
                    assert(stops_at(N as nat, f0, s, k));
                    assert(scan_ok(
                        N as nat,
                        f0,
                        s,
                        Err(()),
                        buffer_bytes(*src),
                        self.fed_bytes(),
                    ));
                    return Err(DecoderError::EUiDecoder(crate::error::DecoderError(e)));
                },
                Ok(None) => {
                    assert(!stops_at(N as nat, f0, s, k));
                },
                Ok(Some(p)) => {
                    buf_advance(src, idx + 1);
                    let pk = Packet::new_unchecked(p);
                    assert(stops_at(N as nat, f0, s, k));
                    assert(scan_ok(
                        N as nat,
                        f0,
                        s,
                        Ok(Some(pk)),
                        buffer_bytes(*src),
                        self.fed_bytes(),
                    ));
                    return Ok(Some(pk));
                },
            }
            idx = idx + 1;
        }
        assert(s.subrange(0, n as int) =~= s);
        buf_clear(src);
        Ok(None)
    }
}

/// Why a packet could not be encoded for sending.
#[derive(Clone, Copy, Debug, PartialEq, Eq, Structural)]
pub enum EncoderError {
    EUiPacket(PacketError),
}

/// The number of bytes a packet's header says it spans, or why it cannot.
pub open spec fn wire_size_spec(s: Seq<u8>) -> Result<nat, PacketError> {
    if s.len() < HEADER_SIZE {
        Err(PacketError::MissingHeader)
    } else if hdr_id_len(s) == 0 {
        Err(PacketError::InvalidMessageIdLength)
    } else if s.len() < body_end(s) + CHECKSUM_SIZE {
        Err(PacketError::IncompletePayload)
    } else {
        Ok(body_end(s) + CHECKSUM_SIZE as nat)
    }
}

/// Encodes packets into frames.
#[derive(Debug, Default)]
pub struct Encoder {}

impl Encoder {
    pub fn new() -> (r: Self) {
        Encoder {  }
    }

    /// Replaces the contents of `dst` with the frame of the packet's
    /// header, id, payload and checksum.
    pub fn encode(&mut self, item: &Packet, dst: &mut BytesMut) -> (r: Result<(), EncoderError>)
        ensures
            match wire_size_spec(item@) {
                Ok(size) => r is Ok && buffer_bytes(*final(dst)) == frame_of(
                    item@.subrange(0, size as int),
                ) && buffer_bytes(*final(dst)).len() <= max_encoded_len(size) && is_cobs_frame(
                    buffer_bytes(*final(dst)),
                ) && forall|cap: nat, h: Seq<u8>|
                    at_frame_boundary(cap, h) && frameable(cap, item@.subrange(0, size as int))
                        ==> #[trigger] yields_at_end(
                        cap,
                        h,
                        buffer_bytes(*final(dst)),
                        item@.subrange(0, size as int),
                    ),
                Err(e) => r == Err::<(), EncoderError>(EncoderError::EUiPacket(e))
                    && buffer_bytes(*final(dst)) == buffer_bytes(*old(dst)),
            },
    {
        let raw = item.as_bytes();
        if raw.len() < HEADER_SIZE {
            return Err(EncoderError::EUiPacket(PacketError::MissingHeader));
        }
        let id_len = item.id_length_raw() as usize;
        if id_len == 0 {
            return Err(EncoderError::EUiPacket(PacketError::InvalidMessageIdLength));
        }
        let size = HEADER_SIZE + id_len + item.data_length() as usize + CHECKSUM_SIZE;
        if raw.len() < size {
            return Err(EncoderError::EUiPacket(PacketError::IncompletePayload));
        }
        let body = slice_subrange(raw, 0, size);
        buf_resize(dst, max_encoded_len_exec(size), 0);
        let written = encode_frame(body, dst);
        buf_resize(dst, written, 0);
        Ok(())
    }
}

/// Both halves of the stream codec.
pub struct Codec<'buf, const N: usize> {
    dec: Decoder<'buf, N>,
    enc: Encoder,
}

/// An error of either half of the stream codec.
#[derive(Debug)]
pub enum Error {
    Decoder(DecoderError),
    Encoder(EncoderError),
}

impl<'buf, const N: usize> Codec<'buf, N> {
    /// Every byte the decoding half has handed to the frame acceptor.
    pub closed spec fn fed_bytes(&self) -> Seq<u8> {
        self.dec.fed_bytes()
    }

    /// A codec whose decoding half keeps frames in `storage`.
    pub fn new(storage: &'buf mut [u8; N]) -> (r: Self)
        ensures
            r.fed_bytes() == Seq::<u8>::empty(),
    {
        Codec { dec: Decoder::new(storage), enc: Encoder::new() }
    }

    /// `Decoder::decode` on the decoding half.
    pub fn decode(&mut self, src: &mut BytesMut) -> (r: Result<Option<Packet>, Error>)
        ensures
            r is Err ==> r matches Err(Error::Decoder(_)),
            scan_ok(
                N as nat,
                old(self).fed_bytes(),
                buffer_bytes(*old(src)),
                match r {
                    Ok(p) => Ok(p),
                    Err(_) => Err(()),
                },
                buffer_bytes(*final(src)),
                final(self).fed_bytes(),
            ),
            r matches Ok(Some(p)) ==> is_valid_packet(p@) && p@.len() <= N,
    {
        match self.dec.decode(src) {
            Ok(p) => Ok(p),
            Err(e) => Err(Error::Decoder(e)),
        }
    }

    /// `Encoder::encode` on the encoding half.
    pub fn encode(&mut self, item: &Packet, dst: &mut BytesMut) -> (r: Result<(), Error>)
        ensures
            match wire_size_spec(item@) {
                Ok(size) => r is Ok && buffer_bytes(*final(dst)) == frame_of(
                    item@.subrange(0, size as int),
                ) && buffer_bytes(*final(dst)).len() <= max_encoded_len(size),
                Err(e) => r matches Err(Error::Encoder(EncoderError::EUiPacket(x))) && x == e
                    && buffer_bytes(*final(dst)) == buffer_bytes(*old(dst)),
            },
    {
        match self.enc.encode(item, dst) {
            Ok(()) => Ok(()),
            Err(e) => Err(Error::Encoder(e)),
        }
    }
}

} // verus!
