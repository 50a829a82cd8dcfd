//! WebSocket frames: the header codec, masking, the handshake's accept token,
//! and the steps by which a server receives and sends one frame at a time.
use crate::text::put;
use base64ct::{Base64, Encoding};
use sha1::{Digest, Sha1};
use vstd::prelude::*;
use vstd::string::StringSliceAdditionalSpecFns;

verus! {

/// The text that the handshake appends to the client's key.
pub const SEC_WEBSOCKET_ACCEPT_MAGIC: &'static str = "258EAFA5-E914-47DA-95CA-C5AB0DC85B11";

/// The SHA-1 digest of a message.
pub uninterp spec fn sha1(message: Seq<u8>) -> Seq<u8>;

/// The Base64 text of `data`, in the standard alphabet and with padding.
pub uninterp spec fn base64(data: Seq<u8>) -> Seq<u8>;

/// The length of the padded Base64 text of `n` bytes.
pub open spec fn base64_len(n: nat) -> nat {
    4 * ((n + 2) / 3)
}

/// The value of `Sec-WebSocket-Accept` that answers a client's key.
pub open spec fn accept_token(key: Seq<u8>) -> Seq<u8> {
    base64(sha1(key + SEC_WEBSOCKET_ACCEPT_MAGIC.spec_bytes()))
}

/// Calls `Sha1::digest` of the crate `sha1`. Trusted: the result is the
/// SHA-1 digest of the message, 20 bytes.
#[verifier::external_body]
fn sha1_digest(message: &[u8]) -> (digest: [u8; 20])
    ensures
        digest@ == sha1(message@),
{
    Sha1::digest(message).into()
}

/// Calls `Base64::encode` of the crate `base64ct`. Trusted: the call
/// succeeds exactly when four times the length of `src` fits a `usize` and
/// `dst` has room for the text; it then writes the text at the start of
/// `dst` and leaves the rest as it was. When it fails `dst` is untouched.
#[verifier::external_body]
fn base64_encode(src: &[u8], dst: &mut [u8]) -> (ok: bool)
    ensures
        ok <==> 4 * src@.len() <= usize::MAX && base64_len(src@.len()) <= old(dst)@.len(),
        final(dst)@.len() == old(dst)@.len(),
        ok ==> final(dst)@.subrange(0, base64_len(src@.len()) as int) == base64(src@),
        ok ==> final(dst)@.subrange(base64_len(src@.len()) as int, old(dst)@.len() as int)
            == old(dst)@.subrange(base64_len(src@.len()) as int, old(dst)@.len() as int),
        !ok ==> final(dst)@ == old(dst)@,
{
    match Base64::encode(src, dst) {
        Ok(_) => true,
        Err(_) => false,
    }
}

/// Computes the accept token for a client's `Sec-WebSocket-Key`: the Base64
/// text of the SHA-1 digest of the key followed by the protocol's fixed text.
pub fn sec_websocket_accept_val(key: &str) -> (r: Result<[u8; 28], &'static str>)
    ensures
        r is Ok,
        r->Ok_0@ == accept_token(key.spec_bytes()),
{
    let mut message: Vec<u8> = Vec::new();
    put(&mut message, key.as_bytes());
    put(&mut message, SEC_WEBSOCKET_ACCEPT_MAGIC.as_bytes());
    let key_hash = sha1_digest(message.as_slice());

    let mut key_b64_buff = [0u8; 28];
    if !base64_encode(key_hash.as_slice(), &mut key_b64_buff) {
        return Err("error enoding key hash due to invalid length");
    }
    assert(key_b64_buff@.subrange(0, 28) =~= key_b64_buff@);
    Ok(key_b64_buff)
}

/// What can go wrong while a frame is received or sent.
#[derive(Debug, PartialEq)]
pub enum WebsocketError {
    /// The bytes at hand end before the header does: so many more are needed
    /// before the next try.
    InsufficientData(usize),
    /// The frame is of a kind that is not supported, or does not fit.
    Unsupported(&'static str),
    /// The connection failed while reading or writing.
    NetworkError,
}

/// The header of one frame.
#[derive(Debug)]
pub struct WebsocketFrame {
    /// The opcode, four bits.
    pub opcode: u8,
    /// The length of the payload.
    pub len: usize,
    /// True when the frame ends its message.
    pub fin: bool,
    /// True when the mask bit is set.
    pub masked: bool,
    /// The mask, if the frame carries one.
    pub mask: Option<[u8; 4]>,
}

/// A frame header as plain values.
pub struct FrameView {
    pub opcode: u8,
    pub len: usize,
    pub fin: bool,
    pub masked: bool,
    pub mask: Option<Seq<u8>>,
}

/// The number that `bytes` denote, most significant byte first.
pub open spec fn big_endian(bytes: Seq<u8>) -> nat
    decreases bytes.len(),
{
    if bytes.len() == 0 {
        0
    } else {
        big_endian(bytes.drop_last()) * 256 + bytes.last() as nat
    }
}

/// The `width` low bytes of `value`, most significant byte first.
pub open spec fn length_bytes(value: nat, width: nat) -> Seq<u8>
    decreases width,
{
    if width == 0 {
        Seq::empty()
    } else {
        length_bytes(value / 256, (width - 1) as nat).push((value % 256) as u8)
    }
}

/// 256 to the power `width`: the count of numbers that `width` bytes hold.
pub open spec fn span(width: nat) -> nat
    decreases width,
{
    if width == 0 {
        1
    } else {
        256 * span((width - 1) as nat)
    }
}

/// The size of the extended length that follows a 7-bit length field.
pub open spec fn extension(field: u8) -> int {
    if field == 126 {
        2
    } else if field == 127 {
        8
    } else {
        0
    }
}

/// What the first bytes of a frame say of it. Too few bytes for the next
/// field of the header ask for exactly the bytes that this field lacks.
pub open spec fn decoded(v: Seq<u8>) -> Result<FrameView, WebsocketError> {
    if v.len() < 2 {
        Err(WebsocketError::InsufficientData((2 - v.len()) as usize))
    } else {
        let fin = v[0] >= 128;
        let opcode = (v[0] % 16) as u8;
        let masked = v[1] >= 128;
        let field = (v[1] % 128) as u8;
        let ext = extension(field);
        if !fin || opcode == 0 {
            Err(WebsocketError::Unsupported("payload fragmentation not supported"))
        } else if v.len() < 2 + ext {
            Err(WebsocketError::InsufficientData((2 + ext - v.len()) as usize))
        } else {
            let len = if ext == 0 {
                field as nat
            } else {
                big_endian(v.subrange(2, 2 + ext))
            };
            if len > usize::MAX {
                Err(
                    WebsocketError::Unsupported(
                        "payload length exceeds max platform architecture usize",
                    ),
                )
            } else if masked && v.len() < 6 + ext {
                Err(WebsocketError::InsufficientData((6 + ext - v.len()) as usize))
            } else {
                Ok(
                    FrameView {
                        opcode,
                        len: len as usize,
                        fin,
                        masked,
                        mask: if masked {
                            Some(v.subrange(2 + ext, 6 + ext))
                        } else {
                            None
                        },
                    },
                )
            }
        }
    }
}

/// `data` with its first `n` bytes combined with the mask, byte `i` with
/// byte `i mod 4` of the mask.
pub open spec fn masked_with(data: Seq<u8>, mask: Seq<u8>, n: nat) -> Seq<u8> {
    Seq::new(
        data.len(),
        |i: int|
            if i < n {
                data[i] ^ mask[i % 4]
            } else {
                data[i]
            },
    )
}

impl FrameView {
    /// A frame as a peer may send it: final, with an opcode other than
    /// zero, and with a mask of four bytes exactly when the mask bit is set.
    pub open spec fn well_formed(self) -> bool {
        &&& self.fin
        &&& 1 <= self.opcode <= 15
        &&& self.masked == (self.mask is Some)
        &&& self.mask is Some ==> self.mask->0.len() == 4
    }

    /// The unmasked, final binary frame that carries `len` bytes.
    pub open spec fn binary(len: usize) -> FrameView {
        FrameView { opcode: 2, len, fin: true, masked: false, mask: None }
    }

    /// The length field and the extended length of the header.
    pub open spec fn length_field(self) -> Seq<u8> {
        let flag: nat = if self.masked {
            128
        } else {
            0
        };
        if self.len <= 125 {
            seq![(flag + self.len) as u8]
        } else if self.len <= 65535 {
            seq![(flag + 126) as u8] + length_bytes(self.len as nat, 2)
        } else {
            seq![(flag + 127) as u8] + length_bytes(self.len as nat, 8)
        }
    }

    /// The header up to the mask: the byte of flags and opcode, then the
    /// length.
    pub open spec fn lead(self) -> Seq<u8> {
        let first: nat = if self.fin {
            128
        } else {
            0
        };
        seq![(first + self.opcode % 16) as u8] + self.length_field()
    }

    /// The header on the wire: the byte of flags and opcode, the length in
    /// the shortest of its three forms, and the mask if there is one.
    pub open spec fn header(self) -> Seq<u8> {
        match self.mask {
            Some(m) => self.lead() + m,
            None => self.lead(),
        }
    }

    /// The length of the header up to the mask.
    pub open spec fn lead_len(self) -> nat {
        if self.len <= 125 {
            2
        } else if self.len <= 65535 {
            4
        } else {
            10
        }
    }

    /// The length of the header: two bytes, the extended length, the mask.
    pub open spec fn header_len(self) -> nat {
        if self.mask is Some {
            self.lead_len() + 4
        } else {
            self.lead_len()
        }
    }

    /// Why a buffer of `room` bytes cannot take the header, if it cannot.
    pub open spec fn refusal(self, room: nat) -> Option<&'static str> {
        if room < 2 {
            Some("encode buffer requires at least 6 bytes")
        } else if room >= self.header_len() {
            None
        } else if self.len <= 125 {
            Some("encode buffer requires at least 6 bytes for given payload lenght")
        } else if self.len <= 65535 {
            Some("encode buffer requires at least 8 bytes for given payload lenght")
        } else {
            Some("encode buffer requires at least 14 bytes for given payload lenght")
        }
    }
}

/// A number is written in as many bytes as were asked for.
pub proof fn lemma_length_bytes_len(value: nat, width: nat)
    ensures
        length_bytes(value, width).len() == width,
    decreases width,
{
    if width > 0 {
        lemma_length_bytes_len(value / 256, (width - 1) as nat);
    }
}

/// `width` bytes hold every number below `span(width)`: reading them back
/// gives the number.
pub proof fn lemma_length_bytes(value: nat, width: nat)
    requires
        value < span(width),
    ensures
        big_endian(length_bytes(value, width)) == value,
    decreases width,
{
    if width > 0 {
        lemma_length_bytes(value / 256, (width - 1) as nat);
        assert(length_bytes(value, width).drop_last() =~= length_bytes(
            value / 256,
            (width - 1) as nat,
        ));
    }
}

/// The number that `width` bytes denote is below `span(width)`.
pub proof fn lemma_big_endian_bound(bytes: Seq<u8>)
    ensures
        big_endian(bytes) < span(bytes.len()),
    decreases bytes.len(),
{
    if bytes.len() > 0 {
        lemma_big_endian_bound(bytes.drop_last());
    }
}

proof fn lemma_span_values()
    ensures
        span(0) == 1,
        span(1) == 0x100,
        span(2) == 0x1_0000,
        span(3) == 0x100_0000,
        span(4) == 0x1_0000_0000,
        span(5) == 0x100_0000_0000,
        span(6) == 0x1_0000_0000_0000,
        span(7) == 0x100_0000_0000_0000,
        span(8) == 0x1_0000_0000_0000_0000,
{
    reveal_with_fuel(span, 9);
}

/// Reads the number that stands in `width` bytes of `bytes`, from `at` on.
fn read_big_endian(bytes: &[u8], at: usize, width: usize) -> (r: u64)
    requires
        width <= 8,
        at + width <= bytes@.len(),
    ensures
        r == big_endian(bytes@.subrange(at as int, at + width)),
{
    let mut acc: u64 = 0;
    let mut i: usize = 0;
    assert(bytes@.len() == bytes.len());
    while i < width
        invariant
            i <= width <= 8,
            at + width <= bytes@.len() <= usize::MAX,
            acc == big_endian(bytes@.subrange(at as int, at + i)),
        decreases width - i,
    {
        proof {
            lemma_span_values();
            lemma_big_endian_bound(bytes@.subrange(at as int, at + i));
            assert(bytes@.subrange(at as int, at + i + 1).drop_last() =~= bytes@.subrange(
                at as int,
                at + i,
            ));
        }
        acc = acc * 256 + bytes[at + i] as u64;
        i += 1;
    }
    acc
}

/// Writes `value` into `width` bytes of `dest`, from `at` on.
fn write_big_endian(dest: &mut [u8], at: usize, width: usize, value: u64)
    requires
        at + width <= old(dest)@.len(),
    ensures
        final(dest)@ == old(dest)@.subrange(0, at as int) + length_bytes(value as nat, width as nat)
            + old(dest)@.subrange(at + width, old(dest)@.len() as int),
{
    let mut rest = value;
    let mut k: usize = width;
    assert(dest@.len() == dest.len());
    assert(length_bytes(rest as nat, k as nat) + dest@.subrange(at + k, at + width)
        =~= length_bytes(value as nat, width as nat));
    while k > 0
        invariant
            k <= width,
            at + width <= dest@.len() <= usize::MAX,
            dest@.len() == old(dest)@.len(),
            dest@.subrange(0, at as int) == old(dest)@.subrange(0, at as int),
            dest@.subrange(at + width, dest@.len() as int) == old(dest)@.subrange(
                at + width,
                dest@.len() as int,
            ),
            length_bytes(value as nat, width as nat) == length_bytes(rest as nat, k as nat)
                + dest@.subrange(at + k, at + width),
        decreases k,
    {
        let ghost before = dest@;
        k -= 1;
        dest[at + k] = (rest % 256) as u8;
        assert(dest@.subrange(at + k, at + width) =~= seq![(rest % 256) as u8] + before.subrange(
            at + k + 1,
            at + width,
        ));
        assert(dest@.subrange(0, at as int) =~= before.subrange(0, at as int));
        assert(dest@.subrange(at + width, dest@.len() as int) =~= before.subrange(
            at + width,
            dest@.len() as int,
        ));
        rest = rest / 256;
        assert(length_bytes(value as nat, width as nat) =~= length_bytes(rest as nat, k as nat)
            + dest@.subrange(at + k, at + width));
    }
    assert(dest@ =~= old(dest)@.subrange(0, at as int) + length_bytes(value as nat, width as nat)
        + old(dest)@.subrange(at + width, old(dest)@.len() as int));
}

impl View for WebsocketFrame {
    type V = FrameView;

    open spec fn view(&self) -> FrameView {
        FrameView {
            opcode: self.opcode,
            len: self.len,
            fin: self.fin,
            masked: self.masked,
            mask: match self.mask {
                Some(m) => Some(m@),
                None => None,
            },
        }
    }
}

impl WebsocketFrame {
    /// Reads a header from the first bytes of a frame. The payload is not
    /// touched: a mask is noted, not applied.
    pub fn decode(value: &[u8]) -> (r: Result<Self, WebsocketError>)
        ensures
            match decoded(value@) {
                Ok(f) => r is Ok && r->Ok_0@ == f,
                Err(e) => r == Err::<Self, WebsocketError>(e),
            },
    {
        let mut required_bytes = 2usize;

        if value.len() < required_bytes {
            return Err(WebsocketError::InsufficientData(required_bytes - value.len()));
        }
        let fin: bool = (value[0] & 128) == 128;
        let opcode: u8 = value[0] & 0x0F;
        let masked: bool = (value[1] & 128) == 128;
        let field: u8 = value[1] & 127;
        proof {
            let b0 = value[0];
            let b1 = value[1];
            assert((b0 & 128 == 128) == (b0 >= 128)) by (bit_vector);
            assert(b0 & 0x0F == b0 % 16) by (bit_vector);
            assert((b1 & 128 == 128) == (b1 >= 128)) by (bit_vector);
            assert(b1 & 127 == b1 % 128) by (bit_vector);
        }

        if !fin || opcode == 0 {
            return Err(WebsocketError::Unsupported("payload fragmentation not supported"));
        }
        let mut len: u64 = field as u64;
        let mut mask_offset: usize = 2;
        if field == 126 {
            // 16 bit length field
            required_bytes += 2;
            if value.len() < required_bytes {
                return Err(WebsocketError::InsufficientData(required_bytes - value.len()));
            }
            len = read_big_endian(value, 2, 2);
            mask_offset = 4;
        } else if field == 127 {
            // 64 bit length field
            required_bytes += 8;
            if value.len() < required_bytes {
                return Err(WebsocketError::InsufficientData(required_bytes - value.len()));
            }
            len = read_big_endian(value, 2, 8);
            mask_offset = 10;
        }
        if len > usize::MAX as u64 {
            return Err(
                WebsocketError::Unsupported(
                    "payload length exceeds max platform architecture usize",
                ),
            );
        }
        let len: usize = len as usize;

        let mut mask: Option<[u8; 4]> = None;

        if masked {
            required_bytes += 4;
            if value.len() < required_bytes {
                return Err(WebsocketError::InsufficientData(required_bytes - value.len()));
            }
            let key = [
                value[mask_offset],
                value[mask_offset + 1],
                value[mask_offset + 2],
                value[mask_offset + 3],
            ];
            assert(key@ =~= value@.subrange(mask_offset as int, mask_offset + 4));
            mask = Some(key);
        }
        Ok(WebsocketFrame { fin, opcode, masked, len, mask })
    }

    /// Writes the header up to the mask at the start of `dest`.
    fn encode_lead(&self, dest: &mut [u8]) -> (n: usize)
        requires
            self@.lead_len() <= old(dest)@.len(),
        ensures
            n == self@.lead_len(),
            final(dest)@.len() == old(dest)@.len(),
            final(dest)@ == self@.lead() + old(dest)@.subrange(n as int, old(dest)@.len() as int),
    {
        // fin 1 MSB byte 1, opcode 4 LSB bits byte 1
        let fin_bit: u8 = if self.fin {
            0b1000_0000
        } else {
            0
        };
        let opcode = self.opcode;
        dest[0] = fin_bit | (opcode & 0b0000_1111);
        // masked 1 MSB byte 2
        let mask_bit: u8 = if self.masked {
            0b1000_0000
        } else {
            0
        };
        proof {
            assert(0x80u8 | (opcode & 0x0f) == 128 + opcode % 16) by (bit_vector);
            assert(0u8 | (opcode & 0x0f) == opcode % 16) by (bit_vector);
        }
        let ghost room = old(dest)@.len() as int;
        if self.len <= 125 {
            // 7 LSB byte 2
            let low = self.len as u8;
            assert(low <= 125 ==> 0x80u8 | low == 128 + low && 0u8 | low == low) by (bit_vector);
            dest[1] = mask_bit | low;
            assert(dest@ =~= self@.lead() + old(dest)@.subrange(2, room));
            2
        } else if self.len <= 65535 {
            // indicate 16 bit length with byte 2 7LSB bits = 126
            assert(0x80u8 | 126 == 254 && 0u8 | 126 == 126) by (bit_vector);
            dest[1] = mask_bit | 126u8;
            write_big_endian(dest, 2, 2, self.len as u64);
            proof {
                lemma_length_bytes_len(self.len as nat, 2);
            }
            assert(dest@ =~= self@.lead() + old(dest)@.subrange(4, room));
            4
        } else {
            // indicate 64 bit length with byte 2 7LSB bits = 127
            assert(0x80u8 | 127 == 255 && 0u8 | 127 == 127) by (bit_vector);
            dest[1] = mask_bit | 127u8;
            write_big_endian(dest, 2, 8, self.len as u64);
            proof {
                lemma_length_bytes_len(self.len as nat, 8);
            }
            assert(dest@ =~= self@.lead() + old(dest)@.subrange(10, room));
            10
        }
    }

    /// Writes the header at the start of `dest` and gives its length. A
    /// buffer that is too short for it is refused and left as it was.
    pub fn encode(&self, dest: &mut [u8]) -> (r: Result<usize, WebsocketError>)
        ensures
            final(dest)@.len() == old(dest)@.len(),
            match self@.refusal(old(dest)@.len()) {
                Some(why) => r == Err::<usize, WebsocketError>(WebsocketError::Unsupported(why))
                    && final(dest)@ == old(dest)@,
                None => r == Ok::<usize, WebsocketError>(self@.header_len() as usize)
                    && final(dest)@ == self@.header() + old(dest)@.subrange(
                    self@.header_len() as int,
                    old(dest)@.len() as int,
                ),
            },
    {
        if dest.len() < 2 {
            return Err(WebsocketError::Unsupported("encode buffer requires at least 6 bytes"));
        }
        let key_len: usize = if self.mask.is_some() {
            4
        } else {
            0
        };
        if self.len <= 125 {
            if dest.len() < 2 + key_len {
                return Err(
                    WebsocketError::Unsupported(
                        "encode buffer requires at least 6 bytes for given payload lenght",
                    ),
                );
            }
        } else if self.len <= 65535 {
            if dest.len() < 4 + key_len {
                return Err(
                    WebsocketError::Unsupported(
                        "encode buffer requires at least 8 bytes for given payload lenght",
                    ),
                );
            }
        } else {
            if dest.len() < 10 + key_len {
                return Err(
                    WebsocketError::Unsupported(
                        "encode buffer requires at least 14 bytes for given payload lenght",
                    ),
                );
            }
        }
        let ghost room = old(dest)@.len() as int;
        let mask_offset = self.encode_lead(dest);
        if let Some(mask) = self.mask {
            dest[mask_offset] = mask[0];
            dest[mask_offset + 1] = mask[1];
            dest[mask_offset + 2] = mask[2];
            dest[mask_offset + 3] = mask[3];
            assert(dest@ =~= self@.lead() + mask@ + old(dest)@.subrange(mask_offset + 4, room));
            return Ok(mask_offset + 4);
        }
        Ok(mask_offset)
    }

    /// Combines the first `len` bytes of `data` with the mask, if the frame
    /// carries one: the same step masks a payload and unmasks it. Without a
    /// mask `data` is left as it is, whatever its length.
    pub fn apply_mask(&self, data: &mut [u8])
        requires
            self.mask is Some ==> self.len <= old(data)@.len(),
        ensures
            final(data)@ == match self@.mask {
                Some(m) => masked_with(old(data)@, m, self.len as nat),
                None => old(data)@,
            },
    {
        if let Some(mask) = self.mask {
            let mut i: usize = 0;
            assert(data@ =~= masked_with(old(data)@, mask@, 0));
            while i < self.len
                invariant
                    i <= self.len <= data@.len(),
                    data@.len() == old(data)@.len(),
                    data@ == masked_with(old(data)@, mask@, i as nat),
                decreases self.len - i,
            {
                data[i] = data[i] ^ mask[i % 4];
                assert(data@ =~= masked_with(old(data)@, mask@, (i + 1) as nat));
                i += 1;
            }
        }
    }
}

/// Masking twice with the same mask gives the payload back.
pub proof fn lemma_mask_twice(data: Seq<u8>, mask: Seq<u8>, n: nat)
    ensures
        masked_with(masked_with(data, mask, n), mask, n) == data,
{
    assert forall|a: u8, b: u8| #[trigger] ((a ^ b) ^ b) == a by {
        assert((a ^ b) ^ b == a) by (bit_vector);
    }
    assert(masked_with(masked_with(data, mask, n), mask, n) =~= data);
}

/// What `encode` writes, `decode` reads back: opcode, length, final bit,
/// mask bit and mask, whatever follows the header.
pub proof fn lemma_encode_decode(frame: FrameView, rest: Seq<u8>)
    requires
        frame.well_formed(),
    ensures
        frame.header().len() == frame.header_len(),
        decoded(frame.header() + rest) == Ok::<FrameView, WebsocketError>(frame),
{
    let v = frame.header() + rest;
    lemma_length_bytes_len(frame.len as nat, 2);
    lemma_length_bytes_len(frame.len as nat, 8);
    lemma_span_values();
    assert(v[0] == 128 + frame.opcode);
    let ext = extension((v[1] % 128) as u8);
    if frame.len > 125 {
        assert(v.subrange(2, 2 + ext) =~= length_bytes(frame.len as nat, ext as nat));
        lemma_length_bytes(frame.len as nat, ext as nat);
    }
    if frame.mask is Some {
        assert(v.subrange(2 + ext, 6 + ext) =~= frame.mask->0);
    }
}

/// A final frame with an opcode, the mask bit and a length field below 126
/// is read from its first six bytes: no more are asked for.
pub proof fn lemma_short_masked_header(v: Seq<u8>)
    requires
        v.len() >= 6,
        v[0] >= 128,
        v[0] % 16 != 0,
        v[1] >= 128,
        v[1] % 128 < 126,
    ensures
        decoded(v) == Ok::<FrameView, WebsocketError>(
            (FrameView {
                opcode: (v[0] % 16) as u8,
                len: (v[1] % 128) as usize,
                fin: true,
                masked: true,
                mask: Some(v.subrange(2, 6)),
            }),
        ),
        forall|n: int| 0 <= n < 6 ==> decoded(#[trigger] v.subrange(0, n)) is Err,
{
    assert forall|n: int| 0 <= n < 6 implies decoded(#[trigger] v.subrange(0, n)) is Err by {
        let p = v.subrange(0, n);
        if n >= 2 {
            assert(p[0] == v[0] && p[1] == v[1]);
        }
    }
}

/// A frame starts with two bytes, and a final frame with an opcode, no mask
/// bit and a length field below 126 is read from those two: no byte of the
/// payload is asked for.
pub proof fn lemma_short_unmasked_header(v: Seq<u8>)
    requires
        v.len() >= 2,
        v[0] >= 128,
        v[0] % 16 != 0,
        v[1] < 126,
    ensures
        decoded(Seq::<u8>::empty()) == Err::<FrameView, WebsocketError>(
            WebsocketError::InsufficientData(2),
        ),
        decoded(v) == Ok::<FrameView, WebsocketError>(
            (FrameView {
                opcode: (v[0] % 16) as u8,
                len: v[1] as usize,
                fin: true,
                masked: false,
                mask: None,
            }),
        ),
{
}

/// A header is at most 14 bytes: when `decode` asks for more, it asks for
/// at least one byte and never beyond the fourteenth.
pub proof fn lemma_insufficient_data(v: Seq<u8>)
    requires
        decoded(v) is Err,
        decoded(v)->Err_0 is InsufficientData,
    ensures
        1 <= decoded(v)->Err_0->InsufficientData_0,
        v.len() + decoded(v)->Err_0->InsufficientData_0 <= 14,
{
}

/// What a server does next to receive a frame.
#[derive(Debug)]
pub enum Receive {
    /// Read so many more bytes of the header and hand them to `receive`.
    Header(usize),
    /// The header is complete: read `len` bytes of payload into the buffer
    /// and unmask them with `apply_mask`.
    Payload(WebsocketFrame),
}

/// The server's end of a WebSocket session: it holds the part of a frame's
/// header that has arrived, and says what to read next.
pub struct Websocket {
    header: Vec<u8>,
}

impl View for Websocket {
    type V = Seq<u8>;

    /// The bytes of the current frame's header that have arrived.
    closed spec fn view(&self) -> Seq<u8> {
        self.header@
    }
}

impl Websocket {
    /// A session in which no byte of a frame has arrived.
    pub fn new() -> (r: Self)
        ensures
            r@ == Seq::<u8>::empty(),
    {
        Websocket { header: Vec::new() }
    }

    /// Takes the header bytes that were just read (none at the start of a
    /// frame) and says what to do next. `decode` decides, on all the bytes of
    /// the header that have arrived: it asks for the bytes that the next
    /// field lacks, two at the start of a frame, or gives the frame, which
    /// must fit a buffer of `capacity` bytes. No byte is asked for that the
    /// header does not have, so the payload is never touched. Once a frame
    /// is given or refused, the session is ready for the next one.
    pub fn receive(&mut self, bytes: &[u8], capacity: usize) -> (r: Result<
        Receive,
        WebsocketError,
    >)
        ensures
            ({
                let seen = old(self)@ + bytes@;
                match decoded(seen) {
                    Err(WebsocketError::InsufficientData(k)) => r == Ok::<Receive, WebsocketError>(
                        Receive::Header(k),
                    ) && final(self)@ == seen,
                    Err(e) => r == Err::<Receive, WebsocketError>(e) && final(self)@.len() == 0,
                    Ok(f) => final(self)@.len() == 0 && if f.len > capacity {
                        r == Err::<Receive, WebsocketError>(
                            WebsocketError::Unsupported("payload length exceeds buffer size"),
                        )
                    } else {
                        r matches Ok(Receive::Payload(frame)) && frame@ == f
                    },
                }
            }),
    {
        put(&mut self.header, bytes);
        match WebsocketFrame::decode(self.header.as_slice()) {
            Ok(frame) => {
                self.header.clear();
                if frame.len > capacity {
                    return Err(WebsocketError::Unsupported("payload length exceeds buffer size"));
                }
                Ok(Receive::Payload(frame))
            },
            Err(WebsocketError::InsufficientData(n)) => Ok(Receive::Header(n)),
            Err(e) => {
                self.header.clear();
                Err(e)
            },
        }
    }

    /// The bytes that send `data` as one frame: the header of an unmasked,
    /// final binary frame of the length of `data`, then `data`.
    pub fn send(&self, data: &[u8]) -> (r: Result<Vec<u8>, WebsocketError>)
        ensures
            r is Ok,
            r->Ok_0@ == FrameView::binary(data@.len() as usize).header() + data@,
    {
        let header = WebsocketFrame {
            fin: true,
            opcode: 2,
            masked: false,
            len: data.len(),
            mask: None,
        };

        let mut encoded_header = [0u8; 14];
        let header_len = match header.encode(&mut encoded_header) {
            Ok(n) => n,
            Err(e) => {
                return Err(e);
            },
        };
        let mut out: Vec<u8> = Vec::new();
        put(&mut out, vstd::slice::slice_subrange(encoded_header.as_slice(), 0, header_len));
        put(&mut out, data);
        assert(out@ =~= header@.header() + data@);
        Ok(out)
    }
}

} // verus!
