//! LDN beacon action frames: a 40-byte header followed by a body made of a
//! SHA-256 checksum and the payload. The body is encrypted with AES-128 in
//! counter mode under a key derived from the header.
use vstd::prelude::*;
use vstd::slice::slice_subrange;

use crate::crypto::{
    aes_128_ctr_dec, ctr_transform, hex_encode, hex_text, lemma_ctr_involution, sha256,
    sha256_digest, AesKey, AES_128_KEY_SIZE,
};
use crate::bytes::{bytes_equal, push_all, push_zeros, zeros};
use crate::keys::{derived_key, key_set_complete, KeySet, Keys};

verus! {

/// Size in bytes of a frame header.
pub const HEADER_SIZE: usize = 40;

/// Size in bytes of the checksum at the start of a frame body.
pub const CHECKSUM_SIZE: usize = 32;

/// Derivation context of beacon action frames.
pub const ACTION_KEY: AesKey = [
    0xC3, 0xC0, 0x78, 0xFA, 0x13, 0x20, 0x6A, 0x7B, 0xF5, 0x69, 0xD5, 0x19, 0x4F, 0x83, 0xE1, 0x99,
];

/// The payload length that a header declares: big-endian bytes 34 and 35.
pub open spec fn content_length_of(header: Seq<u8>) -> nat {
    (header[34] as nat) * 256 + (header[35] as nat)
}

/// The size of the frame that begins with `header`.
pub open spec fn frame_size_of(header: Seq<u8>) -> nat {
    HEADER_SIZE as nat + CHECKSUM_SIZE as nat + content_length_of(header)
}

/// `buf` holds at least the whole frame that its header declares.
pub open spec fn holds_frame(buf: Seq<u8>) -> bool {
    buf.len() >= HEADER_SIZE && buf.len() >= frame_size_of(buf)
}

/// `f` is exactly one frame: a header and the body it declares.
pub open spec fn is_frame(f: Seq<u8>) -> bool {
    f.len() >= HEADER_SIZE && f.len() == frame_size_of(f)
}

/// The initial counter block: the header's four nonce bytes, then zeros.
pub open spec fn nonce_of(header: Seq<u8>) -> Seq<u8> {
    header.subrange(36, 40) + zeros(12)
}

/// The per-frame key source: the first 16 bytes of the SHA-256 digest of the
/// first 32 header bytes.
pub open spec fn frame_key_source(header: Seq<u8>) -> Seq<u8> {
    sha256_digest(header.subrange(0, 32)).subrange(0, 16)
}

/// The key that the body of a frame with `header` is encrypted under.
pub open spec fn frame_key(ks: KeySet, header: Seq<u8>) -> Seq<u8> {
    derived_key(ks, ACTION_KEY@, frame_key_source(header))
}

/// The checksum of a frame: SHA-256 over the header, 32 zero bytes and the payload.
pub open spec fn checksum_of(header: Seq<u8>, payload: Seq<u8>) -> Seq<u8> {
    sha256_digest(header + zeros(32) + payload)
}

/// The counter-mode transform of `data` under `key` and the nonce of `header`.
pub open spec fn transform(key: Seq<u8>, header: Seq<u8>, data: Seq<u8>) -> Seq<u8> {
    ctr_transform(key, nonce_of(header), data)
}

/// The body with its checksum replaced by the checksum of header and payload.
pub open spec fn refreshed_body(header: Seq<u8>, body: Seq<u8>) -> Seq<u8> {
    checksum_of(header, body.subrange(32, body.len() as int)) + body.subrange(32, body.len() as int)
}

/// The bytes of a plaintext frame `f` after encryption: the checksum refreshed,
/// then the body transformed under the frame key.
pub open spec fn encrypted_frame(ks: KeySet, f: Seq<u8>) -> Seq<u8> {
    let header = f.subrange(0, 40);
    let body = f.subrange(40, f.len() as int);
    header + transform(frame_key(ks, header), header, refreshed_body(header, body))
}

/// The bytes of an encrypted frame `f` after decryption: the body transformed
/// under the frame key.
pub open spec fn decrypted_frame(ks: KeySet, f: Seq<u8>) -> Seq<u8> {
    let header = f.subrange(0, 40);
    let body = f.subrange(40, f.len() as int);
    header + transform(frame_key(ks, header), header, body)
}

/// A plaintext frame whose stored checksum matches its header and payload.
pub open spec fn has_valid_checksum(f: Seq<u8>) -> bool {
    f.subrange(40, 72) == checksum_of(f.subrange(0, 40), f.subrange(72, f.len() as int))
}

/// The first frame in `buf`.
pub open spec fn first_frame(buf: Seq<u8>) -> Seq<u8> {
    buf.subrange(0, frame_size_of(buf) as int)
}

/// A frame header.
pub struct LdnFrameHeader([u8; 40]);

/// A frame: its header and its body (checksum followed by payload).
pub struct LdnFrame {
    header: LdnFrameHeader,
    content: Vec<u8>,
}

/// A frame as two byte sequences.
pub struct FrameView {
    pub header: Seq<u8>,
    pub content: Seq<u8>,
}

/// Why a buffer does not hold a frame.
#[derive(Clone, Copy, Debug, PartialEq, Eq, Structural)]
pub enum ParseError {
    /// Fewer bytes than the header, or than the body it declares.
    Truncated,
}

impl View for LdnFrameHeader {
    type V = Seq<u8>;

    closed spec fn view(&self) -> Seq<u8> {
        self.0@
    }
}

impl View for LdnFrame {
    type V = FrameView;

    closed spec fn view(&self) -> FrameView {
        FrameView { header: self.header@, content: self.content@ }
    }
}

/// The first 16 bytes of a 32-byte digest.
fn s32_16(s32: &[u8; 32]) -> (r: [u8; 16])
    ensures
        r@ == s32@.subrange(0, 16),
{
    let mut out = [0u8; 16];
    let mut i: usize = 0;
    while i < 16
        invariant
            i <= 16,
            forall|j: int| 0 <= j < i ==> out@[j] == s32@[j],
        decreases 16 - i,
    {
        out[i] = s32[i];
        i += 1;
    }
    assert(out@ =~= s32@.subrange(0, 16));
    out
}

/// The first 16 bytes of the SHA-256 digest of `data`.
fn sha256_16(data: &[u8]) -> (r: [u8; 16])
    ensures
        r@ == sha256_digest(data@).subrange(0, 16),
{
    s32_16(&sha256(data))
}

impl LdnFrameHeader {
    /// A header of zero bytes.
    pub fn new() -> (r: LdnFrameHeader)
        ensures
            r@ == zeros(40),
    {
        let r = LdnFrameHeader([0; 40]);
        assert(r@ =~= zeros(40));
        r
    }

    /// The initial counter block: the four nonce bytes, then zeros.
    pub fn nonce(&self) -> (r: AesKey)
        ensures
            r@ == nonce_of(self@),
    {
        let mut out: AesKey = [0; AES_128_KEY_SIZE];
        out[0] = self.0[36];
        out[1] = self.0[37];
        out[2] = self.0[38];
        out[3] = self.0[39];
        assert(out@ =~= nonce_of(self@));
        out
    }

    /// The payload length that the header declares.
    pub fn content_length(&self) -> (r: usize)
        ensures
            r == content_length_of(self@),
    {
        (self.0[34] as usize) * 256 + (self.0[35] as usize)
    }

    /// The 40 header bytes.
    pub fn bytes(&self) -> (r: &[u8; 40])
        ensures
            r@ == self@,
    {
        &self.0
    }

    /// The first opaque field, bytes 0 to 4.
    pub fn unk1(&self) -> (r: [u8; 4])
        ensures
            r@ == self@.subrange(0, 4),
    {
        let r = [self.0[0], self.0[1], self.0[2], self.0[3]];
        assert(r@ =~= self@.subrange(0, 4));
        r
    }

    /// The second opaque field, bytes 10 to 12.
    pub fn unk2(&self) -> (r: [u8; 2])
        ensures
            r@ == self@.subrange(10, 12),
    {
        let r = [self.0[10], self.0[11]];
        assert(r@ =~= self@.subrange(10, 12));
        r
    }

    /// The session id, bytes 16 to 32, as lower-case hex.
    pub fn ssid_str(&self) -> (r: String)
        ensures
            r@ == hex_text(self@.subrange(16, 32)),
    {
        hex_encode(slice_subrange(self.0.as_slice(), 16, 32))
    }
}

impl LdnFrame {
    /// The body holds the checksum and exactly the payload that the header declares.
    pub open spec fn wf(&self) -> bool {
        &&& self@.header.len() == HEADER_SIZE
        &&& self@.content.len() == CHECKSUM_SIZE + content_length_of(self@.header)
    }

    /// The frame of a zero header: an empty payload and a zero checksum.
    pub fn new() -> (r: LdnFrame)
        ensures
            r.wf(),
            r@.header == zeros(40),
            r@.content == zeros(32),
    {
        let mut content: Vec<u8> = Vec::new();
        push_zeros(&mut content, CHECKSUM_SIZE);
        assert(Seq::<u8>::empty() + zeros(32) =~= zeros(32));
        LdnFrame { header: LdnFrameHeader::new(), content }
    }

    /// Reads the frame at the start of `buf`: the 40-byte header, then the
    /// checksum and the payload that the header declares. Bytes after the
    /// frame are not read. Fails with `Truncated` where `buf` is shorter.
    pub fn parse(buf: &[u8]) -> (r: Result<LdnFrame, ParseError>)
        ensures
            r.is_ok() == holds_frame(buf@),
            r.is_ok() ==> r->Ok_0.wf(),
            r.is_ok() ==> r->Ok_0@.header == buf@.subrange(0, 40),
            r.is_ok() ==> r->Ok_0@.content == buf@.subrange(40, frame_size_of(buf@) as int),
            r.is_err() ==> r->Err_0 == ParseError::Truncated,
    {
        if buf.len() < HEADER_SIZE {
            return Err(ParseError::Truncated);
        }
        let mut h = [0u8; 40];
        let mut i: usize = 0;
        while i < HEADER_SIZE
            invariant
                i <= HEADER_SIZE,
                buf@.len() >= HEADER_SIZE,
                forall|j: int| 0 <= j < i ==> h@[j] == buf@[j],
            decreases HEADER_SIZE - i,
        {
            h[i] = buf[i];
            i += 1;
        }
        let header = LdnFrameHeader(h);
        assert(header@ =~= buf@.subrange(0, 40));
        let size = HEADER_SIZE + CHECKSUM_SIZE + header.content_length();
        if buf.len() < size {
            return Err(ParseError::Truncated);
        }
        let mut content: Vec<u8> = Vec::new();
        push_all(&mut content, slice_subrange(buf, HEADER_SIZE, size));
        assert(content@ =~= buf@.subrange(40, frame_size_of(buf@) as int));
        Ok(LdnFrame { header, content })
    }

    /// The header.
    pub fn header(&self) -> (r: &LdnFrameHeader)
        ensures
            r@ == self@.header,
    {
        &self.header
    }

    /// The body: checksum, then payload.
    pub fn content(&self) -> (r: &[u8])
        ensures
            r@ == self@.content,
    {
        self.content.as_slice()
    }

    /// The frame's bytes: header, then body, with nothing around them.
    pub fn to_bytes(&self) -> (r: Vec<u8>)
        ensures
            r@ == self@.header + self@.content,
    {
        let mut out: Vec<u8> = Vec::new();
        push_all(&mut out, self.header.0.as_slice());
        push_all(&mut out, self.content.as_slice());
        assert(Seq::<u8>::empty() + self@.header =~= self@.header);
        out
    }

    /// The checksum stored at the start of the body.
    pub fn sha256(&self) -> (r: [u8; 32])
        requires
            self.wf(),
        ensures
            r@ == self@.content.subrange(0, 32),
    {
        let mut out = [0u8; 32];
        let mut i: usize = 0;
        while i < CHECKSUM_SIZE
            invariant
                i <= CHECKSUM_SIZE,
                self.wf(),
                forall|j: int| 0 <= j < i ==> out@[j] == self@.content[j],
            decreases CHECKSUM_SIZE - i,
        {
            out[i] = self.content[i];
            i += 1;
        }
        assert(out@ =~= self@.content.subrange(0, 32));
        out
    }

    /// Overwrites the stored checksum with `hash`.
    pub fn set_sha256(&mut self, hash: &[u8; 32])
        requires
            old(self).wf(),
        ensures
            final(self).wf(),
            final(self)@.header == old(self)@.header,
            final(self)@.content == hash@ + old(self)@.content.subrange(
                32,
                old(self)@.content.len() as int,
            ),
    {
        let mut i: usize = 0;
        while i < CHECKSUM_SIZE
            invariant
                i <= CHECKSUM_SIZE,
                self.wf(),
                self@.header == old(self)@.header,
                self@.content.len() == old(self)@.content.len(),
                forall|j: int| 0 <= j < i ==> self@.content[j] == hash@[j],
                forall|j: int|
                    i <= j < self@.content.len() ==> self@.content[j] == old(self)@.content[j],
            decreases CHECKSUM_SIZE - i,
        {
            self.content.set(i, hash[i]);
            i += 1;
        }
        assert(self@.content =~= hash@ + old(self)@.content.subrange(
            32,
            old(self)@.content.len() as int,
        ));
    }

    /// The checksum that the frame should carry: SHA-256 over the header, 32
    /// zero bytes and the payload.
    pub fn calculate_sha256(&self) -> (r: [u8; 32])
        requires
            self.wf(),
        ensures
            r@ == checksum_of(
                self@.header,
                self@.content.subrange(32, self@.content.len() as int),
            ),
    {
        let mut data: Vec<u8> = Vec::new();
        push_all(&mut data, self.header.0.as_slice());
        push_zeros(&mut data, CHECKSUM_SIZE);
        push_all(&mut data, slice_subrange(self.content.as_slice(), CHECKSUM_SIZE, self.content.len()));
        assert(Seq::<u8>::empty() + self@.header =~= self@.header);
        sha256(data.as_slice())
    }

    /// Replaces the stored checksum by the one computed from header and payload
    /// where they differ; returns whether it was replaced.
    pub fn refresh_checksum(&mut self) -> (r: bool)
        requires
            old(self).wf(),
        ensures
            final(self).wf(),
            final(self)@.header == old(self)@.header,
            final(self)@.content == refreshed_body(old(self)@.header, old(self)@.content),
            r == (old(self)@.content.subrange(0, 32) != checksum_of(
                old(self)@.header,
                old(self)@.content.subrange(32, old(self)@.content.len() as int),
            )),
    {
        let hash = self.calculate_sha256();
        let stored = self.sha256();
        if bytes_equal(hash.as_slice(), stored.as_slice()) {
            assert(self@.content =~= refreshed_body(self@.header, self@.content));
            false
        } else {
            self.set_sha256(&hash);
            true
        }
    }

    /// Applies the counter-mode transform to the body, under `key` and the
    /// header's nonce.
    pub fn decrypt(&mut self, key: &AesKey)
        requires
            old(self).wf(),
        ensures
            final(self).wf(),
            final(self)@.header == old(self)@.header,
            final(self)@.content == transform(key@, old(self)@.header, old(self)@.content),
    {
        let nonce = self.header.nonce();
        aes_128_ctr_dec(self.content.as_mut_slice(), key, &nonce);
    }

    /// Applies the counter-mode transform to the body; the same operation as
    /// `decrypt`.
    pub fn encrypt(&mut self, key: &AesKey)
        requires
            old(self).wf(),
        ensures
            final(self).wf(),
            final(self)@.header == old(self)@.header,
            final(self)@.content == transform(key@, old(self)@.header, old(self)@.content),
    {
        self.decrypt(key)
    }
}

/// Encrypts and decrypts whole frames under a key set. `offset` bytes before
/// the frame are copied through unchanged and `padding` zero bytes are added
/// after it.
pub struct LdnFrameBuilder {
    pub keys: Keys,
    pub offset: u64,
    pub padding: usize,
}

/// The part of `input` that follows the first `offset` bytes.
pub open spec fn after_offset(input: Seq<u8>, offset: u64) -> Seq<u8> {
    input.subrange(offset as int, input.len() as int)
}

impl LdnFrameBuilder {
    /// The key set frames are processed under.
    pub open spec fn key_set(&self) -> KeySet {
        self.keys@
    }

    /// The key set is complete.
    pub open spec fn wf(&self) -> bool {
        key_set_complete(self.key_set())
    }

    /// A builder over a complete key set, with no offset and no padding.
    pub fn new(keys: Keys) -> (r: LdnFrameBuilder)
        requires
            keys.wf(),
        ensures
            r.wf(),
            r.key_set() == keys@,
            r.offset == 0,
            r.padding == 0,
    {
        LdnFrameBuilder { keys, offset: 0, padding: 0 }
    }

    /// The key of the frame with `header`: the key derived for the action
    /// context and the frame's key source.
    pub fn get_key(&self, header: &LdnFrameHeader) -> (r: AesKey)
        requires
            self.wf(),
        ensures
            r@ == frame_key(self.key_set(), header@),
    {
        let hash = sha256_16(slice_subrange(header.bytes().as_slice(), 0, 32));
        self.keys.derive_key(&ACTION_KEY, &hash)
    }

    /// Encrypts the plaintext frame that follows `offset` bytes of `input`:
    /// refreshes its checksum where it is stale, then encrypts its body. The
    /// output is the skipped bytes, the encrypted frame and `padding` zero
    /// bytes; the flag says whether the checksum was replaced.
    pub fn encrypt(&self, input: &[u8]) -> (r: Result<(Vec<u8>, bool), ParseError>)
        requires
            self.wf(),
        ensures
            r.is_ok() == (self.offset <= input@.len() && holds_frame(
                after_offset(input@, self.offset),
            )),
            r.is_ok() ==> r->Ok_0.0@ == input@.subrange(0, self.offset as int) + encrypted_frame(
                self.key_set(),
                first_frame(after_offset(input@, self.offset)),
            ) + zeros(self.padding as nat),
            r.is_ok() ==> r->Ok_0.1 == !has_valid_checksum(
                first_frame(after_offset(input@, self.offset)),
            ),
            r.is_err() ==> r->Err_0 == ParseError::Truncated,
    {
        let len = input.len();
        if self.offset > len as u64 {
            return Err(ParseError::Truncated);
        }
        let off = self.offset as usize;
        let rest = slice_subrange(input, off, len);
        let mut frame = match LdnFrame::parse(rest) {
            Ok(f) => f,
            Err(e) => return Err(e),
        };
        let ghost f = first_frame(rest@);
        let ghost header = frame@.header;
        let ghost body = frame@.content;
        assert(f.subrange(0, 40) =~= header);
        assert(f.subrange(40, f.len() as int) =~= body);
        assert(f.subrange(40, 72) =~= body.subrange(0, 32));
        assert(f.subrange(72, f.len() as int) =~= body.subrange(32, body.len() as int));
        let key = self.get_key(&frame.header);
        let changed = frame.refresh_checksum();
        frame.encrypt(&key);
        let mut out: Vec<u8> = Vec::new();
        push_all(&mut out, slice_subrange(input, 0, off));
        push_all(&mut out, frame.to_bytes().as_slice());
        push_zeros(&mut out, self.padding);
        assert(Seq::<u8>::empty() + input@.subrange(0, off as int) =~= input@.subrange(0, off as int));
        Ok((out, changed))
    }

    /// Decrypts the frame that follows `offset` bytes of `input`. The output is
    /// the skipped bytes, the decrypted frame and `padding` zero bytes. The
    /// checksum is not checked.
    pub fn decrypt(&self, input: &[u8]) -> (r: Result<Vec<u8>, ParseError>)
        requires
            self.wf(),
        ensures
            r.is_ok() == (self.offset <= input@.len() && holds_frame(
                after_offset(input@, self.offset),
            )),
            r.is_ok() ==> r->Ok_0@ == input@.subrange(0, self.offset as int) + decrypted_frame(
                self.key_set(),
                first_frame(after_offset(input@, self.offset)),
            ) + zeros(self.padding as nat),
            r.is_err() ==> r->Err_0 == ParseError::Truncated,
    {
        let len = input.len();
        if self.offset > len as u64 {
            return Err(ParseError::Truncated);
        }
        let off = self.offset as usize;
        let rest = slice_subrange(input, off, len);
        let mut frame = match LdnFrame::parse(rest) {
            Ok(f) => f,
            Err(e) => return Err(e),
        };
        let ghost f = first_frame(rest@);
        assert(f.subrange(0, 40) =~= frame@.header);
        assert(f.subrange(40, f.len() as int) =~= frame@.content);
        let key = self.get_key(&frame.header);
        frame.decrypt(&key);
        let mut out: Vec<u8> = Vec::new();
        push_all(&mut out, slice_subrange(input, 0, off));
        push_all(&mut out, frame.to_bytes().as_slice());
        push_zeros(&mut out, self.padding);
        assert(Seq::<u8>::empty() + input@.subrange(0, off as int) =~= input@.subrange(0, off as int));
        Ok(out)
    }
}

/// Decrypting an encrypted frame gives back its header, the checksum of header
/// and payload, and its payload: the checksum stored by encryption is current.
pub proof fn lemma_checksum_after_encrypt(ks: KeySet, f: Seq<u8>)
    requires
        is_frame(f),
    ensures
        decrypted_frame(ks, encrypted_frame(ks, f)) == f.subrange(0, 40) + checksum_of(
            f.subrange(0, 40),
            f.subrange(72, f.len() as int),
        ) + f.subrange(72, f.len() as int),
{
    let header = f.subrange(0, 40);
    let body = f.subrange(40, f.len() as int);
    let key = frame_key(ks, header);
    let fresh = refreshed_body(header, body);
    let cipher = transform(key, header, fresh);
    let e = encrypted_frame(ks, f);
    assert(e.subrange(0, 40) =~= header);
    assert(e.subrange(40, e.len() as int) =~= cipher);
    lemma_ctr_involution(key, nonce_of(header), fresh);
    assert(body.subrange(32, body.len() as int) =~= f.subrange(72, f.len() as int));
    let payload = f.subrange(72, f.len() as int);
    let d = decrypted_frame(ks, e);
    assert(d =~= header + checksum_of(header, payload) + payload);
}

/// A plaintext frame with a valid checksum comes back unchanged from encryption
/// followed by decryption under the same key set.
pub proof fn lemma_round_trip(ks: KeySet, f: Seq<u8>)
    requires
        is_frame(f),
        has_valid_checksum(f),
    ensures
        decrypted_frame(ks, encrypted_frame(ks, f)) == f,
{
    lemma_checksum_after_encrypt(ks, f);
    assert(f =~= f.subrange(0, 40) + f.subrange(40, 72) + f.subrange(72, f.len() as int));
}

} // verus!
