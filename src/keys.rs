//! The key hierarchy: three secret key sources, loaded from a key file, unwrap a
//! key-encryption key and then the key that a frame is encrypted with.
use vstd::prelude::*;
use vstd::slice::{slice_subrange, slice_to_vec};

use crate::bytes::bytes_equal;
use crate::crypto::{
    aes_decrypt_block, aes_encrypt_block, decrypt_key, encrypt_key, hex_decode, hex_decoded,
    is_hex_text, xor_bytes, AesKey, KeySource, AES_128_KEY_SIZE,
};

verus! {

/// Key under which a key-encryption key is sealed between derivation stages.
pub const SEAL_KEY_SOURCE: AesKey = [
    0xF4, 0x0C, 0x16, 0x26, 0x0D, 0x46, 0x3B, 0xE0, 0x8C, 0x6A, 0x56, 0xE5, 0x82, 0xD4, 0x1B, 0xF6,
];

/// Block xored with a derivation context to give the wrapped key-encryption key.
pub const DERIVE_WITH: AesKey = [
    0xDA, 0xD8, 0xFC, 0x8E, 0x2D, 0x04, 0xAD, 0x06, 0x72, 0xAF, 0x4B, 0x5B, 0x48, 0x53, 0x25, 0xA1,
];

/// The entry name `aes_kek_generation_source`, as ASCII bytes.
pub const KEK_SOURCE_NAME: [u8; 25] = [
    97, 101, 115, 95, 107, 101, 107, 95, 103, 101, 110, 101, 114, 97, 116, 105, 111, 110, 95, 115,
    111, 117, 114, 99, 101,
];

/// The entry name `aes_key_generation_source`, as ASCII bytes.
pub const KEY_SOURCE_NAME: [u8; 25] = [
    97, 101, 115, 95, 107, 101, 121, 95, 103, 101, 110, 101, 114, 97, 116, 105, 111, 110, 95, 115,
    111, 117, 114, 99, 101,
];

/// The entry name `master_key_00`, as ASCII bytes.
pub const MASTER_KEY_NAME: [u8; 13] = [109, 97, 115, 116, 101, 114, 95, 107, 101, 121, 95, 48, 48];

/// The byte `=` that separates an entry's name from its value.
pub const ENTRY_SEPARATOR: u8 = 61;

/// The three secret key sources, as byte sequences.
pub struct KeySet {
    pub kek_source: Seq<u8>,
    pub key_source: Seq<u8>,
    pub master_key: Seq<u8>,
}

/// One of the three secret key sources of a key file.
#[derive(Clone, Copy, Debug, PartialEq, Eq, Structural)]
pub enum KeyField {
    AesKekGenerationSource,
    AesKeyGenerationSource,
    MasterKey,
}

/// Why a key file could not be loaded.
#[derive(Clone, Copy, Debug, PartialEq, Eq, Structural)]
pub enum LoadError {
    /// The named key source is not exactly 16 bytes of hex.
    MalformedKey(KeyField),
}

/// The secret key sources of the key hierarchy.
#[derive(Debug)]
pub struct Keys {
    aes_kek_generation_source: Vec<u8>,
    aes_key_generation_source: Vec<u8>,
    master_key: Vec<u8>,
}

impl View for Keys {
    type V = KeySet;

    closed spec fn view(&self) -> KeySet {
        KeySet {
            kek_source: self.aes_kek_generation_source@,
            key_source: self.aes_key_generation_source@,
            master_key: self.master_key@,
        }
    }
}

/// A complete key set: each source is one AES block.
pub open spec fn key_set_complete(ks: KeySet) -> bool {
    &&& ks.kek_source.len() == AES_128_KEY_SIZE
    &&& ks.key_source.len() == AES_128_KEY_SIZE
    &&& ks.master_key.len() == AES_128_KEY_SIZE
}

/// `key` sealed for passing between derivation stages.
pub open spec fn sealed(key: Seq<u8>) -> Seq<u8> {
    aes_encrypt_block(SEAL_KEY_SOURCE@, key)
}

/// The key that `key` was sealed from.
pub open spec fn unsealed(key: Seq<u8>) -> Seq<u8> {
    aes_decrypt_block(SEAL_KEY_SOURCE@, key)
}

/// The sealed key-encryption key unwrapped from `wrapped_kek`.
pub open spec fn kek_of(ks: KeySet, wrapped_kek: Seq<u8>) -> Seq<u8> {
    let temp_key = aes_decrypt_block(ks.master_key, ks.kek_source);
    sealed(aes_decrypt_block(temp_key, wrapped_kek))
}

/// The key unwrapped from `key_source` under the sealed key-encryption key `access_key`.
pub open spec fn key_of(ks: KeySet, access_key: Seq<u8>, key_source: Seq<u8>) -> Seq<u8> {
    let src_kek = aes_decrypt_block(unsealed(access_key), ks.key_source);
    aes_decrypt_block(src_kek, key_source)
}

/// The key derived for derivation context `context` and `key_source`.
pub open spec fn derived_key(ks: KeySet, context: Seq<u8>, key_source: Seq<u8>) -> Seq<u8> {
    key_of(ks, kek_of(ks, xor_bytes(DERIVE_WITH@, context)), key_source)
}

/// ASCII whitespace: space, tab, line feed, vertical tab, form feed, carriage return.
pub open spec fn is_space(b: u8) -> bool {
    b == 32 || (9 <= b <= 13)
}

/// `s` without its leading whitespace.
pub open spec fn trim_start(s: Seq<u8>) -> Seq<u8>
    decreases s.len(),
{
    if s.len() > 0 && is_space(s[0]) {
        trim_start(s.drop_first())
    } else {
        s
    }
}

/// `s` without its trailing whitespace.
pub open spec fn trim_end(s: Seq<u8>) -> Seq<u8>
    decreases s.len(),
{
    if s.len() > 0 && is_space(s.last()) {
        trim_end(s.drop_last())
    } else {
        s
    }
}

/// `s` without leading and trailing whitespace.
pub open spec fn trim(s: Seq<u8>) -> Seq<u8> {
    trim_end(trim_start(s))
}

/// `i` is the position of the only `=` in `line`.
pub open spec fn is_sole_separator(line: Seq<u8>, i: int) -> bool {
    &&& 0 <= i < line.len()
    &&& line[i] == ENTRY_SEPARATOR
    &&& forall|j: int| 0 <= j < line.len() && j != i ==> line[j] != ENTRY_SEPARATOR
}

/// The key source that an entry name stands for, if any.
pub open spec fn field_named(name: Seq<u8>) -> Option<KeyField> {
    if name == KEK_SOURCE_NAME@ {
        Some(KeyField::AesKekGenerationSource)
    } else if name == KEY_SOURCE_NAME@ {
        Some(KeyField::AesKeyGenerationSource)
    } else if name == MASTER_KEY_NAME@ {
        Some(KeyField::MasterKey)
    } else {
        None
    }
}

/// The key source that a line assigns and the (untrimmed) text after its `=`;
/// `None` for a line without exactly one `=` or with a name that is not
/// recognised.
pub open spec fn entry_of(line: Seq<u8>) -> Option<(KeyField, Seq<u8>)> {
    if exists|i: int| is_sole_separator(line, i) {
        let p = choose|i: int| is_sole_separator(line, i);
        match field_named(trim(line.subrange(0, p))) {
            Some(f) => Some((f, line.subrange(p + 1, line.len() as int))),
            None => None,
        }
    } else {
        None
    }
}

/// `ks` with key source `f` replaced by `v`.
pub open spec fn with_field(ks: KeySet, f: KeyField, v: Seq<u8>) -> KeySet {
    match f {
        KeyField::AesKekGenerationSource => KeySet { kek_source: v, ..ks },
        KeyField::AesKeyGenerationSource => KeySet { key_source: v, ..ks },
        KeyField::MasterKey => KeySet { master_key: v, ..ks },
    }
}

/// The key set after one line of a key file.
pub open spec fn apply_line(ks: KeySet, line: Seq<u8>) -> Result<KeySet, LoadError> {
    match entry_of(line) {
        Some((f, v)) => if is_hex_text(trim(v)) {
            Ok(with_field(ks, f, hex_decoded(trim(v))))
        } else {
            Err(LoadError::MalformedKey(f))
        },
        None => Ok(ks),
    }
}

/// The key set after the lines of a key file, in order; the first malformed
/// entry stops the load.
pub open spec fn apply_lines(ks: KeySet, lines: Seq<Seq<u8>>) -> Result<KeySet, LoadError>
    decreases lines.len(),
{
    if lines.len() == 0 {
        Ok(ks)
    } else {
        match apply_lines(ks, lines.drop_last()) {
            Ok(k) => apply_line(k, lines.last()),
            Err(e) => Err(e),
        }
    }
}

/// `ks` if it is complete; else the first source, in file order of the check,
/// that is not one block long.
pub open spec fn check_lengths(ks: KeySet) -> Result<KeySet, LoadError> {
    if ks.kek_source.len() != AES_128_KEY_SIZE {
        Err(LoadError::MalformedKey(KeyField::AesKekGenerationSource))
    } else if ks.key_source.len() != AES_128_KEY_SIZE {
        Err(LoadError::MalformedKey(KeyField::AesKeyGenerationSource))
    } else if ks.master_key.len() != AES_128_KEY_SIZE {
        Err(LoadError::MalformedKey(KeyField::MasterKey))
    } else {
        Ok(ks)
    }
}

/// The outcome of loading the lines of a key file over the key set `ks`.
pub open spec fn load_result(ks: KeySet, lines: Seq<Seq<u8>>) -> Result<KeySet, LoadError> {
    match apply_lines(ks, lines) {
        Ok(k) => check_lengths(k),
        Err(e) => Err(e),
    }
}

/// The views of a sequence of lines.
pub open spec fn lines_view(lines: Seq<Vec<u8>>) -> Seq<Seq<u8>> {
    lines.map_values(|l: Vec<u8>| l@)
}

/// A load that fails on a prefix of the lines fails on all of them, with the
/// same error.
proof fn lemma_apply_lines_err_persists(ks: KeySet, lines: Seq<Seq<u8>>, k: int)
    requires
        0 <= k <= lines.len(),
        apply_lines(ks, lines.subrange(0, k)).is_err(),
    ensures
        apply_lines(ks, lines) == apply_lines(ks, lines.subrange(0, k)),
    decreases lines.len() - k,
{
    if k < lines.len() {
        assert(lines.subrange(0, k + 1).drop_last() =~= lines.subrange(0, k));
        lemma_apply_lines_err_persists(ks, lines, k + 1);
    } else {
        assert(lines.subrange(0, k) =~= lines);
    }
}

/// Copies a 16-byte vector into a key.
fn vec2key(vec: &Vec<u8>) -> (r: AesKey)
    requires
        vec@.len() == AES_128_KEY_SIZE,
    ensures
        r@ == vec@,
{
    let mut out: AesKey = [0; AES_128_KEY_SIZE];
    let mut i: usize = 0;
    while i < AES_128_KEY_SIZE
        invariant
            i <= AES_128_KEY_SIZE,
            vec@.len() == AES_128_KEY_SIZE,
            forall|j: int| 0 <= j < i ==> out@[j] == vec@[j],
        decreases AES_128_KEY_SIZE - i,
    {
        out[i] = vec[i];
        i += 1;
    }
    assert(out@ =~= vec@);
    out
}

/// Whether `b` is ASCII whitespace.
fn is_space_byte(b: u8) -> (r: bool)
    ensures
        r == is_space(b),
{
    b == 32 || (9 <= b && b <= 13)
}

/// `s` without leading and trailing ASCII whitespace.
pub fn trim_bytes(s: &[u8]) -> (r: &[u8])
    ensures
        r@ == trim(s@),
{
    let len = s.len();
    let mut a: usize = 0;
    assert(s@.subrange(0, len as int) =~= s@);
    while a < len && is_space_byte(s[a])
        invariant
            a <= len,
            len == s@.len(),
            trim_start(s@) == trim_start(s@.subrange(a as int, len as int)),
        decreases len - a,
    {
        assert(s@.subrange(a as int, len as int).drop_first() =~= s@.subrange(
            a as int + 1,
            len as int,
        ));
        a += 1;
    }
    let mut b: usize = len;
    while b > a && is_space_byte(s[b - 1])
        invariant
            a <= b <= len,
            len == s@.len(),
            trim_start(s@) == s@.subrange(a as int, len as int),
            trim_end(s@.subrange(a as int, len as int)) == trim_end(s@.subrange(a as int, b as int)),
        decreases b,
    {
        assert(s@.subrange(a as int, b as int).drop_last() =~= s@.subrange(a as int, b - 1));
        b -= 1;
    }
    slice_subrange(s, a, b)
}

/// The key source that an entry name stands for, if any.
fn lookup_field(name: &[u8]) -> (r: Option<KeyField>)
    ensures
        r == field_named(name@),
{
    if bytes_equal(name, KEK_SOURCE_NAME.as_slice()) {
        Some(KeyField::AesKekGenerationSource)
    } else if bytes_equal(name, KEY_SOURCE_NAME.as_slice()) {
        Some(KeyField::AesKeyGenerationSource)
    } else if bytes_equal(name, MASTER_KEY_NAME.as_slice()) {
        Some(KeyField::MasterKey)
    } else {
        None
    }
}

/// Splits a key-file line with exactly one `=` into the key source that its
/// trimmed name stands for and the text after the `=`.
fn split_entry<'a>(line: &'a [u8]) -> (r: Option<(KeyField, &'a [u8])>)
    ensures
        r.is_some() == entry_of(line@).is_some(),
        r.is_some() ==> r.unwrap().0 == entry_of(line@).unwrap().0 && r.unwrap().1@ == entry_of(
            line@,
        ).unwrap().1,
{
    let len = line.len();
    let mut p: usize = 0;
    while p < len && line[p] != ENTRY_SEPARATOR
        invariant
            p <= len,
            len == line@.len(),
            forall|j: int| 0 <= j < p ==> line@[j] != ENTRY_SEPARATOR,
        decreases len - p,
    {
        p += 1;
    }
    if p == len {
        assert(!exists|i: int| is_sole_separator(line@, i));
        return None;
    }
    let mut q: usize = p + 1;
    while q < len && line[q] != ENTRY_SEPARATOR
        invariant
            p < q <= len,
            len == line@.len(),
            forall|j: int| p < j < q ==> line@[j] != ENTRY_SEPARATOR,
        decreases len - q,
    {
        q += 1;
    }
    if q < len {
        assert forall|i: int| !is_sole_separator(line@, i) by {
            if is_sole_separator(line@, i) {
                if i == p {
                    assert(line@[q as int] != ENTRY_SEPARATOR);
                } else {
                    assert(line@[p as int] != ENTRY_SEPARATOR);
                }
            }
        }
        return None;
    }
    assert(is_sole_separator(line@, p as int));
    let ghost chosen = choose|i: int| is_sole_separator(line@, i);
    assert(chosen == p as int) by {
        if chosen != p {
            assert(line@[p as int] != ENTRY_SEPARATOR);
        }
    }
    let name = trim_bytes(slice_subrange(line, 0, p));
    match lookup_field(name) {
        Some(f) => Some((f, slice_subrange(line, p + 1, len))),
        None => None,
    }
}

/// Decodes hex text after trimming whitespace around it; `None` where the
/// trimmed text is not an even number of hex digits.
pub fn decode_hex_key(key: &[u8]) -> (r: Option<Vec<u8>>)
    ensures
        r.is_some() == is_hex_text(trim(key@)),
        r.is_some() ==> r.unwrap()@ == hex_decoded(trim(key@)),
{
    match hex_decode(trim_bytes(key)) {
        Ok(v) => Some(v),
        Err(_) => None,
    }
}

/// Decodes hex text, trimmed, into a key made of its first 16 bytes; `None`
/// where it is not hex or decodes to fewer than 16 bytes.
pub fn decode_hex_aeskey(key: &[u8]) -> (r: Option<AesKey>)
    ensures
        r.is_some() == (is_hex_text(trim(key@)) && hex_decoded(trim(key@)).len()
            >= AES_128_KEY_SIZE),
        r.is_some() ==> r.unwrap()@ == hex_decoded(trim(key@)).subrange(0, AES_128_KEY_SIZE as int),
{
    match decode_hex_key(key) {
        Some(bin) => {
            if bin.len() < AES_128_KEY_SIZE {
                return None;
            }
            let mut out: AesKey = [0; AES_128_KEY_SIZE];
            let mut i: usize = 0;
            while i < AES_128_KEY_SIZE
                invariant
                    i <= AES_128_KEY_SIZE,
                    bin@.len() >= AES_128_KEY_SIZE,
                    forall|j: int| 0 <= j < i ==> out@[j] == bin@[j],
                decreases AES_128_KEY_SIZE - i,
            {
                out[i] = bin[i];
                i += 1;
            }
            assert(out@ =~= bin@.subrange(0, AES_128_KEY_SIZE as int));
            Some(out)
        },
        None => None,
    }
}

/// Seals a key-encryption key; unsealing gives the key back.
pub fn seal_key(key: &AesKey) -> (r: AesKey)
    ensures
        r@ == sealed(key@),
        unsealed(r@) == key@,
{
    encrypt_key(&SEAL_KEY_SOURCE, key)
}

/// The key that `key` was sealed from.
pub fn unseal_key(key: &AesKey) -> (r: AesKey)
    ensures
        r@ == unsealed(key@),
        sealed(r@) == key@,
{
    decrypt_key(&SEAL_KEY_SOURCE, key)
}

impl KeyField {
    /// The name under which this key source is reported.
    pub fn name(&self) -> (r: &'static str)
        ensures
            *self == KeyField::AesKekGenerationSource ==> r@ == "aes_kek_generation_source"@,
            *self == KeyField::AesKeyGenerationSource ==> r@ == "aes_key_generation_source"@,
            *self == KeyField::MasterKey ==> r@ == "master_key"@,
    {
        match self {
            KeyField::AesKekGenerationSource => "aes_kek_generation_source",
            KeyField::AesKeyGenerationSource => "aes_key_generation_source",
            KeyField::MasterKey => "master_key",
        }
    }
}

impl Keys {
    /// A key set whose three sources are still empty.
    pub fn new() -> (r: Keys)
        ensures
            r@.kek_source.len() == 0,
            r@.key_source.len() == 0,
            r@.master_key.len() == 0,
    {
        Keys {
            aes_kek_generation_source: Vec::new(),
            aes_key_generation_source: Vec::new(),
            master_key: Vec::new(),
        }
    }

    /// Each of the three sources is one AES block.
    pub open spec fn wf(&self) -> bool {
        key_set_complete(self@)
    }

    /// Loads the entries of a key file, given as its lines. Each line of the
    /// form `name = hex`, with exactly one `=`, whose trimmed name is one of the
    /// three sources sets that source, a later line winning; other lines are
    /// skipped. On success every
    /// source is one block long. On failure the key set is left as it was.
    pub fn read_from_lines(&mut self, lines: &[Vec<u8>]) -> (r: Result<(), LoadError>)
        ensures
            r.is_ok() == load_result(old(self)@, lines_view(lines@)).is_ok(),
            r.is_ok() ==> final(self)@ == load_result(old(self)@, lines_view(lines@))->Ok_0,
            r.is_ok() ==> final(self).wf(),
            r.is_err() ==> r->Err_0 == load_result(old(self)@, lines_view(lines@))->Err_0,
            r.is_err() ==> final(self)@ == old(self)@,
    {
        let ghost start = self@;
        let ghost all = lines_view(lines@);
        let mut kek_source = slice_to_vec(self.aes_kek_generation_source.as_slice());
        let mut key_source = slice_to_vec(self.aes_key_generation_source.as_slice());
        let mut master_key = slice_to_vec(self.master_key.as_slice());
        let mut i: usize = 0;
        while i < lines.len()
            invariant
                i <= lines@.len(),
                self@ == start,
                all == lines_view(lines@),
                apply_lines(start, all.subrange(0, i as int)) == Ok::<KeySet, LoadError>(
                    (KeySet { kek_source: kek_source@, key_source: key_source@, master_key: master_key@ }),
                ),
            decreases lines@.len() - i,
        {
            let ghost before = KeySet {
                kek_source: kek_source@,
                key_source: key_source@,
                master_key: master_key@,
            };
            assert(all.subrange(0, i + 1).drop_last() =~= all.subrange(0, i as int));
            assert(all.subrange(0, i + 1).last() == lines@[i as int]@);
            match split_entry(lines[i].as_slice()) {
                Some((field, text)) => {
                    match decode_hex_key(text) {
                        Some(value) => {
                            match field {
                                KeyField::AesKekGenerationSource => kek_source = value,
                                KeyField::AesKeyGenerationSource => key_source = value,
                                KeyField::MasterKey => master_key = value,
                            }
                            assert((KeySet { kek_source: kek_source@, key_source: key_source@, master_key: master_key@ })
                                == with_field(before, field, value@));
                        },
                        None => {
                            proof {
                                lemma_apply_lines_err_persists(start, all, i + 1);
                            }
                            return Err(LoadError::MalformedKey(field));
                        },
                    }
                },
                None => {},
            }
            i += 1;
        }
        assert(all.subrange(0, i as int) =~= all);
        if kek_source.len() != AES_128_KEY_SIZE {
            return Err(LoadError::MalformedKey(KeyField::AesKekGenerationSource));
        }
        if key_source.len() != AES_128_KEY_SIZE {
            return Err(LoadError::MalformedKey(KeyField::AesKeyGenerationSource));
        }
        if master_key.len() != AES_128_KEY_SIZE {
            return Err(LoadError::MalformedKey(KeyField::MasterKey));
        }
        self.aes_kek_generation_source = kek_source;
        self.aes_key_generation_source = key_source;
        self.master_key = master_key;
        Ok(())
    }

    /// The sealed key-encryption key: the master key decrypts the kek
    /// generation source into a temporary key, which decrypts `wrapped_kek`.
    pub fn generate_aes_kek(&self, wrapped_kek: &KeySource) -> (r: AesKey)
        requires
            self.wf(),
        ensures
            r@ == kek_of(self@, wrapped_kek@),
    {
        let master_key = vec2key(&self.master_key);
        let aes_kek_generation_source = vec2key(&self.aes_kek_generation_source);
        let temp_key = decrypt_key(&master_key, &aes_kek_generation_source);
        let kek = decrypt_key(&temp_key, wrapped_kek);
        seal_key(&kek)
    }

    /// The key unwrapped from `key_source`: the unsealed `access_key` decrypts
    /// the key generation source, which decrypts `key_source`.
    pub fn generate_aes_key(&self, access_key: &AesKey, key_source: &AesKey) -> (r: AesKey)
        requires
            self.wf(),
        ensures
            r@ == key_of(self@, access_key@, key_source@),
    {
        let kek = unseal_key(access_key);
        let src_kek = decrypt_key(&kek, &vec2key(&self.aes_key_generation_source));
        decrypt_key(&src_kek, key_source)
    }

    /// The key for derivation context `xor` and `key_source`: the context
    /// xored with a fixed block is the wrapped kek. The result depends on the
    /// key set and the two blocks alone.
    pub fn derive_key(&self, xor: &AesKey, key_source: &AesKey) -> (r: AesKey)
        requires
            self.wf(),
        ensures
            r@ == derived_key(self@, xor@, key_source@),
    {
        let mut t: AesKey = DERIVE_WITH;
        let mut i: usize = 0;
        while i < AES_128_KEY_SIZE
            invariant
                i <= AES_128_KEY_SIZE,
                forall|j: int| 0 <= j < i ==> t@[j] == DERIVE_WITH@[j] ^ xor@[j],
                forall|j: int| i <= j < AES_128_KEY_SIZE ==> t@[j] == DERIVE_WITH@[j],
            decreases AES_128_KEY_SIZE - i,
        {
            t[i] = t[i] ^ xor[i];
            i += 1;
        }
        assert(t@ =~= xor_bytes(DERIVE_WITH@, xor@));
        let kek = self.generate_aes_kek(&t);
        self.generate_aes_key(&kek, key_source)
    }
}

} // verus!
