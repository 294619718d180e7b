//! The crypto engine: authenticated encryption of byte contents under a
//! 256-bit key, and recoverable derivation of that key from a 12-word
//! mnemonic phrase.
//!
//! An encrypted blob is `nonce (12 bytes) || ciphertext (tag included)`.
//! Decryption fails closed: it succeeds exactly on blobs that are an
//! authentic encryption under the given key.

use vstd::prelude::*;

use aes_gcm::aead::{Aead, KeyInit};
use rand::RngCore;

use crate::text::is_space;

verus! {

/// Bytes of the random nonce at the head of every encrypted blob.
pub const NONCE_SIZE: usize = 12;

/// Bytes of an encryption key.
pub const KEY_SIZE: usize = 32;

/// Bytes the AEAD tag adds to a ciphertext.
pub const TAG_SIZE: usize = 16;

/// Largest plaintext the AEAD accepts (2^36 bytes).
pub const AEAD_MAX_PLAINTEXT: u64 = 68719476736;

/// Rounds of the key-derivation function.
pub const KDF_ROUNDS: u32 = 100000;

/// Errors of encryption and decryption.
#[derive(Clone, Copy, Debug, PartialEq, Eq, Structural)]
pub enum CryptoError {
    /// The blob is shorter than the nonce it must start with.
    TooShort,
    /// The AEAD tag did not verify: tampering, wrong key, or corruption.
    AuthenticationFailed,
}

/// Errors of key derivation and key-file handling.
#[derive(Clone, Copy, Debug, PartialEq, Eq, Structural)]
pub enum KeyError {
    /// The phrase is not a well-formed mnemonic.
    InvalidPhrase,
    /// The phrase does not have exactly twelve words.
    WrongWordCount,
    /// The entropy length is not one the mnemonic encoding accepts.
    BadEntropy,
    /// The key file text is not valid base64.
    BadEncoding,
    /// The key file text decodes to other than 32 bytes.
    WrongKeyLength,
}

/// The AES-256-GCM ciphertext (tag included) for a nonce, key and plaintext.
pub uninterp spec fn ciph_of(nonce: Seq<u8>, key: Seq<u8>, plaintext: Seq<u8>) -> Seq<u8>;

/// Whether a phrase parses as a well-formed English mnemonic: known words,
/// an accepted word count, and a matching checksum.
pub uninterp spec fn phrase_is_valid(s: Seq<char>) -> bool;

/// The 64-byte seed a mnemonic phrase stretches to (empty passphrase).
pub uninterp spec fn seed_of_phrase(s: Seq<char>) -> Seq<u8>;

/// The PBKDF2-HMAC-SHA256 output for a password, salt, round count and
/// output length.
pub uninterp spec fn pbkdf2_of(password: Seq<u8>, salt: Seq<u8>, rounds: u32, out_len: usize) -> Seq<u8>;

/// The mnemonic phrase that encodes the given entropy.
pub uninterp spec fn phrase_of_entropy(entropy: Seq<u8>) -> Seq<char>;

/// The base64 text (standard alphabet, padded) for the given bytes.
pub uninterp spec fn b64_of(bytes: Seq<u8>) -> Seq<char>;

/// How many space-separated words a character sequence holds, counting
/// from position `i` on, with `in_word` telling whether position `i` is
/// inside a word already begun.
pub open spec fn word_count_from(s: Seq<char>, i: int, in_word: bool) -> nat
    decreases s.len() - i,
{
    if i < 0 || i >= s.len() {
        0
    } else if is_space(s[i]) {
        word_count_from(s, i + 1, false)
    } else if in_word {
        word_count_from(s, i + 1, true)
    } else {
        1 + word_count_from(s, i + 1, true)
    }
}

/// How many space-separated words a character sequence holds.
pub open spec fn word_count(s: Seq<char>) -> nat {
    word_count_from(s, 0, false)
}

/// The salt of the key-derivation function, the bytes of
/// `dotfiles-encryption`.
pub open spec fn kdf_salt() -> Seq<u8> {
    seq![
        100u8, 111u8, 116u8, 102u8, 105u8, 108u8, 101u8, 115u8, 45u8, 101u8,
        110u8, 99u8, 114u8, 121u8, 112u8, 116u8, 105u8, 111u8, 110u8,
    ]
}

/// The 32-byte key a mnemonic phrase derives: the first 32 seed bytes
/// stretched by PBKDF2-HMAC-SHA256 under the fixed salt and round count.
pub open spec fn derived_key_of(phrase: Seq<char>) -> Seq<u8> {
    pbkdf2_of(seed_of_phrase(phrase).take(32), kdf_salt(), KDF_ROUNDS, KEY_SIZE)
}

/// Whether a blob is an authentic encryption of a plaintext under a key:
/// it starts with a 12-byte nonce, and the rest is the AEAD ciphertext of
/// the plaintext for that nonce and key.
pub open spec fn encrypts_to(blob: Seq<u8>, key: Seq<u8>, plaintext: Seq<u8>) -> bool {
    blob.len() >= 12 && blob.skip(12) == ciph_of(blob.take(12), key, plaintext)
}

/// Relies on aes_gcm::Aes256Gcm (through aead::Aead::encrypt): the
/// ciphertext is a function of key, nonce and plaintext alone, is the
/// plaintext's length plus the 16-byte tag, and the call cannot fail for
/// plaintexts within the AEAD length bound.
#[verifier::external_body]
fn aead_encrypt(key: &Vec<u8>, nonce: &Vec<u8>, plaintext: &Vec<u8>) -> (r: Vec<u8>)
    requires
        key@.len() == KEY_SIZE,
        nonce@.len() == NONCE_SIZE,
        plaintext@.len() <= AEAD_MAX_PLAINTEXT,
    ensures
        r@ == ciph_of(nonce@, key@, plaintext@),
        r@.len() == plaintext@.len() + TAG_SIZE,
{
    let cipher = aes_gcm::Aes256Gcm::new_from_slice(key).unwrap();
    let n = aes_gcm::Nonce::from_slice(nonce.as_slice());
    cipher.encrypt(n, plaintext.as_slice()).unwrap()
}

/// Relies on aes_gcm::Aes256Gcm (through aead::Aead::decrypt): decryption
/// inverts encryption — on the ciphertext of any plaintext for this nonce
/// and key it returns exactly that plaintext — and it succeeds only on such
/// a ciphertext, since the tag must verify.
#[verifier::external_body]
fn aead_decrypt(key: &Vec<u8>, nonce: &Vec<u8>, ciphertext: &Vec<u8>) -> (r: Result<Vec<u8>, CryptoError>)
    requires
        key@.len() == KEY_SIZE,
        nonce@.len() == NONCE_SIZE,
    ensures
        r is Ok ==> ciphertext@ == ciph_of(nonce@, key@, r->Ok_0@)
            && ciphertext@.len() == r->Ok_0@.len() + TAG_SIZE,
        forall|p: Seq<u8>| ciphertext@ == ciph_of(nonce@, key@, p) ==> r is Ok && r->Ok_0@ == p,
{
    let cipher = aes_gcm::Aes256Gcm::new_from_slice(key).unwrap();
    let n = aes_gcm::Nonce::from_slice(nonce.as_slice());
    cipher.decrypt(n, ciphertext.as_slice()).map_err(|_| CryptoError::AuthenticationFailed)
}

/// Relies on rand::rngs::OsRng::fill_bytes: bytes from the operating
/// system's randomness source; only the length is promised.
#[verifier::external_body]
fn random_bytes(n: usize) -> (r: Vec<u8>)
    ensures
        r@.len() == n,
{
    let mut buf = vec![0u8; n];
    rand::rngs::OsRng.fill_bytes(&mut buf);
    buf
}

/// Relies on bip39::Mnemonic::parse_in (English) and
/// bip39::Mnemonic::to_seed with an empty passphrase: parsing succeeds
/// exactly for well-formed phrases, and the 64-byte seed is a function of
/// the phrase alone.
#[verifier::external_body]
fn phrase_to_seed(phrase: &str) -> (r: Result<Vec<u8>, KeyError>)
    ensures
        r is Ok <==> phrase_is_valid(phrase@),
        r is Ok ==> r->Ok_0@ == seed_of_phrase(phrase@) && r->Ok_0@.len() == 64,
{
    match bip39::Mnemonic::parse_in(bip39::Language::English, phrase) {
        Ok(m) => Ok(m.to_seed("").to_vec()),
        Err(_) => Err(KeyError::InvalidPhrase),
    }
}

/// Relies on bip39::Mnemonic::from_entropy_in (English) and its Display
/// rendering, which joins the words with single spaces: the phrase is a
/// function of the entropy; it is accepted for entropy of 16 to 32 bytes in
/// 4-byte steps; 16 bytes yield exactly twelve words; and the rendered
/// phrase parses back as well-formed.
#[verifier::external_body]
fn phrase_from_entropy(entropy: &Vec<u8>) -> (r: Result<String, KeyError>)
    ensures
        r is Ok <==> (entropy@.len() % 4 == 0 && 16 <= entropy@.len() <= 32),
        r is Ok ==> r->Ok_0@ == phrase_of_entropy(entropy@) && phrase_is_valid(r->Ok_0@),
        (r is Ok && entropy@.len() == 16) ==> word_count(r->Ok_0@) == 12,
{
    match bip39::Mnemonic::from_entropy_in(bip39::Language::English, entropy) {
        Ok(m) => Ok(m.to_string()),
        Err(_) => Err(KeyError::BadEntropy),
    }
}

/// Relies on pbkdf2::pbkdf2_hmac with sha2::Sha256: the derived bytes are a
/// function of password, salt, round count and output length alone.
#[verifier::external_body]
fn pbkdf2_sha256(password: &Vec<u8>, salt: &Vec<u8>, rounds: u32, out_len: usize) -> (r: Vec<u8>)
    ensures
        r@ == pbkdf2_of(password@, salt@, rounds, out_len),
        r@.len() == out_len,
{
    let mut out = vec![0u8; out_len];
    pbkdf2::pbkdf2_hmac::<sha2::Sha256>(password, salt, rounds, &mut out);
    out
}

/// Relies on base64::encode (standard alphabet, padded): the text is a
/// function of the bytes alone.
#[verifier::external_body]
fn b64_encode(bytes: &Vec<u8>) -> (r: String)
    ensures
        r@ == b64_of(bytes@),
{
    base64::encode(bytes.as_slice())
}

/// Relies on base64::decode (standard alphabet): decoding inverts encoding,
/// so on the encoding of any bytes it returns exactly those bytes.
#[verifier::external_body]
fn b64_decode(text: &str) -> (r: Result<Vec<u8>, KeyError>)
    ensures
        forall|b: Seq<u8>| text@ == b64_of(b) ==> r is Ok && r->Ok_0@ == b,
{
    base64::decode(text).map_err(|_| KeyError::BadEncoding)
}

/// The bytes of the key-derivation salt, as a vector.
fn kdf_salt_bytes() -> (r: Vec<u8>)
    ensures
        r@ == kdf_salt(),
{
    let mut v: Vec<u8> = Vec::new();
    v.push(100);
    v.push(111);
    v.push(116);
    v.push(102);
    v.push(105);
    v.push(108);
    v.push(101);
    v.push(115);
    v.push(45);
    v.push(101);
    v.push(110);
    v.push(99);
    v.push(114);
    v.push(121);
    v.push(112);
    v.push(116);
    v.push(105);
    v.push(111);
    v.push(110);
    proof {
        assert(v@ =~= kdf_salt());
    }
    v
}

/// A copy of `v[from..to]`.
pub fn subvec(v: &Vec<u8>, from: usize, to: usize) -> (r: Vec<u8>)
    requires
        from <= to <= v@.len(),
    ensures
        r@ == v@.subrange(from as int, to as int),
{
    let mut out: Vec<u8> = Vec::new();
    let mut i: usize = from;
    while i < to
        invariant
            from <= i <= to <= v@.len(),
            out@ == v@.subrange(from as int, i as int),
        decreases to - i,
    {
        out.push(v[i]);
        proof {
            assert(out@ =~= v@.subrange(from as int, i + 1 as int));
        }
        i += 1;
    }
    out
}

/// How many space-separated words the text holds.
pub fn count_words(s: &str) -> (r: usize)
    ensures
        r == word_count(s@),
{
    let n = s.unicode_len();
    let mut i: usize = 0;
    let mut in_word = false;
    let mut count: usize = 0;
    while i < n
        invariant
            i <= n,
            n == s@.len(),
            count <= i,
            word_count(s@) == count + word_count_from(s@, i as int, in_word),
            in_word ==> count >= 1,
        decreases n - i,
    {
        let c = s.get_char(i);
        let space = c == ' ' || c == '\t' || c == '\n' || c == '\r';
        if space {
            in_word = false;
        } else if !in_word {
            count = count + 1;
            in_word = true;
        }
        i += 1;
    }
    count
}

/// Where key custody stands on this machine, read off the two
/// observations: the marker inside the repository and the key file inside
/// the home directory. The key lives only under home; the marker lives
/// only under the repository; neither is ever swapped into the other tree.
#[derive(Clone, Copy, Debug, PartialEq, Eq, Structural)]
pub enum CustodyState {
    /// No marker, no key: encryption has never been set up.
    Unconfigured,
    /// Marker and key both present: ready to encrypt and decrypt.
    Configured,
    /// Marker without key: a fresh clone on a new machine; the key must be
    /// re-derived from the mnemonic phrase.
    NeedsRecovery,
    /// Key without marker: a leftover key file in a repository that does
    /// not declare encryption.
    LocalKeyOnly,
}

/// The crypto engine and the custody snapshot it works against: whether the
/// repository carries the encryption marker and whether the home directory
/// holds a key file.
pub struct FileEncryptor {
    /// Whether the marker file is present in the repository.
    pub marker_present: bool,
    /// Whether the key file is present in the home directory.
    pub key_present: bool,
}

impl FileEncryptor {
    /// A custody snapshot from the two observations.
    pub fn new(marker_present: bool, key_present: bool) -> (r: FileEncryptor)
        ensures
            r.marker_present == marker_present,
            r.key_present == key_present,
    {
        FileEncryptor { marker_present, key_present }
    }

    /// Whether the repository declares that it holds encrypted members.
    pub fn is_encryption_setup(&self) -> (r: bool)
        ensures
            r == self.marker_present,
    {
        self.marker_present
    }

    /// Whether this machine already holds the encryption key.
    pub fn has_local_key(&self) -> (r: bool)
        ensures
            r == self.key_present,
    {
        self.key_present
    }

    /// Where the key file lives: inside the home directory — never inside
    /// the repository, which would sync the secret to the remote.
    pub fn get_key_file_path(home: &str) -> (r: String)
        ensures
            r@ == home@ + "/.dotfiles.encryption.key"@,
            r@.take(home@.len() as int) == home@,
    {
        let p = crate::text::str_concat(home, "/.dotfiles.encryption.key");
        proof {
            assert(p@.take(home@.len() as int) =~= home@);
        }
        p
    }

    /// Where the marker file lives: inside the repository — it carries no
    /// secret, only the notice that this repository uses encryption.
    pub fn get_marker_file_path(repo: &str) -> (r: String)
        ensures
            r@ == repo@ + "/.dotfiles.encryption.enabled"@,
            r@.take(repo@.len() as int) == repo@,
    {
        let p = crate::text::str_concat(repo, "/.dotfiles.encryption.enabled");
        proof {
            assert(p@.take(repo@.len() as int) =~= repo@);
        }
        p
    }

    /// Where key custody stands, from the two observations.
    pub fn custody_state(&self) -> (r: CustodyState)
        ensures
            self.marker_present && self.key_present ==> r == CustodyState::Configured,
            self.marker_present && !self.key_present ==> r == CustodyState::NeedsRecovery,
            !self.marker_present && self.key_present ==> r == CustodyState::LocalKeyOnly,
            !self.marker_present && !self.key_present ==> r == CustodyState::Unconfigured,
    {
        if self.marker_present && self.key_present {
            CustodyState::Configured
        } else if self.marker_present {
            CustodyState::NeedsRecovery
        } else if self.key_present {
            CustodyState::LocalKeyOnly
        } else {
            CustodyState::Unconfigured
        }
    }

    /// Encrypt contents under a 32-byte key: a fresh random nonce followed
    /// by the authenticated ciphertext.
    pub fn encrypt_data(data: &Vec<u8>, key: &Vec<u8>) -> (r: Vec<u8>)
        requires
            key@.len() == KEY_SIZE,
            data@.len() <= AEAD_MAX_PLAINTEXT,
        ensures
            encrypts_to(r@, key@, data@),
            r@.len() == data@.len() + NONCE_SIZE + TAG_SIZE,
    {
        let nonce = random_bytes(NONCE_SIZE);
        let ct = aead_encrypt(key, &nonce, data);
        let mut out = nonce;
        let ghost nonce_view = out@;
        let mut rest = ct;
        out.append(&mut rest);
        proof {
            assert(out@.take(12) =~= nonce_view);
            assert(out@.skip(12) =~= ciph_of(nonce_view, key@, data@));
        }
        out
    }

    /// Decrypt a blob under a 32-byte key. Fails closed: succeeds exactly
    /// on blobs that are an authentic encryption under this key, and then
    /// returns the encrypted plaintext.
    pub fn decrypt_data(data: &Vec<u8>, key: &Vec<u8>) -> (r: Result<Vec<u8>, CryptoError>)
        requires
            key@.len() == KEY_SIZE,
        ensures
            data@.len() < NONCE_SIZE ==> r == Err::<Vec<u8>, CryptoError>(CryptoError::TooShort),
            forall|p: Seq<u8>| encrypts_to(data@, key@, p) ==> r is Ok && r->Ok_0@ == p,
            r is Ok ==> encrypts_to(data@, key@, r->Ok_0@)
                && data@.len() == r->Ok_0@.len() + NONCE_SIZE + TAG_SIZE,
    {
        if data.len() < NONCE_SIZE {
            return Err(CryptoError::TooShort);
        }
        let nonce = subvec(data, 0, NONCE_SIZE);
        let ct = subvec(data, NONCE_SIZE, data.len());
        proof {
            assert(nonce@ =~= data@.take(12));
            assert(ct@ =~= data@.skip(12));
        }
        match aead_decrypt(key, &nonce, &ct) {
            Ok(p) => Ok(p),
            Err(e) => Err(e),
        }
    }

    /// Round trip: decrypting an encryption of `data` under the same key
    /// returns exactly `data`, whatever nonce the encryption drew.
    pub fn encrypt_then_decrypt(data: &Vec<u8>, key: &Vec<u8>) -> (r: Vec<u8>)
        requires
            key@.len() == KEY_SIZE,
            data@.len() <= AEAD_MAX_PLAINTEXT,
        ensures
            r@ == data@,
    {
        let blob = Self::encrypt_data(data, key);
        match Self::decrypt_data(&blob, key) {
            Ok(p) => p,
            Err(_) => {
                proof {
                    assert(false);
                }
                vstd::pervasive::unreached()
            },
        }
    }

    /// Derive the 32-byte encryption key from a 12-word mnemonic phrase:
    /// validate the phrase, stretch its seed's first 32 bytes by
    /// PBKDF2-HMAC-SHA256 under the fixed salt and round count. A pure
    /// function of the phrase: the same phrase always gives the same key.
    pub fn derive_key_from_mnemonic(phrase: &str) -> (r: Result<Vec<u8>, KeyError>)
        ensures
            r is Ok <==> phrase_is_valid(phrase@) && word_count(phrase@) == 12,
            r is Ok ==> r->Ok_0@ == derived_key_of(phrase@) && r->Ok_0@.len() == KEY_SIZE,
            word_count(phrase@) != 12 ==> r == Err::<Vec<u8>, KeyError>(KeyError::WrongWordCount),
    {
        let words = count_words(phrase);
        if words != 12 {
            return Err(KeyError::WrongWordCount);
        }
        let seed = match phrase_to_seed(phrase) {
            Ok(s) => s,
            Err(e) => {
                return Err(e);
            },
        };
        let seed32 = subvec(&seed, 0, 32);
        proof {
            assert(seed32@ =~= seed_of_phrase(phrase@).take(32));
        }
        let salt = kdf_salt_bytes();
        let key = pbkdf2_sha256(&seed32, &salt, KDF_ROUNDS, KEY_SIZE);
        Ok(key)
    }

    /// Generate a fresh 12-word mnemonic phrase from 128 bits of
    /// operating-system randomness. The phrase is well formed, so deriving
    /// a key from it succeeds.
    pub fn generate_mnemonic() -> (r: String)
        ensures
            phrase_is_valid(r@),
            word_count(r@) == 12,
    {
        let entropy = random_bytes(16);
        match phrase_from_entropy(&entropy) {
            Ok(p) => p,
            Err(_) => {
                proof {
                    assert(false);
                }
                vstd::pervasive::unreached()
            },
        }
    }

    /// Render a key as the base64 text the key file holds.
    pub fn encode_key(key: &Vec<u8>) -> (r: String)
        requires
            key@.len() == KEY_SIZE,
        ensures
            r@ == b64_of(key@),
    {
        b64_encode(key)
    }

    /// Read a key back from key-file text: base64 that must decode to
    /// exactly 32 bytes. On the encoding of any 32-byte key it returns
    /// exactly that key; the encoding of bytes of any other length is a
    /// length error.
    pub fn decode_key(text: &str) -> (r: Result<Vec<u8>, KeyError>)
        ensures
            r is Ok ==> r->Ok_0@.len() == KEY_SIZE,
            forall|k: Seq<u8>| text@ == b64_of(k) && k.len() == KEY_SIZE
                ==> r is Ok && r->Ok_0@ == k,
            forall|k: Seq<u8>| text@ == b64_of(k) && k.len() != KEY_SIZE
                ==> r == Err::<Vec<u8>, KeyError>(KeyError::WrongKeyLength),
    {
        let bytes = match b64_decode(text) {
            Ok(b) => b,
            Err(e) => {
                return Err(e);
            },
        };
        if bytes.len() != KEY_SIZE {
            return Err(KeyError::WrongKeyLength);
        }
        Ok(bytes)
    }

    /// Key-file round trip: decoding an encoded key returns exactly that
    /// key, so persisting the key as base64 loses nothing.
    pub fn encode_then_decode_key(key: &Vec<u8>) -> (r: Vec<u8>)
        requires
            key@.len() == KEY_SIZE,
        ensures
            r@ == key@,
    {
        let text = Self::encode_key(key);
        match Self::decode_key(text.as_str()) {
            Ok(k) => k,
            Err(_) => {
                proof {
                    assert(false);
                }
                vstd::pervasive::unreached()
            },
        }
    }
}

/// Key determinism: any two keys derived from the same phrase are the same
/// bytes.
pub proof fn lemma_derive_key_deterministic(phrase: Seq<char>, k1: Seq<u8>, k2: Seq<u8>)
    requires
        k1 == derived_key_of(phrase),
        k2 == derived_key_of(phrase),
    ensures
        k1 == k2,
{
}

} // verus!
