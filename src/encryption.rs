//! Authenticated encryption of payload bytes with a key pair split from one
//! data key issued by a key provider.
use vstd::prelude::*;
use aes_gcm::aead::generic_array::GenericArray;
use aes_gcm::aead::{Aead, KeyInit};

verus! {

/// Length in bytes of the nonce that starts every ciphertext.
pub const NONCE_SIZE: usize = 12;
/// Length in bytes of each key of the pair (AES-256).
pub const KEY_SIZE: usize = 32;
/// Length in bytes of the data key that is split into the pair.
pub const DATA_KEY_SIZE: usize = 64;
/// Length in bytes of the authentication tag that ends a sealed message.
pub const TAG_SIZE: u64 = 16;
/// The longest plaintext that AES-GCM seals, in bytes.
pub const MAX_PLAINTEXT: u64 = 0x10_0000_0000;

/// The AES-256-GCM sealed form (ciphertext and tag, no associated data) of a
/// plaintext under a key and a nonce.
pub uninterp spec fn aes_gcm_seal_of(key: Seq<u8>, nonce: Seq<u8>, plaintext: Seq<u8>) -> Seq<u8>;

/// What AES-256-GCM opening (no associated data) returns for a sealed input
/// under a key and a nonce: the plaintext, or nothing when the tag does not verify.
pub uninterp spec fn aes_gcm_open_of(key: Seq<u8>, nonce: Seq<u8>, sealed: Seq<u8>) -> Option<
    Seq<u8>,
>;

/// Relies on `aes_gcm::Aes256Gcm::encrypt` (trait `Aead`): it seals any
/// plaintext of at most 2^36 bytes, appending a 16-byte tag, and fails on a
/// longer one.
#[verifier::external_body]
fn aes_gcm_seal(key: &[u8], nonce: &[u8; 12], plaintext: &[u8]) -> (r: Option<Vec<u8>>)
    requires
        key@.len() == KEY_SIZE,
    ensures
        r is Some <==> plaintext@.len() <= MAX_PLAINTEXT,
        r matches Some(c) ==> c@ == aes_gcm_seal_of(key@, nonce@, plaintext@),
        r matches Some(c) ==> c@.len() == plaintext@.len() + TAG_SIZE,
{
    let cipher = aes_gcm::Aes256Gcm::new(GenericArray::from_slice(key));
    cipher.encrypt(GenericArray::from_slice(nonce), plaintext).ok()
}

/// Relies on `aes_gcm::Aes256Gcm::decrypt` (trait `Aead`): it opens what was
/// sealed under the same key and nonce from a plaintext of at most 2^36
/// bytes, giving back the plaintext.
#[verifier::external_body]
fn aes_gcm_open(key: &[u8], nonce: &[u8; 12], sealed: &[u8]) -> (r: Option<Vec<u8>>)
    requires
        key@.len() == KEY_SIZE,
    ensures
        r is None <==> aes_gcm_open_of(key@, nonce@, sealed@) is None,
        r matches Some(p) ==> aes_gcm_open_of(key@, nonce@, sealed@) == Some(p@),
        r is None ==> forall|p: Seq<u8>|
            p.len() <= MAX_PLAINTEXT ==> #[trigger] aes_gcm_seal_of(key@, nonce@, p) != sealed@,
        r matches Some(q) ==> forall|p: Seq<u8>|
            p.len() <= MAX_PLAINTEXT && #[trigger] aes_gcm_seal_of(key@, nonce@, p) == sealed@
                ==> q@ == p,
{
    let cipher = aes_gcm::Aes256Gcm::new(GenericArray::from_slice(key));
    cipher.decrypt(GenericArray::from_slice(nonce), sealed).ok()
}

/// Why an encryption step failed.
#[derive(Clone, Copy, Debug, PartialEq, Eq, Structural)]
pub enum EncryptionError {
    /// The data key does not split into two AES-256 keys.
    InvalidKey,
    /// No random nonce could be drawn.
    NonceUnavailable,
    /// The plaintext is too long to seal.
    PlaintextTooLong,
    /// The input is shorter than a nonce.
    CiphertextTooShort,
    /// The authentication tag does not verify.
    AuthenticationFailed,
}

/// Whether `c` is a nonce followed by the sealed form of `p` under `key` and that nonce.
/// The plaintext is one that AES-GCM seals (at most 2^36 bytes).
pub open spec fn sealed_by(key: Seq<u8>, p: Seq<u8>, c: Seq<u8>) -> bool {
    &&& p.len() <= MAX_PLAINTEXT
    &&& c.len() >= NONCE_SIZE
    &&& c.subrange(NONCE_SIZE as int, c.len() as int) == aes_gcm_seal_of(
        key,
        c.subrange(0, NONCE_SIZE as int),
        p,
    )
}

/// What decrypting `c` with `key` gives: nothing for an input shorter than a
/// nonce, else what opening the rest under the leading nonce gives.
pub open spec fn opened_by(key: Seq<u8>, c: Seq<u8>) -> Option<Seq<u8>> {
    if c.len() < NONCE_SIZE {
        None
    } else {
        aes_gcm_open_of(
            key,
            c.subrange(0, NONCE_SIZE as int),
            c.subrange(NONCE_SIZE as int, c.len() as int),
        )
    }
}

/// The session's key pair: one half of the data key encrypts, the other
/// decrypts, and the data key's ciphertext form is kept for the peer.
pub struct Encrypter {
    pub kms_key_id: String,
    pub cipher_text_key: Vec<u8>,
    pub encryption_key: Vec<u8>,
    pub decryption_key: Vec<u8>,
}

impl Encrypter {
    /// Both keys are AES-256 keys.
    pub open spec fn wf(&self) -> bool {
        &&& self.encryption_key@.len() == KEY_SIZE
        &&& self.decryption_key@.len() == KEY_SIZE
    }

    /// Splits a data key at its midpoint: the first half encrypts, the second
    /// decrypts. Fails with `InvalidKey` unless the data key has 64 bytes.
    pub fn from_data_key(kms_key_id: String, plain_text: &[u8], cipher_text: &[u8]) -> (r: Result<
        Encrypter,
        EncryptionError,
    >)
        ensures
            r is Ok <==> plain_text@.len() == DATA_KEY_SIZE,
            r matches Err(e) ==> e == EncryptionError::InvalidKey,
            r matches Ok(enc) ==> {
                &&& enc.wf()
                &&& enc.kms_key_id@ == kms_key_id@
                &&& enc.encryption_key@ == plain_text@.subrange(0, KEY_SIZE as int)
                &&& enc.decryption_key@ == plain_text@.subrange(KEY_SIZE as int, DATA_KEY_SIZE as int)
                &&& enc.cipher_text_key@ == cipher_text@
            },
    {
        if plain_text.len() != DATA_KEY_SIZE {
            return Err(EncryptionError::InvalidKey);
        }
        let key_size = plain_text.len() / 2;
        let encryption_key = slice_range(plain_text, 0, key_size);
        let decryption_key = slice_range(plain_text, key_size, plain_text.len());
        let cipher_text_key = slice_range(cipher_text, 0, cipher_text.len());
        assert(cipher_text_key@ =~= cipher_text@);
        Ok(Encrypter { kms_key_id, cipher_text_key, encryption_key, decryption_key })
    }

    /// The ciphertext form of the data key, to be sent to the peer.
    pub fn get_encrypted_data_key(&self) -> (r: &[u8])
        ensures
            r@ == self.cipher_text_key@,
    {
        self.cipher_text_key.as_slice()
    }

    /// The identifier of the key under which the data key was issued.
    pub fn get_kms_key_id(&self) -> (r: &str)
        ensures
            r@ == self.kms_key_id@,
    {
        self.kms_key_id.as_str()
    }

    /// `nonce` followed by the sealed form of `plain_text` under the encryption
    /// key and that nonce; fails only on a plaintext over 2^36 bytes.
    pub fn encrypt_with_nonce(&self, nonce: &[u8; 12], plain_text: &[u8]) -> (r: Result<
        Vec<u8>,
        EncryptionError,
    >)
        requires
            self.wf(),
        ensures
            r is Ok <==> plain_text@.len() <= MAX_PLAINTEXT,
            r matches Err(e) ==> e == EncryptionError::PlaintextTooLong,
            r matches Ok(c) ==> c@ == nonce@ + aes_gcm_seal_of(
                self.encryption_key@,
                nonce@,
                plain_text@,
            ),
            r matches Ok(c) ==> c@.len() == NONCE_SIZE + plain_text@.len() + TAG_SIZE,
    {
        match aes_gcm_seal(self.encryption_key.as_slice(), nonce, plain_text) {
            Some(sealed) => {
                let mut out: Vec<u8> = Vec::new();
                crate::wire::put_bytes(&mut out, nonce);
                crate::wire::put_bytes(&mut out, sealed.as_slice());
                Ok(out)
            },
            None => Err(EncryptionError::PlaintextTooLong),
        }
    }

    /// Encrypts under a fresh random nonce, which leads the result.
    pub fn encrypt(&self, plain_text: &[u8]) -> (r: Result<Vec<u8>, EncryptionError>)
        requires
            self.wf(),
        ensures
            plain_text@.len() > MAX_PLAINTEXT ==> r is Err,
            r matches Err(e) ==> e == EncryptionError::PlaintextTooLong || e
                == EncryptionError::NonceUnavailable,
            r matches Err(e) ==> (e == EncryptionError::PlaintextTooLong <==> plain_text@.len()
                > MAX_PLAINTEXT),
            r matches Ok(c) ==> sealed_by(self.encryption_key@, plain_text@, c@),
            r matches Ok(c) ==> c@.len() == NONCE_SIZE + plain_text@.len() + TAG_SIZE,
    {
        if plain_text.len() as u64 > MAX_PLAINTEXT {
            return Err(EncryptionError::PlaintextTooLong);
        }
        match crate::entropy::random_bytes(NONCE_SIZE) {
            Some(drawn) => {
                let nonce = crate::entropy::array12(&drawn);
                let r = self.encrypt_with_nonce(&nonce, plain_text);
                proof {
                    if let Ok(c) = &r {
                        assert(c@.subrange(0, NONCE_SIZE as int) =~= nonce@);
                        assert(c@.subrange(NONCE_SIZE as int, c@.len() as int) =~= aes_gcm_seal_of(
                            self.encryption_key@,
                            nonce@,
                            plain_text@,
                        ));
                    }
                }
                r
            },
            None => Err(EncryptionError::NonceUnavailable),
        }
    }

    /// Splits off the leading nonce and opens the rest with the decryption key.
    /// Whatever was sealed under that key comes back unchanged.
    pub fn decrypt(&self, cipher_text: &[u8]) -> (r: Result<Vec<u8>, EncryptionError>)
        requires
            self.wf(),
        ensures
            r is Ok <==> opened_by(self.decryption_key@, cipher_text@) is Some,
            r matches Ok(p) ==> opened_by(self.decryption_key@, cipher_text@) == Some(p@),
            r matches Err(e) ==> (e == EncryptionError::CiphertextTooShort <==> cipher_text@.len()
                < NONCE_SIZE),
            r matches Err(e) ==> e == EncryptionError::CiphertextTooShort || e
                == EncryptionError::AuthenticationFailed,
            forall|p: Seq<u8>|
                sealed_by(self.decryption_key@, p, cipher_text@) ==> (r matches Ok(q) && q@ == p),
    {
        if cipher_text.len() < NONCE_SIZE {
            return Err(EncryptionError::CiphertextTooShort);
        }
        let mut nonce: [u8; 12] = [0u8; 12];
        let mut i: usize = 0;
        while i < NONCE_SIZE
            invariant
                cipher_text@.len() >= NONCE_SIZE,
                i <= NONCE_SIZE,
                nonce@.len() == NONCE_SIZE,
                forall|j: int| 0 <= j < i ==> nonce@[j] == cipher_text@[j],
            decreases NONCE_SIZE - i,
        {
            nonce[i] = cipher_text[i];
            i = i + 1;
        }
        assert(nonce@ =~= cipher_text@.subrange(0, NONCE_SIZE as int));
        let rest = slice_range(cipher_text, NONCE_SIZE, cipher_text.len());
        match aes_gcm_open(self.decryption_key.as_slice(), &nonce, rest.as_slice()) {
            Some(p) => Ok(p),
            None => Err(EncryptionError::AuthenticationFailed),
        }
    }
}

/// A copy of `s[start..end]`.
fn slice_range(s: &[u8], start: usize, end: usize) -> (r: Vec<u8>)
    requires
        start <= end <= s@.len(),
    ensures
        r@ == s@.subrange(start as int, end as int),
{
    let mut v: Vec<u8> = Vec::new();
    let mut i: usize = start;
    while i < end
        invariant
            start <= i <= end,
            end <= s@.len(),
            v@ == s@.subrange(start as int, i as int),
        decreases end - i,
    {
        v.push(s[i]);
        i = i + 1;
        assert(v@ =~= s@.subrange(start as int, i as int));
    }
    v
}

} // verus!
