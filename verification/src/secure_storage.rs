//! Encrypted credential store: an in-memory map of named credentials, a
//! machine-derived encryption key, and the sealed-blob framing (a 12-byte
//! nonce followed by the AES-256-GCM ciphertext). Reading and writing the
//! blob to disk, and serializing the credential pairs, belong to the
//! unverified edge around this crate.

use vstd::prelude::*;
use aes_gcm::Aes256Gcm;
use aes_gcm::Key;
use aes_gcm::Nonce;
use aes_gcm::aead::Aead;
use aes_gcm::aead::AeadCore;
use aes_gcm::aead::KeyInit;
use aes_gcm::aead::OsRng;
use sha2::Digest;
use sha2::Sha256;
use crate::text::str_eq;
use vstd::string::StringSliceAdditionalSpecFns;

verus! {

/// What AES-256-GCM seals a plaintext to, under a key and nonce: a
/// function of those three alone.
pub uninterp spec fn aead_sealed(key: Seq<u8>, nonce: Seq<u8>, plain: Seq<u8>) -> Seq<u8>;

/// What AES-256-GCM opens a sealed text to, under a key and nonce; nothing
/// when the authentication tag does not check.
pub uninterp spec fn aead_opened(key: Seq<u8>, nonce: Seq<u8>, sealed: Seq<u8>) -> Option<
    Seq<u8>,
>;

/// The SHA-256 digest of a byte sequence.
pub uninterp spec fn sha256_digest(data: Seq<u8>) -> Seq<u8>;

/// Relies on sha2's Sha256: a digest of 32 bytes that depends on the input
/// bytes alone.
#[verifier::external_body]
fn sha256(data: &Vec<u8>) -> (r: Vec<u8>)
    ensures
        r@ == sha256_digest(data@),
        r@.len() == 32,
{
    let mut hasher = Sha256::new();
    hasher.update(data.as_slice());
    hasher.finalize().to_vec()
}

/// Relies on aes_gcm's Aes256Gcm encryption: sealing is a function of key,
/// nonce and plaintext alone, and what it seals, decryption opens back.
/// Messages up to two-to-the-36th bytes are accepted.
#[verifier::external_body]
fn aes256_gcm_seal(key: &Vec<u8>, nonce: &Vec<u8>, plain: &Vec<u8>) -> (r: Vec<u8>)
    requires
        key@.len() == 32,
        nonce@.len() == 12,
        plain@.len() < 0x10_0000_0000,
    ensures
        r@ == aead_sealed(key@, nonce@, plain@),
        aead_opened(key@, nonce@, r@) == Some(plain@),
{
    let cipher = Aes256Gcm::new(Key::<Aes256Gcm>::from_slice(key.as_slice()));
    let nonce = Nonce::from_slice(nonce.as_slice());
    cipher.encrypt(nonce, plain.as_slice()).unwrap()
}

/// Relies on aes_gcm's Aes256Gcm decryption: opening depends on key, nonce
/// and sealed bytes alone, and fails exactly when the tag does not check.
#[verifier::external_body]
fn aes256_gcm_open(key: &Vec<u8>, nonce: &Vec<u8>, sealed: &Vec<u8>) -> (r: Option<Vec<u8>>)
    requires
        key@.len() == 32,
        nonce@.len() == 12,
    ensures
        aead_opened(key@, nonce@, sealed@) == (match r {
            Some(p) => Some(p@),
            None => None::<Seq<u8>>,
        }),
{
    let cipher = Aes256Gcm::new(Key::<Aes256Gcm>::from_slice(key.as_slice()));
    let nonce = Nonce::from_slice(nonce.as_slice());
    cipher.decrypt(nonce, sealed.as_slice()).ok()
}

/// Relies on aes_gcm's nonce generation from the operating system's
/// randomness: twelve fresh bytes, so only the length is promised.
#[verifier::external_body]
fn generate_nonce() -> (r: Vec<u8>)
    ensures
        r@.len() == 12,
{
    Aes256Gcm::generate_nonce(&mut OsRng).to_vec()
}

/// Why a credential operation failed.
#[derive(Clone, Debug)]
pub enum SecureStorageError {
    /// Encryption or decryption failed.
    Encryption(String),
    /// Reading or writing the blob failed (raised by the storage edge).
    Io(String),
    /// The blob's content could not be parsed (raised by the storage edge).
    Serialization(String),
    /// No credential of this name is stored.
    NotFound(String),
}

/// One stored credential.
struct CredentialEntry {
    name: String,
    value: String,
}

/// The application-specific salt mixed into the key derivation.
pub open spec fn storage_salt() -> Seq<u8> {
    "com.assistant.app.secret".spec_bytes()
}

/// The in-memory credential store and its machine-derived encryption key.
pub struct SecureStorage {
    encryption_key: Vec<u8>,
    entries: Vec<CredentialEntry>,
}

impl SecureStorage {
    /// The key is 32 bytes and each stored name maps to exactly one value.
    pub closed spec fn wf(&self) -> bool {
        &&& self.encryption_key@.len() == 32
        &&& forall|i: int, j: int|
            0 <= i < j < self.entries@.len() ==> self.entries@[i].name@ != self.entries@[j].name@
    }

    pub closed spec fn key_view(&self) -> Seq<u8> {
        self.encryption_key@
    }

    pub closed spec fn spec_has(&self, name: Seq<char>) -> bool {
        exists|i: int| 0 <= i < self.entries@.len() && self.entries@[i].name@ == name
    }

    spec fn spec_index_of(&self, name: Seq<char>) -> int {
        choose|i: int| 0 <= i < self.entries@.len() && self.entries@[i].name@ == name
    }

    pub closed spec fn spec_value_of(&self, name: Seq<char>) -> Seq<char> {
        self.entries@[self.spec_index_of(name)].value@
    }

    /// A store with no credentials, its key derived from the machine
    /// identifier and the application salt by SHA-256.
    pub fn new(machine_id: &str) -> (r: Self)
        ensures
            r.wf(),
            r.key_view() == sha256_digest(machine_id.spec_bytes() + storage_salt()),
            forall|n: Seq<char>| !r.spec_has(n),
    {
        let mut data = machine_id.as_bytes_vec();
        let mut salt = "com.assistant.app.secret".as_bytes_vec();
        data.append(&mut salt);
        let key = sha256(&data);
        SecureStorage { encryption_key: key, entries: Vec::new() }
    }

    /// Index of the entry for `name`, if one exists.
    fn find(&self, name: &str) -> (r: Option<usize>)
        ensures
            match r {
                Some(i) => i < self.entries@.len() && self.entries@[i as int].name@ == name@,
                None => !self.spec_has(name@),
            },
    {
        let mut k: usize = 0;
        let n = self.entries.len();
        while k < n
            invariant
                n == self.entries@.len(),
                k <= n,
                forall|j: int| 0 <= j < k ==> self.entries@[j].name@ != name@,
            decreases n - k,
        {
            if str_eq(self.entries[k].name.as_str(), name) {
                return Some(k);
            }
            k = k + 1;
        }
        None
    }

    /// Store `value` under `name`, replacing any previous value.
    pub fn set_credential(&mut self, name: &str, value: &str) -> (r: Result<
        (),
        SecureStorageError,
    >)
        requires
            old(self).wf(),
        ensures
            final(self).wf(),
            final(self).key_view() == old(self).key_view(),
            final(self).spec_has(name@),
            final(self).spec_value_of(name@) == value@,
            forall|o: Seq<char>| o != name@ ==> #[trigger] final(self).spec_has(o) == old(self).spec_has(o),
            forall|o: Seq<char>|
                o != name@ && old(self).spec_has(o) ==> #[trigger] final(self).spec_value_of(o)
                    == old(self).spec_value_of(o),
            r is Ok,
    {
        self.remove_entry(name);
        let ghost mid = *self;
        self.entries.push(CredentialEntry { name: name.to_owned(), value: value.to_owned() });
        proof {
            let n = mid.entries@.len() as int;
            assert forall|i: int, j: int|
                0 <= i < j < self.entries@.len() implies self.entries@[i].name@
                != self.entries@[j].name@ by {
                if j < n {
                    assert(mid.wf());
                } else {
                    assert(!mid.spec_has(name@));
                }
            }
            assert(self.entries@[n].name@ == name@);
            assert(self.spec_has(name@));
            assert(self.spec_index_of(name@) == n);
            assert forall|o: Seq<char>| o != name@ implies
                #[trigger] self.spec_has(o) == mid.spec_has(o) by {
                if self.spec_has(o) {
                    let i = self.spec_index_of(o);
                    assert(i < n);
                }
                if mid.spec_has(o) {
                    let i = choose|i: int| 0 <= i < mid.entries@.len() && mid.entries@[i].name@ == o;
                    assert(self.entries@[i].name@ == o);
                }
            }
            assert forall|o: Seq<char>| o != name@ && mid.spec_has(o) implies
                #[trigger] self.spec_value_of(o) == mid.spec_value_of(o) by {
                assert(self.spec_has(o));
                let i = self.spec_index_of(o);
                assert(self.entries@[i].name@ == o);
                assert(i < n);
                let k = mid.spec_index_of(o);
                assert(mid.entries@[k].name@ == o);
                assert(i == k);
            }
        }
        Ok(())
    }

    /// Remove the entry for `name` if one exists; the store's own removal
    /// step, shared by replacement and deletion.
    fn remove_entry(&mut self, name: &str)
        requires
            old(self).wf(),
        ensures
            final(self).wf(),
            final(self).key_view() == old(self).key_view(),
            !final(self).spec_has(name@),
            forall|o: Seq<char>| o != name@ ==> #[trigger] final(self).spec_has(o) == old(self).spec_has(o),
            forall|o: Seq<char>|
                o != name@ && old(self).spec_has(o) ==> #[trigger] final(self).spec_value_of(o)
                    == old(self).spec_value_of(o),
    {
        let found = self.find(name);
        match found {
            None => { }
            Some(i) => {
                let ghost pre = *old(self);
                self.entries.remove(i);
                proof {
                    let n = self.entries@.len() as int;
                    let i = i as int;
                    assert forall|a: int| 0 <= a < n implies
                        self.entries@[a] == pre.entries@[if a < i { a } else { a + 1 }] by {
                    }
                    assert forall|x: int, y: int|
                        0 <= x < y < n implies self.entries@[x].name@ != self.entries@[y].name@ by {
                        assert(pre.wf());
                    }
                    assert(!self.spec_has(name@)) by {
                        if self.spec_has(name@) {
                            let a = self.spec_index_of(name@);
                            let s: int = if a < i { a } else { a + 1 };
                            assert(pre.entries@[s].name@ == name@);
                            assert(pre.entries@[i].name@ == name@);
                            assert(s != i);
                            assert(pre.wf());
                        }
                    }
                    assert forall|o: Seq<char>| o != name@ implies
                        #[trigger] self.spec_has(o) == pre.spec_has(o) by {
                        if self.spec_has(o) {
                            let a = self.spec_index_of(o);
                            let s: int = if a < i { a } else { a + 1 };
                            assert(pre.entries@[s].name@ == o);
                        }
                        if pre.spec_has(o) {
                            let b = choose|b: int|
                                0 <= b < pre.entries@.len() && pre.entries@[b].name@ == o;
                            assert(b != i);
                            let a: int = if b < i { b } else { b - 1 };
                            assert(self.entries@[a].name@ == o);
                        }
                    }
                    assert forall|o: Seq<char>| o != name@ && pre.spec_has(o) implies
                        #[trigger] self.spec_value_of(o) == pre.spec_value_of(o) by {
                        if self.spec_has(o) {
                            let a = self.spec_index_of(o);
                            let s: int = if a < i { a } else { a + 1 };
                            assert(pre.entries@[s].name@ == o);
                            let b = pre.spec_index_of(o);
                            assert(pre.entries@[b].name@ == o);
                            assert(b == s) by {
                                if b != s {
                                    assert(pre.wf());
                                }
                            }
                        }
                    }
                }
            }
        }
    }

    /// The stored value for `name`, or the not-found error naming it.
    pub fn get_credential(&self, name: &str) -> (r: Result<String, SecureStorageError>)
        requires
            self.wf(),
        ensures
            match r {
                Ok(v) => self.spec_has(name@) && v@ == self.spec_value_of(name@),
                Err(e) => !self.spec_has(name@) && (e matches SecureStorageError::NotFound(k)
                    && k@ == name@),
            },
    {
        match self.find(name) {
            Some(i) => {
                proof {
                    let a = self.spec_index_of(name@);
                    if a != i as int {
                        assert(self.wf());
                        assert(self.entries@[a].name@ == self.entries@[i as int].name@);
                    }
                }
                Ok(self.entries[i].value.clone())
            }
            None => Err(SecureStorageError::NotFound(name.to_owned())),
        }
    }

    /// Remove the credential for `name` unconditionally; removing an absent
    /// name succeeds.
    pub fn delete_credential(&mut self, name: &str) -> (r: Result<(), SecureStorageError>)
        requires
            old(self).wf(),
        ensures
            final(self).wf(),
            final(self).key_view() == old(self).key_view(),
            !final(self).spec_has(name@),
            forall|o: Seq<char>| o != name@ ==> #[trigger] final(self).spec_has(o) == old(self).spec_has(o),
            forall|o: Seq<char>|
                o != name@ && old(self).spec_has(o) ==> #[trigger] final(self).spec_value_of(o)
                    == old(self).spec_value_of(o),
            r is Ok,
    {
        self.remove_entry(name);
        Ok(())
    }

    /// Whether a credential is stored under `name`.
    pub fn has_credential(&self, name: &str) -> (r: bool)
        ensures
            r == self.spec_has(name@),
    {
        match self.find(name) {
            Some(_) => true,
            None => false,
        }
    }

    /// All stored credentials as name-value pairs, for the storage edge to
    /// serialize and seal.
    pub fn credential_pairs(&self) -> (r: Vec<(String, String)>)
        ensures
            r@.len() == self.spec_len(),
            forall|i: int|
                0 <= i < r@.len() ==> (#[trigger] r@[i]).0@ == self.spec_name_at(i) && r@[i].1@
                    == self.spec_value_at(i),
    {
        let mut r: Vec<(String, String)> = Vec::new();
        let n = self.entries.len();
        let mut k: usize = 0;
        while k < n
            invariant
                n == self.entries@.len(),
                k <= n,
                r@.len() == k,
                forall|i: int|
                    0 <= i < k ==> (#[trigger] r@[i]).0@ == self.spec_name_at(i) && r@[i].1@
                        == self.spec_value_at(i),
            decreases n - k,
        {
            r.push((self.entries[k].name.clone(), self.entries[k].value.clone()));
            k = k + 1;
        }
        r
    }

    pub closed spec fn spec_len(&self) -> nat {
        self.entries@.len()
    }

    pub closed spec fn spec_name_at(&self, i: int) -> Seq<char> {
        self.entries@[i].name@
    }

    pub closed spec fn spec_value_at(&self, i: int) -> Seq<char> {
        self.entries@[i].value@
    }

    /// Seal a serialized credential blob: a fresh 12-byte nonce followed by
    /// the ciphertext under this store's key.
    pub fn seal_credentials(&self, plain: &Vec<u8>) -> (r: Vec<u8>)
        requires
            self.wf(),
            plain@.len() < 0x10_0000_0000,
        ensures
            r@.len() >= 12,
            r@.skip(12) == aead_sealed(self.key_view(), r@.take(12), plain@),
            aead_opened(self.key_view(), r@.take(12), r@.skip(12)) == Some(plain@),
    {
        let nonce = generate_nonce();
        let mut sealed = aes256_gcm_seal(&self.encryption_key, &nonce, plain);
        let mut out = nonce;
        let ghost nonce_view = out@;
        let ghost sealed_view = sealed@;
        out.append(&mut sealed);
        proof {
            assert(out@.take(12) =~= nonce_view);
            assert(out@.skip(12) =~= sealed_view);
        }
        out
    }

    /// Open a sealed credential blob: split off the 12-byte nonce and
    /// decrypt the rest; fails when the tag does not check.
    pub fn open_credentials(&self, data: &Vec<u8>) -> (r: Result<Vec<u8>, SecureStorageError>)
        requires
            self.wf(),
            data@.len() >= 12,
        ensures
            match r {
                Ok(p) => aead_opened(self.key_view(), data@.take(12), data@.skip(12)) == Some(
                    p@,
                ),
                Err(e) => aead_opened(self.key_view(), data@.take(12), data@.skip(12))
                    is None && e is Encryption,
            },
    {
        let nonce = copy_range(data, 0, 12);
        let sealed = copy_range(data, 12, data.len());
        proof {
            assert(nonce@ =~= data@.take(12));
            assert(sealed@ =~= data@.skip(12));
        }
        match aes256_gcm_open(&self.encryption_key, &nonce, &sealed) {
            Some(p) => Ok(p),
            None => Err(SecureStorageError::Encryption("Decryption failed".to_owned())),
        }
    }
}

/// The bytes of `src` from `from` (inclusive) to `to` (exclusive).
fn copy_range(src: &Vec<u8>, from: usize, to: usize) -> (r: Vec<u8>)
    requires
        from <= to <= src.len(),
    ensures
        r@ == src@.subrange(from as int, to as int),
{
    let mut r: Vec<u8> = Vec::new();
    let mut k: usize = from;
    while k < to
        invariant
            from <= k <= to,
            to <= src@.len(),
            r@ =~= src@.subrange(from as int, k as int),
        decreases to - k,
    {
        r.push(src[k]);
        proof {
            assert(r@ =~= src@.subrange(from as int, k as int + 1));
        }
        k = k + 1;
    }
    r
}

} // verus!
