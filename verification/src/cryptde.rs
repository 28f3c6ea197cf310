//! Keys, plain and encrypted byte containers, and the null crypto engine.
//!
//! The engine implements the structural "null cipher" scheme that the
//! routing core is specified against: encrypting to a peer prepends that
//! peer's public key to the plaintext, and a node can decrypt exactly the
//! ciphertexts that carry its own key as a prefix.  The scheme keeps the
//! shape of an asymmetric codec (`public_key`, `encode`, `decode`,
//! fixed-length filler for garbage hops) while staying a pure function of
//! its inputs, so every property of the hop pipeline can be proved about
//! it.

use vstd::prelude::*;

use crate::bytes::bytes_eq;
use crate::bytes::copy_range;
use crate::bytes::copy_slice;
use crate::bytes::push_all;

verus! {

/// Opaque byte string identifying a peer's long-term public key.
/// Equality is byte-equality.
#[derive(Debug)]
pub struct Key {
    pub data: Vec<u8>,
}

impl View for Key {
    type V = Seq<u8>;

    open spec fn view(&self) -> Seq<u8> {
        self.data@
    }
}

impl Key {
    /// A key holding a copy of the given bytes.
    pub fn new(data: &[u8]) -> (r: Key)
        ensures
            r@ == data@,
    {
        Key { data: copy_slice(data) }
    }
}

impl Clone for Key {
    fn clone(&self) -> (r: Key)
        ensures
            r@ == self@,
    {
        Key { data: copy_slice(self.data.as_slice()) }
    }
}

impl PartialEq for Key {
    fn eq(&self, other: &Key) -> (r: bool) {
        bytes_eq(self.data.as_slice(), other.data.as_slice())
    }
}

impl Eq for Key {
}

impl vstd::std_specs::cmp::PartialEqSpecImpl for Key {
    open spec fn obeys_eq_spec() -> bool {
        true
    }

    open spec fn eq_spec(&self, other: &Key) -> bool {
        self@ == other@
    }
}

/// Cleartext bytes.
#[derive(Debug)]
pub struct PlainData {
    pub data: Vec<u8>,
}

impl View for PlainData {
    type V = Seq<u8>;

    open spec fn view(&self) -> Seq<u8> {
        self.data@
    }
}

impl PlainData {
    /// Cleartext holding a copy of the given bytes.
    pub fn new(data: &[u8]) -> (r: PlainData)
        ensures
            r@ == data@,
    {
        PlainData { data: copy_slice(data) }
    }
}

impl Clone for PlainData {
    fn clone(&self) -> (r: PlainData)
        ensures
            r@ == self@,
    {
        PlainData { data: copy_slice(self.data.as_slice()) }
    }
}

impl PartialEq for PlainData {
    fn eq(&self, other: &PlainData) -> (r: bool) {
        bytes_eq(self.data.as_slice(), other.data.as_slice())
    }
}

impl Eq for PlainData {
}

impl vstd::std_specs::cmp::PartialEqSpecImpl for PlainData {
    open spec fn obeys_eq_spec() -> bool {
        true
    }

    open spec fn eq_spec(&self, other: &PlainData) -> bool {
        self@ == other@
    }
}

/// Ciphertext bytes.
#[derive(Debug)]
pub struct CryptData {
    pub data: Vec<u8>,
}

impl View for CryptData {
    type V = Seq<u8>;

    open spec fn view(&self) -> Seq<u8> {
        self.data@
    }
}

impl CryptData {
    /// Ciphertext holding a copy of the given bytes.
    pub fn new(data: &[u8]) -> (r: CryptData)
        ensures
            r@ == data@,
    {
        CryptData { data: copy_slice(data) }
    }
}

impl Clone for CryptData {
    fn clone(&self) -> (r: CryptData)
        ensures
            r@ == self@,
    {
        CryptData { data: copy_slice(self.data.as_slice()) }
    }
}

impl PartialEq for CryptData {
    fn eq(&self, other: &CryptData) -> (r: bool) {
        bytes_eq(self.data.as_slice(), other.data.as_slice())
    }
}

impl Eq for CryptData {
}

impl vstd::std_specs::cmp::PartialEqSpecImpl for CryptData {
    open spec fn obeys_eq_spec() -> bool {
        true
    }

    open spec fn eq_spec(&self, other: &CryptData) -> bool {
        self@ == other@
    }
}

/// Why an encode or decode call failed.
#[derive(Clone, Copy, PartialEq, Eq, Structural, Debug)]
pub enum CryptdecError {
    EmptyKey,
    EmptyData,
    InvalidKey,
}

/// The ciphertext that encrypting `plain` to the owner of `key` produces.
pub open spec fn null_cipher(key: Seq<u8>, plain: Seq<u8>) -> Seq<u8> {
    key + plain
}

/// What decrypting `cipher` with the private counterpart of `key`
/// reveals: the remainder after the key prefix, if the prefix is there.
pub open spec fn null_decipher(key: Seq<u8>, cipher: Seq<u8>) -> Option<Seq<u8>> {
    if cipher.len() >= key.len() && cipher.subrange(0, key.len() as int) == key {
        Some(cipher.subrange(key.len() as int, cipher.len() as int))
    } else {
        None
    }
}

/// The outcome of a [`CryptDe::decode`] call on `cipher` by the engine
/// whose key is `key`: the plaintext, or `None` when the call fails.
pub open spec fn decipher(key: Seq<u8>, cipher: Seq<u8>) -> Option<Seq<u8>> {
    if cipher.len() == 0 {
        None
    } else {
        null_decipher(key, cipher)
    }
}

/// The deterministic filler used for garbage hops.
pub open spec fn garbage_bytes(len: nat) -> Seq<u8> {
    Seq::new(len, |i: int| 0u8)
}

/// Decrypting with the key a ciphertext was encrypted to recovers the
/// plaintext.
pub proof fn lemma_null_round_trip(key: Seq<u8>, plain: Seq<u8>)
    ensures
        null_decipher(key, null_cipher(key, plain)) == Some(plain),
{
    let cipher = null_cipher(key, plain);
    assert(cipher.subrange(0, key.len() as int) =~= key);
    assert(cipher.subrange(key.len() as int, cipher.len() as int) =~= plain);
}

/// The null crypto engine of one node, holding that node's key.  In the
/// null scheme the public and the private key coincide.
pub struct CryptDe {
    pub key: Key,
}

impl CryptDe {
    /// An engine for the node that owns `key`.
    pub fn from_key(key: &Key) -> (r: CryptDe)
        ensures
            r.key@ == key@,
    {
        CryptDe { key: key.clone() }
    }

    /// This node's public key.
    pub fn public_key(&self) -> (r: Key)
        ensures
            r@ == self.key@,
    {
        self.key.clone()
    }

    /// Encrypt `data` to the owner of `key`.  Succeeds exactly on a
    /// non-empty key and non-empty data.
    pub fn encode(&self, key: &Key, data: &PlainData) -> (r: Result<CryptData, CryptdecError>)
        ensures
            key@.len() == 0 ==> r == Err::<CryptData, CryptdecError>(CryptdecError::EmptyKey),
            key@.len() > 0 && data@.len() == 0 ==> r == Err::<CryptData, CryptdecError>(
                CryptdecError::EmptyData,
            ),
            key@.len() > 0 && data@.len() > 0 ==> (r matches Ok(c) && c@ == null_cipher(
                key@,
                data@,
            )),
    {
        if key.data.len() == 0 {
            Err(CryptdecError::EmptyKey)
        } else if data.data.len() == 0 {
            Err(CryptdecError::EmptyData)
        } else {
            let mut out: Vec<u8> = Vec::new();
            push_all(&mut out, key.data.as_slice());
            push_all(&mut out, data.data.as_slice());
            assert(out@ =~= key@ + data@);
            Ok(CryptData { data: out })
        }
    }

    /// Decrypt `data` with this node's key.  Succeeds exactly when the
    /// ciphertext is non-empty and carries this node's key as a prefix.
    pub fn decode(&self, data: &CryptData) -> (r: Result<PlainData, CryptdecError>)
        ensures
            data@.len() == 0 ==> r == Err::<PlainData, CryptdecError>(CryptdecError::EmptyData),
            data@.len() > 0 ==> match null_decipher(self.key@, data@) {
                Some(p) => r matches Ok(pd) && pd@ == p,
                None => r == Err::<PlainData, CryptdecError>(CryptdecError::InvalidKey),
            },
    {
        if data.data.len() == 0 {
            return Err(CryptdecError::EmptyData);
        }
        let klen = self.key.data.len();
        if data.data.len() < klen {
            return Err(CryptdecError::InvalidKey);
        }
        let mut i: usize = 0;
        while i < klen
            invariant
                i <= klen,
                klen == self.key@.len(),
                klen <= data@.len(),
                forall|j: int| 0 <= j < i ==> data@[j] == self.key@[j],
            decreases klen - i,
        {
            if data.data[i] != self.key.data[i] {
                assert(data@.subrange(0, klen as int)[i as int] != self.key@[i as int]);
                return Err(CryptdecError::InvalidKey);
            }
            i = i + 1;
        }
        assert(data@.subrange(0, klen as int) =~= self.key@);
        let plain = copy_range(data.data.as_slice(), klen, data.data.len());
        Ok(PlainData { data: plain })
    }

    /// Sign `data` with this node's key.  In the null scheme a signature
    /// is the data encrypted to the signer itself.
    pub fn sign(&self, data: &PlainData) -> (r: Result<CryptData, CryptdecError>)
        ensures
            self.key@.len() == 0 ==> r == Err::<CryptData, CryptdecError>(CryptdecError::EmptyKey),
            self.key@.len() > 0 && data@.len() == 0 ==> r == Err::<CryptData, CryptdecError>(
                CryptdecError::EmptyData,
            ),
            self.key@.len() > 0 && data@.len() > 0 ==> (r matches Ok(c) && c@ == null_cipher(
                self.key@,
                data@,
            )),
    {
        self.encode(&self.key, data)
    }

    /// Check a signature over `data` against the signer's public key.
    pub fn verify_signature(&self, data: &PlainData, signature: &CryptData, public_key: &Key) -> (r:
        bool)
        ensures
            r == (signature@ == null_cipher(public_key@, data@)),
    {
        let mut expected: Vec<u8> = Vec::new();
        push_all(&mut expected, public_key.data.as_slice());
        push_all(&mut expected, data.data.as_slice());
        let r = bytes_eq(expected.as_slice(), signature.data.as_slice());
        proof {
            assert(expected@ =~= null_cipher(public_key@, data@));
        }
        r
    }

    /// Fixed-length filler for a garbage hop.
    pub fn garbage(&self, len: usize) -> (r: CryptData)
        ensures
            r@ == garbage_bytes(len as nat),
    {
        let mut out: Vec<u8> = Vec::new();
        let mut i: usize = 0;
        while i < len
            invariant
                i <= len,
                out@ == garbage_bytes(i as nat),
            decreases len - i,
        {
            out.push(0u8);
            i = i + 1;
            assert(out@ =~= garbage_bytes(i as nat));
        }
        CryptData { data: out }
    }
}

} // verus!
