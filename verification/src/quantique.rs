//! Post-quantum key state: Kyber1024 for encapsulation, Dilithium5 for
//! signatures, SHA3-256 for integrity hashing of the held keys.

use vstd::prelude::*;
use vstd::string::StringSliceAdditionalSpecFns;
use vstd::utf8::encode_utf8;
use pqcrypto_kyber::kyber1024;
use pqcrypto_dilithium::dilithium5;
use pqcrypto_traits::kem::{
    Ciphertext as KemCt, PublicKey as KemPk, SecretKey as KemSk, SharedSecret as KemSs,
};
use pqcrypto_traits::sign::{
    DetachedSignature as SigDet, PublicKey as SigPk, SecretKey as SigSk,
};
use crate::hashing::{hex_chars_of, hex_encode, sha3_256, sha3_256_of};

verus! {

/// Kyber1024 public key size in bytes.
pub const KEM_PUBLIC_KEY_BYTES: usize = 1568;

/// Kyber1024 secret key size in bytes.
pub const KEM_SECRET_KEY_BYTES: usize = 3168;

/// Kyber1024 ciphertext size in bytes.
pub const KEM_CIPHERTEXT_BYTES: usize = 1568;

/// Kyber1024 shared secret size in bytes.
pub const SHARED_SECRET_BYTES: usize = 32;

/// Dilithium5 public key size in bytes.
pub const SIG_PUBLIC_KEY_BYTES: usize = 2592;

/// Dilithium5 secret key size in bytes.
pub const SIG_SECRET_KEY_BYTES: usize = 4896;

/// Largest Dilithium5 detached signature size in bytes.
pub const SIG_MAX_BYTES: usize = 4627;

/// What Kyber1024 decapsulation returns: a function of ciphertext and
/// secret key alone.
pub uninterp spec fn kyber1024_decap_of(ct: Seq<u8>, sk: Seq<u8>) -> Seq<u8>;

/// What Dilithium5 detached signing returns: a function of message and
/// secret key alone.
pub uninterp spec fn dilithium5_sig_of(msg: Seq<u8>, sk: Seq<u8>) -> Seq<u8>;

/// Whether Dilithium5 accepts a detached signature for a message under a
/// public key: a function of the three byte strings alone.
pub uninterp spec fn dilithium5_verify_ok(sig: Seq<u8>, msg: Seq<u8>, pk: Seq<u8>) -> bool;

/// Relies on `pqcrypto_kyber::kyber1024::keypair`: a freshly generated
/// keypair whose public key is 1568 bytes and secret key 3168 bytes.
#[verifier::external_body]
fn kyber_keypair() -> (r: (Vec<u8>, Vec<u8>))
    ensures
        r.0@.len() == KEM_PUBLIC_KEY_BYTES,
        r.1@.len() == KEM_SECRET_KEY_BYTES,
{
    let (pk, sk) = kyber1024::keypair();
    (pk.as_bytes().to_vec(), sk.as_bytes().to_vec())
}

/// Relies on `pqcrypto_dilithium::dilithium5::keypair`: a freshly generated
/// keypair whose public key is 2592 bytes and secret key 4896 bytes.
#[verifier::external_body]
fn dilithium_keypair() -> (r: (Vec<u8>, Vec<u8>))
    ensures
        r.0@.len() == SIG_PUBLIC_KEY_BYTES,
        r.1@.len() == SIG_SECRET_KEY_BYTES,
{
    let (pk, sk) = dilithium5::keypair();
    (pk.as_bytes().to_vec(), sk.as_bytes().to_vec())
}

/// Relies on `kyber1024::PublicKey::from_bytes` (accepts exactly 1568
/// bytes) and `kyber1024::encapsulate`: a fresh 32-byte shared secret and a
/// 1568-byte ciphertext for it.
#[verifier::external_body]
fn kyber_encapsulate(peer_pk: &[u8]) -> (r: Option<(Vec<u8>, Vec<u8>)>)
    ensures
        r is Some <==> peer_pk@.len() == KEM_PUBLIC_KEY_BYTES,
        r matches Some(p) ==> p.0@.len() == SHARED_SECRET_BYTES && p.1@.len()
            == KEM_CIPHERTEXT_BYTES,
{
    match kyber1024::PublicKey::from_bytes(peer_pk) {
        Ok(pk) => {
            let (ss, ct) = kyber1024::encapsulate(&pk);
            Some((ss.as_bytes().to_vec(), ct.as_bytes().to_vec()))
        },
        Err(_) => None,
    }
}

/// Relies on `kyber1024::Ciphertext::from_bytes` and
/// `kyber1024::SecretKey::from_bytes` (each accepts exactly its size) and
/// `kyber1024::decapsulate`: a 32-byte secret depending on ciphertext and
/// secret key alone.
#[verifier::external_body]
fn kyber_decapsulate(ct: &[u8], sk: &[u8]) -> (r: Vec<u8>)
    requires
        ct@.len() == KEM_CIPHERTEXT_BYTES,
        sk@.len() == KEM_SECRET_KEY_BYTES,
    ensures
        r@ == kyber1024_decap_of(ct@, sk@),
        r@.len() == SHARED_SECRET_BYTES,
{
    let ct = kyber1024::Ciphertext::from_bytes(ct).unwrap();
    let sk = kyber1024::SecretKey::from_bytes(sk).unwrap();
    kyber1024::decapsulate(&ct, &sk).as_bytes().to_vec()
}

/// Relies on `dilithium5::SecretKey::from_bytes` (accepts exactly 4896
/// bytes) and `dilithium5::detached_sign`: a signature of at most 4627
/// bytes depending on message and secret key alone.
#[verifier::external_body]
fn dilithium_sign(msg: &[u8], sk: &[u8]) -> (r: Vec<u8>)
    requires
        sk@.len() == SIG_SECRET_KEY_BYTES,
    ensures
        r@ == dilithium5_sig_of(msg@, sk@),
        r@.len() <= SIG_MAX_BYTES,
{
    let sk = dilithium5::SecretKey::from_bytes(sk).unwrap();
    dilithium5::detached_sign(msg, &sk).as_bytes().to_vec()
}

/// Relies on `dilithium5::PublicKey::from_bytes` (accepts exactly 2592
/// bytes), `dilithium5::DetachedSignature::from_bytes` (accepts at most
/// 4627 bytes) and `dilithium5::verify_detached_signature`: acceptance is a
/// function of signature, message and public key alone.
#[verifier::external_body]
fn dilithium_verify(msg: &[u8], sig: &[u8], pk: &[u8]) -> (r: bool)
    ensures
        r == (pk@.len() == SIG_PUBLIC_KEY_BYTES && sig@.len() <= SIG_MAX_BYTES
            && dilithium5_verify_ok(sig@, msg@, pk@)),
{
    let pk = match dilithium5::PublicKey::from_bytes(pk) {
        Ok(p) => p,
        Err(_) => {
            return false;
        },
    };
    let sig = match dilithium5::DetachedSignature::from_bytes(sig) {
        Ok(s) => s,
        Err(_) => {
            return false;
        },
    };
    dilithium5::verify_detached_signature(&sig, msg, &pk).is_ok()
}

/// SHA3-256 digest.
pub fn hash(data: &[u8]) -> (r: Vec<u8>)
    ensures
        r@ == sha3_256_of(data@),
        r@.len() == 32,
{
    sha3_256(data)
}

/// Lowercase hex rendering of the SHA3-256 digest.
pub fn hash_hex(data: &[u8]) -> (r: String)
    ensures
        r@ == hex_chars_of(sha3_256_of(data@)),
{
    let h = hash(data);
    hex_encode(h.as_slice())
}

/// The models of the shared-secret table: each entry as its name's
/// characters and its secret's bytes.
pub open spec fn shared_view(s: Seq<(String, Vec<u8>)>) -> Seq<(Seq<char>, Seq<u8>)> {
    s.map_values(|e: (String, Vec<u8>)| (e.0@, e.1@))
}

/// Index of the first shared entry with the given name, or -1.
pub open spec fn shared_find(m: Seq<(Seq<char>, Seq<u8>)>, name: Seq<char>) -> int
    decreases m.len(),
{
    if m.len() == 0 {
        -1
    } else if m[0].0 == name {
        0
    } else {
        let i = shared_find(m.drop_first(), name);
        if i == -1 {
            -1
        } else {
            i + 1
        }
    }
}

pub proof fn lemma_shared_find(m: Seq<(Seq<char>, Seq<u8>)>, name: Seq<char>)
    ensures
        -1 <= shared_find(m, name) < m.len(),
        shared_find(m, name) >= 0 ==> m[shared_find(m, name)].0 == name,
        shared_find(m, name) == -1 <==> (forall|i: int| 0 <= i < m.len() ==> m[i].0 != name),
        forall|j: int| 0 <= j < shared_find(m, name) ==> m[j].0 != name,
    decreases m.len(),
{
    if m.len() == 0 {
    } else if m[0].0 == name {
    } else {
        lemma_shared_find(m.drop_first(), name);
        assert(forall|j: int| 0 < j < m.len() ==> m[j] == m.drop_first()[j - 1]);
        if shared_find(m, name) == -1 {
            assert forall|i: int| 0 <= i < m.len() implies m[i].0 != name by {
                if i > 0 {
                    assert(m.drop_first()[i - 1] == m[i]);
                }
            }
        }
    }
}

/// If `i` is the first index carrying `name`, it is what `shared_find`
/// returns.
pub proof fn lemma_shared_find_first(m: Seq<(Seq<char>, Seq<u8>)>, name: Seq<char>, i: int)
    requires
        0 <= i < m.len(),
        m[i].0 == name,
        forall|j: int| 0 <= j < i ==> m[j].0 != name,
    ensures
        shared_find(m, name) == i,
    decreases m.len(),
{
    if i == 0 {
    } else {
        assert(forall|j: int| 0 <= j < m.len() - 1 ==> m.drop_first()[j] == m[j + 1]);
        lemma_shared_find_first(m.drop_first(), name, i - 1);
    }
}

/// The bytes the integrity hash covers for the shared-secret table: each
/// entry's name in UTF-8 followed by its secret, in table order.
pub open spec fn shared_bytes(m: Seq<(Seq<char>, Seq<u8>)>) -> Seq<u8>
    decreases m.len(),
{
    if m.len() == 0 {
        Seq::empty()
    } else {
        encode_utf8(m[0].0) + m[0].1 + shared_bytes(m.drop_first())
    }
}

pub proof fn lemma_shared_bytes_push(m: Seq<(Seq<char>, Seq<u8>)>, e: (Seq<char>, Seq<u8>))
    ensures
        shared_bytes(m.push(e)) =~= shared_bytes(m) + encode_utf8(e.0) + e.1,
    decreases m.len(),
{
    if m.len() == 0 {
        assert(m.push(e).drop_first() =~= Seq::<(Seq<char>, Seq<u8>)>::empty());
        assert(m.push(e)[0] == e);
        assert(shared_bytes(m.push(e)) == encode_utf8(e.0) + e.1 + shared_bytes(
            m.push(e).drop_first(),
        ));
        assert(shared_bytes(m.push(e).drop_first()) =~= Seq::<u8>::empty());
        assert(shared_bytes(m) =~= Seq::<u8>::empty());
        assert(shared_bytes(m.push(e)) =~= shared_bytes(m) + encode_utf8(e.0) + e.1);
    } else {
        assert(m.push(e)[0] == m[0]);
        assert(m.push(e).drop_first() =~= m.drop_first().push(e));
        lemma_shared_bytes_push(m.drop_first(), e);
        assert(shared_bytes(m.push(e)) == encode_utf8(m[0].0) + m[0].1 + shared_bytes(
            m.drop_first().push(e),
        ));
        assert(shared_bytes(m) == encode_utf8(m[0].0) + m[0].1 + shared_bytes(m.drop_first()));
        assert(shared_bytes(m.push(e)) =~= shared_bytes(m) + encode_utf8(e.0) + e.1);
    }
}

/// The bytes of an optionally held key.
pub open spec fn opt_bytes(o: Option<Vec<u8>>) -> Seq<u8> {
    match o {
        Some(v) => v@,
        None => Seq::empty(),
    }
}

/// Per-organ key state: Kyber keys for encapsulation, Dilithium keys for
/// signatures, shared secrets per peer organ, and a hash of the public
/// state for integrity checking.
pub struct OrganKeys {
    pub kem_pk: Option<Vec<u8>>,
    pub kem_sk: Option<Vec<u8>>,
    pub sig_pk: Option<Vec<u8>>,
    pub sig_sk: Option<Vec<u8>>,
    pub shared: Vec<(String, Vec<u8>)>,
    pub state_hash: Vec<u8>,
}

/// The bytes the integrity hash covers: the held public keys, then the
/// shared-secret table.
pub open spec fn state_bytes(k: OrganKeys) -> Seq<u8> {
    opt_bytes(k.kem_pk) + opt_bytes(k.sig_pk) + shared_bytes(shared_view(k.shared@))
}

impl OrganKeys {
    /// Key-state invariant: every held key has its algorithm's exact size,
    /// and shared-secret names are unique.
    pub open spec fn wf(self) -> bool {
        &&& self.kem_pk matches Some(v) ==> v@.len() == KEM_PUBLIC_KEY_BYTES
        &&& self.kem_sk matches Some(v) ==> v@.len() == KEM_SECRET_KEY_BYTES
        &&& self.sig_pk matches Some(v) ==> v@.len() == SIG_PUBLIC_KEY_BYTES
        &&& self.sig_sk matches Some(v) ==> v@.len() == SIG_SECRET_KEY_BYTES
        &&& forall|i: int, j: int|
            0 <= i < j < self.shared@.len() ==> shared_view(self.shared@)[i].0 != shared_view(
                self.shared@,
            )[j].0
    }

    /// Empty key state: nothing generated, nothing shared, empty hash.
    pub fn new() -> (r: OrganKeys)
        ensures
            r.wf(),
            r.kem_pk is None && r.kem_sk is None && r.sig_pk is None && r.sig_sk is None,
            r.shared@.len() == 0,
            r.state_hash@.len() == 0,
    {
        OrganKeys {
            kem_pk: None,
            kem_sk: None,
            sig_pk: None,
            sig_sk: None,
            shared: Vec::new(),
            state_hash: Vec::new(),
        }
    }
}

/// Recomputes the integrity hash over the current key state.
fn hash_state(keys: &OrganKeys) -> (r: Vec<u8>)
    ensures
        r@ == sha3_256_of(state_bytes(*keys)),
        r@.len() == 32,
{
    let mut buf: Vec<u8> = Vec::new();
    match &keys.kem_pk {
        Some(pk) => {
            buf.extend_from_slice(pk.as_slice());
        },
        None => {},
    }
    match &keys.sig_pk {
        Some(pk) => {
            buf.extend_from_slice(pk.as_slice());
        },
        None => {},
    }
    assert(buf@ =~= opt_bytes(keys.kem_pk) + opt_bytes(keys.sig_pk));
    let ghost head = buf@;
    let ghost m = shared_view(keys.shared@);
    let n = keys.shared.len();
    let mut i: usize = 0;
    proof {
        assert(m.take(0) =~= Seq::<(Seq<char>, Seq<u8>)>::empty());
        assert(buf@ =~= head + shared_bytes(m.take(0)));
    }
    while i < n
        invariant
            n == keys.shared@.len(),
            i <= n,
            m == shared_view(keys.shared@),
            buf@ == head + shared_bytes(m.take(i as int)),
        decreases n - i,
    {
        let entry = &keys.shared[i];
        let name_bytes = entry.0.as_str().as_bytes();
        buf.extend_from_slice(name_bytes);
        buf.extend_from_slice(entry.1.as_slice());
        proof {
            assert(m[i as int] == (keys.shared@[i as int].0@, keys.shared@[i as int].1@));
            assert(name_bytes@ == encode_utf8(m[i as int].0));
            assert(m.take(i + 1) =~= m.take(i as int).push(m[i as int]));
            lemma_shared_bytes_push(m.take(i as int), m[i as int]);
            assert(buf@ =~= head + shared_bytes(m.take(i + 1)));
        }
        i = i + 1;
    }
    proof {
        assert(m.take(n as int) =~= m);
    }
    sha3_256(buf.as_slice())
}

/// Generates fresh Kyber and Dilithium keypairs, stores them, refreshes the
/// integrity hash, and returns (kem public, kem secret, sig public, sig
/// secret).
pub fn keygen(keys: &mut OrganKeys) -> (r: (Vec<u8>, Vec<u8>, Vec<u8>, Vec<u8>))
    requires
        old(keys).wf(),
    ensures
        final(keys).wf(),
        r.0@.len() == KEM_PUBLIC_KEY_BYTES,
        r.1@.len() == KEM_SECRET_KEY_BYTES,
        r.2@.len() == SIG_PUBLIC_KEY_BYTES,
        r.3@.len() == SIG_SECRET_KEY_BYTES,
        final(keys).kem_pk matches Some(v) && v@ == r.0@,
        final(keys).kem_sk matches Some(v) && v@ == r.1@,
        final(keys).sig_pk matches Some(v) && v@ == r.2@,
        final(keys).sig_sk matches Some(v) && v@ == r.3@,
        final(keys).shared@ == old(keys).shared@,
        final(keys).state_hash@ == sha3_256_of(state_bytes(*final(keys))),
{
    let (kem_pk, kem_sk) = kyber_keypair();
    let (sig_pk, sig_sk) = dilithium_keypair();
    keys.kem_pk = Some(clone_bytes(&kem_pk));
    keys.kem_sk = Some(clone_bytes(&kem_sk));
    keys.sig_pk = Some(clone_bytes(&sig_pk));
    keys.sig_sk = Some(clone_bytes(&sig_sk));
    let h = hash_state(keys);
    keys.state_hash = h;
    (kem_pk, kem_sk, sig_pk, sig_sk)
}

/// A byte-for-byte copy.
fn clone_bytes(v: &Vec<u8>) -> (r: Vec<u8>)
    ensures
        r@ == v@,
{
    let mut r: Vec<u8> = Vec::new();
    r.extend_from_slice(v.as_slice());
    assert(r@ =~= v@);
    r
}

/// Whether the stored integrity hash still matches the hash of the current
/// key state.
pub fn verify_integrity(keys: &OrganKeys) -> (r: bool)
    ensures
        r == (sha3_256_of(state_bytes(*keys)) == keys.state_hash@),
{
    let current = hash_state(keys);
    eq_bytes(current.as_slice(), keys.state_hash.as_slice())
}

/// Byte-sequence equality.
fn eq_bytes(a: &[u8], b: &[u8]) -> (r: bool)
    ensures
        r == (a@ == b@),
{
    if a.len() != b.len() {
        return false;
    }
    let n = a.len();
    let mut i: usize = 0;
    while i < n
        invariant
            n == a@.len(),
            a@.len() == b@.len(),
            i <= n,
            forall|j: int| 0 <= j < i ==> a@[j] == b@[j],
        decreases n - i,
    {
        if a[i] != b[i] {
            return false;
        }
        i = i + 1;
    }
    proof {
        assert(a@ =~= b@);
    }
    true
}

/// Encapsulates a fresh shared secret for a peer's Kyber public key,
/// returning (shared secret, ciphertext). Fails exactly when the key has
/// the wrong size.
pub fn encapsulate(peer_pk: &[u8]) -> (r: Result<(Vec<u8>, Vec<u8>), &'static str>)
    ensures
        r is Ok <==> peer_pk@.len() == KEM_PUBLIC_KEY_BYTES,
        r matches Ok(p) ==> p.0@.len() == SHARED_SECRET_BYTES && p.1@.len()
            == KEM_CIPHERTEXT_BYTES,
        r matches Err(e) ==> e@ == "invalid public key"@,
{
    match kyber_encapsulate(peer_pk) {
        Some(p) => Ok(p),
        None => Err("invalid public key"),
    }
}

/// Decapsulates a received ciphertext with the held Kyber secret key.
/// Fails exactly when no secret key is held or the ciphertext has the
/// wrong size.
pub fn decapsulate(keys: &OrganKeys, ciphertext: &[u8]) -> (r: Result<Vec<u8>, &'static str>)
    requires
        keys.wf(),
    ensures
        r is Ok <==> (keys.kem_sk is Some && ciphertext@.len() == KEM_CIPHERTEXT_BYTES),
        r matches Ok(ss) ==> ss@ == kyber1024_decap_of(ciphertext@, opt_bytes(keys.kem_sk))
            && ss@.len() == SHARED_SECRET_BYTES,
        keys.kem_sk is None ==> (r matches Err(e) && e@ == "no secret key"@),
        keys.kem_sk is Some && ciphertext@.len() != KEM_CIPHERTEXT_BYTES ==> (r matches Err(e)
            && e@ == "invalid ciphertext"@),
{
    match &keys.kem_sk {
        None => Err("no secret key"),
        Some(sk) => {
            if ciphertext.len() != KEM_CIPHERTEXT_BYTES {
                Err("invalid ciphertext")
            } else {
                Ok(kyber_decapsulate(ciphertext, sk.as_slice()))
            }
        },
    }
}

/// Signs a message with the held Dilithium secret key. Fails exactly when
/// no signing key is held.
pub fn sign(keys: &OrganKeys, message: &[u8]) -> (r: Result<Vec<u8>, &'static str>)
    requires
        keys.wf(),
    ensures
        r is Ok <==> keys.sig_sk is Some,
        r matches Ok(sig) ==> sig@ == dilithium5_sig_of(message@, opt_bytes(keys.sig_sk))
            && sig@.len() <= SIG_MAX_BYTES,
        r matches Err(e) ==> e@ == "no signing key"@,
{
    match &keys.sig_sk {
        None => Err("no signing key"),
        Some(sk) => Ok(dilithium_sign(message, sk.as_slice())),
    }
}

/// Verifies a detached signature over a message against a peer's Dilithium
/// public key. False when either byte string has an impossible size or the
/// signature does not check out.
pub fn verify(message: &[u8], signature: &[u8], peer_pk: &[u8]) -> (r: bool)
    ensures
        r == (peer_pk@.len() == SIG_PUBLIC_KEY_BYTES && signature@.len() <= SIG_MAX_BYTES
            && dilithium5_verify_ok(signature@, message@, peer_pk@)),
{
    dilithium_verify(message, signature, peer_pk)
}

/// Finds the index of a shared entry by organ name.
fn shared_index(shared: &Vec<(String, Vec<u8>)>, organ: &str) -> (r: Option<usize>)
    ensures
        match r {
            Some(i) => i == shared_find(shared_view(shared@), organ@) && i < shared@.len(),
            None => shared_find(shared_view(shared@), organ@) == -1,
        },
{
    let ghost m = shared_view(shared@);
    let needle: String = organ.to_owned();
    let n = shared.len();
    let mut i: usize = 0;
    while i < n
        invariant
            m == shared_view(shared@),
            n == shared@.len(),
            i <= n,
            needle@ == organ@,
            forall|j: int| 0 <= j < i ==> m[j].0 != organ@,
        decreases n - i,
    {
        proof {
            assert(m[i as int] == (shared@[i as int].0@, shared@[i as int].1@));
        }
        if shared[i].0 == needle {
            proof {
                lemma_shared_find_first(m, organ@, i as int);
            }
            return Some(i);
        }
        i = i + 1;
    }
    proof {
        lemma_shared_find(m, organ@);
    }
    None
}

/// Establishes a shared secret with a peer organ: encapsulates against the
/// peer's Kyber public key, stores the secret under the organ's name
/// (replacing any previous one), and refreshes the integrity hash. Fails
/// exactly when the peer key has the wrong size.
pub fn establish_shared(keys: &mut OrganKeys, organ: &str, peer_pk: &[u8]) -> (r: Result<
    Vec<u8>,
    &'static str,
>)
    requires
        old(keys).wf(),
    ensures
        final(keys).wf(),
        r is Ok <==> peer_pk@.len() == KEM_PUBLIC_KEY_BYTES,
        r matches Err(e) ==> e@ == "invalid public key"@ && *final(keys) == *old(keys),
        r matches Ok(ss) ==> ({
            let m0 = shared_view(old(keys).shared@);
            let m1 = shared_view(final(keys).shared@);
            let i = shared_find(m0, organ@);
            &&& ss@.len() == SHARED_SECRET_BYTES
            &&& final(keys).kem_pk == old(keys).kem_pk
            &&& final(keys).kem_sk == old(keys).kem_sk
            &&& final(keys).sig_pk == old(keys).sig_pk
            &&& final(keys).sig_sk == old(keys).sig_sk
            &&& (if i >= 0 {
                m1 == m0.update(i, (organ@, ss@))
            } else {
                m1 == m0.push((organ@, ss@))
            })
            &&& final(keys).state_hash@ == sha3_256_of(state_bytes(*final(keys)))
        }),
{
    let enc = encapsulate(peer_pk);
    match enc {
        Err(e) => Err(e),
        Ok((ss, _ct)) => {
            let ghost m0 = shared_view(keys.shared@);
            let found = shared_index(&keys.shared, organ);
            match found {
                Some(i) => {
                    keys.shared[i] = (organ.to_owned(), clone_bytes(&ss));
                    assert(shared_view(keys.shared@) =~= m0.update(i as int, (organ@, ss@)));
                },
                None => {
                    keys.shared.push((organ.to_owned(), clone_bytes(&ss)));
                    assert(shared_view(keys.shared@) =~= m0.push((organ@, ss@)));
                },
            }
            proof {
                lemma_shared_find(m0, organ@);
            }
            let h = hash_state(keys);
            keys.state_hash = h;
            Ok(ss)
        },
    }
}

/// The shared secret previously established with a peer organ, if any.
pub fn get_shared(keys: &OrganKeys, organ: &str) -> (r: Option<Vec<u8>>)
    ensures
        match r {
            Some(v) => ({
                let m = shared_view(keys.shared@);
                let i = shared_find(m, organ@);
                i >= 0 && v@ == m[i].1
            }),
            None => shared_find(shared_view(keys.shared@), organ@) == -1,
        },
{
    match shared_index(&keys.shared, organ) {
        Some(i) => {
            let v = clone_bytes(&keys.shared[i].1);
            proof {
                assert(shared_view(keys.shared@)[i as int] == (
                    keys.shared@[i as int].0@,
                    keys.shared@[i as int].1@,
                ));
            }
            Some(v)
        },
        None => None,
    }
}

/// The held public keys, (kem, sig), for exchange with peers. Fails
/// exactly when one of them has not been generated, naming the missing
/// one (kem checked first).
pub fn get_public_keys(keys: &OrganKeys) -> (r: Result<(Vec<u8>, Vec<u8>), &'static str>)
    ensures
        r is Ok <==> (keys.kem_pk is Some && keys.sig_pk is Some),
        r matches Ok(p) ==> p.0@ == opt_bytes(keys.kem_pk) && p.1@ == opt_bytes(keys.sig_pk),
        keys.kem_pk is None ==> (r matches Err(e) && e@ == "no kem key"@),
        keys.kem_pk is Some && keys.sig_pk is None ==> (r matches Err(e) && e@
            == "no sig key"@),
{
    match &keys.kem_pk {
        None => Err("no kem key"),
        Some(kem) => {
            match &keys.sig_pk {
                None => Err("no sig key"),
                Some(sig) => Ok((clone_bytes(kem), clone_bytes(sig))),
            }
        },
    }
}

} // verus!
