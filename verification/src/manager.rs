//! The auth session manager: encrypted persistence of session records in
//! a key-value document, salt management, and the orchestration of the
//! login flow (create, callback, retrieve, clear).
//!
//! The document lives in memory here; the surrounding program loads it
//! from durable storage before constructing the manager and flushes it
//! after every mutating call.
use vstd::prelude::*;

use vstd::hash_map::StringHashMap;
use vstd::string::{StrSliceExecFns, StringExecFns};
use vstd::utf8::encode_utf8;

use crate::codec::{
    decode_session, encode_session, session_enc_ok, spec_decode_session, spec_enc_session,
};
use crate::crypto::{
    all_unreserved, argon2_derive, argon2_key_of, b64std_decode, b64std_decode_of, b64std_encode,
    challenge_of, constant_time_eq, generate_pkce_challenge, generate_secure_random_string,
    lemma_unseal_seal, new_session_id, random_bytes, seal, spec_seal, spec_unseal, unseal,
};
use crate::deeplink::{lookup_query, parse_url_parts, query_get, url_parse_of};
use crate::session::{
    session_live, session_wf, AuthSession, AuthSessionView, AuthToken, DeviceInfo,
};
use crate::AuthError;

verus! {

// ---------------------------------------------------------------------
// Document keys and the passphrase scheme
// ---------------------------------------------------------------------
/// The document key under which the process-wide salt is persisted.
pub open spec fn salt_key() -> Seq<char> {
    "key_derivation_salt"@
}

/// The namespaced document key for a session id.
pub open spec fn session_key_of(id: Seq<char>) -> Seq<char> {
    "session_"@ + id
}

/// The passphrase a device/flow pair reconstructs on redirect.
pub open spec fn passphrase_of(device_id: Seq<char>, state: Seq<char>) -> Seq<char> {
    device_id + "-"@ + state
}

fn salt_key_exec() -> (r: String)
    ensures
        r@ == salt_key(),
{
    String::from_str("key_derivation_salt")
}

/// The document key a session id is stored under, for callers that
/// persist the document.
pub fn session_doc_key(id: &str) -> (r: String)
    ensures
        r@ == session_key_of(id@),
{
    let mut s = String::from_str("session_");
    s.append(id);
    s
}

/// Build the passphrase for a device id and a session state.
pub fn make_passphrase(device_id: &str, state: &str) -> (r: String)
    ensures
        r@ == passphrase_of(device_id@, state@),
{
    let mut s = String::from_str(device_id);
    s.append("-");
    s.append(state);
    s
}

// ---------------------------------------------------------------------
// What a stored blob means
// ---------------------------------------------------------------------
/// Base64 text of a salt that decodes and lies within argon2's
/// documented length bounds.
pub open spec fn salt_text_ok(s: Seq<char>) -> bool {
    match b64std_decode_of(s) {
        Option::Some(sb) => 8 <= sb.len() <= 0xFFFF_FFFF,
        Option::None => false,
    }
}

/// A stored blob opens to exactly the session record `v` under `key`:
/// its base64 decodes, its tag verifies, and the plaintext deserializes
/// to `v`.
pub open spec fn blob_opens_to_session(key: Seq<u8>, blob: Seq<char>, v: AuthSessionView) -> bool {
    match b64std_decode_of(blob) {
        Option::Some(raw) => match spec_unseal(key, raw) {
            Option::Some(m) => spec_decode_session(m) == Option::Some(v),
            Option::None => false,
        },
        Option::None => false,
    }
}

/// A stored blob fails in a non-cryptographic stage under `key`: its
/// base64 does not decode, or it authenticates but its plaintext does
/// not deserialize to a session record.
pub open spec fn blob_storage_failure(key: Seq<u8>, blob: Seq<char>) -> bool {
    match b64std_decode_of(blob) {
        Option::None => true,
        Option::Some(raw) => match spec_unseal(key, raw) {
            Option::Some(m) => spec_decode_session(m) is None,
            Option::None => false,
        },
    }
}

/// A blob that fails a non-cryptographic stage under a key opens to no
/// record under that key.
pub proof fn lemma_storage_failure_excludes_open(key: Seq<u8>, blob: Seq<char>)
    requires
        blob_storage_failure(key, blob),
    ensures
        forall|v: AuthSessionView| !#[trigger] blob_opens_to_session(key, blob, v),
{
}

/// A stored blob opens to at most one session record under a given key.
pub proof fn lemma_blob_opens_unique(
    key: Seq<u8>,
    blob: Seq<char>,
    v1: AuthSessionView,
    v2: AuthSessionView,
)
    requires
        blob_opens_to_session(key, blob, v1),
        blob_opens_to_session(key, blob, v2),
    ensures
        v1 == v2,
{
}

/// Round trip of the storage pipeline below base64: sealing the
/// canonical encoding of a record and opening it again yields the
/// record, whatever key and nonce were used.
pub proof fn lemma_seal_decode_round_trip(key: Seq<u8>, nonce: Seq<u8>, v: AuthSessionView)
    requires
        nonce.len() == 16,
        session_enc_ok(v),
    ensures
        match spec_unseal(key, spec_seal(key, nonce, spec_enc_session(v))) {
            Option::Some(m) => spec_decode_session(m) == Option::Some(v),
            Option::None => false,
        },
{
    lemma_unseal_seal(key, nonce, spec_enc_session(v));
    crate::codec::lemma_session_codec_round_trip(v);
}

/// The value the last entry with a given key carries in a list of
/// loaded document entries.
pub open spec fn last_value_for(entries: Seq<(String, String)>, k: Seq<char>) -> Option<Seq<char>>
    decreases entries.len(),
{
    if entries.len() == 0 {
        Option::None
    } else if entries.last().0@ == k {
        Option::Some(entries.last().1@)
    } else {
        last_value_for(entries.drop_last(), k)
    }
}

// ---------------------------------------------------------------------
// The manager
// ---------------------------------------------------------------------
/// Owns the in-memory document, the process-wide salt, and the index
/// from anti-CSRF state to the session it belongs to.
pub struct AuthManager {
    doc: StringHashMap<String>,
    key_derivation_salt: String,
    state_index: StringHashMap<(String, String)>,
}

impl AuthManager {
    /// The persisted key-value document.
    pub closed spec fn doc_map(self) -> Map<Seq<char>, String> {
        self.doc@
    }

    /// The in-memory index from state to (session id, device id).
    pub closed spec fn index_map(self) -> Map<Seq<char>, (String, String)> {
        self.state_index@
    }

    /// The process-wide key-derivation salt, as stored (base64 text).
    pub closed spec fn salt_str(self) -> Seq<char> {
        self.key_derivation_salt@
    }

    /// The salt decodes and lies within argon2's documented bounds.
    pub open spec fn salt_ok(self) -> bool {
        salt_text_ok(self.salt_str())
    }

    /// The encryption key a passphrase derives under this manager's salt.
    pub open spec fn key_for(self, pass: Seq<char>) -> Seq<u8> {
        argon2_key_of(
            encode_utf8(pass),
            match b64std_decode_of(self.salt_str()) {
                Option::Some(sb) => sb,
                Option::None => Seq::empty(),
            },
        )
    }

    /// Read the salt entry of the document, or generate, persist and
    /// return a fresh one.  Idempotent once a salt exists: a later call
    /// returns the same salt and leaves the document unchanged.
    fn get_or_create_salt(doc: &mut StringHashMap<String>) -> (r: Result<String, AuthError>)
        ensures
            match r {
                Ok(s) => {
                    &&& final(doc)@.contains_key(salt_key())
                    &&& final(doc)@[salt_key()]@ == s@
                    &&& (old(doc)@.contains_key(salt_key()) ==> s@ == old(doc)@[salt_key()]@
                        && final(doc)@ == old(doc)@)
                    &&& (!old(doc)@.contains_key(salt_key()) ==> salt_text_ok(s@) && final(doc)@
                        == old(doc)@.insert(salt_key(), final(doc)@[salt_key()]))
                },
                Err(e) => e is CryptoError && final(doc)@ == old(doc)@,
            },
            old(doc)@.contains_key(salt_key()) ==> r is Ok,
    {
        let skey = salt_key_exec();
        match doc.get(skey.as_str()) {
            Option::Some(s) => {
                let c = s.clone();
                Ok(c)
            },
            Option::None => {
                let raw = match random_bytes(16) {
                    Ok(b) => b,
                    Err(m) => {
                        return Err(AuthError::CryptoError(m));
                    },
                };
                let salt = b64std_encode(raw.as_slice());
                let salt2 = salt.clone();
                doc.insert(skey, salt2);
                Ok(salt)
            },
        }
    }

    /// Load a manager from the entries of the persisted document,
    /// creating and persisting a salt when none is stored yet.  Fails
    /// only on entropy-source failure while generating that salt.
    pub fn new(entries: Vec<(String, String)>) -> (r: Result<AuthManager, AuthError>)
        ensures
            match r {
                Ok(m) => {
                    &&& (match last_value_for(entries@, salt_key()) {
                        Option::Some(s) => m.salt_str() == s,
                        Option::None => m.salt_ok(),
                    })
                    &&& m.doc_map().contains_key(salt_key())
                    &&& m.doc_map()[salt_key()]@ == m.salt_str()
                    &&& forall|k: Seq<char>|
                        k != salt_key() ==> (#[trigger] m.doc_map().contains_key(k)
                            <==> last_value_for(entries@, k) is Some)
                    &&& forall|k: Seq<char>|
                        k != salt_key() && m.doc_map().contains_key(k) ==> Option::Some(
                            #[trigger] m.doc_map()[k]@,
                        ) == last_value_for(entries@, k)
                    &&& m.index_map() == Map::<Seq<char>, (String, String)>::empty()
                },
                Err(e) => e is CryptoError,
            },
            last_value_for(entries@, salt_key()) is Some ==> r is Ok,
    {
        let mut doc = StringHashMap::<String>::new();
        let mut i: usize = 0;
        while i < entries.len()
            invariant
                i <= entries@.len(),
                forall|k: Seq<char>|
                    #[trigger] doc@.contains_key(k) <==> last_value_for(
                        entries@.take(i as int),
                        k,
                    ) is Some,
                forall|k: Seq<char>|
                    doc@.contains_key(k) ==> Option::Some(#[trigger] doc@[k]@) == last_value_for(
                        entries@.take(i as int),
                        k,
                    ),
            decreases entries@.len() - i,
        {
            let kx = entries[i].0.clone();
            let vx = entries[i].1.clone();
            proof {
                assert(entries@.take(i as int + 1).drop_last() =~= entries@.take(i as int));
                assert(entries@.take(i as int + 1).last() == entries@[i as int]);
            }
            doc.insert(kx, vx);
            i = i + 1;
        }
        proof {
            assert(entries@.take(entries@.len() as int) =~= entries@);
            if last_value_for(entries@, salt_key()) is Some {
                assert(doc@.contains_key(salt_key()));
            }
        }
        let salt = match Self::get_or_create_salt(&mut doc) {
            Ok(s) => s,
            Err(e) => {
                return Err(e);
            },
        };
        Ok(
            AuthManager {
                doc,
                key_derivation_salt: salt,
                state_index: StringHashMap::<(String, String)>::new(),
            },
        )
    }

    /// Derive the 32-byte encryption key for a passphrase under this
    /// manager's salt.  A salt that does not decode, or decodes outside
    /// argon2's bounds, is a CryptoError.
    fn derive_key(&self, passphrase: &str) -> (r: Result<Vec<u8>, AuthError>)
        ensures
            match r {
                Ok(k) => self.salt_ok() && k@ == self.key_for(passphrase@) && k@.len() == 32,
                Err(e) => e is CryptoError,
            },
            !self.salt_ok() ==> r is Err,
    {
        let sb = match b64std_decode(self.key_derivation_salt.as_str()) {
            Option::Some(v) => v,
            Option::None => {
                return Err(
                    AuthError::CryptoError(String::from_str("malformed key-derivation salt")),
                );
            },
        };
        if sb.len() < 8 || sb.len() > 0xFFFF_FFFF {
            return Err(AuthError::CryptoError(String::from_str("salt length out of bounds")));
        }
        let pb = passphrase.as_bytes();
        if pb.len() > 0xFFFF_FFFF {
            return Err(AuthError::CryptoError(String::from_str("passphrase too long")));
        }
        match argon2_derive(pb, sb.as_slice()) {
            Ok(k) => Ok(k),
            Err(m) => Err(AuthError::CryptoError(m)),
        }
    }

    /// Serialize a session, encrypt it under the passphrase-derived key
    /// with a fresh random nonce, and write it into the document under
    /// its namespaced key.
    pub fn store_session_encrypted(&mut self, session: &AuthSession, passphrase: &str) -> (r:
        Result<(), AuthError>)
        ensures
            match r {
                Ok(()) => ({
                    let sk = session_key_of(session@.id);
                    &&& final(self).doc_map().contains_key(sk)
                    &&& final(self).doc_map() == old(self).doc_map().insert(
                        sk,
                        final(self).doc_map()[sk],
                    )
                    &&& blob_opens_to_session(
                        old(self).key_for(passphrase@),
                        final(self).doc_map()[sk]@,
                        session@,
                    )
                    &&& final(self).salt_str() == old(self).salt_str()
                    &&& final(self).index_map() == old(self).index_map()
                }),
                Err(e) => e is CryptoError && *final(self) == *old(self),
            },
            !old(self).salt_ok() ==> r is Err,
    {
        let key = match self.derive_key(passphrase) {
            Ok(k) => k,
            Err(e) => {
                return Err(e);
            },
        };
        let msg = encode_session(session);
        let nonce = match random_bytes(16) {
            Ok(n) => n,
            Err(m) => {
                return Err(AuthError::CryptoError(m));
            },
        };
        let sealed = seal(&key, &nonce, &msg);
        let blob = b64std_encode(sealed.as_slice());
        let sk = session_doc_key(session.id.as_str());
        proof {
            lemma_unseal_seal(key@, nonce@, msg@);
            crate::codec::lemma_session_codec_round_trip(session@);
        }
        self.doc.insert(sk, blob);
        Ok(())
    }

    /// Look a session up by id and decrypt it under the passphrase.  An
    /// absent id is not an error; a present blob that does not
    /// authenticate or deserialize is.
    pub fn retrieve_session_encrypted(&self, session_id: &str, passphrase: &str) -> (r: Result<
        Option<AuthSession>,
        AuthError,
    >)
        ensures
            ({
                let sk = session_key_of(session_id@);
                let key = self.key_for(passphrase@);
                &&& match r {
                    Ok(Some(s)) => self.doc_map().contains_key(sk) && blob_opens_to_session(
                        key,
                        self.doc_map()[sk]@,
                        s@,
                    ),
                    Ok(None) => !self.doc_map().contains_key(sk),
                    Err(e) => self.doc_map().contains_key(sk) && (e is CryptoError || (
                    e is StorageError && self.salt_ok() && blob_storage_failure(
                        key,
                        self.doc_map()[sk]@,
                    ))),
                }
                &&& ((self.doc_map().contains_key(sk) && (exists|v: AuthSessionView|
                    #[trigger] blob_opens_to_session(key, self.doc_map()[sk]@, v))) ==> (
                r matches Ok(Some(_)) || (r matches Err(e) && e is CryptoError)))
            }),
            !self.doc_map().contains_key(session_key_of(session_id@)) ==> r matches Ok(None),
    {
        let sk = session_doc_key(session_id);
        let blob = match self.doc.get(sk.as_str()) {
            Option::Some(b) => b,
            Option::None => {
                return Ok(None);
            },
        };
        let key = match self.derive_key(passphrase) {
            Ok(k) => k,
            Err(e) => {
                return Err(e);
            },
        };
        match open_session_blob(&key, blob.as_str()) {
            Ok(s) => Ok(Some(s)),
            Err(e) => {
                proof {
                    let ks = self.key_for(passphrase@);
                    let bl = self.doc_map()[session_key_of(session_id@)]@;
                    if exists|v: AuthSessionView| blob_opens_to_session(ks, bl, v) {
                        let v = choose|v: AuthSessionView| blob_opens_to_session(ks, bl, v);
                        assert(false);
                    }
                }
                Err(e)
            },
        }
    }

    /// Read one raw entry of the document, as persisted: the salt entry
    /// or a session's encrypted blob.  For callers that flush the
    /// document to durable storage.
    pub fn get_raw(&self, key: &str) -> (r: Option<String>)
        ensures
            match r {
                Option::Some(v) => self.doc_map().contains_key(key@) && v@
                    == self.doc_map()[key@]@,
                Option::None => !self.doc_map().contains_key(key@),
            },
    {
        match self.doc.get(key) {
            Option::Some(v) => Option::Some(v.clone()),
            Option::None => Option::None,
        }
    }

    /// Remove one session from the document.  Clearing an absent id is
    /// not an error.
    pub fn clear_session(&mut self, session_id: &str) -> (r: Result<(), AuthError>)
        ensures
            r matches Ok(()),
            final(self).doc_map() == old(self).doc_map().remove(session_key_of(session_id@)),
            final(self).salt_str() == old(self).salt_str(),
            final(self).index_map() == old(self).index_map(),
    {
        let sk = session_doc_key(session_id);
        self.doc.remove(sk.as_str());
        Ok(())
    }

    /// Remove every session from the document, keeping only the salt
    /// entry, and drop the state index.
    pub fn clear_all_sessions(&mut self) -> (r: Result<(), AuthError>)
        ensures
            r matches Ok(()),
            final(self).doc_map().contains_key(salt_key()),
            final(self).doc_map()[salt_key()]@ == old(self).salt_str(),
            forall|k: Seq<char>| #[trigger] final(self).doc_map().contains_key(k) ==> k == salt_key(),
            final(self).index_map() == Map::<Seq<char>, (String, String)>::empty(),
            final(self).salt_str() == old(self).salt_str(),
    {
        self.doc.clear();
        let saltv = self.key_derivation_salt.clone();
        self.doc.insert(salt_key_exec(), saltv);
        self.state_index.clear();
        Ok(())
    }
}

/// Decode, authenticate and deserialize one stored blob under an
/// already-derived key.  The outcome is exact for every input: the three
/// failure stages are distinguishable, and success returns precisely the
/// record the blob seals.
pub fn open_session_blob(key: &Vec<u8>, blob: &str) -> (r: Result<AuthSession, AuthError>)
    ensures
        match b64std_decode_of(blob@) {
            Option::None => r matches Err(e) && e is StorageError,
            Option::Some(raw) => match spec_unseal(key@, raw) {
                Option::None => r matches Err(e) && e is CryptoError,
                Option::Some(m) => match spec_decode_session(m) {
                    Option::None => r matches Err(e) && e is StorageError,
                    Option::Some(v) => r matches Ok(s) && s@ == v,
                },
            },
        },
{
    let raw = match b64std_decode(blob) {
        Option::Some(v) => v,
        Option::None => {
            return Err(AuthError::StorageError(String::from_str("undecodable session blob")));
        },
    };
    let m = match unseal(key, &raw) {
        Option::Some(v) => v,
        Option::None => {
            return Err(AuthError::CryptoError(String::from_str("authentication failed")));
        },
    };
    match decode_session(&m) {
        Option::Some(s) => Ok(s),
        Option::None => Err(AuthError::StorageError(String::from_str("deserialization failed"))),
    }
}

/// Clearing a session is idempotent: clearing twice leaves the document
/// exactly as clearing once does, and clearing an id that is absent
/// leaves the document untouched.
pub proof fn lemma_clear_session_idempotent(doc: Map<Seq<char>, String>, id: Seq<char>)
    ensures
        doc.remove(session_key_of(id)).remove(session_key_of(id)) == doc.remove(
            session_key_of(id),
        ),
        !doc.contains_key(session_key_of(id)) ==> doc.remove(session_key_of(id)) == doc,
{
    let sk = session_key_of(id);
    assert(doc.remove(sk).remove(sk) =~= doc.remove(sk));
    if !doc.contains_key(sk) {
        assert(doc.remove(sk) =~= doc);
    }
}

// ---------------------------------------------------------------------
// The command surface
// ---------------------------------------------------------------------
/// Sessions expire ten minutes after creation, in milliseconds.
pub open spec fn session_ttl_millis() -> int {
    600_000
}

/// Create a session: a fresh id and anti-CSRF state, a PKCE challenge, a
/// ten-minute expiry, and encrypted persistence under the passphrase
/// built from the device id and the state.
pub fn generate_auth_session(mgr: &mut AuthManager, device_info: DeviceInfo, now_ms: i64) -> (r:
    Result<AuthSession, AuthError>)
    requires
        now_ms + session_ttl_millis() <= i64::MAX,
    ensures
        match r {
            Ok(s) => {
                &&& s@.id.len() == 36
                &&& s@.state.len() == 32 && all_unreserved(s@.state)
                &&& s@.user_id is None && s@.email is None && s@.wallet_address is None
                    && s@.tokens is None
                &&& (s@.pkce matches Option::Some(p) && p.verifier.len() == 64 && all_unreserved(
                    p.verifier,
                ) && p.challenge == challenge_of(p.verifier) && p.method == "S256"@ && p.expires_at
                    == now_ms + session_ttl_millis())
                &&& s@.created_at == now_ms && s@.expires_at == now_ms + session_ttl_millis()
                &&& session_wf(s@) && session_live(s@, now_ms)
                &&& s@.device_info == device_info@
                &&& ({
                    let sk = session_key_of(s@.id);
                    &&& final(mgr).doc_map().contains_key(sk)
                    &&& final(mgr).doc_map() == old(mgr).doc_map().insert(
                        sk,
                        final(mgr).doc_map()[sk],
                    )
                    &&& blob_opens_to_session(
                        old(mgr).key_for(passphrase_of(s@.device_info.device_id, s@.state)),
                        final(mgr).doc_map()[sk]@,
                        s@,
                    )
                })
                &&& final(mgr).index_map().contains_key(s@.state)
                &&& final(mgr).index_map()[s@.state].0@ == s@.id
                &&& final(mgr).index_map()[s@.state].1@ == s@.device_info.device_id
                &&& final(mgr).index_map().remove(s@.state) == old(mgr).index_map().remove(
                    s@.state,
                )
                &&& final(mgr).salt_str() == old(mgr).salt_str()
            },
            Err(e) => e is CryptoError && *final(mgr) == *old(mgr),
        },
        !old(mgr).salt_ok() ==> r is Err,
{
    let id = match new_session_id() {
        Ok(i) => i,
        Err(e) => {
            return Err(e);
        },
    };
    let state = match generate_secure_random_string(32) {
        Ok(s) => s,
        Err(e) => {
            return Err(e);
        },
    };
    let pkce = match generate_pkce_challenge(now_ms) {
        Ok(p) => p,
        Err(e) => {
            return Err(e);
        },
    };
    let device_id_copy = device_info.device_id.clone();
    let state_copy = state.clone();
    let session = AuthSession {
        id,
        user_id: Option::None,
        email: Option::None,
        wallet_address: Option::None,
        tokens: Option::None,
        pkce: Option::Some(pkce),
        state,
        created_at: now_ms,
        expires_at: now_ms + 600_000,
        device_info,
    };
    let passphrase = make_passphrase(
        session.device_info.device_id.as_str(),
        session.state.as_str(),
    );
    match mgr.store_session_encrypted(&session, passphrase.as_str()) {
        Ok(()) => {},
        Err(e) => {
            return Err(e);
        },
    }
    let id_copy = session.id.clone();
    mgr.state_index_insert(state_copy, id_copy, device_id_copy);
    proof {
        assert(final(mgr).index_map().remove(session@.state) =~= old(mgr).index_map().remove(
            session@.state,
        ));
    }
    Ok(session)
}

impl AuthManager {
    /// Record which session and device an anti-CSRF state belongs to.
    fn state_index_insert(&mut self, state: String, id: String, device_id: String)
        ensures
            final(self).index_map() == old(self).index_map().insert(state@, (id, device_id)),
            final(self).doc_map() == old(self).doc_map(),
            final(self).salt_str() == old(self).salt_str(),
    {
        self.state_index.insert(state, (id, device_id));
    }

    /// Look the state index up.
    fn state_index_get(&self, state: &str) -> (r: Option<(String, String)>)
        ensures
            match r {
                Option::Some(e) => self.index_map().contains_key(state@) && e
                    == self.index_map()[state@],
                Option::None => !self.index_map().contains_key(state@),
            },
    {
        match self.state_index.get(state) {
            Option::Some(e) => {
                let sid = e.0.clone();
                let did = e.1.clone();
                proof {
                    assert((sid, did) == self.index_map()[state@]);
                }
                Option::Some((sid, did))
            },
            Option::None => Option::None,
        }
    }
}

/// Retrieve a session by id under the device/state passphrase, rejecting
/// one whose expiry has passed: an expired session is never handed out
/// as valid.
pub fn get_auth_session(
    mgr: &AuthManager,
    session_id: &str,
    device_id: &str,
    state: &str,
    now_ms: i64,
) -> (r: Result<Option<AuthSession>, AuthError>)
    ensures
        ({
            let sk = session_key_of(session_id@);
            let key = mgr.key_for(passphrase_of(device_id@, state@));
            &&& match r {
                Ok(Some(s)) => mgr.doc_map().contains_key(sk) && blob_opens_to_session(
                    key,
                    mgr.doc_map()[sk]@,
                    s@,
                ) && session_live(s@, now_ms),
                Ok(None) => !mgr.doc_map().contains_key(sk) || (exists|v: AuthSessionView|
                    #[trigger] blob_opens_to_session(key, mgr.doc_map()[sk]@, v) && !session_live(
                        v,
                        now_ms,
                    )),
                Err(e) => mgr.doc_map().contains_key(sk) && (e is CryptoError || (
                e is StorageError && mgr.salt_ok() && blob_storage_failure(
                    key,
                    mgr.doc_map()[sk]@,
                ))),
            }
            &&& ((mgr.doc_map().contains_key(sk) && (exists|v: AuthSessionView|
                #[trigger] blob_opens_to_session(key, mgr.doc_map()[sk]@, v) && session_live(
                    v,
                    now_ms,
                ))) ==> (r matches Ok(Some(_)) || (r matches Err(e) && e is CryptoError)))
            &&& ((mgr.doc_map().contains_key(sk) && (exists|v: AuthSessionView|
                #[trigger] blob_opens_to_session(key, mgr.doc_map()[sk]@, v) && !session_live(
                    v,
                    now_ms,
                ))) ==> (r matches Ok(None) || (r matches Err(e) && e is CryptoError)))
        }),
        !mgr.doc_map().contains_key(session_key_of(session_id@)) ==> r matches Ok(None),
{
    let passphrase = make_passphrase(device_id, state);
    let ghost sk = session_key_of(session_id@);
    let ghost key = mgr.key_for(passphrase_of(device_id@, state@));
    match mgr.retrieve_session_encrypted(session_id, passphrase.as_str()) {
        Ok(Some(s)) => {
            proof {
                if exists|v: AuthSessionView| blob_opens_to_session(key, mgr.doc_map()[sk]@, v)
                    && !session_live(v, now_ms) {
                    let v = choose|v: AuthSessionView|
                        blob_opens_to_session(key, mgr.doc_map()[sk]@, v) && !session_live(
                            v,
                            now_ms,
                        );
                    lemma_blob_opens_unique(key, mgr.doc_map()[sk]@, v, s@);
                }
                if exists|v: AuthSessionView| blob_opens_to_session(key, mgr.doc_map()[sk]@, v)
                    && session_live(v, now_ms) {
                    let v = choose|v: AuthSessionView|
                        blob_opens_to_session(key, mgr.doc_map()[sk]@, v) && session_live(
                            v,
                            now_ms,
                        );
                    lemma_blob_opens_unique(key, mgr.doc_map()[sk]@, v, s@);
                }
            }
            if s.is_still_valid(now_ms) {
                Ok(Some(s))
            } else {
                proof {
                    assert(blob_opens_to_session(key, mgr.doc_map()[sk]@, s@) && !session_live(
                        s@,
                        now_ms,
                    ));
                }
                Ok(None)
            }
        },
        Ok(None) => Ok(None),
        Err(e) => {
            proof {
                if e is StorageError {
                    lemma_storage_failure_excludes_open(key, mgr.doc_map()[sk]@);
                }
            }
            Err(e)
        },
    }
}

/// The session record a known callback state leads to in this manager:
/// the blob stored under the indexed session id opens to `v` under the
/// key that the indexed device id and the state reconstruct.
pub open spec fn indexed_session_opens(m: AuthManager, st: Seq<char>, v: AuthSessionView) -> bool {
    &&& m.index_map().contains_key(st)
    &&& m.doc_map().contains_key(session_key_of(m.index_map()[st].0@))
    &&& blob_opens_to_session(
        m.key_for(passphrase_of(m.index_map()[st].1@, st)),
        m.doc_map()[session_key_of(m.index_map()[st].0@)]@,
        v,
    )
}

/// A record a state leads to is the only one it leads to.
proof fn lemma_indexed_opens_only(m: AuthManager, st: Seq<char>, s: AuthSessionView)
    requires
        indexed_session_opens(m, st, s),
    ensures
        forall|v: AuthSessionView| #[trigger] indexed_session_opens(m, st, v) ==> v == s,
{
    assert forall|v: AuthSessionView| #[trigger] indexed_session_opens(m, st, v) implies v
        == s by {
        lemma_blob_opens_unique(
            m.key_for(passphrase_of(m.index_map()[st].1@, st)),
            m.doc_map()[session_key_of(m.index_map()[st].0@)]@,
            v,
            s,
        );
    }
}

/// Existential introduction for the stale-session classification: a
/// matched stale record witnesses one.
proof fn lemma_witness_stale(m: AuthManager, st: Seq<char>, s: AuthSessionView, now_ms: i64)
    requires
        indexed_session_opens(m, st, s),
        s.state == st,
        !session_live(s, now_ms),
    ensures
        exists|v: AuthSessionView|
            #[trigger] indexed_session_opens(m, st, v) && v.state == st && !session_live(
                v,
                now_ms,
            ),
{
    assert(indexed_session_opens(m, st, s) && s.state == st && !session_live(s, now_ms));
}

/// Handle an incoming redirect URL.  Both `code` and `state` must be
/// present; the received state must name a known flow, and the stored
/// session's own state must match it (the CSRF binding check) before the
/// session is handed back for the external token exchange.  An expired
/// session is rejected.  Each error names its exact cause: InvalidUrl
/// exactly on an unparseable URL; InvalidCode only on a missing code or
/// state, an unknown state, a missing record, or a state-binding
/// mismatch; ExpiredCode only on a stale matched session.  When the
/// state leads to a live matching record, a session is owed, short of a
/// key-derivation backend failure.
#[verifier::rlimit(100)]
#[verifier::spinoff_prover]
pub fn handle_auth_callback(mgr: &AuthManager, url: &str, now_ms: i64) -> (r: Result<
    AuthSession,
    AuthError,
>)
    ensures
        ((r matches Err(e) && e is InvalidUrl) <==> url_parse_of(url@) is None),
        (url_parse_of(url@) matches Option::Some(parts) && (query_get(parts.3, "code"@) is None
            || query_get(parts.3, "state"@) is None)) ==> (r matches Err(e) && e is InvalidCode),
        match r {
            Ok(s) => url_parse_of(url@) matches Option::Some(parts) && {
                &&& query_get(parts.3, "code"@) is Some
                &&& query_get(parts.3, "state"@) matches Option::Some(st) && s@.state == st
                    && indexed_session_opens(*mgr, st, s@)
                &&& session_live(s@, now_ms)
            },
            Err(e) => e is InvalidUrl || e is InvalidCode || e is ExpiredCode || e is CryptoError
                || e is StorageError,
        },
        url_parse_of(url@) matches Option::Some(parts) ==> (query_get(parts.3, "state"@) matches
            Option::Some(st) ==> (query_get(parts.3, "code"@) is Some ==> {
            &&& ((exists|v: AuthSessionView|
                #[trigger] indexed_session_opens(*mgr, st, v) && v.state == st && session_live(
                    v,
                    now_ms,
                )) ==> (r is Ok || (r matches Err(e) && e is CryptoError)))
            &&& ((exists|v: AuthSessionView|
                #[trigger] indexed_session_opens(*mgr, st, v) && v.state == st && !session_live(
                    v,
                    now_ms,
                )) ==> (r matches Err(e) && (e is ExpiredCode || e is CryptoError)))
            &&& ((r matches Err(e) && e is ExpiredCode) ==> (exists|v: AuthSessionView|
                #[trigger] indexed_session_opens(*mgr, st, v) && v.state == st && !session_live(
                    v,
                    now_ms,
                )))
            &&& ((r matches Err(e) && e is InvalidCode) ==> {
                ||| !mgr.index_map().contains_key(st)
                ||| !mgr.doc_map().contains_key(session_key_of(mgr.index_map()[st].0@))
                ||| (exists|v: AuthSessionView|
                    #[trigger] indexed_session_opens(*mgr, st, v) && v.state != st)
            })
        })),
{
    let parts = match parse_url_parts(url) {
        Option::Some(p) => p,
        Option::None => {
            return Err(AuthError::InvalidUrl(String::from_str("unparseable callback URL")));
        },
    };
    let has_code = lookup_query(&parts, "code");
    if has_code.is_none() {
        return Err(AuthError::InvalidCode);
    }
    let cb_state = match lookup_query(&parts, "state") {
        Option::Some(s) => s,
        Option::None => {
            return Err(AuthError::InvalidCode);
        },
    };
    let ghost st = cb_state@;
    let entry = match mgr.state_index_get(cb_state.as_str()) {
        Option::Some(e) => e,
        Option::None => {
            proof {
                assert forall|v: AuthSessionView| !#[trigger] indexed_session_opens(
                    *mgr,
                    st,
                    v,
                ) by {}
            }
            return Err(AuthError::InvalidCode);
        },
    };
    let ghost key = mgr.key_for(passphrase_of(mgr.index_map()[st].1@, st));
    let ghost sk = session_key_of(mgr.index_map()[st].0@);
    let passphrase = make_passphrase(entry.1.as_str(), cb_state.as_str());
    let session = match mgr.retrieve_session_encrypted(entry.0.as_str(), passphrase.as_str()) {
        Ok(Some(s)) => s,
        Ok(None) => {
            proof {
                assert forall|v: AuthSessionView| !#[trigger] indexed_session_opens(
                    *mgr,
                    st,
                    v,
                ) by {}
            }
            return Err(AuthError::InvalidCode);
        },
        Err(e) => {
            proof {
                if e is StorageError {
                    lemma_storage_failure_excludes_open(key, mgr.doc_map()[sk]@);
                    assert forall|v: AuthSessionView| !#[trigger] indexed_session_opens(
                        *mgr,
                        st,
                        v,
                    ) by {}
                }
            }
            return Err(e);
        },
    };
    proof {
        assert(indexed_session_opens(*mgr, st, session@));
    }
    if !constant_time_eq(session.state.as_str(), cb_state.as_str()) {
        proof {
            lemma_indexed_opens_only(*mgr, st, session@);
            assert(session@.state != st);
        }
        return Err(AuthError::InvalidCode);
    }
    if !session.is_still_valid(now_ms) {
        proof {
            let pg = url_parse_of(url@)->0;
            let stg = query_get(pg.3, "state"@)->0;
            assert(stg == st);
            lemma_indexed_opens_only(*mgr, stg, session@);
            lemma_witness_stale(*mgr, stg, session@, now_ms);
        }
        return Err(AuthError::ExpiredCode);
    }
    proof {
        lemma_indexed_opens_only(*mgr, st, session@);
        assert(session@.state == st);
        assert(session_live(session@, now_ms));
    }
    Ok(session)
}

/// Attach the token bundle the external exchange returned, consume the
/// PKCE challenge, and re-persist the session encrypted.
pub fn complete_auth_session(mgr: &mut AuthManager, session: AuthSession, token: AuthToken) -> (r:
    Result<AuthSession, AuthError>)
    ensures
        match r {
            Ok(s) => {
                &&& s@ == (AuthSessionView {
                    tokens: Option::Some(token@),
                    pkce: Option::None,
                    ..session@
                })
                &&& ({
                    let sk = session_key_of(s@.id);
                    &&& final(mgr).doc_map().contains_key(sk)
                    &&& final(mgr).doc_map() == old(mgr).doc_map().insert(
                        sk,
                        final(mgr).doc_map()[sk],
                    )
                    &&& blob_opens_to_session(
                        old(mgr).key_for(passphrase_of(s@.device_info.device_id, s@.state)),
                        final(mgr).doc_map()[sk]@,
                        s@,
                    )
                })
                &&& final(mgr).salt_str() == old(mgr).salt_str()
                &&& final(mgr).index_map() == old(mgr).index_map()
            },
            Err(e) => e is CryptoError && *final(mgr) == *old(mgr),
        },
        !old(mgr).salt_ok() ==> r is Err,
{
    let updated = AuthSession { tokens: Option::Some(token), pkce: Option::None, ..session };
    let passphrase = make_passphrase(
        updated.device_info.device_id.as_str(),
        updated.state.as_str(),
    );
    match mgr.store_session_encrypted(&updated, passphrase.as_str()) {
        Ok(()) => Ok(updated),
        Err(e) => Err(e),
    }
}

/// Remove one session.  Clearing an absent id succeeds with no error.
pub fn clear_auth_session(mgr: &mut AuthManager, session_id: &str) -> (r: Result<(), AuthError>)
    ensures
        r matches Ok(()),
        final(mgr).doc_map() == old(mgr).doc_map().remove(session_key_of(session_id@)),
        final(mgr).salt_str() == old(mgr).salt_str(),
        final(mgr).index_map() == old(mgr).index_map(),
{
    mgr.clear_session(session_id)
}

/// Remove every session, keeping only the persisted salt.
pub fn clear_all_auth_sessions(mgr: &mut AuthManager) -> (r: Result<(), AuthError>)
    ensures
        r matches Ok(()),
        final(mgr).doc_map().contains_key(salt_key()),
        final(mgr).doc_map()[salt_key()]@ == old(mgr).salt_str(),
        forall|k: Seq<char>| #[trigger] final(mgr).doc_map().contains_key(k) ==> k == salt_key(),
        final(mgr).index_map() == Map::<Seq<char>, (String, String)>::empty(),
        final(mgr).salt_str() == old(mgr).salt_str(),
{
    mgr.clear_all_sessions()
}

} // verus!
