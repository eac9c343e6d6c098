use freesignal::double_ratchet::{Session, SessionData};
use freesignal::x3dh::{
    get_identity_x25519_secret, KeyExchange, KeyExchangeError, PreKeyBundle, PreKeyMessage,
};
use freesignal::{
    Data, HashKey, HeaderKey, HeaderKeyStore, KeyExchangeStore, MessageKey, PublicIdentity,
    PublicKey, SessionKeyStore, SessionTag, SigningKey, StaticSecret, VerifyingKey,
};
use sha2::Digest;
use std::collections::HashMap;
use std::sync::{Arc, Mutex};

#[derive(Clone)]
struct MockKeyStore {
    signing_key: SigningKey,
    store: Arc<Mutex<HashMap<Vec<u8>, StaticSecret>>>,
}

impl MockKeyStore {
    fn new() -> Self {
        let secret_key = StaticSecret::random();
        Self {
            signing_key: SigningKey(secret_key.to_bytes()),
            store: Arc::new(Mutex::new(HashMap::new())),
        }
    }
}

impl KeyExchangeStore for MockKeyStore {
    fn get_signing_key(&mut self) -> SigningKey {
        self.signing_key.clone()
    }

    fn store_pre_key(&mut self, prekey_hash: &[u8], prekey: &StaticSecret) {
        self.store
            .lock()
            .unwrap()
            .insert(prekey_hash.to_vec(), prekey.clone());
    }

    fn load_pre_key(&mut self, prekey_hash: &[u8]) -> Option<StaticSecret> {
        self.store.lock().unwrap().get(prekey_hash).cloned()
    }

    fn remove_pre_key(&mut self, prekey_hash: &[u8]) -> bool {
        self.store.lock().unwrap().remove(prekey_hash).is_some()
    }
}

struct MemorySessionKeystore {
    identity: VerifyingKey,
    header_keys: HashMap<HashKey, HeaderKey>,
    previous_keys: HashMap<SessionTag, MessageKey>,
    session_data: HashMap<SessionTag, SessionData>,
    session_tag_map: HashMap<HashKey, SessionTag>,
}

impl MemorySessionKeystore {
    fn new(identity: VerifyingKey) -> Self {
        Self {
            identity,
            header_keys: HashMap::new(),
            previous_keys: HashMap::new(),
            session_data: HashMap::new(),
            session_tag_map: HashMap::new(),
        }
    }
}

impl HeaderKeyStore<SessionData> for MemorySessionKeystore {
    fn set_header_key(&mut self, key: &HashKey, value: &HeaderKey) {
        self.header_keys.insert(*key, value.clone());
    }

    fn get_header_key(&mut self, key: &HashKey) -> Option<HeaderKey> {
        self.header_keys.get(key).cloned()
    }
}

impl SessionKeyStore<SessionData> for MemorySessionKeystore {
    fn get_verifying_key(&mut self) -> VerifyingKey {
        self.identity
    }

    fn set_previous_keys(&mut self, key: &SessionTag, value: &MessageKey) {
        self.previous_keys.insert(key.clone(), value.clone());
    }

    fn get_previous_keys(&mut self, key: &SessionTag) -> Option<MessageKey> {
        self.previous_keys.remove(key)
    }

    fn del_previous_keys(&mut self, hash: Option<&SessionTag>) -> bool {
        if let Some(h) = hash {
            self.previous_keys.remove(h).is_some()
        } else {
            self.previous_keys.clear();
            true
        }
    }

    fn has_previous_keys(&mut self) -> bool {
        !self.previous_keys.is_empty()
    }

    fn set_data(&mut self, session: &SessionData) {
        self.session_data
            .insert(session.get_session_tag(), session.clone());
    }

    fn set_hash_key(&mut self, hash_key: &HashKey, session_tag: &SessionTag) {
        self.session_tag_map.insert(*hash_key, session_tag.clone());
    }

    fn get_data_by_hash(&mut self, hash_key: &HashKey) -> Option<SessionData> {
        let tag = self.session_tag_map.get(hash_key).cloned()?;
        self.get_data_by_tag(&tag)
    }

    fn get_data_by_tag(&mut self, session_tag: &SessionTag) -> Option<SessionData> {
        self.session_data.get(session_tag).cloned()
    }

    fn commit(&mut self) {}

    fn rollback(&mut self) -> bool {
        true
    }
}

fn create_test_identity(keystore: &MockKeyStore) -> PublicIdentity {
    PublicIdentity(keystore.signing_key.verifying_key())
}

fn sha256(bytes: &[u8]) -> [u8; 32] {
    sha2::Sha256::digest(bytes).into()
}

#[test]
fn test_pre_key_bundle_signature_verification() {
    let keystore = MockKeyStore::new();
    let identity = create_test_identity(&keystore);
    let mut session = KeyExchange::new(identity, keystore.clone());

    let bundle: PreKeyBundle<5> = session.create_pre_key_bundle();

    let verification = bundle
        .identity_key
        .verify_strict(bundle.signed_pre_key.as_bytes(), &bundle.signature);

    assert!(
        verification.is_ok(),
        "La firma crittografica della Signed Pre-Key deve essere valida"
    );
}

#[test]
fn test_create_pre_key_bundle_opk_generation() {
    let keystore = MockKeyStore::new();
    let identity = create_test_identity(&keystore);
    let mut session = KeyExchange::new(identity, keystore.clone());

    const MAX_OPK: usize = 10;
    let bundle: PreKeyBundle<MAX_OPK> = session.create_pre_key_bundle();

    assert!(bundle.onetime_pre_keys.is_some());
    let opks = bundle.onetime_pre_keys.unwrap();
    assert_eq!(opks.len(), MAX_OPK);

    let store_guard = keystore.store.lock().unwrap();
    assert_eq!(store_guard.len(), MAX_OPK + 1);
}

#[test]
fn test_x3dh_full_handshake_end_to_end() {
    let bob_keystore = MockKeyStore::new();
    let bob_identity = create_test_identity(&bob_keystore);
    let mut bob_kx = KeyExchange::new(bob_identity, bob_keystore);
    let bob_bundle: PreKeyBundle<5> = bob_kx.create_pre_key_bundle();

    let alice_keystore = MockKeyStore::new();
    let alice_identity = create_test_identity(&alice_keystore);
    let mut alice_kx = KeyExchange::new(alice_identity, alice_keystore);

    let (alice_init, pre_key_msg) = alice_kx
        .process_pre_key_bundle(&bob_bundle)
        .ok()
        .expect("Alice deve elaborare il bundle con successo");

    let bob_init = bob_kx
        .process_pre_key_message(pre_key_msg)
        .ok()
        .expect("Bob deve elaborare il messaggio con successo");

    assert_eq!(
        alice_init.root_key.0, bob_init.root_key.0,
        "Handshake X3DH fallito: Alice e Bob hanno calcolato RootKey differenti!"
    );

    assert_eq!(alice_init.header_key, bob_init.next_header_key);
    assert_eq!(alice_init.next_header_key, bob_init.header_key);

    type DR = Session<MemorySessionKeystore>;

    let mut alice_dr = DR::new(&alice_init, MemorySessionKeystore::new(alice_identity.0));
    let mut bob_dr = DR::new(&bob_init, MemorySessionKeystore::new(bob_identity.0));

    let (alice_msg_key, header, _) = alice_dr.get_sending_key().unwrap();
    let bob_msg_key = bob_dr.get_receiving_key(&header).unwrap();

    assert_eq!(
        alice_msg_key.0, bob_msg_key.0,
        "La chiave derivata da Bob deve coincidere con quella di Alice"
    );
}

#[test]
fn test_x3dh_handshake_without_opk() {
    let bob_keystore = MockKeyStore::new();
    let bob_identity = create_test_identity(&bob_keystore);
    let mut bob_kx = KeyExchange::new(bob_identity, bob_keystore);

    let mut bundle: PreKeyBundle<0> = bob_kx.create_pre_key_bundle();
    bundle.onetime_pre_keys = None;

    let alice_keystore = MockKeyStore::new();
    let alice_identity = create_test_identity(&alice_keystore);
    let mut alice_kx = KeyExchange::new(alice_identity, alice_keystore);

    let (alice_init, pre_key_msg) = alice_kx.process_pre_key_bundle(&bundle).ok().unwrap();
    let bob_init = bob_kx.process_pre_key_message(pre_key_msg).ok().unwrap();

    assert_eq!(
        alice_init.root_key.0, bob_init.root_key.0,
        "Handshake senza OPK deve produrre la stessa RootKey"
    );
}

#[test]
fn a_bundle_with_no_onetime_pre_keys_names_none() {
    let mut bob = exchange();
    let mut alice = exchange();
    let bundle: PreKeyBundle<0> = bob.create_pre_key_bundle();
    let (_, message) = alice.process_pre_key_bundle(&bundle).ok().unwrap();
    assert_eq!(message.onetime_pre_key_hash, None);
    assert!(bob.process_pre_key_message(message).is_ok());
}

fn exchange() -> KeyExchange<MockKeyStore> {
    let keystore = MockKeyStore::new();
    KeyExchange::new(create_test_identity(&keystore), keystore)
}

#[test]
fn a_forged_signature_is_refused() {
    let mut bob = exchange();
    let mut alice = exchange();
    let mut bundle: PreKeyBundle<2> = bob.create_pre_key_bundle();
    bundle.signature.0[0] ^= 1;
    assert_eq!(bundle.verify(), Err(KeyExchangeError::VerificationError));
    assert_eq!(
        alice.process_pre_key_bundle(&bundle).err(),
        Some(KeyExchangeError::VerificationError)
    );
}

#[test]
fn a_onetime_pre_key_is_single_use() {
    let mut bob = exchange();
    let mut alice = exchange();
    let bundle: PreKeyBundle<3> = bob.create_pre_key_bundle();
    let (_, message) = alice.process_pre_key_bundle(&bundle).ok().unwrap();
    assert_eq!(bob.keystore.store.lock().unwrap().len(), 4);
    assert!(bob.process_pre_key_message(message.clone()).is_ok());
    assert_eq!(bob.keystore.store.lock().unwrap().len(), 3);
    assert_eq!(
        bob.process_pre_key_message(message).err(),
        Some(KeyExchangeError::PreKeyNotFound)
    );
}

#[test]
fn an_unknown_signed_pre_key_is_not_found() {
    let mut bob = exchange();
    let message = PreKeyMessage {
        identity_key: SigningKey([1; 32]).verifying_key(),
        ephemeral_key: PublicKey([9; 32]),
        signed_pre_key_hash: [0; 32],
        onetime_pre_key_hash: None,
    };
    assert_eq!(
        bob.process_pre_key_message(message).err(),
        Some(KeyExchangeError::PreKeyNotFound)
    );
}

#[test]
fn pre_keys_are_stored_under_their_hashes() {
    let mut bob = exchange();
    let (spk, spk_hash) = bob.generate_spk();
    assert_eq!(spk_hash, sha256(PublicKey::from_secret(&spk).as_bytes()));
    let (opk, opk_hash) = bob.generate_opk(&spk_hash);
    assert_eq!(opk_hash, sha256(PublicKey::from_secret(&opk).as_bytes()));
    let mut slot = spk_hash.to_vec();
    slot.extend_from_slice(&opk_hash);
    let store = bob.keystore.store.lock().unwrap();
    assert_eq!(store[&spk_hash.to_vec()].to_bytes(), spk.to_bytes());
    assert_eq!(store[&slot].to_bytes(), opk.to_bytes());
}

#[test]
fn both_ends_derive_the_documented_keys() {
    let alice_key = SigningKey([1; 32]);
    let bob_key = SigningKey([2; 32]);
    let ephemeral = StaticSecret([3; 32]);
    let spk = StaticSecret([4; 32]);
    let opk = StaticSecret([5; 32]);
    let bundle: PreKeyBundle<1> = PreKeyBundle {
        identity_key: bob_key.verifying_key(),
        signed_pre_key: PublicKey::from_secret(&spk),
        signature: bob_key.sign(PublicKey::from_secret(&spk).as_bytes()),
        onetime_pre_keys: Some([PublicKey::from_secret(&opk)]),
    };
    let (init, message) = bundle.accept(
        &PublicIdentity(alice_key.verifying_key()),
        &alice_key,
        &ephemeral,
        Some(PublicKey::from_secret(&opk)),
    );

    let mut raw = vec![0xffu8; 32];
    let alice_secret = get_identity_x25519_secret(&alice_key);
    let bob_public = PublicKey::from_secret(&get_identity_x25519_secret(&bob_key));
    raw.extend_from_slice(&alice_secret.diffie_hellman(&bundle.signed_pre_key).0);
    raw.extend_from_slice(&ephemeral.diffie_hellman(&bob_public).0);
    raw.extend_from_slice(&ephemeral.diffie_hellman(&bundle.signed_pre_key).0);
    raw.extend_from_slice(&ephemeral.diffie_hellman(&PublicKey::from_secret(&opk)).0);
    let mut okm = [0u8; 96];
    hkdf::Hkdf::<sha2::Sha256>::new(Some(&[0; 32]), &raw)
        .expand(b"/freesignal/x3dh/v0.1", &mut okm)
        .unwrap();
    assert_eq!(init.root_key.0[..], okm[..32]);
    assert_eq!(init.header_key.as_ref().unwrap().0[..], okm[32..64]);
    assert_eq!(init.next_header_key.as_ref().unwrap().0[..], okm[64..]);
    assert_eq!(init.remote_key, Some(bundle.signed_pre_key));
    assert_eq!(
        init.user_id,
        PublicIdentity(bundle.identity_key).get_user_id()
    );
    assert_eq!(message.ephemeral_key, PublicKey::from_secret(&ephemeral));
    assert_eq!(
        message.signed_pre_key_hash,
        sha256(bundle.signed_pre_key.as_bytes())
    );
    assert_eq!(
        message.onetime_pre_key_hash,
        Some(sha256(PublicKey::from_secret(&opk).as_bytes()))
    );

    let asked = message.accept(&bob_key, spk.clone(), Some(opk));
    assert_eq!(asked.root_key.0, init.root_key.0);
    assert_eq!(asked.header_key, init.next_header_key);
    assert_eq!(asked.next_header_key, init.header_key);
    assert_eq!(asked.secret_key.as_ref().unwrap().to_bytes(), spk.to_bytes());
    assert_eq!(asked.remote_key, None);
    assert_eq!(
        asked.remote_identity.to_bytes(),
        alice_key.verifying_key().to_bytes()
    );
}

#[test]
fn an_identity_secret_is_half_a_digest() {
    let key = SigningKey([6; 32]);
    let digest = sha2::Sha512::digest([6u8; 32]);
    assert_eq!(
        get_identity_x25519_secret(&key).to_bytes()[..],
        digest[..32]
    );
}

#[test]
fn key_exchange_errors_have_their_words() {
    assert_eq!(
        KeyExchangeError::VerificationError.to_string(),
        "Error validating PreKey signature"
    );
    assert_eq!(
        KeyExchangeError::PreKeyNotFound.to_string(),
        "The requested PreKey was not found in the keystore"
    );
}
