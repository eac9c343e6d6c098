use freesignal::double_ratchet::session::Session;
use freesignal::double_ratchet::{
    ChainKey, DoubleRatchetError, HeaderKeys, RootKey as RatchetRoot, SessionData, SessionHeader,
    MAX_SKIP, SESSION_DATA_SIZE,
};
use freesignal::{
    Data, HashKey, Header, HeaderKey, HeaderKeyStore, MessageKey, PublicKey, RootKey, SessionInit,
    SessionKeyStore, SessionTag, SigningKey, StaticSecret, UserId, VerifyingKey,
};
use sha2::Digest;
use std::collections::HashMap;

fn gen_identity() -> VerifyingKey {
    let secret = StaticSecret::random();
    let signing_key = SigningKey(secret.to_bytes());
    signing_key.verifying_key()
}

fn random_public_key() -> PublicKey {
    PublicKey::from_secret(&StaticSecret::random())
}

struct MemoryKeystore {
    local_identity: VerifyingKey,
    header_keys: HashMap<HashKey, HeaderKey>,
    previous_keys: HashMap<SessionTag, MessageKey>,
    session_data: HashMap<SessionTag, SessionData>,
    session_tag_map: HashMap<HashKey, SessionTag>,
    can_roll_back: bool,
}

impl MemoryKeystore {
    fn new(local_identity: VerifyingKey) -> Self {
        Self {
            local_identity,
            header_keys: HashMap::new(),
            previous_keys: HashMap::new(),
            session_data: HashMap::new(),
            session_tag_map: HashMap::new(),
            can_roll_back: true,
        }
    }
}

impl HeaderKeyStore<SessionData> for MemoryKeystore {
    fn set_header_key(&mut self, key: &HashKey, value: &HeaderKey) {
        self.header_keys.insert(*key, value.clone());
    }

    fn get_header_key(&mut self, key: &HashKey) -> Option<HeaderKey> {
        self.header_keys.get(key).cloned()
    }
}

impl SessionKeyStore<SessionData> for MemoryKeystore {
    fn get_verifying_key(&mut self) -> VerifyingKey {
        self.local_identity
    }

    fn set_previous_keys(&mut self, key: &SessionTag, value: &MessageKey) {
        self.previous_keys.insert(key.clone(), value.clone());
    }

    fn get_previous_keys(&mut self, key: &SessionTag) -> Option<MessageKey> {
        self.previous_keys.remove(key)
    }

    fn del_previous_keys(&mut self, hash: Option<&SessionTag>) -> bool {
        if let Some(h) = hash {
            self.previous_keys.remove(h).is_some()
        } else {
            self.previous_keys.clear();
            true
        }
    }

    fn has_previous_keys(&mut self) -> bool {
        !self.previous_keys.is_empty()
    }

    fn set_data(&mut self, session: &SessionData) {
        self.session_data
            .insert(session.get_session_tag(), session.clone());
    }

    fn set_hash_key(&mut self, hash_key: &HashKey, session_tag: &SessionTag) {
        self.session_tag_map.insert(*hash_key, session_tag.clone());
    }

    fn get_data_by_hash(&mut self, hash_key: &HashKey) -> Option<SessionData> {
        let tag = self.session_tag_map.get(hash_key).cloned()?;
        self.get_data_by_tag(&tag)
    }

    fn get_data_by_tag(&mut self, session_tag: &SessionTag) -> Option<SessionData> {
        self.session_data.get(session_tag).cloned()
    }

    fn commit(&mut self) {}

    fn rollback(&mut self) -> bool {
        self.can_roll_back
    }
}

fn init(
    remote_identity: VerifyingKey,
    root_key: [u8; 32],
    remote_key: Option<PublicKey>,
) -> SessionInit {
    SessionInit {
        user_id: UserId([0; 32]),
        remote_identity,
        remote_key,
        secret_key: None,
        root_key: RootKey(root_key),
        header_key: None,
        next_header_key: None,
    }
}

/// Alice, who can send, and Bob, who waits for her first message.
fn pair(root_key: [u8; 32]) -> (Session<MemoryKeystore>, Session<MemoryKeystore>) {
    let bob_identity = gen_identity();
    let alice_identity = gen_identity();
    let bob = Session::new(
        &init(alice_identity, root_key, None),
        MemoryKeystore::new(bob_identity),
    );
    let alice = Session::new(
        &init(bob_identity, root_key, Some(bob.public_key())),
        MemoryKeystore::new(alice_identity),
    );
    (alice, bob)
}

#[test]
fn test_session_message_exchange() {
    let shared_root_key = [42u8; 32];
    let bob_identity = gen_identity();
    let alice_identity = gen_identity();

    let bob_keystore = MemoryKeystore::new(bob_identity);
    let bob_init = init(alice_identity, shared_root_key, None);
    let mut bob_session = Session::new(&bob_init, bob_keystore);
    let bob_public_key = bob_session.public_key();

    let alice_keystore = MemoryKeystore::new(alice_identity);
    let alice_init = init(bob_identity, shared_root_key, Some(bob_public_key));
    let mut alice_session = Session::new(&alice_init, alice_keystore);

    let (alice_msg_key_1, header_1, _) = alice_session.get_sending_key().unwrap();
    let bob_msg_key_1 = bob_session.get_receiving_key(&header_1).unwrap();

    assert_eq!(
        alice_msg_key_1.0, bob_msg_key_1.0,
        "The keys of the first message do not match"
    );

    assert_eq!(header_1.count, 1);

    let (alice_msg_key_2, header_2, _) = alice_session.get_sending_key().unwrap();
    let bob_msg_key_2 = bob_session.get_receiving_key(&header_2).unwrap();

    assert_eq!(
        alice_msg_key_2.0, bob_msg_key_2.0,
        "The keys of the second message do not match"
    );

    assert_eq!(header_2.count, 2);

    let (bob_reply_key_1, header_reply_1, _) = bob_session.get_sending_key().unwrap();
    let alice_reply_key_1 = alice_session.get_receiving_key(&header_reply_1).unwrap();

    assert_eq!(
        bob_reply_key_1.0, alice_reply_key_1.0,
        "The keys of Bob's response do not match"
    );

    assert_eq!(header_reply_1.count, 1);
    assert_eq!(header_reply_1.previous, 0);
}

#[test]
fn test_skipped_key_is_single_use() {
    let shared_root_key = [7u8; 32];
    let bob_identity = gen_identity();
    let alice_identity = gen_identity();

    let bob_keystore = MemoryKeystore::new(bob_identity);
    let bob_init = init(alice_identity, shared_root_key, None);
    let mut bob_session = Session::new(&bob_init, bob_keystore);
    let bob_public_key = bob_session.public_key();

    let alice_keystore = MemoryKeystore::new(alice_identity);
    let alice_init = init(bob_identity, shared_root_key, Some(bob_public_key));
    let mut alice_session = Session::new(&alice_init, alice_keystore);

    let (alice_key_1, header_1, _) = alice_session.get_sending_key().unwrap();
    let (alice_key_2, header_2, _) = alice_session.get_sending_key().unwrap();

    let bob_key_2 = bob_session.get_receiving_key(&header_2).unwrap();
    assert_eq!(alice_key_2.0, bob_key_2.0);
    assert!(bob_session.has_skipped_keys());

    let bob_key_1_first = bob_session.get_receiving_key(&header_1).unwrap();
    assert!(!bob_session.has_skipped_keys());
    assert_eq!(alice_key_1.0, bob_key_1_first.0);

    let bob_key_1_second = bob_session.get_receiving_key(&header_1);
    assert!(
        bob_key_1_second.is_err(),
        "The skipped message key must be used only once"
    );
    assert_eq!(
        bob_key_1_second.err(),
        Some(DoubleRatchetError::ChainNotFound)
    );
}

#[test]
fn test_session_get_sending_key_header_key_retrieval() {
    let shared_root_key = [88u8; 32];
    let alice_identity = gen_identity();
    let bob_identity = gen_identity();
    let keystore = MemoryKeystore::new(alice_identity);

    let bob_secret = StaticSecret::random();
    let bob_pubkey = PublicKey::from_secret(&bob_secret);
    let initial_header_key = [0x11; 32];

    let init = SessionInit {
        user_id: UserId([0; 32]),
        remote_identity: bob_identity,
        remote_key: Some(bob_pubkey),
        root_key: RootKey(shared_root_key),
        secret_key: Some(bob_secret),
        header_key: Some(HeaderKey(initial_header_key)),
        next_header_key: None,
    };

    let mut session = Session::new(&init, keystore);
    let (msg_key, header, header_key) = session.get_sending_key().unwrap();

    assert_eq!(header.count, 1);
    assert_eq!(header_key.map(|d| d.0), Some(initial_header_key));
    assert_ne!(msg_key.0, [0u8; 32]);
}

#[test]
fn test_double_ratchet_errors_display() {
    assert_eq!(
        format!("{}", DoubleRatchetError::NoSendingChain.to_string()),
        "Uninitialized sending chain"
    );
    assert_eq!(
        format!("{}", DoubleRatchetError::MaxSkipExceeded.to_string()),
        "Message count exceeds MAX_SKIP threshold"
    );
    assert_eq!(
        format!("{}", DoubleRatchetError::InvalidHeader.to_string()),
        "Invalid header"
    );
}

#[test]
fn test_session_header_serialization() {
    let header = SessionHeader {
        count: 42,
        previous: 12,
        public_key: random_public_key(),
    };

    let bytes = header.to_slice();
    let decoded = SessionHeader::from_bytes(&bytes).unwrap();

    assert_eq!(header.count, decoded.count);
    assert_eq!(header.previous, decoded.previous);
    assert_eq!(header.public_key.as_bytes(), decoded.public_key.as_bytes());
}

#[test]
fn test_session_data_serialization_roundtrip() {
    let bob_identity = gen_identity();
    let alice_identity = gen_identity();
    let bob_keystore = MemoryKeystore::new(bob_identity);
    let bob_init = SessionInit {
        user_id: UserId([0; 32]),
        remote_identity: alice_identity,
        remote_key: None,
        root_key: RootKey([2u8; 32]),
        secret_key: None,
        header_key: Some(HeaderKey([3u8; 32])),
        next_header_key: None,
    };
    let mut session = Session::new(&bob_init, bob_keystore);

    let fake_remote = random_public_key();
    let mut hk = HeaderKeys::default();
    session.current.sending_chain_key = Some(session.expand(&fake_remote, &mut hk, 5).unwrap());

    let bytes = session.current.to_bytes();
    let decoded = SessionData::from_bytes(&bytes);

    assert_eq!(session.current.session_tag.0, decoded.session_tag.0);
    assert_eq!(
        session.current.remote_identity.as_bytes(),
        decoded.remote_identity.as_bytes()
    );
    assert_eq!(
        session.current.root_key.secret_key.to_bytes(),
        decoded.root_key.secret_key.to_bytes()
    );
    assert_eq!(
        session.current.sending_header_keys,
        decoded.sending_header_keys
    );
    assert_eq!(
        session.current.receiving_header_keys,
        decoded.receiving_header_keys
    );
    assert!(decoded.sending_chain_key.is_some());
    assert_eq!(decoded.sending_chain_key.clone().unwrap().prev, 5);
}

#[test]
fn test_max_skip_exceeded_rejection() {
    let shared_root_key = [7u8; 32];
    let bob_identity = gen_identity();
    let alice_identity = gen_identity();
    let bob_keystore = MemoryKeystore::new(bob_identity);
    let bob_init = init(alice_identity, shared_root_key, None);
    let mut bob_session = Session::new(&bob_init, bob_keystore);

    let fake_header = SessionHeader {
        count: MAX_SKIP + 1,
        previous: 0,
        public_key: random_public_key(),
    };

    let result = bob_session.get_receiving_key(&fake_header);
    assert_eq!(result.err(), Some(DoubleRatchetError::MaxSkipExceeded));
}

#[test]
fn test_invalid_header_past_previous_count() {
    let shared_root_key = [8u8; 32];
    let bob_identity = gen_identity();
    let alice_identity = gen_identity();
    let bob_keystore = MemoryKeystore::new(bob_identity);
    let bob_init = init(alice_identity, shared_root_key, None);
    let mut bob_session = Session::new(&bob_init, bob_keystore);

    let old_remote = random_public_key();
    let mut hk = HeaderKeys::default();
    let mut mock_rc = bob_session.expand(&old_remote, &mut hk, 0).unwrap();
    mock_rc.count = 50;
    bob_session.current.receiving_chain_key = Some(mock_rc);

    let new_remote = random_public_key();
    let bad_header = SessionHeader {
        count: 10,
        previous: 10,
        public_key: new_remote,
    };

    let result = bob_session.get_receiving_key(&bad_header);
    assert_eq!(result.err(), Some(DoubleRatchetError::InvalidHeader));
}

#[test]
fn test_session_rollback() {
    let bob_identity = gen_identity();
    let alice_identity = gen_identity();
    let bob_keystore = MemoryKeystore::new(bob_identity);
    let init = init(alice_identity, [2u8; 32], None);
    let mut session = Session::new(&init, bob_keystore);

    session.commit();

    let fake_remote = random_public_key();
    let mut hk = HeaderKeys::default();
    let new_chain = session.expand(&fake_remote, &mut hk, 0).unwrap();
    session.current.receiving_chain_key = Some(new_chain);

    let rolled_back = session.rollback();
    assert!(
        rolled_back,
        "Il rollback dovrebbe avere successo se esiste uno stato precedente"
    );
    assert!(
        !session.rollback(),
        "Non è possibile fare un doppio rollback consecutivo"
    );
}

#[test]
fn rollback_restores_the_committed_state() {
    let (mut alice, _bob) = pair([1; 32]);
    let committed = alice.current.to_bytes();
    alice.get_sending_key().unwrap();
    assert_ne!(alice.current.to_bytes(), committed);
    assert!(alice.rollback());
    assert_eq!(alice.current.to_bytes(), committed);
}

#[test]
fn rollback_fails_where_the_store_cannot_go_back() {
    let (mut alice, _bob) = pair([1; 32]);
    alice.get_sending_key().unwrap();
    let state = alice.current.to_bytes();
    alice.keystore.can_roll_back = false;
    assert!(!alice.rollback());
    assert_eq!(alice.current.to_bytes(), state);
    alice.keystore.can_roll_back = true;
    assert!(alice.rollback());
}

#[test]
fn every_error_has_its_words() {
    let words = [
        (DoubleRatchetError::NoSendingChain, "Uninitialized sending chain"),
        (DoubleRatchetError::ChainNotFound, "Chain not found"),
        (DoubleRatchetError::SessionNotFound, "Session not found"),
        (
            DoubleRatchetError::MaxSkipExceeded,
            "Message count exceeds MAX_SKIP threshold",
        ),
        (DoubleRatchetError::InvalidHeader, "Invalid header"),
        (DoubleRatchetError::ChainInitFailed, "Failed chain init"),
    ];
    for (error, text) in words {
        assert_eq!(error.to_string(), text);
    }
}

#[test]
fn ends_stay_in_step_over_many_turns() {
    let (mut alice, mut bob) = pair([9; 32]);
    for round in 0..5u32 {
        for n in 1..=3u32 {
            let (sent, header, _) = alice.get_sending_key().unwrap();
            assert_eq!(header.count, n);
            assert_eq!(header.previous, if round == 0 { 0 } else { 3 });
            assert_eq!(bob.get_receiving_key(&header).unwrap().0, sent.0);
        }
        for n in 1..=3u32 {
            let (sent, header, _) = bob.get_sending_key().unwrap();
            assert_eq!(header.count, n);
            assert_eq!(alice.get_receiving_key(&header).unwrap().0, sent.0);
        }
    }
}

#[test]
fn header_keys_match_after_each_turn() {
    let bob_identity = gen_identity();
    let alice_identity = gen_identity();
    let mut bob_init = init(alice_identity, [3; 32], None);
    bob_init.header_key = Some(HeaderKey([2; 32]));
    bob_init.next_header_key = Some(HeaderKey([1; 32]));
    let mut bob = Session::new(&bob_init, MemoryKeystore::new(bob_identity));
    let mut alice_init = init(bob_identity, [3; 32], Some(bob.public_key()));
    alice_init.header_key = Some(HeaderKey([1; 32]));
    alice_init.next_header_key = Some(HeaderKey([2; 32]));
    let mut alice = Session::new(&alice_init, MemoryKeystore::new(alice_identity));

    for _ in 0..3 {
        let (_, header, header_key) = alice.get_sending_key().unwrap();
        assert_eq!(header_key, bob.current.receiving_header_keys.next);
        bob.get_receiving_key(&header).unwrap();
        assert_eq!(header_key, bob.current.receiving_header_keys.curr);
        assert_eq!(header_key, alice.header_key());

        let (_, header, header_key) = bob.get_sending_key().unwrap();
        assert_eq!(header_key, alice.current.receiving_header_keys.next);
        alice.get_receiving_key(&header).unwrap();
        assert_eq!(header_key, alice.current.receiving_header_keys.curr);
    }
}

#[test]
fn a_session_without_a_remote_key_cannot_send() {
    let (_alice, mut bob) = pair([4; 32]);
    assert_eq!(
        bob.get_sending_key().err(),
        Some(DoubleRatchetError::NoSendingChain)
    );
    assert_eq!(bob.hash_key().err(), Some(DoubleRatchetError::NoSendingChain));
}

#[test]
fn the_hash_key_is_the_digest_of_the_ratchet_key() {
    let (alice, _bob) = pair([4; 32]);
    let digest: [u8; 32] = sha2::Sha256::digest(alice.public_key().as_bytes()).into();
    assert_eq!(alice.hash_key().unwrap(), HashKey(digest));
}

#[test]
fn a_header_without_a_message_is_refused() {
    let (mut alice, mut bob) = pair([4; 32]);
    let (_, header, _) = alice.get_sending_key().unwrap();
    bob.get_receiving_key(&header).unwrap();
    let state = bob.current.to_bytes();
    assert_eq!(
        bob.get_receiving_key(&header).err(),
        Some(DoubleRatchetError::ChainNotFound)
    );
    assert_eq!(bob.current.to_bytes(), state);
}

#[test]
fn a_gap_of_max_skip_messages_is_accepted_and_one_more_is_not() {
    let (mut alice, mut bob) = pair([4; 32]);
    let (_, first, _) = alice.get_sending_key().unwrap();
    bob.get_receiving_key(&first).unwrap();
    let far = SessionHeader {
        count: MAX_SKIP + 2,
        previous: 0,
        public_key: first.public_key,
    };
    let state = bob.current.to_bytes();
    assert_eq!(
        bob.get_receiving_key(&far).err(),
        Some(DoubleRatchetError::MaxSkipExceeded)
    );
    assert_eq!(bob.current.to_bytes(), state);
    assert!(!bob.has_skipped_keys());
    let near = SessionHeader {
        count: MAX_SKIP + 1,
        previous: 0,
        public_key: first.public_key,
    };
    assert!(bob.get_receiving_key(&near).is_ok());
    assert!(bob.has_skipped_keys());
}

#[test]
fn a_new_chain_may_leave_max_skip_messages_of_the_old_one_behind() {
    let (mut alice, mut bob) = pair([4; 32]);
    let (_, first, _) = alice.get_sending_key().unwrap();
    bob.get_receiving_key(&first).unwrap();
    let header = SessionHeader {
        count: 1,
        previous: MAX_SKIP + 2,
        public_key: random_public_key(),
    };
    assert_eq!(
        bob.get_receiving_key(&header).err(),
        Some(DoubleRatchetError::MaxSkipExceeded)
    );
    let header = SessionHeader {
        count: 1,
        previous: MAX_SKIP + 1,
        public_key: random_public_key(),
    };
    assert!(bob.get_receiving_key(&header).is_ok());
    assert_eq!(
        bob.current.receiving_chain_key.as_ref().unwrap().prev,
        MAX_SKIP + 1
    );
}

#[test]
fn a_chain_steps_by_keyed_hashes() {
    let mut chain = ChainKey::new([5; 32], 7, PublicKey([6; 32]));
    let mac = |byte: u8| -> [u8; 32] {
        let mut mac =
            <hmac::Hmac<sha2::Sha256> as hmac::Mac>::new_from_slice(&[5; 32]).unwrap();
        hmac::Mac::update(&mut mac, &[byte]);
        hmac::Mac::finalize(mac).into_bytes().into()
    };
    assert_eq!(chain.expand().0, mac(1));
    assert_eq!(chain.key, mac(2));
    assert_eq!(chain.count, 1);
    assert_eq!(chain.prev, 7);
    let header = chain.header(PublicKey([8; 32]));
    assert_eq!((header.count, header.previous), (1, 7));
    assert!(!chain.compare(&PublicKey([6; 32])));
    assert!(chain.compare(&PublicKey([7; 32])));
}

#[test]
fn a_chain_is_encoded_in_big_endian_order() {
    let mut chain = ChainKey::new([5; 32], 0x01020304, PublicKey([6; 32]));
    chain.count = 0x0a0b0c0d;
    let bytes = chain.to_bytes();
    assert_eq!(&bytes[..32], &[6; 32]);
    assert_eq!(&bytes[32..64], &[5; 32]);
    assert_eq!(&bytes[64..], &[0x0a, 0x0b, 0x0c, 0x0d, 1, 2, 3, 4]);
    assert!(ChainKey::from_bytes(&bytes) == Some(chain));
    assert!(ChainKey::from_bytes(&[0; 72]).is_none());
    assert!(ChainKey::from_bytes(&bytes[..71]).is_none());
}

#[test]
fn a_header_is_encoded_in_big_endian_order() {
    let header = SessionHeader {
        count: 0x01020304,
        previous: 0x0a0b0c0d,
        public_key: PublicKey([9; 32]),
    };
    let bytes = header.to_slice();
    assert_eq!(bytes.len(), 40);
    assert_eq!(&bytes[..8], &[1, 2, 3, 4, 0x0a, 0x0b, 0x0c, 0x0d]);
    assert_eq!(&bytes[8..], &[9; 32]);
    assert!(SessionHeader::from_bytes(&bytes[..39]).is_err());
}

#[test]
fn a_root_turns_by_key_derivation() {
    let mut root = RatchetRoot::new([3; 32]);
    let secret = root.secret_key.to_bytes();
    let remote = random_public_key();
    let shared = x25519_dalek::StaticSecret::from(secret)
        .diffie_hellman(&x25519_dalek::PublicKey::from(*remote.as_bytes()));
    let mut okm = [0u8; 96];
    hkdf::Hkdf::<sha2::Sha256>::new(Some(&[3; 32]), shared.as_bytes())
        .expand(&[0; 32], &mut okm)
        .unwrap();
    let (chain, header_key) = root.expand(remote, None).unwrap();
    assert_eq!(root.key[..], okm[..32]);
    assert_eq!(chain.key[..], okm[32..64]);
    assert_eq!(header_key.0[..], okm[64..]);
    assert_eq!((chain.count, chain.prev), (0, 0));
    assert_eq!(chain.remote_key, remote);

    let copy = RatchetRoot::from(&root.to_bytes());
    assert_eq!(copy.secret_key.to_bytes(), secret);
    assert_eq!(copy.key, root.key);
    root.update();
    assert_ne!(root.secret_key.to_bytes(), secret);
    assert_eq!(copy.key, root.key);
    root.replace_secret(StaticSecret([9; 32]));
    assert_eq!(root.secret_key.to_bytes(), [9; 32]);
    assert_eq!(copy.key, root.key);
}

#[test]
fn a_turn_is_bound_to_the_session_and_both_identities() {
    let alice_identity = gen_identity();
    let bob_identity = gen_identity();
    let mut alice = Session::new(
        &init(bob_identity, [6; 32], None),
        MemoryKeystore::new(alice_identity),
    );

    let mut tag = [0u8; 32];
    hkdf::Hkdf::<sha2::Sha256>::new(Some(&[0; 32]), &[6; 32])
        .expand(b"/freesignal/double_ratchet/v0.1/tag", &mut tag)
        .unwrap();
    assert_eq!(alice.get_session_tag().0, tag);

    let (a, b) = (alice_identity.to_bytes(), bob_identity.to_bytes());
    let (first, second) = if a < b { (a, b) } else { (b, a) };
    let mut info = b"/freesignal/double_ratchet/v0.1".to_vec();
    info.extend_from_slice(&tag);
    info.extend_from_slice(&first);
    info.extend_from_slice(&second);
    info.push(0);
    assert_eq!(info.len(), 128);

    let mut root = alice.current.root_key.clone();
    let remote = random_public_key();
    let (expected, next) = root.expand(remote, Some(&info)).unwrap();
    let mut header_keys = HeaderKeys::new(HeaderKey([1; 32]));
    let chain = alice.expand(&remote, &mut header_keys, 5).unwrap();
    assert_eq!(chain.key, expected.key);
    assert_eq!(chain.prev, 5);
    assert_eq!(alice.current.root_key.key, root.key);
    assert_eq!(header_keys.header_key(), Some(HeaderKey([1; 32])));
    assert_eq!(header_keys.next, Some(next));
}

#[test]
fn header_keys_are_encoded_side_by_side() {
    let mut keys = HeaderKeys::new(HeaderKey([1; 32]));
    assert_eq!(keys.header_key(), None);
    let bytes = keys.to_bytes();
    assert_eq!(&bytes[..32], &[0; 32]);
    assert_eq!(&bytes[32..], &[1; 32]);
    assert_eq!(HeaderKeys::from_bytes(&bytes), keys);
    keys.update(HeaderKey([2; 32]));
    assert_eq!(keys.header_key(), Some(HeaderKey([1; 32])));
    let bytes = keys.to_bytes();
    assert_eq!(&bytes[..32], &[1; 32]);
    assert_eq!(&bytes[32..], &[2; 32]);
    assert_eq!(HeaderKeys::from_bytes(&bytes), keys);
    assert_eq!(HeaderKeys::from_bytes(&[0; 64]), HeaderKeys::default());
}

#[test]
fn session_data_decodes_to_what_was_encoded() {
    let (mut alice, mut bob) = pair([4; 32]);
    let (_, header, _) = alice.get_sending_key().unwrap();
    bob.get_receiving_key(&header).unwrap();
    let bytes = bob.current.to_bytes();
    assert_eq!(bytes.len(), SESSION_DATA_SIZE);
    let decoded = SessionData::try_from_bytes(&bytes).unwrap();
    assert_eq!(decoded.to_bytes(), bytes);
    assert!(SessionData::try_from_bytes(&bytes[1..]).is_none());
    let mut broken = bytes.clone();
    let mut candidate = [0u8; 32];
    while VerifyingKey::from_bytes(&candidate).is_ok() {
        candidate[0] += 1;
    }
    broken[32..64].copy_from_slice(&candidate);
    assert!(SessionData::try_from_bytes(&broken).is_none());
}

#[test]
fn a_session_is_found_by_its_header() {
    let (mut alice, mut bob) = pair([4; 32]);
    bob.commit();
    let hash_key = HashKey(sha2::Sha256::digest(bob.public_key().as_bytes()).into());
    let header_key = HeaderKey([7; 32]);
    bob.keystore.set_header_key(&hash_key, &header_key);
    let (sent, header, _) = alice.get_sending_key().unwrap();

    let mut plain = hash_key.0.to_vec();
    plain.extend_from_slice(&header.to_slice());
    let mut sealed = hash_key.0.to_vec();
    sealed.extend_from_slice(&header_key.encrypt_header(&header).unwrap());
    assert_eq!((plain.len(), sealed.len()), (72, 100));

    let read = SessionHeader::read(&sealed, &header_key).unwrap();
    assert_eq!(read.to_slice(), header.to_slice());
    assert_eq!(
        SessionHeader::read(&sealed, &HeaderKey([8; 32])).err(),
        Some(DoubleRatchetError::InvalidHeader)
    );

    let (found, read) = Session::from_header(&plain, bob.keystore).ok().unwrap();
    assert_eq!(read.to_slice(), header.to_slice());
    assert_eq!(found.current.to_bytes(), bob.current.to_bytes());
    let (mut found, read) = Session::from_header(&sealed, found.keystore).ok().unwrap();
    assert_eq!(found.get_receiving_key(&read).unwrap().0, sent.0);
}

#[test]
fn from_header_tells_a_bad_header_from_a_missing_session() {
    let (_alice, mut bob) = pair([4; 32]);
    let unknown = vec![0u8; 72];
    let mut store = MemoryKeystore::new(gen_identity());
    assert_eq!(
        Session::from_header(&unknown, store).err(),
        Some(DoubleRatchetError::SessionNotFound)
    );
    store = MemoryKeystore::new(gen_identity());
    store.set_header_key(&HashKey([0; 32]), &HeaderKey([1; 32]));
    assert_eq!(
        Session::from_header(&unknown, store).err(),
        Some(DoubleRatchetError::SessionNotFound)
    );
    bob.keystore
        .set_header_key(&HashKey([0; 32]), &HeaderKey([1; 32]));
    assert_eq!(
        Session::from_header(&[0u8; 71], bob.keystore).err(),
        Some(DoubleRatchetError::InvalidHeader)
    );
}

#[test]
fn a_committed_session_is_found_by_its_ratchet_key() {
    let (mut alice, mut bob) = pair([4; 32]);
    let digest = |key: PublicKey| HashKey(sha2::Sha256::digest(key.as_bytes()).into());
    let started = digest(bob.public_key());
    let found = bob.keystore.get_data_by_hash(&started).unwrap();
    assert_eq!(found.to_bytes(), bob.current.to_bytes());

    let (_, header, _) = alice.get_sending_key().unwrap();
    bob.get_receiving_key(&header).unwrap();
    bob.commit();
    let turned = digest(bob.public_key());
    assert_ne!(started, turned);
    for hash_key in [started, turned] {
        let found = bob.keystore.get_data_by_hash(&hash_key).unwrap();
        assert_eq!(found.to_bytes(), bob.current.to_bytes());
    }
}

#[test]
fn a_turn_stores_the_header_key_that_was_next() {
    let bob_identity = gen_identity();
    let alice_identity = gen_identity();
    let mut bob_init = init(alice_identity, [3; 32], None);
    bob_init.next_header_key = Some(HeaderKey([1; 32]));
    let mut bob = Session::new(&bob_init, MemoryKeystore::new(bob_identity));
    let alice_init = init(bob_identity, [3; 32], Some(bob.public_key()));
    let mut alice = Session::new(&alice_init, MemoryKeystore::new(alice_identity));
    let (_, header, _) = alice.get_sending_key().unwrap();
    bob.get_receiving_key(&header).unwrap();
    let hash_key = bob.hash_key().unwrap();
    assert_eq!(
        bob.keystore.get_header_key(&hash_key),
        Some(HeaderKey([1; 32]))
    );
}

#[test]
fn a_new_key_without_a_message_turns_the_ratchet_and_fails() {
    let (_alice, mut bob) = pair([4; 32]);
    let before = bob.public_key();
    let header = SessionHeader {
        count: 0,
        previous: 0,
        public_key: random_public_key(),
    };
    assert_eq!(
        bob.get_receiving_key(&header).err(),
        Some(DoubleRatchetError::ChainNotFound)
    );
    assert_ne!(bob.public_key(), before);
    assert!(bob.current.sending_chain_key.is_some());
}

#[test]
fn a_skipped_key_goes_before_the_next_message() {
    let (mut alice, mut bob) = pair([4; 32]);
    let (first, _, _) = alice.get_sending_key().unwrap();
    let (_, second_header, _) = alice.get_sending_key().unwrap();
    let (_, third_header, _) = alice.get_sending_key().unwrap();
    bob.get_receiving_key(&second_header).unwrap();
    assert_eq!(bob.get_receiving_key(&third_header).unwrap().0, first.0);
}

#[test]
fn a_session_starts_from_its_stored_state() {
    let (mut alice, _bob) = pair([4; 32]);
    alice.get_sending_key().unwrap();
    let mut again = Session::from(&alice.current, MemoryKeystore::new(gen_identity()));
    assert_eq!(again.current.to_bytes(), alice.current.to_bytes());
    assert!(!again.rollback());
    let (sent, _, _) = alice.get_sending_key().unwrap();
    assert_eq!(again.get_sending_key().unwrap().0.0, sent.0);
}

#[test]
fn messages_that_cross_a_turn_are_read() {
    let (mut alice, mut bob) = pair([4; 32]);
    let (_, opening, _) = alice.get_sending_key().unwrap();
    bob.get_receiving_key(&opening).unwrap();

    let from_alice: Vec<_> = (0..3)
        .map(|_| alice.get_sending_key().unwrap())
        .collect();
    let from_bob: Vec<_> = (0..3).map(|_| bob.get_sending_key().unwrap()).collect();
    for (sent, header, _) in &from_bob {
        assert_eq!(alice.get_receiving_key(header).unwrap().0, sent.0);
    }
    let (later, later_header, _) = alice.get_sending_key().unwrap();
    for (sent, header, _) in &from_alice {
        assert_eq!(bob.get_receiving_key(header).unwrap().0, sent.0);
    }
    assert_eq!(later_header.previous, 4);
    assert_eq!(bob.get_receiving_key(&later_header).unwrap().0, later.0);
    assert!(!bob.has_skipped_keys());
}

#[test]
fn a_header_is_found_by_the_key_that_the_store_has() {
    let header = SessionHeader {
        count: 3,
        previous: 2,
        public_key: PublicKey([9; 32]),
    };
    let mut bytes = vec![0u8; 32];
    bytes.extend_from_slice(&header.to_slice());
    let key = Some(HeaderKey([1; 32]));
    let found = SessionHeader::find(&bytes, &key).unwrap();
    assert_eq!(found.to_slice(), header.to_slice());
    assert_eq!(
        SessionHeader::find(&bytes, &None).err(),
        Some(DoubleRatchetError::SessionNotFound)
    );
    assert_eq!(
        SessionHeader::find(&bytes[..71], &key).err(),
        Some(DoubleRatchetError::InvalidHeader)
    );
    assert_eq!(
        SessionHeader::find(&bytes[..71], &None).err(),
        Some(DoubleRatchetError::SessionNotFound)
    );
}

#[test]
fn messages_are_read_whatever_the_header_keys_are() {
    let bob_identity = gen_identity();
    let alice_identity = gen_identity();
    let mut bob_init = init(alice_identity, [3; 32], None);
    bob_init.next_header_key = Some(HeaderKey([5; 32]));
    let mut bob = Session::new(&bob_init, MemoryKeystore::new(bob_identity));
    let mut alice_init = init(bob_identity, [3; 32], Some(bob.public_key()));
    alice_init.header_key = Some(HeaderKey([6; 32]));
    let mut alice = Session::new(&alice_init, MemoryKeystore::new(alice_identity));
    for _ in 0..2 {
        let (sent, header, _) = alice.get_sending_key().unwrap();
        assert_eq!(bob.get_receiving_key(&header).unwrap().0, sent.0);
        let (sent, header, _) = bob.get_sending_key().unwrap();
        assert_eq!(alice.get_receiving_key(&header).unwrap().0, sent.0);
    }
}
