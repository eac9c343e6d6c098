//! What a key agreement hands to the session that starts from it.
use crate::bytes::zeros;
use crate::header::HeaderKey;
use crate::identity::UserId;
use crate::keys::{PublicKey, RootKey, StaticSecret, VerifyingKey};
use crate::primitives::wipe;
use crate::store::seen;
use vstd::prelude::*;

verus! {

pub struct SessionInit {
    /// The user at the other end.
    pub user_id: UserId,
    /// The identity of the other end.
    pub remote_identity: VerifyingKey,
    /// The ratchet key of the other end, where it is known already.
    pub remote_key: Option<PublicKey>,
    /// The secret of this end's ratchet key, where the other end knows the key
    /// already.
    pub secret_key: Option<StaticSecret>,
    pub root_key: RootKey,
    /// The first header key of the sending direction.
    pub header_key: Option<HeaderKey>,
    /// The first header key of the receiving direction.
    pub next_header_key: Option<HeaderKey>,
}

/// A [`SessionInit`] whose keys are byte strings.
#[verifier::ext_equal]
pub struct InitState {
    pub user_id: Seq<u8>,
    pub remote_identity: Seq<u8>,
    pub remote_key: Option<Seq<u8>>,
    pub secret_key: Option<Seq<u8>>,
    pub root_key: Seq<u8>,
    pub header_key: Option<Seq<u8>>,
    pub next_header_key: Option<Seq<u8>>,
}

impl View for SessionInit {
    type V = InitState;

    open spec fn view(&self) -> InitState {
        InitState {
            user_id: self.user_id@,
            remote_identity: self.remote_identity@,
            remote_key: seen(self.remote_key),
            secret_key: seen(self.secret_key),
            root_key: self.root_key@,
            header_key: seen(self.header_key),
            next_header_key: seen(self.next_header_key),
        }
    }
}

impl Clone for SessionInit {
    fn clone(&self) -> (r: Self)
        ensures
            r == *self,
    {
        SessionInit {
            user_id: self.user_id.clone(),
            remote_identity: self.remote_identity,
            remote_key: self.remote_key,
            secret_key: match &self.secret_key {
                Some(secret) => Some(secret.clone()),
                None => None,
            },
            root_key: self.root_key.clone(),
            header_key: match &self.header_key {
                Some(key) => Some(key.clone()),
                None => None,
            },
            next_header_key: match &self.next_header_key {
                Some(key) => Some(key.clone()),
                None => None,
            },
        }
    }
}

impl Drop for SessionInit {
    fn drop(&mut self)
        ensures
            final(self)@ == (InitState {
                remote_key: match old(self)@.remote_key {
                    Some(_) => Some(zeros(32)),
                    None => None,
                },
                ..old(self)@
            }),
        opens_invariants none
        no_unwind
    {
        if let Some(key) = &mut self.remote_key {
            wipe(&mut key.0);
        }
    }
}

/// The view of what a session starts from holds each of its fields.
pub proof fn law_init_view(init: SessionInit)
    ensures
        init@.user_id == init.user_id.0@,
        init@.remote_identity == init.remote_identity@,
        init@.root_key == init.root_key.0@,
        init.remote_key matches Some(key) ==> init@.remote_key == Some(key.0@),
        init.remote_key is None ==> init@.remote_key is None,
        init.secret_key matches Some(key) ==> init@.secret_key == Some(key.0@),
        init.secret_key is None ==> init@.secret_key is None,
        init.header_key matches Some(key) ==> init@.header_key == Some(key.0@),
        init.header_key is None ==> init@.header_key is None,
        init.next_header_key matches Some(key) ==> init@.next_header_key == Some(key.0@),
        init.next_header_key is None ==> init@.next_header_key is None,
{
}

} // verus!
