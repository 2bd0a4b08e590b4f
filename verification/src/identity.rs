//! The identity under which this node is known to its peers.

use vstd::prelude::*;

use crate::peer::PeerId;

verus! {

/// The peer that an encoded key pair stands for, as base-58 text; none if the
/// bytes are not an encoded key pair.
pub uninterp spec fn identity_peer(encoded: Seq<u8>) -> Option<Seq<char>>;

/// Wraps `libp2p::identity::Keypair::from_protobuf_encoding`, and reads the
/// peer of the key pair that comes out. The text of an error is not described.
#[verifier::external_body]
pub(crate) fn peer_of_encoded(encoded: &[u8]) -> (peer: Result<String, String>)
    ensures
        peer is Ok <==> identity_peer(encoded@) is Some,
        peer matches Ok(text) ==> identity_peer(encoded@) == Some(text@),
{
    libp2p::identity::Keypair::from_protobuf_encoding(encoded)
        .map(|key| key.public().to_peer_id().to_base58())
        .map_err(|err| err.to_string())
}

/// Wraps `libp2p::identity::Keypair::generate_ed25519` and
/// `to_protobuf_encoding`: a new Ed25519 key pair can always be encoded, and
/// what it is encoded to can be decoded again. Which key pair it is depends on
/// chance.
#[verifier::external_body]
pub(crate) fn generate_encoded() -> (encoded: Result<Vec<u8>, String>)
    ensures
        encoded is Ok,
        encoded matches Ok(bytes) ==> identity_peer(bytes@) is Some,
{
    libp2p::identity::Keypair::generate_ed25519()
        .to_protobuf_encoding()
        .map_err(|err| err.to_string())
}

/// An identity: a peer and its encoded key pair.
#[derive(Debug, Clone)]
pub struct Identity {
    pub peer: PeerId,
    pub encoded: Vec<u8>,
    /// Whether the identity was created now, and is to be written.
    pub is_new: bool,
}

/// The contents of an [`Identity`].
pub struct IdentityView {
    pub peer: Seq<char>,
    pub encoded: Seq<u8>,
    pub is_new: bool,
}

impl View for Identity {
    type V = IdentityView;

    open spec fn view(&self) -> IdentityView {
        IdentityView { peer: self.peer@, encoded: self.encoded@, is_new: self.is_new }
    }
}

impl IdentityView {
    /// The peer is that of the key pair.
    pub open spec fn wf(self) -> bool {
        identity_peer(self.encoded) == Some(self.peer)
    }
}

/// The identity that stored bytes give.
pub open spec fn reloaded(encoded: Seq<u8>) -> Option<IdentityView> {
    match identity_peer(encoded) {
        Some(peer) => Some(IdentityView { peer, encoded, is_new: false }),
        None => None,
    }
}

/// The identity with the given key pair, given what was found out of its peer.
pub fn identity_of(encoded: Vec<u8>, peer: Result<String, String>, is_new: bool) -> (identity:
    Result<Identity, String>)
    ensures
        peer matches Ok(text) ==> identity matches Ok(i) && i@ == (IdentityView {
            peer: text@,
            encoded: encoded@,
            is_new,
        }),
        peer matches Err(reason) ==> identity == Err::<Identity, String>(reason),
{
    match peer {
        Ok(text) => Ok(Identity { peer: PeerId::from_text(text), encoded, is_new }),
        Err(reason) => Err(reason),
    }
}

/// The identity of this node: the one that is stored, or a new one where none
/// is. A stored identity that cannot be decoded is an error.
pub fn load_or_create_identity(stored: Option<Vec<u8>>) -> (identity: Result<Identity, String>)
    ensures
        stored matches Some(bytes) ==> {
            &&& identity is Ok <==> reloaded(bytes@) is Some
            &&& identity matches Ok(i) ==> reloaded(bytes@) == Some(i@)
        },
        stored is None ==> {
            &&& identity matches Ok(i)
            &&& i@.is_new
            &&& i@.wf()
        },
{
    match stored {
        Some(encoded) => {
            let peer: Result<String, String> = peer_of_encoded(&encoded);
            identity_of(encoded, peer, false)
        },
        None => match generate_encoded() {
            Ok(encoded) => {
                let peer: Result<String, String> = peer_of_encoded(&encoded);
                identity_of(encoded, peer, true)
            },
            Err(reason) => Err(reason),
        },
    }
}

/// An identity that was written is read back as the same peer.
pub proof fn law_identity_is_reloaded(created: IdentityView)
    requires
        created.wf(),
    ensures
        reloaded(created.encoded) matches Some(again) && again.peer == created.peer
            && again.encoded == created.encoded && !again.is_new && again.wf(),
{
}

/// Stored bytes give an identity exactly if they are a key pair: its peer, the
/// bytes as they are, and nothing new.
pub proof fn law_stored_identity_is_its_key_pair(encoded: Seq<u8>, identity: Identity)
    ensures
        reloaded(encoded) is Some <==> identity_peer(encoded) is Some,
        reloaded(encoded) matches Some(stored) ==> {
            &&& Some(stored.peer) == identity_peer(encoded)
            &&& stored.encoded == encoded
            &&& !stored.is_new
        },
        identity@.peer == identity.peer@,
        identity@.encoded == identity.encoded@,
        identity@.is_new == identity.is_new,
{
}

} // verus!
