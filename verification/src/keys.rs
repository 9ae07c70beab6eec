//! The key store: obtains the service's key pair, decoding persisted key
//! material where it exists and generating (and handing back for persistence)
//! a fresh pair where it does not.

use vstd::prelude::*;
use crate::fhe::{
    check_client_key, client_key_model, deserialize_client_key, deserialize_server_key,
    generate_key_pair, key_identity, key_well_formed, message_bits, serialize_client_key,
    serialize_server_key, server_key_origin, stored_client_key_model, stored_key_well_formed,
    stored_server_key_model, under_key, SchemeParams,
};
use crate::ServiceError;

verus! {

/// A client key and the server key that belongs with it.
pub struct KeyPair {
    pub client: tfhe::integer::RadixClientKey,
    pub server: tfhe::integer::ServerKey,
}

/// The server key of the pair was derived from the pair's own client key —
/// the two are never mixed across generations.
pub open spec fn consistent_pair(kp: KeyPair) -> bool {
    server_key_origin(kp.server) == key_identity(kp.client)
}

/// What the caller found persisted at the two well-known locations: both
/// artifacts, or not both.
pub enum StoredKeys {
    Present(Vec<u8>, Vec<u8>),
    Absent,
}

/// Encoded key material to be persisted: the client key's bytes and the
/// server key's bytes, written together or not at all.
pub struct PersistPair {
    pub client_bytes: Vec<u8>,
    pub server_bytes: Vec<u8>,
}

/// Obtain the key pair. Where both persisted artifacts are present each is
/// decoded independently, and the decoded client key must be a well-formed
/// key of exactly the configured parameter set and block count; a decode
/// failure, or key material that is corrupt or was generated under other
/// parameters, is fatal for the call. Where either artifact is absent a fresh
/// pair is generated under the given parameters — which always succeeds —
/// and its encoded form is returned beside the pair, for the caller to
/// persist atomically. The decoded or fresh pair serves the rest of the
/// connection either way.
pub fn obtain_keys(stored: StoredKeys, params: SchemeParams, blocks: u32) -> (r: Result<
    (KeyPair, Option<PersistPair>),
    ServiceError,
>)
    requires
        blocks >= 1,
    ensures
        match stored {
            StoredKeys::Present(cb, sb) => {
                &&& (r is Ok <==> {
                    &&& (stored_client_key_model(cb@) matches Some(m) && m.1 == message_bits(
                        params,
                    ) && m.2 == blocks as nat)
                    &&& stored_key_well_formed(cb@)
                    &&& stored_server_key_model(sb@) is Some
                })
                &&& (r matches Ok((kp, persist)) ==> {
                    &&& persist is None
                    &&& key_well_formed(kp.client)
                    &&& stored_client_key_model(cb@) == Some(client_key_model(kp.client))
                    &&& stored_server_key_model(sb@) == Some(server_key_origin(kp.server))
                    &&& client_key_model(kp.client).1 == message_bits(params)
                    &&& client_key_model(kp.client).2 == blocks as nat
                })
                &&& (r matches Err(e) ==> e == ServiceError::KeyIo)
            },
            StoredKeys::Absent => {
                &&& r is Ok
                &&& (r matches Ok((kp, persist)) ==> {
                    &&& consistent_pair(kp)
                    &&& key_well_formed(kp.client)
                    &&& client_key_model(kp.client).1 == message_bits(params)
                    &&& client_key_model(kp.client).2 == blocks as nat
                    &&& (persist matches Some(p) && stored_client_key_model(p.client_bytes@)
                        == Some(client_key_model(kp.client)) && stored_server_key_model(
                        p.server_bytes@,
                    ) == Some(key_identity(kp.client)))
                })
            },
        },
{
    match stored {
        StoredKeys::Present(cb, sb) => {
            let client = match deserialize_client_key(&cb) {
                Ok(k) => k,
                Err(e) => {
                    return Err(e);
                },
            };
            let server = match deserialize_server_key(&sb) {
                Ok(k) => k,
                Err(e) => {
                    return Err(e);
                },
            };
            if !check_client_key(&client, params, blocks) {
                return Err(ServiceError::KeyIo);
            }
            Ok((KeyPair { client, server }, None))
        },
        StoredKeys::Absent => {
            let (client, server) = generate_key_pair(params, blocks);
            let client_bytes = serialize_client_key(&client);
            let server_bytes = serialize_server_key(&server);
            Ok((KeyPair { client, server }, Some(PersistPair { client_bytes, server_bytes })))
        },
    }
}

/// Key persistence: a client key decoded from the bytes that an earlier
/// client key was encoded into has the earlier key's identity, so every
/// ciphertext produced under the earlier key decrypts under the decoded key
/// as well — however many times the store is read back.
pub proof fn lemma_key_persistence(
    saved: Seq<u8>,
    k1: tfhe::integer::RadixClientKey,
    k2: tfhe::integer::RadixClientKey,
    ct: tfhe::integer::RadixCiphertext,
)
    requires
        stored_client_key_model(saved) == Some(client_key_model(k1)),
        stored_client_key_model(saved) == Some(client_key_model(k2)),
        under_key(ct, k1),
    ensures
        under_key(ct, k2),
{
    assert(client_key_model(k1) == client_key_model(k2));
}

} // verus!
