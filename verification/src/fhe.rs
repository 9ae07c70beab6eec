//! The external homomorphic-encryption capability, behind trusted wrappers.
//! Keys and ciphertexts are opaque: the library never inspects them. Each is
//! modeled by uninterpreted spec functions — the identity of the key material
//! and the message a ciphertext carries — and the wrappers' contracts relate
//! those models. Every claim about the cryptography itself is assumed here
//! and nowhere else.

use vstd::prelude::*;
use vstd::arithmetic::power2::pow2;
use tfhe::conformance::ParameterSetConformant;
use tfhe::integer::parameters::RadixCiphertextConformanceParams;
use tfhe::shortint::parameters::{PARAM_MESSAGE_1_CARRY_1_KS_PBS, PARAM_MESSAGE_2_CARRY_2};
use crate::ServiceError;

verus! {

#[verifier::external_type_specification]
#[verifier::external_body]
pub struct ExRadixClientKey(tfhe::integer::RadixClientKey);

#[verifier::external_type_specification]
#[verifier::external_body]
pub struct ExIntegerServerKey(tfhe::integer::ServerKey);

#[verifier::external_type_specification]
#[verifier::external_body]
pub struct ExShortintCiphertext(tfhe::shortint::Ciphertext);

#[verifier::external_type_specification]
#[verifier::external_body]
#[verifier::reject_recursive_types(Block)]
pub struct ExBaseRadixCiphertext<Block>(tfhe::integer::ciphertext::BaseRadixCiphertext<Block>);

/// The scheme configuration a key pair is generated under: the parameter set,
/// identified by the message width of one radix block, together with the
/// block count, fixes the plaintext modulus and the ciphertext size.
#[derive(Debug, Clone, Copy, PartialEq, Eq, Structural)]
pub enum SchemeParams {
    MessageCarry1,
    MessageCarry2,
}

/// Message bits carried by one radix block under the given parameter set.
pub open spec fn message_bits(p: SchemeParams) -> nat {
    match p {
        SchemeParams::MessageCarry1 => 1,
        SchemeParams::MessageCarry2 => 2,
    }
}

/// The abstract model of client key material: its identity — two client keys
/// with equal identity are the same material and decrypt each other's
/// ciphertexts — with the per-block message width and the block count it was
/// generated under.
pub uninterp spec fn client_key_model(key: tfhe::integer::RadixClientKey) -> (nat, nat, nat);

/// The identity of a piece of client key material.
pub open spec fn key_identity(key: tfhe::integer::RadixClientKey) -> nat {
    client_key_model(key).0
}

/// The plaintext modulus of a client key: every message it encrypts is
/// reduced modulo this.
pub open spec fn key_modulus(key: tfhe::integer::RadixClientKey) -> nat {
    pow2(client_key_model(key).1 * client_key_model(key).2)
}

/// The abstract model of server key material: the identity of the client key
/// it was derived from.
pub uninterp spec fn server_key_origin(key: tfhe::integer::ServerKey) -> nat;

/// The abstract model of one in-memory ciphertext: the identity of the client
/// key it was produced under, and the message it carries (already reduced
/// modulo that key's plaintext modulus).
pub uninterp spec fn ciphertext_model(ct: tfhe::integer::RadixCiphertext) -> (nat, nat);

/// Whether client key material is well formed: its parameter set carries the
/// canonical parameters of one of the supported schemes, and its secret key
/// material has the dimensions those parameters fix — as every freshly
/// generated key does. Encrypting under such a key cannot fault, and a
/// conformant ciphertext decrypts under it without fault; neither holds of an
/// arbitrary decoded key value.
pub uninterp spec fn key_well_formed(key: tfhe::integer::RadixClientKey) -> bool;

/// Whether a ciphertext has the shape that the given key's parameter set and
/// block count fix: the check a blob must pass before it may be decrypted
/// under that key.
pub uninterp spec fn ciphertext_conformant(
    ct: tfhe::integer::RadixCiphertext,
    key: tfhe::integer::RadixClientKey,
) -> bool;

/// The ciphertext was produced under this key.
pub open spec fn under_key(
    ct: tfhe::integer::RadixCiphertext,
    key: tfhe::integer::RadixClientKey,
) -> bool {
    ciphertext_model(ct).0 == key_identity(key)
}

/// The message a ciphertext yields when decrypted under its own key, folded
/// into the 64 bits of the decryption result.
pub open spec fn decrypted_value(ct: tfhe::integer::RadixCiphertext) -> nat {
    ciphertext_model(ct).1 % 0x1_0000_0000_0000_0000
}

/// The ciphertext encrypts `v` under `key`.
pub open spec fn encrypts(
    ct: tfhe::integer::RadixCiphertext,
    key: tfhe::integer::RadixClientKey,
    v: u64,
) -> bool {
    under_key(ct, key) && ciphertext_model(ct).1 == v as nat % key_modulus(key)
}

/// What deserializing a ciphertext blob yields on given bytes: the model of
/// the ciphertext the bytes decode to, or nothing where the bytes are not a
/// well-formed blob.
pub uninterp spec fn blob_model(bytes: Seq<u8>) -> Option<(nat, nat)>;

/// Whether the ciphertext that the bytes decode to is conformant with the
/// given key: a function of the bytes and the key, carried across the
/// serialization round trip.
pub uninterp spec fn blob_conformant(
    bytes: Seq<u8>,
    key: tfhe::integer::RadixClientKey,
) -> bool;

/// What decrypting the ciphertext that the bytes decode to under the given
/// key returns: decryption is deterministic, so this is a function of the
/// bytes and the key.
pub uninterp spec fn blob_decrypt_result(
    bytes: Seq<u8>,
    key: tfhe::integer::RadixClientKey,
) -> u64;

/// What decrypting a ciphertext under a key returns, whatever key the
/// ciphertext was produced under: decryption never draws randomness.
pub uninterp spec fn decrypt_result(
    key: tfhe::integer::RadixClientKey,
    ct: tfhe::integer::RadixCiphertext,
) -> u64;

/// The one byte length that every ciphertext of the given key's making
/// serializes to: under fixed scheme parameters all blobs of a batch share
/// it.
pub uninterp spec fn blob_len_of(key_id: nat) -> nat;

/// What deserializing client-key bytes yields: the model of the client key
/// the bytes decode to, or nothing where the bytes are not a well-formed
/// client key.
pub uninterp spec fn stored_client_key_model(bytes: Seq<u8>) -> Option<(nat, nat, nat)>;

/// Whether client-key bytes decode to well-formed key material: a function of
/// the bytes, carried across the serialization round trip.
pub uninterp spec fn stored_key_well_formed(bytes: Seq<u8>) -> bool;

/// What deserializing server-key bytes yields: the origin of the server key
/// the bytes decode to, or nothing where the bytes are not a well-formed
/// server key.
pub uninterp spec fn stored_server_key_model(bytes: Seq<u8>) -> Option<nat>;

/// Relies on tfhe's gen_keys_radix: it returns a fresh radix client key for
/// the requested parameter set and block count, and the server key derived
/// from that same fresh client key.
#[verifier::external_body]
pub(crate) fn generate_key_pair(params: SchemeParams, blocks: u32) -> (r: (
    tfhe::integer::RadixClientKey,
    tfhe::integer::ServerKey,
))
    requires
        blocks >= 1,
    ensures
        key_well_formed(r.0),
        client_key_model(r.0).1 == message_bits(params),
        client_key_model(r.0).2 == blocks as nat,
        server_key_origin(r.1) == key_identity(r.0),
{
    let p = match params {
        SchemeParams::MessageCarry1 => PARAM_MESSAGE_1_CARRY_1_KS_PBS,
        SchemeParams::MessageCarry2 => PARAM_MESSAGE_2_CARRY_2,
    };
    tfhe::integer::gen_keys_radix(p, blocks as usize)
}

/// Relies on RadixClientKey::encrypt: on a well-formed key the message,
/// reduced modulo the key's plaintext modulus, is encrypted under this key,
/// and the fresh ciphertext carries the key's own sizes, degree and noise
/// level, so it is conformant with that key. A malformed key value (one no
/// generation produced) can make the encrypt path fault, so such keys are
/// excluded.
#[verifier::external_body]
pub(crate) fn encrypt_u64(key: &tfhe::integer::RadixClientKey, message: u64) -> (ct:
    tfhe::integer::RadixCiphertext)
    requires
        key_well_formed(*key),
    ensures
        encrypts(ct, *key, message),
        ciphertext_conformant(ct, *key),
{
    key.encrypt(message)
}

/// Relies on RadixClientKey::decrypt: under the key a ciphertext was produced
/// with, it returns the carried message, folded into 64 bits. Decryption
/// asserts that the ciphertext's dimensions match the key's, so only
/// conformant ciphertexts — as `check_blob_conformant` decides — are
/// admitted.
#[verifier::external_body]
pub(crate) fn decrypt_u64(
    key: &tfhe::integer::RadixClientKey,
    ct: &tfhe::integer::RadixCiphertext,
) -> (r: u64)
    requires
        key_well_formed(*key),
        ciphertext_conformant(*ct, *key),
    ensures
        r == decrypt_result(*key, *ct),
        under_key(*ct, *key) ==> r as nat == decrypted_value(*ct),
{
    key.decrypt::<u64>(ct)
}

/// Relies on RadixClientKey::num_blocks, on ShortintParameterSet's total
/// accessor pbs_parameters (reached through the key's public parameter
/// field), on the equality tfhe derives for PBSParameters, and on the
/// destructuring accessors into_raw_parts and into_container: together they
/// decide that the key was built over exactly the canonical parameter set
/// named by `params`, with `blocks` blocks, and that both secret-key
/// containers have the lengths that parameter set fixes. Every step is a
/// field read, so the check is total even on key values bincode decoded from
/// corrupt bytes. tfhe offers no single key-conformance function, so this
/// check is composed here.
#[verifier::external_body]
pub(crate) fn check_client_key(
    key: &tfhe::integer::RadixClientKey,
    params: SchemeParams,
    blocks: u32,
) -> (b: bool)
    ensures
        b == (key_well_formed(*key) && client_key_model(*key).1 == message_bits(params)
            && client_key_model(*key).2 == blocks as nat),
{
    let expected = match params {
        SchemeParams::MessageCarry1 => PARAM_MESSAGE_1_CARRY_1_KS_PBS,
        SchemeParams::MessageCarry2 => PARAM_MESSAGE_2_CARRY_2,
    };
    let integer_key: &tfhe::integer::ClientKey = key.as_ref();
    let shortint_key: &tfhe::shortint::ClientKey = integer_key.as_ref();
    let (glwe_sk, lwe_sk, _) = shortint_key.clone().into_raw_parts();
    key.num_blocks() == blocks as usize
        && shortint_key.parameters.pbs_parameters() == Some(expected.into())
        && glwe_sk.into_container().len()
            == expected.glwe_dimension.0 * expected.polynomial_size.0
        && lwe_sk.into_container().len() == expected.lwe_dimension.0
}

/// Relies on RadixCiphertext::is_conformant, checked against the conformance
/// parameters of the key's own parameter set and block count;
/// `ciphertext_conformant` names its outcome on the given values.
#[verifier::external_body]
pub(crate) fn check_blob_conformant(
    key: &tfhe::integer::RadixClientKey,
    ct: &tfhe::integer::RadixCiphertext,
) -> (b: bool)
    requires
        key_well_formed(*key),
    ensures
        b == ciphertext_conformant(*ct, *key),
{
    let conf = RadixCiphertextConformanceParams::from_pbs_parameters(
        key.parameters(),
        key.num_blocks(),
    );
    ct.is_conformant(&conf)
}

/// Relies on bincode::serialize of a radix ciphertext: for these plain
/// serde-derived types serialization into a growable buffer cannot fail, is
/// deterministic, and round-trips — the bytes decode back to a ciphertext of
/// the same model, conformant with the same keys. Every ciphertext of one
/// key's making serializes to that key's one blob length.
#[verifier::external_body]
pub(crate) fn serialize_blob(ct: &tfhe::integer::RadixCiphertext) -> (b: Vec<u8>)
    ensures
        blob_model(b@) == Some(ciphertext_model(*ct)),
        b@.len() == blob_len_of(ciphertext_model(*ct).0),
        forall|k: tfhe::integer::RadixClientKey|
            #[trigger] ciphertext_conformant(*ct, k) ==> blob_conformant(b@, k),
{
    bincode::serialize(ct).unwrap()
}

/// Relies on bincode::deserialize into a radix ciphertext; `blob_model`,
/// `blob_conformant` and `blob_decrypt_result` name, over the bytes, the
/// model of the decoded ciphertext, which keys it is conformant with, and
/// what decrypting it returns.
#[verifier::external_body]
pub(crate) fn deserialize_blob(bytes: &Vec<u8>) -> (r: Result<
    tfhe::integer::RadixCiphertext,
    ServiceError,
>)
    ensures
        r is Ok <==> blob_model(bytes@) is Some,
        r matches Ok(ct) ==> blob_model(bytes@) == Some(ciphertext_model(ct)),
        r matches Ok(ct) ==> forall|k: tfhe::integer::RadixClientKey|
            #[trigger] blob_conformant(bytes@, k) ==> ciphertext_conformant(ct, k),
        r matches Ok(ct) ==> forall|k: tfhe::integer::RadixClientKey|
            #[trigger] decrypt_result(k, ct) == blob_decrypt_result(bytes@, k),
        r matches Err(e) ==> e == ServiceError::Serialization,
{
    match bincode::deserialize::<tfhe::integer::RadixCiphertext>(bytes.as_slice()) {
        Ok(ct) => Ok(ct),
        Err(_) => Err(ServiceError::Serialization),
    }
}

/// Relies on bincode::serialize of a radix client key: for these plain
/// serde-derived types serialization into a growable buffer cannot fail, is
/// deterministic, and round-trips, so the bytes decode back to the same key
/// material, well formed exactly where the key itself is.
#[verifier::external_body]
pub(crate) fn serialize_client_key(key: &tfhe::integer::RadixClientKey) -> (b: Vec<u8>)
    ensures
        stored_client_key_model(b@) == Some(client_key_model(*key)),
        stored_key_well_formed(b@) == key_well_formed(*key),
{
    bincode::serialize(key).unwrap()
}

/// Relies on bincode::deserialize into a radix client key;
/// `stored_client_key_model` and `stored_key_well_formed` name, over the
/// bytes, the decoded key's model and well-formedness.
#[verifier::external_body]
pub(crate) fn deserialize_client_key(bytes: &Vec<u8>) -> (r: Result<
    tfhe::integer::RadixClientKey,
    ServiceError,
>)
    ensures
        r is Ok <==> stored_client_key_model(bytes@) is Some,
        r matches Ok(k) ==> stored_client_key_model(bytes@) == Some(client_key_model(k)),
        r matches Ok(k) ==> key_well_formed(k) == stored_key_well_formed(bytes@),
        r matches Err(e) ==> e == ServiceError::KeyIo,
{
    match bincode::deserialize::<tfhe::integer::RadixClientKey>(bytes.as_slice()) {
        Ok(k) => Ok(k),
        Err(_) => Err(ServiceError::KeyIo),
    }
}

/// Relies on bincode::serialize of an integer server key: for these plain
/// serde-derived types serialization into a growable buffer cannot fail, is
/// deterministic, and round-trips, so the bytes decode back to a server key
/// of the same origin.
#[verifier::external_body]
pub(crate) fn serialize_server_key(key: &tfhe::integer::ServerKey) -> (b: Vec<u8>)
    ensures
        stored_server_key_model(b@) == Some(server_key_origin(*key)),
{
    bincode::serialize(key).unwrap()
}

/// Relies on bincode::deserialize into an integer server key;
/// `stored_server_key_model` names its outcome on the given bytes.
#[verifier::external_body]
pub(crate) fn deserialize_server_key(bytes: &Vec<u8>) -> (r: Result<
    tfhe::integer::ServerKey,
    ServiceError,
>)
    ensures
        r is Ok <==> stored_server_key_model(bytes@) is Some,
        r matches Ok(k) ==> stored_server_key_model(bytes@) == Some(server_key_origin(k)),
        r matches Err(e) ==> e == ServiceError::KeyIo,
{
    match bincode::deserialize::<tfhe::integer::ServerKey>(bytes.as_slice()) {
        Ok(k) => Ok(k),
        Err(_) => Err(ServiceError::KeyIo),
    }
}

/// Round trip: a ciphertext produced by encrypting `v` under a key decrypts,
/// under that same key, to `v` reduced modulo the key's plaintext modulus —
/// and so to `v` itself whenever `v` lies within the plaintext range.
pub proof fn lemma_encrypt_decrypt_round_trip(
    key: tfhe::integer::RadixClientKey,
    v: u64,
    ct: tfhe::integer::RadixCiphertext,
)
    requires
        encrypts(ct, key, v),
    ensures
        under_key(ct, key),
        decrypted_value(ct) == v as nat % key_modulus(key),
        v < key_modulus(key) ==> decrypted_value(ct) == v,
{
    let m = key_modulus(key);
    vstd::arithmetic::power2::lemma_pow2_pos(client_key_model(key).1 * client_key_model(key).2);
    vstd::arithmetic::div_mod::lemma_mod_decreases(v as nat, m);
    vstd::arithmetic::div_mod::lemma_small_mod(
        (v as nat % m),
        0x1_0000_0000_0000_0000,
    );
    if v < m {
        vstd::arithmetic::div_mod::lemma_small_mod(v as nat, m);
    }
}

} // verus!
