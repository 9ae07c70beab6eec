//! The per-connection work between the reads and the writes: serve one
//! encrypt request or one decrypt request against an obtained client key.

use vstd::prelude::*;
use crate::bytes::{decimal_line, u64_widened_of_i32, widen_i32_to_u64};
use crate::fhe::{
    blob_conformant, blob_decrypt_result, blob_len_of, blob_model, check_blob_conformant,
    decrypt_u64, deserialize_blob, encrypt_u64, key_identity, key_modulus, key_well_formed,
    serialize_blob,
};
use crate::wire::{build_encrypt_response, field_at, lemma_frame_round_trip, parse_fields, split_response};
use crate::{ServiceError, FIELD_COUNT};

verus! {

/// The message that the i-th field of an encrypt payload is encrypted as
/// under `key`: the signed field widened to 64 bits, then reduced modulo the
/// key's plaintext modulus.
pub open spec fn field_message(
    payload: Seq<u8>,
    i: int,
    key: tfhe::integer::RadixClientKey,
) -> nat {
    u64_widened_of_i32(field_at(payload, i) as i32) % key_modulus(key)
}

/// Serve one encrypt request: decode the fixed plaintext record, encrypt each
/// field under the client key, and frame the resulting blobs as one response
/// batch behind their shared length — which never fails, since blobs of one
/// key's making share one length. The response splits back into `FIELD_COUNT`
/// blobs, each carrying the matching field's message under this key and
/// conformant with it.
pub fn run_encrypt(key: &tfhe::integer::RadixClientKey, payload: &Vec<u8>) -> (r: Result<Vec<u8>, ServiceError>)
    requires
        key_well_formed(*key),
        payload@.len() == 4 * FIELD_COUNT,
    ensures
        r is Ok,
        r matches Ok(out) ==> {
            let bs = split_response(out@, FIELD_COUNT as nat);
            &&& bs is Some
            &&& bs.unwrap().len() == FIELD_COUNT
            &&& forall|i: int|
                0 <= i < FIELD_COUNT ==> blob_model(#[trigger] bs.unwrap()[i]) == Some(
                    (key_identity(*key), field_message(payload@, i, *key)),
                ) && blob_conformant(bs.unwrap()[i], *key)
        },
{
    let fields = parse_fields(payload);
    let mut blobs: Vec<Vec<u8>> = Vec::new();
    let mut i: usize = 0;
    while i < FIELD_COUNT
        invariant
            key_well_formed(*key),
            i <= FIELD_COUNT,
            fields@.len() == FIELD_COUNT,
            payload@.len() == 4 * FIELD_COUNT,
            forall|k: int| 0 <= k < FIELD_COUNT ==> fields@[k] as int == field_at(payload@, k),
            blobs@.len() == i,
            forall|k: int|
                0 <= k < i ==> blob_model(#[trigger] blobs@[k]@) == Some(
                    (key_identity(*key), field_message(payload@, k, *key)),
                ) && blob_conformant(blobs@[k]@, *key) && blobs@[k]@.len() == blob_len_of(
                    key_identity(*key),
                ),
        decreases FIELD_COUNT - i,
    {
        let message = widen_i32_to_u64(fields[i]);
        let ct = encrypt_u64(key, message);
        let blob = serialize_blob(&ct);
        blobs.push(blob);
        proof {
            assert(fields@[i as int] as int == field_at(payload@, i as int));
            assert(blobs@[i as int]@ == blob@);
        }
        i = i + 1;
    }
    let shared_len: usize = blobs[0].len();
    proof {
        crate::wire::lemma_nested_view(blobs);
        assert(crate::wire::uniform_len(blobs.deep_view(), blobs@[0]@.len()));
    }
    let out = match build_encrypt_response(&blobs) {
        Ok(o) => o,
        Err(e) => {
            proof {
                assert(false);
            }
            return Err(e);
        },
    };
    proof {
        let bsv = blobs.deep_view();
        assert(blobs@[0]@.len() == shared_len as nat);
        lemma_frame_round_trip(bsv, shared_len as u64);
        assert(split_response(out@, FIELD_COUNT as nat) == Some(bsv));
        assert(forall|k: int| 0 <= k < FIELD_COUNT ==> #[trigger] bsv[k] == blobs@[k]@);
    }
    Ok(out)
}

/// Serve one decrypt request: decode the single ciphertext blob, reject it
/// unless it has the shape the key's parameter set fixes, decrypt it under
/// the client key, and format the result as a decimal line. Every blob that
/// decodes to a conformant ciphertext — every blob this service produced
/// under this key among them — is served; where the blob was produced under
/// this very key, the line shows the message the blob carries.
pub fn run_decrypt(key: &tfhe::integer::RadixClientKey, blob: &Vec<u8>) -> (r: Result<Vec<u8>, ServiceError>)
    requires
        key_well_formed(*key),
    ensures
        blob_model(blob@) is None ==> r is Err,
        blob_model(blob@) is Some && blob_conformant(blob@, *key) ==> r is Ok,
        r matches Ok(out) ==> (blob_model(blob@) matches Some((kid, v)) && out@ == decimal_line(
            blob_decrypt_result(blob@, *key) as nat,
        ) && (kid == key_identity(*key) ==> out@ == decimal_line(
            v % 0x1_0000_0000_0000_0000,
        ))),
        r matches Err(e) ==> e == ServiceError::Serialization,
{
    let ct = match deserialize_blob(blob) {
        Ok(ct) => ct,
        Err(e) => {
            return Err(e);
        },
    };
    if !check_blob_conformant(key, &ct) {
        return Err(ServiceError::Serialization);
    }
    let v = decrypt_u64(key, &ct);
    proof {
        assert(crate::fhe::decrypt_result(*key, ct) == blob_decrypt_result(blob@, *key));
    }
    Ok(crate::bytes::format_decimal_line(v))
}

} // verus!
