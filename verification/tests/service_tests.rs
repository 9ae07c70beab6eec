use fhe_service::bytes::u64_from_be_bytes;
use fhe_service::handler::{run_decrypt, run_encrypt};
use fhe_service::keys::{obtain_keys, StoredKeys};
use fhe_service::fhe::SchemeParams;
use fhe_service::wire::split_encrypt_response;
use fhe_service::FIELD_COUNT;

// Eight one-bit blocks: an 8-bit plaintext modulus, wide enough for every
// field value used below, while key generation stays quick.
const PARAMS: SchemeParams = SchemeParams::MessageCarry1;
const BLOCKS: u32 = 8;

fn payload_of(fields: [i32; 6]) -> Vec<u8> {
    let mut payload = Vec::new();
    for x in fields {
        payload.extend_from_slice(&fhe_service::bytes::u32_to_le_bytes(x as u32));
    }
    payload
}

#[test]
fn fresh_store_serves_encrypt_and_decrypt() {
    // A fresh data directory: no persisted material.
    let (pair, persist) = obtain_keys(StoredKeys::Absent, PARAMS, BLOCKS).unwrap();
    let persist = persist.expect("a fresh pair must come with material to persist");

    // Encrypt the six fields; the response is one shared length followed by
    // six blobs of exactly that length.
    let out = run_encrypt(&pair.client, &payload_of([10, 20, 30, 40, 50, 60])).unwrap();
    let shared_len = u64_from_be_bytes(&out) as usize;
    assert_eq!(out.len(), 8 + FIELD_COUNT * shared_len);
    let blobs = split_encrypt_response(&out, FIELD_COUNT).unwrap();
    assert_eq!(blobs.len(), FIELD_COUNT);
    for blob in &blobs {
        assert_eq!(blob.len(), shared_len);
    }

    // Each blob decrypts, under the same key, to its own field.
    assert_eq!(run_decrypt(&pair.client, &blobs[0]).unwrap(), b"10\n".to_vec());
    assert_eq!(run_decrypt(&pair.client, &blobs[5]).unwrap(), b"60\n".to_vec());

    // A key loaded back from the persisted material decrypts them too.
    let (reloaded, again) = obtain_keys(
        StoredKeys::Present(persist.client_bytes, persist.server_bytes),
        PARAMS,
        BLOCKS,
    )
    .unwrap();
    assert!(again.is_none());
    assert_eq!(run_decrypt(&reloaded.client, &blobs[2]).unwrap(), b"30\n".to_vec());
}

#[test]
fn decrypt_of_value_42() {
    let (pair, _) = obtain_keys(StoredKeys::Absent, PARAMS, BLOCKS).unwrap();
    let out = run_encrypt(&pair.client, &payload_of([42, 0, 0, 0, 0, 0])).unwrap();
    let blobs = split_encrypt_response(&out, FIELD_COUNT).unwrap();
    assert_eq!(run_decrypt(&pair.client, &blobs[0]).unwrap(), b"42\n".to_vec());
}

#[test]
fn malformed_blob_is_rejected() {
    let (pair, _) = obtain_keys(StoredKeys::Absent, PARAMS, BLOCKS).unwrap();
    let r = run_decrypt(&pair.client, &vec![0u8, 1, 2, 3]);
    assert_eq!(r, Err(fhe_service::ServiceError::Serialization));
    // A blob that decodes but has the wrong shape for this key — here an
    // encoding of a ciphertext with no blocks at all — is rejected the same
    // way, never decrypted.
    let empty_ciphertext = vec![0u8; 8];
    assert_eq!(
        run_decrypt(&pair.client, &empty_ciphertext),
        Err(fhe_service::ServiceError::Serialization)
    );
}

#[test]
fn mismatched_scheme_is_rejected() {
    // Persisted material is only reusable under the block count it was
    // generated with; a store read back under another configuration fails as
    // corrupt key material does.
    let (_, persist) = obtain_keys(StoredKeys::Absent, PARAMS, BLOCKS).unwrap();
    let persist = persist.unwrap();
    let r = obtain_keys(
        StoredKeys::Present(persist.client_bytes, persist.server_bytes),
        PARAMS,
        BLOCKS + 1,
    );
    assert!(matches!(r, Err(fhe_service::ServiceError::KeyIo)));
}

#[test]
fn corrupt_key_material_is_rejected() {
    let r = obtain_keys(
        StoredKeys::Present(vec![1, 2, 3], vec![4, 5, 6]),
        PARAMS,
        BLOCKS,
    );
    assert!(matches!(r, Err(fhe_service::ServiceError::KeyIo)));
}

#[test]
fn last_persisted_pair_wins_whole() {
    // Generations racing on an empty store each hand back one internally
    // consistent pair, and whichever is persisted last wins whole: reloaded,
    // its client key decrypts the blobs its own generation produced.
    let (pair, persist) = obtain_keys(StoredKeys::Absent, PARAMS, BLOCKS).unwrap();
    let persist = persist.unwrap();
    let out = run_encrypt(&pair.client, &payload_of([9, 0, 0, 0, 0, 0])).unwrap();
    let blobs = split_encrypt_response(&out, FIELD_COUNT).unwrap();

    let (winner, _) = obtain_keys(
        StoredKeys::Present(persist.client_bytes, persist.server_bytes),
        PARAMS,
        BLOCKS,
    )
    .unwrap();
    assert_eq!(run_decrypt(&winner.client, &blobs[0]).unwrap(), b"9\n".to_vec());
}

#[test]
fn messages_reduce_modulo_the_plaintext_modulus() {
    // With an 8-bit plaintext modulus, 300 wraps to 44 and -1 to 255.
    let (pair, _) = obtain_keys(StoredKeys::Absent, PARAMS, BLOCKS).unwrap();
    let out = run_encrypt(&pair.client, &payload_of([300, -1, 0, 0, 0, 0])).unwrap();
    let blobs = split_encrypt_response(&out, FIELD_COUNT).unwrap();
    assert_eq!(run_decrypt(&pair.client, &blobs[0]).unwrap(), b"44\n".to_vec());
    assert_eq!(run_decrypt(&pair.client, &blobs[1]).unwrap(), b"255\n".to_vec());
}
