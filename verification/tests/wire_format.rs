use substrate_api_client::api::{
    genesis_hash_from_response, hash_from_response, metadata_bytes_from_response,
    opaque_storage_from_response, request_result, runtime_version_from_response, ApiClientError,
};
use substrate_api_client::hashing::{key_hash, StorageHasher};
use substrate_api_client::hexstr::{bytes_from_hex, hash_from_hex, prefixed_hex};
use substrate_api_client::json_req::{
    hash_params, null_params, num_params, state_get_child_storage, state_get_keys_paged,
    state_get_storage, state_query_storage_at, ParamValue, REQUEST_TRANSFER,
};
use substrate_api_client::node_metadata::StorageKey;
use substrate_api_client::text::{i64_to_decimal, u64_to_decimal};

const HASH: &str = "0x934385b11c483498e2b5bca64c2e8ef76ad6c74d3372a05595d3a50caf758d52";

#[test]
fn hex_strings_may_be_quoted_and_prefixed() {
    assert_eq!(bytes_from_hex("0x0a0B").unwrap(), vec![10, 11]);
    assert_eq!(bytes_from_hex("\"0x0a0b\"").unwrap(), vec![10, 11]);
    assert_eq!(bytes_from_hex("0a0b").unwrap(), vec![10, 11]);
    assert_eq!(bytes_from_hex("").unwrap(), Vec::<u8>::new());
    assert!(bytes_from_hex("0x0a0").is_err());
    assert!(bytes_from_hex("0xzz").is_err());
}

#[test]
fn hashes_are_32_bytes() {
    let h = hash_from_hex(HASH).unwrap();
    assert_eq!(h.len(), 32);
    assert_eq!(h[0], 0x93);
    assert_eq!(
        hash_from_hex("0x0102").unwrap_err(),
        hex::FromHexError::InvalidStringLength
    );
}

#[test]
fn prefixed_hex_reads_back() {
    let bytes: Vec<u8> = (0u8..=255).collect();
    let text = prefixed_hex(&bytes);
    assert!(text.starts_with("0x"));
    assert_eq!(text.len(), 2 + 2 * bytes.len());
    assert_eq!(bytes_from_hex(&text).unwrap(), bytes);
    assert_eq!(prefixed_hex(&[0xab, 0x01]), "0xab01");
}

#[test]
fn null_answers_are_none() {
    assert_eq!(request_result("null".to_string()), None);
    assert_eq!(request_result("\"0x00\"".to_string()), Some("\"0x00\"".to_string()));
}

#[test]
fn genesis_hash_answers() {
    assert!(matches!(genesis_hash_from_response(None), Err(ApiClientError::Genesis)));
    let h = genesis_hash_from_response(Some(format!("\"{}\"", HASH))).unwrap();
    assert_eq!(h, hex::decode(&HASH[2..]).unwrap());
    assert!(matches!(
        genesis_hash_from_response(Some("0x00".to_string())),
        Err(ApiClientError::InvalidHexString(_))
    ));
}

#[test]
fn runtime_version_answers() {
    assert!(matches!(runtime_version_from_response(None), Err(ApiClientError::RuntimeVersion)));
    let v = r#"{"specName":"node","specVersion":268,"transactionVersion":2}"#;
    assert_eq!(runtime_version_from_response(Some(v.to_string())).unwrap(), (268, 2));
    let big = r#"{"specVersion":4294967297,"transactionVersion":1}"#;
    assert_eq!(runtime_version_from_response(Some(big.to_string())).unwrap(), (1, 1));
    let missing = r#"{"specVersion":1}"#;
    assert!(matches!(
        runtime_version_from_response(Some(missing.to_string())),
        Err(ApiClientError::RuntimeVersion)
    ));
    assert!(matches!(
        runtime_version_from_response(Some("{".to_string())),
        Err(ApiClientError::Deserializing(_))
    ));
}

#[test]
fn metadata_and_storage_answers() {
    assert!(matches!(metadata_bytes_from_response(None), Err(ApiClientError::MetadataFetch)));
    assert_eq!(metadata_bytes_from_response(Some("0x6d657461".to_string())).unwrap(), b"meta".to_vec());
    assert_eq!(opaque_storage_from_response(None).unwrap(), None);
    assert_eq!(opaque_storage_from_response(Some("0x0102".to_string())).unwrap(), Some(vec![1, 2]));
    assert!(matches!(
        opaque_storage_from_response(Some("0x1".to_string())),
        Err(ApiClientError::InvalidHexString(_))
    ));
    assert_eq!(hash_from_response(None).unwrap(), None);
    assert_eq!(hash_from_response(Some(HASH.to_string())).unwrap().unwrap().len(), 32);
}

fn text(s: &str) -> ParamValue {
    ParamValue::Text(s.to_string())
}

#[test]
fn request_parameters() {
    assert_eq!(REQUEST_TRANSFER, 3);
    assert_eq!(num_params(Some(0)), vec![ParamValue::Number(0)]);
    assert_eq!(num_params(None), vec![ParamValue::Null]);
    assert_eq!(null_params(), vec![ParamValue::Null]);
    let h = hash_from_hex(HASH).unwrap();
    assert_eq!(hash_params(Some(h.clone())), vec![text(HASH)]);
    assert_eq!(hash_params(None), vec![ParamValue::Null]);
    let key = StorageKey(vec![0x26, 0xaa]);
    assert_eq!(state_get_storage(key.clone(), None), vec![text("0x26aa"), ParamValue::Null]);
    assert_eq!(
        state_get_child_storage(StorageKey(vec![1]), key.clone(), Some(h.clone())),
        vec![text("0x01"), text("0x26aa"), text(HASH)]
    );
    assert_eq!(
        state_query_storage_at(vec![key.clone(), StorageKey(vec![])], None),
        vec![ParamValue::Texts(vec!["0x26aa".to_string(), "0x".to_string()]), ParamValue::Null]
    );
    assert_eq!(
        state_get_keys_paged(key.clone(), 10, Some(StorageKey(vec![0xff])), None),
        vec![text("0x26aa"), ParamValue::Number(10), text("0xff"), ParamValue::Null]
    );
    assert_eq!(
        state_get_keys_paged(key, 10, None, Some(h)),
        vec![text("0x26aa"), ParamValue::Number(10), ParamValue::Null, text(HASH)]
    );
}

#[test]
fn key_hashes_follow_the_hasher() {
    let k = vec![1u8, 2, 3];
    assert_eq!(key_hash(&k, &StorageHasher::Identity), k);
    assert_eq!(key_hash(&k, &StorageHasher::Blake2_128), sp_crypto_hashing::blake2_128(&k).to_vec());
    assert_eq!(key_hash(&k, &StorageHasher::Blake2_256), sp_crypto_hashing::blake2_256(&k).to_vec());
    assert_eq!(key_hash(&k, &StorageHasher::Twox128), sp_crypto_hashing::twox_128(&k).to_vec());
    assert_eq!(key_hash(&k, &StorageHasher::Twox256), sp_crypto_hashing::twox_256(&k).to_vec());
    let concat = key_hash(&k, &StorageHasher::Blake2_128Concat);
    assert_eq!(&concat[..16], &sp_crypto_hashing::blake2_128(&k)[..]);
    assert_eq!(&concat[16..], &k[..]);
    let concat = key_hash(&k, &StorageHasher::Twox64Concat);
    assert_eq!(concat.len(), 8 + k.len());
    assert_eq!(&concat[8..], &k[..]);
    assert_ne!(key_hash(&k, &StorageHasher::Twox128), k);
}

#[test]
fn decimal_rendering() {
    assert_eq!(u64_to_decimal(0), "0");
    assert_eq!(u64_to_decimal(1234567890), "1234567890");
    assert_eq!(u64_to_decimal(u64::MAX), u64::MAX.to_string());
    assert_eq!(i64_to_decimal(-32700), "-32700");
    assert_eq!(i64_to_decimal(i64::MIN), i64::MIN.to_string());
    assert_eq!(i64_to_decimal(i64::MAX), i64::MAX.to_string());
    assert_eq!(i64_to_decimal(0), "0");
}
