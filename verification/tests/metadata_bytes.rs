use frame_metadata::decode_different::{DecodeDifferent as FrameDd, FnEncode};
use frame_metadata::v13 as f13;
use frame_metadata::v14 as f14;
use parity_scale_codec::Encode;
use scale_info::meta_type;
use substrate_api_client::api::{existential_deposit, metadata_from_response, ApiClientError};
use substrate_api_client::extrinsic::compose_call_index;
use substrate_api_client::hashing::StorageHasher;
use substrate_api_client::node_metadata::{ConversionError, MetadataError, StorageEntryType};

fn answer(bytes: &[u8]) -> Option<String> {
    Some(format!("\"0x{}\"", hex::encode(bytes)))
}

fn v14_bytes(prefix: u32) -> Vec<u8> {
    let account = f14::StorageEntryMetadata {
        name: "Account",
        modifier: f14::StorageEntryModifier::Default,
        ty: f14::StorageEntryType::Map {
            hashers: vec![f14::StorageHasher::Blake2_128Concat],
            key: meta_type::<u32>(),
            value: meta_type::<u128>(),
        },
        default: vec![0u8; 16],
        docs: vec![],
    };
    let balances = f14::PalletMetadata {
        name: "Balances",
        storage: Some(f14::PalletStorageMetadata { prefix: "Balances", entries: vec![account] }),
        calls: Some(f14::PalletCallMetadata { ty: meta_type::<Option<u32>>() }),
        event: None,
        constants: vec![f14::PalletConstantMetadata {
            name: "ExistentialDeposit",
            ty: meta_type::<u128>(),
            value: 500u128.encode(),
            docs: vec![],
        }],
        error: None,
        index: 5,
    };
    let extrinsic =
        f14::ExtrinsicMetadata { ty: meta_type::<()>(), version: 4, signed_extensions: vec![] };
    let v14 = f14::RuntimeMetadataV14::new(vec![balances], extrinsic, meta_type::<()>());
    frame_metadata::RuntimeMetadataPrefixed(prefix, frame_metadata::RuntimeMetadata::V14(v14)).encode()
}

#[test]
fn version_14_metadata_is_read_from_its_encoding() {
    let md = metadata_from_response(answer(&v14_bytes(frame_metadata::META_RESERVED)))
        .unwrap()
        .unwrap();
    let balances = md.module("Balances").unwrap();
    assert_eq!(md.module_with_constants(5).unwrap().name(), "Balances");
    assert_eq!(
        balances.storage("Account").unwrap().ty(),
        &StorageEntryType::HashedMap { hashers: vec![StorageHasher::Blake2_128Concat] }
    );
    // the call type `Option<u32>` has the variants `None` and `Some`
    assert_eq!(compose_call_index(&md, "Balances", "None"), Some([5u8, 0u8]));
    assert_eq!(compose_call_index(&md, "Balances", "Some"), Some([5u8, 1u8]));
    assert_eq!(existential_deposit(&md).unwrap(), 500);
}

#[test]
fn encoded_metadata_errors() {
    assert!(matches!(metadata_from_response(None), Some(Err(ApiClientError::MetadataFetch))));
    assert!(matches!(
        metadata_from_response(Some("\"0xzz\"".to_string())),
        Some(Err(ApiClientError::InvalidHexString(_)))
    ));
    assert!(matches!(
        metadata_from_response(answer(&[1, 2, 3])),
        Some(Err(ApiClientError::StorageValueDecode(_)))
    ));
    assert!(matches!(
        metadata_from_response(answer(&v14_bytes(7))),
        Some(Err(ApiClientError::Metadata(MetadataError::Conversion(
            ConversionError::InvalidPrefix
        ))))
    ));
}

fn calls13() -> &'static [f13::FunctionMetadata] {
    &[
        f13::FunctionMetadata {
            name: FrameDd::Encode("set"),
            arguments: FrameDd::Encode(&[]),
            documentation: FrameDd::Encode(&[]),
        },
        f13::FunctionMetadata {
            name: FrameDd::Encode("bump"),
            arguments: FrameDd::Encode(&[]),
            documentation: FrameDd::Encode(&[]),
        },
    ]
}

fn errors13() -> &'static [f13::ErrorMetadata] {
    &[f13::ErrorMetadata { name: FrameDd::Encode("TooEarly"), documentation: FrameDd::Encode(&[]) }]
}

fn constants13() -> &'static [f13::ModuleConstantMetadata] {
    &[]
}

fn storage13() -> f13::StorageMetadata {
    f13::StorageMetadata { prefix: FrameDd::Encode("Timestamp"), entries: FrameDd::Encode(&[]) }
}

#[test]
fn version_13_metadata_is_read_from_its_encoding() {
    let module = f13::ModuleMetadata {
        name: FrameDd::Encode("Timestamp"),
        storage: Some(FrameDd::Encode(FnEncode(storage13))),
        calls: Some(FrameDd::Encode(FnEncode(calls13))),
        event: None,
        constants: FrameDd::Encode(FnEncode(constants13)),
        errors: FrameDd::Encode(FnEncode(errors13)),
        index: 3,
    };
    let modules: &'static [f13::ModuleMetadata] = Box::leak(vec![module].into_boxed_slice());
    let v13 = f13::RuntimeMetadataV13 {
        modules: FrameDd::Encode(modules),
        extrinsic: f13::ExtrinsicMetadata { version: 4, signed_extensions: vec![] },
    };
    let bytes = frame_metadata::RuntimeMetadataPrefixed(
        frame_metadata::META_RESERVED,
        frame_metadata::RuntimeMetadata::V13(v13),
    )
    .encode();
    let md = metadata_from_response(answer(&bytes)).unwrap().unwrap();
    assert!(md.module("Timestamp").is_ok());
    assert_eq!(compose_call_index(&md, "Timestamp", "bump"), Some([3u8, 1u8]));
    assert_eq!(md.module_with_errors(3).unwrap().error(0).unwrap(), "TooEarly");
    assert!(md.module_with_events_by_name("Timestamp").is_err());
}
