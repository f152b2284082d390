use substrate_api_client::extrinsic::compose_call_index;
use substrate_api_client::api::{existential_deposit, ApiClientError};
use substrate_api_client::hashing::StorageHasher;
use substrate_api_client::metadata::v13::{
    DecodeDifferent, ModuleConstantMetadataV13, ModuleMetadataV13, NamedMetadataV13,
    RuntimeMetadataV13, StorageEntryMetadataV13, StorageEntryTypeV13, StorageMetadataV13,
};
use substrate_api_client::metadata::v14::{
    PalletConstantMetadata, PalletMetadata, PalletStorageMetadata, PortableType,
    RuntimeMetadataV14, StorageEntryMetadataV14, StorageEntryTypeV14,
};
use substrate_api_client::metadata::{RuntimeMetadata, RuntimeMetadataPrefixed, META_RESERVED};
use substrate_api_client::node_metadata::{
    ConversionError, Metadata, MetadataError, StorageEntryModifier, StorageEntryType,
};

fn s(x: &str) -> String {
    x.to_string()
}

fn entry(name: &str, ty: StorageEntryTypeV14) -> StorageEntryMetadataV14 {
    StorageEntryMetadataV14 {
        name: s(name),
        modifier: StorageEntryModifier::Default,
        ty,
        default: vec![0u8; 4],
    }
}

fn sample_v14() -> RuntimeMetadataV14 {
    let types = vec![
        PortableType {
            path: s("pallet_balances::pallet::Call"),
            variants: Some(vec![s("transfer"), s("set_balance")]),
        },
        PortableType {
            path: s("pallet_balances::pallet::Event"),
            variants: Some(vec![s("Endowed"), s("Transfer")]),
        },
        PortableType {
            path: s("pallet_balances::pallet::Error"),
            variants: Some(vec![s("InsufficientBalance")]),
        },
        PortableType { path: s("u128"), variants: None },
        PortableType { path: s("u32"), variants: None },
    ];
    let system = PalletMetadata {
        name: s("System"),
        storage: Some(PalletStorageMetadata {
            prefix: s("System"),
            entries: vec![
                entry(
                    "Account",
                    StorageEntryTypeV14::HashedMap {
                        hashers: vec![StorageHasher::Blake2_128Concat],
                        key: 4,
                        value: 3,
                    },
                ),
                entry("Number", StorageEntryTypeV14::Plain { value: 4 }),
                entry(
                    "EventTopics",
                    StorageEntryTypeV14::HashedMap {
                        hashers: vec![StorageHasher::Blake2_128Concat, StorageHasher::Twox64Concat],
                        key: 4,
                        value: 4,
                    },
                ),
            ],
        }),
        calls: None,
        event: None,
        constants: vec![PalletConstantMetadata {
            name: s("BlockHashCount"),
            ty: 4,
            value: vec![0, 1, 0, 0],
        }],
        error: None,
        index: 0,
    };
    let balances = PalletMetadata {
        name: s("Balances"),
        storage: None,
        calls: Some(0),
        event: Some(1),
        constants: vec![PalletConstantMetadata {
            name: s("ExistentialDeposit"),
            ty: 3,
            value: 500u128.to_le_bytes().to_vec(),
        }],
        error: Some(2),
        index: 5,
    };
    RuntimeMetadataV14 { types, pallets: vec![system, balances] }
}

fn sample_metadata() -> Metadata {
    let meta = RuntimeMetadataPrefixed(META_RESERVED, RuntimeMetadata::V14(sample_v14()));
    Metadata::try_from(&meta).unwrap()
}

fn prefix_key(module: &str, item: &str) -> Vec<u8> {
    let mut k = sp_crypto_hashing::twox_128(module.as_bytes()).to_vec();
    k.extend_from_slice(&sp_crypto_hashing::twox_128(item.as_bytes()));
    k
}

#[test]
fn reserved_prefix_is_the_metadata_magic() {
    assert_eq!(META_RESERVED, frame_metadata::META_RESERVED);
}

#[test]
fn modules_are_found_by_name() {
    let md = sample_metadata();
    let system = md.module("System").unwrap();
    let account = system.storage("Account").unwrap();
    assert_eq!(
        account.ty(),
        &StorageEntryType::HashedMap { hashers: vec![StorageHasher::Blake2_128Concat] }
    );
    assert_eq!(account.modifier(), StorageEntryModifier::Default);
    assert_eq!(system.storage("Missing").unwrap_err(), MetadataError::StorageNotFound("Missing"));
    assert_eq!(md.module("Nope").unwrap_err(), MetadataError::ModuleNotFound(s("Nope")));
}

#[test]
fn calls_events_and_errors_are_indexed() {
    let md = sample_metadata();
    let calls = md.module_with_calls("Balances").unwrap();
    assert_eq!(calls.index, 5);
    assert_eq!(calls.calls.get(&s("transfer")), Some(&0));
    assert_eq!(calls.calls.get(&s("set_balance")), Some(&1));
    assert!(md.module_with_calls("System").is_err());
    assert_eq!(md.modules_with_calls().len(), 1);

    let errors = md.module_with_errors(5).unwrap();
    assert_eq!(errors.name(), "Balances");
    assert_eq!(errors.error(0).unwrap(), "InsufficientBalance");
    assert_eq!(errors.error(1).unwrap_err(), MetadataError::ErrorNotFound(1));
    assert_eq!(md.module_with_errors(9).unwrap_err(), MetadataError::ModuleWithErrorsNotFound(9));
    assert_eq!(md.module_with_errors_by_name("Balances").unwrap().index, 5);
    assert_eq!(md.modules_with_errors().len(), 1);

    let events = md.module_with_events(5).unwrap();
    assert_eq!(events.name(), "Balances");
    assert_eq!(events.event(1).unwrap(), "Transfer");
    assert_eq!(events.event(2).unwrap_err(), MetadataError::EventNotFound(2));
    assert_eq!(md.module_with_events(7).unwrap_err(), MetadataError::ModuleWithEventsNotFound(7));
    assert_eq!(md.module_with_events_by_name("Balances").unwrap().index, 5);
    assert_eq!(md.modules_with_events().len(), 1);
}

#[test]
fn constants_are_found_by_name_and_index() {
    let md = sample_metadata();
    let balances = md.module_with_constants_by_name("Balances").unwrap();
    assert_eq!(balances.name(), "Balances");
    let ed = balances.constant_by_name("ExistentialDeposit").unwrap();
    assert_eq!(ed.get_value(), 500u128.to_le_bytes().to_vec());
    assert_eq!(ed.get_type(), "u128");
    assert_eq!(balances.constants().len(), 1);
    assert_eq!(
        balances.constant_by_name("Missing").unwrap_err(),
        MetadataError::ConstantNotFound(s("Missing"))
    );
    assert_eq!(md.module_with_constants(0).unwrap().name(), "System");
    assert_eq!(
        md.module_with_constants(3).unwrap_err(),
        MetadataError::ModuleWithConstantsNotFound(3)
    );
    assert_eq!(md.modules_with_constants().len(), 2);
    assert_eq!(existential_deposit(&md).unwrap(), 500);
}

#[test]
fn existential_deposit_errors() {
    let mut meta = sample_v14();
    meta.pallets[1].constants[0].value = vec![1, 2, 3];
    let md = Metadata::try_from(&RuntimeMetadataPrefixed(META_RESERVED, RuntimeMetadata::V14(meta)))
        .unwrap();
    assert!(matches!(existential_deposit(&md), Err(ApiClientError::StorageValueDecode(_))));

    let mut meta = sample_v14();
    meta.pallets.pop();
    let md = Metadata::try_from(&RuntimeMetadataPrefixed(META_RESERVED, RuntimeMetadata::V14(meta)))
        .unwrap();
    assert!(matches!(
        existential_deposit(&md),
        Err(ApiClientError::Metadata(MetadataError::ModuleNotFound(ref n))) if n == "Balances"
    ));

    let mut meta = sample_v14();
    meta.pallets[1].constants[0].name = s("MinimumBalance");
    let md = Metadata::try_from(&RuntimeMetadataPrefixed(META_RESERVED, RuntimeMetadata::V14(meta)))
        .unwrap();
    assert!(matches!(
        existential_deposit(&md),
        Err(ApiClientError::Metadata(MetadataError::ConstantNotFound(ref n))) if n == "ExistentialDeposit"
    ));
}

#[test]
fn storage_keys_are_hashed_prefixes() {
    let md = sample_metadata();
    assert_eq!(md.storage_value_key("System", "Number").unwrap().0, prefix_key("System", "Number"));

    let account = vec![7u8; 32];
    let mut expected = prefix_key("System", "Account");
    expected.extend_from_slice(&sp_crypto_hashing::blake2_128(&account));
    expected.extend_from_slice(&account);
    let key = md.storage_map_key("System", "Account", &account, true).unwrap();
    assert_eq!(key.0, expected);

    let prefix = md.storage_map_key_prefix("System", "Account").unwrap();
    assert_eq!(prefix.0, prefix_key("System", "Account"));
    assert!(key.0.starts_with(&prefix.0));

    let first = vec![1u8, 2];
    let second = vec![3u8];
    let mut expected = prefix_key("System", "EventTopics");
    expected.extend_from_slice(&sp_crypto_hashing::blake2_128(&first));
    expected.extend_from_slice(&first);
    expected.extend_from_slice(&sp_crypto_hashing::twox_64(&second));
    expected.extend_from_slice(&second);
    let dkey = md.storage_double_map_key("System", "EventTopics", &first, &second, true).unwrap();
    assert_eq!(dkey.0, expected);
    assert!(dkey.0.starts_with(&md.storage_map_key_prefix("System", "EventTopics").unwrap().0));
}

#[test]
fn storage_key_errors() {
    let md = sample_metadata();
    assert_eq!(
        md.storage_value_key("System", "Account").unwrap_err(),
        MetadataError::StorageTypeError
    );
    assert_eq!(
        md.storage_map_key("System", "Number", &[1], true).unwrap_err(),
        MetadataError::StorageTypeError
    );
    assert_eq!(
        md.storage_map_key_prefix("System", "Number").unwrap_err(),
        MetadataError::StorageTypeError
    );
    assert_eq!(
        md.storage_value_key("System", "Missing").unwrap_err(),
        MetadataError::StorageNotFound("Missing")
    );
    assert_eq!(
        md.storage_value_key("Nope", "Number").unwrap_err(),
        MetadataError::ModuleNotFound(s("Nope"))
    );
}

#[test]
fn storage_items_give_their_shapes() {
    let md = sample_metadata();
    let system = md.module("System").unwrap();
    let account = system.storage("Account").unwrap();
    let map = account.get_map(true).unwrap();
    assert_eq!(map.default(), vec![0u8; 4]);
    assert!(account.get_value().is_err());
    let number = system.storage("Number").unwrap();
    assert_eq!(number.get_value().unwrap().key().0, prefix_key("System", "Number"));
    assert_eq!(number.get_map(true).unwrap_err(), MetadataError::StorageTypeError);
    assert_eq!(number.get_double_map(true).unwrap_err(), MetadataError::StorageTypeError);
    let topics = system.storage("EventTopics").unwrap();
    assert_eq!(topics.get_double_map(true).unwrap().default(), vec![0u8; 4]);
}

#[test]
fn overview_lists_every_module() {
    let md = sample_metadata();
    let expected = "System\n s  Account\n s  Number\n s  EventTopics\n cst  BlockHashCount\n\
                    Balances\n c  transfer\n c  set_balance\n cst  ExistentialDeposit\n err  InsufficientBalance\n";
    assert_eq!(md.overview(), expected);
}

#[test]
fn a_later_pallet_of_the_same_name_wins() {
    let mut meta = sample_v14();
    let mut again = PalletMetadata {
        name: s("System"),
        storage: None,
        calls: None,
        event: None,
        constants: vec![],
        error: None,
        index: 9,
    };
    again.calls = Some(0);
    meta.pallets.push(again);
    let md = Metadata::try_from(&RuntimeMetadataPrefixed(META_RESERVED, RuntimeMetadata::V14(meta)))
        .unwrap();
    assert!(md.module("System").unwrap().storage("Account").is_err());
    assert_eq!(md.module_with_calls("System").unwrap().index, 9);
    assert_eq!(md.module_with_constants_by_name("System").unwrap().constants().len(), 0);
    assert_eq!(md.module_with_constants(0).unwrap_err(), MetadataError::ModuleWithConstantsNotFound(0));
}

#[test]
fn wrong_prefix_and_version_are_refused() {
    let meta = RuntimeMetadataPrefixed(0, RuntimeMetadata::V14(sample_v14()));
    assert_eq!(
        Metadata::try_from(&meta).unwrap_err(),
        MetadataError::Conversion(ConversionError::InvalidPrefix)
    );
    let meta = RuntimeMetadataPrefixed(META_RESERVED, RuntimeMetadata::Unsupported(12));
    assert_eq!(
        Metadata::try_from(&meta).unwrap_err(),
        MetadataError::Conversion(ConversionError::InvalidVersion)
    );
}

#[test]
fn registry_ids_are_checked() {
    let meta = sample_v14();
    assert!(meta.ids_in_registry());
    let mut bad = sample_v14();
    bad.pallets[1].error = Some(40);
    assert!(!bad.ids_in_registry());
    let mut bad = sample_v14();
    bad.pallets[0].constants[0].ty = 5;
    assert!(!bad.ids_in_registry());
}

fn d<T>(v: T) -> DecodeDifferent<T> {
    DecodeDifferent::Decoded(v)
}

fn sample_v13(encoded_default: bool) -> RuntimeMetadataV13 {
    let default = if encoded_default {
        DecodeDifferent::Encode(vec![0u8])
    } else {
        d(vec![0u8])
    };
    let storage = StorageMetadataV13 {
        prefix: d(s("Timestamp")),
        entries: d(vec![
            StorageEntryMetadataV13 {
                name: d(s("Now")),
                modifier: StorageEntryModifier::Default,
                ty: StorageEntryTypeV13::Plain,
                default,
            },
            StorageEntryMetadataV13 {
                name: d(s("Pairs")),
                modifier: StorageEntryModifier::Optional,
                ty: StorageEntryTypeV13::DoubleMap {
                    hasher: StorageHasher::Twox64Concat,
                    key2_hasher: StorageHasher::Identity,
                },
                default: d(vec![]),
            },
            StorageEntryMetadataV13 {
                name: d(s("Many")),
                modifier: StorageEntryModifier::Optional,
                ty: StorageEntryTypeV13::NMap {
                    hashers: DecodeDifferent::Encode(vec![
                        StorageHasher::Twox128,
                        StorageHasher::Blake2_256,
                        StorageHasher::Twox256,
                    ]),
                },
                default: d(vec![]),
            },
        ]),
    };
    let module = ModuleMetadataV13 {
        name: d(s("Timestamp")),
        storage: Some(d(storage)),
        calls: Some(d(vec![NamedMetadataV13 { name: d(s("set")) }])),
        event: None,
        constants: d(vec![ModuleConstantMetadataV13 {
            name: d(s("MinimumPeriod")),
            ty: d(s("T::Moment")),
            value: d(vec![1, 0, 0, 0]),
        }]),
        errors: d(vec![]),
        index: 3,
    };
    RuntimeMetadataV13 { modules: d(vec![module]) }
}

#[test]
fn version_13_metadata_is_read() {
    let meta = RuntimeMetadataPrefixed(META_RESERVED, RuntimeMetadata::V13(sample_v13(false)));
    let md = Metadata::try_from(&meta).unwrap();
    let ts = md.module("Timestamp").unwrap();
    assert_eq!(ts.storage("Now").unwrap().ty(), &StorageEntryType::Plain);
    assert_eq!(
        ts.storage("Pairs").unwrap().ty(),
        &StorageEntryType::HashedMap {
            hashers: vec![StorageHasher::Twox64Concat, StorageHasher::Identity]
        }
    );
    assert_eq!(
        ts.storage("Many").unwrap().ty(),
        &StorageEntryType::HashedMap {
            hashers: vec![StorageHasher::Twox128, StorageHasher::Blake2_256, StorageHasher::Twox256]
        }
    );
    assert_eq!(md.module_with_calls("Timestamp").unwrap().calls.get(&s("set")), Some(&0));
    assert!(md.module_with_events_by_name("Timestamp").is_err());
    assert_eq!(md.module_with_errors(3).unwrap().name(), "Timestamp");
    let c = md
        .module_with_constants_by_name("Timestamp")
        .unwrap()
        .constant_by_name("MinimumPeriod")
        .unwrap();
    assert_eq!(c.get_type(), "T::Moment");
    assert_eq!(c.get_value(), vec![1, 0, 0, 0]);
}

#[test]
fn version_13_values_in_encoded_form_are_refused() {
    let meta = RuntimeMetadataPrefixed(META_RESERVED, RuntimeMetadata::V13(sample_v13(true)));
    assert_eq!(
        Metadata::try_from(&meta).unwrap_err(),
        MetadataError::Conversion(ConversionError::ExpectedDecoded)
    );
    let mut v13 = sample_v13(false);
    v13.modules = DecodeDifferent::Encode(vec![]);
    let meta = RuntimeMetadataPrefixed(META_RESERVED, RuntimeMetadata::V13(v13));
    assert_eq!(
        Metadata::try_from(&meta).unwrap_err(),
        MetadataError::Conversion(ConversionError::ExpectedDecoded)
    );
}

#[test]
fn call_index_pairs_module_and_call_positions() {
    let md = sample_metadata();
    assert_eq!(compose_call_index(&md, "Balances", "transfer"), Some([5u8, 0u8]));
    assert_eq!(compose_call_index(&md, "Balances", "set_balance"), Some([5u8, 1u8]));
    assert_eq!(compose_call_index(&md, "Balances", "burn"), None);
    assert_eq!(compose_call_index(&md, "System", "remark"), None);
    assert_eq!(compose_call_index(&md, "Staking", "bond"), None);
}

#[test]
fn call_index_of_version_13_metadata() {
    let mut v13 = sample_v13(false);
    if let DecodeDifferent::Decoded(modules) = &mut v13.modules {
        modules[0].calls = Some(d(vec![
            NamedMetadataV13 { name: d(s("set")) },
            NamedMetadataV13 { name: d(s("bump")) },
            NamedMetadataV13 { name: d(s("set")) },
        ]));
    }
    let meta = RuntimeMetadataPrefixed(META_RESERVED, RuntimeMetadata::V14(sample_v14()));
    let v14_md = Metadata::try_from(&meta).unwrap();
    assert_eq!(compose_call_index(&v14_md, "Timestamp", "set"), None);
    let meta = RuntimeMetadataPrefixed(META_RESERVED, RuntimeMetadata::V13(v13));
    let md = Metadata::try_from(&meta).unwrap();
    // a call name that occurs twice takes its last position
    assert_eq!(compose_call_index(&md, "Timestamp", "set"), Some([3u8, 2u8]));
    assert_eq!(compose_call_index(&md, "Timestamp", "bump"), Some([3u8, 1u8]));
    assert_eq!(compose_call_index(&md, "Timestamp", "now"), None);
}

#[test]
fn errors_and_events_are_found_by_position() {
    let md = sample_metadata();
    let events = md.module_with_events(5).unwrap();
    assert_eq!(events.event(0).unwrap(), "Endowed");
    assert_eq!(events.event(1).unwrap(), "Transfer");
    assert_eq!(events.event(2).unwrap_err(), MetadataError::EventNotFound(2));
    let errors = md.module_with_errors(5).unwrap();
    assert_eq!(errors.error(0).unwrap(), "InsufficientBalance");
    assert_eq!(errors.error(1).unwrap_err(), MetadataError::ErrorNotFound(1));
}

#[test]
fn a_default_that_does_not_decode_is_a_map_value_type_error() {
    let md = sample_metadata();
    let system = md.module("System").unwrap();
    let account = system.storage("Account").unwrap();
    assert_eq!(account.default(), vec![0u8; 4]);
    assert_eq!(account.get_map(false).unwrap_err(), MetadataError::MapValueTypeError);
    let topics = system.storage("EventTopics").unwrap();
    assert_eq!(topics.get_double_map(false).unwrap_err(), MetadataError::MapValueTypeError);
    assert_eq!(
        md.storage_map_key("System", "Account", &[1, 2], false).unwrap_err(),
        MetadataError::MapValueTypeError
    );
    assert_eq!(
        md.storage_double_map_key("System", "EventTopics", &[1], &[2], false).unwrap_err(),
        MetadataError::MapValueTypeError
    );
    // lookups fail first, whatever the decode outcome
    assert_eq!(
        md.storage_map_key("System", "Number", &[1], false).unwrap_err(),
        MetadataError::StorageTypeError
    );
    assert_eq!(
        md.storage_map_key("Nope", "Account", &[1], false).unwrap_err(),
        MetadataError::ModuleNotFound(s("Nope"))
    );
}

#[test]
fn storage_keys_start_with_a_prefix_of_32_bytes() {
    let md = sample_metadata();
    let prefix = md.storage_map_key_prefix("System", "Account").unwrap().0;
    assert_eq!(prefix.len(), 32);
    let key = md.storage_map_key("System", "Account", &[9, 9, 9], true).unwrap().0;
    assert_eq!(&key[..32], &prefix[..]);
    assert_eq!(md.storage_value_key("System", "Number").unwrap().0.len(), 32);
}
