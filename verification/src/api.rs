use vstd::prelude::*;

use crate::assoc::seq_lookup;
use crate::hexstr::{bytes_from_hex, hash_from_hex, hex_bytes, hex_payload, hex_valid};
use crate::json::{json_parses, json_u64_at, parse_json, u64_at};
use crate::metadata::decode::{
    decode_metadata, lemma_v13_read_is_decoded, read_v13, read_v14, spec_metadata_prefix,
    spec_metadata_version, v13_matches, v14_matches,
};
use crate::metadata::v13::{dd_value, v13_view, RuntimeMetadataV13};
use crate::metadata::v14::{ids_in_registry, v14_view, RuntimeMetadataV14};
use crate::metadata::{RuntimeMetadata, RuntimeMetadataPrefixed, META_RESERVED};
use crate::node_metadata::{
    first_constant_named, ConversionError, Metadata, MetadataError, MetadataView,
};
use crate::rpc::XtStatus;

verus! {

#[verifier::external_type_specification]
#[verifier::external_body]
pub struct ExClientError(jsonrpsee_core::ClientError);

#[verifier::external_type_specification]
#[verifier::external_body]
pub struct ExRecvError(std::sync::mpsc::RecvError);

#[verifier::external_type_specification]
#[verifier::external_body]
pub struct ExCodecError(parity_scale_codec::Error);

/// What went wrong in talking to a node.
#[derive(Debug)]
pub enum ApiClientError {
    Genesis,
    RuntimeVersion,
    MetadataFetch,
    NoSigner,
    WebSocket(jsonrpsee_core::ClientError),
    RpcClient(String),
    Disconnected(std::sync::mpsc::RecvError),
    Metadata(MetadataError),
    StorageValueDecode(parity_scale_codec::Error),
    InvalidHexString(hex::FromHexError),
    Deserializing(serde_json::Error),
    UnsupportedXtStatus(XtStatus),
    TryFromIntError,
    Extrinsic(String),
    Custom(String),
}

/// The result of a request: `None` when the node answered `null`.
pub fn request_result(response: String) -> (r: Option<String>)
    ensures
        response@ == "null"@ ==> r is None,
        response@ != "null"@ ==> r == Some(response),
{
    let null = String::from_str("null");
    if response == null {
        None
    } else {
        Some(response)
    }
}

/// The genesis hash from the answer to a request for the hash of block 0.
pub fn genesis_hash_from_response(genesis: Option<String>) -> (r: Result<Vec<u8>, ApiClientError>)
    ensures
        genesis is None ==> r matches Err(ApiClientError::Genesis),
        genesis matches Some(g) ==> {
            let p = hex_payload(g@);
            &&& r is Ok <==> hex_valid(p) && hex_bytes(p).len() == 32
            &&& (r matches Ok(h) ==> h@ == hex_bytes(p))
            &&& (r matches Err(e) ==> e is InvalidHexString)
        },
{
    match genesis {
        Some(g) => match hash_from_hex(g.as_str()) {
            Ok(h) => Ok(h),
            Err(e) => Err(ApiClientError::InvalidHexString(e)),
        },
        None => Err(ApiClientError::Genesis),
    }
}

/// The spec and transaction versions from the answer to a request for the
/// runtime version; each is cut to its low 32 bits.
pub fn runtime_version_from_response(version: Option<String>) -> (r: Result<
    (u32, u32),
    ApiClientError,
>)
    ensures
        version is None ==> r matches Err(ApiClientError::RuntimeVersion),
        version matches Some(v) ==> {
            let spec_version = json_u64_at(v@, "/specVersion"@);
            let transaction_version = json_u64_at(v@, "/transactionVersion"@);
            &&& !json_parses(v@) ==> (r matches Err(ApiClientError::Deserializing(_)))
            &&& json_parses(v@) && spec_version is Some && transaction_version is Some ==> r
                == Ok::<(u32, u32), ApiClientError>(
                (spec_version->0 as u32, transaction_version->0 as u32),
            )
            &&& json_parses(v@) && !(spec_version is Some && transaction_version is Some) ==> (r
                matches Err(ApiClientError::RuntimeVersion))
        },
{
    match version {
        Some(v) => {
            match parse_json(v.as_str()) {
                Ok(()) => {},
                Err(e) => return Err(ApiClientError::Deserializing(e)),
            }
            let spec_version = u64_at(v.as_str(), "/specVersion");
            let transaction_version = u64_at(v.as_str(), "/transactionVersion");
            match (spec_version, transaction_version) {
                (Some(s), Some(t)) => Ok((s as u32, t as u32)),
                _ => Err(ApiClientError::RuntimeVersion),
            }
        },
        None => Err(ApiClientError::RuntimeVersion),
    }
}

/// The encoded runtime metadata from the answer to a request for it.
pub fn metadata_bytes_from_response(meta: Option<String>) -> (r: Result<Vec<u8>, ApiClientError>)
    ensures
        meta is None ==> r matches Err(ApiClientError::MetadataFetch),
        meta matches Some(m) ==> {
            let p = hex_payload(m@);
            &&& r is Ok <==> hex_valid(p)
            &&& (r matches Ok(bytes) ==> bytes@ == hex_bytes(p))
            &&& (r matches Err(e) ==> e is InvalidHexString)
        },
{
    match meta {
        Some(m) => match bytes_from_hex(m.as_str()) {
            Ok(bytes) => Ok(bytes),
            Err(e) => Err(ApiClientError::InvalidHexString(e)),
        },
        None => Err(ApiClientError::MetadataFetch),
    }
}

/// The hash from the answer to a request for a block hash, if the node knew one.
pub fn hash_from_response(response: Option<String>) -> (r: Result<
    Option<Vec<u8>>,
    ApiClientError,
>)
    ensures
        response is None ==> r matches Ok(None),
        response matches Some(h) ==> {
            let p = hex_payload(h@);
            &&& r is Ok <==> hex_valid(p) && hex_bytes(p).len() == 32
            &&& (r matches Ok(Some(bytes)) ==> bytes@ == hex_bytes(p))
            &&& (r is Ok ==> (r matches Ok(Some(_))))
            &&& (r matches Err(e) ==> e is InvalidHexString)
        },
{
    match response {
        Some(h) => match hash_from_hex(h.as_str()) {
            Ok(bytes) => Ok(Some(bytes)),
            Err(e) => Err(ApiClientError::InvalidHexString(e)),
        },
        None => Ok(None),
    }
}

/// The raw bytes from the answer to a request for a storage item, if it is set.
pub fn opaque_storage_from_response(response: Option<String>) -> (r: Result<
    Option<Vec<u8>>,
    ApiClientError,
>)
    ensures
        response is None ==> r matches Ok(None),
        response matches Some(s) ==> {
            let p = hex_payload(s@);
            &&& r is Ok <==> hex_valid(p)
            &&& (r matches Ok(Some(bytes)) ==> bytes@ == hex_bytes(p))
            &&& (r is Ok ==> (r matches Ok(Some(_))))
            &&& (r matches Err(e) ==> e is InvalidHexString)
        },
{
    match response {
        Some(s) => match bytes_from_hex(s.as_str()) {
            Ok(bytes) => Ok(Some(bytes)),
            Err(e) => Err(ApiClientError::InvalidHexString(e)),
        },
        None => Ok(None),
    }
}

/// Calls `<u128 as parity_scale_codec::Decode>::decode` on the bytes: it
/// reads their first 16 bytes as a little-endian number, and fails when
/// there are fewer.
#[verifier::external_body]
fn decode_u128(bytes: &[u8]) -> (r: Result<u128, parity_scale_codec::Error>)
    ensures
        r is Ok <==> bytes@.len() >= 16,
        r matches Ok(v) ==> v == vstd::bytes::spec_u128_from_le_bytes(bytes@.take(16)),
{
    <u128 as parity_scale_codec::Decode>::decode(&mut &bytes[..])
}

/// The value of the constant `ExistentialDeposit` of the module `Balances`,
/// if the metadata has them.
pub open spec fn existential_deposit_bytes(md: MetadataView) -> Option<Seq<u8>> {
    match seq_lookup(md.modules_with_constants, "Balances"@) {
        Some(m) => match first_constant_named(m.constants, "ExistentialDeposit"@) {
            Some(c) => Some(c.value),
            None => None,
        },
        None => None,
    }
}

/// The least balance an account must hold, as the metadata's constant says.
pub fn existential_deposit(metadata: &Metadata) -> (r: Result<u128, ApiClientError>)
    ensures
        seq_lookup(metadata@.modules_with_constants, "Balances"@) is None ==> (r matches Err(
            ApiClientError::Metadata(MetadataError::ModuleNotFound(n)),
        ) && n@ == "Balances"@),
        seq_lookup(metadata@.modules_with_constants, "Balances"@) is Some
            && existential_deposit_bytes(metadata@) is None ==> (r matches Err(
            ApiClientError::Metadata(MetadataError::ConstantNotFound(n)),
        ) && n@ == "ExistentialDeposit"@),
        existential_deposit_bytes(metadata@) matches Some(b) ==> {
            &&& r is Ok <==> b.len() >= 16
            &&& (r matches Ok(v) ==> v == vstd::bytes::spec_u128_from_le_bytes(b.take(16)))
            &&& (r matches Err(e) ==> e is StorageValueDecode)
        },
{
    let module = match metadata.module_with_constants_by_name("Balances") {
        Ok(m) => m,
        Err(e) => return Err(ApiClientError::Metadata(e)),
    };
    let constant = match module.constant_by_name("ExistentialDeposit") {
        Ok(c) => c,
        Err(e) => return Err(ApiClientError::Metadata(e)),
    };
    let value = constant.get_value();
    match decode_u128(value.as_slice()) {
        Ok(v) => Ok(v),
        Err(e) => Err(ApiClientError::StorageValueDecode(e)),
    }
}


/// What reading metadata that decodes with prefix `prefix` from `bytes`
/// gives: an error for a wrong prefix or an unread version; for version 14,
/// the metadata that the pallets describe, or `None` when a pallet names a
/// type id beyond the registry; for version 13, the metadata the modules
/// describe.
pub open spec fn decoded_metadata_result(
    r: Option<Result<Metadata, ApiClientError>>,
    bytes: Seq<u8>,
    prefix: u32,
) -> bool {
    if prefix != META_RESERVED {
        r matches Some(
            Err(ApiClientError::Metadata(MetadataError::Conversion(ConversionError::InvalidPrefix))),
        )
    } else if spec_metadata_version(bytes) == 14 {
        &&& (forall|m: RuntimeMetadataV14| v14_matches(m, bytes) ==> ids_in_registry(m)) ==> r is Some
        &&& r is None ==> exists|m: RuntimeMetadataV14| v14_matches(m, bytes) && !ids_in_registry(m)
        &&& r is Some ==> (r matches Some(Ok(md)) && exists|m: RuntimeMetadataV14|
            v14_matches(m, bytes) && ids_in_registry(m) && md@ == v14_view(m.types@, m.pallets@))
    } else if spec_metadata_version(bytes) == 13 {
        r matches Some(Ok(md)) && exists|m: RuntimeMetadataV13|
            v13_matches(m, bytes) && md@ == v13_view(dd_value(m.modules)@)
    } else {
        r matches Some(
            Err(ApiClientError::Metadata(MetadataError::Conversion(ConversionError::InvalidVersion))),
        )
    }
}

/// The runtime metadata from the answer to a request for it: hex-decoded,
/// decoded by `frame_metadata`, and read. `None` where a pallet of version
/// 14 metadata names a type id beyond the type registry.
pub fn metadata_from_response(meta: Option<String>) -> (r: Option<Result<Metadata, ApiClientError>>)
    ensures
        meta is None ==> r matches Some(Err(ApiClientError::MetadataFetch)),
        meta matches Some(m) ==> {
            let p = hex_payload(m@);
            let b = hex_bytes(p);
            &&& !hex_valid(p) ==> (r matches Some(Err(ApiClientError::InvalidHexString(_))))
            &&& hex_valid(p) && spec_metadata_prefix(b) is None ==> (r matches Some(
                Err(ApiClientError::StorageValueDecode(_)),
            ))
            &&& hex_valid(p) ==> (spec_metadata_prefix(b) matches Some(prefix)
                ==> decoded_metadata_result(r, b, prefix))
        },
{
    let bytes = match metadata_bytes_from_response(meta) {
        Ok(b) => b,
        Err(e) => return Some(Err(e)),
    };
    let decoded = match decode_metadata(bytes.as_slice()) {
        Ok(d) => d,
        Err(e) => return Some(Err(ApiClientError::StorageValueDecode(e))),
    };
    let prefix = decoded.prefix();
    let version = decoded.version();
    let inner = if prefix != META_RESERVED {
        RuntimeMetadata::Unsupported(version)
    } else if version == 14 {
        let m = read_v14(&decoded);
        if !m.ids_in_registry() {
            return None;
        }
        RuntimeMetadata::V14(m)
    } else if version == 13 {
        let m = read_v13(&decoded);
        proof {
            lemma_v13_read_is_decoded(m, bytes@);
        }
        RuntimeMetadata::V13(m)
    } else {
        RuntimeMetadata::Unsupported(version)
    };
    let prefixed = RuntimeMetadataPrefixed(prefix, inner);
    match Metadata::try_from(&prefixed) {
        Ok(md) => Some(Ok(md)),
        Err(e) => Some(Err(ApiClientError::Metadata(e))),
    }
}

} // verus!
