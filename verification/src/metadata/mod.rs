pub mod decode;
pub mod v13;
pub mod v14;

use vstd::prelude::*;

use crate::metadata::v13::{parse_metadata_v13, v13_decoded, v13_view, dd_value, RuntimeMetadataV13};
use crate::metadata::v14::{ids_in_registry, parse_metadata_v14, v14_view, RuntimeMetadataV14};
use crate::node_metadata::{ConversionError, Metadata, MetadataError};

verus! {

/// The reserved prefix of runtime metadata: the bytes "meta" read as a little-endian `u32`.
pub const META_RESERVED: u32 = 0x6174656d;

/// Runtime metadata of a version this library reads, or the number of another version.
pub enum RuntimeMetadata {
    V13(RuntimeMetadataV13),
    V14(RuntimeMetadataV14),
    Unsupported(u32),
}

/// Runtime metadata behind its reserved prefix.
pub struct RuntimeMetadataPrefixed(pub u32, pub RuntimeMetadata);

/// The prefixed metadata can be read without a registry id out of range.
pub open spec fn readable(metadata: RuntimeMetadataPrefixed) -> bool {
    metadata.0 == META_RESERVED ==> (metadata.1 matches RuntimeMetadata::V14(m) ==> ids_in_registry(m))
}

impl Metadata {
    /// Reads prefixed runtime metadata of version 13 or 14.
    pub fn try_from(metadata: &RuntimeMetadataPrefixed) -> (r: Result<Metadata, MetadataError>)
        requires
            readable(*metadata),
        ensures
            metadata.0 != META_RESERVED ==> r == Err::<Metadata, MetadataError>(
                MetadataError::Conversion(ConversionError::InvalidPrefix),
            ),
            metadata.0 == META_RESERVED ==> match metadata.1 {
                RuntimeMetadata::V13(m) => {
                    &&& r is Ok <==> v13_decoded(m)
                    &&& r matches Ok(md) ==> md@ == v13_view(dd_value(m.modules)@)
                    &&& r matches Err(e) ==> e == MetadataError::Conversion(
                        ConversionError::ExpectedDecoded,
                    )
                },
                RuntimeMetadata::V14(m) => r matches Ok(md) && md@ == v14_view(m.types@, m.pallets@),
                RuntimeMetadata::Unsupported(_) => r == Err::<Metadata, MetadataError>(
                    MetadataError::Conversion(ConversionError::InvalidVersion),
                ),
            },
    {
        if metadata.0 != META_RESERVED {
            return Err(MetadataError::Conversion(ConversionError::InvalidPrefix));
        }
        match &metadata.1 {
            RuntimeMetadata::V13(meta) => match parse_metadata_v13(meta) {
                Ok(md) => Ok(md),
                Err(e) => Err(MetadataError::Conversion(e)),
            },
            RuntimeMetadata::V14(meta) => match parse_metadata_v14(meta) {
                Ok(md) => Ok(md),
                Err(e) => Err(MetadataError::Conversion(e)),
            },
            RuntimeMetadata::Unsupported(_) => Err(
                MetadataError::Conversion(ConversionError::InvalidVersion),
            ),
        }
    }
}

} // verus!
