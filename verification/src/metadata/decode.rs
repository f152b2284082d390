use vstd::prelude::*;

use frame_metadata::decode_different::DecodeDifferent as Dd;
use frame_metadata::v13 as f13;
use frame_metadata::v14 as f14;
use frame_metadata::v13::RuntimeMetadataV13 as M13;
use frame_metadata::v13::StorageEntryType as T13;
use frame_metadata::v13::StorageHasher as H13;
use frame_metadata::v13::StorageMetadata as S13;
use frame_metadata::v14::StorageEntryType as T14;
use frame_metadata::v14::StorageHasher as H14;
use frame_metadata::RuntimeMetadata as FrameMeta;
use frame_metadata::RuntimeMetadataPrefixed as FramePrefixed;
use parity_scale_codec::Decode;
use scale_info::TypeDef;

use crate::hashing::StorageHasher;
use crate::hashing::StorageHasher::{
    Blake2_128, Blake2_128Concat, Blake2_256, Identity, Twox128, Twox256, Twox64Concat,
};
use crate::metadata::v13::{
    constants_decoded, module_decoded, names_decoded, storage_decoded, v13_decoded,
    DecodeDifferent, ModuleConstantMetadataV13, ModuleMetadataV13, NamedMetadataV13,
    RuntimeMetadataV13, StorageEntryMetadataV13, StorageEntryTypeV13, StorageMetadataV13,
};
use crate::metadata::v14::{
    PalletConstantMetadata, PalletMetadata, PalletStorageMetadata, PortableType,
    RuntimeMetadataV14, StorageEntryMetadataV14, StorageEntryTypeV14,
};
use crate::node_metadata::StorageEntryModifier;
use crate::text::opt_view;

verus! {

#[verifier::external_type_specification]
#[verifier::external_body]
pub struct ExFrameMetadata(FramePrefixed);

/// The prefix of the runtime metadata that `frame_metadata` decodes from
/// `bytes`; `None` when they do not decode.
pub uninterp spec fn spec_metadata_prefix(bytes: Seq<u8>) -> Option<u32>;

/// The version number of the runtime metadata decoded from `bytes`.
pub uninterp spec fn spec_metadata_version(bytes: Seq<u8>) -> u32;

/// Runtime metadata as `frame_metadata` decodes it, kept with the bytes it
/// was decoded from. Only [`decode_metadata`] makes one, so what is read out
/// of it is a function of those bytes.
pub struct DecodedMetadata {
    bytes: Vec<u8>,
    frame: FramePrefixed,
}

impl DecodedMetadata {
    /// The bytes the metadata was decoded from.
    pub closed spec fn source(&self) -> Seq<u8> {
        self.bytes@
    }
}

/// Calls `<frame_metadata::RuntimeMetadataPrefixed as Decode>::decode` on
/// the bytes: it succeeds exactly when they decode; the codec's error is
/// handed on.
#[verifier::external_body]
pub(crate) fn decode_metadata(bytes: &[u8]) -> (r: Result<
    DecodedMetadata,
    parity_scale_codec::Error,
>)
    ensures
        r is Ok <==> spec_metadata_prefix(bytes@) is Some,
        r matches Ok(d) ==> d.source() == bytes@,
{
    let frame = FramePrefixed::decode(&mut &bytes[..])?;
    Ok(DecodedMetadata { bytes: bytes.to_vec(), frame })
}

// ------------------------------------------------------------ names of what was decoded

/// The number of types in the registry of version 14 metadata.
pub uninterp spec fn spec_v14_type_count(bytes: Seq<u8>) -> nat;

/// The rendered path of registry type `i`, and the names of its variants
/// when it is a variant type.
pub uninterp spec fn spec_v14_type(bytes: Seq<u8>, i: int) -> (Seq<char>, Option<Seq<Seq<char>>>);

/// The number of pallets of version 14 metadata.
pub uninterp spec fn spec_v14_pallet_count(bytes: Seq<u8>) -> nat;

/// Pallet `i`: its name, index, call, event and error type ids, and its
/// storage prefix when it has storage.
pub uninterp spec fn spec_v14_pallet(bytes: Seq<u8>, i: int) -> (
    Seq<char>,
    u8,
    Option<u32>,
    Option<u32>,
    Option<u32>,
    Option<Seq<char>>,
);

/// The number of storage entries of pallet `i`; none without storage.
pub uninterp spec fn spec_v14_entry_count(bytes: Seq<u8>, i: int) -> nat;

/// Entry `j` of pallet `i`: its name, whether it is optional, and its
/// encoded default.
pub uninterp spec fn spec_v14_entry(bytes: Seq<u8>, i: int, j: int) -> (Seq<char>, bool, Seq<u8>);

/// The shape of entry `j` of pallet `i`: for a map, its number of hashers
/// and key type id; and its value type id.
pub uninterp spec fn spec_v14_entry_shape(bytes: Seq<u8>, i: int, j: int) -> (
    Option<(nat, u32)>,
    u32,
);

/// Hasher `k` of the map entry `j` of pallet `i`.
pub uninterp spec fn spec_v14_entry_hasher(bytes: Seq<u8>, i: int, j: int, k: int) -> StorageHasher;

/// The number of constants of pallet `i`.
pub uninterp spec fn spec_v14_constant_count(bytes: Seq<u8>, i: int) -> nat;

/// Constant `k` of pallet `i`: its name, type id and encoded value.
pub uninterp spec fn spec_v14_constant(bytes: Seq<u8>, i: int, k: int) -> (Seq<char>, u32, Seq<u8>);

/// The number of modules of version 13 metadata.
pub uninterp spec fn spec_v13_module_count(bytes: Seq<u8>) -> nat;

/// Module `i`: its name, index, and its storage prefix when it has storage.
pub uninterp spec fn spec_v13_module(bytes: Seq<u8>, i: int) -> (Seq<char>, u8, Option<Seq<char>>);

/// The numbers of calls and of events of module `i`, when it has them, and
/// its numbers of errors and of constants.
pub uninterp spec fn spec_v13_module_counts(bytes: Seq<u8>, i: int) -> (
    Option<nat>,
    Option<nat>,
    nat,
    nat,
);

/// The number of storage entries of module `i`; none without storage.
pub uninterp spec fn spec_v13_entry_count(bytes: Seq<u8>, i: int) -> nat;

/// Entry `j` of module `i`: its name, whether it is optional, and its
/// encoded default.
pub uninterp spec fn spec_v13_entry(bytes: Seq<u8>, i: int, j: int) -> (Seq<char>, bool, Seq<u8>);

/// The kind of entry `j` of module `i` (0 plain, 1 map, 2 double map, 3
/// map of several keys) and its number of hashers.
pub uninterp spec fn spec_v13_entry_kind(bytes: Seq<u8>, i: int, j: int) -> (u8, nat);

/// Hasher `k` of entry `j` of module `i`.
pub uninterp spec fn spec_v13_entry_hasher(bytes: Seq<u8>, i: int, j: int, k: int) -> StorageHasher;

/// The name of call `k` of module `i`.
pub uninterp spec fn spec_v13_call_name(bytes: Seq<u8>, i: int, k: int) -> Seq<char>;

/// The name of event `k` of module `i`.
pub uninterp spec fn spec_v13_event_name(bytes: Seq<u8>, i: int, k: int) -> Seq<char>;

/// The name of error `k` of module `i`.
pub uninterp spec fn spec_v13_error_name(bytes: Seq<u8>, i: int, k: int) -> Seq<char>;

/// Constant `k` of module `i`: its name, type and encoded value.
pub uninterp spec fn spec_v13_constant(bytes: Seq<u8>, i: int, k: int) -> (Seq<char>, Seq<char>, Seq<u8>);

pub open spec fn opt_names(v: Option<Vec<String>>) -> Option<Seq<Seq<char>>> {
    match v {
        Some(names) => Some(names@.map_values(|s: String| s@)),
        None => None,
    }
}

// ------------------------------------------------------------ reading what was decoded

// Each of the following reads fields of the `frame_metadata` value that
// `decode_metadata` made, converting them one for one into plain values
// (names as `String`, type ids as their `id`, hashers and modifiers as the
// library's enums). What each returns is named as a function of the bytes
// the metadata was decoded from.
impl DecodedMetadata {
    /// Reads the prefix of the decoded metadata.
    #[verifier::external_body]
    pub(crate) fn prefix(&self) -> (p: u32)
        ensures
            spec_metadata_prefix(self.source()) == Some(p),
    {
        self.frame.0
    }

    /// Calls `frame_metadata::RuntimeMetadata::version`.
    #[verifier::external_body]
    pub(crate) fn version(&self) -> (v: u32)
        ensures
            v == spec_metadata_version(self.source()),
    {
        self.frame.1.version()
    }

    /// Reads the number of registry types.
    #[verifier::external_body]
    pub(crate) fn v14_type_count(&self) -> (n: usize)
        requires
            spec_metadata_version(self.source()) == 14,
        ensures
            n == spec_v14_type_count(self.source()),
    {
        let FrameMeta::V14(m) = &self.frame.1 else { return 0 };
        m.types.types.len()
    }

    /// Reads registry type `i`: `Display` of its path, and its variant names.
    #[verifier::external_body]
    pub(crate) fn v14_type(&self, i: usize) -> (t: (String, Option<Vec<String>>))
        requires
            spec_metadata_version(self.source()) == 14,
            i < spec_v14_type_count(self.source()),
        ensures
            t.0@ == spec_v14_type(self.source(), i as int).0,
            opt_names(t.1) == spec_v14_type(self.source(), i as int).1,
    {
        let FrameMeta::V14(m) = &self.frame.1 else { return (String::new(), None) };
        let ty = &m.types.types[i].ty;
        let variants = match &ty.type_def {
            TypeDef::Variant(v) => Some(v.variants.iter().map(|x| x.name.clone()).collect()),
            _ => None,
        };
        (ty.path.to_string(), variants)
    }

    /// Reads the number of pallets.
    #[verifier::external_body]
    pub(crate) fn v14_pallet_count(&self) -> (n: usize)
        requires
            spec_metadata_version(self.source()) == 14,
        ensures
            n == spec_v14_pallet_count(self.source()),
    {
        let FrameMeta::V14(m) = &self.frame.1 else { return 0 };
        m.pallets.len()
    }

    /// Reads pallet `i`.
    #[verifier::external_body]
    pub(crate) fn v14_pallet(&self, i: usize) -> (p: (
        String,
        u8,
        Option<u32>,
        Option<u32>,
        Option<u32>,
        Option<String>,
    ))
        requires
            spec_metadata_version(self.source()) == 14,
            i < spec_v14_pallet_count(self.source()),
        ensures
            ({
                let s = spec_v14_pallet(self.source(), i as int);
                p.0@ == s.0 && p.1 == s.1 && p.2 == s.2 && p.3 == s.3 && p.4 == s.4 && opt_view(p.5)
                    == s.5
            }),
    {
        let FrameMeta::V14(m) = &self.frame.1 else { return (String::new(), 0, None, None, None, None) };
        let p = &m.pallets[i];
        let calls = p.calls.as_ref().map(|c| c.ty.id);
        let event = p.event.as_ref().map(|e| e.ty.id);
        let error = p.error.as_ref().map(|e| e.ty.id);
        (p.name.clone(), p.index, calls, event, error, p.storage.as_ref().map(|s| s.prefix.clone()))
    }

    /// Reads the number of storage entries of pallet `i`.
    #[verifier::external_body]
    pub(crate) fn v14_entry_count(&self, i: usize) -> (n: usize)
        requires
            spec_metadata_version(self.source()) == 14,
            i < spec_v14_pallet_count(self.source()),
        ensures
            n == spec_v14_entry_count(self.source(), i as int),
    {
        let FrameMeta::V14(m) = &self.frame.1 else { return 0 };
        m.pallets[i].storage.as_ref().map_or(0, |s| s.entries.len())
    }

    /// Reads entry `j` of pallet `i`.
    #[verifier::external_body]
    pub(crate) fn v14_entry(&self, i: usize, j: usize) -> (e: (String, bool, Vec<u8>))
        requires
            spec_metadata_version(self.source()) == 14,
            i < spec_v14_pallet_count(self.source()),
            j < spec_v14_entry_count(self.source(), i as int),
        ensures
            ({
                let s = spec_v14_entry(self.source(), i as int, j as int);
                e.0@ == s.0 && e.1 == s.1 && e.2@ == s.2
            }),
    {
        let FrameMeta::V14(m) = &self.frame.1 else { return (String::new(), false, Vec::new()) };
        let e = &m.pallets[i].storage.as_ref().unwrap().entries[j];
        let optional = matches!(e.modifier, f14::StorageEntryModifier::Optional);
        (e.name.clone(), optional, e.default.clone())
    }

    /// Reads the shape of entry `j` of pallet `i`.
    #[verifier::external_body]
    pub(crate) fn v14_entry_shape(&self, i: usize, j: usize) -> (r: (Option<(usize, u32)>, u32))
        requires
            spec_metadata_version(self.source()) == 14,
            i < spec_v14_pallet_count(self.source()),
            j < spec_v14_entry_count(self.source(), i as int),
        ensures
            ({
                let s = spec_v14_entry_shape(self.source(), i as int, j as int);
                r.1 == s.1 && match r.0 {
                    Some((n, key)) => s.0 == Some((n as nat, key)),
                    None => s.0 is None,
                }
            }),
    {
        let FrameMeta::V14(m) = &self.frame.1 else { return (None, 0) };
        let e = &m.pallets[i].storage.as_ref().unwrap().entries[j];
        match &e.ty {
            T14::Plain(v) => (None, v.id),
            T14::Map { hashers, key, value } => (Some((hashers.len(), key.id)), value.id),
        }
    }

    /// Reads hasher `k` of the map entry `j` of pallet `i`.
    #[verifier::external_body]
    pub(crate) fn v14_entry_hasher(&self, i: usize, j: usize, k: usize) -> (h: StorageHasher)
        requires
            spec_metadata_version(self.source()) == 14,
            i < spec_v14_pallet_count(self.source()),
            j < spec_v14_entry_count(self.source(), i as int),
            spec_v14_entry_shape(self.source(), i as int, j as int).0 matches Some((n, _)) && k < n,
        ensures
            h == spec_v14_entry_hasher(self.source(), i as int, j as int, k as int),
    {
        let FrameMeta::V14(m) = &self.frame.1 else { return StorageHasher::Identity };
        let e = &m.pallets[i].storage.as_ref().unwrap().entries[j];
        let T14::Map { hashers, .. } = &e.ty else { return StorageHasher::Identity };
        match hashers[k] {
            H14::Blake2_128 => StorageHasher::Blake2_128,
            H14::Blake2_256 => StorageHasher::Blake2_256,
            H14::Blake2_128Concat => StorageHasher::Blake2_128Concat,
            H14::Twox128 => StorageHasher::Twox128,
            H14::Twox256 => StorageHasher::Twox256,
            H14::Twox64Concat => StorageHasher::Twox64Concat,
            H14::Identity => StorageHasher::Identity,
        }
    }

    /// Reads the number of constants of pallet `i`.
    #[verifier::external_body]
    pub(crate) fn v14_constant_count(&self, i: usize) -> (n: usize)
        requires
            spec_metadata_version(self.source()) == 14,
            i < spec_v14_pallet_count(self.source()),
        ensures
            n == spec_v14_constant_count(self.source(), i as int),
    {
        let FrameMeta::V14(m) = &self.frame.1 else { return 0 };
        m.pallets[i].constants.len()
    }

    /// Reads constant `k` of pallet `i`.
    #[verifier::external_body]
    pub(crate) fn v14_constant(&self, i: usize, k: usize) -> (c: (String, u32, Vec<u8>))
        requires
            spec_metadata_version(self.source()) == 14,
            i < spec_v14_pallet_count(self.source()),
            k < spec_v14_constant_count(self.source(), i as int),
        ensures
            ({
                let s = spec_v14_constant(self.source(), i as int, k as int);
                c.0@ == s.0 && c.1 == s.1 && c.2@ == s.2
            }),
    {
        let FrameMeta::V14(m) = &self.frame.1 else { return (String::new(), 0, Vec::new()) };
        let c = &m.pallets[i].constants[k];
        (c.name.clone(), c.ty.id, c.value.clone())
    }

    /// Reads the number of modules.
    #[verifier::external_body]
    pub(crate) fn v13_module_count(&self) -> (n: usize)
        requires
            spec_metadata_version(self.source()) == 13,
        ensures
            n == spec_v13_module_count(self.source()),
    {
        let FrameMeta::V13(M13 { modules: Dd::Decoded(mods), .. }) = &self.frame.1 else { return 0 };
        mods.len()
    }

    /// Reads module `i`.
    #[verifier::external_body]
    pub(crate) fn v13_module(&self, i: usize) -> (r: (String, u8, Option<String>))
        requires
            spec_metadata_version(self.source()) == 13,
            i < spec_v13_module_count(self.source()),
        ensures
            ({
                let s = spec_v13_module(self.source(), i as int);
                r.0@ == s.0 && r.1 == s.1 && opt_view(r.2) == s.2
            }),
    {
        let FrameMeta::V13(M13 { modules: Dd::Decoded(mods), .. }) = &self.frame.1 else { return (String::new(), 0, None) };
        let md = &mods[i];
        let Dd::Decoded(name) = &md.name else { return (String::new(), md.index, None) };
        let prefix = match &md.storage {
            Some(Dd::Decoded(S13 { prefix: Dd::Decoded(p), .. })) => Some(p.clone()),
            _ => None,
        };
        (name.clone(), md.index, prefix)
    }

    /// Reads the numbers of calls, events, errors and constants of module `i`.
    #[verifier::external_body]
    pub(crate) fn v13_module_counts(&self, i: usize) -> (r: (Option<usize>, Option<usize>, usize, usize))
        requires
            spec_metadata_version(self.source()) == 13,
            i < spec_v13_module_count(self.source()),
        ensures
            ({
                let s = spec_v13_module_counts(self.source(), i as int);
                r.2 == s.2 && r.3 == s.3 && match r.0 {
                    Some(n) => s.0 == Some(n as nat),
                    None => s.0 is None,
                } && match r.1 {
                    Some(n) => s.1 == Some(n as nat),
                    None => s.1 is None,
                }
            }),
    {
        let FrameMeta::V13(M13 { modules: Dd::Decoded(mods), .. }) = &self.frame.1 else { return (None, None, 0, 0) };
        let md = &mods[i];
        let calls = match &md.calls { Some(Dd::Decoded(c)) => Some(c.len()), _ => None };
        let event = match &md.event { Some(Dd::Decoded(e)) => Some(e.len()), _ => None };
        let errors = match &md.errors { Dd::Decoded(e) => e.len(), _ => 0 };
        let constants = match &md.constants { Dd::Decoded(c) => c.len(), _ => 0 };
        (calls, event, errors, constants)
    }

    /// Reads the number of storage entries of module `i`.
    #[verifier::external_body]
    pub(crate) fn v13_entry_count(&self, i: usize) -> (n: usize)
        requires
            spec_metadata_version(self.source()) == 13,
            i < spec_v13_module_count(self.source()),
        ensures
            n == spec_v13_entry_count(self.source(), i as int),
    {
        let FrameMeta::V13(M13 { modules: Dd::Decoded(mods), .. }) = &self.frame.1 else { return 0 };
        let Some(Dd::Decoded(S13 { entries: Dd::Decoded(es), .. })) = &mods[i].storage else { return 0 };
        es.len()
    }

    /// Reads entry `j` of module `i`.
    #[verifier::external_body]
    pub(crate) fn v13_entry(&self, i: usize, j: usize) -> (e: (String, bool, Vec<u8>))
        requires
            spec_metadata_version(self.source()) == 13,
            i < spec_v13_module_count(self.source()),
            j < spec_v13_entry_count(self.source(), i as int),
        ensures
            ({
                let s = spec_v13_entry(self.source(), i as int, j as int);
                e.0@ == s.0 && e.1 == s.1 && e.2@ == s.2
            }),
    {
        let FrameMeta::V13(M13 { modules: Dd::Decoded(mods), .. }) = &self.frame.1 else { return (String::new(), false, Vec::new()) };
        let Some(Dd::Decoded(S13 { entries: Dd::Decoded(es), .. })) = &mods[i].storage else { return (String::new(), false, Vec::new()) };
        let e = &es[j];
        let name = match &e.name { Dd::Decoded(n) => n.clone(), _ => String::new() };
        let default = match &e.default { Dd::Decoded(d) => d.clone(), _ => Vec::new() };
        (name, matches!(e.modifier, f13::StorageEntryModifier::Optional), default)
    }

    /// Reads the kind and number of hashers of entry `j` of module `i`.
    #[verifier::external_body]
    pub(crate) fn v13_entry_kind(&self, i: usize, j: usize) -> (r: (u8, usize))
        requires
            spec_metadata_version(self.source()) == 13,
            i < spec_v13_module_count(self.source()),
            j < spec_v13_entry_count(self.source(), i as int),
        ensures
            (r.0, r.1 as nat) == spec_v13_entry_kind(self.source(), i as int, j as int),
    {
        let FrameMeta::V13(M13 { modules: Dd::Decoded(mods), .. }) = &self.frame.1 else { return (0, 0) };
        let Some(Dd::Decoded(S13 { entries: Dd::Decoded(es), .. })) = &mods[i].storage else { return (0, 0) };
        match &es[j].ty {
            T13::Plain(_) => (0, 0),
            T13::Map { .. } => (1, 1),
            T13::DoubleMap { .. } => (2, 2),
            T13::NMap { hashers: Dd::Decoded(h), .. } => (3, h.len()),
            T13::NMap { hashers: Dd::Encode(h), .. } => (3, h.len()),
        }
    }

    /// Reads hasher `k` of entry `j` of module `i`: the hasher of a map, the
    /// first or second hasher of a double map, hasher `k` of a map of
    /// several keys.
    #[verifier::external_body]
    pub(crate) fn v13_entry_hasher(&self, i: usize, j: usize, k: usize) -> (h: StorageHasher)
        requires
            spec_metadata_version(self.source()) == 13,
            i < spec_v13_module_count(self.source()),
            j < spec_v13_entry_count(self.source(), i as int),
            k < spec_v13_entry_kind(self.source(), i as int, j as int).1,
        ensures
            h == spec_v13_entry_hasher(self.source(), i as int, j as int, k as int),
    {
        let FrameMeta::V13(M13 { modules: Dd::Decoded(mods), .. }) = &self.frame.1 else { return Identity };
        let Some(Dd::Decoded(S13 { entries: Dd::Decoded(es), .. })) = &mods[i].storage else { return Identity };
        let h = match &es[j].ty {
            T13::Map { hasher, .. } => hasher,
            T13::DoubleMap { hasher, key2_hasher, .. } => [hasher, key2_hasher][k],
            T13::NMap { hashers: Dd::Decoded(h), .. } => &h[k],
            _ => return Identity,
        };
        match h {
            H13::Blake2_128 => Blake2_128, H13::Blake2_256 => Blake2_256,
            H13::Blake2_128Concat => Blake2_128Concat, H13::Twox128 => Twox128,
            H13::Twox256 => Twox256, H13::Twox64Concat => Twox64Concat,
            H13::Identity => Identity,
        }
    }

    /// Reads the name of call `k` of module `i`.
    #[verifier::external_body]
    pub(crate) fn v13_call_name(&self, i: usize, k: usize) -> (name: String)
        requires
            spec_metadata_version(self.source()) == 13,
            i < spec_v13_module_count(self.source()),
            spec_v13_module_counts(self.source(), i as int).0 matches Some(n) && k < n,
        ensures
            name@ == spec_v13_call_name(self.source(), i as int, k as int),
    {
        let FrameMeta::V13(M13 { modules: Dd::Decoded(mods), .. }) = &self.frame.1 else { return String::new() };
        let Some(Dd::Decoded(items)) = &mods[i].calls else { return String::new() };
        match &items[k].name { Dd::Decoded(n) => n.clone(), _ => String::new() }
    }

    /// Reads the name of event `k` of module `i`.
    #[verifier::external_body]
    pub(crate) fn v13_event_name(&self, i: usize, k: usize) -> (name: String)
        requires
            spec_metadata_version(self.source()) == 13,
            i < spec_v13_module_count(self.source()),
            spec_v13_module_counts(self.source(), i as int).1 matches Some(n) && k < n,
        ensures
            name@ == spec_v13_event_name(self.source(), i as int, k as int),
    {
        let FrameMeta::V13(M13 { modules: Dd::Decoded(mods), .. }) = &self.frame.1 else { return String::new() };
        let Some(Dd::Decoded(items)) = &mods[i].event else { return String::new() };
        match &items[k].name { Dd::Decoded(n) => n.clone(), _ => String::new() }
    }

    /// Reads the name of error `k` of module `i`.
    #[verifier::external_body]
    pub(crate) fn v13_error_name(&self, i: usize, k: usize) -> (name: String)
        requires
            spec_metadata_version(self.source()) == 13,
            i < spec_v13_module_count(self.source()),
            k < spec_v13_module_counts(self.source(), i as int).2,
        ensures
            name@ == spec_v13_error_name(self.source(), i as int, k as int),
    {
        let FrameMeta::V13(M13 { modules: Dd::Decoded(mods), .. }) = &self.frame.1 else { return String::new() };
        let Dd::Decoded(items) = &mods[i].errors else { return String::new() };
        match &items[k].name { Dd::Decoded(n) => n.clone(), _ => String::new() }
    }

    /// Reads constant `k` of module `i`.
    #[verifier::external_body]
    pub(crate) fn v13_constant(&self, i: usize, k: usize) -> (c: (String, String, Vec<u8>))
        requires
            spec_metadata_version(self.source()) == 13,
            i < spec_v13_module_count(self.source()),
            k < spec_v13_module_counts(self.source(), i as int).3,
        ensures
            ({
                let s = spec_v13_constant(self.source(), i as int, k as int);
                c.0@ == s.0 && c.1@ == s.1 && c.2@ == s.2
            }),
    {
        let FrameMeta::V13(M13 { modules: Dd::Decoded(mods), .. }) = &self.frame.1 else { return (String::new(), String::new(), Vec::new()) };
        let Dd::Decoded(cs) = &mods[i].constants else { return (String::new(), String::new(), Vec::new()) };
        let c = &cs[k];
        let name = match &c.name { Dd::Decoded(n) => n.clone(), _ => String::new() };
        let ty = match &c.ty { Dd::Decoded(t) => t.clone(), _ => String::new() };
        let value = match &c.value { Dd::Decoded(v) => v.clone(), _ => Vec::new() };
        (name, ty, value)
    }
}


// ------------------------------------------------------------ the metadata the bytes describe

/// The modifier of an entry that is optional or not.
pub open spec fn modifier_of(optional: bool) -> StorageEntryModifier {
    if optional {
        StorageEntryModifier::Optional
    } else {
        StorageEntryModifier::Default
    }
}

/// Registry type `i` read from `bytes` is `t`.
pub open spec fn v14_type_matches(t: PortableType, bytes: Seq<u8>, i: int) -> bool {
    t.path@ == spec_v14_type(bytes, i).0 && opt_names(t.variants) == spec_v14_type(bytes, i).1
}

/// Entry `j` of pallet `i` read from `bytes` is `e`.
pub open spec fn v14_entry_matches(e: StorageEntryMetadataV14, bytes: Seq<u8>, i: int, j: int) -> bool {
    let s = spec_v14_entry(bytes, i, j);
    let shape = spec_v14_entry_shape(bytes, i, j);
    &&& e.name@ == s.0
    &&& e.modifier == modifier_of(s.1)
    &&& e.default@ == s.2
    &&& match shape.0 {
        None => e.ty == (StorageEntryTypeV14::Plain { value: shape.1 }),
        Some((n, key)) => e.ty matches StorageEntryTypeV14::HashedMap { hashers, key: k2, value: v2 }
            && k2 == key && v2 == shape.1 && hashers@.len() == n && forall|k: int|
            0 <= k < n ==> #[trigger] hashers@[k] == spec_v14_entry_hasher(bytes, i, j, k),
    }
}

/// Constant `k` of pallet `i` read from `bytes` is `c`.
pub open spec fn v14_constant_matches(c: PalletConstantMetadata, bytes: Seq<u8>, i: int, k: int) -> bool {
    let s = spec_v14_constant(bytes, i, k);
    c.name@ == s.0 && c.ty == s.1 && c.value@ == s.2
}

/// Pallet `i` read from `bytes` is `p`.
pub open spec fn v14_pallet_matches(p: PalletMetadata, bytes: Seq<u8>, i: int) -> bool {
    let s = spec_v14_pallet(bytes, i);
    &&& p.name@ == s.0
    &&& p.index == s.1
    &&& p.calls == s.2
    &&& p.event == s.3
    &&& p.error == s.4
    &&& match s.5 {
        None => p.storage is None,
        Some(prefix) => p.storage matches Some(st) && st.prefix@ == prefix && st.entries@.len()
            == spec_v14_entry_count(bytes, i) && forall|j: int|
            0 <= j < st.entries@.len() ==> v14_entry_matches(#[trigger] st.entries@[j], bytes, i, j),
    }
    &&& p.constants@.len() == spec_v14_constant_count(bytes, i)
    &&& forall|k: int|
        0 <= k < p.constants@.len() ==> v14_constant_matches(#[trigger] p.constants@[k], bytes, i, k)
}

/// `m` is the version 14 metadata that `frame_metadata` decodes from `bytes`.
pub open spec fn v14_matches(m: RuntimeMetadataV14, bytes: Seq<u8>) -> bool {
    &&& m.types@.len() == spec_v14_type_count(bytes)
    &&& forall|i: int| 0 <= i < m.types@.len() ==> v14_type_matches(#[trigger] m.types@[i], bytes, i)
    &&& m.pallets@.len() == spec_v14_pallet_count(bytes)
    &&& forall|i: int|
        0 <= i < m.pallets@.len() ==> v14_pallet_matches(#[trigger] m.pallets@[i], bytes, i)
}

fn read_v14_entry(d: &DecodedMetadata, i: usize, j: usize) -> (e: StorageEntryMetadataV14)
    requires
        spec_metadata_version(d.source()) == 14,
        i < spec_v14_pallet_count(d.source()),
        j < spec_v14_entry_count(d.source(), i as int),
    ensures
        v14_entry_matches(e, d.source(), i as int, j as int),
{
    let (name, optional, default) = d.v14_entry(i, j);
    let (shape, value) = d.v14_entry_shape(i, j);
    let ty = match shape {
        None => StorageEntryTypeV14::Plain { value },
        Some((n, key)) => {
            let mut hashers: Vec<StorageHasher> = Vec::new();
            for k in 0..n
                invariant
                    spec_metadata_version(d.source()) == 14,
                    i < spec_v14_pallet_count(d.source()),
                    j < spec_v14_entry_count(d.source(), i as int),
                    spec_v14_entry_shape(d.source(), i as int, j as int).0 == Some((n as nat, key)),
                    hashers@.len() == k,
                    forall|l: int|
                        0 <= l < k ==> #[trigger] hashers@[l] == spec_v14_entry_hasher(
                            d.source(),
                            i as int,
                            j as int,
                            l,
                        ),
            {
                hashers.push(d.v14_entry_hasher(i, j, k));
            }
            StorageEntryTypeV14::HashedMap { hashers, key, value }
        },
    };
    let modifier = if optional {
        StorageEntryModifier::Optional
    } else {
        StorageEntryModifier::Default
    };
    StorageEntryMetadataV14 { name, modifier, ty, default }
}

fn read_v14_pallet(d: &DecodedMetadata, i: usize) -> (p: PalletMetadata)
    requires
        spec_metadata_version(d.source()) == 14,
        i < spec_v14_pallet_count(d.source()),
    ensures
        v14_pallet_matches(p, d.source(), i as int),
{
    let (name, index, calls, event, error, prefix) = d.v14_pallet(i);
    let storage = match prefix {
        Some(prefix) => {
            let n = d.v14_entry_count(i);
            let mut entries: Vec<StorageEntryMetadataV14> = Vec::new();
            for j in 0..n
                invariant
                    spec_metadata_version(d.source()) == 14,
                    i < spec_v14_pallet_count(d.source()),
                    n == spec_v14_entry_count(d.source(), i as int),
                    entries@.len() == j,
                    forall|l: int|
                        0 <= l < j ==> v14_entry_matches(#[trigger] entries@[l], d.source(), i as int, l),
            {
                entries.push(read_v14_entry(d, i, j));
            }
            Some(PalletStorageMetadata { prefix, entries })
        },
        None => None,
    };
    let m = d.v14_constant_count(i);
    let mut constants: Vec<PalletConstantMetadata> = Vec::new();
    for k in 0..m
        invariant
            spec_metadata_version(d.source()) == 14,
            i < spec_v14_pallet_count(d.source()),
            m == spec_v14_constant_count(d.source(), i as int),
            constants@.len() == k,
            forall|l: int|
                0 <= l < k ==> v14_constant_matches(#[trigger] constants@[l], d.source(), i as int, l),
    {
        let (name, ty, value) = d.v14_constant(i, k);
        constants.push(PalletConstantMetadata { name, ty, value });
    }
    PalletMetadata { name, storage, calls, event, constants, error, index }
}

/// Reads version 14 metadata out of what was decoded.
pub(crate) fn read_v14(d: &DecodedMetadata) -> (m: RuntimeMetadataV14)
    requires
        spec_metadata_version(d.source()) == 14,
    ensures
        v14_matches(m, d.source()),
{
    let n = d.v14_type_count();
    let mut types: Vec<PortableType> = Vec::new();
    for i in 0..n
        invariant
            spec_metadata_version(d.source()) == 14,
            n == spec_v14_type_count(d.source()),
            types@.len() == i,
            forall|l: int| 0 <= l < i ==> v14_type_matches(#[trigger] types@[l], d.source(), l),
    {
        let (path, variants) = d.v14_type(i);
        types.push(PortableType { path, variants });
    }
    let n = d.v14_pallet_count();
    let mut pallets: Vec<PalletMetadata> = Vec::new();
    for i in 0..n
        invariant
            spec_metadata_version(d.source()) == 14,
            n == spec_v14_pallet_count(d.source()),
            pallets@.len() == i,
            forall|l: int| 0 <= l < i ==> v14_pallet_matches(#[trigger] pallets@[l], d.source(), l),
    {
        pallets.push(read_v14_pallet(d, i));
    }
    RuntimeMetadataV14 { types, pallets }
}


/// `d` is decoded and holds the string `s`.
pub open spec fn decoded_str(d: DecodeDifferent<String>, s: Seq<char>) -> bool {
    d matches DecodeDifferent::Decoded(v) && v@ == s
}

/// Entry `j` of module `i` read from `bytes` is `e`.
pub open spec fn v13_entry_matches(e: StorageEntryMetadataV13, bytes: Seq<u8>, i: int, j: int) -> bool {
    let s = spec_v13_entry(bytes, i, j);
    let (kind, n) = spec_v13_entry_kind(bytes, i, j);
    &&& decoded_str(e.name, s.0)
    &&& e.modifier == modifier_of(s.1)
    &&& e.default matches DecodeDifferent::Decoded(v) && v@ == s.2
    &&& if kind == 0 {
        e.ty == StorageEntryTypeV13::Plain
    } else if kind == 1 && n >= 1 {
        e.ty == (StorageEntryTypeV13::HashedMap { hasher: spec_v13_entry_hasher(bytes, i, j, 0) })
    } else if kind == 2 && n >= 2 {
        e.ty == (StorageEntryTypeV13::DoubleMap {
            hasher: spec_v13_entry_hasher(bytes, i, j, 0),
            key2_hasher: spec_v13_entry_hasher(bytes, i, j, 1),
        })
    } else {
        e.ty matches StorageEntryTypeV13::NMap { hashers: DecodeDifferent::Decoded(hs) } && hs@.len()
            == n && forall|k: int|
            0 <= k < n ==> #[trigger] hs@[k] == spec_v13_entry_hasher(bytes, i, j, k)
    }
}

/// Named items `items` are decoded, `n` of them, with names `name(k)`.
pub open spec fn v13_names_match(
    items: DecodeDifferent<Vec<NamedMetadataV13>>,
    n: nat,
    name: spec_fn(int) -> Seq<char>,
) -> bool {
    items matches DecodeDifferent::Decoded(v) && v@.len() == n && forall|k: int|
        0 <= k < n ==> decoded_str(#[trigger] v@[k].name, name(k))
}

/// Constant `k` of module `i` read from `bytes` is `c`.
pub open spec fn v13_constant_matches(c: ModuleConstantMetadataV13, bytes: Seq<u8>, i: int, k: int) -> bool {
    let s = spec_v13_constant(bytes, i, k);
    &&& decoded_str(c.name, s.0)
    &&& decoded_str(c.ty, s.1)
    &&& c.value matches DecodeDifferent::Decoded(v) && v@ == s.2
}

/// The storage of module `i` read from `bytes` is `st`, with prefix `prefix`.
pub open spec fn v13_storage_matches(st: StorageMetadataV13, bytes: Seq<u8>, i: int, prefix: Seq<char>) -> bool {
    &&& decoded_str(st.prefix, prefix)
    &&& st.entries matches DecodeDifferent::Decoded(es) && es@.len() == spec_v13_entry_count(bytes, i)
        && forall|j: int| 0 <= j < es@.len() ==> v13_entry_matches(#[trigger] es@[j], bytes, i, j)
}

/// Module `i` read from `bytes` is `m`.
pub open spec fn v13_module_matches(m: ModuleMetadataV13, bytes: Seq<u8>, i: int) -> bool {
    let s = spec_v13_module(bytes, i);
    let c = spec_v13_module_counts(bytes, i);
    &&& decoded_str(m.name, s.0)
    &&& m.index == s.1
    &&& match s.2 {
        None => m.storage is None,
        Some(prefix) => m.storage matches Some(DecodeDifferent::Decoded(st)) && v13_storage_matches(
            st,
            bytes,
            i,
            prefix,
        ),
    }
    &&& match c.0 {
        None => m.calls is None,
        Some(n) => m.calls matches Some(cs) && v13_names_match(
            cs,
            n,
            |k: int| spec_v13_call_name(bytes, i, k),
        ),
    }
    &&& match c.1 {
        None => m.event is None,
        Some(n) => m.event matches Some(es) && v13_names_match(
            es,
            n,
            |k: int| spec_v13_event_name(bytes, i, k),
        ),
    }
    &&& v13_names_match(m.errors, c.2, |k: int| spec_v13_error_name(bytes, i, k))
    &&& m.constants matches DecodeDifferent::Decoded(cs) && cs@.len() == c.3 && forall|k: int|
        0 <= k < c.3 ==> v13_constant_matches(#[trigger] cs@[k], bytes, i, k)
}

/// `m` is the version 13 metadata that `frame_metadata` decodes from `bytes`.
pub open spec fn v13_matches(m: RuntimeMetadataV13, bytes: Seq<u8>) -> bool {
    m.modules matches DecodeDifferent::Decoded(mods) && mods@.len() == spec_v13_module_count(bytes)
        && forall|i: int|
        0 <= i < mods@.len() ==> v13_module_matches(#[trigger] mods@[i], bytes, i)
}

fn read_v13_entry(d: &DecodedMetadata, i: usize, j: usize) -> (e: StorageEntryMetadataV13)
    requires
        spec_metadata_version(d.source()) == 13,
        i < spec_v13_module_count(d.source()),
        j < spec_v13_entry_count(d.source(), i as int),
    ensures
        v13_entry_matches(e, d.source(), i as int, j as int),
{
    let (name, optional, default) = d.v13_entry(i, j);
    let (kind, n) = d.v13_entry_kind(i, j);
    let ty = if kind == 0 {
        StorageEntryTypeV13::Plain
    } else if kind == 1 && n >= 1 {
        StorageEntryTypeV13::HashedMap { hasher: d.v13_entry_hasher(i, j, 0) }
    } else if kind == 2 && n >= 2 {
        let hasher = d.v13_entry_hasher(i, j, 0);
        let key2_hasher = d.v13_entry_hasher(i, j, 1);
        StorageEntryTypeV13::DoubleMap { hasher, key2_hasher }
    } else {
        let mut hashers: Vec<StorageHasher> = Vec::new();
        for k in 0..n
            invariant
                spec_metadata_version(d.source()) == 13,
                i < spec_v13_module_count(d.source()),
                j < spec_v13_entry_count(d.source(), i as int),
                spec_v13_entry_kind(d.source(), i as int, j as int).1 == n,
                hashers@.len() == k,
                forall|l: int|
                    0 <= l < k ==> #[trigger] hashers@[l] == spec_v13_entry_hasher(
                        d.source(),
                        i as int,
                        j as int,
                        l,
                    ),
        {
            hashers.push(d.v13_entry_hasher(i, j, k));
        }
        StorageEntryTypeV13::NMap { hashers: DecodeDifferent::Decoded(hashers) }
    };
    let modifier = if optional {
        StorageEntryModifier::Optional
    } else {
        StorageEntryModifier::Default
    };
    StorageEntryMetadataV13 {
        name: DecodeDifferent::Decoded(name),
        modifier,
        ty,
        default: DecodeDifferent::Decoded(default),
    }
}

fn read_v13_storage(d: &DecodedMetadata, i: usize, prefix: String) -> (s: StorageMetadataV13)
    requires
        spec_metadata_version(d.source()) == 13,
        i < spec_v13_module_count(d.source()),
    ensures
        v13_storage_matches(s, d.source(), i as int, prefix@),
{
    let n = d.v13_entry_count(i);
    let mut entries: Vec<StorageEntryMetadataV13> = Vec::new();
    for j in 0..n
        invariant
            spec_metadata_version(d.source()) == 13,
            i < spec_v13_module_count(d.source()),
            n == spec_v13_entry_count(d.source(), i as int),
            entries@.len() == j,
            forall|l: int|
                0 <= l < j ==> v13_entry_matches(#[trigger] entries@[l], d.source(), i as int, l),
    {
        entries.push(read_v13_entry(d, i, j));
    }
    StorageMetadataV13 {
        prefix: DecodeDifferent::Decoded(prefix),
        entries: DecodeDifferent::Decoded(entries),
    }
}

/// Reads the names of the calls (`part` 0), events (1) or errors (2) of module `i`.
fn read_v13_names(d: &DecodedMetadata, i: usize, part: u8, n: usize) -> (r: DecodeDifferent<
    Vec<NamedMetadataV13>,
>)
    requires
        spec_metadata_version(d.source()) == 13,
        i < spec_v13_module_count(d.source()),
        part < 3,
        part == 0 ==> spec_v13_module_counts(d.source(), i as int).0 == Some(n as nat),
        part == 1 ==> spec_v13_module_counts(d.source(), i as int).1 == Some(n as nat),
        part == 2 ==> spec_v13_module_counts(d.source(), i as int).2 == n,
    ensures
        part == 0 ==> v13_names_match(r, n as nat, |k: int| spec_v13_call_name(d.source(), i as int, k)),
        part == 1 ==> v13_names_match(r, n as nat, |k: int| spec_v13_event_name(d.source(), i as int, k)),
        part == 2 ==> v13_names_match(r, n as nat, |k: int| spec_v13_error_name(d.source(), i as int, k)),
{
    let mut names: Vec<NamedMetadataV13> = Vec::new();
    for k in 0..n
        invariant
            spec_metadata_version(d.source()) == 13,
            i < spec_v13_module_count(d.source()),
            part < 3,
            part == 0 ==> spec_v13_module_counts(d.source(), i as int).0 == Some(n as nat),
            part == 1 ==> spec_v13_module_counts(d.source(), i as int).1 == Some(n as nat),
            part == 2 ==> spec_v13_module_counts(d.source(), i as int).2 == n,
            names@.len() == k,
            forall|l: int|
                0 <= l < k ==> decoded_str(
                    #[trigger] names@[l].name,
                    if part == 0 {
                        spec_v13_call_name(d.source(), i as int, l)
                    } else if part == 1 {
                        spec_v13_event_name(d.source(), i as int, l)
                    } else {
                        spec_v13_error_name(d.source(), i as int, l)
                    },
                ),
    {
        let name = if part == 0 {
            d.v13_call_name(i, k)
        } else if part == 1 {
            d.v13_event_name(i, k)
        } else {
            d.v13_error_name(i, k)
        };
        names.push(NamedMetadataV13 { name: DecodeDifferent::Decoded(name) });
    }
    DecodeDifferent::Decoded(names)
}

fn read_v13_module(d: &DecodedMetadata, i: usize) -> (m: ModuleMetadataV13)
    requires
        spec_metadata_version(d.source()) == 13,
        i < spec_v13_module_count(d.source()),
    ensures
        v13_module_matches(m, d.source(), i as int),
{
    let (name, index, prefix) = d.v13_module(i);
    let (calls_n, event_n, errors_n, constants_n) = d.v13_module_counts(i);
    let storage = match prefix {
        Some(p) => Some(DecodeDifferent::Decoded(read_v13_storage(d, i, p))),
        None => None,
    };
    let calls = match calls_n {
        Some(n) => Some(read_v13_names(d, i, 0, n)),
        None => None,
    };
    let event = match event_n {
        Some(n) => Some(read_v13_names(d, i, 1, n)),
        None => None,
    };
    let errors = read_v13_names(d, i, 2, errors_n);
    let mut constants: Vec<ModuleConstantMetadataV13> = Vec::new();
    for k in 0..constants_n
        invariant
            spec_metadata_version(d.source()) == 13,
            i < spec_v13_module_count(d.source()),
            spec_v13_module_counts(d.source(), i as int).3 == constants_n,
            constants@.len() == k,
            forall|l: int|
                0 <= l < k ==> v13_constant_matches(#[trigger] constants@[l], d.source(), i as int, l),
    {
        let (name, ty, value) = d.v13_constant(i, k);
        constants.push(
            ModuleConstantMetadataV13 {
                name: DecodeDifferent::Decoded(name),
                ty: DecodeDifferent::Decoded(ty),
                value: DecodeDifferent::Decoded(value),
            },
        );
    }
    ModuleMetadataV13 {
        name: DecodeDifferent::Decoded(name),
        storage,
        calls,
        event,
        constants: DecodeDifferent::Decoded(constants),
        errors,
        index,
    }
}

/// Reads version 13 metadata out of what was decoded.
pub(crate) fn read_v13(d: &DecodedMetadata) -> (m: RuntimeMetadataV13)
    requires
        spec_metadata_version(d.source()) == 13,
    ensures
        v13_matches(m, d.source()),
{
    let n = d.v13_module_count();
    let mut modules: Vec<ModuleMetadataV13> = Vec::new();
    for i in 0..n
        invariant
            spec_metadata_version(d.source()) == 13,
            n == spec_v13_module_count(d.source()),
            modules@.len() == i,
            forall|l: int| 0 <= l < i ==> v13_module_matches(#[trigger] modules@[l], d.source(), l),
    {
        modules.push(read_v13_module(d, i));
    }
    RuntimeMetadataV13 { modules: DecodeDifferent::Decoded(modules) }
}


proof fn lemma_names_decoded(items: DecodeDifferent<Vec<NamedMetadataV13>>, n: nat, name: spec_fn(int) -> Seq<char>)
    requires
        v13_names_match(items, n, name),
    ensures
        names_decoded(items),
{
    let v = items->Decoded_0;
    assert forall|k: int| 0 <= k < v@.len() implies (#[trigger] v@[k]).name is Decoded by {
        assert(decoded_str(v@[k].name, name(k)));
    }
}

/// Metadata of version 13 that the bytes describe holds only decoded values.
pub proof fn lemma_v13_read_is_decoded(m: RuntimeMetadataV13, bytes: Seq<u8>)
    requires
        v13_matches(m, bytes),
    ensures
        v13_decoded(m),
{
    let mods = m.modules->Decoded_0;
    assert forall|i: int| 0 <= i < mods@.len() implies module_decoded(#[trigger] mods@[i]) by {
        let md = mods@[i];
        assert(v13_module_matches(md, bytes, i));
        let c = spec_v13_module_counts(bytes, i);
        if let Some(n) = c.0 {
            lemma_names_decoded(md.calls->0, n, |k: int| spec_v13_call_name(bytes, i, k));
        }
        if let Some(n) = c.1 {
            lemma_names_decoded(md.event->0, n, |k: int| spec_v13_event_name(bytes, i, k));
        }
        lemma_names_decoded(md.errors, c.2, |k: int| spec_v13_error_name(bytes, i, k));
        let cs = md.constants->Decoded_0;
        assert forall|k: int| 0 <= k < cs@.len() implies crate::metadata::v13::constant_decoded(
            #[trigger] cs@[k],
        ) by {
            assert(v13_constant_matches(cs@[k], bytes, i, k));
        }
        assert(constants_decoded(md.constants));
        if let Some(prefix) = spec_v13_module(bytes, i).2 {
            let st = md.storage->0->Decoded_0;
            assert(v13_storage_matches(st, bytes, i, prefix));
            let es = st.entries->Decoded_0;
            assert forall|j: int| 0 <= j < es@.len() implies crate::metadata::v13::entry_decoded(
                #[trigger] es@[j],
            ) by {
                assert(v13_entry_matches(es@[j], bytes, i, j));
            }
        }
        assert(storage_decoded(md.storage));
    }
}

} // verus!
