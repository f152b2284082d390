use vstd::prelude::*;

use crate::assoc::{seq_lookup, AssocMap, MapKey};
use crate::hashing::{
    key_hash, spec_key_hash, spec_twox_128, twox_128, StorageHasher,
};

verus! {

/// Why runtime metadata could not be turned into a [`Metadata`].
#[derive(Debug, Clone, PartialEq, Eq)]
pub enum ConversionError {
    InvalidPrefix,
    InvalidVersion,
    ExpectedDecoded,
    InvalidEventArg(String, &'static str),
}

/// Why a lookup in the metadata failed.
#[derive(Debug, Clone, PartialEq, Eq)]
pub enum MetadataError {
    Conversion(ConversionError),
    ModuleNotFound(String),
    ModuleWithEventsNotFound(u8),
    CallNotFound(&'static str),
    EventNotFound(u8),
    StorageNotFound(&'static str),
    StorageTypeError,
    MapValueTypeError,
    ModuleWithErrorsNotFound(u8),
    ErrorNotFound(u8),
    ModuleWithConstantsNotFound(u8),
    ConstantNotFound(String),
}

/// The raw key of a storage item.
#[derive(Debug, Clone, PartialEq, Eq)]
pub struct StorageKey(pub Vec<u8>);

/// Whether a storage item without a value reads as `None` or as its default.
#[derive(Clone, Copy, Debug, PartialEq, Eq, Structural)]
pub enum StorageEntryModifier {
    Optional,
    Default,
}

/// The shape of a storage item: a single value, or a map hashed with one
/// hasher per key.
#[derive(Clone, Debug, PartialEq, Eq)]
pub enum StorageEntryType {
    Plain,
    HashedMap { hashers: Vec<StorageHasher> },
}

pub enum StorageEntryTypeView {
    Plain,
    HashedMap(Seq<StorageHasher>),
}

impl View for StorageEntryType {
    type V = StorageEntryTypeView;

    open spec fn view(&self) -> StorageEntryTypeView {
        match self {
            StorageEntryType::Plain => StorageEntryTypeView::Plain,
            StorageEntryType::HashedMap { hashers } => StorageEntryTypeView::HashedMap(hashers@),
        }
    }
}

/// The key prefix that all storage items of `storage_prefix` in `module_prefix` share.
pub open spec fn spec_prefix_key(module_prefix: Seq<u8>, storage_prefix: Seq<u8>) -> Seq<u8> {
    spec_twox_128(module_prefix) + spec_twox_128(storage_prefix)
}

/// The UTF-8 bytes of a name.
pub open spec fn utf8(s: Seq<char>) -> Seq<u8> {
    vstd::utf8::encode_utf8(s)
}

fn string_bytes(s: &String) -> (bytes: Vec<u8>)
    ensures
        bytes@ == utf8(s@),
{
    vstd::slice::slice_to_vec(s.as_str().as_bytes())
}

fn prefix_key(module_prefix: &[u8], storage_prefix: &[u8]) -> (key: Vec<u8>)
    ensures
        key@ == spec_prefix_key(module_prefix@, storage_prefix@),
        key@.len() == 32,
{
    let mut bytes = twox_128(module_prefix);
    let second = twox_128(storage_prefix);
    bytes.extend_from_slice(second.as_slice());
    bytes
}

// ---------------------------------------------------------------- storage items

pub struct StorageMetadataView {
    pub module_prefix: Seq<char>,
    pub storage_prefix: Seq<char>,
    pub modifier: StorageEntryModifier,
    pub ty: StorageEntryTypeView,
    pub default: Seq<u8>,
}

/// What the metadata says of one storage item.
#[derive(Clone, Debug)]
pub struct StorageMetadata {
    module_prefix: String,
    storage_prefix: String,
    modifier: StorageEntryModifier,
    ty: StorageEntryType,
    default: Vec<u8>,
}

impl View for StorageMetadata {
    type V = StorageMetadataView;

    closed spec fn view(&self) -> StorageMetadataView {
        StorageMetadataView {
            module_prefix: self.module_prefix@,
            storage_prefix: self.storage_prefix@,
            modifier: self.modifier,
            ty: self.ty@,
            default: self.default@,
        }
    }
}

/// A plain storage value: its key is fixed by the two prefixes.
#[derive(Clone, Debug)]
pub struct StorageValue {
    module_prefix: Vec<u8>,
    storage_prefix: Vec<u8>,
}

/// A storage map: its keys extend the prefix key by the hashed map key.
#[derive(Clone, Debug)]
pub struct StorageMap {
    module_prefix: Vec<u8>,
    storage_prefix: Vec<u8>,
    hasher: StorageHasher,
    default: Vec<u8>,
}

/// A storage double map: its keys extend the prefix key by both hashed keys.
#[derive(Clone, Debug)]
pub struct StorageDoubleMap {
    module_prefix: Vec<u8>,
    storage_prefix: Vec<u8>,
    hasher: StorageHasher,
    key2_hasher: StorageHasher,
    default: Vec<u8>,
}

impl StorageMetadata {
    pub(crate) fn new(
        module_prefix: String,
        storage_prefix: String,
        modifier: StorageEntryModifier,
        ty: StorageEntryType,
        default: Vec<u8>,
    ) -> (m: Self)
        ensures
            m@ == (StorageMetadataView {
                module_prefix: module_prefix@,
                storage_prefix: storage_prefix@,
                modifier,
                ty: ty@,
                default: default@,
            }),
    {
        StorageMetadata { module_prefix, storage_prefix, modifier, ty, default }
    }

    /// The shape of the item.
    pub fn ty(&self) -> (ty: &StorageEntryType)
        ensures
            ty@ == self@.ty,
    {
        &self.ty
    }

    /// The modifier of the item.
    pub fn modifier(&self) -> (modifier: StorageEntryModifier)
        ensures
            modifier == self@.modifier,
    {
        self.modifier
    }

    /// The encoded default value of the item.
    pub fn default(&self) -> (d: Vec<u8>)
        ensures
            d@ == self@.default,
    {
        self.default.clone()
    }

    /// The item as a double map; the item must be a map with two hashers when
    /// it is a map. `value_decodes` says whether the item's default value
    /// decodes as the map's value type, which the caller decodes.
    pub fn get_double_map(&self, value_decodes: bool) -> (r: Result<StorageDoubleMap, MetadataError>)
        requires
            self@.ty matches StorageEntryTypeView::HashedMap(h) ==> h.len() == 2,
        ensures
            self@.ty is Plain ==> r == Err::<StorageDoubleMap, MetadataError>(
                MetadataError::StorageTypeError,
            ),
            self@.ty is HashedMap && !value_decodes ==> r == Err::<StorageDoubleMap, MetadataError>(
                MetadataError::MapValueTypeError,
            ),
            value_decodes ==> (self@.ty matches StorageEntryTypeView::HashedMap(h) ==> (r matches Ok(m) && m@
                == (StorageDoubleMapView {
                module_prefix: utf8(self@.module_prefix),
                storage_prefix: utf8(self@.storage_prefix),
                hasher: h[0],
                key2_hasher: h[1],
                default: self@.default,
            }))),
    {
        match &self.ty {
            StorageEntryType::HashedMap { hashers } => {
                if !value_decodes {
                    return Err(MetadataError::MapValueTypeError);
                }
                let module_prefix = string_bytes(&self.module_prefix);
                let storage_prefix = string_bytes(&self.storage_prefix);
                let hasher = hashers[0];
                let key2_hasher = hashers[1];
                let default = self.default.clone();
                Ok(StorageDoubleMap { module_prefix, storage_prefix, hasher, key2_hasher, default })
            },
            StorageEntryType::Plain => Err(MetadataError::StorageTypeError),
        }
    }

    /// The item as a map; the item must be a map with one hasher when it is a
    /// map. `value_decodes` says whether the item's default value decodes as
    /// the map's value type, which the caller decodes.
    pub fn get_map(&self, value_decodes: bool) -> (r: Result<StorageMap, MetadataError>)
        requires
            self@.ty matches StorageEntryTypeView::HashedMap(h) ==> h.len() == 1,
        ensures
            self@.ty is Plain ==> r == Err::<StorageMap, MetadataError>(
                MetadataError::StorageTypeError,
            ),
            self@.ty is HashedMap && !value_decodes ==> r == Err::<StorageMap, MetadataError>(
                MetadataError::MapValueTypeError,
            ),
            value_decodes ==> (self@.ty matches StorageEntryTypeView::HashedMap(h) ==> (r matches Ok(m) && m@
                == (StorageMapView {
                module_prefix: utf8(self@.module_prefix),
                storage_prefix: utf8(self@.storage_prefix),
                hasher: h[0],
                default: self@.default,
            }))),
    {
        match &self.ty {
            StorageEntryType::HashedMap { hashers } => {
                if !value_decodes {
                    return Err(MetadataError::MapValueTypeError);
                }
                let module_prefix = string_bytes(&self.module_prefix);
                let storage_prefix = string_bytes(&self.storage_prefix);
                let hasher = hashers[0];
                let default = self.default.clone();
                Ok(StorageMap { module_prefix, storage_prefix, hasher, default })
            },
            StorageEntryType::Plain => Err(MetadataError::StorageTypeError),
        }
    }

    /// The key prefix shared by all entries of a map item.
    pub fn get_map_prefix(&self) -> (r: Result<StorageKey, MetadataError>)
        ensures
            self@.ty is Plain ==> r == Err::<StorageKey, MetadataError>(
                MetadataError::StorageTypeError,
            ),
            self@.ty is HashedMap ==> (r matches Ok(k) && k.0@ == spec_prefix_key(
                utf8(self@.module_prefix),
                utf8(self@.storage_prefix),
            ) && k.0@.len() == 32),
    {
        match &self.ty {
            StorageEntryType::HashedMap { .. } => {
                let module_prefix = string_bytes(&self.module_prefix);
                let storage_prefix = string_bytes(&self.storage_prefix);
                Ok(StorageKey(prefix_key(module_prefix.as_slice(), storage_prefix.as_slice())))
            },
            StorageEntryType::Plain => Err(MetadataError::StorageTypeError),
        }
    }

    /// The item as a plain value.
    pub fn get_value(&self) -> (r: Result<StorageValue, MetadataError>)
        ensures
            self@.ty is HashedMap ==> r == Err::<StorageValue, MetadataError>(
                MetadataError::StorageTypeError,
            ),
            self@.ty is Plain ==> (r matches Ok(v) && v@ == (StorageValueView {
                module_prefix: utf8(self@.module_prefix),
                storage_prefix: utf8(self@.storage_prefix),
            })),
    {
        match &self.ty {
            StorageEntryType::Plain => {
                let module_prefix = string_bytes(&self.module_prefix);
                let storage_prefix = string_bytes(&self.storage_prefix);
                Ok(StorageValue { module_prefix, storage_prefix })
            },
            StorageEntryType::HashedMap { .. } => Err(MetadataError::StorageTypeError),
        }
    }
}

pub struct StorageValueView {
    pub module_prefix: Seq<u8>,
    pub storage_prefix: Seq<u8>,
}

pub struct StorageMapView {
    pub module_prefix: Seq<u8>,
    pub storage_prefix: Seq<u8>,
    pub hasher: StorageHasher,
    pub default: Seq<u8>,
}

pub struct StorageDoubleMapView {
    pub module_prefix: Seq<u8>,
    pub storage_prefix: Seq<u8>,
    pub hasher: StorageHasher,
    pub key2_hasher: StorageHasher,
    pub default: Seq<u8>,
}

impl View for StorageValue {
    type V = StorageValueView;

    closed spec fn view(&self) -> StorageValueView {
        StorageValueView { module_prefix: self.module_prefix@, storage_prefix: self.storage_prefix@ }
    }
}

impl View for StorageMap {
    type V = StorageMapView;

    closed spec fn view(&self) -> StorageMapView {
        StorageMapView {
            module_prefix: self.module_prefix@,
            storage_prefix: self.storage_prefix@,
            hasher: self.hasher,
            default: self.default@,
        }
    }
}

impl View for StorageDoubleMap {
    type V = StorageDoubleMapView;

    closed spec fn view(&self) -> StorageDoubleMapView {
        StorageDoubleMapView {
            module_prefix: self.module_prefix@,
            storage_prefix: self.storage_prefix@,
            hasher: self.hasher,
            key2_hasher: self.key2_hasher,
            default: self.default@,
        }
    }
}

impl StorageValue {
    /// The key of the value.
    pub fn key(&self) -> (k: StorageKey)
        ensures
            k.0@ == spec_prefix_key(self@.module_prefix, self@.storage_prefix),
            k.0@.len() == 32,
    {
        StorageKey(prefix_key(self.module_prefix.as_slice(), self.storage_prefix.as_slice()))
    }
}

impl StorageMap {
    /// The key under which the map holds the entry whose key encodes to `encoded_key`.
    pub fn key(&self, encoded_key: &[u8]) -> (k: StorageKey)
        ensures
            k.0@ == spec_prefix_key(self@.module_prefix, self@.storage_prefix) + spec_key_hash(
                encoded_key@,
                self@.hasher,
            ),
            k.0@.len() >= 32,
            k.0@.subrange(0, 32) == spec_prefix_key(self@.module_prefix, self@.storage_prefix),
    {
        let mut bytes = prefix_key(self.module_prefix.as_slice(), self.storage_prefix.as_slice());
        let ghost p = bytes@;
        let hashed = key_hash(encoded_key, &self.hasher);
        bytes.extend_from_slice(hashed.as_slice());
        assert(bytes@.subrange(0, 32) =~= p);
        StorageKey(bytes)
    }

    /// The encoded default value of the map's entries.
    pub fn default(&self) -> (d: Vec<u8>)
        ensures
            d@ == self@.default,
    {
        self.default.clone()
    }
}

impl StorageDoubleMap {
    /// The key under which the double map holds the entry of the two encoded keys.
    pub fn key(&self, encoded_key1: &[u8], encoded_key2: &[u8]) -> (k: StorageKey)
        ensures
            k.0@ == spec_prefix_key(self@.module_prefix, self@.storage_prefix) + spec_key_hash(
                encoded_key1@,
                self@.hasher,
            ) + spec_key_hash(encoded_key2@, self@.key2_hasher),
            k.0@.len() >= 32,
            k.0@.subrange(0, 32) == spec_prefix_key(self@.module_prefix, self@.storage_prefix),
    {
        let mut bytes = prefix_key(self.module_prefix.as_slice(), self.storage_prefix.as_slice());
        let ghost p = bytes@;
        let first = key_hash(encoded_key1, &self.hasher);
        bytes.extend_from_slice(first.as_slice());
        let second = key_hash(encoded_key2, &self.key2_hasher);
        bytes.extend_from_slice(second.as_slice());
        assert(bytes@.subrange(0, 32) =~= p);
        StorageKey(bytes)
    }

    /// The encoded default value of the double map's entries.
    pub fn default(&self) -> (d: Vec<u8>)
        ensures
            d@ == self@.default,
    {
        self.default.clone()
    }
}


// ---------------------------------------------------------------- modules

pub struct ModuleConstantView {
    pub name: Seq<char>,
    pub ty: Seq<char>,
    pub value: Seq<u8>,
}

/// A constant of a module: its name, the path of its type, and its encoded value.
#[derive(Clone, Debug)]
pub struct ModuleConstantMetadata {
    name: String,
    ty: String,
    value: Vec<u8>,
}

impl View for ModuleConstantMetadata {
    type V = ModuleConstantView;

    closed spec fn view(&self) -> ModuleConstantView {
        ModuleConstantView { name: self.name@, ty: self.ty@, value: self.value@ }
    }
}

impl ModuleConstantMetadata {
    pub(crate) fn new(name: String, ty: String, value: Vec<u8>) -> (c: Self)
        ensures
            c@ == (ModuleConstantView { name: name@, ty: ty@, value: value@ }),
    {
        ModuleConstantMetadata { name, ty, value }
    }

    /// The constant's name.
    pub fn name(&self) -> (name: &String)
        ensures
            name@ == self@.name,
    {
        &self.name
    }

    /// The encoded value.
    pub fn get_value(&self) -> (value: Vec<u8>)
        ensures
            value@ == self@.value,
    {
        self.value.clone()
    }

    /// The path of the constant's type.
    pub fn get_type(&self) -> (ty: String)
        ensures
            ty@ == self@.ty,
    {
        self.ty.clone()
    }
}

pub struct ModuleMetadataView {
    pub index: u8,
    pub name: Seq<char>,
    pub storage: Seq<(Seq<char>, StorageMetadataView)>,
}

/// A module and its storage items, by name.
#[derive(Debug)]
pub struct ModuleMetadata {
    index: u8,
    name: String,
    storage: AssocMap<String, StorageMetadata>,
}

impl View for ModuleMetadata {
    type V = ModuleMetadataView;

    closed spec fn view(&self) -> ModuleMetadataView {
        ModuleMetadataView { index: self.index, name: self.name@, storage: self.storage@ }
    }
}

impl ModuleMetadata {
    pub(crate) fn new(index: u8, name: String, storage: AssocMap<String, StorageMetadata>) -> (m:
        Self)
        ensures
            m@ == (ModuleMetadataView { index, name: name@, storage: storage@ }),
    {
        ModuleMetadata { index, name, storage }
    }

    pub(crate) fn storage_names(&self) -> (names: Vec<&String>)
        ensures
            names@.len() == self@.storage.len(),
            forall|i: int| 0 <= i < names@.len() ==> #[trigger] names@[i]@ == self@.storage[i].0,
    {
        self.storage.keys()
    }

    /// The storage item named `key`.
    pub fn storage(&self, key: &'static str) -> (r: Result<&StorageMetadata, MetadataError>)
        ensures
            r is Ok <==> seq_lookup(self@.storage, key@) is Some,
            r matches Ok(s) ==> seq_lookup(self@.storage, key@) == Some(s@),
            r matches Err(e) ==> e == MetadataError::StorageNotFound(key),
    {
        let name = String::from_str(key);
        match self.storage.get(&name) {
            Some(s) => Ok(s),
            None => Err(MetadataError::StorageNotFound(key)),
        }
    }
}

pub struct ModuleWithCallsView {
    pub index: u8,
    pub name: Seq<char>,
    pub calls: Seq<(Seq<char>, u8)>,
}

/// A module that has calls, and the index of each call by name.
#[derive(Debug)]
pub struct ModuleWithCalls {
    pub index: u8,
    pub name: String,
    pub calls: AssocMap<String, u8>,
}

impl View for ModuleWithCalls {
    type V = ModuleWithCallsView;

    open spec fn view(&self) -> ModuleWithCallsView {
        ModuleWithCallsView { index: self.index, name: self.name@, calls: self.calls@ }
    }
}

pub struct ModuleWithErrorsView {
    pub index: u8,
    pub name: Seq<char>,
    pub errors: Seq<(u8, Seq<char>)>,
}

/// A module that has errors, and the name of each error by index.
#[derive(Debug)]
pub struct ModuleWithErrors {
    pub index: u8,
    pub name: String,
    pub errors: AssocMap<u8, String>,
}

impl View for ModuleWithErrors {
    type V = ModuleWithErrorsView;

    open spec fn view(&self) -> ModuleWithErrorsView {
        ModuleWithErrorsView { index: self.index, name: self.name@, errors: self.errors@ }
    }
}

impl ModuleWithErrors {
    /// The module's name.
    pub fn name(&self) -> (name: &str)
        ensures
            name@ == self@.name,
    {
        self.name.as_str()
    }

    /// The name of the error at `index`.
    pub fn error(&self, index: u8) -> (r: Result<&String, MetadataError>)
        ensures
            r is Ok <==> seq_lookup(self@.errors, index) is Some,
            r matches Ok(e) ==> seq_lookup(self@.errors, index) == Some(e@),
            r matches Err(e) ==> e == MetadataError::ErrorNotFound(index),
    {
        match self.errors.get(&index) {
            Some(e) => Ok(e),
            None => Err(MetadataError::ErrorNotFound(index)),
        }
    }
}

pub struct ModuleWithEventsView {
    pub index: u8,
    pub name: Seq<char>,
    pub events: Seq<(u8, Seq<char>)>,
}

/// A module that has events, and the name of each event by index.
#[derive(Debug)]
pub struct ModuleWithEvents {
    pub index: u8,
    pub name: String,
    pub events: AssocMap<u8, String>,
}

impl View for ModuleWithEvents {
    type V = ModuleWithEventsView;

    open spec fn view(&self) -> ModuleWithEventsView {
        ModuleWithEventsView { index: self.index, name: self.name@, events: self.events@ }
    }
}

impl ModuleWithEvents {
    /// The module's name.
    pub fn name(&self) -> (name: &str)
        ensures
            name@ == self@.name,
    {
        self.name.as_str()
    }

    /// The name of the event at `index`.
    pub fn event(&self, index: u8) -> (r: Result<&String, MetadataError>)
        ensures
            r is Ok <==> seq_lookup(self@.events, index) is Some,
            r matches Ok(e) ==> seq_lookup(self@.events, index) == Some(e@),
            r matches Err(e) ==> e == MetadataError::EventNotFound(index),
    {
        match self.events.get(&index) {
            Some(e) => Ok(e),
            None => Err(MetadataError::EventNotFound(index)),
        }
    }
}

pub struct ModuleWithConstantsView {
    pub index: u8,
    pub name: Seq<char>,
    pub constants: Seq<(u8, ModuleConstantView)>,
}

/// A module and its constants, by index.
#[derive(Debug)]
pub struct ModuleWithConstants {
    index: u8,
    name: String,
    constants: AssocMap<u8, ModuleConstantMetadata>,
}

impl View for ModuleWithConstants {
    type V = ModuleWithConstantsView;

    closed spec fn view(&self) -> ModuleWithConstantsView {
        ModuleWithConstantsView { index: self.index, name: self.name@, constants: self.constants@ }
    }
}

impl ModuleWithConstants {
    pub(crate) fn new(
        index: u8,
        name: String,
        constants: AssocMap<u8, ModuleConstantMetadata>,
    ) -> (m: Self)
        ensures
            m@ == (ModuleWithConstantsView { index, name: name@, constants: constants@ }),
    {
        ModuleWithConstants { index, name, constants }
    }

    /// The module's name.
    pub fn name(&self) -> (name: &str)
        ensures
            name@ == self@.name,
    {
        self.name.as_str()
    }

    /// The constants, in the module's order.
    pub fn constants(&self) -> (r: Vec<&ModuleConstantMetadata>)
        ensures
            r@.len() == self@.constants.len(),
            forall|i: int| 0 <= i < r@.len() ==> #[trigger] r@[i]@ == self@.constants[i].1,
    {
        self.constants.values()
    }

    /// The first constant, in the module's order, named `constant_name`.
    pub fn constant_by_name(&self, constant_name: &str) -> (r: Result<
        &ModuleConstantMetadata,
        MetadataError,
    >)
        ensures
            r is Ok <==> first_constant_named(self@.constants, constant_name@) is Some,
            r matches Ok(c) ==> first_constant_named(self@.constants, constant_name@) == Some(c@),
            r matches Err(e) ==> e matches MetadataError::ConstantNotFound(n) && n@
                == constant_name@,
    {
        let name = String::from_str(constant_name);
        let values = self.constants();
        let n = values.len();
        let mut i: usize = 0;
        assert(self@.constants.skip(0) =~= self@.constants);
        while i < n
            invariant
                n == values@.len(),
                i <= n,
                name@ == constant_name@,
                n == self@.constants.len(),
                forall|j: int| 0 <= j < n ==> #[trigger] values@[j]@ == self@.constants[j].1,
                first_constant_named(self@.constants, constant_name@) == first_constant_named(
                    self@.constants.skip(i as int),
                    constant_name@,
                ),
            decreases n - i,
        {
            let c = values[i];
            assert(values@[i as int]@ == self@.constants[i as int].1);
            assert(self@.constants.skip(i as int)[0] == self@.constants[i as int]);
            if c.name().same_key(&name) {
                return Ok(c);
            }
            assert(self@.constants.skip(i as int).drop_first() =~= self@.constants.skip(i + 1));
            i = i + 1;
        }
        Err(MetadataError::ConstantNotFound(name))
    }
}

/// The first constant, in order, named `name`.
pub open spec fn first_constant_named(cs: Seq<(u8, ModuleConstantView)>, name: Seq<char>) -> Option<
    ModuleConstantView,
>
    decreases cs.len(),
{
    if cs.len() == 0 {
        None
    } else if cs[0].1.name == name {
        Some(cs[0].1)
    } else {
        first_constant_named(cs.drop_first(), name)
    }
}

// ---------------------------------------------------------------- metadata

pub struct MetadataView {
    pub modules: Seq<(Seq<char>, ModuleMetadataView)>,
    pub modules_with_calls: Seq<(Seq<char>, ModuleWithCallsView)>,
    pub modules_with_errors: Seq<(Seq<char>, ModuleWithErrorsView)>,
    pub modules_with_events: Seq<(Seq<char>, ModuleWithEventsView)>,
    pub modules_with_constants: Seq<(Seq<char>, ModuleWithConstantsView)>,
}

/// The modules of a runtime, and by name those of them that have calls,
/// errors, events and constants.
#[derive(Debug)]
pub struct Metadata {
    modules: AssocMap<String, ModuleMetadata>,
    modules_with_calls: AssocMap<String, ModuleWithCalls>,
    modules_with_errors: AssocMap<String, ModuleWithErrors>,
    modules_with_events: AssocMap<String, ModuleWithEvents>,
    modules_with_constants: AssocMap<String, ModuleWithConstants>,
}

impl View for Metadata {
    type V = MetadataView;

    closed spec fn view(&self) -> MetadataView {
        MetadataView {
            modules: self.modules@,
            modules_with_calls: self.modules_with_calls@,
            modules_with_errors: self.modules_with_errors@,
            modules_with_events: self.modules_with_events@,
            modules_with_constants: self.modules_with_constants@,
        }
    }
}

/// Modules that carry their index.
pub trait HasModuleIndex: View {
    spec fn index_of(v: Self::V) -> u8;

    fn module_index(&self) -> (i: u8)
        ensures
            i == Self::index_of(self@),
    ;
}

impl HasModuleIndex for ModuleWithErrors {
    open spec fn index_of(v: ModuleWithErrorsView) -> u8 {
        v.index
    }

    fn module_index(&self) -> (i: u8) {
        self.index
    }
}

impl HasModuleIndex for ModuleWithEvents {
    open spec fn index_of(v: ModuleWithEventsView) -> u8 {
        v.index
    }

    fn module_index(&self) -> (i: u8) {
        self.index
    }
}

impl HasModuleIndex for ModuleWithConstants {
    open spec fn index_of(v: ModuleWithConstantsView) -> u8 {
        v.index
    }

    fn module_index(&self) -> (i: u8) {
        self.index
    }
}

fn lookup_by_name<'a, V: View>(map: &'a AssocMap<String, V>, name: &str) -> (r: Result<&'a V, MetadataError>)
    ensures
        r is Ok <==> seq_lookup(map@, name@) is Some,
        r matches Ok(v) ==> seq_lookup(map@, name@) == Some(v@),
        r matches Err(e) ==> e matches MetadataError::ModuleNotFound(n) && n@ == name@,
{
    let key = String::from_str(name);
    match map.get(&key) {
        Some(v) => Ok(v),
        None => Err(MetadataError::ModuleNotFound(key)),
    }
}

/// The first value, in the map's order, whose module index is `index`.
fn find_by_index<V: HasModuleIndex>(map: &AssocMap<String, V>, index: u8) -> (r: Option<&V>)
    ensures
        r is Some <==> exists|i: int|
            #![trigger map@[i]]
            0 <= i < map@.len() && V::index_of(map@[i].1) == index,
        r matches Some(v) ==> exists|i: int|
            #![trigger map@[i]]
            0 <= i < map@.len() && map@[i].1 == v@ && V::index_of(v@) == index
                && forall|j: int| 0 <= j < i ==> V::index_of(map@[j].1) != index,
{
    let values = map.values();
    let n = values.len();
    let mut i: usize = 0;
    while i < n
        invariant
            n == values@.len(),
            n == map@.len(),
            i <= n,
            forall|j: int| 0 <= j < n ==> #[trigger] values@[j]@ == map@[j].1,
            forall|j: int| 0 <= j < i ==> V::index_of(#[trigger] map@[j].1) != index,
        decreases n - i,
    {
        let v = values[i];
        assert(values@[i as int]@ == map@[i as int].1);
        if v.module_index() == index {
            return Some(v);
        }
        i = i + 1;
    }
    None
}

/// The storage item `name` of the module `prefix`, if both exist.
pub open spec fn storage_entry(md: MetadataView, prefix: Seq<char>, name: Seq<char>) -> Option<
    StorageMetadataView,
> {
    match seq_lookup(md.modules, prefix) {
        Some(m) => seq_lookup(m.storage, name),
        None => None,
    }
}

/// The error of a storage key lookup that found no item of the right shape.
pub open spec fn storage_lookup_error(
    md: MetadataView,
    prefix: &'static str,
    name: &'static str,
    e: MetadataError,
) -> bool {
    match seq_lookup(md.modules, prefix@) {
        None => e matches MetadataError::ModuleNotFound(n) && n@ == prefix@,
        Some(m) => match seq_lookup(m.storage, name@) {
            None => e == MetadataError::StorageNotFound(name),
            Some(_) => e == MetadataError::StorageTypeError,
        },
    }
}

/// When the item `name` of `prefix` is a map, it has `n` hashers.
pub open spec fn map_hasher_count(md: MetadataView, prefix: Seq<char>, name: Seq<char>, n: nat) -> bool {
    storage_entry(md, prefix, name) matches Some(e) ==> (e.ty matches StorageEntryTypeView::HashedMap(
        h,
    ) ==> h.len() == n)
}

/// The key of the plain storage value `name` of `prefix`.
pub open spec fn spec_storage_value_key(md: MetadataView, prefix: Seq<char>, name: Seq<char>) -> Option<
    Seq<u8>,
> {
    match storage_entry(md, prefix, name) {
        Some(e) => match e.ty {
            StorageEntryTypeView::Plain => Some(
                spec_prefix_key(utf8(e.module_prefix), utf8(e.storage_prefix)),
            ),
            StorageEntryTypeView::HashedMap(_) => None,
        },
        None => None,
    }
}

/// The key prefix of all entries of the storage map `name` of `prefix`.
pub open spec fn spec_storage_map_key_prefix(
    md: MetadataView,
    prefix: Seq<char>,
    name: Seq<char>,
) -> Option<Seq<u8>> {
    match storage_entry(md, prefix, name) {
        Some(e) => match e.ty {
            StorageEntryTypeView::Plain => None,
            StorageEntryTypeView::HashedMap(_) => Some(
                spec_prefix_key(utf8(e.module_prefix), utf8(e.storage_prefix)),
            ),
        },
        None => None,
    }
}

/// The key of the entry for `key` of the storage map `name` of `prefix`.
pub open spec fn spec_storage_map_key(
    md: MetadataView,
    prefix: Seq<char>,
    name: Seq<char>,
    key: Seq<u8>,
) -> Option<Seq<u8>> {
    match storage_entry(md, prefix, name) {
        Some(e) => match e.ty {
            StorageEntryTypeView::Plain => None,
            StorageEntryTypeView::HashedMap(h) => Some(
                spec_prefix_key(utf8(e.module_prefix), utf8(e.storage_prefix)) + spec_key_hash(
                    key,
                    h[0],
                ),
            ),
        },
        None => None,
    }
}

/// The key of the entry for `first`, `second` of the storage double map `name` of `prefix`.
pub open spec fn spec_storage_double_map_key(
    md: MetadataView,
    prefix: Seq<char>,
    name: Seq<char>,
    first: Seq<u8>,
    second: Seq<u8>,
) -> Option<Seq<u8>> {
    match storage_entry(md, prefix, name) {
        Some(e) => match e.ty {
            StorageEntryTypeView::Plain => None,
            StorageEntryTypeView::HashedMap(h) => Some(
                spec_prefix_key(utf8(e.module_prefix), utf8(e.storage_prefix)) + spec_key_hash(
                    first,
                    h[0],
                ) + spec_key_hash(second, h[1]),
            ),
        },
        None => None,
    }
}

impl Metadata {
    pub(crate) fn new(
        modules: AssocMap<String, ModuleMetadata>,
        modules_with_calls: AssocMap<String, ModuleWithCalls>,
        modules_with_errors: AssocMap<String, ModuleWithErrors>,
        modules_with_events: AssocMap<String, ModuleWithEvents>,
        modules_with_constants: AssocMap<String, ModuleWithConstants>,
    ) -> (md: Self)
        ensures
            md@ == (MetadataView {
                modules: modules@,
                modules_with_calls: modules_with_calls@,
                modules_with_errors: modules_with_errors@,
                modules_with_events: modules_with_events@,
                modules_with_constants: modules_with_constants@,
            }),
    {
        Metadata {
            modules,
            modules_with_calls,
            modules_with_errors,
            modules_with_events,
            modules_with_constants,
        }
    }

    /// The module named `name`.
    pub fn module(&self, name: &str) -> (r: Result<&ModuleMetadata, MetadataError>)
        ensures
            r is Ok <==> seq_lookup(self@.modules, name@) is Some,
            r matches Ok(m) ==> seq_lookup(self@.modules, name@) == Some(m@),
            r matches Err(e) ==> e matches MetadataError::ModuleNotFound(n) && n@ == name@,
    {
        lookup_by_name(&self.modules, name)
    }

    /// The modules that have calls, in the metadata's order.
    pub fn modules_with_calls(&self) -> (r: Vec<&ModuleWithCalls>)
        ensures
            r@.len() == self@.modules_with_calls.len(),
            forall|i: int| 0 <= i < r@.len() ==> #[trigger] r@[i]@ == self@.modules_with_calls[i].1,
    {
        self.modules_with_calls.values()
    }

    /// The module with calls named `name`.
    pub fn module_with_calls(&self, name: &str) -> (r: Result<&ModuleWithCalls, MetadataError>)
        ensures
            r is Ok <==> seq_lookup(self@.modules_with_calls, name@) is Some,
            r matches Ok(m) ==> seq_lookup(self@.modules_with_calls, name@) == Some(m@),
            r matches Err(e) ==> e matches MetadataError::ModuleNotFound(n) && n@ == name@,
    {
        lookup_by_name(&self.modules_with_calls, name)
    }

    /// The modules that have errors, in the metadata's order.
    pub fn modules_with_errors(&self) -> (r: Vec<&ModuleWithErrors>)
        ensures
            r@.len() == self@.modules_with_errors.len(),
            forall|i: int| 0 <= i < r@.len() ==> #[trigger] r@[i]@ == self@.modules_with_errors[i].1,
    {
        self.modules_with_errors.values()
    }

    /// The module with errors named `name`.
    pub fn module_with_errors_by_name(&self, name: &str) -> (r: Result<
        &ModuleWithErrors,
        MetadataError,
    >)
        ensures
            r is Ok <==> seq_lookup(self@.modules_with_errors, name@) is Some,
            r matches Ok(m) ==> seq_lookup(self@.modules_with_errors, name@) == Some(m@),
            r matches Err(e) ==> e matches MetadataError::ModuleNotFound(n) && n@ == name@,
    {
        lookup_by_name(&self.modules_with_errors, name)
    }

    /// The first module with errors, in the metadata's order, whose index is `module_index`.
    pub fn module_with_errors(&self, module_index: u8) -> (r: Result<
        &ModuleWithErrors,
        MetadataError,
    >)
        ensures
            r is Ok <==> exists|i: int|
                #![trigger self@.modules_with_errors[i]]
                0 <= i < self@.modules_with_errors.len() && self@.modules_with_errors[i].1.index
                    == module_index,
            r matches Ok(m) ==> exists|i: int|
                #![trigger self@.modules_with_errors[i]]
                0 <= i < self@.modules_with_errors.len() && self@.modules_with_errors[i].1
                    == m@ && m@.index == module_index && forall|j: int|
                    0 <= j < i ==> self@.modules_with_errors[j].1.index != module_index,
            r matches Err(e) ==> e == MetadataError::ModuleWithErrorsNotFound(module_index),
    {
        let found = find_by_index(&self.modules_with_errors, module_index);
        proof {
            assert(self@.modules_with_errors == self.modules_with_errors@);
            assert forall|i: int| 0 <= i < self.modules_with_errors@.len() implies ModuleWithErrors::index_of(
                #[trigger] self.modules_with_errors@[i].1,
            ) == self.modules_with_errors@[i].1.index by {}
        }
        match found {
            Some(m) => Ok(m),
            None => Err(MetadataError::ModuleWithErrorsNotFound(module_index)),
        }
    }

    /// The modules that have events, in the metadata's order.
    pub fn modules_with_events(&self) -> (r: Vec<&ModuleWithEvents>)
        ensures
            r@.len() == self@.modules_with_events.len(),
            forall|i: int| 0 <= i < r@.len() ==> #[trigger] r@[i]@ == self@.modules_with_events[i].1,
    {
        self.modules_with_events.values()
    }

    /// The module with events named `name`.
    pub fn module_with_events_by_name(&self, name: &str) -> (r: Result<
        &ModuleWithEvents,
        MetadataError,
    >)
        ensures
            r is Ok <==> seq_lookup(self@.modules_with_events, name@) is Some,
            r matches Ok(m) ==> seq_lookup(self@.modules_with_events, name@) == Some(m@),
            r matches Err(e) ==> e matches MetadataError::ModuleNotFound(n) && n@ == name@,
    {
        lookup_by_name(&self.modules_with_events, name)
    }

    /// The first module with events, in the metadata's order, whose index is
    /// `module_index`.
    pub fn module_with_events(&self, module_index: u8) -> (r: Result<
        &ModuleWithEvents,
        MetadataError,
    >)
        ensures
            r is Ok <==> exists|i: int|
                #![trigger self@.modules_with_events[i]]
                0 <= i < self@.modules_with_events.len() && self@.modules_with_events[i].1.index
                    == module_index,
            r matches Ok(m) ==> exists|i: int|
                #![trigger self@.modules_with_events[i]]
                0 <= i < self@.modules_with_events.len() && self@.modules_with_events[i].1
                    == m@ && m@.index == module_index && forall|j: int|
                    0 <= j < i ==> self@.modules_with_events[j].1.index != module_index,
            r matches Err(e) ==> e == MetadataError::ModuleWithEventsNotFound(module_index),
    {
        let found = find_by_index(&self.modules_with_events, module_index);
        proof {
            assert(self@.modules_with_events == self.modules_with_events@);
            assert forall|i: int| 0 <= i < self.modules_with_events@.len() implies ModuleWithEvents::index_of(
                #[trigger] self.modules_with_events@[i].1,
            ) == self.modules_with_events@[i].1.index by {}
        }
        match found {
            Some(m) => Ok(m),
            None => Err(MetadataError::ModuleWithEventsNotFound(module_index)),
        }
    }

    /// The modules with their constants, in the metadata's order.
    pub fn modules_with_constants(&self) -> (r: Vec<&ModuleWithConstants>)
        ensures
            r@.len() == self@.modules_with_constants.len(),
            forall|i: int|
                0 <= i < r@.len() ==> #[trigger] r@[i]@ == self@.modules_with_constants[i].1,
    {
        self.modules_with_constants.values()
    }

    /// The constants of the module named `name`.
    pub fn module_with_constants_by_name(&self, name: &str) -> (r: Result<
        &ModuleWithConstants,
        MetadataError,
    >)
        ensures
            r is Ok <==> seq_lookup(self@.modules_with_constants, name@) is Some,
            r matches Ok(m) ==> seq_lookup(self@.modules_with_constants, name@) == Some(m@),
            r matches Err(e) ==> e matches MetadataError::ModuleNotFound(n) && n@ == name@,
    {
        lookup_by_name(&self.modules_with_constants, name)
    }

    /// The constants of the first module, in the metadata's order, whose index is `module_index`.
    pub fn module_with_constants(&self, module_index: u8) -> (r: Result<
        &ModuleWithConstants,
        MetadataError,
    >)
        ensures
            r is Ok <==> exists|i: int|
                #![trigger self@.modules_with_constants[i]]
                0 <= i < self@.modules_with_constants.len() && self@.modules_with_constants[i].1.index
                    == module_index,
            r matches Ok(m) ==> exists|i: int|
                #![trigger self@.modules_with_constants[i]]
                0 <= i < self@.modules_with_constants.len()
                    && self@.modules_with_constants[i].1 == m@ && m@.index
                    == module_index && forall|j: int|
                    0 <= j < i ==> self@.modules_with_constants[j].1.index != module_index,
            r matches Err(e) ==> e == MetadataError::ModuleWithConstantsNotFound(module_index),
    {
        let found = find_by_index(&self.modules_with_constants, module_index);
        proof {
            assert(self@.modules_with_constants == self.modules_with_constants@);
            assert forall|i: int| 0 <= i < self.modules_with_constants@.len() implies ModuleWithConstants::index_of(
                #[trigger] self.modules_with_constants@[i].1,
            ) == self.modules_with_constants@[i].1.index by {}
        }
        match found {
            Some(m) => Ok(m),
            None => Err(MetadataError::ModuleWithConstantsNotFound(module_index)),
        }
    }

    fn storage_entry(&self, storage_prefix: &'static str, storage_key_name: &'static str) -> (r:
        Result<&StorageMetadata, MetadataError>)
        ensures
            r is Ok <==> storage_entry(self@, storage_prefix@, storage_key_name@) is Some,
            r matches Ok(e) ==> storage_entry(self@, storage_prefix@, storage_key_name@) == Some(e@),
            r matches Err(e) ==> storage_lookup_error(self@, storage_prefix, storage_key_name, e)
                && !(e is StorageTypeError),
    {
        match self.module(storage_prefix) {
            Ok(m) => m.storage(storage_key_name),
            Err(e) => Err(e),
        }
    }

    /// The key of the plain storage value `storage_key_name` of module `storage_prefix`.
    pub fn storage_value_key(
        &self,
        storage_prefix: &'static str,
        storage_key_name: &'static str,
    ) -> (r: Result<StorageKey, MetadataError>)
        ensures
            r is Ok <==> spec_storage_value_key(self@, storage_prefix@, storage_key_name@) is Some,
            r matches Ok(k) ==> spec_storage_value_key(self@, storage_prefix@, storage_key_name@)
                == Some(k.0@) && k.0@.len() == 32,
            r matches Err(e) ==> storage_lookup_error(self@, storage_prefix, storage_key_name, e),
    {
        match self.storage_entry(storage_prefix, storage_key_name) {
            Ok(entry) => match entry.get_value() {
                Ok(v) => Ok(v.key()),
                Err(e) => Err(e),
            },
            Err(e) => Err(e),
        }
    }

    /// The key of the entry for the encoded key `map_key` of the storage map
    /// `storage_key_name` of module `storage_prefix`. `value_decodes` says
    /// whether the map's default value decodes as its value type, which the
    /// caller decodes; a map whose default does not is refused.
    pub fn storage_map_key(
        &self,
        storage_prefix: &'static str,
        storage_key_name: &'static str,
        map_key: &[u8],
        value_decodes: bool,
    ) -> (r: Result<StorageKey, MetadataError>)
        requires
            map_hasher_count(self@, storage_prefix@, storage_key_name@, 1),
        ensures
            r is Ok <==> spec_storage_map_key(self@, storage_prefix@, storage_key_name@, map_key@)
                is Some && value_decodes,
            r matches Ok(k) ==> spec_storage_map_key(
                self@,
                storage_prefix@,
                storage_key_name@,
                map_key@,
            ) == Some(k.0@) && k.0@.len() >= 32 && spec_storage_map_key_prefix(
                self@,
                storage_prefix@,
                storage_key_name@,
            ) == Some(k.0@.subrange(0, 32)),
            r matches Err(e) ==> if spec_storage_map_key(
                self@,
                storage_prefix@,
                storage_key_name@,
                map_key@,
            ) is Some {
                e == MetadataError::MapValueTypeError
            } else {
                storage_lookup_error(self@, storage_prefix, storage_key_name, e)
            },
    {
        match self.storage_entry(storage_prefix, storage_key_name) {
            Ok(entry) => match entry.get_map(value_decodes) {
                Ok(m) => Ok(m.key(map_key)),
                Err(e) => Err(e),
            },
            Err(e) => Err(e),
        }
    }

    /// The key prefix of all entries of the storage map `storage_key_name` of
    /// module `storage_prefix`.
    pub fn storage_map_key_prefix(
        &self,
        storage_prefix: &'static str,
        storage_key_name: &'static str,
    ) -> (r: Result<StorageKey, MetadataError>)
        ensures
            r is Ok <==> spec_storage_map_key_prefix(self@, storage_prefix@, storage_key_name@) is Some,
            r matches Ok(k) ==> spec_storage_map_key_prefix(
                self@,
                storage_prefix@,
                storage_key_name@,
            ) == Some(k.0@) && k.0@.len() == 32,
            r matches Err(e) ==> storage_lookup_error(self@, storage_prefix, storage_key_name, e),
    {
        match self.storage_entry(storage_prefix, storage_key_name) {
            Ok(entry) => entry.get_map_prefix(),
            Err(e) => Err(e),
        }
    }

    /// The key of the entry for the encoded keys `first`, `second` of the
    /// storage double map `storage_key_name` of module `storage_prefix`.
    /// `value_decodes` says whether the map's default value decodes as its
    /// value type, which the caller decodes; a map whose default does not is
    /// refused.
    pub fn storage_double_map_key(
        &self,
        storage_prefix: &'static str,
        storage_key_name: &'static str,
        first: &[u8],
        second: &[u8],
        value_decodes: bool,
    ) -> (r: Result<StorageKey, MetadataError>)
        requires
            map_hasher_count(self@, storage_prefix@, storage_key_name@, 2),
        ensures
            r is Ok <==> spec_storage_double_map_key(
                self@,
                storage_prefix@,
                storage_key_name@,
                first@,
                second@,
            ) is Some && value_decodes,
            r matches Ok(k) ==> spec_storage_double_map_key(
                self@,
                storage_prefix@,
                storage_key_name@,
                first@,
                second@,
            ) == Some(k.0@) && k.0@.len() >= 32 && spec_storage_map_key_prefix(
                self@,
                storage_prefix@,
                storage_key_name@,
            ) == Some(k.0@.subrange(0, 32)),
            r matches Err(e) ==> if spec_storage_double_map_key(
                self@,
                storage_prefix@,
                storage_key_name@,
                first@,
                second@,
            ) is Some {
                e == MetadataError::MapValueTypeError
            } else {
                storage_lookup_error(self@, storage_prefix, storage_key_name, e)
            },
    {
        match self.storage_entry(storage_prefix, storage_key_name) {
            Ok(entry) => match entry.get_double_map(value_decodes) {
                Ok(m) => Ok(m.key(first, second)),
                Err(e) => Err(e),
            },
            Err(e) => Err(e),
        }
    }
}

// ---------------------------------------------------------------- overview

/// One line `tag item` per item, each ended by a newline.
pub open spec fn lines(tag: Seq<char>, items: Seq<Seq<char>>) -> Seq<char>
    decreases items.len(),
{
    if items.len() == 0 {
        seq![]
    } else {
        lines(tag, items.drop_last()) + tag + items.last() + seq!['\n']
    }
}

pub open spec fn keys_of<A, B>(s: Seq<(A, B)>) -> Seq<A> {
    s.map_values(|p: (A, B)| p.0)
}

pub open spec fn values_of<A, B>(s: Seq<(A, B)>) -> Seq<B> {
    s.map_values(|p: (A, B)| p.1)
}

/// The overview of one module: its name, then a line for each storage
/// item, call, constant and error it has.
pub open spec fn module_overview(md: MetadataView, name: Seq<char>, m: ModuleMetadataView) -> Seq<
    char,
> {
    name + seq!['\n'] + lines(" s  "@, keys_of(m.storage)) + calls_overview(md, name)
        + constants_overview(md, name) + errors_overview(md, name)
}

/// The overview of the modules, in order.
pub open spec fn overview_text(md: MetadataView, mods: Seq<(Seq<char>, ModuleMetadataView)>) -> Seq<
    char,
>
    decreases mods.len(),
{
    if mods.len() == 0 {
        seq![]
    } else {
        overview_text(md, mods.drop_last()) + module_overview(md, mods.last().0, mods.last().1)
    }
}

fn append_lines(s: &mut String, tag: &str, items: &Vec<&String>)
    ensures
        final(s)@ == old(s)@ + lines(tag@, items@.map_values(|i: &String| i@)),
{
    let ghost start = s@;
    let ghost views = items@.map_values(|i: &String| i@);
    let n = items.len();
    for i in 0..n
        invariant
            n == items@.len(),
            views == items@.map_values(|i: &String| i@),
            s@ == start + lines(tag@, views.take(i as int)),
    {
        assert(views.take(i + 1).drop_last() =~= views.take(i as int));
        assert(views.take(i + 1).last() == items@[i as int]@);
        s.append(tag);
        s.append(items[i].as_str());
        s.append("\n");
        proof {
            reveal_strlit("\n");
        }
        assert(s@ =~= start + lines(tag@, views.take(i + 1)));
    }
    assert(views.take(n as int) =~= views);
}

pub open spec fn calls_overview(md: MetadataView, name: Seq<char>) -> Seq<char> {
    match seq_lookup(md.modules_with_calls, name) {
        Some(c) => lines(" c  "@, keys_of(c.calls)),
        None => seq![],
    }
}

pub open spec fn constants_overview(md: MetadataView, name: Seq<char>) -> Seq<char> {
    match seq_lookup(md.modules_with_constants, name) {
        Some(c) => lines(" cst  "@, values_of(c.constants).map_values(|k: ModuleConstantView| k.name)),
        None => seq![],
    }
}

pub open spec fn errors_overview(md: MetadataView, name: Seq<char>) -> Seq<char> {
    match seq_lookup(md.modules_with_errors, name) {
        Some(e) => lines(" err  "@, values_of(e.errors)),
        None => seq![],
    }
}

impl Metadata {
    fn calls_overview(&self, name: &String) -> (t: String)
        ensures
            t@ == calls_overview(self@, name@),
    {
        let mut text = String::new();
        match self.modules_with_calls.get(name) {
            Some(m) => {
                let calls = m.calls.keys();
                assert(calls@.map_values(|k: &String| k@) =~= keys_of(m@.calls));
                append_lines(&mut text, " c  ", &calls);
            },
            None => {},
        }
        assert(text@ =~= calls_overview(self@, name@));
        text
    }

    fn constants_overview(&self, name: &String) -> (t: String)
        ensures
            t@ == constants_overview(self@, name@),
    {
        let mut text = String::new();
        match self.modules_with_constants.get(name) {
            Some(m) => {
                let constants = m.constants();
                let mut constant_names: Vec<&String> = Vec::new();
                for j in 0..constants.len()
                    invariant
                        constant_names@.len() == j,
                        j <= constants@.len(),
                        forall|k: int|
                            0 <= k < j ==> #[trigger] constant_names@[k]@ == constants@[k]@.name,
                {
                    constant_names.push(constants[j].name());
                }
                assert(constant_names@.map_values(|k: &String| k@) =~= values_of(
                    m@.constants,
                ).map_values(|k: ModuleConstantView| k.name));
                append_lines(&mut text, " cst  ", &constant_names);
            },
            None => {},
        }
        assert(text@ =~= constants_overview(self@, name@));
        text
    }

    fn errors_overview(&self, name: &String) -> (t: String)
        ensures
            t@ == errors_overview(self@, name@),
    {
        let mut text = String::new();
        match self.modules_with_errors.get(name) {
            Some(m) => {
                let errors = m.errors.values();
                assert(errors@.map_values(|k: &String| k@) =~= values_of(m@.errors));
                append_lines(&mut text, " err  ", &errors);
            },
            None => {},
        }
        assert(text@ =~= errors_overview(self@, name@));
        text
    }

    fn module_overview(&self, name: &String, module: &ModuleMetadata) -> (t: String)
        ensures
            t@ == module_overview(self@, name@, module@),
    {
        let mut text = String::new();
        text.append(name.as_str());
        text.append("\n");
        proof {
            reveal_strlit("\n");
        }
        let storage = module.storage_names();
        assert(storage@.map_values(|k: &String| k@) =~= keys_of(module@.storage));
        append_lines(&mut text, " s  ", &storage);
        let calls = self.calls_overview(name);
        text.append(calls.as_str());
        let constants = self.constants_overview(name);
        text.append(constants.as_str());
        let errors = self.errors_overview(name);
        text.append(errors.as_str());
        assert(text@ =~= name@ + seq!['\n'] + lines(" s  "@, keys_of(module@.storage))
            + calls_overview(self@, name@) + constants_overview(self@, name@) + errors_overview(
            self@,
            name@,
        ));
        text
    }

    /// The names of the modules, each followed by its storage items, calls,
    /// constants and errors, one per line.
    pub fn overview(&self) -> (text: String)
        ensures
            text@ == overview_text(self@, self@.modules),
    {
        let names = self.modules.keys();
        let modules = self.modules.values();
        let n = modules.len();
        let mut text = String::new();
        for i in 0..n
            invariant
                n == self@.modules.len(),
                names@.len() == n,
                modules@.len() == n,
                forall|j: int| 0 <= j < n ==> #[trigger] names@[j]@ == self@.modules[j].0,
                forall|j: int| 0 <= j < n ==> #[trigger] modules@[j]@ == self@.modules[j].1,
                text@ == overview_text(self@, self@.modules.take(i as int)),
        {
            assert(self@.modules.take(i + 1).drop_last() =~= self@.modules.take(i as int));
            assert(self@.modules.take(i + 1).last() == self@.modules[i as int]);
            assert(names@[i as int]@ == self@.modules[i as int].0);
            assert(modules@[i as int]@ == self@.modules[i as int].1);
            let block = self.module_overview(names[i], modules[i]);
            text.append(block.as_str());
        }
        assert(self@.modules.take(n as int) =~= self@.modules);
        text
    }
}

// ---------------------------------------------------------------- laws of storage keys

/// The key of every entry of a storage map starts with the map's key
/// prefix.
pub proof fn lemma_map_key_extends_prefix(
    md: MetadataView,
    prefix: Seq<char>,
    name: Seq<char>,
    key: Seq<u8>,
)
    ensures
        spec_storage_map_key(md, prefix, name, key) matches Some(k) ==> (spec_storage_map_key_prefix(
            md,
            prefix,
            name,
        ) matches Some(p) && k.subrange(0, p.len() as int) == p),
{
    if let Some(e) = storage_entry(md, prefix, name) {
        if let StorageEntryTypeView::HashedMap(h) = e.ty {
            let p = spec_prefix_key(utf8(e.module_prefix), utf8(e.storage_prefix));
            let k = p + spec_key_hash(key, h[0]);
            assert(k.subrange(0, p.len() as int) =~= p);
        }
    }
}

/// The key of every entry of a storage double map starts with the map's
/// key prefix.
pub proof fn lemma_double_map_key_extends_prefix(
    md: MetadataView,
    prefix: Seq<char>,
    name: Seq<char>,
    first: Seq<u8>,
    second: Seq<u8>,
)
    ensures
        spec_storage_double_map_key(md, prefix, name, first, second) matches Some(k) ==> (
        spec_storage_map_key_prefix(md, prefix, name) matches Some(p) && k.subrange(
            0,
            p.len() as int,
        ) == p),
{
    if let Some(e) = storage_entry(md, prefix, name) {
        if let StorageEntryTypeView::HashedMap(h) = e.ty {
            let p = spec_prefix_key(utf8(e.module_prefix), utf8(e.storage_prefix));
            let k = p + spec_key_hash(first, h[0]) + spec_key_hash(second, h[1]);
            assert(k.subrange(0, p.len() as int) =~= p);
        }
    }
}

/// A storage item has a value key or a map key prefix, never both; and
/// an item that has one is found in the metadata.
pub proof fn lemma_value_or_map(md: MetadataView, prefix: Seq<char>, name: Seq<char>)
    ensures
        !(spec_storage_value_key(md, prefix, name) is Some && spec_storage_map_key_prefix(
            md,
            prefix,
            name,
        ) is Some),
        spec_storage_value_key(md, prefix, name) is Some || spec_storage_map_key_prefix(
            md,
            prefix,
            name,
        ) is Some <==> storage_entry(md, prefix, name) is Some,
{
}


// ---------------------------------------------------------------- laws of the overview

/// `piece` stands somewhere in `text`.
pub open spec fn occurs_in(piece: Seq<char>, text: Seq<char>) -> bool {
    exists|a: int|
        0 <= a && a + piece.len() <= text.len() && #[trigger] text.subrange(a, a + piece.len())
            == piece
}

proof fn lemma_occurs_in_concat(piece: Seq<char>, x: Seq<char>, y: Seq<char>, z: Seq<char>)
    requires
        occurs_in(piece, y),
    ensures
        occurs_in(piece, x + y + z),
{
    let a = choose|a: int|
        0 <= a && a + piece.len() <= y.len() && #[trigger] y.subrange(a, a + piece.len()) == piece;
    let t = x + y + z;
    let b = x.len() + a;
    assert(t.subrange(b, b + piece.len()) =~= y.subrange(a, a + piece.len()));
}

proof fn lemma_lines_contain(tag: Seq<char>, items: Seq<Seq<char>>, j: int)
    requires
        0 <= j < items.len(),
    ensures
        occurs_in(tag + items[j] + seq!['\n'], lines(tag, items)),
    decreases items.len(),
{
    let piece = tag + items[j] + seq!['\n'];
    let prev = lines(tag, items.drop_last());
    if j == items.len() - 1 {
        let a = prev.len() as int;
        assert(lines(tag, items).subrange(a, a + piece.len()) =~= piece);
    } else {
        assert(items.drop_last()[j] == items[j]);
        lemma_lines_contain(tag, items.drop_last(), j);
        lemma_occurs_in_concat(piece, seq![], prev, tag + items.last() + seq!['\n']);
        assert(seq![] + prev + (tag + items.last() + seq!['\n']) =~= lines(tag, items));
    }
}

proof fn lemma_overview_text_contains(
    md: MetadataView,
    mods: Seq<(Seq<char>, ModuleMetadataView)>,
    i: int,
    piece: Seq<char>,
)
    requires
        0 <= i < mods.len(),
        occurs_in(piece, module_overview(md, mods[i].0, mods[i].1)),
    ensures
        occurs_in(piece, overview_text(md, mods)),
    decreases mods.len(),
{
    let prev = overview_text(md, mods.drop_last());
    let last = module_overview(md, mods.last().0, mods.last().1);
    if i == mods.len() - 1 {
        lemma_occurs_in_concat(piece, prev, last, seq![]);
        assert(prev + last + seq![] =~= overview_text(md, mods));
    } else {
        assert(mods.drop_last()[i] == mods[i]);
        lemma_overview_text_contains(md, mods.drop_last(), i, piece);
        lemma_occurs_in_concat(piece, seq![], prev, last);
        assert(seq![] + prev + last =~= overview_text(md, mods));
    }
}

/// The overview lists every constant of every module: for each module and
/// each constant its module with constants has, the line ` cst  ` followed
/// by the constant's name stands in the overview.
pub proof fn lemma_overview_lists_constants(md: MetadataView, i: int, k: int)
    requires
        0 <= i < md.modules.len(),
        seq_lookup(md.modules_with_constants, md.modules[i].0) is Some,
        0 <= k < seq_lookup(md.modules_with_constants, md.modules[i].0)->0.constants.len(),
    ensures
        occurs_in(
            " cst  "@ + seq_lookup(md.modules_with_constants, md.modules[i].0)->0.constants[k].1.name
                + seq!['\n'],
            overview_text(md, md.modules),
        ),
{
    let name = md.modules[i].0;
    let c = seq_lookup(md.modules_with_constants, name)->0;
    let names = values_of(c.constants).map_values(|v: ModuleConstantView| v.name);
    let piece = " cst  "@ + c.constants[k].1.name + seq!['\n'];
    assert(names[k] == c.constants[k].1.name);
    lemma_lines_contain(" cst  "@, names, k);
    let m = md.modules[i].1;
    let before = name + seq!['\n'] + lines(" s  "@, keys_of(m.storage)) + calls_overview(md, name);
    lemma_occurs_in_concat(piece, before, constants_overview(md, name), errors_overview(md, name));
    assert(before + constants_overview(md, name) + errors_overview(md, name) =~= module_overview(
        md,
        name,
        m,
    ));
    lemma_overview_text_contains(md, md.modules, i, piece);
}

/// The overview lists every storage item, call and error of every module in
/// the same way: a line ` s  `, ` c  ` or ` err  ` followed by its name.
pub proof fn lemma_overview_lists_items(md: MetadataView, i: int, k: int)
    requires
        0 <= i < md.modules.len(),
    ensures
        0 <= k < md.modules[i].1.storage.len() ==> occurs_in(
            " s  "@ + md.modules[i].1.storage[k].0 + seq!['\n'],
            overview_text(md, md.modules),
        ),
        seq_lookup(md.modules_with_calls, md.modules[i].0) matches Some(c) ==> (0 <= k
            < c.calls.len() ==> occurs_in(
            " c  "@ + c.calls[k].0 + seq!['\n'],
            overview_text(md, md.modules),
        )),
        seq_lookup(md.modules_with_errors, md.modules[i].0) matches Some(e) ==> (0 <= k
            < e.errors.len() ==> occurs_in(
            " err  "@ + e.errors[k].1 + seq!['\n'],
            overview_text(md, md.modules),
        )),
{
    let name = md.modules[i].0;
    let m = md.modules[i].1;
    let head = name + seq!['\n'];
    let st = lines(" s  "@, keys_of(m.storage));
    let ca = calls_overview(md, name);
    let co = constants_overview(md, name);
    let er = errors_overview(md, name);
    assert(module_overview(md, name, m) =~= head + st + ca + co + er);
    if 0 <= k < m.storage.len() {
        let piece = " s  "@ + m.storage[k].0 + seq!['\n'];
        assert(keys_of(m.storage)[k] == m.storage[k].0);
        lemma_lines_contain(" s  "@, keys_of(m.storage), k);
        lemma_occurs_in_concat(piece, head, st, ca + co + er);
        assert(head + st + (ca + co + er) =~= module_overview(md, name, m));
        lemma_overview_text_contains(md, md.modules, i, piece);
    }
    if let Some(c) = seq_lookup(md.modules_with_calls, name) {
        if 0 <= k < c.calls.len() {
            let piece = " c  "@ + c.calls[k].0 + seq!['\n'];
            assert(keys_of(c.calls)[k] == c.calls[k].0);
            lemma_lines_contain(" c  "@, keys_of(c.calls), k);
            lemma_occurs_in_concat(piece, head + st, ca, co + er);
            assert(head + st + ca + (co + er) =~= module_overview(md, name, m));
            lemma_overview_text_contains(md, md.modules, i, piece);
        }
    }
    if let Some(e) = seq_lookup(md.modules_with_errors, name) {
        if 0 <= k < e.errors.len() {
            let piece = " err  "@ + e.errors[k].1 + seq!['\n'];
            assert(values_of(e.errors)[k] == e.errors[k].1);
            lemma_lines_contain(" err  "@, values_of(e.errors), k);
            lemma_occurs_in_concat(piece, head + st + ca + co, er, seq![]);
            assert(head + st + ca + co + er + seq![] =~= module_overview(md, name, m));
            lemma_overview_text_contains(md, md.modules, i, piece);
        }
    }
}

} // verus!
