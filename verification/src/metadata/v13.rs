use vstd::prelude::*;

use crate::assoc::{
    keys_distinct, lemma_lookup_insert, lemma_seq_insert, seq_insert, seq_lookup, AssocMap,
};
use crate::hashing::{spec_key_hash, spec_twox_128, StorageHasher};
use crate::extrinsic::spec_call_index;
use crate::metadata::v14::{
    copy_hashers, index_name_map, index_name_pairs, last_position, lemma_call_numbering,
    lemma_first_constant_named, lemma_lookup_at, lemma_variant_by_position, name_index_map,
    name_index_pairs, names_of, view_keys_distinct,
};
use crate::node_metadata::{
    first_constant_named, spec_prefix_key, spec_storage_map_key_prefix, spec_storage_value_key,
    spec_storage_double_map_key, spec_storage_map_key, storage_entry, utf8,
    ConversionError, Metadata, MetadataView, ModuleConstantMetadata, ModuleConstantView,
    ModuleMetadata, ModuleMetadataView, ModuleWithCalls, ModuleWithCallsView, ModuleWithConstants,
    ModuleWithConstantsView, ModuleWithErrors, ModuleWithErrorsView, ModuleWithEvents,
    ModuleWithEventsView, StorageEntryModifier, StorageEntryType, StorageEntryTypeView,
    StorageMetadata, StorageMetadataView,
};

verus! {

/// A value of version 13 metadata, either as it is encoded or as it was decoded.
pub enum DecodeDifferent<T> {
    Encode(T),
    Decoded(T),
}

/// The value that a [`DecodeDifferent`] carries, whichever its variant.
pub open spec fn dd_value<T>(d: DecodeDifferent<T>) -> T {
    match d {
        DecodeDifferent::Encode(v) => v,
        DecodeDifferent::Decoded(v) => v,
    }
}

/// An item of version 13 metadata that is read by its name only: a call, an event or an error.
pub struct NamedMetadataV13 {
    pub name: DecodeDifferent<String>,
}

pub struct ModuleConstantMetadataV13 {
    pub name: DecodeDifferent<String>,
    pub ty: DecodeDifferent<String>,
    pub value: DecodeDifferent<Vec<u8>>,
}

/// The shape of a version 13 storage entry.
pub enum StorageEntryTypeV13 {
    Plain,
    HashedMap { hasher: StorageHasher },
    DoubleMap { hasher: StorageHasher, key2_hasher: StorageHasher },
    NMap { hashers: DecodeDifferent<Vec<StorageHasher>> },
}

pub struct StorageEntryMetadataV13 {
    pub name: DecodeDifferent<String>,
    pub modifier: StorageEntryModifier,
    pub ty: StorageEntryTypeV13,
    pub default: DecodeDifferent<Vec<u8>>,
}

pub struct StorageMetadataV13 {
    pub prefix: DecodeDifferent<String>,
    pub entries: DecodeDifferent<Vec<StorageEntryMetadataV13>>,
}

pub struct ModuleMetadataV13 {
    pub name: DecodeDifferent<String>,
    pub storage: Option<DecodeDifferent<StorageMetadataV13>>,
    pub calls: Option<DecodeDifferent<Vec<NamedMetadataV13>>>,
    pub event: Option<DecodeDifferent<Vec<NamedMetadataV13>>>,
    pub constants: DecodeDifferent<Vec<ModuleConstantMetadataV13>>,
    pub errors: DecodeDifferent<Vec<NamedMetadataV13>>,
    pub index: u8,
}

/// Version 13 runtime metadata.
pub struct RuntimeMetadataV13 {
    pub modules: DecodeDifferent<Vec<ModuleMetadataV13>>,
}

// ------------------------------------------------------------ what is decoded

pub open spec fn names_decoded(items: DecodeDifferent<Vec<NamedMetadataV13>>) -> bool {
    &&& items is Decoded
    &&& forall|i: int|
        0 <= i < dd_value(items)@.len() ==> (#[trigger] dd_value(items)@[i]).name is Decoded
}

pub open spec fn item_names(items: DecodeDifferent<Vec<NamedMetadataV13>>) -> Seq<Seq<char>> {
    dd_value(items)@.map_values(|n: NamedMetadataV13| dd_value(n.name)@)
}

pub open spec fn constant_decoded(c: ModuleConstantMetadataV13) -> bool {
    c.name is Decoded && c.value is Decoded && c.ty is Decoded
}

pub open spec fn constants_decoded(cs: DecodeDifferent<Vec<ModuleConstantMetadataV13>>) -> bool {
    &&& cs is Decoded
    &&& forall|i: int| 0 <= i < dd_value(cs)@.len() ==> constant_decoded(#[trigger] dd_value(cs)@[i])
}

pub open spec fn entry_decoded(e: StorageEntryMetadataV13) -> bool {
    e.name is Decoded && e.default is Decoded
}

pub open spec fn storage_decoded(s: Option<DecodeDifferent<StorageMetadataV13>>) -> bool {
    match s {
        None => true,
        Some(d) => {
            &&& d is Decoded
            &&& dd_value(d).prefix is Decoded
            &&& dd_value(d).entries is Decoded
            &&& forall|i: int|
                0 <= i < dd_value(dd_value(d).entries)@.len() ==> entry_decoded(
                    #[trigger] dd_value(dd_value(d).entries)@[i],
                )
        },
    }
}

pub open spec fn module_decoded(m: ModuleMetadataV13) -> bool {
    &&& m.name is Decoded
    &&& storage_decoded(m.storage)
    &&& m.calls matches Some(c) ==> names_decoded(c)
    &&& m.event matches Some(e) ==> names_decoded(e)
    &&& names_decoded(m.errors)
    &&& constants_decoded(m.constants)
}

/// Everything of the metadata that is read was decoded.
pub open spec fn v13_decoded(meta: RuntimeMetadataV13) -> bool {
    &&& meta.modules is Decoded
    &&& forall|i: int|
        0 <= i < dd_value(meta.modules)@.len() ==> module_decoded(
            #[trigger] dd_value(meta.modules)@[i],
        )
}

// ------------------------------------------------------------ what it becomes

pub open spec fn entry_type_view(ty: StorageEntryTypeV13) -> StorageEntryTypeView {
    match ty {
        StorageEntryTypeV13::Plain => StorageEntryTypeView::Plain,
        StorageEntryTypeV13::HashedMap { hasher } => StorageEntryTypeView::HashedMap(seq![hasher]),
        StorageEntryTypeV13::DoubleMap { hasher, key2_hasher } => StorageEntryTypeView::HashedMap(
            seq![hasher, key2_hasher],
        ),
        StorageEntryTypeV13::NMap { hashers } => StorageEntryTypeView::HashedMap(
            dd_value(hashers)@,
        ),
    }
}

/// What a storage entry becomes under the given module and storage prefixes.
pub open spec fn v13_entry_view(
    module_prefix: Seq<char>,
    storage_prefix: Seq<char>,
    e: StorageEntryMetadataV13,
) -> StorageMetadataView {
    StorageMetadataView {
        module_prefix,
        storage_prefix,
        modifier: e.modifier,
        ty: entry_type_view(e.ty),
        default: dd_value(e.default)@,
    }
}

pub open spec fn v13_entry_pairs(module_prefix: Seq<char>, es: Seq<StorageEntryMetadataV13>) -> Seq<
    (Seq<char>, StorageMetadataView),
>
    decreases es.len(),
{
    if es.len() == 0 {
        seq![]
    } else {
        seq_insert(
            v13_entry_pairs(module_prefix, es.drop_last()),
            dd_value(es.last().name)@,
            v13_entry_view(module_prefix, dd_value(es.last().name)@, es.last()),
        )
    }
}

pub open spec fn v13_storage_pairs(s: Option<DecodeDifferent<StorageMetadataV13>>) -> Seq<
    (Seq<char>, StorageMetadataView),
> {
    match s {
        None => seq![],
        Some(d) => v13_entry_pairs(
            dd_value(dd_value(d).prefix)@,
            dd_value(dd_value(d).entries)@,
        ),
    }
}

pub open spec fn v13_constant_view(c: ModuleConstantMetadataV13) -> ModuleConstantView {
    ModuleConstantView {
        name: dd_value(c.name)@,
        ty: dd_value(c.ty)@,
        value: dd_value(c.value)@,
    }
}

pub open spec fn v13_constant_pairs(cs: Seq<ModuleConstantMetadataV13>) -> Seq<
    (u8, ModuleConstantView),
>
    decreases cs.len(),
{
    if cs.len() == 0 {
        seq![]
    } else {
        seq_insert(
            v13_constant_pairs(cs.drop_last()),
            (cs.len() - 1) as u8,
            v13_constant_view(cs.last()),
        )
    }
}

/// The metadata view after reading module `m` into `prev`.
pub open spec fn add_module(prev: MetadataView, m: ModuleMetadataV13) -> MetadataView {
    let name = dd_value(m.name)@;
    MetadataView {
        modules: seq_insert(
            prev.modules,
            name,
            ModuleMetadataView { index: m.index, name, storage: v13_storage_pairs(m.storage) },
        ),
        modules_with_calls: match m.calls {
            Some(c) => seq_insert(
                prev.modules_with_calls,
                name,
                ModuleWithCallsView {
                    index: m.index,
                    name,
                    calls: name_index_pairs(item_names(c)),
                },
            ),
            None => prev.modules_with_calls,
        },
        modules_with_errors: seq_insert(
            prev.modules_with_errors,
            name,
            ModuleWithErrorsView {
                index: m.index,
                name,
                errors: index_name_pairs(item_names(m.errors)),
            },
        ),
        modules_with_events: match m.event {
            Some(e) => seq_insert(
                prev.modules_with_events,
                name,
                ModuleWithEventsView {
                    index: m.index,
                    name,
                    events: index_name_pairs(item_names(e)),
                },
            ),
            None => prev.modules_with_events,
        },
        modules_with_constants: seq_insert(
            prev.modules_with_constants,
            name,
            ModuleWithConstantsView {
                index: m.index,
                name,
                constants: v13_constant_pairs(dd_value(m.constants)@),
            },
        ),
    }
}

/// The metadata that the modules, read in order, describe.
pub open spec fn v13_view(modules: Seq<ModuleMetadataV13>) -> MetadataView
    decreases modules.len(),
{
    if modules.len() == 0 {
        crate::metadata::v14::empty_view()
    } else {
        add_module(v13_view(modules.drop_last()), modules.last())
    }
}

// ------------------------------------------------------------ reading

/// The decoded value, or `ExpectedDecoded` for a value in its encoded form.
pub fn convert<T>(dd: &DecodeDifferent<T>) -> (r: Result<&T, ConversionError>)
    ensures
        r is Ok <==> dd is Decoded,
        r matches Ok(v) ==> *v == dd_value(*dd),
        r matches Err(e) ==> e == ConversionError::ExpectedDecoded,
{
    match dd {
        DecodeDifferent::Decoded(value) => Ok(value),
        DecodeDifferent::Encode(_) => Err(ConversionError::ExpectedDecoded),
    }
}

/// The decoded name of an event.
pub fn convert_event(event: &NamedMetadataV13) -> (r: Result<String, ConversionError>)
    ensures
        r is Ok <==> event.name is Decoded,
        r matches Ok(n) ==> n@ == dd_value(event.name)@,
        r matches Err(e) ==> e == ConversionError::ExpectedDecoded,
{
    match convert(&event.name) {
        Ok(name) => Ok(name.clone()),
        Err(e) => Err(e),
    }
}

/// The names of decoded items, in order.
fn convert_names(items: &DecodeDifferent<Vec<NamedMetadataV13>>) -> (r: Result<
    Vec<String>,
    ConversionError,
>)
    ensures
        r is Ok <==> names_decoded(*items),
        r matches Ok(v) ==> names_of(v@) == item_names(*items),
        r matches Err(e) ==> e == ConversionError::ExpectedDecoded,
{
    let list = match convert(items) {
        Ok(l) => l,
        Err(e) => return Err(e),
    };
    let mut names: Vec<String> = Vec::new();
    let n = list.len();
    for i in 0..n
        invariant
            n == list@.len(),
            *list == dd_value(*items),
            items is Decoded,
            names@.len() == i,
            forall|j: int| 0 <= j < i ==> (#[trigger] list@[j]).name is Decoded,
            forall|j: int| 0 <= j < i ==> #[trigger] names@[j]@ == dd_value(list@[j].name)@,
    {
        match convert_event(&list[i]) {
            Ok(name) => names.push(name),
            Err(e) => {
                assert(!names_decoded(*items)) by {
                    assert(!(dd_value(*items)@[i as int].name is Decoded));
                }
                return Err(e);
            },
        }
    }
    assert(names_of(names@) =~= item_names(*items));
    Ok(names)
}

/// The constant that a decoded version 13 constant describes.
pub fn convert_constant(constant: &ModuleConstantMetadataV13) -> (r: Result<
    ModuleConstantMetadata,
    ConversionError,
>)
    ensures
        r is Ok <==> constant_decoded(*constant),
        r matches Ok(c) ==> c@ == v13_constant_view(*constant),
        r matches Err(e) ==> e == ConversionError::ExpectedDecoded,
{
    let name = match convert(&constant.name) {
        Ok(v) => v.clone(),
        Err(e) => return Err(e),
    };
    let value = match convert(&constant.value) {
        Ok(v) => v.clone(),
        Err(e) => return Err(e),
    };
    let ty = match convert(&constant.ty) {
        Ok(v) => v.clone(),
        Err(e) => return Err(e),
    };
    assert(value@ =~= dd_value(constant.value)@);
    Ok(ModuleConstantMetadata::new(name, ty, value))
}

/// The storage item that a decoded version 13 storage entry describes: a
/// map, double map or n-map becomes a map with its hashers in order.
pub fn convert_entry(
    module_prefix: String,
    storage_prefix: String,
    entry: &StorageEntryMetadataV13,
) -> (r: Result<StorageMetadata, ConversionError>)
    ensures
        r is Ok <==> entry.default is Decoded,
        r matches Ok(m) ==> m@ == v13_entry_view(module_prefix@, storage_prefix@, *entry),
        r matches Err(e) ==> e == ConversionError::ExpectedDecoded,
{
    let default = match convert(&entry.default) {
        Ok(v) => v.clone(),
        Err(e) => return Err(e),
    };
    assert(default@ =~= dd_value(entry.default)@);
    let ty = match &entry.ty {
        StorageEntryTypeV13::Plain => StorageEntryType::Plain,
        StorageEntryTypeV13::HashedMap { hasher } => {
            let mut hashers: Vec<StorageHasher> = Vec::new();
            hashers.push(*hasher);
            assert(hashers@ =~= seq![*hasher]);
            StorageEntryType::HashedMap { hashers }
        },
        StorageEntryTypeV13::DoubleMap { hasher, key2_hasher } => {
            let mut hashers: Vec<StorageHasher> = Vec::new();
            hashers.push(*hasher);
            hashers.push(*key2_hasher);
            assert(hashers@ =~= seq![*hasher, *key2_hasher]);
            StorageEntryType::HashedMap { hashers }
        },
        StorageEntryTypeV13::NMap { hashers } => {
            let list = match hashers {
                DecodeDifferent::Encode(l) => l,
                DecodeDifferent::Decoded(l) => l,
            };
            StorageEntryType::HashedMap { hashers: copy_hashers(list) }
        },
    };
    Ok(StorageMetadata::new(module_prefix, storage_prefix, entry.modifier, ty, default))
}

fn v13_storage_map(storage: &Option<DecodeDifferent<StorageMetadataV13>>) -> (r: Result<
    AssocMap<String, StorageMetadata>,
    ConversionError,
>)
    ensures
        r is Ok <==> storage_decoded(*storage),
        r matches Ok(m) ==> m@ == v13_storage_pairs(*storage),
        r matches Err(e) ==> e == ConversionError::ExpectedDecoded,
{
    let mut m: AssocMap<String, StorageMetadata> = AssocMap::new();
    match storage {
        Some(d) => {
            let s = match convert(d) {
                Ok(s) => s,
                Err(e) => return Err(e),
            };
            let module_prefix = match convert(&s.prefix) {
                Ok(p) => p,
                Err(e) => return Err(e),
            };
            let entries = match convert(&s.entries) {
                Ok(es) => es,
                Err(e) => return Err(e),
            };
            let n = entries.len();
            for i in 0..n
                invariant
                    n == entries@.len(),
                    *entries == dd_value(s.entries),
                    *s == dd_value(*d),
                    *storage == Some(*d),
                    d is Decoded,
                    s.prefix is Decoded,
                    s.entries is Decoded,
                    *module_prefix == dd_value(s.prefix),
                    forall|j: int| 0 <= j < i ==> entry_decoded(#[trigger] entries@[j]),
                    m@ == v13_entry_pairs(module_prefix@, entries@.take(i as int)),
            {
                let entry = &entries[i];
                let storage_prefix = match convert(&entry.name) {
                    Ok(name) => name.clone(),
                    Err(e) => {
                        assert(!entry_decoded(entries@[i as int]));
                        return Err(e);
                    },
                };
                let converted = match convert_entry(
                    module_prefix.clone(),
                    storage_prefix.clone(),
                    entry,
                ) {
                    Ok(c) => c,
                    Err(e) => {
                        assert(!entry_decoded(entries@[i as int]));
                        return Err(e);
                    },
                };
                assert(entries@.take(i + 1).drop_last() =~= entries@.take(i as int));
                m.insert(storage_prefix, converted);
            }
            assert(entries@.take(n as int) =~= entries@);
        },
        None => {},
    }
    Ok(m)
}

fn v13_constants_map(constants: &DecodeDifferent<Vec<ModuleConstantMetadataV13>>) -> (r: Result<
    AssocMap<u8, ModuleConstantMetadata>,
    ConversionError,
>)
    ensures
        r is Ok <==> constants_decoded(*constants),
        r matches Ok(m) ==> m@ == v13_constant_pairs(dd_value(*constants)@),
        r matches Err(e) ==> e == ConversionError::ExpectedDecoded,
{
    let list = match convert(constants) {
        Ok(l) => l,
        Err(e) => return Err(e),
    };
    let mut m: AssocMap<u8, ModuleConstantMetadata> = AssocMap::new();
    let n = list.len();
    for i in 0..n
        invariant
            n == list@.len(),
            *list == dd_value(*constants),
            constants is Decoded,
            forall|j: int| 0 <= j < i ==> constant_decoded(#[trigger] list@[j]),
            m@ == v13_constant_pairs(list@.take(i as int)),
    {
        let c = match convert_constant(&list[i]) {
            Ok(c) => c,
            Err(e) => {
                assert(!constant_decoded(list@[i as int]));
                return Err(e);
            },
        };
        assert(list@.take(i + 1).drop_last() =~= list@.take(i as int));
        m.insert(i as u8, c);
    }
    assert(list@.take(n as int) =~= list@);
    Ok(m)
}

/// Reads version 13 metadata: every module becomes a module, a module with
/// errors and constants, and a module with calls or events where it has
/// them; anything read in its encoded form makes the whole read fail with
/// `ExpectedDecoded`.
pub fn parse_metadata_v13(meta: &RuntimeMetadataV13) -> (r: Result<Metadata, ConversionError>)
    ensures
        r is Ok <==> v13_decoded(*meta),
        r matches Ok(md) ==> md@ == v13_view(dd_value(meta.modules)@),
        r matches Err(e) ==> e == ConversionError::ExpectedDecoded,
{
    let mut modules: AssocMap<String, ModuleMetadata> = AssocMap::new();
    let mut modules_with_calls: AssocMap<String, ModuleWithCalls> = AssocMap::new();
    let mut modules_with_errors: AssocMap<String, ModuleWithErrors> = AssocMap::new();
    let mut modules_with_events: AssocMap<String, ModuleWithEvents> = AssocMap::new();
    let mut modules_with_constants: AssocMap<String, ModuleWithConstants> = AssocMap::new();
    let list = match convert(&meta.modules) {
        Ok(l) => l,
        Err(e) => return Err(e),
    };
    let n = list.len();
    for i in 0..n
        invariant
            n == list@.len(),
            *list == dd_value(meta.modules),
            meta.modules is Decoded,
            forall|j: int| 0 <= j < i ==> module_decoded(#[trigger] list@[j]),
            v13_view(list@.take(i as int)) == (MetadataView {
                modules: modules@,
                modules_with_calls: modules_with_calls@,
                modules_with_errors: modules_with_errors@,
                modules_with_events: modules_with_events@,
                modules_with_constants: modules_with_constants@,
            }),
    {
        let module = &list[i];
        let module_name = match convert(&module.name) {
            Ok(n) => n,
            Err(e) => {
                assert(!module_decoded(list@[i as int]));
                return Err(e);
            },
        };
        let storage = match v13_storage_map(&module.storage) {
            Ok(s) => s,
            Err(e) => {
                assert(!module_decoded(list@[i as int]));
                return Err(e);
            },
        };
        let calls = match &module.calls {
            Some(c) => match convert_names(c) {
                Ok(names) => Some(name_index_map(&names)),
                Err(e) => {
                    assert(!module_decoded(list@[i as int]));
                    return Err(e);
                },
            },
            None => None,
        };
        let events = match &module.event {
            Some(ev) => match convert_names(ev) {
                Ok(names) => Some(index_name_map(&names)),
                Err(e) => {
                    assert(!module_decoded(list@[i as int]));
                    return Err(e);
                },
            },
            None => None,
        };
        let errors = match convert_names(&module.errors) {
            Ok(names) => index_name_map(&names),
            Err(e) => {
                assert(!module_decoded(list@[i as int]));
                return Err(e);
            },
        };
        let constants = match v13_constants_map(&module.constants) {
            Ok(c) => c,
            Err(e) => {
                assert(!module_decoded(list@[i as int]));
                return Err(e);
            },
        };
        assert(module_decoded(list@[i as int]));
        assert(list@.take(i + 1).drop_last() =~= list@.take(i as int));

        modules.insert(
            module_name.clone(),
            ModuleMetadata::new(module.index, module_name.clone(), storage),
        );
        match calls {
            Some(calls) => {
                modules_with_calls.insert(
                    module_name.clone(),
                    ModuleWithCalls { index: module.index, name: module_name.clone(), calls },
                );
            },
            None => {},
        }
        match events {
            Some(events) => {
                modules_with_events.insert(
                    module_name.clone(),
                    ModuleWithEvents { index: module.index, name: module_name.clone(), events },
                );
            },
            None => {},
        }
        modules_with_errors.insert(
            module_name.clone(),
            ModuleWithErrors { index: module.index, name: module_name.clone(), errors },
        );
        modules_with_constants.insert(
            module_name.clone(),
            ModuleWithConstants::new(module.index, module_name.clone(), constants),
        );
    }
    assert(list@.take(n as int) =~= list@);
    Ok(
        Metadata::new(
            modules,
            modules_with_calls,
            modules_with_errors,
            modules_with_events,
            modules_with_constants,
        ),
    )
}

/// The last module, in order, whose name is `name`.
pub open spec fn last_module_named(modules: Seq<ModuleMetadataV13>, name: Seq<char>) -> Option<
    ModuleMetadataV13,
>
    decreases modules.len(),
{
    if modules.len() == 0 {
        None
    } else if dd_value(modules.last().name)@ == name {
        Some(modules.last())
    } else {
        last_module_named(modules.drop_last(), name)
    }
}

proof fn lemma_v13_distinct(modules: Seq<ModuleMetadataV13>)
    ensures
        view_keys_distinct(v13_view(modules)),
    decreases modules.len(),
{
    if modules.len() > 0 {
        let prev = v13_view(modules.drop_last());
        lemma_v13_distinct(modules.drop_last());
        let m = modules.last();
        let name = dd_value(m.name)@;
        lemma_seq_insert(
            prev.modules,
            name,
            ModuleMetadataView { index: m.index, name, storage: v13_storage_pairs(m.storage) },
        );
        if let Some(c) = m.calls {
            lemma_seq_insert(
                prev.modules_with_calls,
                name,
                ModuleWithCallsView {
                    index: m.index,
                    name,
                    calls: name_index_pairs(item_names(c)),
                },
            );
        }
        lemma_seq_insert(
            prev.modules_with_errors,
            name,
            ModuleWithErrorsView {
                index: m.index,
                name,
                errors: index_name_pairs(item_names(m.errors)),
            },
        );
        if let Some(e) = m.event {
            lemma_seq_insert(
                prev.modules_with_events,
                name,
                ModuleWithEventsView {
                    index: m.index,
                    name,
                    events: index_name_pairs(item_names(e)),
                },
            );
        }
        lemma_seq_insert(
            prev.modules_with_constants,
            name,
            ModuleWithConstantsView {
                index: m.index,
                name,
                constants: v13_constant_pairs(dd_value(m.constants)@),
            },
        );
    }
}

/// Reading version 13 metadata gives, under each name, the module made of
/// the last module of that name, and no module under a name no module has.
pub proof fn lemma_v13_module_of_last_module(modules: Seq<ModuleMetadataV13>, name: Seq<char>)
    ensures
        seq_lookup(v13_view(modules).modules, name) == match last_module_named(modules, name) {
            Some(m) => Some(
                ModuleMetadataView {
                    index: m.index,
                    name: dd_value(m.name)@,
                    storage: v13_storage_pairs(m.storage),
                },
            ),
            None => None::<ModuleMetadataView>,
        },
    decreases modules.len(),
{
    if modules.len() > 0 {
        let prev = v13_view(modules.drop_last());
        lemma_v13_distinct(modules.drop_last());
        lemma_v13_module_of_last_module(modules.drop_last(), name);
        let m = modules.last();
        lemma_lookup_insert(
            prev.modules,
            dd_value(m.name)@,
            ModuleMetadataView {
                index: m.index,
                name: dd_value(m.name)@,
                storage: v13_storage_pairs(m.storage),
            },
            name,
        );
    } else {
        assert(seq_lookup(Seq::<(Seq<char>, ModuleMetadataView)>::empty(), name) is None);
    }
}

/// In metadata read from version 13, every module with calls or events is
/// a module of the same name, and exactly the modules have errors and
/// constants.
pub proof fn lemma_v13_sections_are_modules(modules: Seq<ModuleMetadataV13>, name: Seq<char>)
    ensures
        ({
            let v = v13_view(modules);
            &&& seq_lookup(v.modules_with_calls, name) is Some ==> seq_lookup(v.modules, name) is Some
            &&& seq_lookup(v.modules_with_events, name) is Some ==> seq_lookup(v.modules, name) is Some
            &&& seq_lookup(v.modules_with_errors, name) is Some <==> seq_lookup(v.modules, name) is Some
            &&& seq_lookup(v.modules_with_constants, name) is Some <==> seq_lookup(
                v.modules,
                name,
            ) is Some
        }),
    decreases modules.len(),
{
    if modules.len() > 0 {
        let prev = v13_view(modules.drop_last());
        lemma_v13_distinct(modules.drop_last());
        lemma_v13_sections_are_modules(modules.drop_last(), name);
        let m = modules.last();
        let mn = dd_value(m.name)@;
        lemma_lookup_insert(
            prev.modules,
            mn,
            ModuleMetadataView { index: m.index, name: mn, storage: v13_storage_pairs(m.storage) },
            name,
        );
        if let Some(c) = m.calls {
            lemma_lookup_insert(
                prev.modules_with_calls,
                mn,
                ModuleWithCallsView {
                    index: m.index,
                    name: mn,
                    calls: name_index_pairs(item_names(c)),
                },
                name,
            );
        }
        lemma_lookup_insert(
            prev.modules_with_errors,
            mn,
            ModuleWithErrorsView {
                index: m.index,
                name: mn,
                errors: index_name_pairs(item_names(m.errors)),
            },
            name,
        );
        if let Some(e) = m.event {
            lemma_lookup_insert(
                prev.modules_with_events,
                mn,
                ModuleWithEventsView {
                    index: m.index,
                    name: mn,
                    events: index_name_pairs(item_names(e)),
                },
                name,
            );
        }
        lemma_lookup_insert(
            prev.modules_with_constants,
            mn,
            ModuleWithConstantsView {
                index: m.index,
                name: mn,
                constants: v13_constant_pairs(dd_value(m.constants)@),
            },
            name,
        );
    }
}


/// The last module, in order, named `name` that has calls.
pub open spec fn last_call_module(modules: Seq<ModuleMetadataV13>, name: Seq<char>) -> Option<
    ModuleMetadataV13,
>
    decreases modules.len(),
{
    if modules.len() == 0 {
        None
    } else if dd_value(modules.last().name)@ == name && modules.last().calls is Some {
        Some(modules.last())
    } else {
        last_call_module(modules.drop_last(), name)
    }
}

proof fn lemma_v13_calls_of_last_module(modules: Seq<ModuleMetadataV13>, name: Seq<char>)
    ensures
        seq_lookup(v13_view(modules).modules_with_calls, name) == match last_call_module(
            modules,
            name,
        ) {
            Some(m) => Some(
                ModuleWithCallsView {
                    index: m.index,
                    name: dd_value(m.name)@,
                    calls: name_index_pairs(item_names(m.calls->0)),
                },
            ),
            None => None::<ModuleWithCallsView>,
        },
    decreases modules.len(),
{
    if modules.len() > 0 {
        let prev = v13_view(modules.drop_last());
        lemma_v13_distinct(modules.drop_last());
        lemma_v13_calls_of_last_module(modules.drop_last(), name);
        let m = modules.last();
        if let Some(c) = m.calls {
            lemma_lookup_insert(
                prev.modules_with_calls,
                dd_value(m.name)@,
                ModuleWithCallsView {
                    index: m.index,
                    name: dd_value(m.name)@,
                    calls: name_index_pairs(item_names(c)),
                },
                name,
            );
        }
    } else {
        assert(seq_lookup(Seq::<(Seq<char>, ModuleWithCallsView)>::empty(), name) is None);
    }
}

/// In metadata read from version 13, the call index of `call` in `module`
/// pairs the index of the last module named `module` that has calls with
/// the last position of `call` among that module's calls, as a byte; there
/// is none when no such module or call exists.
pub proof fn lemma_v13_call_index(modules: Seq<ModuleMetadataV13>, module: Seq<char>, call: Seq<char>)
    ensures
        spec_call_index(v13_view(modules), module, call) == match last_call_module(modules, module) {
            Some(m) => match last_position(item_names(m.calls->0), call) {
                Some(i) => Some((m.index, i as u8)),
                None => None::<(u8, u8)>,
            },
            None => None::<(u8, u8)>,
        },
{
    lemma_v13_calls_of_last_module(modules, module);
    if let Some(m) = last_call_module(modules, module) {
        lemma_call_numbering(item_names(m.calls->0), call);
    }
}


// ------------------------------------------------------------ laws: constants, storage, events, errors

proof fn lemma_v13_constant_pairs(cs: Seq<ModuleConstantMetadataV13>)
    requires
        cs.len() <= 256,
    ensures
        keys_distinct(v13_constant_pairs(cs)),
        v13_constant_pairs(cs).len() == cs.len(),
        forall|j: int|
            0 <= j < cs.len() ==> (#[trigger] v13_constant_pairs(cs)[j]).0 as int == j
                && v13_constant_pairs(cs)[j].1 == v13_constant_view(cs[j]),
    decreases cs.len(),
{
    if cs.len() > 0 {
        let prev = v13_constant_pairs(cs.drop_last());
        let k = (cs.len() - 1) as u8;
        lemma_v13_constant_pairs(cs.drop_last());
        lemma_seq_insert(prev, k, v13_constant_view(cs.last()));
        assert(!(exists|i: int| 0 <= i < prev.len() && prev[i].0 == k)) by {
            assert forall|i: int| 0 <= i < prev.len() implies prev[i].0 != k by {
                assert(prev[i].0 as int == i);
            }
        }
        let t = v13_constant_pairs(cs);
        assert(t == prev.push((k, v13_constant_view(cs.last()))));
        assert forall|j: int| 0 <= j < cs.len() implies (#[trigger] t[j]).0 as int == j && t[j].1
            == v13_constant_view(cs[j]) by {
            if j < cs.len() - 1 {
                assert(t[j] == prev[j]);
                assert(cs.drop_last()[j] == cs[j]);
            }
        }
    }
}

proof fn lemma_v13_constants_of_last_module(modules: Seq<ModuleMetadataV13>, name: Seq<char>)
    ensures
        seq_lookup(v13_view(modules).modules_with_constants, name) == match last_module_named(
            modules,
            name,
        ) {
            Some(m) => Some(
                ModuleWithConstantsView {
                    index: m.index,
                    name: dd_value(m.name)@,
                    constants: v13_constant_pairs(dd_value(m.constants)@),
                },
            ),
            None => None::<ModuleWithConstantsView>,
        },
    decreases modules.len(),
{
    if modules.len() > 0 {
        let prev = v13_view(modules.drop_last());
        lemma_v13_distinct(modules.drop_last());
        lemma_v13_constants_of_last_module(modules.drop_last(), name);
        let m = modules.last();
        lemma_lookup_insert(
            prev.modules_with_constants,
            dd_value(m.name)@,
            ModuleWithConstantsView {
                index: m.index,
                name: dd_value(m.name)@,
                constants: v13_constant_pairs(dd_value(m.constants)@),
            },
            name,
        );
    } else {
        assert(seq_lookup(Seq::<(Seq<char>, ModuleWithConstantsView)>::empty(), name) is None);
    }
}

/// Reading version 13 metadata keeps every constant of a module: the module
/// with constants under `name` is the last module so named, it has as many
/// constants as that module declares (at most 256), under each position `k`
/// it holds the `k`-th constant with its name, type and value, and looking
/// a constant up by its name finds one.
pub proof fn lemma_v13_constants_by_position(modules: Seq<ModuleMetadataV13>, name: Seq<char>, k: int)
    requires
        last_module_named(modules, name) is Some,
        dd_value(last_module_named(modules, name)->0.constants)@.len() <= 256,
        0 <= k < dd_value(last_module_named(modules, name)->0.constants)@.len(),
    ensures
        ({
            let m = last_module_named(modules, name)->0;
            let c = dd_value(m.constants)@[k];
            let found = seq_lookup(v13_view(modules).modules_with_constants, name);
            &&& found is Some
            &&& found->0.index == m.index
            &&& found->0.constants.len() == dd_value(m.constants)@.len()
            &&& seq_lookup(found->0.constants, k as u8) == Some(
                ModuleConstantView {
                    name: dd_value(c.name)@,
                    ty: dd_value(c.ty)@,
                    value: dd_value(c.value)@,
                },
            )
            &&& first_constant_named(found->0.constants, dd_value(c.name)@) is Some
        }),
{
    let m = last_module_named(modules, name)->0;
    lemma_v13_constants_of_last_module(modules, name);
    let cp = v13_constant_pairs(dd_value(m.constants)@);
    lemma_v13_constant_pairs(dd_value(m.constants)@);
    assert(cp[k].0 as int == k);
    lemma_lookup_at(cp, k);
    assert(cp[k].0 == k as u8);
    lemma_first_constant_named(cp, k);
}

/// The last storage entry, in order, named `name`.
pub open spec fn v13_last_entry_named(es: Seq<StorageEntryMetadataV13>, name: Seq<char>) -> Option<
    StorageEntryMetadataV13,
>
    decreases es.len(),
{
    if es.len() == 0 {
        None
    } else if dd_value(es.last().name)@ == name {
        Some(es.last())
    } else {
        v13_last_entry_named(es.drop_last(), name)
    }
}

proof fn lemma_v13_entry_pairs(module_prefix: Seq<char>, es: Seq<StorageEntryMetadataV13>, name: Seq<char>)
    ensures
        keys_distinct(v13_entry_pairs(module_prefix, es)),
        seq_lookup(v13_entry_pairs(module_prefix, es), name) == match v13_last_entry_named(es, name) {
            Some(e) => Some(v13_entry_view(module_prefix, name, e)),
            None => None::<StorageMetadataView>,
        },
    decreases es.len(),
{
    if es.len() > 0 {
        let prev = v13_entry_pairs(module_prefix, es.drop_last());
        lemma_v13_entry_pairs(module_prefix, es.drop_last(), name);
        let e = es.last();
        let n = dd_value(e.name)@;
        lemma_seq_insert(prev, n, v13_entry_view(module_prefix, n, e));
        lemma_lookup_insert(prev, n, v13_entry_view(module_prefix, n, e), name);
    } else {
        assert(seq_lookup(Seq::<(Seq<char>, StorageMetadataView)>::empty(), name) is None);
    }
}

/// Reading version 13 metadata keeps every storage entry and its shape: the
/// item `item` of module `module` is the last entry so named of the last
/// module named `module`, under the module's storage prefix; a map has its
/// one hasher, a double map its two hashers in order, a map of several keys
/// all its hashers, and a plain entry stays plain. So every map item has a
/// key prefix and no value key.
pub proof fn lemma_v13_storage_entry(modules: Seq<ModuleMetadataV13>, module: Seq<char>, item: Seq<char>)
    ensures
        ({
            let v = v13_view(modules);
            match last_module_named(modules, module) {
                None => storage_entry(v, module, item) is None,
                Some(m) => match m.storage {
                    None => storage_entry(v, module, item) is None,
                    Some(d) => match v13_last_entry_named(dd_value(dd_value(d).entries)@, item) {
                        None => storage_entry(v, module, item) is None,
                        Some(e) => {
                            let prefix = dd_value(dd_value(d).prefix)@;
                            &&& storage_entry(v, module, item) == Some(
                                StorageMetadataView {
                                    module_prefix: prefix,
                                    storage_prefix: item,
                                    modifier: e.modifier,
                                    ty: match e.ty {
                                        StorageEntryTypeV13::Plain => StorageEntryTypeView::Plain,
                                        StorageEntryTypeV13::HashedMap { hasher } => StorageEntryTypeView::HashedMap(
                                            seq![hasher],
                                        ),
                                        StorageEntryTypeV13::DoubleMap { hasher, key2_hasher } => StorageEntryTypeView::HashedMap(
                                            seq![hasher, key2_hasher],
                                        ),
                                        StorageEntryTypeV13::NMap { hashers } => StorageEntryTypeView::HashedMap(
                                            dd_value(hashers)@,
                                        ),
                                    },
                                    default: dd_value(e.default)@,
                                },
                            )
                            &&& !(e.ty is Plain) ==> spec_storage_map_key_prefix(v, module, item)
                                == Some(spec_prefix_key(utf8(prefix), utf8(item)))
                                && spec_storage_value_key(v, module, item) is None
                        },
                    },
                },
            }
        }),
{
    lemma_v13_module_of_last_module(modules, module);
    if let Some(m) = last_module_named(modules, module) {
        if let Some(d) = m.storage {
            lemma_v13_entry_pairs(dd_value(dd_value(d).prefix)@, dd_value(dd_value(d).entries)@, item);
        } else {
            assert(seq_lookup(Seq::<(Seq<char>, StorageMetadataView)>::empty(), item) is None);
        }
    }
}

/// The last module, in order, named `name` that has events.
pub open spec fn last_event_module(modules: Seq<ModuleMetadataV13>, name: Seq<char>) -> Option<
    ModuleMetadataV13,
>
    decreases modules.len(),
{
    if modules.len() == 0 {
        None
    } else if dd_value(modules.last().name)@ == name && modules.last().event is Some {
        Some(modules.last())
    } else {
        last_event_module(modules.drop_last(), name)
    }
}

proof fn lemma_v13_events_of_last_module(modules: Seq<ModuleMetadataV13>, name: Seq<char>)
    ensures
        seq_lookup(v13_view(modules).modules_with_events, name) == match last_event_module(
            modules,
            name,
        ) {
            Some(m) => Some(
                ModuleWithEventsView {
                    index: m.index,
                    name: dd_value(m.name)@,
                    events: index_name_pairs(item_names(m.event->0)),
                },
            ),
            None => None::<ModuleWithEventsView>,
        },
    decreases modules.len(),
{
    if modules.len() > 0 {
        let prev = v13_view(modules.drop_last());
        lemma_v13_distinct(modules.drop_last());
        lemma_v13_events_of_last_module(modules.drop_last(), name);
        let m = modules.last();
        if let Some(e) = m.event {
            lemma_lookup_insert(
                prev.modules_with_events,
                dd_value(m.name)@,
                ModuleWithEventsView {
                    index: m.index,
                    name: dd_value(m.name)@,
                    events: index_name_pairs(item_names(e)),
                },
                name,
            );
        }
    } else {
        assert(seq_lookup(Seq::<(Seq<char>, ModuleWithEventsView)>::empty(), name) is None);
    }
}

proof fn lemma_v13_errors_of_last_module(modules: Seq<ModuleMetadataV13>, name: Seq<char>)
    ensures
        seq_lookup(v13_view(modules).modules_with_errors, name) == match last_module_named(
            modules,
            name,
        ) {
            Some(m) => Some(
                ModuleWithErrorsView {
                    index: m.index,
                    name: dd_value(m.name)@,
                    errors: index_name_pairs(item_names(m.errors)),
                },
            ),
            None => None::<ModuleWithErrorsView>,
        },
    decreases modules.len(),
{
    if modules.len() > 0 {
        let prev = v13_view(modules.drop_last());
        lemma_v13_distinct(modules.drop_last());
        lemma_v13_errors_of_last_module(modules.drop_last(), name);
        let m = modules.last();
        lemma_lookup_insert(
            prev.modules_with_errors,
            dd_value(m.name)@,
            ModuleWithErrorsView {
                index: m.index,
                name: dd_value(m.name)@,
                errors: index_name_pairs(item_names(m.errors)),
            },
            name,
        );
    } else {
        assert(seq_lookup(Seq::<(Seq<char>, ModuleWithErrorsView)>::empty(), name) is None);
    }
}

/// The name of item `k` among `items` when there is one.
pub open spec fn item_at(items: DecodeDifferent<Vec<NamedMetadataV13>>, k: u8) -> Option<Seq<char>> {
    if (k as int) < dd_value(items)@.len() {
        Some(dd_value(dd_value(items)@[k as int].name)@)
    } else {
        None
    }
}

/// Reading version 13 metadata gives a module with events under `name`
/// exactly when some module so named has events, whether or not it has
/// calls; it is the last such module, and byte `k` finds its `k`-th event
/// (of at most 256).
pub proof fn lemma_v13_events_by_position(modules: Seq<ModuleMetadataV13>, name: Seq<char>, k: u8)
    ensures
        ({
            let found = seq_lookup(v13_view(modules).modules_with_events, name);
            &&& found is Some <==> last_event_module(modules, name) is Some
            &&& last_event_module(modules, name) matches Some(m) ==> {
                &&& found->0.index == m.index
                &&& dd_value(m.event->0)@.len() <= 256 ==> seq_lookup(found->0.events, k)
                    == item_at(m.event->0, k)
            }
        }),
{
    lemma_v13_events_of_last_module(modules, name);
    if let Some(m) = last_event_module(modules, name) {
        if dd_value(m.event->0)@.len() <= 256 {
            lemma_variant_by_position(item_names(m.event->0), k);
        }
    }
}

/// Reading version 13 metadata gives every module its errors: the module
/// with errors under `name` is the last module so named, and byte `k` finds
/// its `k`-th error (of at most 256).
pub proof fn lemma_v13_errors_by_position(modules: Seq<ModuleMetadataV13>, name: Seq<char>, k: u8)
    ensures
        ({
            let found = seq_lookup(v13_view(modules).modules_with_errors, name);
            &&& found is Some <==> last_module_named(modules, name) is Some
            &&& last_module_named(modules, name) matches Some(m) ==> {
                &&& found->0.index == m.index
                &&& dd_value(m.errors)@.len() <= 256 ==> seq_lookup(found->0.errors, k) == item_at(
                    m.errors,
                    k,
                )
            }
        }),
{
    lemma_v13_errors_of_last_module(modules, name);
    if let Some(m) = last_module_named(modules, name) {
        if dd_value(m.errors)@.len() <= 256 {
            lemma_variant_by_position(item_names(m.errors), k);
        }
    }
}


/// The storage keys of a map item of version 13 metadata: the key of the
/// entry for `first` is the 128-bit xxHash of the module's storage prefix,
/// then that of the item's name, then `first` hashed by the map's (first)
/// hasher; for a double map, `second` hashed by its second hasher follows.
pub proof fn lemma_v13_storage_keys(
    modules: Seq<ModuleMetadataV13>,
    module: Seq<char>,
    item: Seq<char>,
    first: Seq<u8>,
    second: Seq<u8>,
)
    requires
        last_module_named(modules, module) matches Some(m) && m.storage matches Some(d)
            && v13_last_entry_named(dd_value(dd_value(d).entries)@, item) is Some,
    ensures
        ({
            let v = v13_view(modules);
            let d = last_module_named(modules, module)->0.storage->0;
            let e = v13_last_entry_named(dd_value(dd_value(d).entries)@, item)->0;
            let prefix = spec_twox_128(utf8(dd_value(dd_value(d).prefix)@)) + spec_twox_128(
                utf8(item),
            );
            &&& e.ty matches StorageEntryTypeV13::HashedMap { hasher } ==> spec_storage_map_key(
                v,
                module,
                item,
                first,
            ) == Some(prefix + spec_key_hash(first, hasher))
            &&& e.ty matches StorageEntryTypeV13::DoubleMap { hasher, key2_hasher }
                ==> spec_storage_double_map_key(v, module, item, first, second) == Some(
                prefix + spec_key_hash(first, hasher) + spec_key_hash(second, key2_hasher),
            )
            &&& e.ty is Plain ==> spec_storage_value_key(v, module, item) == Some(prefix)
        }),
{
    lemma_v13_storage_entry(modules, module, item);
}

} // verus!
