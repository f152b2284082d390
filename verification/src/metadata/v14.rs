use vstd::prelude::*;

use crate::assoc::{keys_distinct, lemma_lookup_insert, lemma_seq_insert, seq_insert, seq_lookup, AssocMap};
use crate::extrinsic::spec_call_index;
use crate::hashing::{spec_key_hash, spec_twox_128, StorageHasher};
use crate::node_metadata::{
    first_constant_named, spec_prefix_key, spec_storage_map_key_prefix, spec_storage_value_key,
    spec_storage_double_map_key, spec_storage_map_key, storage_entry, utf8, ConversionError, Metadata, MetadataView, ModuleConstantMetadata, ModuleConstantView,
    ModuleMetadata, ModuleMetadataView, ModuleWithCalls, ModuleWithCallsView, ModuleWithConstants,
    ModuleWithConstantsView, ModuleWithErrors, ModuleWithErrorsView, ModuleWithEvents,
    ModuleWithEventsView, StorageEntryModifier, StorageEntryType, StorageEntryTypeView,
    StorageMetadata, StorageMetadataView,
};

verus! {

/// A type of the runtime's type registry, as far as the metadata is read:
/// the rendered path of the type, and the names of its variants when it is
/// a variant type.
pub struct PortableType {
    pub path: String,
    pub variants: Option<Vec<String>>,
}

/// The shape of a storage entry and the registry ids of its types.
pub enum StorageEntryTypeV14 {
    Plain { value: u32 },
    HashedMap { hashers: Vec<StorageHasher>, key: u32, value: u32 },
}

pub struct StorageEntryMetadataV14 {
    pub name: String,
    pub modifier: StorageEntryModifier,
    pub ty: StorageEntryTypeV14,
    pub default: Vec<u8>,
}

pub struct PalletStorageMetadata {
    pub prefix: String,
    pub entries: Vec<StorageEntryMetadataV14>,
}

pub struct PalletConstantMetadata {
    pub name: String,
    pub ty: u32,
    pub value: Vec<u8>,
}

/// A pallet; `calls`, `event` and `error` are registry ids of the pallet's
/// call, event and error types.
pub struct PalletMetadata {
    pub name: String,
    pub storage: Option<PalletStorageMetadata>,
    pub calls: Option<u32>,
    pub event: Option<u32>,
    pub constants: Vec<PalletConstantMetadata>,
    pub error: Option<u32>,
    pub index: u8,
}

/// Version 14 runtime metadata: the type registry, indexed by position, and the pallets.
pub struct RuntimeMetadataV14 {
    pub types: Vec<PortableType>,
    pub pallets: Vec<PalletMetadata>,
}

pub open spec fn names_of(v: Seq<String>) -> Seq<Seq<char>> {
    v.map_values(|s: String| s@)
}

/// Each name with the position at which it was enumerated, as a byte; a
/// later equal name takes the later position.
pub open spec fn name_index_pairs(names: Seq<Seq<char>>) -> Seq<(Seq<char>, u8)>
    decreases names.len(),
{
    if names.len() == 0 {
        seq![]
    } else {
        seq_insert(name_index_pairs(names.drop_last()), names.last(), (names.len() - 1) as u8)
    }
}

/// Each enumerated position, as a byte, with its name; a later position
/// with an equal byte takes its place.
pub open spec fn index_name_pairs(names: Seq<Seq<char>>) -> Seq<(u8, Seq<char>)>
    decreases names.len(),
{
    if names.len() == 0 {
        seq![]
    } else {
        seq_insert(index_name_pairs(names.drop_last()), (names.len() - 1) as u8, names.last())
    }
}

/// The last position at which `name` stands among `names`.
pub open spec fn last_position(names: Seq<Seq<char>>, name: Seq<char>) -> Option<int>
    decreases names.len(),
{
    if names.len() == 0 {
        None
    } else if names.last() == name {
        Some(names.len() - 1)
    } else {
        last_position(names.drop_last(), name)
    }
}

/// Calls are numbered by their position: the number of a name is the last
/// position at which it stands, as a byte, and a name that does not stand
/// there has none.
pub proof fn lemma_call_numbering(names: Seq<Seq<char>>, name: Seq<char>)
    ensures
        keys_distinct(name_index_pairs(names)),
        seq_lookup(name_index_pairs(names), name) == match last_position(names, name) {
            Some(i) => Some(i as u8),
            None => None::<u8>,
        },
    decreases names.len(),
{
    if names.len() > 0 {
        let prev = name_index_pairs(names.drop_last());
        lemma_call_numbering(names.drop_last(), name);
        lemma_seq_insert(prev, names.last(), (names.len() - 1) as u8);
        lemma_lookup_insert(prev, names.last(), (names.len() - 1) as u8, name);
    } else {
        assert(seq_lookup(Seq::<(Seq<char>, u8)>::empty(), name) is None);
    }
}

/// Errors and events are found by their position: with at most 256 of
/// them, the byte `i` finds the name at position `i`, and no name when
/// there are not that many.
pub proof fn lemma_variant_by_position(names: Seq<Seq<char>>, i: u8)
    requires
        names.len() <= 256,
    ensures
        keys_distinct(index_name_pairs(names)),
        seq_lookup(index_name_pairs(names), i) == if (i as int) < names.len() {
            Some(names[i as int])
        } else {
            None::<Seq<char>>
        },
    decreases names.len(),
{
    if names.len() > 0 {
        let prev = index_name_pairs(names.drop_last());
        let last = (names.len() - 1) as u8;
        lemma_variant_by_position(names.drop_last(), i);
        lemma_seq_insert(prev, last, names.last());
        lemma_lookup_insert(prev, last, names.last(), i);
        assert(last as int == names.len() - 1);
    } else {
        assert(seq_lookup(Seq::<(u8, Seq<char>)>::empty(), i) is None);
    }
}

/// The variant names of the registry type `id`, if it is a variant type.
pub open spec fn variant_names(types: Seq<PortableType>, id: u32) -> Option<Seq<Seq<char>>> {
    match types[id as int].variants {
        Some(v) => Some(names_of(v@)),
        None => None,
    }
}

pub open spec fn call_pairs(types: Seq<PortableType>, id: u32) -> Seq<(Seq<char>, u8)> {
    match variant_names(types, id) {
        Some(names) => name_index_pairs(names),
        None => seq![],
    }
}

pub open spec fn indexed_variant_pairs(types: Seq<PortableType>, id: u32) -> Seq<(u8, Seq<char>)> {
    match variant_names(types, id) {
        Some(names) => index_name_pairs(names),
        None => seq![],
    }
}

/// What a storage entry of the module with storage prefix `module_prefix` becomes.
pub open spec fn entry_view(
    module_prefix: Seq<char>,
    storage_prefix: Seq<char>,
    e: StorageEntryMetadataV14,
) -> StorageMetadataView {
    StorageMetadataView {
        module_prefix,
        storage_prefix,
        modifier: e.modifier,
        ty: match e.ty {
            StorageEntryTypeV14::Plain { .. } => StorageEntryTypeView::Plain,
            StorageEntryTypeV14::HashedMap { hashers, .. } => StorageEntryTypeView::HashedMap(
                hashers@,
            ),
        },
        default: e.default@,
    }
}

pub open spec fn entry_pairs(module_prefix: Seq<char>, es: Seq<StorageEntryMetadataV14>) -> Seq<
    (Seq<char>, StorageMetadataView),
>
    decreases es.len(),
{
    if es.len() == 0 {
        seq![]
    } else {
        seq_insert(
            entry_pairs(module_prefix, es.drop_last()),
            es.last().name@,
            entry_view(module_prefix, es.last().name@, es.last()),
        )
    }
}

pub open spec fn storage_pairs(storage: Option<PalletStorageMetadata>) -> Seq<
    (Seq<char>, StorageMetadataView),
> {
    match storage {
        Some(s) => entry_pairs(s.prefix@, s.entries@),
        None => seq![],
    }
}

pub open spec fn constant_view(types: Seq<PortableType>, c: PalletConstantMetadata) -> ModuleConstantView {
    ModuleConstantView { name: c.name@, ty: types[c.ty as int].path@, value: c.value@ }
}

pub open spec fn constant_pairs(types: Seq<PortableType>, cs: Seq<PalletConstantMetadata>) -> Seq<
    (u8, ModuleConstantView),
>
    decreases cs.len(),
{
    if cs.len() == 0 {
        seq![]
    } else {
        seq_insert(
            constant_pairs(types, cs.drop_last()),
            (cs.len() - 1) as u8,
            constant_view(types, cs.last()),
        )
    }
}

pub open spec fn empty_view() -> MetadataView {
    MetadataView {
        modules: seq![],
        modules_with_calls: seq![],
        modules_with_errors: seq![],
        modules_with_events: seq![],
        modules_with_constants: seq![],
    }
}

/// The metadata view after reading pallet `p` into `prev`.
pub open spec fn add_pallet(types: Seq<PortableType>, prev: MetadataView, p: PalletMetadata) -> MetadataView {
    let name = p.name@;
    MetadataView {
        modules: seq_insert(
            prev.modules,
            name,
            ModuleMetadataView { index: p.index, name, storage: storage_pairs(p.storage) },
        ),
        modules_with_calls: match p.calls {
            Some(id) => seq_insert(
                prev.modules_with_calls,
                name,
                ModuleWithCallsView { index: p.index, name, calls: call_pairs(types, id) },
            ),
            None => prev.modules_with_calls,
        },
        modules_with_errors: match p.error {
            Some(id) => seq_insert(
                prev.modules_with_errors,
                name,
                ModuleWithErrorsView {
                    index: p.index,
                    name,
                    errors: indexed_variant_pairs(types, id),
                },
            ),
            None => prev.modules_with_errors,
        },
        modules_with_events: match p.event {
            Some(id) => seq_insert(
                prev.modules_with_events,
                name,
                ModuleWithEventsView {
                    index: p.index,
                    name,
                    events: indexed_variant_pairs(types, id),
                },
            ),
            None => prev.modules_with_events,
        },
        modules_with_constants: seq_insert(
            prev.modules_with_constants,
            name,
            ModuleWithConstantsView {
                index: p.index,
                name,
                constants: constant_pairs(types, p.constants@),
            },
        ),
    }
}

/// The metadata that the pallets, read in order, describe.
pub open spec fn v14_view(types: Seq<PortableType>, pallets: Seq<PalletMetadata>) -> MetadataView
    decreases pallets.len(),
{
    if pallets.len() == 0 {
        empty_view()
    } else {
        add_pallet(types, v14_view(types, pallets.drop_last()), pallets.last())
    }
}

/// Every registry id that a pallet names stands in the registry.
pub open spec fn pallet_ids_in_registry(types: Seq<PortableType>, p: PalletMetadata) -> bool {
    &&& p.calls matches Some(id) ==> id < types.len()
    &&& p.event matches Some(id) ==> id < types.len()
    &&& p.error matches Some(id) ==> id < types.len()
    &&& forall|j: int| 0 <= j < p.constants@.len() ==> #[trigger] p.constants@[j].ty < types.len()
}

pub open spec fn ids_in_registry(meta: RuntimeMetadataV14) -> bool {
    forall|i: int|
        0 <= i < meta.pallets@.len() ==> pallet_ids_in_registry(
            meta.types@,
            #[trigger] meta.pallets@[i],
        )
}

pub(crate) fn name_index_map(names: &Vec<String>) -> (m: AssocMap<String, u8>)
    ensures
        m@ == name_index_pairs(names_of(names@)),
{
    let mut m: AssocMap<String, u8> = AssocMap::new();
    let n = names.len();
    for i in 0..n
        invariant
            n == names@.len(),
            m@ == name_index_pairs(names_of(names@).take(i as int)),
    {
        let ghost ns = names_of(names@);
        assert(ns.take(i + 1).drop_last() =~= ns.take(i as int));
        m.insert(names[i].clone(), i as u8);
    }
    assert(names_of(names@).take(n as int) =~= names_of(names@));
    m
}

pub(crate) fn index_name_map(names: &Vec<String>) -> (m: AssocMap<u8, String>)
    ensures
        m@ == index_name_pairs(names_of(names@)),
{
    let mut m: AssocMap<u8, String> = AssocMap::new();
    let n = names.len();
    for i in 0..n
        invariant
            n == names@.len(),
            m@ == index_name_pairs(names_of(names@).take(i as int)),
    {
        let ghost ns = names_of(names@);
        assert(ns.take(i + 1).drop_last() =~= ns.take(i as int));
        m.insert(i as u8, names[i].clone());
    }
    assert(names_of(names@).take(n as int) =~= names_of(names@));
    m
}

pub(crate) fn copy_hashers(hashers: &Vec<StorageHasher>) -> (r: Vec<StorageHasher>)
    ensures
        r@ == hashers@,
{
    let mut r: Vec<StorageHasher> = Vec::new();
    for i in 0..hashers.len()
        invariant
            r@ == hashers@.take(i as int),
    {
        r.push(hashers[i]);
        assert(r@ =~= hashers@.take(i + 1));
    }
    assert(hashers@.take(hashers@.len() as int) =~= hashers@);
    r
}

/// The storage item that a version 14 storage entry describes.
fn convert_entry(
    module_prefix: String,
    storage_prefix: String,
    entry: &StorageEntryMetadataV14,
) -> (r: Result<StorageMetadata, ConversionError>)
    ensures
        r matches Ok(m) && m@ == entry_view(module_prefix@, storage_prefix@, *entry),
{
    let ty = match &entry.ty {
        StorageEntryTypeV14::Plain { .. } => StorageEntryType::Plain,
        StorageEntryTypeV14::HashedMap { hashers, .. } => StorageEntryType::HashedMap {
            hashers: copy_hashers(hashers),
        },
    };
    let default = entry.default.clone();
    assert(default@ =~= entry.default@);
    Ok(StorageMetadata::new(module_prefix, storage_prefix, entry.modifier, ty, default))
}

fn storage_map(storage: &Option<PalletStorageMetadata>) -> (m: AssocMap<String, StorageMetadata>)
    ensures
        m@ == storage_pairs(*storage),
{
    let mut m: AssocMap<String, StorageMetadata> = AssocMap::new();
    match storage {
        Some(s) => {
            let n = s.entries.len();
            for i in 0..n
                invariant
                    n == s.entries@.len(),
                    m@ == entry_pairs(s.prefix@, s.entries@.take(i as int)),
            {
                let entry = &s.entries[i];
                let storage_prefix = entry.name.clone();
                let converted = convert_entry(s.prefix.clone(), storage_prefix.clone(), entry);
                assert(s.entries@.take(i + 1).drop_last() =~= s.entries@.take(i as int));
                match converted {
                    Ok(e) => m.insert(storage_prefix, e),
                    Err(_) => {},
                }
            }
            assert(s.entries@.take(n as int) =~= s.entries@);
        },
        None => {
            assert(m@ =~= storage_pairs(*storage));
        },
    }
    m
}

fn constants_map(types: &Vec<PortableType>, constants: &Vec<PalletConstantMetadata>) -> (m:
    AssocMap<u8, ModuleConstantMetadata>)
    requires
        forall|j: int| 0 <= j < constants@.len() ==> #[trigger] constants@[j].ty < types@.len(),
    ensures
        m@ == constant_pairs(types@, constants@),
{
    let mut m: AssocMap<u8, ModuleConstantMetadata> = AssocMap::new();
    let n = constants.len();
    for i in 0..n
        invariant
            n == constants@.len(),
            forall|j: int| 0 <= j < constants@.len() ==> #[trigger] constants@[j].ty < types@.len(),
            m@ == constant_pairs(types@, constants@.take(i as int)),
    {
        let c = &constants[i];
        assert(c.ty < types@.len());
        let ty = types[c.ty as usize].path.clone();
        let value = c.value.clone();
        assert(value@ =~= c.value@);
        let constant = ModuleConstantMetadata::new(c.name.clone(), ty, value);
        assert(constants@.take(i + 1).drop_last() =~= constants@.take(i as int));
        m.insert(i as u8, constant);
    }
    assert(constants@.take(n as int) =~= constants@);
    m
}

fn call_map(types: &Vec<PortableType>, id: u32) -> (m: AssocMap<String, u8>)
    requires
        id < types@.len(),
    ensures
        m@ == call_pairs(types@, id),
{
    match &types[id as usize].variants {
        Some(v) => name_index_map(v),
        None => {
            let m = AssocMap::new();
            assert(m@ =~= call_pairs(types@, id));
            m
        },
    }
}

fn indexed_variant_map(types: &Vec<PortableType>, id: u32) -> (m: AssocMap<u8, String>)
    requires
        id < types@.len(),
    ensures
        m@ == indexed_variant_pairs(types@, id),
{
    match &types[id as usize].variants {
        Some(v) => index_name_map(v),
        None => {
            let m = AssocMap::new();
            assert(m@ =~= indexed_variant_pairs(types@, id));
            m
        },
    }
}

/// Reads version 14 metadata: every pallet becomes a module, and a module
/// with calls, errors or events where the pallet has them; a pallet named
/// like an earlier one replaces it.
pub fn parse_metadata_v14(meta: &RuntimeMetadataV14) -> (r: Result<Metadata, ConversionError>)
    requires
        ids_in_registry(*meta),
    ensures
        r matches Ok(md) && md@ == v14_view(meta.types@, meta.pallets@),
{
    let mut modules: AssocMap<String, ModuleMetadata> = AssocMap::new();
    let mut modules_with_calls: AssocMap<String, ModuleWithCalls> = AssocMap::new();
    let mut modules_with_events: AssocMap<String, ModuleWithEvents> = AssocMap::new();
    let mut modules_with_errors: AssocMap<String, ModuleWithErrors> = AssocMap::new();
    let mut modules_with_constants: AssocMap<String, ModuleWithConstants> = AssocMap::new();
    let types = &meta.types;
    let n = meta.pallets.len();
    for i in 0..n
        invariant
            n == meta.pallets@.len(),
            types@ == meta.types@,
            ids_in_registry(*meta),
            v14_view(types@, meta.pallets@.take(i as int)) == (MetadataView {
                modules: modules@,
                modules_with_calls: modules_with_calls@,
                modules_with_errors: modules_with_errors@,
                modules_with_events: modules_with_events@,
                modules_with_constants: modules_with_constants@,
            }),
    {
        let module = &meta.pallets[i];
        assert(pallet_ids_in_registry(types@, meta.pallets@[i as int]));
        assert(meta.pallets@.take(i + 1).drop_last() =~= meta.pallets@.take(i as int));
        let module_name = &module.name;

        let storage = storage_map(&module.storage);
        modules.insert(
            module_name.clone(),
            ModuleMetadata::new(module.index, module_name.clone(), storage),
        );

        match module.calls {
            Some(id) => {
                let calls = call_map(types, id);
                modules_with_calls.insert(
                    module_name.clone(),
                    ModuleWithCalls { index: module.index, name: module_name.clone(), calls },
                );
            },
            None => {},
        }

        match module.event {
            Some(id) => {
                let events = indexed_variant_map(types, id);
                modules_with_events.insert(
                    module_name.clone(),
                    ModuleWithEvents { index: module.index, name: module_name.clone(), events },
                );
            },
            None => {},
        }

        match module.error {
            Some(id) => {
                let errors = indexed_variant_map(types, id);
                modules_with_errors.insert(
                    module_name.clone(),
                    ModuleWithErrors { index: module.index, name: module_name.clone(), errors },
                );
            },
            None => {},
        }

        let constants = constants_map(types, &module.constants);
        modules_with_constants.insert(
            module_name.clone(),
            ModuleWithConstants::new(module.index, module_name.clone(), constants),
        );
    }
    assert(meta.pallets@.take(n as int) =~= meta.pallets@);
    Ok(
        Metadata::new(
            modules,
            modules_with_calls,
            modules_with_errors,
            modules_with_events,
            modules_with_constants,
        ),
    )
}

impl RuntimeMetadataV14 {
    /// Whether every registry id that a pallet names stands in the registry.
    pub fn ids_in_registry(&self) -> (ok: bool)
        ensures
            ok == ids_in_registry(*self),
    {
        let len = self.types.len();
        let n = self.pallets.len();
        let mut i: usize = 0;
        while i < n
            invariant
                n == self.pallets@.len(),
                len == self.types@.len(),
                i <= n,
                forall|j: int|
                    0 <= j < i ==> pallet_ids_in_registry(self.types@, #[trigger] self.pallets@[j]),
            decreases n - i,
        {
            let p = &self.pallets[i];
            let ids_ok = match p.calls {
                Some(id) => (id as usize) < len,
                None => true,
            } && match p.event {
                Some(id) => (id as usize) < len,
                None => true,
            } && match p.error {
                Some(id) => (id as usize) < len,
                None => true,
            };
            if !ids_ok {
                assert(!pallet_ids_in_registry(self.types@, self.pallets@[i as int]));
                return false;
            }
            let m = p.constants.len();
            let mut j: usize = 0;
            while j < m
                invariant
                    m == p.constants@.len(),
                    len == self.types@.len(),
                    j <= m,
                    i < n,
                    n == self.pallets@.len(),
                    *p == self.pallets@[i as int],
                    forall|k: int| 0 <= k < j ==> #[trigger] p.constants@[k].ty < len,
                decreases m - j,
            {
                if (p.constants[j].ty as usize) >= len {
                    assert(!(p.constants@[j as int].ty < self.types@.len()));
                    assert(!pallet_ids_in_registry(self.types@, self.pallets@[i as int]));
                    return false;
                }
                j = j + 1;
            }
            assert(pallet_ids_in_registry(self.types@, self.pallets@[i as int]));
            i = i + 1;
        }
        true
    }
}

/// No name occurs twice in any of the five parts of a metadata view.
pub open spec fn view_keys_distinct(v: MetadataView) -> bool {
    &&& keys_distinct(v.modules)
    &&& keys_distinct(v.modules_with_calls)
    &&& keys_distinct(v.modules_with_errors)
    &&& keys_distinct(v.modules_with_events)
    &&& keys_distinct(v.modules_with_constants)
}

/// The last pallet, in order, named `name`.
pub open spec fn last_pallet_named(pallets: Seq<PalletMetadata>, name: Seq<char>) -> Option<
    PalletMetadata,
>
    decreases pallets.len(),
{
    if pallets.len() == 0 {
        None
    } else if pallets.last().name@ == name {
        Some(pallets.last())
    } else {
        last_pallet_named(pallets.drop_last(), name)
    }
}

proof fn lemma_v14_distinct(types: Seq<PortableType>, pallets: Seq<PalletMetadata>)
    ensures
        view_keys_distinct(v14_view(types, pallets)),
    decreases pallets.len(),
{
    if pallets.len() > 0 {
        let prev = v14_view(types, pallets.drop_last());
        lemma_v14_distinct(types, pallets.drop_last());
        let p = pallets.last();
        let name = p.name@;
        lemma_seq_insert(
            prev.modules,
            name,
            ModuleMetadataView { index: p.index, name, storage: storage_pairs(p.storage) },
        );
        if let Some(id) = p.calls {
            lemma_seq_insert(
                prev.modules_with_calls,
                name,
                ModuleWithCallsView { index: p.index, name, calls: call_pairs(types, id) },
            );
        }
        if let Some(id) = p.error {
            lemma_seq_insert(
                prev.modules_with_errors,
                name,
                ModuleWithErrorsView {
                    index: p.index,
                    name,
                    errors: indexed_variant_pairs(types, id),
                },
            );
        }
        if let Some(id) = p.event {
            lemma_seq_insert(
                prev.modules_with_events,
                name,
                ModuleWithEventsView {
                    index: p.index,
                    name,
                    events: indexed_variant_pairs(types, id),
                },
            );
        }
        lemma_seq_insert(
            prev.modules_with_constants,
            name,
            ModuleWithConstantsView {
                index: p.index,
                name,
                constants: constant_pairs(types, p.constants@),
            },
        );
    }
}

/// Reading version 14 metadata gives, under each name, the module of the
/// last pallet of that name, and no module under a name no pallet has.
pub proof fn lemma_v14_module_of_last_pallet(
    types: Seq<PortableType>,
    pallets: Seq<PalletMetadata>,
    name: Seq<char>,
)
    ensures
        seq_lookup(v14_view(types, pallets).modules, name) == match last_pallet_named(
            pallets,
            name,
        ) {
            Some(p) => Some(
                ModuleMetadataView { index: p.index, name: p.name@, storage: storage_pairs(p.storage) },
            ),
            None => None::<ModuleMetadataView>,
        },
    decreases pallets.len(),
{
    if pallets.len() > 0 {
        let prev = v14_view(types, pallets.drop_last());
        lemma_v14_distinct(types, pallets.drop_last());
        lemma_v14_module_of_last_pallet(types, pallets.drop_last(), name);
        let p = pallets.last();
        lemma_lookup_insert(
            prev.modules,
            p.name@,
            ModuleMetadataView { index: p.index, name: p.name@, storage: storage_pairs(p.storage) },
            name,
        );
    } else {
        assert(seq_lookup(Seq::<(Seq<char>, ModuleMetadataView)>::empty(), name) is None);
    }
}

/// In metadata read from version 14, every module with calls, errors or
/// events is a module of the same name, and exactly the modules have
/// constants.
pub proof fn lemma_v14_sections_are_modules(
    types: Seq<PortableType>,
    pallets: Seq<PalletMetadata>,
    name: Seq<char>,
)
    ensures
        ({
            let v = v14_view(types, pallets);
            &&& seq_lookup(v.modules_with_calls, name) is Some ==> seq_lookup(v.modules, name) is Some
            &&& seq_lookup(v.modules_with_errors, name) is Some ==> seq_lookup(v.modules, name) is Some
            &&& seq_lookup(v.modules_with_events, name) is Some ==> seq_lookup(v.modules, name) is Some
            &&& seq_lookup(v.modules_with_constants, name) is Some <==> seq_lookup(
                v.modules,
                name,
            ) is Some
        }),
    decreases pallets.len(),
{
    if pallets.len() > 0 {
        let prev = v14_view(types, pallets.drop_last());
        lemma_v14_distinct(types, pallets.drop_last());
        lemma_v14_sections_are_modules(types, pallets.drop_last(), name);
        let p = pallets.last();
        let pn = p.name@;
        lemma_lookup_insert(
            prev.modules,
            pn,
            ModuleMetadataView { index: p.index, name: pn, storage: storage_pairs(p.storage) },
            name,
        );
        if let Some(id) = p.calls {
            lemma_lookup_insert(
                prev.modules_with_calls,
                pn,
                ModuleWithCallsView { index: p.index, name: pn, calls: call_pairs(types, id) },
                name,
            );
        }
        if let Some(id) = p.error {
            lemma_lookup_insert(
                prev.modules_with_errors,
                pn,
                ModuleWithErrorsView {
                    index: p.index,
                    name: pn,
                    errors: indexed_variant_pairs(types, id),
                },
                name,
            );
        }
        if let Some(id) = p.event {
            lemma_lookup_insert(
                prev.modules_with_events,
                pn,
                ModuleWithEventsView {
                    index: p.index,
                    name: pn,
                    events: indexed_variant_pairs(types, id),
                },
                name,
            );
        }
        lemma_lookup_insert(
            prev.modules_with_constants,
            pn,
            ModuleWithConstantsView {
                index: p.index,
                name: pn,
                constants: constant_pairs(types, p.constants@),
            },
            name,
        );
    }
}


/// The last pallet, in order, named `name` that has calls.
pub open spec fn last_call_pallet(pallets: Seq<PalletMetadata>, name: Seq<char>) -> Option<
    PalletMetadata,
>
    decreases pallets.len(),
{
    if pallets.len() == 0 {
        None
    } else if pallets.last().name@ == name && pallets.last().calls is Some {
        Some(pallets.last())
    } else {
        last_call_pallet(pallets.drop_last(), name)
    }
}

proof fn lemma_v14_calls_of_last_pallet(
    types: Seq<PortableType>,
    pallets: Seq<PalletMetadata>,
    name: Seq<char>,
)
    ensures
        seq_lookup(v14_view(types, pallets).modules_with_calls, name) == match last_call_pallet(
            pallets,
            name,
        ) {
            Some(p) => Some(
                ModuleWithCallsView {
                    index: p.index,
                    name: p.name@,
                    calls: call_pairs(types, p.calls->0),
                },
            ),
            None => None::<ModuleWithCallsView>,
        },
    decreases pallets.len(),
{
    if pallets.len() > 0 {
        let prev = v14_view(types, pallets.drop_last());
        lemma_v14_distinct(types, pallets.drop_last());
        lemma_v14_calls_of_last_pallet(types, pallets.drop_last(), name);
        let p = pallets.last();
        if let Some(id) = p.calls {
            lemma_lookup_insert(
                prev.modules_with_calls,
                p.name@,
                ModuleWithCallsView { index: p.index, name: p.name@, calls: call_pairs(types, id) },
                name,
            );
        }
    } else {
        assert(seq_lookup(Seq::<(Seq<char>, ModuleWithCallsView)>::empty(), name) is None);
    }
}

/// In metadata read from version 14, the call index of `call` in `module`
/// pairs the index of the last pallet named `module` that has calls with
/// the last position of `call` among the variants of that pallet's call
/// type, as a byte; there is none when no such pallet or variant exists.
pub proof fn lemma_v14_call_index(
    types: Seq<PortableType>,
    pallets: Seq<PalletMetadata>,
    module: Seq<char>,
    call: Seq<char>,
)
    ensures
        spec_call_index(v14_view(types, pallets), module, call) == match last_call_pallet(
            pallets,
            module,
        ) {
            Some(p) => match variant_names(types, p.calls->0) {
                Some(names) => match last_position(names, call) {
                    Some(i) => Some((p.index, i as u8)),
                    None => None::<(u8, u8)>,
                },
                None => None::<(u8, u8)>,
            },
            None => None::<(u8, u8)>,
        },
{
    lemma_v14_calls_of_last_pallet(types, pallets, module);
    if let Some(p) = last_call_pallet(pallets, module) {
        match variant_names(types, p.calls->0) {
            Some(names) => {
                lemma_call_numbering(names, call);
            },
            None => {
                assert(seq_lookup(Seq::<(Seq<char>, u8)>::empty(), call) is None);
            },
        }
    }
}


// ------------------------------------------------------------ laws: constants, storage, events, errors

proof fn lemma_constant_pairs(types: Seq<PortableType>, cs: Seq<PalletConstantMetadata>)
    requires
        cs.len() <= 256,
    ensures
        keys_distinct(constant_pairs(types, cs)),
        constant_pairs(types, cs).len() == cs.len(),
        forall|j: int|
            0 <= j < cs.len() ==> (#[trigger] constant_pairs(types, cs)[j]).0 as int == j
                && constant_pairs(types, cs)[j].1 == constant_view(types, cs[j]),
    decreases cs.len(),
{
    if cs.len() > 0 {
        let prev = constant_pairs(types, cs.drop_last());
        let k = (cs.len() - 1) as u8;
        lemma_constant_pairs(types, cs.drop_last());
        lemma_seq_insert(prev, k, constant_view(types, cs.last()));
        assert(!(exists|i: int| 0 <= i < prev.len() && prev[i].0 == k)) by {
            assert forall|i: int| 0 <= i < prev.len() implies prev[i].0 != k by {
                assert(prev[i].0 as int == i);
            }
        }
        let t = constant_pairs(types, cs);
        assert(t == prev.push((k, constant_view(types, cs.last()))));
        assert forall|j: int| 0 <= j < cs.len() implies (#[trigger] t[j]).0 as int == j && t[j].1
            == constant_view(types, cs[j]) by {
            if j < cs.len() - 1 {
                assert(t[j] == prev[j]);
                assert(cs.drop_last()[j] == cs[j]);
            }
        }
    }
}

pub(crate) proof fn lemma_lookup_at<A, B>(s: Seq<(A, B)>, j: int)
    requires
        keys_distinct(s),
        0 <= j < s.len(),
    ensures
        seq_lookup(s, s[j].0) == Some(s[j].1),
{
    let i = choose|i: int| 0 <= i < s.len() && s[i].0 == s[j].0;
    assert(i == j);
}

pub(crate) proof fn lemma_first_constant_named(cs: Seq<(u8, ModuleConstantView)>, j: int)
    requires
        0 <= j < cs.len(),
    ensures
        first_constant_named(cs, cs[j].1.name) is Some,
    decreases cs.len(),
{
    if cs[0].1.name != cs[j].1.name {
        assert(cs.drop_first()[j - 1] == cs[j]);
        lemma_first_constant_named(cs.drop_first(), j - 1);
    }
}

proof fn lemma_v14_constants_of_last_pallet(
    types: Seq<PortableType>,
    pallets: Seq<PalletMetadata>,
    name: Seq<char>,
)
    ensures
        seq_lookup(v14_view(types, pallets).modules_with_constants, name) == match last_pallet_named(
            pallets,
            name,
        ) {
            Some(p) => Some(
                ModuleWithConstantsView {
                    index: p.index,
                    name: p.name@,
                    constants: constant_pairs(types, p.constants@),
                },
            ),
            None => None::<ModuleWithConstantsView>,
        },
    decreases pallets.len(),
{
    if pallets.len() > 0 {
        let prev = v14_view(types, pallets.drop_last());
        lemma_v14_distinct(types, pallets.drop_last());
        lemma_v14_constants_of_last_pallet(types, pallets.drop_last(), name);
        let p = pallets.last();
        lemma_lookup_insert(
            prev.modules_with_constants,
            p.name@,
            ModuleWithConstantsView {
                index: p.index,
                name: p.name@,
                constants: constant_pairs(types, p.constants@),
            },
            name,
        );
    } else {
        assert(seq_lookup(Seq::<(Seq<char>, ModuleWithConstantsView)>::empty(), name) is None);
    }
}

/// Reading version 14 metadata keeps every constant of a pallet: the module
/// with constants under `name` is that of the last pallet so named, it has
/// as many constants as that pallet declares (at most 256), under each
/// position `k` it holds the pallet's `k`-th constant with its name, the
/// path of its type and its value, and looking a constant up by its name
/// finds one.
pub proof fn lemma_v14_constants_by_position(
    types: Seq<PortableType>,
    pallets: Seq<PalletMetadata>,
    name: Seq<char>,
    k: int,
)
    requires
        last_pallet_named(pallets, name) is Some,
        last_pallet_named(pallets, name)->0.constants@.len() <= 256,
        0 <= k < last_pallet_named(pallets, name)->0.constants@.len(),
    ensures
        ({
            let p = last_pallet_named(pallets, name)->0;
            let c = p.constants@[k];
            let found = seq_lookup(v14_view(types, pallets).modules_with_constants, name);
            &&& found is Some
            &&& found->0.index == p.index
            &&& found->0.constants.len() == p.constants@.len()
            &&& seq_lookup(found->0.constants, k as u8) == Some(
                ModuleConstantView { name: c.name@, ty: types[c.ty as int].path@, value: c.value@ },
            )
            &&& first_constant_named(found->0.constants, c.name@) is Some
        }),
{
    let p = last_pallet_named(pallets, name)->0;
    lemma_v14_constants_of_last_pallet(types, pallets, name);
    let cp = constant_pairs(types, p.constants@);
    lemma_constant_pairs(types, p.constants@);
    assert(cp[k].0 as int == k);
    lemma_lookup_at(cp, k);
    assert(cp[k].0 == k as u8);
    lemma_first_constant_named(cp, k);
}

/// The last storage entry, in order, named `name`.
pub open spec fn last_entry_named(es: Seq<StorageEntryMetadataV14>, name: Seq<char>) -> Option<
    StorageEntryMetadataV14,
>
    decreases es.len(),
{
    if es.len() == 0 {
        None
    } else if es.last().name@ == name {
        Some(es.last())
    } else {
        last_entry_named(es.drop_last(), name)
    }
}

proof fn lemma_entry_pairs(module_prefix: Seq<char>, es: Seq<StorageEntryMetadataV14>, name: Seq<char>)
    ensures
        keys_distinct(entry_pairs(module_prefix, es)),
        seq_lookup(entry_pairs(module_prefix, es), name) == match last_entry_named(es, name) {
            Some(e) => Some(entry_view(module_prefix, name, e)),
            None => None::<StorageMetadataView>,
        },
    decreases es.len(),
{
    if es.len() > 0 {
        let prev = entry_pairs(module_prefix, es.drop_last());
        lemma_entry_pairs(module_prefix, es.drop_last(), name);
        let e = es.last();
        lemma_seq_insert(prev, e.name@, entry_view(module_prefix, e.name@, e));
        lemma_lookup_insert(prev, e.name@, entry_view(module_prefix, e.name@, e), name);
    } else {
        assert(seq_lookup(Seq::<(Seq<char>, StorageMetadataView)>::empty(), name) is None);
    }
}

/// Reading version 14 metadata keeps every storage entry and its shape: the
/// item `item` of module `module` is the last entry so named of the last
/// pallet named `module`, under the pallet's storage prefix; a map with
/// hashers `h`, of any number, stays a map with hashers `h`, and a plain
/// entry stays plain. So a map item has a key prefix and no value key, and
/// a plain item the other way round.
pub proof fn lemma_v14_storage_entry(
    types: Seq<PortableType>,
    pallets: Seq<PalletMetadata>,
    module: Seq<char>,
    item: Seq<char>,
)
    ensures
        ({
            let v = v14_view(types, pallets);
            match last_pallet_named(pallets, module) {
                None => storage_entry(v, module, item) is None,
                Some(p) => match p.storage {
                    None => storage_entry(v, module, item) is None,
                    Some(s) => match last_entry_named(s.entries@, item) {
                        None => storage_entry(v, module, item) is None,
                        Some(e) => {
                            &&& storage_entry(v, module, item) == Some(
                                StorageMetadataView {
                                    module_prefix: s.prefix@,
                                    storage_prefix: item,
                                    modifier: e.modifier,
                                    ty: match e.ty {
                                        StorageEntryTypeV14::Plain { .. } => StorageEntryTypeView::Plain,
                                        StorageEntryTypeV14::HashedMap { hashers, .. } => StorageEntryTypeView::HashedMap(
                                            hashers@,
                                        ),
                                    },
                                    default: e.default@,
                                },
                            )
                            &&& e.ty is HashedMap ==> spec_storage_map_key_prefix(v, module, item)
                                == Some(spec_prefix_key(utf8(s.prefix@), utf8(item)))
                                && spec_storage_value_key(v, module, item) is None
                            &&& e.ty is Plain ==> spec_storage_value_key(v, module, item) == Some(
                                spec_prefix_key(utf8(s.prefix@), utf8(item)),
                            ) && spec_storage_map_key_prefix(v, module, item) is None
                        },
                    },
                },
            }
        }),
{
    lemma_v14_module_of_last_pallet(types, pallets, module);
    if let Some(p) = last_pallet_named(pallets, module) {
        if let Some(s) = p.storage {
            lemma_entry_pairs(s.prefix@, s.entries@, item);
        } else {
            assert(seq_lookup(Seq::<(Seq<char>, StorageMetadataView)>::empty(), item) is None);
        }
    }
}

/// The last pallet, in order, named `name` that has an event type.
pub open spec fn last_event_pallet(pallets: Seq<PalletMetadata>, name: Seq<char>) -> Option<
    PalletMetadata,
>
    decreases pallets.len(),
{
    if pallets.len() == 0 {
        None
    } else if pallets.last().name@ == name && pallets.last().event is Some {
        Some(pallets.last())
    } else {
        last_event_pallet(pallets.drop_last(), name)
    }
}

/// The last pallet, in order, named `name` that has an error type.
pub open spec fn last_error_pallet(pallets: Seq<PalletMetadata>, name: Seq<char>) -> Option<
    PalletMetadata,
>
    decreases pallets.len(),
{
    if pallets.len() == 0 {
        None
    } else if pallets.last().name@ == name && pallets.last().error is Some {
        Some(pallets.last())
    } else {
        last_error_pallet(pallets.drop_last(), name)
    }
}

proof fn lemma_v14_events_of_last_pallet(
    types: Seq<PortableType>,
    pallets: Seq<PalletMetadata>,
    name: Seq<char>,
)
    ensures
        seq_lookup(v14_view(types, pallets).modules_with_events, name) == match last_event_pallet(
            pallets,
            name,
        ) {
            Some(p) => Some(
                ModuleWithEventsView {
                    index: p.index,
                    name: p.name@,
                    events: indexed_variant_pairs(types, p.event->0),
                },
            ),
            None => None::<ModuleWithEventsView>,
        },
    decreases pallets.len(),
{
    if pallets.len() > 0 {
        let prev = v14_view(types, pallets.drop_last());
        lemma_v14_distinct(types, pallets.drop_last());
        lemma_v14_events_of_last_pallet(types, pallets.drop_last(), name);
        let p = pallets.last();
        if let Some(id) = p.event {
            lemma_lookup_insert(
                prev.modules_with_events,
                p.name@,
                ModuleWithEventsView {
                    index: p.index,
                    name: p.name@,
                    events: indexed_variant_pairs(types, id),
                },
                name,
            );
        }
    } else {
        assert(seq_lookup(Seq::<(Seq<char>, ModuleWithEventsView)>::empty(), name) is None);
    }
}

proof fn lemma_v14_errors_of_last_pallet(
    types: Seq<PortableType>,
    pallets: Seq<PalletMetadata>,
    name: Seq<char>,
)
    ensures
        seq_lookup(v14_view(types, pallets).modules_with_errors, name) == match last_error_pallet(
            pallets,
            name,
        ) {
            Some(p) => Some(
                ModuleWithErrorsView {
                    index: p.index,
                    name: p.name@,
                    errors: indexed_variant_pairs(types, p.error->0),
                },
            ),
            None => None::<ModuleWithErrorsView>,
        },
    decreases pallets.len(),
{
    if pallets.len() > 0 {
        let prev = v14_view(types, pallets.drop_last());
        lemma_v14_distinct(types, pallets.drop_last());
        lemma_v14_errors_of_last_pallet(types, pallets.drop_last(), name);
        let p = pallets.last();
        if let Some(id) = p.error {
            lemma_lookup_insert(
                prev.modules_with_errors,
                p.name@,
                ModuleWithErrorsView {
                    index: p.index,
                    name: p.name@,
                    errors: indexed_variant_pairs(types, id),
                },
                name,
            );
        }
    } else {
        assert(seq_lookup(Seq::<(Seq<char>, ModuleWithErrorsView)>::empty(), name) is None);
    }
}

/// The variant found by byte `k` among those of registry type `id`, when
/// the type has at most 256 variants; none for another type.
pub open spec fn variant_at(types: Seq<PortableType>, id: u32, k: u8) -> Option<Seq<char>> {
    match types[id as int].variants {
        Some(vs) => if (k as int) < vs@.len() {
            Some(vs@[k as int]@)
        } else {
            None
        },
        None => None,
    }
}

proof fn lemma_indexed_variant(types: Seq<PortableType>, id: u32, k: u8)
    requires
        types[id as int].variants matches Some(vs) ==> vs@.len() <= 256,
    ensures
        seq_lookup(indexed_variant_pairs(types, id), k) == variant_at(types, id, k),
{
    match types[id as int].variants {
        Some(vs) => {
            lemma_variant_by_position(names_of(vs@), k);
        },
        None => {
            assert(seq_lookup(Seq::<(u8, Seq<char>)>::empty(), k) is None);
        },
    }
}

/// Reading version 14 metadata gives a module with events under `name`
/// exactly when some pallet so named has an event type, whether or not it
/// has calls; the module is that of the last such pallet, and byte `k`
/// finds the `k`-th variant of its event type (of at most 256).
pub proof fn lemma_v14_events_by_position(
    types: Seq<PortableType>,
    pallets: Seq<PalletMetadata>,
    name: Seq<char>,
    k: u8,
)
    ensures
        ({
            let found = seq_lookup(v14_view(types, pallets).modules_with_events, name);
            &&& found is Some <==> last_event_pallet(pallets, name) is Some
            &&& last_event_pallet(pallets, name) matches Some(p) ==> {
                &&& found->0.index == p.index
                &&& (types[p.event->0 as int].variants matches Some(vs) ==> vs@.len() <= 256)
                    ==> seq_lookup(found->0.events, k) == variant_at(types, p.event->0, k)
            }
        }),
{
    lemma_v14_events_of_last_pallet(types, pallets, name);
    if let Some(p) = last_event_pallet(pallets, name) {
        if (types[p.event->0 as int].variants matches Some(vs) ==> vs@.len() <= 256) {
            lemma_indexed_variant(types, p.event->0, k);
        }
    }
}

/// Reading version 14 metadata gives a module with errors under `name`
/// exactly when some pallet so named has an error type; the module is that
/// of the last such pallet, and byte `k` finds the `k`-th variant of its
/// error type (of at most 256).
pub proof fn lemma_v14_errors_by_position(
    types: Seq<PortableType>,
    pallets: Seq<PalletMetadata>,
    name: Seq<char>,
    k: u8,
)
    ensures
        ({
            let found = seq_lookup(v14_view(types, pallets).modules_with_errors, name);
            &&& found is Some <==> last_error_pallet(pallets, name) is Some
            &&& last_error_pallet(pallets, name) matches Some(p) ==> {
                &&& found->0.index == p.index
                &&& (types[p.error->0 as int].variants matches Some(vs) ==> vs@.len() <= 256)
                    ==> seq_lookup(found->0.errors, k) == variant_at(types, p.error->0, k)
            }
        }),
{
    lemma_v14_errors_of_last_pallet(types, pallets, name);
    if let Some(p) = last_error_pallet(pallets, name) {
        if (types[p.error->0 as int].variants matches Some(vs) ==> vs@.len() <= 256) {
            lemma_indexed_variant(types, p.error->0, k);
        }
    }
}


/// The storage keys of a map item of version 14 metadata: the key of the
/// entry for `first` is the 128-bit xxHash of the pallet's storage prefix,
/// then that of the item's name, then `first` hashed by the map's first
/// hasher; with a second key, `second` hashed by its second hasher follows.
pub proof fn lemma_v14_storage_keys(
    types: Seq<PortableType>,
    pallets: Seq<PalletMetadata>,
    module: Seq<char>,
    item: Seq<char>,
    first: Seq<u8>,
    second: Seq<u8>,
)
    requires
        last_pallet_named(pallets, module) matches Some(p) && p.storage matches Some(s)
            && last_entry_named(s.entries@, item) is Some,
    ensures
        ({
            let v = v14_view(types, pallets);
            let s = last_pallet_named(pallets, module)->0.storage->0;
            let e = last_entry_named(s.entries@, item)->0;
            let prefix = spec_twox_128(utf8(s.prefix@)) + spec_twox_128(utf8(item));
            &&& e.ty matches StorageEntryTypeV14::HashedMap { hashers, .. } ==> {
                &&& spec_storage_map_key(v, module, item, first) == Some(
                    prefix + spec_key_hash(first, hashers@[0]),
                )
                &&& spec_storage_double_map_key(v, module, item, first, second) == Some(
                    prefix + spec_key_hash(first, hashers@[0]) + spec_key_hash(second, hashers@[1]),
                )
            }
            &&& e.ty is Plain ==> spec_storage_value_key(v, module, item) == Some(prefix)
        }),
{
    lemma_v14_storage_entry(types, pallets, module, item);
}

} // verus!
