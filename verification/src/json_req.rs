use vstd::prelude::*;

use crate::hexstr::{hex_encoded, prefixed_hex};
use crate::node_metadata::StorageKey;

verus! {

/// The number of the transfer request.
pub const REQUEST_TRANSFER: u32 = 3;

/// A positional parameter of a JSON-RPC request.
#[derive(Debug, Clone, PartialEq, Eq)]
pub enum ParamValue {
    Null,
    Number(u32),
    Text(String),
    Texts(Vec<String>),
}

pub enum ParamView {
    Null,
    Number(u32),
    Text(Seq<char>),
    Texts(Seq<Seq<char>>),
}

impl View for ParamValue {
    type V = ParamView;

    open spec fn view(&self) -> ParamView {
        match self {
            ParamValue::Null => ParamView::Null,
            ParamValue::Number(n) => ParamView::Number(*n),
            ParamValue::Text(s) => ParamView::Text(s@),
            ParamValue::Texts(v) => ParamView::Texts(v@.map_values(|s: String| s@)),
        }
    }
}

/// How bytes stand in a request: `0x` and their lower-case hex digits.
pub open spec fn hex_text(bytes: Seq<u8>) -> Seq<char> {
    seq!['0', 'x'] + hex_encoded(bytes)
}

/// An optional block hash as a parameter: its hex text, or null.
pub open spec fn opt_hash_param(hash: Option<Vec<u8>>) -> ParamView {
    match hash {
        Some(h) => ParamView::Text(hex_text(h@)),
        None => ParamView::Null,
    }
}

/// An optional storage key as a parameter: its hex text, or null.
pub open spec fn opt_key_param(key: Option<StorageKey>) -> ParamView {
    match key {
        Some(k) => ParamView::Text(hex_text(k.0@)),
        None => ParamView::Null,
    }
}

pub open spec fn params_view(params: Seq<ParamValue>) -> Seq<ParamView> {
    params.map_values(|p: ParamValue| p@)
}

fn hash_param(hash: Option<Vec<u8>>) -> (p: ParamValue)
    ensures
        p@ == opt_hash_param(hash),
{
    match hash {
        Some(h) => ParamValue::Text(prefixed_hex(h.as_slice())),
        None => ParamValue::Null,
    }
}

fn key_param(key: &StorageKey) -> (p: ParamValue)
    ensures
        p@ == ParamView::Text(hex_text(key.0@)),
{
    ParamValue::Text(prefixed_hex(key.0.as_slice()))
}

/// `[number]`, or `[null]`.
pub fn num_params(number: Option<u32>) -> (params: Vec<ParamValue>)
    ensures
        params_view(params@) == seq![
            match number {
                Some(n) => ParamView::Number(n),
                None => ParamView::Null,
            },
        ],
{
    let p = match number {
        Some(n) => ParamValue::Number(n),
        None => ParamValue::Null,
    };
    let params = vec![p];
    assert(params_view(params@) =~= seq![p@]);
    params
}

/// `[hash]`, or `[null]`.
pub fn hash_params(hash: Option<Vec<u8>>) -> (params: Vec<ParamValue>)
    ensures
        params_view(params@) == seq![opt_hash_param(hash)],
{
    let params = vec![hash_param(hash)];
    assert(params_view(params@) =~= seq![opt_hash_param(hash)]);
    params
}

/// `[null]`.
pub fn null_params() -> (params: Vec<ParamValue>)
    ensures
        params_view(params@) == seq![ParamView::Null],
{
    let params = vec![ParamValue::Null];
    assert(params_view(params@) =~= seq![ParamView::Null]);
    params
}

/// `[key, at_block]`.
pub fn state_get_storage(key: StorageKey, at_block: Option<Vec<u8>>) -> (params: Vec<ParamValue>)
    ensures
        params_view(params@) == seq![ParamView::Text(hex_text(key.0@)), opt_hash_param(at_block)],
{
    let params = vec![key_param(&key), hash_param(at_block)];
    assert(params_view(params@) =~= seq![
        ParamView::Text(hex_text(key.0@)),
        opt_hash_param(at_block),
    ]);
    params
}

/// `[child, key, at_block]`.
pub fn state_get_child_storage(
    child: StorageKey,
    key: StorageKey,
    at_block: Option<Vec<u8>>,
) -> (params: Vec<ParamValue>)
    ensures
        params_view(params@) == seq![
            ParamView::Text(hex_text(child.0@)),
            ParamView::Text(hex_text(key.0@)),
            opt_hash_param(at_block),
        ],
{
    let params = vec![key_param(&child), key_param(&key), hash_param(at_block)];
    assert(params_view(params@) =~= seq![
        ParamView::Text(hex_text(child.0@)),
        ParamView::Text(hex_text(key.0@)),
        opt_hash_param(at_block),
    ]);
    params
}

/// `[keys, at_block]`.
pub fn state_query_storage_at(keys: Vec<StorageKey>, at_block: Option<Vec<u8>>) -> (params: Vec<
    ParamValue,
>)
    ensures
        params_view(params@) == seq![
            ParamView::Texts(keys@.map_values(|k: StorageKey| hex_text(k.0@))),
            opt_hash_param(at_block),
        ],
{
    let mut texts: Vec<String> = Vec::new();
    for i in 0..keys.len()
        invariant
            texts@.len() == i,
            forall|j: int| 0 <= j < i ==> #[trigger] texts@[j]@ == hex_text(keys@[j].0@),
    {
        texts.push(prefixed_hex(keys[i].0.as_slice()));
    }
    let ghost rendered = texts@.map_values(|s: String| s@);
    assert(rendered =~= keys@.map_values(|k: StorageKey| hex_text(k.0@)));
    let params = vec![ParamValue::Texts(texts), hash_param(at_block)];
    assert(params_view(params@) =~= seq![
        ParamView::Texts(keys@.map_values(|k: StorageKey| hex_text(k.0@))),
        opt_hash_param(at_block),
    ]);
    params
}

/// `[key, count, start_key, at_block]`.
pub fn state_get_keys_paged(
    key: StorageKey,
    count: u32,
    start_key: Option<StorageKey>,
    at_block: Option<Vec<u8>>,
) -> (params: Vec<ParamValue>)
    ensures
        params_view(params@) == seq![
            ParamView::Text(hex_text(key.0@)),
            ParamView::Number(count),
            opt_key_param(start_key),
            opt_hash_param(at_block),
        ],
{
    let start = match &start_key {
        Some(k) => key_param(k),
        None => ParamValue::Null,
    };
    let params = vec![key_param(&key), ParamValue::Number(count), start, hash_param(at_block)];
    assert(params_view(params@) =~= seq![
        ParamView::Text(hex_text(key.0@)),
        ParamView::Number(count),
        opt_key_param(start_key),
        opt_hash_param(at_block),
    ]);
    params
}

} // verus!
