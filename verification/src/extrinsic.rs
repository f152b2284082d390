use vstd::prelude::*;

use crate::assoc::seq_lookup;
use crate::node_metadata::{Metadata, MetadataView};

verus! {

/// The index of a module and the index of one of its calls.
pub type CallIndex = [u8; 2];

/// The call index of `call_name` in `module`, if the metadata has both.
pub open spec fn spec_call_index(md: MetadataView, module: Seq<char>, call_name: Seq<char>) -> Option<
    (u8, u8),
> {
    match seq_lookup(md.modules_with_calls, module) {
        Some(m) => match seq_lookup(m.calls, call_name) {
            Some(c) => Some((m.index, c)),
            None => None,
        },
        None => None,
    }
}

/// The index that a composed call of `call_name` in `module` starts with.
pub fn compose_call_index(metadata: &Metadata, module: &str, call_name: &str) -> (r: Option<
    CallIndex,
>)
    ensures
        r is Some <==> spec_call_index(metadata@, module@, call_name@) is Some,
        r matches Some(i) ==> spec_call_index(metadata@, module@, call_name@) == Some(
            (i[0], i[1]),
        ),
{
    let m = match metadata.module_with_calls(module) {
        Ok(m) => m,
        Err(_) => return None,
    };
    let name = String::from_str(call_name);
    match m.calls.get(&name) {
        Some(call_index) => Some([m.index, *call_index]),
        None => None,
    }
}

} // verus!
