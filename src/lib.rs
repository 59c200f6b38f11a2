//! Flattens a YAML document tree into dotted key paths and scalar texts, and
//! renders the flattened entries as HCL, Terraform `set` blocks or Helm flags.
use vstd::prelude::*;

pub mod decimal;
pub mod flatten;
pub mod node;
pub mod render;

use crate::flatten::{document_entries, flatten};
use crate::node::{FlattenError, Node};
use crate::render::{display_output, format_named, rendered, texts};

verus! {

/// Flattens `yaml_data` and renders its entries in the format named
/// `format`. The result holds one text per print, in order.
pub fn run(yaml_data: Node, format: String) -> (r: Result<Vec<String>, FlattenError>)
    ensures
        match document_entries(yaml_data) {
            Ok(es) => r matches Ok(lines) && texts(lines@) == rendered(format_named(format@), es),
            Err(e) => r == Err::<Vec<String>, FlattenError>(e),
        },
{
    match flatten(&yaml_data) {
        Ok((keys_result, values_result)) => Ok(display_output(format, keys_result, values_result)),
        Err(e) => Err(e),
    }
}

} // verus!
