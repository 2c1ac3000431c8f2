//! Where a schema is written when no output is named.

use vstd::prelude::*;

verus! {

/// The default name of the schema file for an input file whose name, without
/// its extension, is `stem`: the stem followed by `.schema.json`.
pub fn default_output_name(stem: &str) -> (name: String)
    ensures
        name@ == stem@ + ".schema.json"@,
{
    let mut name = stem.to_string();
    name.append(".schema.json");
    name
}

} // verus!
