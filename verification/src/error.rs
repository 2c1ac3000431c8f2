//! Errors of schema generation.

use vstd::prelude::*;

verus! {

/// Why no schema document was generated.
#[derive(Debug, Clone, Copy, PartialEq, Eq, Structural)]
pub enum SchemaError {
    /// A bound that the tier asks for, a number moved by 1000 down or up,
    /// does not fit the integer type it is computed in.
    NumericRangeOverflow,
}

impl SchemaError {
    /// What went wrong, in words.
    pub fn message(&self) -> (text: String)
        ensures
            text@ == "a numeric bound of the schema does not fit its integer type"@,
    {
        match self {
            SchemaError::NumericRangeOverflow => {
                "a numeric bound of the schema does not fit its integer type".to_string()
            },
        }
    }
}

} // verus!
