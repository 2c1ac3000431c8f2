//! Schema inference: the strictness tiers and the dispatcher over value kinds.

use crate::error::SchemaError;
pub use generators::{
    generate_array_schema, generate_boolean_schema, generate_null_schema, generate_number_schema,
    generate_object_schema, generate_string_schema,
};
pub use types::{
    detect_string_format, detect_string_pattern, get_array_item_types, is_homogeneous_array,
};
use laws::documents_have_unique_keys;
use model::{schema_doc, schema_overflows};
use value::{has_unique_keys, lemma_array_view, lemma_object_view, JsonValue};
use vstd::prelude::*;

pub mod generators;
pub mod laws;
pub mod model;
pub mod types;
pub mod value;

verus! {

/// How strict, and how richly annotated, a generated schema is.
///
/// The tiers are totally ordered: `Basic < Standard < Comprehensive < Expert`.
#[derive(Debug, Clone, Copy, PartialEq, Eq, PartialOrd, Ord, Hash, Structural)]
pub enum SchemaOutputTier {
    Basic,
    Standard,
    Comprehensive,
    Expert,
}

impl SchemaOutputTier {
    /// Position of the tier in the strictness order, starting at 0 for `Basic`.
    pub open spec fn rank(self) -> nat {
        match self {
            SchemaOutputTier::Basic => 0,
            SchemaOutputTier::Standard => 1,
            SchemaOutputTier::Comprehensive => 2,
            SchemaOutputTier::Expert => 3,
        }
    }

    /// Whether this tier is `other` or a stricter one.
    pub open spec fn at_least(self, other: SchemaOutputTier) -> bool {
        self.rank() >= other.rank()
    }

    /// The name by which a user selects the tier.
    pub open spec fn label(self) -> Seq<char> {
        match self {
            SchemaOutputTier::Basic => "basic"@,
            SchemaOutputTier::Standard => "standard"@,
            SchemaOutputTier::Comprehensive => "comprehensive"@,
            SchemaOutputTier::Expert => "expert"@,
        }
    }

    /// The name by which a user selects the tier.
    pub fn name(&self) -> (name: &'static str)
        ensures
            name@ == self.label(),
    {
        match self {
            SchemaOutputTier::Basic => "basic",
            SchemaOutputTier::Standard => "standard",
            SchemaOutputTier::Comprehensive => "comprehensive",
            SchemaOutputTier::Expert => "expert",
        }
    }

    /// The tier that a user selects by `name`, if `name` is the name of one.
    pub fn from_name(name: &str) -> (r: Option<SchemaOutputTier>)
        ensures
            r matches Some(tier) ==> tier.label() == name@,
            r is None ==> forall|tier: SchemaOutputTier| tier.label() != name@,
    {
        let wanted = name.to_string();
        if wanted == "basic".to_string() {
            Some(SchemaOutputTier::Basic)
        } else if wanted == "standard".to_string() {
            Some(SchemaOutputTier::Standard)
        } else if wanted == "comprehensive".to_string() {
            Some(SchemaOutputTier::Comprehensive)
        } else if wanted == "expert".to_string() {
            Some(SchemaOutputTier::Expert)
        } else {
            None
        }
    }

    /// Position of the tier in the strictness order, starting at 0 for `Basic`.
    pub fn level(&self) -> (r: u8)
        ensures
            r == self.rank(),
    {
        match self {
            SchemaOutputTier::Basic => 0,
            SchemaOutputTier::Standard => 1,
            SchemaOutputTier::Comprehensive => 2,
            SchemaOutputTier::Expert => 3,
        }
    }
}

/// The schema document of `value` at `tier`.
///
/// Generation is a single pass over the value: no state outlives the call and
/// the value is only read. The recursion is as deep as the value is nested,
/// and nothing guards the stack against a value that is nested very deeply.
/// The one failure is a numeric bound that does not fit its integer type; it
/// is reported, never wrapped or clamped. The document of a value whose
/// objects have unique keys has unique keys in all its objects.
pub fn generate_schema(value: &JsonValue, tier: &SchemaOutputTier) -> (r: Result<
    JsonValue,
    SchemaError,
>)
    ensures
        r is Err <==> schema_overflows(value@, *tier),
        r matches Ok(doc) ==> doc@ == schema_doc(value@, *tier),
        r matches Err(e) ==> e == SchemaError::NumericRangeOverflow,
        r matches Ok(doc) ==> (has_unique_keys(value@) ==> has_unique_keys(doc@)),
    decreases value,
{
    proof {
        if has_unique_keys(value@) {
            documents_have_unique_keys(value@, *tier);
        }
    }
    match value {
        JsonValue::Object(obj) => {
            proof {
                lemma_object_view(*obj);
                assert(value->Object_0 == *obj);
                assert(decreases_to!(*obj => obj@));
            }
            generate_object_schema(obj, tier)
        },
        JsonValue::Array(arr) => {
            proof {
                lemma_array_view(*arr);
                assert(value->Array_0 == *arr);
                assert(decreases_to!(*arr => arr@));
            }
            generate_array_schema(arr.as_slice(), tier)
        },
        JsonValue::String(_) => generate_string_schema(value, tier),
        JsonValue::Number(n) => generate_number_schema(n, tier),
        JsonValue::Bool(_) => generate_boolean_schema(value, tier),
        JsonValue::Null => generate_null_schema(),
    }
}

} // verus!
