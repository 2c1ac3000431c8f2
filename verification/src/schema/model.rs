//! What the schema document of a value is, stated over views.
//!
//! A document is a JSON object, written here as the ordered list of its
//! fields. Each kind of value has a function that gives its document at a
//! tier. The one thing that can keep a document from being generated is a
//! bound of a number, 1000 below or above it, that does not fit the integer
//! type it is computed in; a predicate says where in a value that happens.

use super::types::{detected_format, detected_pattern, is_homogeneous};
use super::value::{EntryView, JsonView, NumberView};
use super::SchemaOutputTier;
use vstd::prelude::*;

verus! {

/// One field of an object.
pub open spec fn entry(key: Seq<char>, value: JsonView) -> EntryView {
    EntryView { key, value }
}

/// A string value.
pub open spec fn text(s: Seq<char>) -> JsonView {
    JsonView::String(s)
}

/// A whole-number value.
pub open spec fn whole(n: int) -> JsonView {
    JsonView::Number(NumberView::Integer(n))
}

/// `fields`, followed by the field `key: value` when it is `present`.
pub open spec fn with_field(
    fields: Seq<EntryView>,
    present: bool,
    key: Seq<char>,
    value: JsonView,
) -> Seq<EntryView> {
    if present {
        fields.push(entry(key, value))
    } else {
        fields
    }
}

/// The fields of a document that says no more than its `type`.
pub open spec fn type_only(name: Seq<char>) -> Seq<EntryView> {
    seq![entry("type"@, text(name))]
}

/// The document of `null`: the same at every tier.
pub open spec fn null_doc() -> JsonView {
    JsonView::Object(type_only("null"@))
}

/// The document of the boolean `b` at `tier`.
pub open spec fn boolean_doc(b: bool, tier: SchemaOutputTier) -> JsonView {
    let rich = tier.at_least(SchemaOutputTier::Comprehensive);
    let expert = tier == SchemaOutputTier::Expert;
    let f0 = type_only("boolean"@);
    let f1 = with_field(f0, rich, "examples"@, JsonView::Array(seq![JsonView::Bool(b)]));
    let f2 = with_field(f1, expert, "title"@, text("Generated Boolean Schema"@));
    let f3 = with_field(f2, expert, "description"@, text("Boolean value from JSON data"@));
    JsonView::Object(f3)
}

/// The number `n` moved by the whole number `by`.
pub open spec fn shifted(n: NumberView, by: int) -> NumberView {
    match n {
        NumberView::Integer(v) => NumberView::Integer(v + by),
        NumberView::Float { bits, offset } => NumberView::Float { bits, offset: offset + by },
    }
}

/// Whether `n` moved by `by` stays in the integer type that `n` is computed
/// in. For a whole number that is the narrowest type that holds it among the
/// signed 64-bit, the unsigned 64-bit and the signed 128-bit type; for a
/// floating number it is the signed 64-bit type of the displacement.
pub open spec fn shift_fits(n: NumberView, by: int) -> bool {
    match n {
        NumberView::Integer(v) => if i64::MIN <= v <= i64::MAX {
            i64::MIN <= v + by <= i64::MAX
        } else if 0 <= v <= u64::MAX {
            0 <= v + by <= u64::MAX
        } else {
            i128::MIN <= v <= i128::MAX && i128::MIN <= v + by <= i128::MAX
        },
        NumberView::Float { bits, offset } => i64::MIN <= offset + by <= i64::MAX,
    }
}

/// The document of the number `n` at `tier`.
pub open spec fn number_doc(n: NumberView, tier: SchemaOutputTier) -> JsonView {
    let bounded = tier.at_least(SchemaOutputTier::Standard);
    let rich = tier.at_least(SchemaOutputTier::Comprehensive);
    let expert = tier == SchemaOutputTier::Expert;
    let f0 = type_only(
        if n.is_integer() {
            "integer"@
        } else {
            "number"@
        },
    );
    let f1 = with_field(f0, rich, "examples"@, JsonView::Array(seq![JsonView::Number(n)]));
    let f2 = with_field(
        f1,
        bounded,
        "minimum"@,
        JsonView::Number(
            if rich {
                shifted(n, -1000)
            } else {
                n
            },
        ),
    );
    let f3 = with_field(f2, rich, "maximum"@, JsonView::Number(shifted(n, 1000)));
    let f4 = with_field(f3, expert && n.is_integer(), "multipleOf"@, whole(1));
    let f5 = with_field(
        f4,
        expert,
        "title"@,
        text(
            if n.is_integer() {
                "Generated Integer Schema"@
            } else {
                "Generated Number Schema"@
            },
        ),
    );
    JsonView::Object(f5)
}

/// Whether a bound of the document of `n` at `tier` leaves its integer type.
pub open spec fn number_overflows(n: NumberView, tier: SchemaOutputTier) -> bool {
    tier.at_least(SchemaOutputTier::Comprehensive) && !(shift_fits(n, -1000) && shift_fits(
        n,
        1000,
    ))
}

/// Length of `s` in bytes, in UTF-8.
pub open spec fn byte_len(s: Seq<char>) -> nat {
    vstd::utf8::encode_utf8(s).len()
}

/// `fields`, followed by `extra` where there is one.
pub open spec fn with_entry(fields: Seq<EntryView>, extra: Option<EntryView>) -> Seq<EntryView> {
    match extra {
        Some(e) => fields.push(e),
        None => fields,
    }
}

/// What sniffing adds to the document of a string: the format where one is
/// detected; failing that, the pattern where one is; failing that, nothing.
pub open spec fn sniffed_hint(s: Seq<char>) -> Option<EntryView> {
    match detected_format(s) {
        Some(name) => Some(entry("format"@, text(name))),
        None => match detected_pattern(s) {
            Some(pattern) => Some(entry("pattern"@, text(pattern))),
            None => None,
        },
    }
}

/// The document of the string `s` at `tier`.
pub open spec fn string_doc(s: Seq<char>, tier: SchemaOutputTier) -> JsonView {
    let bounded = tier.at_least(SchemaOutputTier::Standard);
    let rich = tier.at_least(SchemaOutputTier::Comprehensive);
    let expert = tier == SchemaOutputTier::Expert;
    let f0 = type_only("string"@);
    let f1 = with_field(f0, bounded, "minLength"@, whole(0));
    let f2 = with_field(f1, rich, "maxLength"@, whole(2 * (byte_len(s) as int)));
    let f3 = with_field(
        f2,
        rich && s.len() > 0,
        "examples"@,
        JsonView::Array(seq![JsonView::String(s)]),
    );
    let f4 = with_entry(
        f3,
        if expert {
            sniffed_hint(s)
        } else {
            None
        },
    );
    let f5 = with_field(f4, expert, "title"@, text("Generated String Schema"@));
    JsonView::Object(f5)
}

/// The `items` of a heterogeneous array: one document per item, in order.
pub open spec fn one_of(docs: Seq<JsonView>) -> JsonView {
    JsonView::Object(seq![entry("oneOf"@, JsonView::Array(docs))])
}

/// The document at `tier` of the array with the given `items`, whose
/// documents are `docs`, item for item.
pub open spec fn array_doc(
    items: Seq<JsonView>,
    docs: Seq<JsonView>,
    tier: SchemaOutputTier,
) -> JsonView {
    let bounded = tier.at_least(SchemaOutputTier::Standard);
    let rich = tier.at_least(SchemaOutputTier::Comprehensive);
    let expert = tier == SchemaOutputTier::Expert;
    if items.len() == 0 {
        JsonView::Object(
            type_only("array"@).push(entry("items"@, JsonView::Object(Seq::empty()))),
        )
    } else {
        let f0 = type_only("array"@).push(
            entry(
                "items"@,
                if is_homogeneous(items) {
                    docs[0]
                } else {
                    one_of(docs)
                },
            ),
        );
        let f1 = with_field(
            f0,
            bounded,
            "minItems"@,
            whole(
                if rich {
                    1
                } else {
                    0
                },
            ),
        );
        let f2 = with_field(f1, rich, "maxItems"@, whole(2 * (items.len() as int)));
        let f3 = with_field(f2, expert, "uniqueItems"@, JsonView::Bool(true));
        let f4 = with_field(f3, expert, "title"@, text("Generated Array Schema"@));
        let f5 = with_field(
            f4,
            expert,
            "description"@,
            text("Auto-generated array schema from JSON data"@),
        );
        JsonView::Object(f5)
    }
}

/// Whether the key of an entry with the given value is listed as required.
pub open spec fn is_required(value: JsonView, tier: SchemaOutputTier) -> bool {
    match tier {
        SchemaOutputTier::Basic => false,
        SchemaOutputTier::Standard => !(value is Null),
        SchemaOutputTier::Comprehensive | SchemaOutputTier::Expert => true,
    }
}

/// The entries whose keys are listed as required at `tier`.
pub open spec fn required_at(tier: SchemaOutputTier) -> spec_fn(EntryView) -> bool {
    |e: EntryView| is_required(e.value, tier)
}

/// The key of an entry, as a string value.
pub open spec fn key_text() -> spec_fn(EntryView) -> JsonView {
    |e: EntryView| text(e.key)
}

/// The keys listed as required, in the order of the entries.
pub open spec fn required_names(entries: Seq<EntryView>, tier: SchemaOutputTier) -> Seq<JsonView> {
    entries.filter(required_at(tier)).map_values(key_text())
}

/// The `properties` of an object: under each key of `entries`, in their
/// order, the document in `docs` at the same position.
pub open spec fn properties(entries: Seq<EntryView>, docs: Seq<JsonView>) -> JsonView {
    JsonView::Object(Seq::new(entries.len(), |i: int| entry(entries[i].key, docs[i])))
}

/// The document at `tier` of the object with the given `entries`, whose
/// values have the documents `docs`, entry for entry.
pub open spec fn object_doc(
    entries: Seq<EntryView>,
    docs: Seq<JsonView>,
    tier: SchemaOutputTier,
) -> JsonView {
    let bounded = tier.at_least(SchemaOutputTier::Standard);
    let rich = tier.at_least(SchemaOutputTier::Comprehensive);
    let expert = tier == SchemaOutputTier::Expert;
    let required = required_names(entries, tier);
    let f0 = type_only("object"@).push(entry("properties"@, properties(entries, docs)));
    let f1 = with_field(
        f0,
        rich,
        "$schema"@,
        text("https://json-schema.org/draft/2020-12/schema"@),
    );
    let f2 = with_field(f1, required.len() > 0, "required"@, JsonView::Array(required));
    let f3 = with_field(f2, bounded, "additionalProperties"@, JsonView::Bool(!rich));
    let f4 = with_field(f3, rich, "minProperties"@, whole(1));
    let f5 = with_field(f4, expert, "title"@, text("Generated Object Schema"@));
    let f6 = with_field(f5, expert, "description"@, text("Auto-generated schema from JSON data"@));
    JsonView::Object(f6)
}

/// The documents of the items of an array, item for item.
pub open spec fn item_docs(items: Seq<JsonView>, tier: SchemaOutputTier) -> Seq<JsonView>
    decreases items,
{
    Seq::new(
        items.len(),
        |i: int|
            if 0 <= i < items.len() {
                schema_doc(items[i], tier)
            } else {
                JsonView::Null
            },
    )
}

/// The documents of the values of an object, entry for entry.
pub open spec fn value_docs(entries: Seq<EntryView>, tier: SchemaOutputTier) -> Seq<JsonView>
    decreases entries,
{
    Seq::new(
        entries.len(),
        |i: int|
            if 0 <= i < entries.len() {
                schema_doc(entries[i].value, tier)
            } else {
                JsonView::Null
            },
    )
}

/// The schema document of the value `v` at `tier`.
pub open spec fn schema_doc(v: JsonView, tier: SchemaOutputTier) -> JsonView
    decreases v,
{
    match v {
        JsonView::Null => null_doc(),
        JsonView::Bool(b) => boolean_doc(b, tier),
        JsonView::Number(n) => number_doc(n, tier),
        JsonView::String(s) => string_doc(s, tier),
        JsonView::Array(items) => array_doc(items, item_docs(items, tier), tier),
        JsonView::Object(entries) => object_doc(entries, value_docs(entries, tier), tier),
    }
}

/// Whether a bound leaves its integer type in the document of an item that
/// the document of the array with the given `items` holds. A homogeneous
/// array holds the document of its first item only.
pub open spec fn array_overflows(items: Seq<JsonView>, tier: SchemaOutputTier) -> bool
    decreases items,
{
    items.len() > 0 && {
        ||| is_homogeneous(items) && schema_overflows(items[0], tier)
        ||| !is_homogeneous(items) && exists|i: int|
            0 <= i < items.len() && schema_overflows(#[trigger] items[i], tier)
    }
}

/// Whether a bound in the document of a value of the object with the given
/// `entries` leaves its integer type.
pub open spec fn object_overflows(entries: Seq<EntryView>, tier: SchemaOutputTier) -> bool
    decreases entries,
{
    exists|i: int| 0 <= i < entries.len() && schema_overflows((#[trigger] entries[i]).value, tier)
}

/// Whether a numeric bound that the document of `v` at `tier` calls for
/// leaves the integer type it is computed in. Where it does, no document is
/// generated.
pub open spec fn schema_overflows(v: JsonView, tier: SchemaOutputTier) -> bool
    decreases v,
{
    match v {
        JsonView::Null => false,
        JsonView::Bool(_) => false,
        JsonView::Number(n) => number_overflows(n, tier),
        JsonView::String(_) => false,
        JsonView::Array(items) => array_overflows(items, tier),
        JsonView::Object(entries) => object_overflows(entries, tier),
    }
}

} // verus!
