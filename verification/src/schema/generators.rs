//! The generators: one per kind of value.

use super::generate_schema;
use super::laws::{
    array_items_representation, lemma_field_names, lemma_lookup_type_only,
    max_items_is_twice_the_length, number_bounds_are_a_thousand_away, string_format_priority,
};
use super::model::{
    array_doc, array_overflows, boolean_doc, entry, item_docs, key_text, null_doc, number_doc,
    number_overflows, object_doc, object_overflows, one_of, properties, required_at,
    required_names,
    schema_doc, schema_overflows, shift_fits, shifted, string_doc, text, type_only, value_docs,
    whole,
};
use super::types::{
    detect_string_format, detect_string_pattern, is_homogeneous, is_homogeneous_array, item_kinds,
};
use super::value::{
    entries_view, field, items_view, lemma_array_view, lemma_object_view, JsonValue, JsonView,
    NumericValue,
};
use super::SchemaOutputTier;
use crate::error::SchemaError;
use vstd::prelude::*;

verus! {

/// A string value holding `s`.
fn text_value(s: &str) -> (v: JsonValue)
    ensures
        v@ == text(s@),
{
    JsonValue::String(s.to_string())
}

/// A one-item array holding `item`.
fn single(item: JsonValue) -> (v: JsonValue)
    ensures
        v@ == JsonView::Array(seq![item@]),
{
    let mut items: Vec<JsonValue> = Vec::new();
    items.push(item);
    proof {
        lemma_array_view(items);
        assert(items_view(items@) =~= seq![item@]);
    }
    JsonValue::Array(items)
}

/// The fields of a document that says no more than its `type`.
fn typed(name: &str) -> (fields: Vec<(String, JsonValue)>)
    ensures
        entries_view(fields@) == type_only(name@),
{
    let mut fields: Vec<(String, JsonValue)> = Vec::new();
    fields.push(("type".to_string(), text_value(name)));
    assert(entries_view(fields@) =~= type_only(name@));
    fields
}

/// Appends the field `key: value`.
fn put(fields: &mut Vec<(String, JsonValue)>, key: &str, value: JsonValue)
    ensures
        entries_view(final(fields)@) == entries_view(old(fields)@).push(entry(key@, value@)),
{
    fields.push((key.to_string(), value));
    assert(entries_view(fields@) =~= entries_view(old(fields)@).push(entry(key@, value@)));
}

/// The object with the given fields.
fn object_of(fields: Vec<(String, JsonValue)>) -> (v: JsonValue)
    ensures
        v@ == JsonView::Object(entries_view(fields@)),
{
    proof {
        lemma_object_view(fields);
    }
    JsonValue::Object(fields)
}

/// The array with the given items.
fn array_of(items: Vec<JsonValue>) -> (v: JsonValue)
    ensures
        v@ == JsonView::Array(items_view(items@)),
{
    proof {
        lemma_array_view(items);
    }
    JsonValue::Array(items)
}

/// The document of `null`.
pub fn generate_null_schema() -> (r: Result<JsonValue, SchemaError>)
    ensures
        r matches Ok(doc) && doc@ == null_doc(),
{
    Ok(object_of(typed("null")))
}

/// The document of a boolean at `tier`. Of a value that is no boolean, the
/// document says only `"type": "boolean"`.
pub fn generate_boolean_schema(value: &JsonValue, tier: &SchemaOutputTier) -> (r: Result<
    JsonValue,
    SchemaError,
>)
    ensures
        r matches Ok(doc) && doc@ == (match value@ {
            JsonView::Bool(b) => boolean_doc(b, *tier),
            _ => JsonView::Object(type_only("boolean"@)),
        }),
{
    let mut fields = typed("boolean");
    if let JsonValue::Bool(b) = value {
        let level = tier.level();
        if level >= 2 {
            put(&mut fields, "examples", single(JsonValue::Bool(*b)));
        }
        if level == 3 {
            put(&mut fields, "title", text_value("Generated Boolean Schema"));
            put(&mut fields, "description", text_value("Boolean value from JSON data"));
        }
    }
    Ok(object_of(fields))
}

/// `n` moved by `by`, when that stays in the integer type `n` is computed in.
fn shift(n: &NumericValue, by: i64) -> (r: Option<NumericValue>)
    ensures
        r is Some <==> shift_fits(n@, by as int),
        r matches Some(m) ==> m@ == shifted(n@, by as int),
{
    match n {
        NumericValue::Integer(v) => {
            let moved = match v.checked_add(by as i128) {
                Some(moved) => moved,
                None => {
                    return None;
                },
            };
            let fits = if -0x8000_0000_0000_0000 <= *v && *v <= 0x7fff_ffff_ffff_ffff {
                -0x8000_0000_0000_0000 <= moved && moved <= 0x7fff_ffff_ffff_ffff
            } else if 0 <= *v && *v <= 0xffff_ffff_ffff_ffff {
                0 <= moved && moved <= 0xffff_ffff_ffff_ffff
            } else {
                true
            };
            if fits {
                Some(NumericValue::Integer(moved))
            } else {
                None
            }
        },
        NumericValue::Float { bits, offset } => match offset.checked_add(by) {
            Some(moved) => Some(NumericValue::Float { bits: *bits, offset: moved }),
            None => None,
        },
    }
}

/// The document of a number at `tier`.
///
/// Fails when the tier asks for bounds and the number moved by 1000, down or
/// up, does not fit the integer type it is computed in.
pub fn generate_number_schema(n: &NumericValue, tier: &SchemaOutputTier) -> (r: Result<
    JsonValue,
    SchemaError,
>)
    ensures
        r is Err <==> number_overflows(n@, *tier),
        r matches Ok(doc) ==> doc@ == number_doc(n@, *tier),
        r matches Ok(doc) ==> (tier.at_least(SchemaOutputTier::Comprehensive) ==> field(
            doc@,
            "minimum"@,
        ) == Some(JsonView::Number(shifted(n@, -1000))) && field(doc@, "maximum"@) == Some(
            JsonView::Number(shifted(n@, 1000)),
        )),
{
    proof {
        number_bounds_are_a_thousand_away(n@, *tier);
    }
    let level = tier.level();
    let is_integer = n.is_integer();
    let mut fields = typed(
        if is_integer {
            "integer"
        } else {
            "number"
        },
    );
    if level == 1 {
        put(&mut fields, "minimum", JsonValue::Number(*n));
    } else if level >= 2 {
        let minimum = match shift(n, -1000) {
            Some(moved) => moved,
            None => {
                return Err(SchemaError::NumericRangeOverflow);
            },
        };
        let maximum = match shift(n, 1000) {
            Some(moved) => moved,
            None => {
                return Err(SchemaError::NumericRangeOverflow);
            },
        };
        put(&mut fields, "examples", single(JsonValue::Number(*n)));
        put(&mut fields, "minimum", JsonValue::Number(minimum));
        put(&mut fields, "maximum", JsonValue::Number(maximum));
        if level == 3 {
            if is_integer {
                put(&mut fields, "multipleOf", JsonValue::Number(NumericValue::Integer(1)));
                put(&mut fields, "title", text_value("Generated Integer Schema"));
            } else {
                put(&mut fields, "title", text_value("Generated Number Schema"));
            }
        }
    }
    Ok(object_of(fields))
}

/// The document of a string at `tier`; it is always generated. Of a value
/// that is no string, the document says only `"type": "string"`.
pub fn generate_string_schema(value: &JsonValue, tier: &SchemaOutputTier) -> (r: Result<
    JsonValue,
    SchemaError,
>)
    ensures
        r matches Ok(doc) && doc@ == (match value@ {
            JsonView::String(s) => string_doc(s, *tier),
            _ => JsonView::Object(type_only("string"@)),
        }),
        r matches Ok(doc) && !(field(doc@, "format"@) is Some && field(doc@, "pattern"@) is Some),
{
    proof {
        match value@ {
            JsonView::String(s) => {
                string_format_priority(s, *tier);
            },
            _ => {
                lemma_field_names();
                lemma_lookup_type_only("string"@, "format"@);
            },
        }
    }
    let mut fields = typed("string");
    if let JsonValue::String(s) = value {
        let level = tier.level();
        if level >= 1 {
            put(&mut fields, "minLength", JsonValue::Number(NumericValue::Integer(0)));
        }
        if level >= 2 {
            let bytes: i128 = s.as_str().as_bytes().len() as i128;
            put(&mut fields, "maxLength", JsonValue::Number(NumericValue::Integer(2 * bytes)));
            if !s.as_str().is_empty() {
                put(&mut fields, "examples", single(JsonValue::String(s.clone())));
            }
        }
        if level == 3 {
            if let Some(format) = detect_string_format(s.as_str()) {
                put(&mut fields, "format", text_value(format));
            } else if let Some(pattern) = detect_string_pattern(s.as_str()) {
                put(&mut fields, "pattern", text_value(pattern));
            }
            put(&mut fields, "title", text_value("Generated String Schema"));
        }
    }
    Ok(object_of(fields))
}

/// The document of an array at `tier`.
///
/// The items of a homogeneous array are described by the document of the
/// first item alone; those of any other array by the documents of all items,
/// in order, under `oneOf`. Fails when one of those documents cannot be
/// generated, and only then.
pub fn generate_array_schema(arr: &[JsonValue], tier: &SchemaOutputTier) -> (r: Result<
    JsonValue,
    SchemaError,
>)
    ensures
        r is Err <==> array_overflows(items_view(arr@), *tier),
        r matches Ok(doc) ==> doc@ == array_doc(
            items_view(arr@),
            item_docs(items_view(arr@), *tier),
            *tier,
        ),
        r matches Ok(doc) ==> (arr@.len() > 0 ==> field(doc@, "items"@) == Some(
            if item_kinds(items_view(arr@)).len() == 1 {
                schema_doc(arr@[0]@, *tier)
            } else {
                one_of(item_docs(items_view(arr@), *tier))
            },
        )),
        r matches Ok(doc) ==> field(doc@, "maxItems"@) == if arr@.len() > 0 && tier.at_least(
            SchemaOutputTier::Comprehensive,
        ) {
            Some(whole(2 * (arr@.len() as int)))
        } else {
            None
        },
    decreases arr@,
{
    let ghost items = items_view(arr@);
    proof {
        if arr@.len() > 0 {
            array_items_representation(items, *tier);
        }
        max_items_is_twice_the_length(items, item_docs(items, *tier), *tier);
    }
    let mut fields = typed("array");
    if arr.len() == 0 {
        let none: Vec<(String, JsonValue)> = Vec::new();
        assert(entries_view(none@) =~= Seq::empty());
        put(&mut fields, "items", object_of(none));
        return Ok(object_of(fields));
    }
    if is_homogeneous_array(arr) {
        let first = match generate_schema(&arr[0], tier) {
            Ok(doc) => doc,
            Err(e) => {
                return Err(e);
            },
        };
        put(&mut fields, "items", first);
    } else {
        let mut docs: Vec<JsonValue> = Vec::new();
        let mut i: usize = 0;
        while i < arr.len()
            invariant
                i <= arr.len(),
                docs.len() == i,
                items == items_view(arr@),
                !is_homogeneous(items),
                forall|j: int|
                    0 <= j < i ==> !schema_overflows(#[trigger] items[j], *tier) && docs[j]@
                        == schema_doc(items[j], *tier),
            decreases arr.len() - i,
        {
            let doc = match generate_schema(&arr[i], tier) {
                Ok(doc) => doc,
                Err(e) => {
                    assert(schema_overflows(items[i as int], *tier));
                    return Err(e);
                },
            };
            docs.push(doc);
            i += 1;
        }
        assert(items_view(docs@) =~= item_docs(items, *tier));
        let mut alternatives: Vec<(String, JsonValue)> = Vec::new();
        assert(entries_view(alternatives@) =~= Seq::empty());
        put(&mut alternatives, "oneOf", array_of(docs));
        put(&mut fields, "items", object_of(alternatives));
    }
    let level = tier.level();
    if level == 1 {
        put(&mut fields, "minItems", JsonValue::Number(NumericValue::Integer(0)));
    } else if level >= 2 {
        let len: i128 = arr.len() as i128;
        put(&mut fields, "minItems", JsonValue::Number(NumericValue::Integer(1)));
        put(&mut fields, "maxItems", JsonValue::Number(NumericValue::Integer(2 * len)));
        if level == 3 {
            put(&mut fields, "uniqueItems", JsonValue::Bool(true));
            put(&mut fields, "title", text_value("Generated Array Schema"));
            put(
                &mut fields,
                "description",
                text_value("Auto-generated array schema from JSON data"),
            );
        }
    }
    Ok(object_of(fields))
}

/// The document of an object at `tier`.
///
/// `properties` holds the document of each value under its key, in the order
/// of the entries. Fails when one of those documents cannot be generated.
pub fn generate_object_schema(obj: &Vec<(String, JsonValue)>, tier: &SchemaOutputTier) -> (r:
    Result<JsonValue, SchemaError>)
    ensures
        r is Err <==> object_overflows(entries_view(obj@), *tier),
        r matches Ok(doc) ==> doc@ == object_doc(
            entries_view(obj@),
            value_docs(entries_view(obj@), *tier),
            *tier,
        ),
    decreases obj@,
{
    let ghost entries = entries_view(obj@);
    let level = tier.level();
    let mut props: Vec<(String, JsonValue)> = Vec::new();
    let mut required: Vec<JsonValue> = Vec::new();
    let mut i: usize = 0;
    assert(entries.take(0) =~= Seq::empty());
    assert(items_view(required@) =~= required_names(entries.take(0), *tier));
    while i < obj.len()
        invariant
            i <= obj.len(),
            level == tier.rank(),
            props.len() == i,
            entries == entries_view(obj@),
            forall|j: int|
                0 <= j < i ==> !schema_overflows((#[trigger] entries[j]).value, *tier)
                    && props[j].0@ == entries[j].key && props[j].1@ == schema_doc(
                    entries[j].value,
                    *tier,
                ),
            items_view(required@) == required_names(entries.take(i as int), *tier),
        decreases obj.len() - i,
    {
        let key = &obj[i].0;
        let value = &obj[i].1;
        proof {
            assert(decreases_to!(obj@ => obj@[i as int]));
            assert(decreases_to!(obj@[i as int] => obj@[i as int].1));
        }
        let doc = match generate_schema(value, tier) {
            Ok(doc) => doc,
            Err(e) => {
                assert(schema_overflows(entries[i as int].value, *tier));
                return Err(e);
            },
        };
        props.push((key.clone(), doc));
        let listed = if level == 0 {
            false
        } else if level == 1 {
            match value {
                JsonValue::Null => false,
                _ => true,
            }
        } else {
            true
        };
        proof {
            let before = entries.take(i as int);
            assert(entries.take(i + 1) =~= before.push(entries[i as int]));
            before.lemma_filter_push(entries[i as int], required_at(*tier));
            assert(listed == required_at(*tier)(entries[i as int]));
        }
        let ghost listed_before = required@;
        if listed {
            required.push(text_value(key.as_str()));
            assert(items_view(required@) =~= items_view(listed_before).push(
                key_text()(entries[i as int]),
            ));
            assert(items_view(required@) =~= required_names(entries.take(i + 1), *tier));
        }
        i += 1;
    }
    assert(entries.take(i as int) =~= entries);
    assert(JsonView::Object(entries_view(props@)) == properties(
        entries,
        value_docs(entries, *tier),
    )) by {
        assert(entries_view(props@) =~= properties(
            entries,
            value_docs(entries, *tier),
        )->Object_0);
    }
    let mut fields = typed("object");
    put(&mut fields, "properties", object_of(props));
    if level >= 2 {
        put(&mut fields, "$schema", text_value("https://json-schema.org/draft/2020-12/schema"));
    }
    if required.len() > 0 {
        put(&mut fields, "required", array_of(required));
    }
    if level == 1 {
        put(&mut fields, "additionalProperties", JsonValue::Bool(true));
    } else if level >= 2 {
        put(&mut fields, "additionalProperties", JsonValue::Bool(false));
        put(&mut fields, "minProperties", JsonValue::Number(NumericValue::Integer(1)));
        if level == 3 {
            put(&mut fields, "title", text_value("Generated Object Schema"));
            put(&mut fields, "description", text_value("Auto-generated schema from JSON data"));
        }
    }
    Ok(object_of(fields))
}

} // verus!
