//! Laws of schema documents, proved of the model.

use super::model::{
    array_doc, byte_len, entry, is_required, item_docs, number_doc, one_of, properties,
    required_at, required_names, schema_doc, schema_overflows, shifted, sniffed_hint, string_doc,
    text, type_only, value_docs, whole, with_entry, with_field,
};
use super::types::{is_digit_string_char, is_homogeneous, item_kinds};
use super::value::{
    field, field_names, has_unique_keys, kind_of, lemma_lookup_found, lemma_lookup_push, lookup,
    EntryView, JsonKind, JsonView, NumberView,
};
use super::SchemaOutputTier;
use vstd::prelude::*;

verus! {

/// Looking a key up in a list of fields that ends in an optional field.
pub broadcast proof fn lemma_lookup_with_field(
    fields: Seq<EntryView>,
    present: bool,
    key: Seq<char>,
    value: JsonView,
    wanted: Seq<char>,
)
    ensures
        #[trigger] lookup(with_field(fields, present, key, value), wanted) == if present && key
            == wanted {
            Some(value)
        } else {
            lookup(fields, wanted)
        },
{
    lemma_lookup_push(fields, entry(key, value), wanted);
}

/// Looking a key up in a list of fields that ends in an optional entry.
pub broadcast proof fn lemma_lookup_with_entry(
    fields: Seq<EntryView>,
    extra: Option<EntryView>,
    wanted: Seq<char>,
)
    ensures
        #[trigger] lookup(with_entry(fields, extra), wanted) == if extra matches Some(e) && e.key
            == wanted {
            Some(extra->Some_0.value)
        } else {
            lookup(fields, wanted)
        },
{
    if extra is Some {
        lemma_lookup_push(fields, extra->Some_0, wanted);
    }
}

/// Looking a key up in the fields of a document that says only its `type`.
pub broadcast proof fn lemma_lookup_type_only(name: Seq<char>, wanted: Seq<char>)
    ensures
        #[trigger] lookup(type_only(name), wanted) == if wanted == "type"@ {
            Some(text(name))
        } else {
            None
        },
{
    lemma_lookup_push(Seq::empty(), entry("type"@, text(name)), wanted);
}

/// The names of the fields of schema documents, each told apart from the
/// others by its length and its first two characters.
pub proof fn lemma_field_names()
    ensures
        "type"@.len() == 4,
        "type"@[0] == 't' && "type"@[1] == 'y',
        "properties"@.len() == 10,
        "properties"@[0] == 'p' && "properties"@[1] == 'r',
        "$schema"@.len() == 7,
        "$schema"@[0] == '$' && "$schema"@[1] == 's',
        "required"@.len() == 8,
        "required"@[0] == 'r' && "required"@[1] == 'e',
        "additionalProperties"@.len() == 20,
        "additionalProperties"@[0] == 'a' && "additionalProperties"@[1] == 'd',
        "minProperties"@.len() == 13,
        "minProperties"@[0] == 'm' && "minProperties"@[1] == 'i',
        "title"@.len() == 5,
        "title"@[0] == 't' && "title"@[1] == 'i',
        "description"@.len() == 11,
        "description"@[0] == 'd' && "description"@[1] == 'e',
        "items"@.len() == 5,
        "items"@[0] == 'i' && "items"@[1] == 't',
        "oneOf"@.len() == 5,
        "oneOf"@[0] == 'o' && "oneOf"@[1] == 'n',
        "minItems"@.len() == 8,
        "minItems"@[0] == 'm' && "minItems"@[1] == 'i',
        "maxItems"@.len() == 8,
        "maxItems"@[0] == 'm' && "maxItems"@[1] == 'a',
        "uniqueItems"@.len() == 11,
        "uniqueItems"@[0] == 'u' && "uniqueItems"@[1] == 'n',
        "minLength"@.len() == 9,
        "minLength"@[0] == 'm' && "minLength"@[1] == 'i',
        "maxLength"@.len() == 9,
        "maxLength"@[0] == 'm' && "maxLength"@[1] == 'a',
        "examples"@.len() == 8,
        "examples"@[0] == 'e' && "examples"@[1] == 'x',
        "format"@.len() == 6,
        "format"@[0] == 'f' && "format"@[1] == 'o',
        "pattern"@.len() == 7,
        "pattern"@[0] == 'p' && "pattern"@[1] == 'a',
        "multipleOf"@.len() == 10,
        "multipleOf"@[0] == 'm' && "multipleOf"@[1] == 'u',
        "minimum"@.len() == 7,
        "minimum"@[0] == 'm' && "minimum"@[1] == 'i',
        "maximum"@.len() == 7,
        "maximum"@[0] == 'm' && "maximum"@[1] == 'a',
{
    reveal_strlit("type");
    reveal_strlit("properties");
    reveal_strlit("$schema");
    reveal_strlit("required");
    reveal_strlit("additionalProperties");
    reveal_strlit("minProperties");
    reveal_strlit("title");
    reveal_strlit("description");
    reveal_strlit("items");
    reveal_strlit("oneOf");
    reveal_strlit("minItems");
    reveal_strlit("maxItems");
    reveal_strlit("uniqueItems");
    reveal_strlit("minLength");
    reveal_strlit("maxLength");
    reveal_strlit("examples");
    reveal_strlit("format");
    reveal_strlit("pattern");
    reveal_strlit("multipleOf");
    reveal_strlit("minimum");
    reveal_strlit("maximum");
}

/// The document of `null` is `{"type": "null"}` at every tier, and is always
/// generated.
pub proof fn null_document_at_every_tier(tier: SchemaOutputTier)
    ensures
        schema_doc(JsonView::Null, tier) == JsonView::Object(
            seq![entry("type"@, text("null"@))],
        ),
        !schema_overflows(JsonView::Null, tier),
{
}

/// A non-empty array's document bounds the number of items from above, by
/// twice the array's length, at the tiers `Comprehensive` and `Expert`, and
/// at no other tier; the document of the empty array never does.
pub proof fn max_items_is_twice_the_length(
    items: Seq<JsonView>,
    docs: Seq<JsonView>,
    tier: SchemaOutputTier,
)
    ensures
        field(array_doc(items, docs, tier), "maxItems"@) == if items.len() > 0 && tier.at_least(
            SchemaOutputTier::Comprehensive,
        ) {
            Some(whole(2 * (items.len() as int)))
        } else {
            None
        },
{
    broadcast use {lemma_lookup_with_field, lemma_lookup_with_entry, lemma_lookup_type_only};

    lemma_field_names();
    let wanted = "maxItems"@;
    if items.len() == 0 {
        lemma_lookup_push(
            type_only("array"@),
            entry("items"@, JsonView::Object(Seq::empty())),
            wanted,
        );
    } else {
        let described = if is_homogeneous(items) {
            docs[0]
        } else {
            one_of(docs)
        };
        lemma_lookup_push(type_only("array"@), entry("items"@, described), wanted);
    }
}

/// The bounds in a number's document: at `Standard` the number itself is the
/// minimum and there is no maximum; at `Comprehensive` and `Expert` the
/// minimum lies 1000 below the number and the maximum 1000 above it; at
/// `Basic` there is neither.
pub proof fn number_bounds_are_a_thousand_away(n: NumberView, tier: SchemaOutputTier)
    ensures
        field(number_doc(n, tier), "minimum"@) == if tier.at_least(
            SchemaOutputTier::Comprehensive,
        ) {
            Some(JsonView::Number(shifted(n, -1000)))
        } else if tier == SchemaOutputTier::Standard {
            Some(JsonView::Number(n))
        } else {
            None
        },
        field(number_doc(n, tier), "maximum"@) == if tier.at_least(
            SchemaOutputTier::Comprehensive,
        ) {
            Some(JsonView::Number(shifted(n, 1000)))
        } else {
            None
        },
{
    broadcast use {lemma_lookup_with_field, lemma_lookup_with_entry, lemma_lookup_type_only};

    lemma_field_names();
}

/// Format sniffing goes by priority, and a string's document never holds both
/// a `format` and a `pattern`. At the `Expert` tier a string is an `email`
/// when it holds both an `@` and a `.`; failing that, a `uri` when it starts
/// with `http`; failing that, it gets the digit-string pattern when all its
/// characters are ASCII digits, `-` or spaces, as is the case of the empty
/// string. No other document has either field.
pub proof fn string_format_priority(s: Seq<char>, tier: SchemaOutputTier)
    ensures
        !(field(string_doc(s, tier), "format"@) is Some && field(string_doc(s, tier), "pattern"@)
            is Some),
        field(string_doc(s, tier), "format"@) == if tier == SchemaOutputTier::Expert
            && s.contains('@') && s.contains('.') {
            Some(text("email"@))
        } else if tier == SchemaOutputTier::Expert && "http"@.is_prefix_of(s) {
            Some(text("uri"@))
        } else {
            None
        },
        field(string_doc(s, tier), "pattern"@) == if tier == SchemaOutputTier::Expert && !(
        s.contains('@') && s.contains('.')) && !"http"@.is_prefix_of(s) && forall|i: int|
            0 <= i < s.len() ==> is_digit_string_char(#[trigger] s[i]) {
            Some(text("^[\\d\\-\\s]+$"@))
        } else {
            None
        },
{
    broadcast use {lemma_lookup_with_field, lemma_lookup_with_entry, lemma_lookup_type_only};

    lemma_field_names();
}

/// Among the items of a non-empty array at least one kind occurs, and exactly
/// one occurs if and only if every item is of the kind of the first.
pub proof fn one_kind_means_all_alike(items: Seq<JsonView>)
    requires
        items.len() > 0,
    ensures
        item_kinds(items).finite(),
        item_kinds(items).len() >= 1,
        item_kinds(items).len() == 1 <==> forall|i: int|
            0 <= i < items.len() ==> kind_of(#[trigger] items[i]) == kind_of(items[0]),
{
    let tags = items.map_values(|v: JsonView| kind_of(v));
    let kinds = item_kinds(items);
    let first = kind_of(items[0]);
    assert(tags[0] == first);
    assert(kinds.contains(first));
    if forall|i: int| 0 <= i < items.len() ==> kind_of(#[trigger] items[i]) == first {
        assert(kinds =~= set![first]) by {
            assert forall|k: JsonKind| kinds.contains(k) implies k == first by {
                let i = choose|i: int| 0 <= i < tags.len() && tags[i] == k;
                assert(kind_of(items[i]) == first);
            }
        }
    } else {
        let i = choose|i: int| 0 <= i < items.len() && kind_of(#[trigger] items[i]) != first;
        assert(tags[i] == kind_of(items[i]));
        assert(kinds.contains(tags[i]));
        let rest = kinds.remove(first);
        assert(rest.contains(tags[i]));
        assert(rest.len() >= 1);
    }
}

/// No schema document has a field `oneOf`; each has a field `type`.
pub proof fn documents_are_typed(v: JsonView, tier: SchemaOutputTier)
    ensures
        schema_doc(v, tier) is Object,
        field(schema_doc(v, tier), "type"@) is Some,
        field(schema_doc(v, tier), "oneOf"@) is None,
{
    broadcast use {lemma_lookup_with_field, lemma_lookup_with_entry, lemma_lookup_type_only};

    lemma_field_names();
    match v {
        JsonView::Array(items) => {
            let docs = item_docs(items, tier);
            if items.len() == 0 {
                lemma_lookup_push(
                    type_only("array"@),
                    entry("items"@, JsonView::Object(Seq::empty())),
                    "oneOf"@,
                );
                lemma_lookup_push(
                    type_only("array"@),
                    entry("items"@, JsonView::Object(Seq::empty())),
                    "type"@,
                );
            } else {
                let described = if is_homogeneous(items) {
                    docs[0]
                } else {
                    one_of(docs)
                };
                lemma_lookup_push(type_only("array"@), entry("items"@, described), "oneOf"@);
                lemma_lookup_push(type_only("array"@), entry("items"@, described), "type"@);
            }
        },
        JsonView::Object(entries) => {
            let listed = entry("properties"@, properties(entries, value_docs(entries, tier)));
            lemma_lookup_push(type_only("object"@), listed, "oneOf"@);
            lemma_lookup_push(type_only("object"@), listed, "type"@);
        },
        _ => {},
    }
}

/// How the document of a non-empty array describes the items.
///
/// Where one kind occurs among the items, `items` is the document of the
/// first item, and holds no `oneOf`. Where several kinds occur, `items` holds
/// under `oneOf` the documents of all the items, one for each, in their
/// order. Nothing else occurs.
pub proof fn array_items_representation(items: Seq<JsonView>, tier: SchemaOutputTier)
    requires
        items.len() > 0,
    ensures
        field(schema_doc(JsonView::Array(items), tier), "items"@) == Some(
            if item_kinds(items).len() == 1 {
                schema_doc(items[0], tier)
            } else {
                one_of(item_docs(items, tier))
            },
        ),
        field(schema_doc(JsonView::Array(items), tier), "items"@) matches Some(described) && {
            &&& item_kinds(items).len() == 1 <==> field(described, "oneOf"@) is None
            &&& item_kinds(items).len() == 1 ==> described == schema_doc(items[0], tier)
            &&& item_kinds(items).len() > 1 <==> field(described, "oneOf"@) == Some(
                JsonView::Array(item_docs(items, tier)),
            )
        },
        item_docs(items, tier).len() == items.len(),
        forall|i: int|
            0 <= i < items.len() ==> #[trigger] item_docs(items, tier)[i] == schema_doc(
                items[i],
                tier,
            ),
{
    broadcast use {lemma_lookup_with_field, lemma_lookup_with_entry, lemma_lookup_type_only};

    lemma_field_names();
    one_kind_means_all_alike(items);
    documents_are_typed(items[0], tier);
    let docs = item_docs(items, tier);
    let described = if is_homogeneous(items) {
        docs[0]
    } else {
        one_of(docs)
    };
    lemma_lookup_push(type_only("array"@), entry("items"@, described), "items"@);
    lemma_lookup_push(Seq::empty(), entry("oneOf"@, JsonView::Array(docs)), "oneOf"@);
}

/// Keys listed as required at a tier are listed at every stricter tier: where
/// the weaker tier lists any key, so does the stricter one.
pub proof fn required_keys_grow_with_strictness(
    entries: Seq<EntryView>,
    weaker: SchemaOutputTier,
    stricter: SchemaOutputTier,
)
    requires
        stricter.at_least(weaker),
    ensures
        required_names(entries, weaker).len() > 0 ==> required_names(entries, stricter).len() > 0,
{
    let listed = entries.filter(required_at(weaker));
    if listed.len() > 0 {
        let e = listed[0];
        entries.lemma_filter_pred(required_at(weaker), 0);
        assert(listed.contains(e));
        entries.lemma_filter_contains_rev(required_at(weaker), e);
        let at = choose|at: int| 0 <= at < entries.len() && entries[at] == e;
        assert(is_required(e.value, weaker));
        assert(required_at(stricter)(entries[at]));
        entries.lemma_filter_contains(required_at(stricter), at);
    }
}

/// Strictness is monotonic: the document of a value at a tier has every field
/// that its document at a weaker tier has.
pub proof fn stricter_tier_keeps_fields(
    v: JsonView,
    weaker: SchemaOutputTier,
    stricter: SchemaOutputTier,
)
    requires
        stricter.at_least(weaker),
    ensures
        field_names(schema_doc(v, weaker)).subset_of(field_names(schema_doc(v, stricter))),
{
    broadcast use {lemma_lookup_with_field, lemma_lookup_with_entry, lemma_lookup_type_only};

    assert forall|key: Seq<char>| field(schema_doc(v, weaker), key) is Some implies field(
        schema_doc(v, stricter),
        key,
    ) is Some by {
        match v {
            JsonView::Array(items) => {
                if items.len() == 0 {
                    lemma_lookup_push(
                        type_only("array"@),
                        entry("items"@, JsonView::Object(Seq::empty())),
                        key,
                    );
                } else {
                    let low = item_docs(items, weaker);
                    let high = item_docs(items, stricter);
                    lemma_lookup_push(
                        type_only("array"@),
                        entry(
                            "items"@,
                            if is_homogeneous(items) {
                                low[0]
                            } else {
                                one_of(low)
                            },
                        ),
                        key,
                    );
                    lemma_lookup_push(
                        type_only("array"@),
                        entry(
                            "items"@,
                            if is_homogeneous(items) {
                                high[0]
                            } else {
                                one_of(high)
                            },
                        ),
                        key,
                    );
                }
            },
            JsonView::Object(entries) => {
                required_keys_grow_with_strictness(entries, weaker, stricter);
                lemma_lookup_push(
                    type_only("object"@),
                    entry("properties"@, properties(entries, value_docs(entries, weaker))),
                    key,
                );
                lemma_lookup_push(
                    type_only("object"@),
                    entry("properties"@, properties(entries, value_docs(entries, stricter))),
                    key,
                );
            },
            _ => {},
        }
    }
}

/// A document that is generated at a tier is generated at every weaker tier:
/// a bound that overflows at the weaker tier overflows at the stricter one.
pub proof fn overflow_grows_with_strictness(
    v: JsonView,
    weaker: SchemaOutputTier,
    stricter: SchemaOutputTier,
)
    requires
        stricter.at_least(weaker),
    ensures
        schema_overflows(v, weaker) ==> schema_overflows(v, stricter),
    decreases v,
{
    if schema_overflows(v, weaker) {
        match v {
            JsonView::Array(items) => {
                if is_homogeneous(items) {
                    if schema_overflows(items[0], weaker) {
                        overflow_grows_with_strictness(items[0], weaker, stricter);
                    }
                } else {
                    let i = choose|i: int|
                        0 <= i < items.len() && schema_overflows(#[trigger] items[i], weaker);
                    overflow_grows_with_strictness(items[i], weaker, stricter);
                }
            },
            JsonView::Object(entries) => {
                let i = choose|i: int|
                    0 <= i < entries.len() && schema_overflows(
                        (#[trigger] entries[i]).value,
                        weaker,
                    );
                overflow_grows_with_strictness(entries[i].value, weaker, stricter);
            },
            _ => {},
        }
    }
}

/// At the tiers `Basic` and `Standard` every value has a document: no bound
/// is computed there that could overflow.
pub proof fn weak_tiers_are_total(v: JsonView, tier: SchemaOutputTier)
    requires
        !tier.at_least(SchemaOutputTier::Comprehensive),
    ensures
        !schema_overflows(v, tier),
    decreases v,
{
    match v {
        JsonView::Array(items) => {
            if items.len() > 0 {
                weak_tiers_are_total(items[0], tier);
                assert forall|i: int| 0 <= i < items.len() implies !schema_overflows(
                    #[trigger] items[i],
                    tier,
                ) by {
                    weak_tiers_are_total(items[i], tier);
                }
            }
        },
        JsonView::Object(entries) => {
            assert forall|i: int| 0 <= i < entries.len() implies !schema_overflows(
                (#[trigger] entries[i]).value,
                tier,
            ) by {
                weak_tiers_are_total(entries[i].value, tier);
            }
        },
        _ => {},
    }
}

/// Appending a field under a new key keeps the keys of an object unique.
pub proof fn lemma_unique_keys_with_field(
    fields: Seq<EntryView>,
    present: bool,
    key: Seq<char>,
    value: JsonView,
)
    requires
        has_unique_keys(JsonView::Object(fields)),
        present ==> lookup(fields, key) is None && has_unique_keys(value),
    ensures
        has_unique_keys(JsonView::Object(with_field(fields, present, key, value))),
{
    if present {
        lemma_lookup_found(fields, key);
        let extended = fields.push(entry(key, value));
        assert forall|i: int, j: int| 0 <= i < j < extended.len() implies (
        #[trigger] extended[i]).key != (#[trigger] extended[j]).key by {
            if j == fields.len() {
                assert(fields[i].key != key);
            } else {
                assert(fields[i].key != fields[j].key);
            }
        }
        assert forall|i: int| 0 <= i < extended.len() implies has_unique_keys(
            (#[trigger] extended[i]).value,
        ) by {
            if i < fields.len() {
                assert(has_unique_keys(fields[i].value));
            }
        }
    }
}

/// A document that says only its `type` has unique keys.
pub proof fn lemma_unique_keys_type_only(name: Seq<char>)
    ensures
        has_unique_keys(JsonView::Object(type_only(name))),
{
    assert(has_unique_keys(JsonView::Object(Seq::<EntryView>::empty())));
    lemma_unique_keys_with_field(Seq::empty(), true, "type"@, text(name));
}

/// Generation keeps objects well formed: where no key occurs twice in any
/// object of a value, none does in any object of its document.
pub proof fn documents_have_unique_keys(v: JsonView, tier: SchemaOutputTier)
    requires
        has_unique_keys(v),
    ensures
        has_unique_keys(schema_doc(v, tier)),
    decreases v,
{
    broadcast use {lemma_lookup_with_field, lemma_lookup_with_entry, lemma_lookup_type_only};

    lemma_field_names();
    let bounded = tier.at_least(SchemaOutputTier::Standard);
    let rich = tier.at_least(SchemaOutputTier::Comprehensive);
    let expert = tier == SchemaOutputTier::Expert;
    match v {
        JsonView::Null => {
            lemma_unique_keys_type_only("null"@);
        },
        JsonView::Bool(b) => {
            lemma_unique_keys_type_only("boolean"@);
            let f0 = type_only("boolean"@);
            let examples = JsonView::Array(seq![JsonView::Bool(b)]);
            assert(has_unique_keys(examples));
            let f1 = with_field(f0, rich, "examples"@, examples);
            lemma_unique_keys_with_field(f0, rich, "examples"@, examples);
            let f2 = with_field(f1, expert, "title"@, text("Generated Boolean Schema"@));
            lemma_unique_keys_with_field(f1, expert, "title"@, text("Generated Boolean Schema"@));
            lemma_unique_keys_with_field(
                f2,
                expert,
                "description"@,
                text("Boolean value from JSON data"@),
            );
        },
        JsonView::Number(n) => {
            let name = if n.is_integer() {
                "integer"@
            } else {
                "number"@
            };
            lemma_unique_keys_type_only(name);
            let f0 = type_only(name);
            let examples = JsonView::Array(seq![JsonView::Number(n)]);
            assert(has_unique_keys(examples));
            let f1 = with_field(f0, rich, "examples"@, examples);
            lemma_unique_keys_with_field(f0, rich, "examples"@, examples);
            let minimum = JsonView::Number(
                if rich {
                    shifted(n, -1000)
                } else {
                    n
                },
            );
            let f2 = with_field(f1, bounded, "minimum"@, minimum);
            lemma_unique_keys_with_field(f1, bounded, "minimum"@, minimum);
            let maximum = JsonView::Number(shifted(n, 1000));
            let f3 = with_field(f2, rich, "maximum"@, maximum);
            lemma_unique_keys_with_field(f2, rich, "maximum"@, maximum);
            let f4 = with_field(f3, expert && n.is_integer(), "multipleOf"@, whole(1));
            lemma_unique_keys_with_field(f3, expert && n.is_integer(), "multipleOf"@, whole(1));
            let title = text(
                if n.is_integer() {
                    "Generated Integer Schema"@
                } else {
                    "Generated Number Schema"@
                },
            );
            lemma_unique_keys_with_field(f4, expert, "title"@, title);
        },
        JsonView::String(s) => {
            lemma_unique_keys_type_only("string"@);
            let f0 = type_only("string"@);
            let f1 = with_field(f0, bounded, "minLength"@, whole(0));
            lemma_unique_keys_with_field(f0, bounded, "minLength"@, whole(0));
            let max_length = whole(2 * (byte_len(s) as int));
            let f2 = with_field(f1, rich, "maxLength"@, max_length);
            lemma_unique_keys_with_field(f1, rich, "maxLength"@, max_length);
            let examples = JsonView::Array(seq![JsonView::String(s)]);
            assert(has_unique_keys(examples));
            let f3 = with_field(f2, rich && s.len() > 0, "examples"@, examples);
            lemma_unique_keys_with_field(f2, rich && s.len() > 0, "examples"@, examples);
            let hint = if expert {
                sniffed_hint(s)
            } else {
                None
            };
            let f4 = with_entry(f3, hint);
            if hint is Some {
                let e = hint->Some_0;
                assert(e.value is String);
                lemma_unique_keys_with_field(f3, true, e.key, e.value);
            }
            lemma_unique_keys_with_field(f4, expert, "title"@, text("Generated String Schema"@));
        },
        JsonView::Array(items) => {
            lemma_unique_keys_type_only("array"@);
            let docs = item_docs(items, tier);
            if items.len() == 0 {
                let none = JsonView::Object(Seq::<EntryView>::empty());
                assert(has_unique_keys(none));
                lemma_unique_keys_with_field(type_only("array"@), true, "items"@, none);
            } else {
                assert forall|i: int| 0 <= i < docs.len() implies has_unique_keys(
                    #[trigger] docs[i],
                ) by {
                    assert(has_unique_keys(items[i]));
                    documents_have_unique_keys(items[i], tier);
                }
                let listed = JsonView::Array(docs);
                assert(has_unique_keys(listed));
                assert(has_unique_keys(JsonView::Object(Seq::<EntryView>::empty())));
                lemma_unique_keys_with_field(Seq::empty(), true, "oneOf"@, listed);
                let described = if is_homogeneous(items) {
                    docs[0]
                } else {
                    one_of(docs)
                };
                let f0 = with_field(type_only("array"@), true, "items"@, described);
                lemma_unique_keys_with_field(type_only("array"@), true, "items"@, described);
                let min_items = whole(
                    if rich {
                        1
                    } else {
                        0
                    },
                );
                let f1 = with_field(f0, bounded, "minItems"@, min_items);
                lemma_unique_keys_with_field(f0, bounded, "minItems"@, min_items);
                let max_items = whole(2 * (items.len() as int));
                let f2 = with_field(f1, rich, "maxItems"@, max_items);
                lemma_unique_keys_with_field(f1, rich, "maxItems"@, max_items);
                let f3 = with_field(f2, expert, "uniqueItems"@, JsonView::Bool(true));
                lemma_unique_keys_with_field(f2, expert, "uniqueItems"@, JsonView::Bool(true));
                let f4 = with_field(f3, expert, "title"@, text("Generated Array Schema"@));
                lemma_unique_keys_with_field(f3, expert, "title"@, text("Generated Array Schema"@));
                lemma_unique_keys_with_field(
                    f4,
                    expert,
                    "description"@,
                    text("Auto-generated array schema from JSON data"@),
                );
            }
        },
        JsonView::Object(entries) => {
            lemma_unique_keys_type_only("object"@);
            let docs = value_docs(entries, tier);
            let listed = properties(entries, docs);
            assert(has_unique_keys(listed)) by {
                let fields = listed->Object_0;
                assert forall|i: int| 0 <= i < fields.len() implies has_unique_keys(
                    (#[trigger] fields[i]).value,
                ) by {
                    assert(has_unique_keys(entries[i].value));
                    documents_have_unique_keys(entries[i].value, tier);
                }
                assert forall|i: int, j: int| 0 <= i < j < fields.len() implies (
                #[trigger] fields[i]).key != (#[trigger] fields[j]).key by {
                    assert(entries[i].key != entries[j].key);
                }
            }
            let required = required_names(entries, tier);
            let names = JsonView::Array(required);
            assert(has_unique_keys(names)) by {
                assert forall|i: int| 0 <= i < required.len() implies has_unique_keys(
                    #[trigger] required[i],
                ) by {
                    assert(required[i] is String);
                }
            }
            let f0 = with_field(type_only("object"@), true, "properties"@, listed);
            lemma_unique_keys_with_field(type_only("object"@), true, "properties"@, listed);
            let uri = text("https://json-schema.org/draft/2020-12/schema"@);
            let f1 = with_field(f0, rich, "$schema"@, uri);
            lemma_unique_keys_with_field(f0, rich, "$schema"@, uri);
            let f2 = with_field(f1, required.len() > 0, "required"@, names);
            lemma_unique_keys_with_field(f1, required.len() > 0, "required"@, names);
            let f3 = with_field(f2, bounded, "additionalProperties"@, JsonView::Bool(!rich));
            lemma_unique_keys_with_field(
                f2,
                bounded,
                "additionalProperties"@,
                JsonView::Bool(!rich),
            );
            let f4 = with_field(f3, rich, "minProperties"@, whole(1));
            lemma_unique_keys_with_field(f3, rich, "minProperties"@, whole(1));
            let f5 = with_field(f4, expert, "title"@, text("Generated Object Schema"@));
            lemma_unique_keys_with_field(f4, expert, "title"@, text("Generated Object Schema"@));
            lemma_unique_keys_with_field(
                f5,
                expert,
                "description"@,
                text("Auto-generated schema from JSON data"@),
            );
        },
    }
}

} // verus!
