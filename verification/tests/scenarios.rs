use schema_jenerator::error::SchemaError;
use schema_jenerator::schema::generate_schema;
use schema_jenerator::schema::generators::{
    generate_array_schema, generate_boolean_schema, generate_null_schema, generate_number_schema,
    generate_object_schema, generate_string_schema,
};
use schema_jenerator::schema::value::{JsonValue, NumericValue};
use schema_jenerator::schema::SchemaOutputTier;

const TIERS: [SchemaOutputTier; 4] = [
    SchemaOutputTier::Basic,
    SchemaOutputTier::Standard,
    SchemaOutputTier::Comprehensive,
    SchemaOutputTier::Expert,
];

const DRAFT: &str = "https://json-schema.org/draft/2020-12/schema";

fn text(s: &str) -> JsonValue {
    JsonValue::String(s.to_string())
}

fn signed(v: i64) -> JsonValue {
    JsonValue::Number(NumericValue::Integer(v as i128))
}

fn unsigned(v: u64) -> JsonValue {
    JsonValue::Number(NumericValue::Integer(v as i128))
}

fn float(v: f64) -> JsonValue {
    JsonValue::Number(NumericValue::Float { bits: v.to_bits(), offset: 0 })
}

fn array(items: Vec<JsonValue>) -> JsonValue {
    JsonValue::Array(items)
}

fn object(entries: Vec<(&str, JsonValue)>) -> JsonValue {
    JsonValue::Object(entries.into_iter().map(|(k, v)| (k.to_string(), v)).collect())
}

fn keys(doc: &JsonValue) -> Vec<String> {
    doc.as_object().unwrap().iter().map(|(k, _)| k.clone()).collect()
}

fn person() -> JsonValue {
    object(vec![
        ("name", text("John")),
        ("age", signed(30)),
        ("is_active", JsonValue::Bool(true)),
    ])
}

#[test]
fn null_is_the_same_at_every_tier() {
    for tier in TIERS.iter() {
        let doc = generate_schema(&JsonValue::Null, tier).unwrap();
        assert_eq!(doc, object(vec![("type", text("null"))]));
    }
    assert_eq!(generate_null_schema().unwrap(), object(vec![("type", text("null"))]));
}

#[test]
fn object_at_basic_tier() {
    let doc = generate_schema(&person(), &SchemaOutputTier::Basic).unwrap();
    let expected = object(vec![
        ("type", text("object")),
        (
            "properties",
            object(vec![
                ("name", object(vec![("type", text("string"))])),
                ("age", object(vec![("type", text("integer"))])),
                ("is_active", object(vec![("type", text("boolean"))])),
            ]),
        ),
    ]);
    assert_eq!(doc, expected);
    assert!(doc.get("required").is_none());
    assert!(doc.get("additionalProperties").is_none());
}

#[test]
fn object_at_standard_tier_requires_what_is_not_null() {
    let input = object(vec![
        ("name", text("John")),
        ("nickname", JsonValue::Null),
        ("age", signed(30)),
    ]);
    let doc = generate_schema(&input, &SchemaOutputTier::Standard).unwrap();
    assert_eq!(keys(&doc), vec!["type", "properties", "required", "additionalProperties"]);
    assert_eq!(doc.get("required"), Some(&array(vec![text("name"), text("age")])));
    assert_eq!(doc.get("additionalProperties"), Some(&JsonValue::Bool(true)));
    assert_eq!(
        keys(doc.get("properties").unwrap()),
        vec!["name", "nickname", "age"]
    );
}

#[test]
fn object_of_nulls_at_standard_tier_has_no_required() {
    let input = object(vec![("a", JsonValue::Null), ("b", JsonValue::Null)]);
    let doc = generate_schema(&input, &SchemaOutputTier::Standard).unwrap();
    assert_eq!(keys(&doc), vec!["type", "properties", "additionalProperties"]);
}

#[test]
fn object_at_comprehensive_tier() {
    let doc = generate_schema(&person(), &SchemaOutputTier::Comprehensive).unwrap();
    assert_eq!(
        keys(&doc),
        vec![
            "type",
            "properties",
            "$schema",
            "required",
            "additionalProperties",
            "minProperties"
        ]
    );
    assert_eq!(
        doc.get("required"),
        Some(&array(vec![text("name"), text("age"), text("is_active")]))
    );
    assert_eq!(doc.get("additionalProperties"), Some(&JsonValue::Bool(false)));
    assert_eq!(doc.get("minProperties"), Some(&unsigned(1)));
    assert_eq!(doc.get("$schema"), Some(&text(DRAFT)));
    let age = doc.get("properties").unwrap().get("age").unwrap();
    assert_eq!(
        age,
        &object(vec![
            ("type", text("integer")),
            ("examples", array(vec![signed(30)])),
            ("minimum", signed(-970)),
            ("maximum", signed(1030)),
        ])
    );
}

#[test]
fn object_at_expert_tier() {
    let doc = generate_schema(&person(), &SchemaOutputTier::Expert).unwrap();
    assert_eq!(
        keys(&doc),
        vec![
            "type",
            "properties",
            "$schema",
            "required",
            "additionalProperties",
            "minProperties",
            "title",
            "description"
        ]
    );
    assert_eq!(doc.get("title"), Some(&text("Generated Object Schema")));
    assert_eq!(doc.get("description"), Some(&text("Auto-generated schema from JSON data")));
}

#[test]
fn empty_object_still_asks_for_one_property() {
    let input = object(vec![]);
    let doc = generate_schema(&input, &SchemaOutputTier::Comprehensive).unwrap();
    assert_eq!(
        doc,
        object(vec![
            ("type", text("object")),
            ("properties", object(vec![])),
            ("$schema", text(DRAFT)),
            ("additionalProperties", JsonValue::Bool(false)),
            ("minProperties", unsigned(1)),
        ])
    );
    let direct = generate_object_schema(&vec![], &SchemaOutputTier::Comprehensive).unwrap();
    assert_eq!(direct, doc);
}

#[test]
fn stricter_tiers_keep_the_fields_of_weaker_ones() {
    let inputs = vec![
        person(),
        object(vec![("a", JsonValue::Null)]),
        array(vec![signed(1), text("x")]),
        array(vec![]),
        text("john@example.com"),
        text(""),
        signed(42),
        float(0.5),
        JsonValue::Bool(false),
        JsonValue::Null,
    ];
    for input in inputs.iter() {
        for pair in TIERS.windows(2) {
            let weaker = keys(&generate_schema(input, &pair[0]).unwrap());
            let stricter = keys(&generate_schema(input, &pair[1]).unwrap());
            for key in weaker.iter() {
                assert!(stricter.contains(key));
            }
        }
    }
}

#[test]
fn heterogeneous_array_at_standard_tier() {
    let input = array(vec![signed(1), text("string"), JsonValue::Bool(true)]);
    let doc = generate_schema(&input, &SchemaOutputTier::Standard).unwrap();
    let expected = object(vec![
        ("type", text("array")),
        (
            "items",
            object(vec![(
                "oneOf",
                array(vec![
                    object(vec![("type", text("integer")), ("minimum", signed(1))]),
                    object(vec![("type", text("string")), ("minLength", unsigned(0))]),
                    object(vec![("type", text("boolean"))]),
                ]),
            )]),
        ),
        ("minItems", unsigned(0)),
    ]);
    assert_eq!(doc, expected);
}

#[test]
fn empty_array_is_the_same_at_every_tier() {
    let expected = object(vec![("type", text("array")), ("items", object(vec![]))]);
    for tier in TIERS.iter() {
        assert_eq!(generate_schema(&array(vec![]), tier).unwrap(), expected);
        assert_eq!(generate_array_schema(&[], tier).unwrap(), expected);
    }
}

#[test]
fn homogeneous_array_is_described_by_its_first_item() {
    let input = array(vec![
        object(vec![("a", signed(1))]),
        object(vec![("b", text("x")), ("c", JsonValue::Null)]),
    ]);
    let doc = generate_schema(&input, &SchemaOutputTier::Basic).unwrap();
    let expected = object(vec![
        ("type", text("array")),
        (
            "items",
            object(vec![
                ("type", text("object")),
                ("properties", object(vec![("a", object(vec![("type", text("integer"))]))])),
            ]),
        ),
    ]);
    assert_eq!(doc, expected);
    assert!(doc.get("items").unwrap().get("oneOf").is_none());
}

#[test]
fn one_of_keeps_duplicates_and_order() {
    let input = array(vec![signed(1), text("a"), signed(2), text("a")]);
    let doc = generate_schema(&input, &SchemaOutputTier::Basic).unwrap();
    let integer = object(vec![("type", text("integer"))]);
    let string = object(vec![("type", text("string"))]);
    assert_eq!(
        doc.get("items").unwrap().get("oneOf"),
        Some(&array(vec![integer.clone(), string.clone(), integer, string]))
    );
}

#[test]
fn max_items_is_twice_the_length() {
    let input = array(vec![signed(1), signed(2), signed(3)]);
    let basic = generate_schema(&input, &SchemaOutputTier::Basic).unwrap();
    assert_eq!(keys(&basic), vec!["type", "items"]);
    let standard = generate_schema(&input, &SchemaOutputTier::Standard).unwrap();
    assert_eq!(keys(&standard), vec!["type", "items", "minItems"]);
    assert!(standard.get("maxItems").is_none());
    let comprehensive = generate_schema(&input, &SchemaOutputTier::Comprehensive).unwrap();
    assert_eq!(keys(&comprehensive), vec!["type", "items", "minItems", "maxItems"]);
    assert_eq!(comprehensive.get("minItems"), Some(&unsigned(1)));
    assert_eq!(comprehensive.get("maxItems"), Some(&unsigned(6)));
    let expert = generate_schema(&input, &SchemaOutputTier::Expert).unwrap();
    assert_eq!(
        keys(&expert),
        vec!["type", "items", "minItems", "maxItems", "uniqueItems", "title", "description"]
    );
    assert_eq!(expert.get("maxItems"), Some(&unsigned(6)));
    assert_eq!(expert.get("title"), Some(&text("Generated Array Schema")));
    assert_eq!(
        expert.get("description"),
        Some(&text("Auto-generated array schema from JSON data"))
    );
}

#[test]
fn unique_items_is_set_whatever_the_items_are() {
    let input = array(vec![signed(7), signed(7)]);
    let doc = generate_schema(&input, &SchemaOutputTier::Expert).unwrap();
    assert_eq!(doc.get("uniqueItems"), Some(&JsonValue::Bool(true)));
    assert_eq!(doc.get("maxItems"), Some(&unsigned(4)));
}

#[test]
fn email_at_expert_tier() {
    let doc = generate_schema(&text("john@example.com"), &SchemaOutputTier::Expert).unwrap();
    let expected = object(vec![
        ("type", text("string")),
        ("minLength", unsigned(0)),
        ("maxLength", unsigned(32)),
        ("examples", array(vec![text("john@example.com")])),
        ("format", text("email")),
        ("title", text("Generated String Schema")),
    ]);
    assert_eq!(doc, expected);
}

#[test]
fn string_format_goes_by_priority() {
    let tier = SchemaOutputTier::Expert;
    let email_and_uri = generate_schema(&text("http://john@example.com"), &tier).unwrap();
    assert_eq!(email_and_uri.get("format"), Some(&text("email")));
    assert!(email_and_uri.get("pattern").is_none());

    let uri = generate_schema(&text("https://example"), &tier).unwrap();
    assert_eq!(uri.get("format"), Some(&text("uri")));
    assert!(uri.get("pattern").is_none());

    let digits = generate_schema(&text("123-456 7890"), &tier).unwrap();
    assert!(digits.get("format").is_none());
    assert_eq!(digits.get("pattern"), Some(&text(r"^[\d\-\s]+$")));

    let at_only = generate_schema(&text("john@example"), &tier).unwrap();
    assert!(at_only.get("format").is_none());
    assert!(at_only.get("pattern").is_none());

    let plain = generate_schema(&text("hello"), &tier).unwrap();
    assert_eq!(keys(&plain), vec!["type", "minLength", "maxLength", "examples", "title"]);

    let comprehensive =
        generate_schema(&text("john@example.com"), &SchemaOutputTier::Comprehensive).unwrap();
    assert!(comprehensive.get("format").is_none());
    assert_eq!(keys(&comprehensive), vec!["type", "minLength", "maxLength", "examples"]);
}

#[test]
fn empty_string_has_no_examples() {
    let comprehensive = generate_schema(&text(""), &SchemaOutputTier::Comprehensive).unwrap();
    assert_eq!(
        comprehensive,
        object(vec![
            ("type", text("string")),
            ("minLength", unsigned(0)),
            ("maxLength", unsigned(0)),
        ])
    );
    let expert = generate_schema(&text(""), &SchemaOutputTier::Expert).unwrap();
    assert_eq!(
        expert,
        object(vec![
            ("type", text("string")),
            ("minLength", unsigned(0)),
            ("maxLength", unsigned(0)),
            ("pattern", text(r"^[\d\-\s]+$")),
            ("title", text("Generated String Schema")),
        ])
    );
}

#[test]
fn empty_string_at_expert_tier_gets_the_pattern() {
    let doc = generate_schema(&text(""), &SchemaOutputTier::Expert).unwrap();
    assert_eq!(doc.get("pattern"), Some(&text(r"^[\d\-\s]+$")));
    assert!(doc.get("format").is_none());
    assert!(doc.get("examples").is_none());
    assert_eq!(keys(&doc), vec!["type", "minLength", "maxLength", "pattern", "title"]);
    let direct = generate_string_schema(&text(""), &SchemaOutputTier::Expert).unwrap();
    assert_eq!(direct, doc);
}

#[test]
fn strings_always_have_a_document() {
    let long = "ab".repeat(5000);
    for tier in TIERS.iter() {
        assert!(generate_string_schema(&text(&long), tier).is_ok());
        assert!(generate_string_schema(&text(""), tier).is_ok());
    }
    let doc = generate_schema(&text(&long), &SchemaOutputTier::Expert).unwrap();
    assert_eq!(doc.get("maxLength"), Some(&unsigned(20000)));
}

#[test]
fn max_length_counts_bytes() {
    let doc = generate_schema(&text("h\u{e9}llo"), &SchemaOutputTier::Comprehensive).unwrap();
    assert_eq!(doc.get("maxLength"), Some(&unsigned(12)));
}

#[test]
fn string_tiers() {
    let basic = generate_schema(&text("abc"), &SchemaOutputTier::Basic).unwrap();
    assert_eq!(basic, object(vec![("type", text("string"))]));
    let standard = generate_schema(&text("abc"), &SchemaOutputTier::Standard).unwrap();
    assert_eq!(standard, object(vec![("type", text("string")), ("minLength", unsigned(0))]));
}

#[test]
fn string_generator_on_another_kind_gives_the_bare_type() {
    for tier in TIERS.iter() {
        let doc = generate_string_schema(&signed(1), tier).unwrap();
        assert_eq!(doc, object(vec![("type", text("string"))]));
        let doc = generate_boolean_schema(&text("true"), tier).unwrap();
        assert_eq!(doc, object(vec![("type", text("boolean"))]));
    }
}

#[test]
fn bounds_of_forty_two() {
    for tier in [SchemaOutputTier::Comprehensive, SchemaOutputTier::Expert].iter() {
        let doc = generate_schema(&signed(42), tier).unwrap();
        assert_eq!(doc.get("minimum"), Some(&signed(-958)));
        assert_eq!(doc.get("maximum"), Some(&signed(1042)));
        assert_eq!(doc.get("examples"), Some(&array(vec![signed(42)])));
    }
}

#[test]
fn integer_tiers() {
    let n = NumericValue::Integer(42);
    let basic = generate_number_schema(&n, &SchemaOutputTier::Basic).unwrap();
    assert_eq!(basic, object(vec![("type", text("integer"))]));
    let standard = generate_number_schema(&n, &SchemaOutputTier::Standard).unwrap();
    assert_eq!(standard, object(vec![("type", text("integer")), ("minimum", signed(42))]));
    let expert = generate_number_schema(&n, &SchemaOutputTier::Expert).unwrap();
    assert_eq!(
        expert,
        object(vec![
            ("type", text("integer")),
            ("examples", array(vec![signed(42)])),
            ("minimum", signed(-958)),
            ("maximum", signed(1042)),
            ("multipleOf", signed(1)),
            ("title", text("Generated Integer Schema")),
        ])
    );
}

#[test]
fn float_bounds_move_the_offset() {
    let bits = 42.5f64.to_bits();
    let doc = generate_schema(&float(42.5), &SchemaOutputTier::Expert).unwrap();
    assert_eq!(
        doc,
        object(vec![
            ("type", text("number")),
            ("examples", array(vec![float(42.5)])),
            ("minimum", JsonValue::Number(NumericValue::Float { bits, offset: -1000 })),
            ("maximum", JsonValue::Number(NumericValue::Float { bits, offset: 1000 })),
            ("title", text("Generated Number Schema")),
        ])
    );
    let standard = generate_schema(&float(42.5), &SchemaOutputTier::Standard).unwrap();
    assert_eq!(standard.get("minimum"), Some(&float(42.5)));
}

#[test]
fn whole_float_is_a_number() {
    let doc = generate_schema(&float(42.0), &SchemaOutputTier::Basic).unwrap();
    assert_eq!(doc, object(vec![("type", text("number"))]));
}

#[test]
fn large_unsigned_is_an_integer() {
    let big: u64 = 1 << 63;
    let doc = generate_schema(&unsigned(big + 5), &SchemaOutputTier::Expert).unwrap();
    assert_eq!(doc.get("type"), Some(&text("integer")));
    assert_eq!(doc.get("minimum"), Some(&unsigned(big + 5 - 1000)));
    assert_eq!(doc.get("maximum"), Some(&unsigned(big + 5 + 1000)));
    assert_eq!(doc.get("multipleOf"), Some(&signed(1)));
    assert_eq!(doc.get("title"), Some(&text("Generated Integer Schema")));
}

#[test]
fn bounds_may_fall_below_zero() {
    let doc = generate_schema(&unsigned(42), &SchemaOutputTier::Comprehensive).unwrap();
    assert_eq!(doc.get("minimum"), Some(&signed(-958)));
    assert_eq!(doc.get("maximum"), Some(&signed(1042)));
}

#[test]
fn whole_number_beyond_both_ranges_is_a_number() {
    let wide = u64::MAX as i128 + 1;
    let value = JsonValue::Number(NumericValue::Integer(wide));
    let basic = generate_schema(&value, &SchemaOutputTier::Basic).unwrap();
    assert_eq!(basic, object(vec![("type", text("number"))]));
    let expert = generate_schema(&value, &SchemaOutputTier::Expert).unwrap();
    assert_eq!(
        expert,
        object(vec![
            ("type", text("number")),
            ("examples", array(vec![JsonValue::Number(NumericValue::Integer(wide))])),
            ("minimum", JsonValue::Number(NumericValue::Integer(wide - 1000))),
            ("maximum", JsonValue::Number(NumericValue::Integer(wide + 1000))),
            ("title", text("Generated Number Schema")),
        ])
    );
    let low = JsonValue::Number(NumericValue::Integer(i64::MIN as i128 - 1));
    let doc = generate_schema(&low, &SchemaOutputTier::Comprehensive).unwrap();
    assert_eq!(doc.get("type"), Some(&text("number")));
    assert_eq!(
        doc.get("minimum"),
        Some(&JsonValue::Number(NumericValue::Integer(i64::MIN as i128 - 1001)))
    );
    let last = JsonValue::Number(NumericValue::Integer(i128::MAX));
    assert_eq!(
        generate_schema(&last, &SchemaOutputTier::Comprehensive),
        Err(SchemaError::NumericRangeOverflow)
    );
    assert!(generate_schema(&last, &SchemaOutputTier::Standard).is_ok());
}

#[test]
fn bounds_that_overflow_are_reported() {
    let near_limits = vec![
        signed(i64::MAX),
        signed(i64::MAX - 999),
        signed(i64::MIN),
        signed(i64::MIN + 999),
        unsigned(u64::MAX),
        unsigned(u64::MAX - 999),
        unsigned(i64::MAX as u64),
        JsonValue::Number(NumericValue::Float { bits: 0, offset: i64::MAX }),
        JsonValue::Number(NumericValue::Float { bits: 0, offset: i64::MIN + 10 }),
    ];
    for value in near_limits.iter() {
        for tier in [SchemaOutputTier::Comprehensive, SchemaOutputTier::Expert].iter() {
            assert_eq!(generate_schema(value, tier), Err(SchemaError::NumericRangeOverflow));
        }
        for tier in [SchemaOutputTier::Basic, SchemaOutputTier::Standard].iter() {
            assert!(generate_schema(value, tier).is_ok());
        }
    }
    let at_limits = vec![
        signed(i64::MAX - 1000),
        signed(i64::MIN + 1000),
        unsigned(u64::MAX - 1000),
        unsigned(i64::MAX as u64 + 1),
    ];
    for value in at_limits.iter() {
        assert!(generate_schema(value, &SchemaOutputTier::Expert).is_ok());
    }
    let doc = generate_schema(&signed(i64::MAX - 1000), &SchemaOutputTier::Expert).unwrap();
    assert_eq!(doc.get("maximum"), Some(&signed(i64::MAX)));
}

#[test]
fn overflow_inside_a_value_is_reported() {
    let nested = object(vec![("list", array(vec![text("a"), signed(i64::MAX)]))]);
    assert_eq!(
        generate_schema(&nested, &SchemaOutputTier::Comprehensive),
        Err(SchemaError::NumericRangeOverflow)
    );
    assert!(generate_schema(&nested, &SchemaOutputTier::Standard).is_ok());
}

#[test]
fn overflow_behind_the_first_item_of_a_homogeneous_array_goes_unseen() {
    let input = array(vec![signed(1), signed(i64::MAX)]);
    assert!(generate_schema(&input, &SchemaOutputTier::Expert).is_ok());
    let input = array(vec![signed(i64::MAX), signed(1)]);
    assert_eq!(
        generate_schema(&input, &SchemaOutputTier::Expert),
        Err(SchemaError::NumericRangeOverflow)
    );
}

#[test]
fn boolean_tiers() {
    let value = JsonValue::Bool(false);
    let bare = object(vec![("type", text("boolean"))]);
    assert_eq!(generate_schema(&value, &SchemaOutputTier::Basic).unwrap(), bare);
    assert_eq!(generate_schema(&value, &SchemaOutputTier::Standard).unwrap(), bare);
    assert_eq!(
        generate_schema(&value, &SchemaOutputTier::Comprehensive).unwrap(),
        object(vec![
            ("type", text("boolean")),
            ("examples", array(vec![JsonValue::Bool(false)])),
        ])
    );
    assert_eq!(
        generate_schema(&value, &SchemaOutputTier::Expert).unwrap(),
        object(vec![
            ("type", text("boolean")),
            ("examples", array(vec![JsonValue::Bool(false)])),
            ("title", text("Generated Boolean Schema")),
            ("description", text("Boolean value from JSON data")),
        ])
    );
}

#[test]
fn generation_leaves_the_input_as_it_was() {
    let input = person();
    let before = input.clone();
    let first = generate_schema(&input, &SchemaOutputTier::Expert).unwrap();
    let second = generate_schema(&input, &SchemaOutputTier::Expert).unwrap();
    assert_eq!(input, before);
    assert_eq!(first, second);
}

#[test]
fn error_message() {
    assert_eq!(
        SchemaError::NumericRangeOverflow.message(),
        "a numeric bound of the schema does not fit its integer type"
    );
}
