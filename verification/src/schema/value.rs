//! The JSON value model that schema inference reads and writes.
//!
//! A schema document is itself a JSON object, so one tree type serves as both
//! the input of inference and its output. Contracts speak about values through
//! their mathematical view, [`JsonView`].

use vstd::prelude::*;

verus! {

/// Top-level kind tag of a JSON value.
#[derive(Debug, Clone, Copy, PartialEq, Eq, Hash, Structural)]
pub enum JsonKind {
    Object,
    Array,
    String,
    Number,
    Boolean,
    Null,
}

/// A JSON number.
///
/// Whole numbers are held exactly. A number read from JSON text is whole when
/// a signed or an unsigned 64-bit integer holds it; the wider field leaves
/// room for what is computed from such numbers and from lengths.
/// Every other number is held as the bit pattern of a binary64 value together
/// with a whole-number displacement: the number denoted is the binary64 value
/// plus `offset`. The library never performs floating-point arithmetic; it only
/// moves the displacement, and whoever renders the number folds it in.
#[derive(Debug, Clone, Copy)]
pub enum NumericValue {
    Integer(i128),
    Float { bits: u64, offset: i64 },
}

/// A JSON value: the input of schema inference, and the shape of its output.
///
/// An object is an ordered list of entries; the order of the list is the order
/// in which the keys are rendered.
#[derive(Debug)]
pub enum JsonValue {
    Null,
    Bool(bool),
    Number(NumericValue),
    String(String),
    Array(Vec<JsonValue>),
    Object(Vec<(String, JsonValue)>),
}

/// Mathematical view of a [`NumericValue`].
pub enum NumberView {
    /// A whole number.
    Integer(int),
    /// The binary64 value with bit pattern `bits`, plus `offset`.
    Float { bits: int, offset: int },
}

/// Mathematical view of one entry of an object: a key and the value under it.
pub struct EntryView {
    pub key: Seq<char>,
    pub value: JsonView,
}

/// Mathematical view of a [`JsonValue`].
pub enum JsonView {
    Null,
    Bool(bool),
    Number(NumberView),
    String(Seq<char>),
    Array(Seq<JsonView>),
    Object(Seq<EntryView>),
}

impl NumberView {
    /// Whether the number is one that a signed or an unsigned 64-bit integer
    /// holds. Every other number takes a floating representation.
    pub open spec fn is_integer(self) -> bool {
        self matches NumberView::Integer(v) && i64::MIN <= v <= u64::MAX
    }
}

impl View for NumericValue {
    type V = NumberView;

    open spec fn view(&self) -> NumberView {
        match *self {
            NumericValue::Integer(v) => NumberView::Integer(v as int),
            NumericValue::Float { bits, offset } => NumberView::Float {
                bits: bits as int,
                offset: offset as int,
            },
        }
    }
}

impl PartialEq for NumericValue {
    /// Two numbers are equal when they have the same view.
    fn eq(&self, other: &Self) -> (r: bool) {
        match (self, other) {
            (NumericValue::Integer(a), NumericValue::Integer(b)) => *a == *b,
            (
                NumericValue::Float { bits: a, offset: x },
                NumericValue::Float { bits: b, offset: y },
            ) => *a == *b && *x == *y,
            _ => false,
        }
    }
}

impl vstd::std_specs::cmp::PartialEqSpecImpl for NumericValue {
    open spec fn obeys_eq_spec() -> bool {
        true
    }

    open spec fn eq_spec(&self, other: &Self) -> bool {
        self@ == other@
    }
}

impl Eq for NumericValue {

}

impl View for JsonValue {
    type V = JsonView;

    open spec fn view(&self) -> JsonView
        decreases self,
    {
        match self {
            JsonValue::Null => JsonView::Null,
            JsonValue::Bool(b) => JsonView::Bool(*b),
            JsonValue::Number(n) => JsonView::Number(n@),
            JsonValue::String(s) => JsonView::String(s@),
            JsonValue::Array(items) => JsonView::Array(
                Seq::new(
                    items.len() as nat,
                    |i: int|
                        if 0 <= i < items.len() {
                            items[i]@
                        } else {
                            JsonView::Null
                        },
                ),
            ),
            JsonValue::Object(entries) => JsonView::Object(
                Seq::new(
                    entries.len() as nat,
                    |i: int|
                        if 0 <= i < entries.len() {
                            EntryView { key: entries[i].0@, value: entries[i].1@ }
                        } else {
                            EntryView { key: Seq::empty(), value: JsonView::Null }
                        },
                ),
            ),
        }
    }
}

/// Views of the items of an array, in order.
pub open spec fn items_view(items: Seq<JsonValue>) -> Seq<JsonView> {
    Seq::new(items.len(), |i: int| items[i]@)
}

/// Views of the entries of an object, in order.
pub open spec fn entries_view(entries: Seq<(String, JsonValue)>) -> Seq<EntryView> {
    Seq::new(entries.len(), |i: int| EntryView { key: entries[i].0@, value: entries[i].1@ })
}

/// The view of an array is the sequence of the views of its items.
pub proof fn lemma_array_view(items: Vec<JsonValue>)
    ensures
        JsonValue::Array(items)@ == JsonView::Array(items_view(items@)),
{
    assert(JsonValue::Array(items)@->Array_0 =~= items_view(items@));
}

/// The view of an object is the sequence of the views of its entries.
pub proof fn lemma_object_view(entries: Vec<(String, JsonValue)>)
    ensures
        JsonValue::Object(entries)@ == JsonView::Object(entries_view(entries@)),
{
    assert(JsonValue::Object(entries)@->Object_0 =~= entries_view(entries@));
}

/// Kind tag of a value, read off its view.
pub open spec fn kind_of(v: JsonView) -> JsonKind {
    match v {
        JsonView::Null => JsonKind::Null,
        JsonView::Bool(_) => JsonKind::Boolean,
        JsonView::Number(_) => JsonKind::Number,
        JsonView::String(_) => JsonKind::String,
        JsonView::Array(_) => JsonKind::Array,
        JsonView::Object(_) => JsonKind::Object,
    }
}

/// The value under `key` among `fields`: of several fields with that key, the
/// last.
pub open spec fn lookup(fields: Seq<EntryView>, key: Seq<char>) -> Option<JsonView>
    decreases fields.len(),
{
    if fields.len() == 0 {
        None
    } else if fields.last().key == key {
        Some(fields.last().value)
    } else {
        lookup(fields.drop_last(), key)
    }
}

/// The value under `key` in `doc`; none where `doc` is no object.
pub open spec fn field(doc: JsonView, key: Seq<char>) -> Option<JsonView> {
    match doc {
        JsonView::Object(fields) => lookup(fields, key),
        _ => None,
    }
}

/// The set of the keys of `doc`; empty where `doc` is no object.
pub open spec fn field_names(doc: JsonView) -> Set<Seq<char>> {
    Set::new(|key: Seq<char>| field(doc, key) is Some)
}

/// Looking a key up after one more field was appended.
pub proof fn lemma_lookup_push(fields: Seq<EntryView>, last: EntryView, key: Seq<char>)
    ensures
        lookup(fields.push(last), key) == if last.key == key {
            Some(last.value)
        } else {
            lookup(fields, key)
        },
{
    assert(fields.push(last).drop_last() =~= fields);
}

/// A key is found exactly when some field has it.
pub proof fn lemma_lookup_found(fields: Seq<EntryView>, key: Seq<char>)
    ensures
        lookup(fields, key) is Some <==> exists|i: int|
            0 <= i < fields.len() && (#[trigger] fields[i]).key == key,
    decreases fields.len(),
{
    if fields.len() > 0 {
        let rest = fields.drop_last();
        lemma_lookup_found(rest, key);
        if fields.last().key == key {
            assert(fields[fields.len() - 1].key == key);
        } else if lookup(rest, key) is Some {
            let i = choose|i: int| 0 <= i < rest.len() && (#[trigger] rest[i]).key == key;
            assert(fields[i].key == key);
        } else if exists|i: int| 0 <= i < fields.len() && (#[trigger] fields[i]).key == key {
            let i = choose|i: int| 0 <= i < fields.len() && (#[trigger] fields[i]).key == key;
            assert(rest[i].key == key);
        }
    }
}

/// Whether no key occurs twice in any object of `v`, at any depth.
pub open spec fn has_unique_keys(v: JsonView) -> bool
    decreases v,
{
    match v {
        JsonView::Array(items) => forall|i: int|
            0 <= i < items.len() ==> has_unique_keys(#[trigger] items[i]),
        JsonView::Object(fields) => {
            &&& forall|i: int, j: int|
                0 <= i < j < fields.len() ==> (#[trigger] fields[i]).key != (
                #[trigger] fields[j]).key
            &&& forall|i: int|
                0 <= i < fields.len() ==> has_unique_keys((#[trigger] fields[i]).value)
        },
        _ => true,
    }
}

impl JsonValue {
    /// The top-level kind of this value.
    pub fn kind(&self) -> (k: JsonKind)
        ensures
            k == kind_of(self@),
    {
        match self {
            JsonValue::Null => JsonKind::Null,
            JsonValue::Bool(_) => JsonKind::Boolean,
            JsonValue::Number(_) => JsonKind::Number,
            JsonValue::String(_) => JsonKind::String,
            JsonValue::Array(_) => JsonKind::Array,
            JsonValue::Object(_) => JsonKind::Object,
        }
    }
}

impl JsonKind {
    /// The tag of the kind, as a sequence of characters.
    pub open spec fn tag(self) -> Seq<char> {
        match self {
            JsonKind::Object => "object"@,
            JsonKind::Array => "array"@,
            JsonKind::String => "string"@,
            JsonKind::Number => "number"@,
            JsonKind::Boolean => "boolean"@,
            JsonKind::Null => "null"@,
        }
    }

    /// The tag of the kind.
    pub fn name(&self) -> (name: &'static str)
        ensures
            name@ == self.tag(),
    {
        match self {
            JsonKind::Object => "object",
            JsonKind::Array => "array",
            JsonKind::String => "string",
            JsonKind::Number => "number",
            JsonKind::Boolean => "boolean",
            JsonKind::Null => "null",
        }
    }
}

impl NumericValue {
    /// The number that reads as `signed` when taken as a signed 64-bit
    /// integer, as `unsigned` when taken as an unsigned one, and that has the
    /// binary64 bit pattern `float_bits` when taken as a floating number.
    ///
    /// A number is whole exactly when one of the two integer readings exists;
    /// the signed reading is preferred. Any other number is floating, with no
    /// displacement.
    pub fn from_parts(signed: Option<i64>, unsigned: Option<u64>, float_bits: u64) -> (n: Self)
        ensures
            n@ == (match signed {
                Some(v) => NumberView::Integer(v as int),
                None => match unsigned {
                    Some(v) => NumberView::Integer(v as int),
                    None => NumberView::Float { bits: float_bits as int, offset: 0 },
                },
            }),
            n@.is_integer() <==> signed is Some || unsigned is Some,
    {
        match signed {
            Some(v) => NumericValue::Integer(v as i128),
            None => match unsigned {
                Some(v) => NumericValue::Integer(v as i128),
                None => NumericValue::Float { bits: float_bits, offset: 0 },
            },
        }
    }

    /// Whether the number is one that a signed or an unsigned 64-bit integer
    /// holds.
    pub fn is_integer(&self) -> (b: bool)
        ensures
            b == self@.is_integer(),
    {
        match self {
            NumericValue::Integer(v) => {
                -0x8000_0000_0000_0000 <= *v && *v <= 0xffff_ffff_ffff_ffff
            },
            NumericValue::Float { .. } => false,
        }
    }

    /// The number as a signed 64-bit integer, where it is a whole number in
    /// that range.
    pub fn as_i64(&self) -> (r: Option<i64>)
        ensures
            r is Some <==> (self@ matches NumberView::Integer(v) && i64::MIN <= v <= i64::MAX),
            r matches Some(v) ==> self@ == NumberView::Integer(v as int),
    {
        match self {
            NumericValue::Integer(v) => {
                if -0x8000_0000_0000_0000 <= *v && *v <= 0x7fff_ffff_ffff_ffff {
                    Some(*v as i64)
                } else {
                    None
                }
            },
            NumericValue::Float { .. } => None,
        }
    }

    /// The number as an unsigned 64-bit integer, where it is a whole number in
    /// that range.
    pub fn as_u64(&self) -> (r: Option<u64>)
        ensures
            r is Some <==> (self@ matches NumberView::Integer(v) && 0 <= v <= u64::MAX),
            r matches Some(v) ==> self@ == NumberView::Integer(v as int),
    {
        match self {
            NumericValue::Integer(v) => {
                if 0 <= *v && *v <= 0xffff_ffff_ffff_ffff {
                    Some(*v as u64)
                } else {
                    None
                }
            },
            NumericValue::Float { .. } => None,
        }
    }
}

impl JsonValue {
    /// Whether the value is `null`.
    pub fn is_null(&self) -> (b: bool)
        ensures
            b == (self@ is Null),
    {
        match self {
            JsonValue::Null => true,
            _ => false,
        }
    }

    /// Whether the value is an object.
    pub fn is_object(&self) -> (b: bool)
        ensures
            b == (self@ is Object),
    {
        match self {
            JsonValue::Object(_) => true,
            _ => false,
        }
    }

    /// Whether the value is an array.
    pub fn is_array(&self) -> (b: bool)
        ensures
            b == (self@ is Array),
    {
        match self {
            JsonValue::Array(_) => true,
            _ => false,
        }
    }

    /// The boolean that the value is, if it is one.
    pub fn as_bool(&self) -> (r: Option<bool>)
        ensures
            r == (match self@ {
                JsonView::Bool(b) => Some(b),
                _ => None,
            }),
    {
        match self {
            JsonValue::Bool(b) => Some(*b),
            _ => None,
        }
    }

    /// The number that the value is, if it is one.
    pub fn as_number(&self) -> (r: Option<NumericValue>)
        ensures
            r is Some <==> self@ is Number,
            r matches Some(n) ==> self@ == JsonView::Number(n@),
    {
        match self {
            JsonValue::Number(n) => Some(*n),
            _ => None,
        }
    }

    /// The string that the value is, if it is one.
    pub fn as_str(&self) -> (r: Option<&str>)
        ensures
            r is Some <==> self@ is String,
            r matches Some(s) ==> self@ == JsonView::String(s@),
    {
        match self {
            JsonValue::String(s) => Some(s.as_str()),
            _ => None,
        }
    }

    /// The items of the array that the value is, if it is one.
    pub fn as_array(&self) -> (r: Option<&Vec<JsonValue>>)
        ensures
            r is Some <==> self@ is Array,
            r matches Some(items) ==> self@ == JsonView::Array(items_view(items@)),
    {
        match self {
            JsonValue::Array(items) => {
                proof {
                    lemma_array_view(*items);
                }
                Some(items)
            },
            _ => None,
        }
    }

    /// The entries of the object that the value is, if it is one.
    pub fn as_object(&self) -> (r: Option<&Vec<(String, JsonValue)>>)
        ensures
            r is Some <==> self@ is Object,
            r matches Some(entries) ==> self@ == JsonView::Object(entries_view(entries@)),
    {
        match self {
            JsonValue::Object(entries) => {
                proof {
                    lemma_object_view(*entries);
                }
                Some(entries)
            },
            _ => None,
        }
    }

    /// Whether no key occurs twice in any object of this value, at any depth.
    pub fn keys_are_unique(&self) -> (b: bool)
        ensures
            b == has_unique_keys(self@),
        decreases self,
    {
        match self {
            JsonValue::Array(items) => {
                proof {
                    lemma_array_view(*items);
                }
                let mut i: usize = 0;
                while i < items.len()
                    invariant
                        i <= items.len(),
                        *self == JsonValue::Array(*items),
                        self@ == JsonView::Array(items_view(items@)),
                        forall|j: int| 0 <= j < i ==> has_unique_keys(#[trigger] items[j]@),
                    decreases items.len() - i,
                {
                    proof {
                        assert(self->Array_0 == *items);
                        assert(decreases_to!(*items => items[i as int]));
                    }
                    if !items[i].keys_are_unique() {
                        proof {
                            let views = items_view(items@);
                            assert(views[i as int] == items[i as int]@);
                            assert(0 <= i < views.len() && !has_unique_keys(views[i as int]));
                            assert(self@->Array_0 == views);
                        }
                        return false;
                    }
                    i += 1;
                }
                assert forall|j: int| 0 <= j < items.len() implies has_unique_keys(
                    #[trigger] items_view(items@)[j],
                ) by {
                    assert(has_unique_keys(items[j]@));
                }
                true
            },
            JsonValue::Object(entries) => {
                proof {
                    lemma_object_view(*entries);
                }
                let ghost fields = entries_view(entries@);
                let mut i: usize = 0;
                while i < entries.len()
                    invariant
                        i <= entries.len(),
                        *self == JsonValue::Object(*entries),
                        fields == entries_view(entries@),
                        self@ == JsonView::Object(fields),
                        forall|j: int| 0 <= j < i ==> has_unique_keys((#[trigger] fields[j]).value),
                        forall|a: int, b: int|
                            0 <= a < b < i ==> (#[trigger] fields[a]).key != (
                            #[trigger] fields[b]).key,
                    decreases entries.len() - i,
                {
                    proof {
                        assert(self->Object_0 == *entries);
                        assert(decreases_to!(*entries => entries[i as int]));
                        assert(decreases_to!(entries[i as int] => entries[i as int].1));
                    }
                    if !entries[i].1.keys_are_unique() {
                        assert(!has_unique_keys(fields[i as int].value));
                        return false;
                    }
                    let mut j: usize = 0;
                    while j < i
                        invariant
                            j <= i < entries.len(),
                            fields == entries_view(entries@),
                            self@ == JsonView::Object(fields),
                            forall|a: int|
                                0 <= a < j ==> (#[trigger] fields[a]).key != fields[i as int].key,
                        decreases i - j,
                    {
                        if entries[j].0 == entries[i].0 {
                            assert(fields[j as int].key == fields[i as int].key);
                            return false;
                        }
                        j += 1;
                    }
                    i += 1;
                }
                true
            },
            _ => true,
        }
    }

    /// The value under `key`, if this is an object that has the key: of
    /// several entries with the key, the last.
    pub fn get(&self, key: &str) -> (r: Option<&JsonValue>)
        ensures
            r is Some <==> field(self@, key@) is Some,
            r matches Some(v) ==> field(self@, key@) == Some(v@),
    {
        match self {
            JsonValue::Object(entries) => {
                proof {
                    lemma_object_view(*entries);
                }
                let wanted = key.to_string();
                let ghost fields = entries_view(entries@);
                let mut i: usize = entries.len();
                assert(fields.take(i as int) =~= fields);
                while i > 0
                    invariant
                        i <= entries.len(),
                        wanted@ == key@,
                        fields == entries_view(entries@),
                        self@ == JsonView::Object(fields),
                        lookup(fields, key@) == lookup(fields.take(i as int), key@),
                    decreases i,
                {
                    i -= 1;
                    proof {
                        assert(fields.take(i + 1).drop_last() =~= fields.take(i as int));
                        assert(fields.take(i + 1).last() == fields[i as int]);
                    }
                    if entries[i].0 == wanted {
                        return Some(&entries[i].1);
                    }
                }
                None
            },
            _ => None,
        }
    }
}

impl PartialEq for JsonValue {
    /// Two values are equal when they have the same view.
    fn eq(&self, other: &Self) -> (r: bool)
        decreases self,
    {
        match (self, other) {
            (JsonValue::Null, JsonValue::Null) => true,
            (JsonValue::Bool(a), JsonValue::Bool(b)) => *a == *b,
            (JsonValue::Number(a), JsonValue::Number(b)) => *a == *b,
            (JsonValue::String(a), JsonValue::String(b)) => *a == *b,
            (JsonValue::Array(a), JsonValue::Array(b)) => {
                proof {
                    lemma_array_view(*a);
                    lemma_array_view(*b);
                }
                if a.len() != b.len() {
                    assert(items_view(a@).len() != items_view(b@).len());
                    return false;
                }
                let mut i: usize = 0;
                while i < a.len()
                    invariant
                        i <= a.len(),
                        a.len() == b.len(),
                        *self == JsonValue::Array(*a),
                        self@ == JsonView::Array(items_view(a@)),
                        other@ == JsonView::Array(items_view(b@)),
                        forall|j: int| 0 <= j < i ==> a[j]@ == b[j]@,
                    decreases a.len() - i,
                {
                    proof {
                        assert(self->Array_0 == *a);
                        assert(decreases_to!(*a => a[i as int]));
                    }
                    if !(a[i] == b[i]) {
                        proof {
                            assert(items_view(a@)[i as int] == a[i as int]@);
                            assert(items_view(b@)[i as int] == b[i as int]@);
                        }
                        return false;
                    }
                    i += 1;
                }
                assert(items_view(a@) =~= items_view(b@));
                true
            },
            (JsonValue::Object(a), JsonValue::Object(b)) => {
                proof {
                    lemma_object_view(*a);
                    lemma_object_view(*b);
                }
                if a.len() != b.len() {
                    assert(entries_view(a@).len() != entries_view(b@).len());
                    return false;
                }
                let mut i: usize = 0;
                while i < a.len()
                    invariant
                        i <= a.len(),
                        a.len() == b.len(),
                        *self == JsonValue::Object(*a),
                        self@ == JsonView::Object(entries_view(a@)),
                        other@ == JsonView::Object(entries_view(b@)),
                        forall|j: int|
                            0 <= j < i ==> a[j].0@ == b[j].0@ && a[j].1@ == b[j].1@,
                    decreases a.len() - i,
                {
                    proof {
                        assert(self->Object_0 == *a);
                        assert(decreases_to!(*a => a[i as int]));
                        assert(decreases_to!(a[i as int] => a[i as int].1));
                    }
                    if !(a[i].0 == b[i].0) || !(a[i].1 == b[i].1) {
                        proof {
                            assert(entries_view(a@)[i as int].key == a[i as int].0@);
                            assert(entries_view(b@)[i as int].key == b[i as int].0@);
                            assert(entries_view(a@)[i as int].value == a[i as int].1@);
                            assert(entries_view(b@)[i as int].value == b[i as int].1@);
                        }
                        return false;
                    }
                    i += 1;
                }
                assert(entries_view(a@) =~= entries_view(b@));
                true
            },
            _ => false,
        }
    }
}

impl vstd::std_specs::cmp::PartialEqSpecImpl for JsonValue {
    open spec fn obeys_eq_spec() -> bool {
        true
    }

    open spec fn eq_spec(&self, other: &Self) -> bool {
        self@ == other@
    }
}

impl Eq for JsonValue {

}

impl Clone for JsonValue {
    /// A deep copy: the clone has the same view as the value it is made from.
    fn clone(&self) -> (r: Self)
        ensures
            r@ == self@,
        decreases self,
    {
        match self {
            JsonValue::Null => JsonValue::Null,
            JsonValue::Bool(b) => JsonValue::Bool(*b),
            JsonValue::Number(n) => JsonValue::Number(*n),
            JsonValue::String(s) => JsonValue::String(s.clone()),
            JsonValue::Array(items) => {
                let mut out: Vec<JsonValue> = Vec::new();
                let mut i: usize = 0;
                while i < items.len()
                    invariant
                        i <= items.len(),
                        out.len() == i,
                        *self == JsonValue::Array(*items),
                        forall|j: int| 0 <= j < i ==> out[j]@ == items[j]@,
                    decreases items.len() - i,
                {
                    proof {
                        assert(self->Array_0 == *items);
                        assert(decreases_to!(*items => items[i as int]));
                    }
                    let item = items[i].clone();
                    out.push(item);
                    i += 1;
                }
                proof {
                    lemma_array_view(out);
                    lemma_array_view(*items);
                    assert(items_view(out@) =~= items_view(items@));
                }
                JsonValue::Array(out)
            },
            JsonValue::Object(entries) => {
                let mut out: Vec<(String, JsonValue)> = Vec::new();
                let mut i: usize = 0;
                while i < entries.len()
                    invariant
                        i <= entries.len(),
                        out.len() == i,
                        *self == JsonValue::Object(*entries),
                        forall|j: int|
                            0 <= j < i ==> out[j].0@ == entries[j].0@ && out[j].1@ == entries[j].1@,
                    decreases entries.len() - i,
                {
                    proof {
                        assert(self->Object_0 == *entries);
                        assert(decreases_to!(*entries => entries[i as int]));
                        assert(decreases_to!(entries[i as int] => entries[i as int].1));
                    }
                    let key = entries[i].0.clone();
                    let value = entries[i].1.clone();
                    out.push((key, value));
                    i += 1;
                }
                proof {
                    lemma_object_view(out);
                    lemma_object_view(*entries);
                    assert(entries_view(out@) =~= entries_view(entries@));
                }
                JsonValue::Object(out)
            },
        }
    }
}

} // verus!
