//! Heuristics over values: string format sniffing and array homogeneity.

use super::value::{items_view, kind_of, JsonKind, JsonValue, JsonView};
use vstd::prelude::*;

verus! {

/// The format a string is taken to have: `email` when it holds both an `@` and
/// a `.`; otherwise `uri` when it starts with `http`; otherwise none.
pub open spec fn detected_format(s: Seq<char>) -> Option<Seq<char>> {
    if s.contains('@') && s.contains('.') {
        Some("email"@)
    } else if "http"@.is_prefix_of(s) {
        Some("uri"@)
    } else {
        None
    }
}

/// The characters of a digit string: ASCII digits, `-` and the space.
pub open spec fn is_digit_string_char(c: char) -> bool {
    ('0' <= c && c <= '9') || c == '-' || c == ' '
}

/// The pattern a string is taken to match: the digit-string pattern when every
/// character is an ASCII digit, `-` or a space (which holds of the empty
/// string); otherwise none.
pub open spec fn detected_pattern(s: Seq<char>) -> Option<Seq<char>> {
    if forall|i: int| 0 <= i < s.len() ==> is_digit_string_char(#[trigger] s[i]) {
        Some("^[\\d\\-\\s]+$"@)
    } else {
        None
    }
}

/// The kind tags of `items`, item for item.
pub open spec fn item_tags(items: Seq<JsonView>) -> Seq<JsonKind> {
    items.map_values(|v: JsonView| kind_of(v))
}

/// The set of kind tags that occur among `items`.
pub open spec fn item_kinds(items: Seq<JsonView>) -> Set<JsonKind> {
    item_tags(items).to_set()
}

/// The kinds in `tags`, each once, in the order in which they first occur.
pub open spec fn first_occurrences(tags: Seq<JsonKind>) -> Seq<JsonKind>
    decreases tags.len(),
{
    if tags.len() == 0 {
        Seq::empty()
    } else {
        let earlier = first_occurrences(tags.drop_last());
        if earlier.contains(tags.last()) {
            earlier
        } else {
            earlier.push(tags.last())
        }
    }
}

/// The first occurrences hold every kind of `tags`, and none twice.
pub proof fn lemma_first_occurrences(tags: Seq<JsonKind>)
    ensures
        first_occurrences(tags).no_duplicates(),
        first_occurrences(tags).to_set() == tags.to_set(),
    decreases tags.len(),
{
    if tags.len() > 0 {
        let rest = tags.drop_last();
        let last = tags.last();
        let earlier = first_occurrences(rest);
        lemma_first_occurrences(rest);
        assert forall|k: JsonKind| tags.contains(k) <==> (rest.contains(k) || k == last) by {
            if tags.contains(k) {
                let j = choose|j: int| 0 <= j < tags.len() && tags[j] == k;
                if j < rest.len() {
                    assert(rest[j] == k);
                }
            }
            if rest.contains(k) {
                let j = choose|j: int| 0 <= j < rest.len() && rest[j] == k;
                assert(tags[j] == k);
            }
            if k == last {
                assert(tags[tags.len() - 1] == k);
            }
        }
        assert forall|k: JsonKind| rest.contains(k) <==> earlier.contains(k) by {
            assert(rest.to_set().contains(k) <==> earlier.to_set().contains(k));
        }
        if earlier.contains(last) {
            assert(earlier.to_set() =~= tags.to_set());
        } else {
            let all = earlier.push(last);
            assert forall|k: JsonKind| all.contains(k) <==> (earlier.contains(k) || k == last) by {
                if all.contains(k) {
                    let j = choose|j: int| 0 <= j < all.len() && all[j] == k;
                    if j < earlier.len() {
                        assert(earlier[j] == k);
                    }
                }
                if earlier.contains(k) {
                    let j = choose|j: int| 0 <= j < earlier.len() && earlier[j] == k;
                    assert(all[j] == k);
                }
                if k == last {
                    assert(all[all.len() - 1] == k);
                }
            }
            assert(all.to_set() =~= tags.to_set());
            assert forall|a: int, b: int| 0 <= a < all.len() && 0 <= b < all.len() && a
                != b implies all[a] != all[b] by {
                if a < earlier.len() && b < earlier.len() {
                    assert(earlier[a] != earlier[b]);
                } else if a < earlier.len() {
                    assert(earlier.contains(earlier[a]));
                } else {
                    assert(earlier.contains(earlier[b]));
                }
            }
        }
    } else {
        assert(first_occurrences(tags).to_set() =~= tags.to_set());
    }
}

/// An array is homogeneous when at most one kind occurs among its items.
pub open spec fn is_homogeneous(items: Seq<JsonView>) -> bool {
    item_kinds(items).len() <= 1
}

/// Sniffs the format of a string; see [`detected_format`].
pub fn detect_string_format(s: &str) -> (r: Option<&'static str>)
    ensures
        r is Some <==> detected_format(s@) is Some,
        r matches Some(name) ==> detected_format(s@) == Some(name@),
{
    proof {
        reveal_strlit("http");
    }
    let mut has_at = false;
    let mut has_dot = false;
    // `seen` counts the leading characters compared so far, four at most;
    // `matches` says whether all of them agreed with the prefix.
    let mut seen: usize = 0;
    let mut matches = true;
    for c in it: s.chars()
        invariant
            it.seq() == s@,
            "http"@.len() == 4,
            has_at == exists|j: int| 0 <= j < it.index() && s@[j] == '@',
            has_dot == exists|j: int| 0 <= j < it.index() && s@[j] == '.',
            seen == if it.index() < 4 { it.index() } else { 4 },
            matches == forall|j: int| 0 <= j < seen ==> s@[j] == "http"@[j],
    {
        if c == '@' {
            has_at = true;
        }
        if c == '.' {
            has_dot = true;
        }
        if seen < 4 {
            if c != "http".get_char(seen) {
                matches = false;
            }
            seen = seen + 1;
        }
    }
    let starts_with_http = matches && seen == 4;
    proof {
        if starts_with_http {
            assert("http"@ =~= s@.subrange(0, 4));
        }
        if "http"@.is_prefix_of(s@) {
            assert(forall|j: int| 0 <= j < 4 ==> s@.subrange(0, 4)[j] == s@[j]);
        }
    }
    if has_at && has_dot {
        Some("email")
    } else if starts_with_http {
        Some("uri")
    } else {
        None
    }
}

/// Sniffs the digit-string pattern; see [`detected_pattern`].
pub fn detect_string_pattern(s: &str) -> (r: Option<&'static str>)
    ensures
        r is Some <==> detected_pattern(s@) is Some,
        r matches Some(pattern) ==> detected_pattern(s@) == Some(pattern@),
{
    let mut all = true;
    for c in it: s.chars()
        invariant
            it.seq() == s@,
            all == forall|j: int| 0 <= j < it.index() ==> is_digit_string_char(#[trigger] s@[j]),
    {
        if !((c >= '0' && c <= '9') || c == '-' || c == ' ') {
            all = false;
        }
    }
    if all {
        Some("^[\\d\\-\\s]+$")
    } else {
        None
    }
}

/// Whether `kind` is listed in `kinds`.
fn is_listed(kinds: &Vec<JsonKind>, kind: JsonKind) -> (b: bool)
    ensures
        b == kinds@.contains(kind),
{
    let mut i: usize = 0;
    while i < kinds.len()
        invariant
            i <= kinds.len(),
            forall|j: int| 0 <= j < i ==> kinds@[j] != kind,
        decreases kinds.len() - i,
    {
        if kinds[i] == kind {
            return true;
        }
        i += 1;
    }
    false
}

/// The kinds that occur among the items of an array: each listed once, in
/// the order in which they first occur.
pub fn get_array_item_types(arr: &[JsonValue]) -> (kinds: Vec<JsonKind>)
    ensures
        kinds@ == first_occurrences(item_tags(items_view(arr@))),
        kinds@.no_duplicates(),
        kinds@.to_set() == item_kinds(items_view(arr@)),
{
    let ghost tags = item_tags(items_view(arr@));
    let mut kinds: Vec<JsonKind> = Vec::new();
    let mut i: usize = 0;
    assert(tags.take(0) =~= Seq::empty());
    while i < arr.len()
        invariant
            i <= arr.len(),
            tags == item_tags(items_view(arr@)),
            kinds@ == first_occurrences(tags.take(i as int)),
        decreases arr.len() - i,
    {
        let kind = arr[i].kind();
        proof {
            assert(kind == tags[i as int]);
            assert(tags.take(i + 1).drop_last() =~= tags.take(i as int));
            assert(tags.take(i + 1).last() == kind);
        }
        if !is_listed(&kinds, kind) {
            kinds.push(kind);
        }
        i += 1;
    }
    proof {
        assert(tags.take(i as int) =~= tags);
        lemma_first_occurrences(tags);
    }
    kinds
}

/// Whether at most one kind occurs among the items of an array.
pub fn is_homogeneous_array(arr: &[JsonValue]) -> (b: bool)
    ensures
        b == is_homogeneous(items_view(arr@)),
{
    let kinds = get_array_item_types(arr);
    proof {
        kinds@.unique_seq_to_set();
    }
    kinds.len() <= 1
}

} // verus!
