//! Completing a configuration file that was written before a section was
//! added: the sections it lacks are taken from the defaults, and what it
//! holds is kept as it is.

use crate::config::ConfigError;
use vstd::prelude::*;
use vstd::string::*;

verus! {

/// `toml::map::Map`, the table type of the `toml` crate. Its contents are
/// opaque here and are spoken of through `table_entries`.
#[verifier::external_type_specification]
#[verifier::external_body]
#[verifier::reject_recursive_types(K)]
#[verifier::reject_recursive_types(V)]
pub struct ExTomlMap<K, V>(toml::map::Map<K, V>);

/// `toml::Value`, any TOML value. Opaque here: values are only carried from
/// one table to another.
#[verifier::external_type_specification]
#[verifier::external_body]
pub struct ExTomlValue(toml::Value);

/// `toml::de::Error`, the error of a failed parse. Opaque here.
#[verifier::external_type_specification]
#[verifier::external_body]
pub struct ExTomlError(toml::de::Error);

/// What a table holds: the value under each of its keys.
pub uninterp spec fn table_entries(table: toml::map::Map<String, toml::Value>) -> Map<
    Seq<char>,
    toml::Value,
>;

/// `Map::contains_key` of the `toml` crate: whether the table holds a value
/// under `key`.
#[verifier::external_body]
fn table_contains_key(table: &toml::map::Map<String, toml::Value>, key: &str) -> (b: bool)
    ensures
        b == table_entries(*table).contains_key(key@),
{
    table.contains_key(key)
}

/// `Map::insert` of the `toml` crate: afterwards the table holds `value`
/// under `key`, and under every other key what it held before.
#[verifier::external_body]
fn table_insert(table: &mut toml::map::Map<String, toml::Value>, key: String, value: toml::Value)
    ensures
        table_entries(*final(table)) == table_entries(*old(table)).insert(key@, value),
{
    table.insert(key, value);
}

/// `Map::into_iter` of the `toml` crate, collected: the pairs of key and
/// value that the table holds, each key of the table among them once.
#[verifier::external_body]
fn table_into_pairs(table: toml::map::Map<String, toml::Value>) -> (pairs: Vec<
    (String, toml::Value),
>)
    ensures
        forall|i: int|
            0 <= i < pairs@.len() ==> table_entries(table).contains_key(#[trigger] pairs@[i].0@)
                && table_entries(table)[pairs@[i].0@] == pairs@[i].1,
        forall|key: Seq<char>|
            table_entries(table).contains_key(key) ==> exists|i: int|
                0 <= i < pairs@.len() && #[trigger] pairs@[i].0@ == key,
        forall|i: int, j: int|
            0 <= i < j < pairs@.len() ==> #[trigger] pairs@[i].0@ != #[trigger] pairs@[j].0@,
{
    table.into_iter().collect()
}

/// What the TOML document `content` holds at its top level: the value under
/// each key; `None` where the text is no TOML document.
pub uninterp spec fn document_entries(content: Seq<char>) -> Option<Map<Seq<char>, toml::Value>>;

/// `toml::from_str` at the type `toml::Table`: parses a TOML document into
/// its top-level table, or fails where the text is none.
#[verifier::external_body]
fn parse_table(content: &str) -> (r: Result<toml::map::Map<String, toml::Value>, toml::de::Error>)
    ensures
        match r {
            Ok(table) => document_entries(content@) == Some(table_entries(table)),
            Err(_) => document_entries(content@) is None,
        },
{
    toml::from_str::<toml::map::Map<String, toml::Value>>(content)
}

/// The `Display` text of a `toml::de::Error`. Nothing is claimed of it.
#[verifier::external_body]
fn parse_error_text(error: &toml::de::Error) -> (text: String) {
    format!("{}", error)
}

/// Whether `key` is the key of one of `pairs`.
pub open spec fn among(pairs: Seq<(String, toml::Value)>, key: Seq<char>) -> bool {
    exists|i: int| 0 <= i < pairs.len() && #[trigger] pairs[i].0@ == key
}

/// Adds to `existing` every entry of `defaults` whose key it lacks. What
/// `existing` holds stays as it is, also under a key that `defaults` has too.
pub fn merge_missing(
    existing: &mut toml::map::Map<String, toml::Value>,
    defaults: toml::map::Map<String, toml::Value>,
)
    ensures
        table_entries(*final(existing)) == table_entries(defaults).union_prefer_right(
            table_entries(*old(existing)),
        ),
{
    let ghost given = table_entries(defaults);
    let ghost held = table_entries(*existing);
    let mut pairs = table_into_pairs(defaults);
    assert forall|key: Seq<char>| given.contains_key(key) implies among(pairs@, key) by {
        let i = choose|i: int| 0 <= i < pairs@.len() && #[trigger] pairs@[i].0@ == key;
        assert(pairs@[i].0@ == key);
    }
    while pairs.len() > 0
        invariant
            forall|i: int, j: int|
                0 <= i < j < pairs@.len() ==> #[trigger] pairs@[i].0@ != #[trigger] pairs@[j].0@,
            forall|i: int|
                0 <= i < pairs@.len() ==> given.contains_key(#[trigger] pairs@[i].0@)
                    && given[pairs@[i].0@] == pairs@[i].1,
            forall|key: Seq<char>|
                #[trigger] table_entries(*existing).contains_key(key) <==> held.contains_key(key)
                    || (given.contains_key(key) && !among(pairs@, key)),
            forall|key: Seq<char>|
                table_entries(*existing).contains_key(key) ==> #[trigger] table_entries(
                    *existing,
                )[key] == if held.contains_key(key) {
                    held[key]
                } else {
                    given[key]
                },
        decreases pairs.len(),
    {
        let ghost before = pairs@;
        let ghost current = table_entries(*existing);
        let pair = pairs.pop().unwrap();
        let key = pair.0;
        let value = pair.1;
        assert(before[before.len() - 1] == (key, value));
        assert(given.contains_key(before[before.len() - 1].0@));
        assert forall|other: Seq<char>| among(before, other) implies among(pairs@, other) || other
            == key@ by {
            let i = choose|i: int| 0 <= i < before.len() && #[trigger] before[i].0@ == other;
            if i < pairs@.len() {
                assert(pairs@[i].0@ == other);
            }
        }
        assert forall|other: Seq<char>| among(pairs@, other) implies among(before, other) by {
            let i = choose|i: int| 0 <= i < pairs@.len() && #[trigger] pairs@[i].0@ == other;
            assert(before[i].0@ == other);
        }
        assert(among(before, key@));
        assert(!among(pairs@, key@)) by {
            if among(pairs@, key@) {
                let i = choose|i: int| 0 <= i < pairs@.len() && #[trigger] pairs@[i].0@ == key@;
                assert(before[i].0@ != before[before.len() - 1].0@);
            }
        }
        if !table_contains_key(existing, key.as_str()) {
            table_insert(existing, key, value);
        }
    }
    assert(table_entries(*existing) =~= given.union_prefer_right(held));
}

/// Reads `content` as a TOML document and adds every top-level entry of
/// `defaults` that it lacks. A text that is no TOML document is refused.
pub fn complete(content: &str, defaults: toml::map::Map<String, toml::Value>) -> (r: Result<
    toml::map::Map<String, toml::Value>,
    ConfigError,
>)
    ensures
        match r {
            Ok(table) => document_entries(content@) is Some && table_entries(table)
                == table_entries(defaults).union_prefer_right(document_entries(content@).unwrap()),
            Err(e) => document_entries(content@) is None && e is Malformed,
        },
{
    match parse_table(content) {
        Ok(table) => {
            let mut table = table;
            merge_missing(&mut table, defaults);
            Ok(table)
        },
        Err(e) => Err(ConfigError::Malformed { detail: parse_error_text(&e) }),
    }
}

} // verus!
