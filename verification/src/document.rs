//! TOML documents, as the `toml` crate parses, holds and prints them.
//!
//! A `toml::Value` is opaque to the verifier. What it holds is named here as
//! a mathematical tree, and each call into the crate comes with a contract
//! over that tree. Those contracts are believed, not proved: each is stated
//! beside the function of `toml` that it describes.
//!
//! `toml` is used without its `preserve_order` feature. A table is then a
//! sorted map: what it holds, and what is printed for it, does not depend on
//! the order in which its entries were put in.

use crate::strings::texts;
use vstd::prelude::*;

verus! {

/// What a TOML value holds.
pub enum Tree {
    /// A string.
    Str(Seq<char>),
    /// An integer.
    Int(i64),
    /// A float, by the 64 bits that encode it.
    Float(u64),
    /// A boolean.
    Bool(bool),
    /// A datetime, by its text.
    Datetime(Seq<char>),
    /// An array.
    Array(Seq<Tree>),
    /// A table: each key once.
    Table(Map<Seq<char>, Tree>),
}

/// `toml::Value`, a parsed TOML value.
#[verifier::external_type_specification]
#[verifier::external_body]
pub struct ExValue(toml::Value);

/// `toml::de::Error`, the reason why a text is not a TOML document.
#[verifier::external_type_specification]
#[verifier::external_body]
pub struct ExParseError(toml::de::Error);

/// `toml::ser::Error`, the reason why a value has no TOML text.
#[verifier::external_type_specification]
#[verifier::external_body]
pub struct ExPrintError(toml::ser::Error);

/// The tree that a `toml::Value` holds.
pub uninterp spec fn value_tree(value: toml::Value) -> Tree;

/// The tree that `toml` parses from `text`; `None` where it rejects the text.
pub uninterp spec fn toml_parse(text: Seq<char>) -> Option<Tree>;

/// The text that `toml` prints for a value holding `tree`; `None` where it
/// has none.
pub uninterp spec fn toml_text(tree: Tree) -> Option<Seq<char>>;

/// The trees of a list of values.
pub open spec fn trees(values: Seq<toml::Value>) -> Seq<Tree> {
    values.map_values(|v: toml::Value| value_tree(v))
}

/// The table with the keys `keys`, the tree at each position of `trees`
/// under the key at that position.
pub open spec fn table_of(keys: Seq<Seq<char>>, trees: Seq<Tree>) -> Map<Seq<char>, Tree> {
    Map::new(|k: Seq<char>| keys.contains(k), |k: Seq<char>| trees[keys.index_of(k)])
}

/// The keys of borrowed table entries.
pub open spec fn entry_keys(entries: Seq<(&String, &toml::Value)>) -> Seq<Seq<char>> {
    entries.map_values(|e: (&String, &toml::Value)| e.0@)
}

/// The trees of borrowed table entries.
pub open spec fn entry_trees(entries: Seq<(&String, &toml::Value)>) -> Seq<Tree> {
    entries.map_values(|e: (&String, &toml::Value)| value_tree(*e.1))
}

/// The keys of owned table entries.
pub open spec fn pair_keys(pairs: Seq<(String, toml::Value)>) -> Seq<Seq<char>> {
    pairs.map_values(|p: (String, toml::Value)| p.0@)
}

/// The trees of owned table entries.
pub open spec fn pair_trees(pairs: Seq<(String, toml::Value)>) -> Seq<Tree> {
    pairs.map_values(|p: (String, toml::Value)| value_tree(p.1))
}

/// `<toml::Value as FromStr>::from_str`: parses a whole TOML document. The
/// result is a function of the text alone, named `toml_parse`.
#[verifier::external_body]
pub(crate) fn parse_value(text: &str) -> (parsed: Result<toml::Value, toml::de::Error>)
    ensures
        match parsed {
            Ok(value) => toml_parse(text@) == Some(value_tree(value)),
            Err(_) => toml_parse(text@) is None,
        },
{
    text.parse::<toml::Value>()
}

/// `toml::to_string`: prints a value as a TOML document. The result is a
/// function of what the value holds, named `toml_text`.
#[verifier::external_body]
pub(crate) fn print_value(value: &toml::Value) -> (printed: Result<String, toml::ser::Error>)
    ensures
        match printed {
            Ok(text) => toml_text(value_tree(*value)) == Some(text@),
            Err(_) => toml_text(value_tree(*value)) is None,
        },
{
    toml::to_string(value)
}

/// `toml::Value::as_str`: the string of a string value, `None` for any
/// other value.
pub assume_specification<'a>[ toml::Value::as_str ](value: &'a toml::Value) -> (text: Option<
    &'a str,
>)
    ensures
        match text {
            Some(s) => value_tree(*value) == Tree::Str(s@),
            None => !(value_tree(*value) is Str),
        },
;

/// `toml::Value::as_array`: the elements of an array value, `None` for any
/// other value.
pub assume_specification<'a>[ toml::Value::as_array ](value: &'a toml::Value) -> (items: Option<
    &'a Vec<toml::Value>,
>)
    ensures
        match items {
            Some(a) => value_tree(*value) == Tree::Array(trees(a@)),
            None => !(value_tree(*value) is Array),
        },
;

/// `toml::Value::as_table` and `toml::map::Map::iter`: the entries of a
/// table value, each key once, `None` for any other value.
#[verifier::external_body]
pub(crate) fn table_entries<'a>(value: &'a toml::Value) -> (entries: Option<
    Vec<(&'a String, &'a toml::Value)>,
>)
    ensures
        match entries {
            Some(e) => entry_keys(e@).no_duplicates() && value_tree(*value) == Tree::Table(
                table_of(entry_keys(e@), entry_trees(e@)),
            ),
            None => !(value_tree(*value) is Table),
        },
{
    value.as_table().map(|table| table.iter().collect())
}

/// `toml::Value::String`: the string value holding `text`.
#[verifier::external_body]
pub(crate) fn string_value(text: String) -> (value: toml::Value)
    ensures
        value_tree(value) == Tree::Str(text@),
{
    toml::Value::String(text)
}

/// `toml::Value::Array`: the array value holding `items`.
#[verifier::external_body]
pub(crate) fn array_value(items: Vec<toml::Value>) -> (value: toml::Value)
    ensures
        value_tree(value) == Tree::Array(trees(items@)),
{
    toml::Value::Array(items)
}

/// `toml::Value::Table` over a `toml::map::Map` collected from `pairs`: the
/// table value holding each pair. The keys must differ from one another.
#[verifier::external_body]
pub(crate) fn table_value(pairs: Vec<(String, toml::Value)>) -> (value: toml::Value)
    requires
        pair_keys(pairs@).no_duplicates(),
    ensures
        value_tree(value) == Tree::Table(table_of(pair_keys(pairs@), pair_trees(pairs@))),
{
    toml::Value::Table(pairs.into_iter().collect())
}

/// In a table made from distinct keys, each key leads to the tree at its
/// own position.
pub(crate) proof fn lemma_table_at(keys: Seq<Seq<char>>, trees: Seq<Tree>, i: int)
    requires
        keys.no_duplicates(),
        0 <= i < keys.len(),
    ensures
        table_of(keys, trees).contains_key(keys[i]),
        table_of(keys, trees)[keys[i]] == trees[i],
        keys.index_of(keys[i]) == i,
{
    assert(keys.contains(keys[i]));
}

/// The value under `key` among the entries of a table, if there is one.
pub(crate) fn find_entry<'a>(
    entries: &Vec<(&'a String, &'a toml::Value)>,
    key: &str,
) -> (found: Option<&'a toml::Value>)
    requires
        entry_keys(entries@).no_duplicates(),
    ensures
        match found {
            Some(value) => {
                &&& table_of(entry_keys(entries@), entry_trees(entries@)).contains_key(key@)
                &&& table_of(entry_keys(entries@), entry_trees(entries@))[key@] == value_tree(
                    *value,
                )
            },
            None => !table_of(entry_keys(entries@), entry_trees(entries@)).contains_key(key@),
        },
{
    let wanted = key.to_owned();
    let ghost keys = entry_keys(entries@);
    let mut i: usize = 0;
    while i < entries.len()
        invariant
            i <= entries@.len(),
            keys == entry_keys(entries@),
            keys.no_duplicates(),
            wanted@ == key@,
            forall|j: int| 0 <= j < i ==> keys[j] != key@,
        decreases entries@.len() - i,
    {
        if *entries[i].0 == wanted {
            proof {
                lemma_table_at(keys, entry_trees(entries@), i as int);
            }
            return Some(entries[i].1);
        }
        i += 1;
    }
    None
}

/// Whether a tree is an array of strings.
pub open spec fn is_item_list(t: Tree) -> bool {
    &&& t is Array
    &&& forall|i: int| 0 <= i < t->Array_0.len() ==> (#[trigger] t->Array_0[i]) is Str
}

/// The items of an array of strings.
pub open spec fn tree_items(t: Tree) -> Seq<Seq<char>> {
    t->Array_0.map_values(|x: Tree| x->Str_0)
}

/// The strings of an array, or `None` if an element is no string.
pub(crate) fn strings_of(items: &Vec<toml::Value>) -> (found: Option<Vec<String>>)
    ensures
        match found {
            Some(list) => is_item_list(Tree::Array(trees(items@))) && texts(list@) == tree_items(
                Tree::Array(trees(items@)),
            ),
            None => !is_item_list(Tree::Array(trees(items@))),
        },
{
    let mut list: Vec<String> = Vec::new();
    let mut i: usize = 0;
    while i < items.len()
        invariant
            i <= items@.len(),
            list@.len() == i,
            forall|j: int| 0 <= j < i ==> trees(items@)[j] == Tree::Str(#[trigger] list@[j]@),
        decreases items@.len() - i,
    {
        match items[i].as_str() {
            Some(s) => {
                list.push(s.to_owned());
            },
            None => {
                assert(!(trees(items@)[i as int] is Str));
                return None;
            },
        }
        i += 1;
    }
    proof {
        let t = Tree::Array(trees(items@));
        assert forall|j: int| 0 <= j < t->Array_0.len() implies (#[trigger] t->Array_0[j])
            is Str by {
            assert(trees(items@)[j] == Tree::Str(list@[j]@));
        }
    }
    Some(list)
}

} // verus!
