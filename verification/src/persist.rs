//! The durable form of the ledger: a TOML document with one table, `data`,
//! that holds under each user key the array of that user's items.
//!
//! Reading and writing files is left to the caller. This module turns a
//! ledger into the text to write and a text that was read into a ledger.

use crate::document::{
    array_value, entry_keys, entry_trees, find_entry, is_item_list, lemma_table_at, pair_keys,
    pair_trees, parse_value, print_value, string_value, strings_of, table_entries, table_of,
    table_value, toml_parse, toml_text, tree_items, trees, value_tree, Tree,
};
use crate::ledger::{borrowed, listed, Ledger, LedgerModel};
use crate::strings::texts;
use vstd::prelude::*;

verus! {

/// Why a text was not loaded as a ledger.
#[derive(Clone, Copy, Debug, PartialEq, Eq, Structural)]
pub enum LoadError {
    /// The text is not a TOML document.
    Syntax,
    /// The document is not that of a ledger.
    Shape,
}

/// Why a ledger was not saved.
#[derive(Clone, Copy, Debug, PartialEq, Eq, Structural)]
pub enum SaveError {
    /// The document of the ledger has no TOML text.
    Unprintable,
    /// The text printed for the ledger does not load back as the ledger.
    Unfaithful,
}

/// The key of the table that holds the ledger.
pub open spec fn record_key() -> Seq<char> {
    "data"@
}

/// The array of a list of items.
pub open spec fn list_tree(items: Seq<Seq<char>>) -> Tree {
    Tree::Array(items.map_values(|s: Seq<char>| Tree::Str(s)))
}

/// The document of a ledger.
pub open spec fn ledger_tree(m: LedgerModel) -> Tree {
    Tree::Table(
        Map::<Seq<char>, Tree>::empty().insert(
            record_key(),
            Tree::Table(m.map_values(|items: Seq<Seq<char>>| list_tree(items))),
        ),
    )
}

/// Whether a tree is the document of a ledger: a table whose entry `data`
/// is a table of arrays of strings. Other entries of the outer table do not
/// count.
pub open spec fn is_ledger_tree(t: Tree) -> bool {
    &&& t is Table
    &&& t->Table_0.contains_key(record_key())
    &&& t->Table_0[record_key()] is Table
    &&& forall|k: Seq<char>| #[trigger]
        t->Table_0[record_key()]->Table_0.contains_key(k) ==> is_item_list(
            t->Table_0[record_key()]->Table_0[k],
        )
}

/// The ledger that a document holds, if it is the document of a ledger.
pub open spec fn tree_ledger(t: Tree) -> Option<LedgerModel> {
    if is_ledger_tree(t) {
        Some(t->Table_0[record_key()]->Table_0.map_values(|a: Tree| tree_items(a)))
    } else {
        None
    }
}

/// What loading makes of the outcome of parsing.
pub open spec fn loaded(parsed: Option<Tree>) -> Result<LedgerModel, LoadError> {
    match parsed {
        None => Err(LoadError::Syntax),
        Some(t) => match tree_ledger(t) {
            Some(m) => Ok(m),
            None => Err(LoadError::Shape),
        },
    }
}

/// What saving makes of a ledger: the text that `toml` prints for its
/// document, provided that text loads back as the same ledger.
pub open spec fn saved(m: LedgerModel) -> Result<Seq<char>, SaveError> {
    match toml_text(ledger_tree(m)) {
        None => Err(SaveError::Unprintable),
        Some(text) => if loaded(toml_parse(text)) == Ok::<LedgerModel, LoadError>(m) {
            Ok(text)
        } else {
            Err(SaveError::Unfaithful)
        },
    }
}

/// Loading a text that saving has produced gives the ledger that was
/// saved: the same user keys, each with the same items in the same order.
pub proof fn lemma_saved_text_loads_back(m: LedgerModel, text: Seq<char>)
    requires
        saved(m) == Ok::<Seq<char>, SaveError>(text),
    ensures
        loaded(toml_parse(text)) == Ok::<LedgerModel, LoadError>(m),
{
}

/// Writing the ledger read from an array of strings gives that array.
pub proof fn lemma_array_round_trip(t: Tree)
    requires
        is_item_list(t),
    ensures
        list_tree(tree_items(t)) == t,
{
    let items = t->Array_0;
    let back = tree_items(t).map_values(|s: Seq<char>| Tree::Str(s));
    assert(back =~= items);
}

/// The document of the ledger read from a document is that document,
/// provided the document holds nothing but the ledger.
pub proof fn lemma_ledger_round_trip(t: Tree)
    requires
        is_ledger_tree(t),
        forall|k: Seq<char>| t->Table_0.contains_key(k) ==> k == record_key(),
    ensures
        tree_ledger(t) is Some,
        ledger_tree(tree_ledger(t)->Some_0) == t,
{
    let inner = t->Table_0[record_key()]->Table_0;
    let m = tree_ledger(t)->Some_0;
    let back = m.map_values(|items: Seq<Seq<char>>| list_tree(items));
    assert forall|k: Seq<char>| back.contains_key(k) implies back[k] == inner[k] by {
        lemma_array_round_trip(inner[k]);
    }
    assert(back =~= inner);
    assert(Map::<Seq<char>, Tree>::empty().insert(record_key(), Tree::Table(back))
        =~= t->Table_0);
}

/// A borrow that was served before the flush is in the saved text: loading
/// that text gives a ledger in which the borrowed item is the last of the
/// user's list.
pub proof fn lemma_flushed_borrow_is_durable(
    m: LedgerModel,
    user: Seq<char>,
    item: Seq<char>,
    text: Seq<char>,
)
    requires
        saved(borrowed(m, user, item)) == Ok::<Seq<char>, SaveError>(text),
    ensures
        loaded(toml_parse(text)) is Ok,
        listed(loaded(toml_parse(text))->Ok_0, user) is Ok,
        listed(loaded(toml_parse(text))->Ok_0, user)->Ok_0.last() == item,
{
}

/// Reading a list back from its array gives the list.
pub proof fn lemma_list_round_trip(items: Seq<Seq<char>>)
    ensures
        is_item_list(list_tree(items)),
        tree_items(list_tree(items)) == items,
{
}

/// Reading a ledger back from its document gives the ledger: the same user
/// keys, each with the same items in the same order.
pub proof fn lemma_document_round_trip(m: LedgerModel)
    ensures
        tree_ledger(ledger_tree(m)) == Some(m),
{
    let inner = m.map_values(|items: Seq<Seq<char>>| list_tree(items));
    let back = inner.map_values(|a: Tree| tree_items(a));
    assert forall|k: Seq<char>| back.contains_key(k) implies back[k] == m[k] by {
        lemma_list_round_trip(m[k]);
    }
    assert(back =~= m);
}

/// The ledger that a parsed document holds; `Shape` if it is not the
/// document of a ledger.
pub fn from_document(document: &toml::Value) -> (r: Result<Ledger, LoadError>)
    ensures
        match r {
            Ok(ledger) => ledger.wf() && tree_ledger(value_tree(*document)) == Some(ledger@),
            Err(e) => e == LoadError::Shape && tree_ledger(value_tree(*document)) is None,
        },
{
    let top = match table_entries(document) {
        Some(entries) => entries,
        None => {
            return Err(LoadError::Shape);
        },
    };
    let record = match find_entry(&top, "data") {
        Some(value) => value,
        None => {
            return Err(LoadError::Shape);
        },
    };
    let users = match table_entries(record) {
        Some(entries) => entries,
        None => {
            return Err(LoadError::Shape);
        },
    };
    let ghost keys = entry_keys(users@);
    let ghost lists = entry_trees(users@);
    let ghost inner = table_of(keys, lists);
    let ghost whole = value_tree(*document);
    let mut ledger = Ledger::new();
    let mut i: usize = 0;
    while i < users.len()
        invariant
            i <= users@.len(),
            keys == entry_keys(users@),
            lists == entry_trees(users@),
            keys.no_duplicates(),
            inner == table_of(keys, lists),
            whole == value_tree(*document),
            whole is Table,
            whole->Table_0.contains_key(record_key()),
            whole->Table_0[record_key()] == Tree::Table(inner),
            ledger.wf(),
            forall|j: int| 0 <= j < i ==> is_item_list(#[trigger] lists[j]),
            forall|k: Seq<char>|
                ledger@.contains_key(k) <==> exists|j: int| 0 <= j < i && keys[j] == k,
            forall|j: int| 0 <= j < i ==> ledger@[#[trigger] keys[j]] == tree_items(lists[j]),
        decreases users@.len() - i,
    {
        let items = match users[i].1.as_array() {
            Some(a) => a,
            None => {
                proof {
                    lemma_table_at(keys, lists, i as int);
                }
                return Err(LoadError::Shape);
            },
        };
        let list = match strings_of(items) {
            Some(list) => list,
            None => {
                proof {
                    lemma_table_at(keys, lists, i as int);
                }
                return Err(LoadError::Shape);
            },
        };
        let ghost before = ledger@;
        ledger.put(users[i].0.clone(), list);
        assert(ledger@ == before.insert(keys[i as int], tree_items(lists[i as int])));
        i += 1;
    }
    proof {
        assert forall|k: Seq<char>| inner.contains_key(k) implies ledger@.contains_key(k)
            && is_item_list(inner[k]) && ledger@[k] == tree_items(inner[k]) by {
            lemma_table_at(keys, lists, keys.index_of(k));
        }
        assert(ledger@ =~= inner.map_values(|a: Tree| tree_items(a)));
    }
    Ok(ledger)
}

/// The array value of a list of items.
fn list_value(items: &Vec<String>) -> (value: toml::Value)
    ensures
        value_tree(value) == list_tree(texts(items@)),
{
    let mut values: Vec<toml::Value> = Vec::new();
    let mut i: usize = 0;
    while i < items.len()
        invariant
            i <= items@.len(),
            values@.len() == i,
            forall|j: int|
                0 <= j < i ==> value_tree(#[trigger] values@[j]) == Tree::Str(items@[j]@),
        decreases items@.len() - i,
    {
        values.push(string_value(items[i].clone()));
        i += 1;
    }
    assert(trees(values@) =~= texts(items@).map_values(|s: Seq<char>| Tree::Str(s)));
    array_value(values)
}

/// The document of a ledger, ready to be printed.
pub fn to_document(ledger: &Ledger) -> (document: toml::Value)
    requires
        ledger.wf(),
    ensures
        value_tree(document) == ledger_tree(ledger@),
{
    let lists = ledger.snapshot();
    let mut pairs: Vec<(String, toml::Value)> = Vec::new();
    let mut i: usize = 0;
    while i < lists.len()
        invariant
            i <= lists@.len(),
            pairs@.len() == i,
            forall|j: int|
                0 <= j < i ==> (#[trigger] pairs@[j]).0@ == lists@[j].0@ && value_tree(pairs@[j].1)
                    == list_tree(texts(lists@[j].1@)),
        decreases lists@.len() - i,
    {
        pairs.push((lists[i].0.clone(), list_value(&lists[i].1)));
        i += 1;
    }
    let ghost keys = pair_keys(pairs@);
    let ghost arrays = pair_trees(pairs@);
    let ghost inner = ledger@.map_values(|items: Seq<Seq<char>>| list_tree(items));
    proof {
        assert forall|j: int| 0 <= j < keys.len() implies inner.contains_key(#[trigger] keys[j])
            && arrays[j] == inner[keys[j]] by {
            assert(pairs@[j].0@ == lists@[j].0@);
        }
        assert forall|k: Seq<char>| inner.contains_key(k) implies keys.contains(k) by {
            let j = choose|j: int| 0 <= j < lists@.len() && (#[trigger] lists@[j]).0@ == k;
            assert(keys[j] == k);
        }
        assert forall|k: Seq<char>| keys.contains(k) implies table_of(keys, arrays)[k]
            == inner[k] by {
            lemma_table_at(keys, arrays, keys.index_of(k));
        }
        assert(table_of(keys, arrays) =~= inner);
    }
    let record = table_value(pairs);
    let mut top: Vec<(String, toml::Value)> = Vec::new();
    top.push(("data".to_owned(), record));
    proof {
        let names = pair_keys(top@);
        let held = pair_trees(top@);
        assert(names[0] == record_key());
        assert(table_of(names, held) =~= Map::<Seq<char>, Tree>::empty().insert(
            record_key(),
            Tree::Table(inner),
        ));
    }
    table_value(top)
}

/// The TOML text of a ledger. The text is read back before it is handed
/// out, so a text that is returned always loads as the ledger it was made
/// from: `Unprintable` where `toml` prints no text for the document of the
/// ledger, `Unfaithful` where the text it prints does not load back as the
/// ledger.
pub fn encode(ledger: &Ledger) -> (r: Result<String, SaveError>)
    requires
        ledger.wf(),
    ensures
        match r {
            Ok(text) => saved(ledger@) == Ok::<Seq<char>, SaveError>(text@),
            Err(e) => saved(ledger@) == Err::<Seq<char>, SaveError>(e),
        },
{
    let document = to_document(ledger);
    match print_value(&document) {
        Ok(text) => {
            let faithful = match decode(text.as_str()) {
                Ok(back) => back.equals(ledger),
                Err(_) => false,
            };
            if faithful {
                Ok(text)
            } else {
                Err(SaveError::Unfaithful)
            }
        },
        Err(_) => Err(SaveError::Unprintable),
    }
}

/// The ledger held by a TOML text: `Syntax` where `toml` rejects the text,
/// `Shape` where the document it parses is not that of a ledger.
pub fn decode(text: &str) -> (r: Result<Ledger, LoadError>)
    ensures
        match r {
            Ok(ledger) => ledger.wf() && loaded(toml_parse(text@)) == Ok::<LedgerModel, LoadError>(
                ledger@,
            ),
            Err(e) => loaded(toml_parse(text@)) == Err::<LedgerModel, LoadError>(e),
        },
{
    match parse_value(text) {
        Ok(document) => from_document(&document),
        Err(_) => Err(LoadError::Syntax),
    }
}

} // verus!
