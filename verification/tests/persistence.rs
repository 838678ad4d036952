use rental_ledger::ledger::{Ledger, LedgerError};
use rental_ledger::persist::{decode, encode, from_document, to_document, LoadError};

fn strings(items: &[&str]) -> Vec<String> {
    items.iter().map(|s| s.to_string()).collect()
}

fn sample() -> Ledger {
    let mut ledger = Ledger::new();
    ledger.borrow("1001", "lamp".to_string());
    ledger.borrow("1001", "saw".to_string());
    ledger.borrow("2002", "drill".to_string());
    ledger
}

fn table(pairs: Vec<(&str, toml::Value)>) -> toml::Value {
    let mut map = toml::value::Table::new();
    for (key, value) in pairs {
        map.insert(key.to_string(), value);
    }
    toml::Value::Table(map)
}

fn array(items: &[&str]) -> toml::Value {
    toml::Value::Array(items.iter().map(|s| toml::Value::String(s.to_string())).collect())
}

#[test]
fn encode_writes_the_data_table() {
    let text = encode(&sample()).unwrap();
    assert_eq!(text, "[data]\n1001 = [\"lamp\", \"saw\"]\n2002 = [\"drill\"]\n");
}

#[test]
fn encode_of_the_empty_ledger_loads_back_empty() {
    let text = encode(&Ledger::new()).unwrap();
    let back = decode(&text).unwrap();
    assert!(back.equals(&Ledger::new()));
    assert!(back.snapshot().is_empty());
}

#[test]
fn load_of_save_is_the_same_ledger() {
    let ledger = sample();
    let text = encode(&ledger).unwrap();
    let back = decode(&text).unwrap();
    assert!(back.equals(&ledger));
    assert_eq!(back.list("1001"), Ok(strings(&["lamp", "saw"])));
    assert_eq!(back.list("2002"), Ok(strings(&["drill"])));
    assert_eq!(back.list("3003"), Err(LedgerError::NotFound));
}

#[test]
fn save_of_load_is_the_same_text() {
    let text = "[data]\n1001 = [\"lamp\", \"saw\"]\n2002 = [\"drill\"]\n";
    let ledger = decode(text).unwrap();
    assert_eq!(encode(&ledger).unwrap(), text);
}

#[test]
fn round_trip_keeps_awkward_keys_and_items() {
    let mut ledger = Ledger::new();
    ledger.borrow("key with spaces", "say \"hi\"".to_string());
    ledger.borrow("key with spaces", "back\\slash".to_string());
    ledger.borrow("key with spaces", "two\nlines\tand a tab".to_string());
    ledger.borrow("key with spaces", String::new());
    ledger.borrow("鍵", "借りた物".to_string());
    ledger.borrow("a.b", "dotted".to_string());
    ledger.borrow("", "empty key".to_string());
    let text = encode(&ledger).unwrap();
    let back = decode(&text).unwrap();
    assert!(back.equals(&ledger));
    assert_eq!(
        back.list("key with spaces"),
        Ok(strings(&["say \"hi\"", "back\\slash", "two\nlines\tand a tab", ""]))
    );
}

#[test]
fn round_trip_keeps_an_empty_list() {
    let mut ledger = Ledger::new();
    ledger.borrow("alice", "lamp".to_string());
    ledger.giveback("alice", 1).unwrap();
    let text = encode(&ledger).unwrap();
    let back = decode(&text).unwrap();
    assert_eq!(back.list("alice"), Ok(Vec::new()));
    assert!(back.equals(&ledger));
}

#[test]
fn round_trip_keeps_item_order_and_duplicates() {
    let mut ledger = Ledger::new();
    for item in ["z", "a", "m", "a", "z"] {
        ledger.borrow("u", item.to_string());
    }
    let back = decode(&encode(&ledger).unwrap()).unwrap();
    assert_eq!(back.list("u"), Ok(strings(&["z", "a", "m", "a", "z"])));
}

#[test]
fn decode_reads_inline_and_dotted_forms() {
    let inline = decode("data = { alice = [\"lamp\"], bob = [] }\n").unwrap();
    assert_eq!(inline.list("alice"), Ok(strings(&["lamp"])));
    assert_eq!(inline.list("bob"), Ok(Vec::new()));
    let dotted = decode("data.alice = ['lamp', 'saw']\n").unwrap();
    assert_eq!(dotted.list("alice"), Ok(strings(&["lamp", "saw"])));
}

#[test]
fn decode_ignores_other_top_level_entries() {
    let ledger = decode("version = 3\n[data]\nalice = [\"lamp\"]\n[other]\nx = 1\n").unwrap();
    assert_eq!(ledger.list("alice"), Ok(strings(&["lamp"])));
    assert_eq!(ledger.snapshot().len(), 1);
}

#[test]
fn decode_rejects_text_that_is_not_toml() {
    assert_eq!(decode("[data\nalice = [\"lamp\"]\n").err(), Some(LoadError::Syntax));
    assert_eq!(decode("data = ").err(), Some(LoadError::Syntax));
    assert_eq!(
        decode("[data]\nalice = [\"a\"]\nalice = [\"b\"]\n").err(),
        Some(LoadError::Syntax)
    );
}

#[test]
fn decode_rejects_documents_that_are_no_ledger() {
    assert_eq!(decode("").err(), Some(LoadError::Shape));
    assert_eq!(decode("[rental]\nalice = [\"lamp\"]\n").err(), Some(LoadError::Shape));
    assert_eq!(decode("data = 3\n").err(), Some(LoadError::Shape));
    assert_eq!(decode("data = [\"lamp\"]\n").err(), Some(LoadError::Shape));
    assert_eq!(decode("[data]\nalice = \"lamp\"\n").err(), Some(LoadError::Shape));
    assert_eq!(decode("[data]\nalice = [1, 2]\n").err(), Some(LoadError::Shape));
    assert_eq!(
        decode("[data]\nalice = [\"lamp\"]\n[data.bob]\nx = [\"y\"]\n").err(),
        Some(LoadError::Shape)
    );
}

#[test]
fn from_document_reads_a_built_value() {
    let document = table(vec![
        ("data", table(vec![("alice", array(&["lamp", "saw"])), ("bob", array(&[]))])),
        ("extra", toml::Value::Boolean(true)),
    ]);
    let ledger = from_document(&document).unwrap();
    assert_eq!(ledger.list("alice"), Ok(strings(&["lamp", "saw"])));
    assert_eq!(ledger.list("bob"), Ok(Vec::new()));
    assert_eq!(ledger.snapshot().len(), 2);
}

#[test]
fn from_document_rejects_other_shapes() {
    assert_eq!(from_document(&toml::Value::Integer(1)).err(), Some(LoadError::Shape));
    assert_eq!(from_document(&array(&["lamp"])).err(), Some(LoadError::Shape));
    assert_eq!(from_document(&table(vec![])).err(), Some(LoadError::Shape));
    assert_eq!(
        from_document(&table(vec![("data", array(&["lamp"]))])).err(),
        Some(LoadError::Shape)
    );
    let mixed = toml::Value::Array(vec![
        toml::Value::String("lamp".to_string()),
        toml::Value::Integer(2),
    ]);
    assert_eq!(
        from_document(&table(vec![("data", table(vec![("alice", mixed)]))])).err(),
        Some(LoadError::Shape)
    );
}

#[test]
fn to_document_builds_the_data_table() {
    let expected = table(vec![(
        "data",
        table(vec![("1001", array(&["lamp", "saw"])), ("2002", array(&["drill"]))]),
    )]);
    assert_eq!(to_document(&sample()), expected);
    assert_eq!(to_document(&Ledger::new()), table(vec![("data", table(vec![]))]));
}

#[test]
fn document_round_trip() {
    let ledger = sample();
    let back = from_document(&to_document(&ledger)).unwrap();
    assert!(back.equals(&ledger));
}
