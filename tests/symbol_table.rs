use neko::symbol::{BuildInSymbol, Symbol, TypeSymbol, VarSymbol};
use neko::symbol_table::SymbolTable;

fn var(name: &str) -> Symbol {
    Symbol::VarSymbol(VarSymbol { name: String::from(name), symbol_type: TypeSymbol::Unknown })
}

#[test]
fn looks_up_through_enclosing_scopes() {
    let mut global = SymbolTable::new("global", 1, None);
    global.insert("a", var("a"));
    global.insert("print", Symbol::BuiltInSymbol(BuildInSymbol { name: String::from("print") }));
    let mut inner = SymbolTable::new("f", 2, Some(Box::new(global)));
    inner.insert("b", var("b"));
    assert!(inner.look_up("a", false).is_some());
    assert!(inner.look_up("a", true).is_none());
    assert!(inner.look_up("b", true).is_some());
    assert!(inner.look_up("c", false).is_none());
    assert!(matches!(inner.look_up("print", false), Some(Symbol::BuiltInSymbol(_))));
}

#[test]
fn insert_replaces_and_remove_forgets() {
    let mut table = SymbolTable::new("global", 1, None);
    table.insert("a", var("first"));
    table.insert("a", var("second"));
    match table.look_up("a", true) {
        Some(Symbol::VarSymbol(v)) => assert_eq!(v.name, "second"),
        other => panic!("unexpected {:?}", other),
    }
    assert_eq!(table.symbols.len(), 1);
    table.remove("a");
    assert!(table.look_up("a", true).is_none());
    table.remove("missing");
    assert!(table.symbols.is_empty());
}
