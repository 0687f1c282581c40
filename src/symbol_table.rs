use vstd::prelude::*;
use vstd::string::*;
use crate::bindings::{bind, find_in, last_index, unbind};
use crate::symbol::{Symbol, SymbolV};

verus! {

/// One scope of name resolution, linked to the scope that encloses it.
#[derive(Debug)]
pub struct SymbolTable {
    /// The names declared in this scope; the last entry of a name is the one in force.
    pub symbols: Vec<(String, Symbol)>,
    pub scope_name: String,
    /// 1 for the global scope, one more for each nested scope.
    pub scope_level: u64,
    pub enclosing_scope: Option<Box<SymbolTable>>,
}

pub open spec fn symbol_view(s: Option<Symbol>) -> Option<SymbolV> {
    match s {
        Some(s) => Some(s@),
        None => None,
    }
}

impl SymbolTable {
    /// What `name` resolves to: in this scope, or, unless `current_only`, in the nearest
    /// enclosing scope that declares it.
    pub open spec fn resolve(&self, name: Seq<char>, current_only: bool) -> Option<SymbolV>
        decreases self,
    {
        match find_in(self.symbols@, name) {
            Some(s) => Some(s@),
            None => if current_only {
                None
            } else {
                match self.enclosing_scope {
                    Some(parent) => parent.resolve(name, false),
                    None => None,
                }
            },
        }
    }

    /// How many scopes the chain holds, this one included.
    pub open spec fn depth(&self) -> nat
        decreases self,
    {
        match self.enclosing_scope {
            Some(parent) => 1 + parent.depth(),
            None => 1,
        }
    }

    /// An empty scope.
    pub fn new(scope_name: &str, scope_level: u64, enclosing_scope: Option<Box<SymbolTable>>) -> (r: Self)
        ensures
            r.symbols@.len() == 0,
            r.scope_name@ == scope_name@,
            r.scope_level == scope_level,
            r.enclosing_scope == enclosing_scope,
    {
        SymbolTable {
            symbols: Vec::new(),
            scope_name: String::from_str(scope_name),
            scope_level,
            enclosing_scope,
        }
    }

    /// Declares `name` in this scope, replacing what it stood for here.
    pub fn insert(&mut self, name: &str, symbol: Symbol)
        ensures
            forall|m: Seq<char>| #[trigger] find_in(final(self).symbols@, m)
                == if m == name@ { Some(symbol) } else { find_in(old(self).symbols@, m) },
            final(self).scope_name == old(self).scope_name,
            final(self).scope_level == old(self).scope_level,
            final(self).enclosing_scope == old(self).enclosing_scope,
    {
        bind(&mut self.symbols, String::from_str(name), symbol);
    }

    /// What `name` resolves to, as `resolve` says.
    pub fn look_up(&self, name: &str, current_scope_only: bool) -> (r: Option<Symbol>)
        ensures
            symbol_view(r) == self.resolve(name@, current_scope_only),
        decreases self,
    {
        let key = String::from_str(name);
        self.look_up_key(&key, current_scope_only)
    }

    fn look_up_key(&self, name: &String, current_scope_only: bool) -> (r: Option<Symbol>)
        ensures
            symbol_view(r) == self.resolve(name@, current_scope_only),
        decreases self,
    {
        match last_index(&self.symbols, name) {
            Some(k) => Some(self.symbols[k].1.copied()),
            None => {
                if current_scope_only {
                    None
                } else {
                    match &self.enclosing_scope {
                        Some(parent) => parent.look_up_key(name, false),
                        None => None,
                    }
                }
            },
        }
    }

    /// Removes `name` from this scope.
    pub fn remove(&mut self, name: &str)
        ensures
            forall|m: Seq<char>| #[trigger] find_in(final(self).symbols@, m)
                == if m == name@ { None } else { find_in(old(self).symbols@, m) },
            final(self).scope_name == old(self).scope_name,
            final(self).scope_level == old(self).scope_level,
            final(self).enclosing_scope == old(self).enclosing_scope,
    {
        let key = String::from_str(name);
        unbind(&mut self.symbols, &key);
    }
}

} // verus!
