use vstd::prelude::*;

verus! {

#[derive(Debug, Clone)]
pub struct VarSymbol {
    pub name: String,
    pub symbol_type: TypeSymbol,
}

#[derive(Debug, Clone)]
pub struct BuildInSymbol {
    pub name: String,
}

#[derive(Debug, Clone)]
pub struct FunctionSymbol {
    pub name: String,
    pub param: Vec<String>,
}

#[derive(Debug, Clone, Copy, PartialEq, Eq, Structural)]
pub enum TypeSymbol {
    Number,
    Unknown,
}

/// What a name stands for during name resolution.
#[derive(Debug, Clone)]
pub enum Symbol {
    VarSymbol(VarSymbol),
    BuiltInSymbol(BuildInSymbol),
    FunctionSymbol(FunctionSymbol),
}

/// The model of a symbol: its names as character sequences.
pub enum SymbolV {
    Var(Seq<char>, TypeSymbol),
    BuiltIn(Seq<char>),
    Function(Seq<char>, Seq<Seq<char>>),
}

pub open spec fn names_view(names: Seq<String>) -> Seq<Seq<char>> {
    names.map_values(|s: String| s@)
}

impl View for Symbol {
    type V = SymbolV;

    open spec fn view(&self) -> SymbolV {
        match self {
            Symbol::VarSymbol(v) => SymbolV::Var(v.name@, v.symbol_type),
            Symbol::BuiltInSymbol(b) => SymbolV::BuiltIn(b.name@),
            Symbol::FunctionSymbol(f) => SymbolV::Function(f.name@, names_view(f.param@)),
        }
    }
}

/// A copy of a list of names.
pub fn copy_names(names: &Vec<String>) -> (r: Vec<String>)
    ensures
        names_view(r@) == names_view(names@),
{
    let mut r: Vec<String> = Vec::new();
    let mut k: usize = 0;
    while k < names.len()
        invariant
            k <= names@.len(),
            r@.len() == k,
            forall|i: int| 0 <= i < k ==> r@[i]@ == names@[i]@,
        decreases names@.len() - k,
    {
        r.push(names[k].clone());
        k = k + 1;
    }
    assert(names_view(r@) =~= names_view(names@));
    r
}

impl Symbol {
    /// A copy of the symbol.
    pub fn copied(&self) -> (r: Symbol)
        ensures
            r@ == self@,
    {
        match self {
            Symbol::VarSymbol(v) => Symbol::VarSymbol(VarSymbol { name: v.name.clone(), symbol_type: v.symbol_type }),
            Symbol::BuiltInSymbol(b) => Symbol::BuiltInSymbol(BuildInSymbol { name: b.name.clone() }),
            Symbol::FunctionSymbol(f) => Symbol::FunctionSymbol(FunctionSymbol { name: f.name.clone(), param: copy_names(&f.param) }),
        }
    }
}

} // verus!
