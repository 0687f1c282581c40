use vstd::prelude::*;
use vstd::string::*;
use crate::ast::{AssignmentExpr, BinOperator, FunctionCall, FunctionDecleration, Lambda, Node, UnaryOperator, VariabeDecleration};
use crate::interpreter_option::InterpreterOptions;
use crate::misc::{kind_of, ErrorKind, NekoError};
use crate::symbol::{copy_names, BuildInSymbol, FunctionSymbol, Symbol, SymbolV, TypeSymbol, VarSymbol};
use crate::symbol_table::SymbolTable;

verus! {

/// The pass before evaluation that resolves names and rejects duplicate declarations.
#[derive(Debug)]
pub struct SemanticAnalyzer {
    /// The innermost scope; it owns the scopes that enclose it.
    pub scope: SymbolTable,
    pub interpreter_options: InterpreterOptions,
}

/// The result of a pass over a node.
pub type SResult = Result<(), NekoError>;

pub fn reference_error(prefix: &str, name: &String, suffix: &str) -> (r: NekoError)
    ensures
        r is ReferenceError,
{
    let mut message = String::from_str(prefix);
    message.append(name.as_str());
    message.append(suffix);
    NekoError::ReferenceError(message)
}

pub fn duplicate_error(name: &String) -> (r: NekoError)
    ensures
        r is SyntaxError,
{
    let mut message = String::from_str("Duplicate variable ");
    message.append(name.as_str());
    NekoError::SyntaxError(message)
}

/// The names declared in one scope.
pub open spec fn names(t: SymbolTable) -> Set<Seq<char>> {
    Set::new(|m: Seq<char>| crate::bindings::find_in(t.symbols@, m) is Some)
}

/// The names of each scope of a chain, innermost first.
pub open spec fn chain(t: SymbolTable) -> Seq<Set<Seq<char>>>
    decreases t,
{
    match t.enclosing_scope {
        Some(parent) => seq![names(t)] + chain(*parent),
        None => seq![names(t)],
    }
}

/// Some scope of the chain declares `m`.
pub open spec fn in_chain(c: Seq<Set<Seq<char>>>, m: Seq<char>) -> bool {
    exists|i: int| 0 <= i < c.len() && #[trigger] c[i].contains(m)
}

/// The set of a list of parameter names.
pub open spec fn param_set(params: Seq<String>) -> Set<Seq<char>>
    decreases params.len(),
{
    if params.len() == 0 {
        Set::empty()
    } else {
        param_set(params.drop_last()).insert(params.last()@)
    }
}

/// The outcome of a check: the innermost scope's names, or the kind of error.
pub type Checked = Result<Set<Seq<char>>, ErrorKind>;

/// The innermost scope's names after checking a declaration or statement `n` in the scope
/// chain `c`, or the kind of error if the check fails. With `off` (declarations disabled) nothing is
/// declared and function bodies are not checked.
pub open spec fn check(n: Node, c: Seq<Set<Seq<char>>>, off: bool) -> Checked
    decreases n, 2int,
{
    if c.len() == 0 {
        Err(ErrorKind::Syntax)
    } else {
        match n {
            Node::Compound(v) => check_all(v@, c, off),
            Node::Block(v) => check_all(v@, c, off),
            Node::VariabeDecleration(d) => if off {
                Ok(c[0])
            } else if c[0].contains(d.identifier@) {
                Err(ErrorKind::Syntax)
            } else {
                Ok(c[0].insert(d.identifier@))
            },
            Node::FunctionDecleration(f) => if off {
                Ok(c[0])
            } else if c[0].contains(f.name@) {
                Err(ErrorKind::Syntax)
            } else {
                let c0 = c[0].insert(f.name@);
                match check(f.block, seq![param_set(f.params@)] + c.update(0, c0), off) {
                    Ok(_) => Ok(c0),
                    Err(k) => Err(k),
                }
            },
            Node::Expression(e) => check_expr(*e, c, off),
            _ => check_expr(n, c, off),
        }
    }
}

/// `check` for an expression: names must resolve somewhere in the chain; a lambda is declared
/// under its id and its body is checked in a scope of its parameters; calls are left to run
/// time.
pub open spec fn check_expr(n: Node, c: Seq<Set<Seq<char>>>, off: bool) -> Checked
    decreases n, 1int,
{
    if c.len() == 0 {
        Err(ErrorKind::Syntax)
    } else {
        match n {
            Node::BinOperator(b) => match check_expr(b.right, c, off) {
                Ok(c0) => check_expr(b.left, c.update(0, c0), off),
                Err(k) => Err(k),
            },
            Node::Number(_) | Node::Boolean(_) | Node::String(_) | Node::Object(_) | Node::NoValue
            | Node::SetPropertyExpr(_) | Node::Index(_) | Node::FunctionCall(_) => Ok(c[0]),
            Node::Identifier(m) => if in_chain(c, m@) { Ok(c[0]) } else { Err(ErrorKind::Reference) },
            Node::UnaryOperator(u) => check_expr(u.expression, c, off),
            Node::AssignmentExpr(a) => if in_chain(c, a.identifier@) { check_expr(a.value, c, off) } else { Err(ErrorKind::Reference) },
            Node::Lambda(l) => {
                let c0 = if off { c[0] } else { c[0].insert(l.id@) };
                match check(l.block, seq![param_set(l.params@)] + c.update(0, c0), off) {
                    Ok(_) => Ok(c0),
                    Err(k) => Err(k),
                }
            },
            _ => Err(ErrorKind::Syntax),
        }
    }
}

/// `check` over a sequence, in order, each item seeing what the ones before declared.
pub open spec fn check_all(s: Seq<Node>, c: Seq<Set<Seq<char>>>, off: bool) -> Checked
    decreases s, 0int,
{
    if c.len() == 0 {
        Err(ErrorKind::Syntax)
    } else if s.len() == 0 {
        Ok(c[0])
    } else {
        match check(s[0], c, off) {
            Ok(c0) => check_all(s.drop_first(), c.update(0, c0), off),
            Err(k) => Err(k),
        }
    }
}

proof fn lemma_chain_len(t: SymbolTable)
    ensures
        chain(t).len() >= 1,
        chain(t)[0] == names(t),
    decreases t,
{
}

/// Resolution through the chain of tables is membership in the chain of name sets.
proof fn lemma_resolve(t: SymbolTable, m: Seq<char>)
    ensures
        t.resolve(m, true) is Some <==> names(t).contains(m),
        t.resolve(m, false) is Some <==> in_chain(chain(t), m),
    decreases t,
{
    let c = chain(t);
    match t.enclosing_scope {
        Some(parent) => {
            lemma_resolve(*parent, m);
            let pc = chain(*parent);
            assert(c == seq![names(t)] + pc);
            if in_chain(pc, m) {
                let i = choose|i: int| 0 <= i < pc.len() && #[trigger] pc[i].contains(m);
                assert(c[i + 1] == pc[i]);
            }
            if in_chain(c, m) && !names(t).contains(m) {
                let i = choose|i: int| 0 <= i < c.len() && #[trigger] c[i].contains(m);
                assert(i > 0);
                assert(pc[i - 1] == c[i]);
            }
        },
        None => {
            if in_chain(c, m) {
                let i = choose|i: int| 0 <= i < c.len() && #[trigger] c[i].contains(m);
                assert(i == 0);
            }
        },
    }
    if names(t).contains(m) {
        assert(c[0].contains(m));
    }
}

impl SemanticAnalyzer {
    /// The analyzer's own scope is unchanged in where it stands: same enclosing chain, name
    /// and level.
    pub open spec fn same_place(&self, before: SemanticAnalyzer) -> bool {
        &&& self.scope.enclosing_scope == before.scope.enclosing_scope
        &&& self.scope.scope_level == before.scope.scope_level
        &&& self.scope.scope_name == before.scope.scope_name
        &&& self.interpreter_options == before.interpreter_options
    }

    /// A global scope (level 1) holding the built-ins `print` and `error`.
    pub fn new() -> (r: Self)
        ensures
            r.scope.depth() == 1,
            r.scope.enclosing_scope is None,
            r.scope.scope_level == 1,
            r.scope.scope_name@ == "global"@,
            r.scope.resolve("print"@, true) == Some(SymbolV::BuiltIn("print"@)),
            r.scope.resolve("error"@, true) == Some(SymbolV::BuiltIn("error"@)),
            names(r.scope) == set!["print"@, "error"@],
            r.interpreter_options == crate::interpreter_option::ordinary(),
    {
        let mut scope = SymbolTable::new("global", 1, None);
        scope.insert("print", Symbol::BuiltInSymbol(BuildInSymbol { name: String::from_str("print") }));
        scope.insert("error", Symbol::BuiltInSymbol(BuildInSymbol { name: String::from_str("error") }));
        proof {
            reveal_strlit("print");
            reveal_strlit("error");
            assert("print"@ != "error"@) by {
                assert("print"@[0] != "error"@[0]);
            }
            assert(names(scope) =~= set!["print"@, "error"@]);
        }
        SemanticAnalyzer { scope, interpreter_options: InterpreterOptions::new() }
    }

    /// After a check that the spec `spec` describes: on success the innermost scope declares
    /// exactly the names that the spec gives; on failure the spec fails too.
    pub open spec fn settles(&self, r: SResult, spec: Checked) -> bool {
        match spec {
            Ok(c0) => r is Ok && names(self.scope) == c0,
            Err(k) => r is Err && kind_of(r->Err_0) == k,
        }
    }

    pub open spec fn off(&self) -> bool {
        self.interpreter_options.disable_decleration
    }

    proof fn lemma_same_place_chain(&self, before: SemanticAnalyzer)
        requires
            self.same_place(before),
        ensures
            chain(self.scope) == chain(before.scope).update(0, names(self.scope)),
    {
        lemma_chain_len(before.scope);
        assert(chain(self.scope) =~= chain(before.scope).update(0, names(self.scope)));
    }

    /// Enters a new scope named `name`, one level deeper.
    fn push_scope(&mut self, name: &String)
        ensures
            final(self).scope.enclosing_scope == Some(Box::new(old(self).scope)),
            final(self).scope.symbols@.len() == 0,
            final(self).interpreter_options == old(self).interpreter_options,
    {
        let level = if self.scope.scope_level < u64::MAX { self.scope.scope_level + 1 } else { u64::MAX };
        let mut parent = SymbolTable::new("", 0, None);
        std::mem::swap(&mut self.scope, &mut parent);
        self.scope = SymbolTable::new(name.as_str(), level, Some(Box::new(parent)));
    }

    /// Leaves the current scope for the one that encloses it.
    fn pop_scope(&mut self)
        requires
            old(self).scope.enclosing_scope is Some,
        ensures
            final(self).scope == *old(self).scope.enclosing_scope->Some_0,
            final(self).interpreter_options == old(self).interpreter_options,
    {
        let mut inner = SymbolTable::new("", 0, None);
        std::mem::swap(&mut self.scope, &mut inner);
        match inner.enclosing_scope {
            Some(parent) => {
                self.scope = *parent;
            },
            None => {},
        }
    }

    fn visit_compound(&mut self, nodes: &Vec<Node>) -> (r: SResult)
        ensures
            final(self).same_place(*old(self)),
            old(self).off() ==> *final(self) == *old(self),
            final(self).settles(r, check_all(nodes@, chain(old(self).scope), old(self).off())),
        decreases nodes, 0int,
    {
        let ghost c = chain(old(self).scope);
        let ghost off = old(self).off();
        proof {
            lemma_chain_len(old(self).scope);
            assert(nodes@.subrange(0, nodes@.len() as int) =~= nodes@);
        }
        let mut k: usize = 0;
        while k < nodes.len()
            invariant
                k <= nodes@.len(),
                c == chain(old(self).scope),
                off == old(self).off(),
                self.same_place(*old(self)),
                old(self).off() ==> *self == *old(self),
                check_all(nodes@, c, off) == check_all(nodes@.subrange(k as int, nodes@.len() as int), chain(self.scope), off),
            decreases nodes@.len() - k,
        {
            proof {
                self.lemma_same_place_chain(*old(self));
                lemma_chain_len(self.scope);
                let rest = nodes@.subrange(k as int, nodes@.len() as int);
                assert(rest[0] == nodes@[k as int]);
                assert(rest.drop_first() =~= nodes@.subrange(k + 1, nodes@.len() as int));
            }
            let ghost before = *self;
            self.visit(&nodes[k])?;
            proof {
                self.lemma_same_place_chain(before);
            }
            k = k + 1;
        }
        proof {
            lemma_chain_len(self.scope);
        }
        Ok(())
    }

    fn visit_block(&mut self, nodes: &Vec<Node>) -> (r: SResult)
        ensures
            final(self).same_place(*old(self)),
            old(self).off() ==> *final(self) == *old(self),
            final(self).settles(r, check_all(nodes@, chain(old(self).scope), old(self).off())),
        decreases nodes, 1int,
    {
        self.visit_compound(nodes)
    }

    fn visit_assignment(&mut self, node: &AssignmentExpr) -> (r: SResult)
        ensures
            final(self).same_place(*old(self)),
            old(self).off() ==> *final(self) == *old(self),
            final(self).settles(r, if in_chain(chain(old(self).scope), node.identifier@) {
                check_expr(node.value, chain(old(self).scope), old(self).off())
            } else {
                Err(ErrorKind::Reference)
            }),
        decreases node, 0int,
    {
        proof {
            lemma_resolve(self.scope, node.identifier@);
        }
        if self.scope.look_up(node.identifier.as_str(), false).is_some() {
            self.visit_expression(&node.value)
        } else {
            Err(reference_error("Cannot find value '", &node.identifier, "' in this scope"))
        }
    }

    /// `let name [= value];`: an error if `name` is already declared in this very scope,
    /// else `name` is declared here. Nothing happens while declarations are disabled.
    fn visit_variable_decleration(&mut self, node: &VariabeDecleration) -> (r: SResult)
        ensures
            final(self).same_place(*old(self)),
            old(self).off() ==> r is Ok && *final(self) == *old(self),
            !old(self).off() ==> {
                &&& (r is Err <==> old(self).scope.resolve(node.identifier@, true) is Some)
                &&& r is Err ==> r->Err_0 is SyntaxError && *final(self) == *old(self)
                &&& r is Ok ==> final(self).scope.resolve(node.identifier@, true)
                    == Some(SymbolV::Var(node.identifier@, TypeSymbol::Unknown))
            },
            final(self).settles(r, if old(self).off() {
                Ok(names(old(self).scope))
            } else if names(old(self).scope).contains(node.identifier@) {
                Err(ErrorKind::Syntax)
            } else {
                Ok(names(old(self).scope).insert(node.identifier@))
            }),
    {
        proof {
            lemma_resolve(self.scope, node.identifier@);
        }
        if self.interpreter_options.disable_decleration {
            return Ok(());
        }
        if self.scope.look_up(node.identifier.as_str(), true).is_some() {
            Err(duplicate_error(&node.identifier))
        } else {
            let ghost before = self.scope;
            self.scope.insert(
                node.identifier.as_str(),
                Symbol::VarSymbol(VarSymbol { name: node.identifier.clone(), symbol_type: TypeSymbol::Unknown }),
            );
            proof {
                assert(names(self.scope) =~= names(before).insert(node.identifier@));
            }
            Ok(())
        }
    }

    fn visit_bin_operator(&mut self, node: &BinOperator) -> (r: SResult)
        ensures
            final(self).same_place(*old(self)),
            old(self).off() ==> *final(self) == *old(self),
            final(self).settles(r, match check_expr(node.right, chain(old(self).scope), old(self).off()) {
                Ok(c0) => check_expr(node.left, chain(old(self).scope).update(0, c0), old(self).off()),
                Err(k) => Err(k),
            }),
        decreases node, 0int,
    {
        self.visit_expression(&node.right)?;
        let ghost mid = *self;
        proof {
            self.lemma_same_place_chain(*old(self));
        }
        let r = self.visit_expression(&node.left);
        r
    }

    fn visit_unary_operation(&mut self, node: &UnaryOperator) -> (r: SResult)
        ensures
            final(self).same_place(*old(self)),
            old(self).off() ==> *final(self) == *old(self),
            final(self).settles(r, check_expr(node.expression, chain(old(self).scope), old(self).off())),
        decreases node, 0int,
    {
        self.visit_expression(&node.expression)
    }

    /// Calls are left to run time, where arity and callability are checked.
    fn visit_function_call(&mut self, node: &FunctionCall) -> (r: SResult)
        ensures
            r is Ok,
            *final(self) == *old(self),
    {
        Ok(())
    }

    fn visit_expression(&mut self, node: &Node) -> (r: SResult)
        ensures
            final(self).same_place(*old(self)),
            old(self).off() ==> *final(self) == *old(self),
            final(self).settles(r, check_expr(*node, chain(old(self).scope), old(self).off())),
            node is Identifier ==> *final(self) == *old(self)
                && (r is Ok <==> old(self).scope.resolve(node->Identifier_0@, false) is Some),
        decreases node, 1int,
    {
        proof {
            lemma_chain_len(self.scope);
        }
        match node {
            Node::BinOperator(n) => self.visit_bin_operator(n),
            Node::Number(_) | Node::Boolean(_) | Node::String(_) | Node::Object(_) | Node::NoValue => Ok(()),
            Node::Identifier(iden) => {
                proof {
                    lemma_resolve(self.scope, iden@);
                }
                if self.scope.look_up(iden.as_str(), false).is_some() {
                    Ok(())
                } else {
                    Err(reference_error("", iden, " is not defined"))
                }
            },
            Node::UnaryOperator(n) => self.visit_unary_operation(n),
            Node::AssignmentExpr(n) => self.visit_assignment(n),
            Node::SetPropertyExpr(_) | Node::Index(_) => Ok(()),
            Node::FunctionCall(n) => self.visit_function_call(n),
            Node::Lambda(lambda) => self.visit_lambda(lambda),
            _ => Err(NekoError::SyntaxError(String::from_str("Invalid Syntax"))),
        }
    }

    /// Checks a function body in a scope of its own that holds the parameters; the scope is
    /// left again whether or not the body passes.
    fn visit_body(&mut self, name: &String, params: &Vec<String>, block: &Node) -> (r: SResult)
        ensures
            final(self).scope == old(self).scope,
            final(self).interpreter_options == old(self).interpreter_options,
            match check(*block, seq![param_set(params@)] + chain(old(self).scope), old(self).off()) {
                Ok(_) => r is Ok,
                Err(k) => r is Err && kind_of(r->Err_0) == k,
            },
        decreases block, 5int,
    {
        self.push_scope(name);
        proof {
            assert(names(self.scope) =~= param_set(params@.take(0)));
        }
        let mut k: usize = 0;
        while k < params.len()
            invariant
                k <= params@.len(),
                self.scope.enclosing_scope == Some(Box::new(old(self).scope)),
                self.interpreter_options == old(self).interpreter_options,
                names(self.scope) == param_set(params@.take(k as int)),
            decreases params@.len() - k,
        {
            let param = &params[k];
            let ghost before = self.scope;
            self.scope.insert(
                param.as_str(),
                Symbol::VarSymbol(VarSymbol { name: param.clone(), symbol_type: TypeSymbol::Unknown }),
            );
            proof {
                assert(params@.take(k + 1).drop_last() =~= params@.take(k as int));
                assert(names(self.scope) =~= names(before).insert(param@));
            }
            k = k + 1;
        }
        proof {
            assert(params@.take(k as int) =~= params@);
            assert(chain(self.scope) =~= seq![param_set(params@)] + chain(old(self).scope));
        }
        let result = self.visit(block);
        self.pop_scope();
        result
    }

    /// `function name(params) { body }`: like a `let`, and then the body is checked.
    fn visit_function_decleration(&mut self, node: &FunctionDecleration) -> (r: SResult)
        ensures
            final(self).same_place(*old(self)),
            old(self).off() ==> r is Ok && *final(self) == *old(self),
            !old(self).off() ==> {
                &&& old(self).scope.resolve(node.name@, true) is Some ==> r is Err && r->Err_0 is SyntaxError
                    && *final(self) == *old(self)
                &&& old(self).scope.resolve(node.name@, true) is None ==> final(self).scope.resolve(node.name@, true)
                    == Some(SymbolV::Function(node.name@, crate::symbol::names_view(node.params@)))
            },
            final(self).settles(r, if old(self).off() {
                Ok(names(old(self).scope))
            } else if names(old(self).scope).contains(node.name@) {
                Err(ErrorKind::Syntax)
            } else {
                let c0 = names(old(self).scope).insert(node.name@);
                match check(node.block, seq![param_set(node.params@)] + chain(old(self).scope).update(0, c0), old(self).off()) {
                    Ok(_) => Ok(c0),
                    Err(k) => Err(k),
                }
            }),
        decreases node, 3int,
    {
        proof {
            lemma_resolve(self.scope, node.name@);
        }
        if self.interpreter_options.disable_decleration {
            return Ok(());
        }
        if self.scope.look_up(node.name.as_str(), true).is_some() {
            return Err(duplicate_error(&node.name));
        }
        let ghost before = *self;
        self.scope.insert(
            node.name.as_str(),
            Symbol::FunctionSymbol(FunctionSymbol { name: node.name.clone(), param: copy_names(&node.params) }),
        );
        proof {
            assert(names(self.scope) =~= names(before.scope).insert(node.name@));
            self.lemma_same_place_chain(before);
        }
        self.visit_body(&node.name, &node.params, &node.block)
    }

    /// A lambda is declared under its id, unless declarations are disabled; then its body is
    /// checked.
    fn visit_lambda(&mut self, node: &Lambda) -> (r: SResult)
        ensures
            final(self).same_place(*old(self)),
            old(self).off() ==> *final(self) == *old(self),
            !old(self).off() ==> final(self).scope.resolve(node.id@, true)
                == Some(SymbolV::Function(node.id@, crate::symbol::names_view(node.params@))),
            final(self).settles(r, {
                let c0 = if old(self).off() { names(old(self).scope) } else { names(old(self).scope).insert(node.id@) };
                match check(node.block, seq![param_set(node.params@)] + chain(old(self).scope).update(0, c0), old(self).off()) {
                    Ok(_) => Ok(c0),
                    Err(k) => Err(k),
                }
            }),
        decreases node, 3int,
    {
        proof {
            lemma_chain_len(self.scope);
            assert(chain(self.scope) =~= chain(self.scope).update(0, names(self.scope)));
        }
        if self.interpreter_options.disable_decleration {
            return self.visit_body(&node.id, &node.params, &node.block);
        }
        let ghost before = *self;
        self.scope.insert(
            node.id.as_str(),
            Symbol::FunctionSymbol(FunctionSymbol { name: node.id.clone(), param: copy_names(&node.params) }),
        );
        proof {
            assert(names(self.scope) =~= names(before.scope).insert(node.id@));
            self.lemma_same_place_chain(before);
        }
        self.visit_body(&node.id, &node.params, &node.block)
    }

    fn visit(&mut self, node: &Node) -> (r: SResult)
        ensures
            final(self).same_place(*old(self)),
            old(self).off() ==> *final(self) == *old(self),
            final(self).settles(r, check(*node, chain(old(self).scope), old(self).off())),
        decreases node, 4int,
    {
        proof {
            lemma_chain_len(self.scope);
        }
        match node {
            Node::Compound(nodes) => self.visit_compound(nodes),
            Node::VariabeDecleration(n) => self.visit_variable_decleration(n),
            Node::FunctionDecleration(n) => self.visit_function_decleration(n),
            Node::Expression(n) => self.visit_expression(n),
            Node::Block(nodes) => self.visit_block(nodes),
            _ => self.visit_expression(node),
        }
    }

    /// Checks `node` with declarations enabled.
    pub fn analyze(&mut self, node: &Node) -> (r: SResult)
        ensures
            final(self).settles(r, check(*node, chain(old(self).scope), false)),
            final(self).scope.enclosing_scope == old(self).scope.enclosing_scope,
            final(self).scope.depth() == old(self).scope.depth(),
            final(self).interpreter_options == crate::interpreter_option::ordinary(),
    {
        self.interpreter_options = InterpreterOptions::new();
        self.visit(node)
    }

    /// Checks `node` under `option`.
    pub fn analyze_with_options(&mut self, node: &Node, option: &InterpreterOptions) -> (r: SResult)
        ensures
            final(self).settles(r, check(*node, chain(old(self).scope), option.disable_decleration)),
            option.disable_decleration ==> final(self).scope == old(self).scope,
            final(self).scope.enclosing_scope == old(self).scope.enclosing_scope,
            final(self).scope.depth() == old(self).scope.depth(),
            final(self).interpreter_options == *option,
    {
        self.interpreter_options = *option;
        self.visit(node)
    }
}

} // verus!
