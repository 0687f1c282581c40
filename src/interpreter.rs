use vstd::prelude::*;
use vstd::string::*;
use crate::ast::{AssignmentExpr, BinOperator, FunctionCall, FunctionDecleration, Lambda, Node, UnaryOperator, VariabeDecleration};
use crate::enviroment::{value_ok, BuiltIn, Enviroments, FunctionType, Value};
use crate::interpreter_option::InterpreterOptions;
use crate::misc::{kind_of, ErrorKind, NekoError};
use crate::number::{count_of, count_of_exec, negate, num_eq, num_eq_exec, num_le_exec, num_lt, num_lt_exec, num_truthy, num_truthy_exec, NumberSystem, SIGN_BIT};
use crate::parser::Parser;
use crate::semantic_analyzer::{chain, check, names, SemanticAnalyzer};
use crate::grammar::{node_view, parse_text};
use crate::token::{Keyword, Operator, Token};

verus! {

/// The result of evaluating a node.
pub type IResult = Result<Value, NekoError>;

/// What an operation on given values comes to.
pub enum Outcome {
    /// Exactly this value.
    Exactly(Value),
    /// A string with this text.
    Text(Seq<char>),
    /// A number, computed by the host's arithmetic.
    SomeNumber,
    /// An error of this kind.
    Fails(ErrorKind),
}

pub open spec fn meets(r: IResult, o: Outcome) -> bool {
    match o {
        Outcome::Exactly(v) => r == Ok::<Value, NekoError>(v),
        Outcome::Text(t) => r is Ok && r->Ok_0 is String && r->Ok_0->String_0@ == t,
        Outcome::SomeNumber => r is Ok && r->Ok_0 is Number,
        Outcome::Fails(k) => r is Err && kind_of(r->Err_0) == k,
    }
}

/// Truthiness: non-zero numbers (NaN included), non-empty strings, `true` and every function.
pub open spec fn truthy(v: Value) -> bool {
    match v {
        Value::Number(b) => num_truthy(b),
        Value::String(s) => s@.len() > 0,
        Value::Boolean(b) => b,
        Value::Function(..) => true,
        Value::NoValue => false,
    }
}

pub fn to_bool(v: &Value) -> (r: bool)
    ensures
        r == truthy(*v),
{
    match v {
        Value::Number(b) => num_truthy_exec(*b),
        Value::String(s) => s.as_str().unicode_len() > 0,
        Value::Boolean(b) => *b,
        Value::Function(..) => true,
        Value::NoValue => false,
    }
}

/// Two function values are the same function: the same built-in, or the same declaration
/// (by name or lambda id) over the same captured environment.
pub open spec fn same_function(f: FunctionType, g: FunctionType) -> bool {
    match (f, g) {
        (FunctionType::Function(a), FunctionType::Function(b)) => a.name@ == b.name@,
        (FunctionType::Lambda(a), FunctionType::Lambda(b)) => a.id@ == b.id@,
        (FunctionType::BuiltIn { function: a, .. }, FunctionType::BuiltIn { function: b, .. }) => a == b,
        _ => false,
    }
}

/// Equality of values: numbers by IEEE equality, different kinds never equal.
pub open spec fn values_equal(a: Value, b: Value) -> bool {
    match (a, b) {
        (Value::Number(x), Value::Number(y)) => num_eq(x, y),
        (Value::Boolean(x), Value::Boolean(y)) => x == y,
        (Value::String(x), Value::String(y)) => x@ == y@,
        (Value::NoValue, Value::NoValue) => true,
        (Value::Function(f, e), Value::Function(g, d)) => e == d && same_function(f, g),
        _ => false,
    }
}

pub fn values_equal_exec(a: &Value, b: &Value) -> (r: bool)
    ensures
        r == values_equal(*a, *b),
{
    match (a, b) {
        (Value::Number(x), Value::Number(y)) => num_eq_exec(*x, *y),
        (Value::Boolean(x), Value::Boolean(y)) => *x == *y,
        (Value::String(x), Value::String(y)) => x.eq(y),
        (Value::NoValue, Value::NoValue) => true,
        (Value::Function(f, e), Value::Function(g, d)) => {
            *e == *d && match (f, g) {
                (FunctionType::Function(p), FunctionType::Function(q)) => p.name.eq(&q.name),
                (FunctionType::Lambda(p), FunctionType::Lambda(q)) => p.id.eq(&q.id),
                (FunctionType::BuiltIn { function: p, .. }, FunctionType::BuiltIn { function: q, .. }) => *p == *q,
                _ => false,
            }
        },
        _ => false,
    }
}

/// `s` repeated `n` times.
pub open spec fn repeat(s: Seq<char>, n: nat) -> Seq<char>
    decreases n,
{
    if n == 0 {
        Seq::empty()
    } else {
        repeat(s, (n - 1) as nat) + s
    }
}

proof fn lemma_repeat_empty(s: Seq<char>, n: nat)
    requires
        s.len() == 0,
    ensures
        repeat(s, n) == Seq::<char>::empty(),
    decreases n,
{
    if n > 0 {
        lemma_repeat_empty(s, (n - 1) as nat);
        assert(repeat(s, (n - 1) as nat) + s =~= Seq::<char>::empty());
    }
}

/// `s` repeated `count` times.
pub fn repeat_string(s: &String, count: u64) -> (r: String)
    ensures
        r@ == repeat(s@, count as nat),
{
    let mut r = String::new();
    if s.as_str().unicode_len() == 0 {
        proof {
            lemma_repeat_empty(s@, count as nat);
        }
        return r;
    }
    let mut k: u64 = 0;
    while k < count
        invariant
            k <= count,
            r@ == repeat(s@, k as nat),
        decreases count - k,
    {
        r.append(s.as_str());
        k = k + 1;
    }
    r
}

pub open spec fn is_arithmetic(op: Operator) -> bool {
    match op {
        Operator::Minus | Operator::Div | Operator::Modulus | Operator::Exponent => true,
        _ => false,
    }
}

pub open spec fn is_comparison(op: Operator) -> bool {
    match op {
        Operator::LessThan | Operator::LessThanOrEqual | Operator::GreaterThan | Operator::GreaterThanOrEqual => true,
        _ => false,
    }
}

/// How `a op b` compares, for two numbers.
pub open spec fn compare(op: Operator, a: u64, b: u64) -> bool {
    match op {
        Operator::LessThan => num_lt(a, b),
        Operator::LessThanOrEqual => num_lt(a, b) || num_eq(a, b),
        Operator::GreaterThan => num_lt(b, a),
        _ => num_lt(b, a) || num_eq(a, b),
    }
}

/// What `left op right` comes to, once both operands are values (`and` and `or` are decided
/// before the right operand is evaluated, and are not covered here).
pub open spec fn binary_outcome(op: Token, left: Value, right: Value) -> Outcome {
    match op {
        Token::Operator(o) => {
            if o == Operator::Plus {
                match (left, right) {
                    (Value::Number(_), Value::Number(_)) => Outcome::SomeNumber,
                    (Value::String(a), Value::String(b)) => Outcome::Text(a@ + b@),
                    _ => Outcome::Fails(ErrorKind::Type),
                }
            } else if o == Operator::Mul {
                match (left, right) {
                    (Value::Number(_), Value::Number(_)) => Outcome::SomeNumber,
                    (Value::String(a), Value::Number(n)) => match count_of(n) {
                        Some(c) => Outcome::Text(repeat(a@, c as nat)),
                        None => Outcome::Fails(ErrorKind::Type),
                    },
                    (Value::Number(n), Value::String(a)) => match count_of(n) {
                        Some(c) => Outcome::Text(repeat(a@, c as nat)),
                        None => Outcome::Fails(ErrorKind::Type),
                    },
                    _ => Outcome::Fails(ErrorKind::Type),
                }
            } else if is_arithmetic(o) {
                match (left, right) {
                    (Value::Number(_), Value::Number(_)) => Outcome::SomeNumber,
                    _ => Outcome::Fails(ErrorKind::Type),
                }
            } else if o == Operator::DoubleEqual {
                Outcome::Exactly(Value::Boolean(values_equal(left, right)))
            } else if o == Operator::NotEqual {
                Outcome::Exactly(Value::Boolean(!values_equal(left, right)))
            } else if is_comparison(o) {
                match (left, right) {
                    (Value::Number(a), Value::Number(b)) => Outcome::Exactly(Value::Boolean(compare(o, a, b))),
                    _ => Outcome::Fails(ErrorKind::Type),
                }
            } else {
                Outcome::Fails(ErrorKind::Syntax)
            }
        },
        _ => Outcome::Fails(ErrorKind::Syntax),
    }
}

/// What `op value` comes to.
pub open spec fn unary_outcome(op: Token, v: Value) -> Outcome {
    match op {
        Token::Operator(Operator::Plus) => match v {
            Value::Number(_) => Outcome::Exactly(v),
            _ => Outcome::Fails(ErrorKind::Type),
        },
        Token::Operator(Operator::Minus) => match v {
            Value::Number(b) => Outcome::Exactly(Value::Number(b ^ SIGN_BIT)),
            _ => Outcome::Fails(ErrorKind::Type),
        },
        Token::Operator(Operator::Not) => Outcome::Exactly(Value::Boolean(!truthy(v))),
        _ => Outcome::Fails(ErrorKind::Syntax),
    }
}

fn type_error(message: &str) -> (r: IResult)
    ensures
        meets(r, Outcome::Fails(ErrorKind::Type)),
{
    Err(NekoError::TypeError(String::from_str(message)))
}

fn syntax_error(message: &str) -> (r: IResult)
    ensures
        meets(r, Outcome::Fails(ErrorKind::Syntax)),
{
    Err(NekoError::SyntaxError(String::from_str(message)))
}

/// Applies a unary operator to a value.
pub fn apply_unary(operator: &Token, value: Value) -> (r: IResult)
    ensures
        meets(r, unary_outcome(*operator, value)),
{
    match operator {
        Token::Operator(Operator::Plus) => match value {
            Value::Number(_) => Ok(value),
            _ => type_error("Expected Number for unary Plus"),
        },
        Token::Operator(Operator::Minus) => match value {
            Value::Number(b) => Ok(Value::Number(negate(b))),
            _ => type_error("Expected Number for unary Minus"),
        },
        Token::Operator(Operator::Not) => Ok(Value::Boolean(!to_bool(&value))),
        _ => syntax_error("Expected a unary operator '+', '-' or 'not'"),
    }
}

/// Applies a binary operator to two values, with the host's arithmetic for numbers.
pub fn apply_binary<N: NumberSystem>(numbers: &N, operator: &Token, left: Value, right: Value) -> (r: IResult)
    ensures
        meets(r, binary_outcome(*operator, left, right)),
{
    let o = match operator {
        Token::Operator(o) => *o,
        _ => return syntax_error("Expected an operator"),
    };
    match o {
        Operator::Plus => match (left, right) {
            (Value::Number(a), Value::Number(b)) => Ok(Value::Number(numbers.add(a, b))),
            (Value::String(a), Value::String(b)) => {
                let mut s = a;
                s.append(b.as_str());
                Ok(Value::String(s))
            },
            _ => type_error("Mismatched types for binary Add"),
        },
        Operator::Mul => match (left, right) {
            (Value::Number(a), Value::Number(b)) => Ok(Value::Number(numbers.mul(a, b))),
            (Value::String(a), Value::Number(n)) | (Value::Number(n), Value::String(a)) => match count_of_exec(n) {
                Some(c) => Ok(Value::String(repeat_string(&a, c))),
                None => type_error("Can't multiply sequence by non-positive int of type float or negative int"),
            },
            _ => type_error("Mismatched types for binary Mul"),
        },
        Operator::Minus | Operator::Div | Operator::Modulus | Operator::Exponent => match (left, right) {
            (Value::Number(a), Value::Number(b)) => {
                let v = match o {
                    Operator::Minus => numbers.sub(a, b),
                    Operator::Div => numbers.div(a, b),
                    Operator::Modulus => numbers.rem(a, b),
                    _ => numbers.pow(a, b),
                };
                Ok(Value::Number(v))
            },
            _ => type_error("Expected Number for binary operation"),
        },
        Operator::DoubleEqual => Ok(Value::Boolean(values_equal_exec(&left, &right))),
        Operator::NotEqual => Ok(Value::Boolean(!values_equal_exec(&left, &right))),
        Operator::LessThan | Operator::LessThanOrEqual | Operator::GreaterThan | Operator::GreaterThanOrEqual => match (left, right) {
            (Value::Number(a), Value::Number(b)) => {
                let v = match o {
                    Operator::LessThan => num_lt_exec(a, b),
                    Operator::LessThanOrEqual => num_le_exec(a, b),
                    Operator::GreaterThan => num_lt_exec(b, a),
                    _ => num_le_exec(b, a),
                };
                Ok(Value::Boolean(v))
            },
            _ => type_error("Expected Number for comparison"),
        },
        _ => syntax_error("Expected a binary operator"),
    }
}


/// The text of a value other than a number (numbers are written by the host).
pub open spec fn text_of(v: Value) -> Seq<char> {
    match v {
        Value::Boolean(b) => if b { "true"@ } else { "false"@ },
        Value::String(s) => s@,
        Value::Function(FunctionType::Function(f), _) => "[Function: "@ + f.name@ + "]"@,
        Value::Function(FunctionType::Lambda(_), _) => "[Function: (lambda)]"@,
        Value::Function(FunctionType::BuiltIn { name, .. }, _) => "[Built-In Function: "@ + name@ + "]"@,
        _ => "none"@,
    }
}

impl Value {
    /// The value as text: strings without quotes, numbers as the host writes them.
    pub fn stringify<N: NumberSystem>(&self, numbers: &N) -> (r: String)
        ensures
            !(*self is Number) ==> r@ == text_of(*self),
    {
        match self {
            Value::Number(b) => numbers.render(*b),
            Value::Boolean(b) => if *b { String::from_str("true") } else { String::from_str("false") },
            Value::String(s) => s.clone(),
            Value::Function(FunctionType::Function(f), _) => {
                let mut t = String::from_str("[Function: ");
                t.append(f.name.as_str());
                t.append("]");
                t
            },
            Value::Function(FunctionType::Lambda(_), _) => String::from_str("[Function: (lambda)]"),
            Value::Function(FunctionType::BuiltIn { name, .. }, _) => {
                let mut t = String::from_str("[Built-In Function: ");
                t.append(name.as_str());
                t.append("]");
                t
            },
            Value::NoValue => String::from_str("none"),
        }
    }
}

/// What a built-in call comes to, given its evaluated arguments.
pub open spec fn builtin_outcome(function: BuiltIn, args: Seq<Value>) -> Outcome {
    match function {
        BuiltIn::Print => Outcome::Exactly(Value::NoValue),
        BuiltIn::Error => if args.len() > 0 {
            Outcome::Fails(ErrorKind::Unknown)
        } else {
            Outcome::Fails(ErrorKind::Type)
        },
    }
}

/// `v` is the built-in function `f`.
pub open spec fn is_builtin(v: Option<Value>, f: BuiltIn) -> bool {
    match v {
        Some(Value::Function(FunctionType::BuiltIn { function, .. }, _)) => function == f,
        _ => false,
    }
}

/// The most nested user-function calls an evaluation may make; a call beyond it fails with an
/// `UnknownError` (see `valid_user`), where unbounded recursion would exhaust the stack.
pub const MAX_CALL_DEPTH: u64 = 200;

/// A long-lived interpreter: names declared by one input stay visible to the next.
#[derive(Debug)]
pub struct Interpreter<N: NumberSystem> {
    envs: Enviroments,
    env: usize,
    semantic_analyzer: SemanticAnalyzer,
    interpreter_options: InterpreterOptions,
    numbers: N,
    output: Vec<Vec<Value>>,
}

/// What `name` is bound to in the parameters of a call with `args`: its last parameter
/// position takes the argument there, or no value when there are fewer arguments.
pub open spec fn param_binding(params: Seq<Seq<char>>, args: Seq<Value>, name: Seq<char>) -> Option<Value>
    decreases params.len(),
{
    if params.len() == 0 {
        None
    } else if params.last() == name {
        let k = params.len() - 1;
        Some(if k < args.len() { args[k] } else { Value::NoValue })
    } else {
        param_binding(params.drop_last(), args, name)
    }
}

impl<N: NumberSystem> Interpreter<N> {
    /// The interpreter's state hangs together: its environments are well formed, evaluation
    /// stands in the global environment, and name resolution in the global scope.
    pub closed spec fn wf(&self) -> bool {
        &&& self.inner_wf()
        &&& self.env == 0
        &&& self.semantic_analyzer.scope.enclosing_scope is None
    }

    closed spec fn inner_wf(&self) -> bool {
        &&& self.envs.wf()
        &&& self.env < self.envs.frames@.len()
        &&& forall|i: int, j: int| 0 <= i < self.output@.len() && 0 <= j < self.output@[i]@.len()
            ==> value_ok(#[trigger] self.output@[i]@[j], self.envs.frames@.len() as int)
    }

    /// The lines that `print` has produced and that nobody has taken yet.
    pub closed spec fn printed(&self) -> Seq<Vec<Value>> {
        self.output@
    }

    /// How many scopes name resolution stands in.
    pub closed spec fn scope_depth(&self) -> nat {
        self.semantic_analyzer.scope.depth()
    }

    /// How many environments the current one is nested in, itself included.
    pub closed spec fn env_depth(&self) -> nat {
        self.envs.depth(self.env as int)
    }

    /// What `name` is bound to in the global environment.
    pub closed spec fn global(&self, name: Seq<char>) -> Option<Value> {
        self.envs.lookup(0, name)
    }

    /// What `name` resolves to in the global scope of name resolution.
    pub closed spec fn global_symbol(&self, name: Seq<char>) -> Option<crate::symbol::SymbolV> {
        self.semantic_analyzer.scope.resolve(name, false)
    }

    /// An evaluation step leaves `self` consistent with `before`: environments only grow,
    /// evaluation is back in the environment it started in, name resolution stands where it
    /// stood, and with declarations disabled no existing environment has changed.
    closed spec fn evolves(&self, before: Self) -> bool {
        &&& self.inner_wf()
        &&& self.envs.extends(before.envs)
        &&& self.env == before.env
        &&& self.semantic_analyzer.same_place(before.semantic_analyzer)
        &&& self.interpreter_options == before.interpreter_options
        &&& self.interpreter_options.disable_decleration ==> {
            &&& forall|i: int| 0 <= i < before.envs.frames@.len() ==> #[trigger] self.envs.frames@[i] == before.envs.frames@[i]
            &&& self.semantic_analyzer == before.semantic_analyzer
        }
    }

    closed spec fn result_ok(&self, r: IResult) -> bool {
        r is Ok ==> value_ok(r->Ok_0, self.envs.frames@.len() as int)
    }
}

/// The record of one evaluation: the state before and after, the result, and the records of
/// the evaluations it was made of, in order.
pub struct Step<N: NumberSystem> {
    pub start: Interpreter<N>,
    pub end: Interpreter<N>,
    pub result: IResult,
    pub kids: Seq<Step<N>>,
}

impl<N: NumberSystem> Interpreter<N> {
    /// `b` is `a` with only environments changed: `name` bound to `v` in environment `e`.
    pub closed spec fn defined(a: Self, e: int, name: Seq<char>, v: Value, b: Self) -> bool {
        &&& 0 <= e < a.envs.frames@.len()
        &&& b.envs.frames@.len() == a.envs.frames@.len()
        &&& forall|i: int| 0 <= i < a.envs.frames@.len() && i != e ==> #[trigger] b.envs.frames@[i] == a.envs.frames@[i]
        &&& b.envs.frames@[e].enclosing_enviroment == a.envs.frames@[e].enclosing_enviroment
        &&& forall|m: Seq<char>| #[trigger] crate::bindings::find_in(b.envs.frames@[e].values@, m)
            == if m == name { Some(v) } else { crate::bindings::find_in(a.envs.frames@[e].values@, m) }
        &&& b.env == a.env
        &&& b.semantic_analyzer == a.semantic_analyzer
        &&& b.interpreter_options == a.interpreter_options
        &&& b.output == a.output
        &&& b.numbers == a.numbers
    }

    /// `b` is `a` inside a call: a fresh environment enclosed by `closure` binds the
    /// parameters to the arguments, and evaluation stands in it.
    pub closed spec fn entered(a: Self, closure: usize, params: Seq<String>, args: Seq<Value>, b: Self) -> bool {
        let r = a.envs.frames@.len() as int;
        &&& b.envs.frames@.len() == r + 1
        &&& forall|i: int| 0 <= i < r ==> #[trigger] b.envs.frames@[i] == a.envs.frames@[i]
        &&& b.envs.frames@[r].enclosing_enviroment == Some(closure)
        &&& forall|m: Seq<char>| #[trigger] crate::bindings::find_in(b.envs.frames@[r].values@, m)
            == param_binding(crate::symbol::names_view(params), args, m)
        &&& b.env == r
        &&& b.semantic_analyzer == a.semantic_analyzer
        &&& b.interpreter_options == a.interpreter_options
        &&& b.output == a.output
        &&& b.numbers == a.numbers
    }

    /// `s` with evaluation standing in environment `e`.
    pub closed spec fn with_env(s: Self, e: usize) -> Self {
        Interpreter {
            envs: s.envs,
            env: e,
            semantic_analyzer: s.semantic_analyzer,
            interpreter_options: s.interpreter_options,
            numbers: s.numbers,
            output: s.output,
        }
    }

    /// What a failed `let` leaves: at the global level the name is dropped from the global
    /// scope so that it can be declared again; the environments are as they were.
    pub closed spec fn forgotten(a: Self, name: Seq<char>, b: Self) -> bool {
        if a.env == 0 {
            &&& b.envs == a.envs
            &&& b.env == a.env
            &&& b.interpreter_options == a.interpreter_options
            &&& b.output == a.output
            &&& b.numbers == a.numbers
            &&& b.semantic_analyzer.interpreter_options == a.semantic_analyzer.interpreter_options
            &&& b.semantic_analyzer.scope.enclosing_scope == a.semantic_analyzer.scope.enclosing_scope
            &&& b.semantic_analyzer.scope.scope_name == a.semantic_analyzer.scope.scope_name
            &&& b.semantic_analyzer.scope.scope_level == a.semantic_analyzer.scope.scope_level
            &&& forall|m: Seq<char>| #[trigger] crate::bindings::find_in(b.semantic_analyzer.scope.symbols@, m)
                == if m == name { None } else { crate::bindings::find_in(a.semantic_analyzer.scope.symbols@, m) }
        } else {
            b == a
        }
    }

    /// A built-in call on evaluated arguments: `print` records them as a line of output.
    pub closed spec fn builtin_step(a: Self, f: BuiltIn, args: Seq<Value>, b: Self, r: IResult) -> bool {
        &&& meets(r, builtin_outcome(f, args))
        &&& match f {
            BuiltIn::Print => {
                &&& b.output@ == a.output@.push(b.output@.last())
                &&& b.output@.last()@ == args
                &&& b.envs == a.envs
                &&& b.env == a.env
                &&& b.semantic_analyzer == a.semantic_analyzer
                &&& b.interpreter_options == a.interpreter_options
                &&& b.numbers == a.numbers
            },
            BuiltIn::Error => b == a,
        }
    }

    /// The state after a list of evaluations that starts in `start`.
    pub open spec fn list_end(kids: Seq<Step<N>>, start: Self) -> Self {
        if kids.len() == 0 {
            start
        } else {
            kids.last().end
        }
    }

    /// The list stopped at an error.
    pub open spec fn failed(kids: Seq<Step<N>>) -> bool {
        kids.len() > 0 && kids.last().result is Err
    }

    /// Every item was evaluated, or the list stopped at an error.
    pub open spec fn complete(kids: Seq<Step<N>>, items: Seq<Node>) -> bool {
        kids.len() == items.len() || Self::failed(kids)
    }

    /// The value of a program or block: the last value that is not `none`, or the error.
    pub open spec fn seq_result(kids: Seq<Step<N>>) -> IResult
        decreases kids.len(),
    {
        if kids.len() == 0 {
            Ok(Value::NoValue)
        } else {
            match Self::seq_result(kids.drop_last()) {
                Ok(acc) => match kids.last().result {
                    Ok(v) => Ok(if v is NoValue { acc } else { v }),
                    Err(e) => Err(e),
                },
                Err(e) => Err(e),
            }
        }
    }

    /// The values of evaluated arguments.
    pub open spec fn arg_values(kids: Seq<Step<N>>) -> Seq<Value>
        decreases kids.len(),
    {
        if kids.len() == 0 {
            Seq::empty()
        } else {
            Self::arg_values(kids.drop_last()).push(match kids.last().result {
                Ok(v) => v,
                Err(_) => Value::NoValue,
            })
        }
    }

    /// `kids` evaluate the first `kids.len()` of `items` in order, each starting where the
    /// one before ended, all but the last successfully.
    pub closed spec fn valid_list(kids: Seq<Step<N>>, items: Seq<Node>, d: u64, start: Self) -> bool
        decreases kids, 0int,
    {
        if kids.len() == 0 {
            true
        } else {
            let prev = kids.drop_last();
            &&& kids.len() <= items.len()
            &&& Self::valid_list(prev, items, d, start)
            &&& (prev.len() > 0 ==> prev.last().result is Ok)
            &&& kids.last().start == Self::list_end(prev, start)
            &&& Self::valid_stmt(kids.last(), items[kids.len() - 1], d)
        }
    }

    /// `st` records the evaluation of a statement `n`, with `d` levels of calls left. This is
    /// the evaluator's semantics: everything is determined except the numbers that the host
    /// arithmetic returns.
    pub closed spec fn valid_stmt(st: Step<N>, n: Node, d: u64) -> bool
        decreases st, 3int,
    {
        match n {
            Node::Compound(v) => Self::valid_seq(st, v@, d),
            Node::Block(v) => Self::valid_seq(st, v@, d),
            Node::VariabeDecleration(decl) => if st.start.interpreter_options.disable_decleration {
                st.end == st.start && st.result == Ok::<Value, NekoError>(Value::NoValue)
            } else {
                match decl.value {
                    None => Self::defined(st.start, st.start.env as int, decl.identifier@, Value::NoValue, st.end)
                        && st.result == Ok::<Value, NekoError>(Value::NoValue),
                    Some(e) => {
                        &&& st.kids.len() == 1
                        &&& st.kids[0].start == st.start
                        &&& Self::valid_stmt(st.kids[0], e, d)
                        &&& match st.kids[0].result {
                            Ok(v) => Self::defined(st.kids[0].end, st.kids[0].end.env as int, decl.identifier@, v, st.end)
                                && st.result == Ok::<Value, NekoError>(Value::NoValue),
                            Err(err) => Self::forgotten(st.kids[0].end, decl.identifier@, st.end)
                                && st.result == Err::<Value, NekoError>(err),
                        }
                    },
                }
            },
            Node::FunctionDecleration(f) => st.result == Ok::<Value, NekoError>(Value::NoValue)
                && if st.start.interpreter_options.disable_decleration {
                    st.end == st.start
                } else {
                    Self::defined(st.start, st.start.env as int, f.name@, Value::Function(FunctionType::Function(f), st.start.env), st.end)
                },
            Node::Expression(e) => Self::valid_expr(st, *e, d),
            _ => Self::valid_expr(st, n, d),
        }
    }

    /// A program or block: its statements in order, stopping at the first error.
    pub closed spec fn valid_seq(st: Step<N>, items: Seq<Node>, d: u64) -> bool
        decreases st, 1int,
    {
        &&& Self::valid_list(st.kids, items, d, st.start)
        &&& Self::complete(st.kids, items)
        &&& st.end == Self::list_end(st.kids, st.start)
        &&& st.result == Self::seq_result(st.kids)
    }

    /// `st` records the evaluation of an expression `n`.
    pub closed spec fn valid_expr(st: Step<N>, n: Node, d: u64) -> bool
        decreases st, 2int,
    {
        let s0 = st.start;
        match n {
            Node::BinOperator(b) => {
                &&& st.kids.len() >= 1
                &&& st.kids[0].start == s0
                &&& Self::valid_expr(st.kids[0], b.left, d)
                &&& match st.kids[0].result {
                    Err(err) => st.kids.len() == 1 && st.end == st.kids[0].end && st.result == Err::<Value, NekoError>(err),
                    Ok(lv) => if (b.operator == Token::Keyword(Keyword::And) && !truthy(lv))
                        || (b.operator == Token::Keyword(Keyword::Or) && truthy(lv)) {
                        st.kids.len() == 1 && st.end == st.kids[0].end && st.result == Ok::<Value, NekoError>(lv)
                    } else {
                        &&& st.kids.len() == 2
                        &&& st.kids[1].start == st.kids[0].end
                        &&& Self::valid_expr(st.kids[1], b.right, d)
                        &&& st.end == st.kids[1].end
                        &&& if b.operator == Token::Keyword(Keyword::And) || b.operator == Token::Keyword(Keyword::Or) {
                            st.result == st.kids[1].result
                        } else {
                            match st.kids[1].result {
                                Err(err) => st.result == Err::<Value, NekoError>(err),
                                Ok(rv) => meets(st.result, binary_outcome(b.operator, lv, rv)),
                            }
                        }
                    },
                }
            },
            Node::Number(t) => st.end == s0 && st.result is Ok && st.result->Ok_0 is Number
                && (crate::number::literal_integer(t@) is Some ==> st.result->Ok_0->Number_0
                    == crate::number::integer_bits(crate::number::literal_integer(t@)->Some_0)),
            Node::Boolean(bv) => st.end == s0 && st.result == Ok::<Value, NekoError>(Value::Boolean(bv)),
            Node::String(t) => st.end == s0 && st.result is Ok && st.result->Ok_0 is String && st.result->Ok_0->String_0@ == t@,
            Node::NoValue => st.end == s0 && st.result == Ok::<Value, NekoError>(Value::NoValue),
            Node::Identifier(name) => st.end == s0 && match s0.envs.lookup(s0.env as int, name@) {
                Some(v) => st.result == Ok::<Value, NekoError>(v),
                None => st.result is Err && st.result->Err_0 is ReferenceError,
            },
            Node::UnaryOperator(u) => {
                &&& st.kids.len() == 1
                &&& st.kids[0].start == s0
                &&& Self::valid_expr(st.kids[0], u.expression, d)
                &&& st.end == st.kids[0].end
                &&& match st.kids[0].result {
                    Err(err) => st.result == Err::<Value, NekoError>(err),
                    Ok(v) => meets(st.result, unary_outcome(u.operator, v)),
                }
            },
            Node::AssignmentExpr(a) => {
                &&& st.kids.len() == 1
                &&& st.kids[0].start == s0
                &&& Self::valid_expr(st.kids[0], a.value, d)
                &&& match st.kids[0].result {
                    Err(err) => st.end == st.kids[0].end && st.result == Err::<Value, NekoError>(err),
                    Ok(v) => {
                        let sm = st.kids[0].end;
                        if sm.interpreter_options.disable_decleration {
                            st.end == sm && st.result == Ok::<Value, NekoError>(v)
                        } else {
                            match sm.envs.assign_target(sm.env as int, a.identifier@) {
                                Some(t) => Self::defined(sm, t, a.identifier@, v, st.end) && st.result == Ok::<Value, NekoError>(v),
                                None => st.end == sm && st.result is Err && st.result->Err_0 is ReferenceError,
                            }
                        }
                    },
                }
            },
            Node::FunctionCall(c) => if s0.interpreter_options.disable_calls {
                st.end == s0 && st.result is Err && st.result->Err_0 is UnknownError
            } else {
                &&& st.kids.len() >= 1
                &&& st.kids[0].start == s0
                &&& Self::valid_expr(st.kids[0], c.function, d)
                &&& match st.kids[0].result {
                    Err(err) => st.kids.len() == 1 && st.end == st.kids[0].end && st.result == Err::<Value, NekoError>(err),
                    Ok(f) => {
                        &&& st.kids.len() == 2
                        &&& st.kids[1].start == st.kids[0].end
                        &&& Self::valid_call(st.kids[1], f, c.arguments@, d)
                        &&& st.end == st.kids[1].end
                        &&& st.result == st.kids[1].result
                    },
                }
            },
            Node::Lambda(l) => st.result == Ok::<Value, NekoError>(Value::Function(FunctionType::Lambda(l), s0.env))
                && if s0.interpreter_options.disable_decleration {
                    st.end == s0
                } else {
                    Self::defined(s0, s0.env as int, l.id@, Value::Function(FunctionType::Lambda(l), s0.env), st.end)
                },
            _ => st.end == s0 && st.result is Err && st.result->Err_0 is SyntaxError,
        }
    }

    /// `a` records the arguments `args` evaluated from left to right in the caller's
    /// environment, stopping at the first error.
    pub closed spec fn valid_args(a: Step<N>, args: Seq<Node>, d: u64) -> bool
        decreases a, 0int,
    {
        &&& Self::valid_list(a.kids, args, d, a.start)
        &&& Self::complete(a.kids, args)
        &&& a.end == Self::list_end(a.kids, a.start)
    }

    /// `st` records calling the value `f` with the argument expressions `args`: for a user
    /// function, the arguments are evaluated, then the body runs in a fresh environment enclosed
    /// by the captured one, and evaluation returns to the caller's environment; for a built-in,
    /// the arguments are evaluated and handed to it.
    pub closed spec fn valid_call(st: Step<N>, f: Value, args: Seq<Node>, d: u64) -> bool
        decreases st, 1int,
    {
        match f {
            Value::Function(FunctionType::Function(g), e) => Self::valid_user(st, g.params@, g.block, e, args, d),
            Value::Function(FunctionType::Lambda(l), e) => Self::valid_user(st, l.params@, l.block, e, args, d),
            Value::Function(FunctionType::BuiltIn { function, .. }, _) => {
                &&& st.kids.len() == 1
                &&& st.kids[0].start == st.start
                &&& Self::valid_args(st.kids[0], args, d)
                &&& if Self::failed(st.kids[0].kids) {
                    st.end == st.kids[0].end && st.result == st.kids[0].kids.last().result
                } else {
                    Self::builtin_step(st.kids[0].end, function, Self::arg_values(st.kids[0].kids), st.end, st.result)
                }
            },
            _ => st.end == st.start && st.result is Err && st.result->Err_0 is TypeError,
        }
    }

    pub closed spec fn valid_user(st: Step<N>, params: Seq<String>, block: Node, closure: usize, args: Seq<Node>, d: u64) -> bool
        decreases st, 0int,
    {
        &&& st.kids.len() >= 1
        &&& st.kids[0].start == st.start
        &&& Self::valid_args(st.kids[0], args, d)
        &&& if Self::failed(st.kids[0].kids) {
            st.kids.len() == 1 && st.end == st.kids[0].end && st.result == st.kids[0].kids.last().result
        } else if d == 0 || st.kids[0].end.envs.frames@.len() >= usize::MAX - 1 {
            st.kids.len() == 1 && st.end == st.kids[0].end && st.result is Err && st.result->Err_0 is UnknownError
        } else {
            &&& st.kids.len() == 2
            &&& Self::entered(st.kids[0].end, closure, params, Self::arg_values(st.kids[0].kids), st.kids[1].start)
            &&& Self::valid_stmt(st.kids[1], block, (d - 1) as u64)
            &&& st.end == Self::with_env(st.kids[1].end, st.kids[0].end.env)
            &&& st.result == st.kids[1].result
        }
    }

    /// `g` records an evaluation from `before` to `after` with result `r`.
    pub open spec fn records(g: Step<N>, before: Self, after: Self, r: IResult) -> bool {
        g.start == before && g.end == after && g.result == r
    }
}

impl<N: NumberSystem> Interpreter<N> {
    proof fn lemma_evolves_trans(a: Self, b: Self, c: Self)
        requires
            b.evolves(a),
            c.evolves(b),
        ensures
            c.evolves(a),
    {
    }

    proof fn lemma_evolves_refl(a: Self)
        requires
            a.inner_wf(),
        ensures
            a.evolves(a),
    {
    }

    /// A fresh interpreter over the host arithmetic `numbers`, with `print` and `error`
    /// defined globally.
    pub fn new(numbers: N) -> (r: Self)
        ensures
            r.wf(),
            r.scope_depth() == 1,
            r.env_depth() == 1,
            is_builtin(r.global("print"@), BuiltIn::Print),
            is_builtin(r.global("error"@), BuiltIn::Error),
            r.global_symbol("print"@) is Some,
            r.global_symbol("error"@) is Some,
    {
        let mut envs = Enviroments::new();
        envs.define(0, "print", Value::Function(FunctionType::BuiltIn { name: String::from_str("print"), function: BuiltIn::Print }, 0));
        envs.define(0, "error", Value::Function(FunctionType::BuiltIn { name: String::from_str("error"), function: BuiltIn::Error }, 0));
        let r = Interpreter {
            envs,
            env: 0,
            semantic_analyzer: SemanticAnalyzer::new(),
            interpreter_options: InterpreterOptions::new(),
            numbers,
            output: Vec::new(),
        };
        proof {
            reveal_strlit("print");
            reveal_strlit("error");
            assert("print"@ != "error"@) by {
                assert("print"@[0] != "error"@[0]);
            }
            assert(is_builtin(r.envs.lookup(0, "print"@), BuiltIn::Print));
        }
        r
    }

    /// The lines that `print` has produced since the last call, each as its values.
    pub fn take_output(&mut self) -> (r: Vec<Vec<Value>>)
        requires
            old(self).wf(),
        ensures
            final(self).wf(),
            r@ == old(self).printed(),
    {
        let mut out = Vec::new();
        std::mem::swap(&mut out, &mut self.output);
        out
    }

    /// The host arithmetic.
    pub fn numbers(&self) -> (r: &N)
    {
        &self.numbers
    }

    fn call_builtin(&mut self, function: BuiltIn, args: Vec<Value>) -> (r: IResult)
        requires
            old(self).inner_wf(),
            forall|j: int| 0 <= j < args@.len() ==> value_ok(#[trigger] args@[j], old(self).envs.frames@.len() as int),
        ensures
            final(self).evolves(*old(self)),
            final(self).result_ok(r),
            meets(r, builtin_outcome(function, args@)),
            function == BuiltIn::Print ==> final(self).printed() == old(self).printed().push(args)
                && final(self).envs == old(self).envs && final(self).semantic_analyzer == old(self).semantic_analyzer,
            function == BuiltIn::Error ==> *final(self) == *old(self),
            Self::builtin_step(*old(self), function, args@, *final(self), r),
            function == BuiltIn::Error && args@.len() > 0 && !(args@[0] is Number) ==> r is Err && r->Err_0 is UnknownError
                && r->Err_0->UnknownError_0@ == text_of(args@[0]),
            function == BuiltIn::Error && args@.len() == 0 ==> r is Err && r->Err_0 is TypeError
                && r->Err_0->TypeError_0@ == "Expect value got none."@,
    {
        match function {
            BuiltIn::Print => {
                let ghost before = self.output@;
                self.output.push(args);
                proof {
                    assert(self.output@ =~= before.push(self.output@.last()));
                }
                Ok(Value::NoValue)
            },
            BuiltIn::Error => {
                if args.len() > 0 {
                    Err(NekoError::UnknownError(args[0].stringify(&self.numbers)))
                } else {
                    Err(NekoError::TypeError(String::from_str("Expect value got none.")))
                }
            },
        }
    }

    fn visit_compound(&mut self, nodes: &Vec<Node>, depth: u64) -> (res: (IResult, Ghost<Step<N>>))
        requires
            old(self).inner_wf(),
        ensures
            final(self).evolves(*old(self)),
            final(self).result_ok(res.0),
            Self::records(res.1@, *old(self), *final(self), res.0),
            Self::valid_seq(res.1@, nodes@, depth),
        decreases depth, nodes, 0int,
    {
        proof {
            Self::lemma_evolves_refl(*self);
        }
        let ghost s0 = *self;
        let ghost mut kids: Seq<Step<N>> = Seq::empty();
        let mut result = Value::NoValue;
        let mut k: usize = 0;
        while k < nodes.len()
            invariant
                k <= nodes@.len(),
                s0 == *old(self),
                self.evolves(*old(self)),
                self.result_ok(Ok(result)),
                kids.len() == k,
                Self::valid_list(kids, nodes@, depth, s0),
                k > 0 ==> kids.last().result is Ok,
                Self::list_end(kids, s0) == *self,
                Self::seq_result(kids) == Ok::<Value, NekoError>(result),
            decreases nodes@.len() - k,
        {
            let ghost before = *self;
            let (step, g) = self.visit(&nodes[k], depth);
            proof {
                Self::lemma_evolves_trans(*old(self), before, *self);
                let prev = kids;
                kids = kids.push(g@);
                assert(kids.drop_last() =~= prev);
            }
            match step {
                Ok(v) => {
                    match v {
                        Value::NoValue => {},
                        other => {
                            result = other;
                        },
                    }
                },
                Err(e) => {
                    let ghost st = Step { start: s0, end: *self, result: Err::<Value, NekoError>(e), kids: kids };
                    return (Err(e), Ghost(st));
                },
            }
            k = k + 1;
        }
        let ghost st = Step { start: s0, end: *self, result: Ok::<Value, NekoError>(result), kids: kids };
        (Ok(result), Ghost(st))
    }

    fn visit_variable_decleration(&mut self, node: &VariabeDecleration, depth: u64) -> (res: (IResult, Ghost<Step<N>>))
        requires
            old(self).inner_wf(),
        ensures
            final(self).evolves(*old(self)),
            final(self).result_ok(res.0),
            res.0 is Ok ==> res.0->Ok_0 is NoValue,
            old(self).interpreter_options.disable_decleration ==> res.0 is Ok && *final(self) == *old(self),
            node.value is None && !old(self).interpreter_options.disable_decleration ==> res.0 is Ok
                && crate::bindings::find_in(final(self).envs.frames@[old(self).env as int].values@, node.identifier@)
                == Some(Value::NoValue),
            Self::records(res.1@, *old(self), *final(self), res.0),
            Self::valid_stmt(res.1@, Node::VariabeDecleration(Box::new(*node)), depth),
        decreases depth, node, 0int,
    {
        let ghost s0 = *self;
        if self.interpreter_options.disable_decleration {
            proof {
                Self::lemma_evolves_refl(*self);
            }
            let ghost st = Step { start: s0, end: *self, result: Ok::<Value, NekoError>(Value::NoValue), kids: Seq::empty() };
            return (Ok(Value::NoValue), Ghost(st));
        }
        let ghost mut kids: Seq<Step<N>> = Seq::empty();
        let value = match &node.value {
            Some(value_node) => {
                let ghost before = *self;
                let (r, g) = self.visit(value_node, depth);
                proof {
                    kids = seq![g@];
                }
                match r {
                    Ok(v) => {
                        proof {
                            Self::lemma_evolves_trans(*old(self), before, *self);
                        }
                        v
                    },
                    Err(e) => {
                        let ghost failed = *self;
                        if self.env == 0 {
                            self.semantic_analyzer.scope.remove(node.identifier.as_str());
                        }
                        proof {
                            assert(Self::forgotten(failed, node.identifier@, *self));
                        }
                        let ghost st = Step { start: s0, end: *self, result: Err::<Value, NekoError>(e), kids: kids };
                        return (Err(e), Ghost(st));
                    },
                }
            },
            None => {
                proof {
                    Self::lemma_evolves_refl(*self);
                }
                Value::NoValue
            },
        };
        let ghost mid = *self;
        let ghost gv = value;
        self.envs.define(self.env, node.identifier.as_str(), value);
        proof {
            assert(Self::defined(mid, mid.env as int, node.identifier@, gv, *self));
        }
        let ghost st = Step { start: s0, end: *self, result: Ok::<Value, NekoError>(Value::NoValue), kids: kids };
        (Ok(Value::NoValue), Ghost(st))
    }

    /// Binds the declared function, closing over the current environment.
    fn visit_function_decleration(&mut self, node: &std::rc::Rc<FunctionDecleration>) -> (r: IResult)
        requires
            old(self).inner_wf(),
        ensures
            final(self).evolves(*old(self)),
            r == Ok::<Value, NekoError>(Value::NoValue),
            old(self).interpreter_options.disable_decleration ==> *final(self) == *old(self),
            !old(self).interpreter_options.disable_decleration ==> Self::defined(*old(self), old(self).env as int, node.name@,
                Value::Function(FunctionType::Function(*node), old(self).env), *final(self)),
    {
        if !self.interpreter_options.disable_decleration {
            let function = Value::Function(FunctionType::Function(crate::enviroment::share_rc(node)), self.env);
            self.envs.define(self.env, node.name.as_str(), function);
        }
        proof {
            Self::lemma_evolves_refl(*old(self));
        }
        Ok(Value::NoValue)
    }

    /// A lambda evaluates to a function closing over the current environment, which is also
    /// bound under the lambda's id unless declarations are disabled.
    fn visit_lambda_decleration(&mut self, node: &std::rc::Rc<Lambda>) -> (r: IResult)
        requires
            old(self).inner_wf(),
        ensures
            final(self).evolves(*old(self)),
            r == Ok::<Value, NekoError>(Value::Function(FunctionType::Lambda(*node), old(self).env)),
            old(self).interpreter_options.disable_decleration ==> *final(self) == *old(self),
            !old(self).interpreter_options.disable_decleration ==> Self::defined(*old(self), old(self).env as int, node.id@,
                Value::Function(FunctionType::Lambda(*node), old(self).env), *final(self)),
    {
        let function = Value::Function(FunctionType::Lambda(crate::enviroment::share_rc(node)), self.env);
        if !self.interpreter_options.disable_decleration {
            self.envs.define(self.env, node.id.as_str(), function.copied());
        }
        proof {
            Self::lemma_evolves_refl(*old(self));
        }
        Ok(function)
    }

    /// Evaluates `name = value`; the value is the result. With declarations disabled nothing is
    /// stored.
    fn visit_assignment(&mut self, node: &AssignmentExpr, depth: u64) -> (res: (IResult, Ghost<Step<N>>))
        requires
            old(self).inner_wf(),
        ensures
            final(self).evolves(*old(self)),
            final(self).result_ok(res.0),
            Self::records(res.1@, *old(self), *final(self), res.0),
            Self::valid_expr(res.1@, Node::AssignmentExpr(Box::new(*node)), depth),
        decreases depth, node, 0int,
    {
        let ghost s0 = *self;
        let (rv, g) = self.visit_expression(&node.value, depth);
        let ghost kids = seq![g@];
        let value = match rv {
            Ok(v) => v,
            Err(e) => {
                let ghost st = Step { start: s0, end: *self, result: Err::<Value, NekoError>(e), kids: kids };
                return (Err(e), Ghost(st));
            },
        };
        let ghost mid = *self;
        if self.interpreter_options.disable_decleration {
            let ghost st = Step { start: s0, end: *self, result: Ok::<Value, NekoError>(value), kids: kids };
            return (Ok(value), Ghost(st));
        }
        let ghost gv = value;
        match self.envs.assign(self.env, node.identifier.as_str(), value.copied()) {
            Ok(()) => {
                proof {
                    Self::lemma_evolves_trans(*old(self), mid, *self);
                    crate::enviroment::lemma_assign_target_in_range(mid.envs, mid.env as int, node.identifier@);
                    let t = mid.envs.assign_target(mid.env as int, node.identifier@)->Some_0;
                    assert(Self::defined(mid, t, node.identifier@, gv, *self));
                }
                let ghost st = Step { start: s0, end: *self, result: Ok::<Value, NekoError>(value), kids: kids };
                (Ok(value), Ghost(st))
            },
            Err(message) => {
                let r = Err(NekoError::ReferenceError(message));
                let ghost st = Step { start: s0, end: *self, result: r, kids: kids };
                (r, Ghost(st))
            },
        }
    }

    fn visit_identifier(&self, name: &String) -> (r: IResult)
        requires
            self.inner_wf(),
        ensures
            self.result_ok(r),
            match self.envs.lookup(self.env as int, name@) {
                Some(v) => r == Ok::<Value, NekoError>(v),
                None => r is Err && r->Err_0 is ReferenceError,
            },
    {
        match self.envs.look_up(self.env, name.as_str(), false) {
            Some(v) => {
                proof {
                    self.lemma_lookup_ok(self.env as int, name@);
                }
                Ok(v)
            },
            None => {
                let mut message = name.clone();
                message.append(" is not defined");
                Err(NekoError::ReferenceError(message))
            },
        }
    }

    proof fn lemma_lookup_ok(&self, i: int, m: Seq<char>)
        requires
            self.envs.wf(),
        ensures
            self.envs.lookup(i, m) is Some ==> value_ok(self.envs.lookup(i, m)->Some_0, self.envs.frames@.len() as int),
        decreases i,
    {
        if 0 <= i < self.envs.frames@.len() {
            let f = self.envs.frames@[i];
            assert(f.ok(i, self.envs.frames@.len() as int));
            crate::bindings::lemma_find_some(f.values@, m);
            match f.enclosing_enviroment {
                Some(p) => {
                    if (p as int) < i {
                        self.lemma_lookup_ok(p as int, m);
                    }
                },
                None => {},
            }
        }
    }

    /// `left op right`: `and` and `or` evaluate the right operand only when the left one does
    /// not decide; other operators apply to both values.
    fn visit_bin_operator(&mut self, node: &BinOperator, depth: u64) -> (res: (IResult, Ghost<Step<N>>))
        requires
            old(self).inner_wf(),
        ensures
            final(self).evolves(*old(self)),
            final(self).result_ok(res.0),
            Self::records(res.1@, *old(self), *final(self), res.0),
            Self::valid_expr(res.1@, Node::BinOperator(Box::new(*node)), depth),
        decreases depth, node, 0int,
    {
        let ghost s0 = *self;
        let (rl, gl) = self.visit_expression(&node.left, depth);
        let left = match rl {
            Ok(v) => v,
            Err(e) => {
                let ghost st = Step { start: s0, end: *self, result: Err::<Value, NekoError>(e), kids: seq![gl@] };
                return (Err(e), Ghost(st));
            },
        };
        let ghost mid = *self;
        let ghost lv = left;
        match node.operator {
            Token::Keyword(Keyword::And) | Token::Keyword(Keyword::Or) => {
                let is_and = match node.operator {
                    Token::Keyword(Keyword::And) => true,
                    _ => false,
                };
                if to_bool(&left) != is_and {
                    let ghost st = Step { start: s0, end: *self, result: Ok::<Value, NekoError>(lv), kids: seq![gl@] };
                    return (Ok(left), Ghost(st));
                }
                let (r, gr) = self.visit_expression(&node.right, depth);
                proof {
                    Self::lemma_evolves_trans(*old(self), mid, *self);
                }
                let ghost st = Step { start: s0, end: *self, result: r, kids: seq![gl@, gr@] };
                return (r, Ghost(st));
            },
            _ => {},
        }
        let (rr, gr) = self.visit_expression(&node.right, depth);
        proof {
            Self::lemma_evolves_trans(*old(self), mid, *self);
        }
        let right = match rr {
            Ok(v) => v,
            Err(e) => {
                let ghost st = Step { start: s0, end: *self, result: Err::<Value, NekoError>(e), kids: seq![gl@, gr@] };
                return (Err(e), Ghost(st));
            },
        };
        let r = apply_binary(&self.numbers, &node.operator, left, right);
        let ghost st = Step { start: s0, end: *self, result: r, kids: seq![gl@, gr@] };
        (r, Ghost(st))
    }

    fn visit_unary_operator(&mut self, node: &UnaryOperator, depth: u64) -> (res: (IResult, Ghost<Step<N>>))
        requires
            old(self).inner_wf(),
        ensures
            final(self).evolves(*old(self)),
            final(self).result_ok(res.0),
            Self::records(res.1@, *old(self), *final(self), res.0),
            Self::valid_expr(res.1@, Node::UnaryOperator(Box::new(*node)), depth),
        decreases depth, node, 0int,
    {
        let ghost s0 = *self;
        let (rv, g) = self.visit_expression(&node.expression, depth);
        let value = match rv {
            Ok(v) => v,
            Err(e) => {
                let ghost st = Step { start: s0, end: *self, result: Err::<Value, NekoError>(e), kids: seq![g@] };
                return (Err(e), Ghost(st));
            },
        };
        let r = apply_unary(&node.operator, value);
        let ghost st = Step { start: s0, end: *self, result: r, kids: seq![g@] };
        (r, Ghost(st))
    }

    /// Evaluates the arguments of a call from left to right in the current environment.
    fn evaluate_arguments(&mut self, arguments: &Vec<Node>, depth: u64) -> (res: (Result<Vec<Value>, NekoError>, Ghost<Step<N>>))
        requires
            old(self).inner_wf(),
        ensures
            final(self).evolves(*old(self)),
            res.0 is Ok ==> res.0->Ok_0@.len() == arguments@.len()
                && forall|j: int| 0 <= j < res.0->Ok_0@.len() ==> value_ok(#[trigger] res.0->Ok_0@[j], final(self).envs.frames@.len() as int),
            res.1@.start == *old(self),
            Self::valid_args(res.1@, arguments@, depth),
            res.1@.end == *final(self),
            res.0 is Ok <==> !Self::failed(res.1@.kids),
            res.0 is Ok ==> res.0->Ok_0@ == Self::arg_values(res.1@.kids),
            res.0 is Err ==> Err::<Value, NekoError>(res.0->Err_0) == res.1@.kids.last().result,
        decreases depth, arguments, 0int,
    {
        proof {
            Self::lemma_evolves_refl(*self);
        }
        let ghost s0 = *self;
        let ghost mut kids: Seq<Step<N>> = Seq::empty();
        let mut values: Vec<Value> = Vec::new();
        let mut k: usize = 0;
        while k < arguments.len()
            invariant
                s0 == *old(self),
                self.evolves(*old(self)),
                values@.len() == k,
                k <= arguments@.len(),
                forall|j: int| 0 <= j < values@.len() ==> value_ok(#[trigger] values@[j], self.envs.frames@.len() as int),
                kids.len() == k,
                Self::valid_list(kids, arguments@, depth, s0),
                k > 0 ==> kids.last().result is Ok,
                Self::list_end(kids, s0) == *self,
                values@ == Self::arg_values(kids),
            decreases arguments@.len() - k,
        {
            let ghost before = *self;
            let (step, g) = self.visit(&arguments[k], depth);
            proof {
                Self::lemma_evolves_trans(*old(self), before, *self);
                let prev = kids;
                kids = kids.push(g@);
                assert(kids.drop_last() =~= prev);
            }
            match step {
                Ok(v) => {
                    values.push(v);
                },
                Err(e) => {
                    let ghost st = Step { start: s0, end: *self, result: Err::<Value, NekoError>(e), kids: kids };
                    return (Err(e), Ghost(st));
                },
            }
            k = k + 1;
        }
        let ghost st = Step { start: s0, end: *self, result: Ok::<Value, NekoError>(Value::NoValue), kids: kids };
        (Ok(values), Ghost(st))
    }

    /// Enters a call: a fresh environment enclosed by the captured one `closure` (not the
    /// caller's), with each parameter bound to its argument or to no value.
    fn enter_call(&mut self, closure: usize, params: &Vec<String>, args: &Vec<Value>) -> (r: usize)
        requires
            old(self).inner_wf(),
            closure < old(self).envs.frames@.len(),
            old(self).envs.frames@.len() < usize::MAX,
            forall|j: int| 0 <= j < args@.len() ==> value_ok(#[trigger] args@[j], old(self).envs.frames@.len() as int),
        ensures
            final(self).inner_wf(),
            final(self).envs.extends(old(self).envs),
            r == old(self).envs.frames@.len(),
            final(self).env == r,
            Self::entered(*old(self), closure, params@, args@, *final(self)),
    {
        let frame = self.envs.push(closure);
        self.env = frame;
        let mut k: usize = 0;
        while k < params.len()
            invariant
                self.inner_wf(),
                self.envs.extends(old(self).envs),
                self.env == frame,
                frame == old(self).envs.frames@.len(),
                self.envs.frames@.len() == frame + 1,
                k <= params@.len(),
                forall|i: int| 0 <= i < frame ==> #[trigger] self.envs.frames@[i] == old(self).envs.frames@[i],
                self.envs.frames@[frame as int].enclosing_enviroment == Some(closure),
                forall|m: Seq<char>| #[trigger] crate::bindings::find_in(self.envs.frames@[frame as int].values@, m)
                    == param_binding(crate::symbol::names_view(params@.take(k as int)), args@, m),
                self.semantic_analyzer == old(self).semantic_analyzer,
                self.interpreter_options == old(self).interpreter_options,
                self.output == old(self).output,
                self.numbers == old(self).numbers,
                forall|j: int| 0 <= j < args@.len() ==> value_ok(#[trigger] args@[j], old(self).envs.frames@.len() as int),
            decreases params@.len() - k,
        {
            let value = if k < args.len() { args[k].copied() } else { Value::NoValue };
            self.envs.define(frame, params[k].as_str(), value);
            proof {
                let pv = crate::symbol::names_view(params@.take(k + 1));
                assert(pv.drop_last() =~= crate::symbol::names_view(params@.take(k as int)));
                assert(pv.last() == params@[k as int]@);
            }
            k = k + 1;
        }
        assert(params@.take(k as int) =~= params@);
        frame
    }

    /// Calls a user function: arguments first, in the caller's environment, then the body in a
    /// fresh environment enclosed by `closure`; evaluation then returns to the caller's
    /// environment. Past `MAX_CALL_DEPTH` nested calls the call fails.
    fn function_call(&mut self, arguments: &Vec<Node>, params: &Vec<String>, block: &Node, closure: usize, depth: u64) -> (res: (IResult, Ghost<Step<N>>))
        requires
            old(self).inner_wf(),
            closure < old(self).envs.frames@.len(),
        ensures
            final(self).evolves(*old(self)),
            final(self).result_ok(res.0),
            Self::records(res.1@, *old(self), *final(self), res.0),
            Self::valid_user(res.1@, params@, *block, closure, arguments@, depth),
        decreases depth, arguments, 1int,
    {
        let ghost s0 = *self;
        let (ra, ga) = self.evaluate_arguments(arguments, depth);
        let args = match ra {
            Ok(args) => args,
            Err(e) => {
                let ghost st = Step { start: s0, end: *self, result: Err::<Value, NekoError>(e), kids: seq![ga@] };
                return (Err(e), Ghost(st));
            },
        };
        let ghost mid = *self;
        if depth == 0 {
            let r = Err(NekoError::UnknownError(String::from_str("Maximum call depth exceeded")));
            let ghost st = Step { start: s0, end: *self, result: r, kids: seq![ga@] };
            return (r, Ghost(st));
        }
        if self.envs.frames.len() >= usize::MAX - 1 {
            let r = Err(NekoError::UnknownError(String::from_str("Out of environments")));
            let ghost st = Step { start: s0, end: *self, result: r, kids: seq![ga@] };
            return (r, Ghost(st));
        }
        let saved = self.env;
        self.enter_call(closure, params, &args);
        let (result, gb) = self.visit(block, depth - 1);
        let ghost done = *self;
        self.env = saved;
        proof {
            assert(self.envs.extends(mid.envs));
            assert(*self == Self::with_env(done, mid.env));
        }
        let ghost st = Step { start: s0, end: *self, result: result, kids: seq![ga@, gb@] };
        (result, Ghost(st))
    }

    fn handle_function(&mut self, node: &FunctionCall, value: Value, depth: u64) -> (res: (IResult, Ghost<Step<N>>))
        requires
            old(self).inner_wf(),
            value_ok(value, old(self).envs.frames@.len() as int),
        ensures
            final(self).evolves(*old(self)),
            final(self).result_ok(res.0),
            !(value is Function) ==> res.0 is Err && res.0->Err_0 is TypeError && *final(self) == *old(self),
            Self::records(res.1@, *old(self), *final(self), res.0),
            Self::valid_call(res.1@, value, node.arguments@, depth),
        decreases depth, node, 1int,
    {
        let ghost s0 = *self;
        match value {
            Value::Function(FunctionType::Function(function), closure) => {
                self.function_call(&node.arguments, &function.params, &function.block, closure, depth)
            },
            Value::Function(FunctionType::Lambda(lambda), closure) => {
                self.function_call(&node.arguments, &lambda.params, &lambda.block, closure, depth)
            },
            Value::Function(FunctionType::BuiltIn { function, .. }, _) => {
                let (ra, ga) = self.evaluate_arguments(&node.arguments, depth);
                let args = match ra {
                    Ok(args) => args,
                    Err(e) => {
                        let ghost st = Step { start: s0, end: *self, result: Err::<Value, NekoError>(e), kids: seq![ga@] };
                        return (Err(e), Ghost(st));
                    },
                };
                let ghost mid = *self;
                let r = self.call_builtin(function, args);
                proof {
                    Self::lemma_evolves_trans(*old(self), mid, *self);
                }
                let ghost st = Step { start: s0, end: *self, result: r, kids: seq![ga@] };
                (r, Ghost(st))
            },
            other => {
                proof {
                    Self::lemma_evolves_refl(*self);
                }
                let mut message = other.stringify(&self.numbers);
                message.append(" is not a function");
                let r = Err(NekoError::TypeError(message));
                let ghost st = Step { start: s0, end: *self, result: r, kids: Seq::empty() };
                (r, Ghost(st))
            },
        }
    }

    /// A call: an error while calls are disabled; else the callee is evaluated, then called.
    fn visit_function_call(&mut self, node: &FunctionCall, depth: u64) -> (res: (IResult, Ghost<Step<N>>))
        requires
            old(self).inner_wf(),
        ensures
            final(self).evolves(*old(self)),
            final(self).result_ok(res.0),
            old(self).interpreter_options.disable_calls ==> res.0 is Err && res.0->Err_0 is UnknownError && *final(self) == *old(self),
            Self::records(res.1@, *old(self), *final(self), res.0),
            Self::valid_expr(res.1@, Node::FunctionCall(Box::new(*node)), depth),
        decreases depth, node, 2int,
    {
        let ghost s0 = *self;
        if self.interpreter_options.disable_calls {
            proof {
                Self::lemma_evolves_refl(*self);
            }
            let r = Err(NekoError::UnknownError(String::from_str("Calls Disabled")));
            let ghost st = Step { start: s0, end: *self, result: r, kids: Seq::empty() };
            return (r, Ghost(st));
        }
        let (rc, gc) = self.visit_expression(&node.function, depth);
        let callee = match rc {
            Ok(v) => v,
            Err(e) => {
                let ghost st = Step { start: s0, end: *self, result: Err::<Value, NekoError>(e), kids: seq![gc@] };
                return (Err(e), Ghost(st));
            },
        };
        let ghost mid = *self;
        let (r, gcall) = self.handle_function(node, callee, depth);
        proof {
            Self::lemma_evolves_trans(*old(self), mid, *self);
        }
        let ghost st = Step { start: s0, end: *self, result: r, kids: seq![gc@, gcall@] };
        (r, Ghost(st))
    }

    fn visit_expression(&mut self, node: &Node, depth: u64) -> (res: (IResult, Ghost<Step<N>>))
        requires
            old(self).inner_wf(),
        ensures
            final(self).evolves(*old(self)),
            final(self).result_ok(res.0),
            Self::records(res.1@, *old(self), *final(self), res.0),
            Self::valid_expr(res.1@, *node, depth),
        decreases depth, node, 3int,
    {
        proof {
            Self::lemma_evolves_refl(*self);
        }
        let ghost s0 = *self;
        match node {
            Node::BinOperator(n) => self.visit_bin_operator(n, depth),
            Node::UnaryOperator(n) => self.visit_unary_operator(n, depth),
            Node::AssignmentExpr(n) => self.visit_assignment(n, depth),
            Node::FunctionCall(n) => self.visit_function_call(n, depth),
            _ => {
                let r = match node {
                    Node::Number(text) => Ok(Value::Number(crate::number::literal_bits(text, &self.numbers))),
                    Node::Boolean(b) => Ok(Value::Boolean(*b)),
                    Node::String(s) => Ok(Value::String(s.clone())),
                    Node::NoValue => Ok(Value::NoValue),
                    Node::Identifier(name) => self.visit_identifier(name),
                    Node::Lambda(l) => self.visit_lambda_decleration(l),
                    _ => syntax_error("Invalid Syntax"),
                };
                let ghost st = Step { start: s0, end: *self, result: r, kids: Seq::empty() };
                (r, Ghost(st))
            },
        }
    }

    fn visit(&mut self, node: &Node, depth: u64) -> (res: (IResult, Ghost<Step<N>>))
        requires
            old(self).inner_wf(),
        ensures
            final(self).evolves(*old(self)),
            final(self).result_ok(res.0),
            Self::records(res.1@, *old(self), *final(self), res.0),
            Self::valid_stmt(res.1@, *node, depth),
        decreases depth, node, 4int,
    {
        let ghost s0 = *self;
        match node {
            Node::Compound(nodes) => self.visit_compound(nodes, depth),
            Node::Block(nodes) => self.visit_compound(nodes, depth),
            Node::VariabeDecleration(n) => self.visit_variable_decleration(n, depth),
            Node::FunctionDecleration(f) => {
                let r = self.visit_function_decleration(f);
                let ghost st = Step { start: s0, end: *self, result: r, kids: Seq::empty() };
                (r, Ghost(st))
            },
            Node::Expression(n) => self.visit_expression(n, depth),
            _ => self.visit_expression(node, depth),
        }
    }
}

impl<N: NumberSystem> Interpreter<N> {
    /// `s` with the options `opt` in force.
    pub closed spec fn with_options(s: Self, opt: InterpreterOptions) -> Self {
        Interpreter {
            envs: s.envs,
            env: s.env,
            semantic_analyzer: s.semantic_analyzer,
            interpreter_options: opt,
            numbers: s.numbers,
            output: s.output,
        }
    }

    /// Checking and evaluating the tree `t` from `before` under `opt`: if the name check fails
    /// the result is an error and no environment changes; otherwise `st` records the evaluation
    /// of `t`, which starts from `before` with the options in force and the global scope
    /// holding the names the check declared, and which ends in `after` with the result `r`.
    pub closed spec fn ran(before: Self, t: Node, opt: InterpreterOptions, st: Step<N>, after: Self, r: IResult) -> bool {
        match check(t, chain(before.semantic_analyzer.scope), opt.disable_decleration) {
            Err(k) => r is Err && kind_of(r->Err_0) == k && after.envs == before.envs && after.output == before.output,
            Ok(n0) => {
                &&& Self::valid_stmt(st, t, MAX_CALL_DEPTH)
                &&& Self::records(st, st.start, after, r)
                &&& st.start.envs == before.envs
                &&& st.start.env == before.env
                &&& st.start.output == before.output
                &&& st.start.numbers == before.numbers
                &&& st.start.interpreter_options == opt
                &&& names(st.start.semantic_analyzer.scope) == n0
                &&& st.start.semantic_analyzer.scope.enclosing_scope == before.semantic_analyzer.scope.enclosing_scope
            },
        }
    }

    /// What interpreting `text` under `opt` does: a text that does not parse is a syntax
    /// error and changes nothing but the options in force; otherwise the tree that the grammar
    /// gives is checked and evaluated as `ran` says.
    pub closed spec fn interprets(before: Self, text: Seq<char>, opt: InterpreterOptions, after: Self, r: IResult) -> bool {
        match parse_text(text) {
            None => r is Err && r->Err_0 is SyntaxError && after == Self::with_options(before, opt),
            Some(tree) => exists|t: Node, st: Step<N>| #[trigger] Self::ran(before, t, opt, st, after, r) && node_view(t) == tree,
        }
    }
}

impl<N: NumberSystem> Interpreter<N> {
    /// Parses, checks and evaluates `text` as an ordinary input.
    pub fn interpret(&mut self, text: &str) -> (r: IResult)
        requires
            old(self).wf(),
        ensures
            final(self).wf(),
            crate::grammar::parse_text(text@) is None ==> r is Err && r->Err_0 is SyntaxError,
            Self::interprets(*old(self), text@, crate::interpreter_option::ordinary(), *final(self), r),
            final(self).scope_depth() == 1,
            final(self).env_depth() == 1,
    {
        self.interpret_with_option(text, &InterpreterOptions::new())
    }

    /// Parses, checks and evaluates `text` under `option`: the value of the last statement
    /// whose value is not `none`, or the first error. A text that does not parse is a syntax
    /// error. Whatever the outcome, evaluation ends in the global environment and name
    /// resolution in the global scope; with declarations disabled, what the global
    /// environment and the global scope hold is left as it was.
    pub fn interpret_with_option(&mut self, text: &str, option: &InterpreterOptions) -> (r: IResult)
        requires
            old(self).wf(),
        ensures
            final(self).wf(),
            final(self).scope_depth() == 1,
            final(self).env_depth() == 1,
            option.disable_decleration ==> forall|m: Seq<char>| #[trigger] final(self).global(m) == old(self).global(m),
            option.disable_decleration ==> forall|m: Seq<char>| #[trigger] final(self).global_symbol(m) == old(self).global_symbol(m),
            crate::grammar::parse_text(text@) is None ==> r is Err && r->Err_0 is SyntaxError,
            Self::interprets(*old(self), text@, *option, *final(self), r),
    {
        let ghost start = *self;
        self.interpreter_options = *option;
        let mut parser = Parser::new(text);
        let ast = match parser.parse() {
            Ok(ast) => ast,
            Err(message) => {
                proof {
                    self.lemma_global_unchanged(start);
                    assert(*self == Self::with_options(start, *option));
                }
                return Err(NekoError::SyntaxError(message));
            },
        };
        let ghost tree = ast;
        let ghost checking = *self;
        let checked = self.semantic_analyzer.analyze_with_options(&ast, option);
        if let Err(e) = checked {
            proof {
                self.lemma_global_unchanged(start);
                let ghost dummy = Step { start: *self, end: *self, result: Err::<Value, NekoError>(e), kids: Seq::empty() };
                assert(Self::ran(start, tree, *option, dummy, *self, Err(e)));
            }
            return Err(e);
        }
        let (r, step) = self.visit(&ast, MAX_CALL_DEPTH);
        proof {
            self.lemma_global_unchanged(start);
            assert(Self::ran(start, tree, *option, step@, *self, r));
        }
        r
    }

    proof fn lemma_global_unchanged(&self, start: Self)
        requires
            start.wf(),
            self.inner_wf(),
            self.env == 0,
            self.envs.extends(start.envs),
            self.semantic_analyzer.scope.enclosing_scope is None,
            self.interpreter_options.disable_decleration ==> {
                &&& forall|i: int| 0 <= i < start.envs.frames@.len() ==> #[trigger] self.envs.frames@[i] == start.envs.frames@[i]
                &&& self.semantic_analyzer.scope == start.semantic_analyzer.scope
            },
        ensures
            self.wf(),
            self.scope_depth() == 1,
            self.env_depth() == 1,
            self.interpreter_options.disable_decleration ==> forall|m: Seq<char>| #[trigger] self.global(m) == start.global(m),
            self.interpreter_options.disable_decleration ==> forall|m: Seq<char>| #[trigger] self.global_symbol(m) == start.global_symbol(m),
    {
        assert(self.envs.frames@[0].enclosing_enviroment is None);
        if self.interpreter_options.disable_decleration {
            assert forall|m: Seq<char>| #[trigger] self.global(m) == start.global(m) by {
                crate::enviroment::lemma_outer_view_unchanged(self.envs, start.envs, start.envs.frames@.len() as int, 0, m);
            }
        }
    }
}

/// Arithmetic is total on numbers: each of `+ - * / % **` applied to two numbers gives a
/// number and never an error, so `a / 0` is an infinity or NaN rather than a failure.
pub proof fn lemma_arithmetic_total(op: Operator, a: u64, b: u64)
    requires
        op == Operator::Plus || op == Operator::Minus || op == Operator::Mul || op == Operator::Div
            || op == Operator::Modulus || op == Operator::Exponent,
    ensures
        binary_outcome(Token::Operator(op), Value::Number(a), Value::Number(b)) == Outcome::SomeNumber,
{
}

/// A value as `error` reports it: the same text as `stringify`.
pub fn loggable_value<N: NumberSystem>(val: &Value, numbers: &N) -> (r: String)
    ensures
        !(*val is Number) ==> r@ == text_of(*val),
{
    val.stringify(numbers)
}

} // verus!
