use vstd::prelude::*;
use crate::ast::Node;
use crate::parser::{assignment_operator, base_operator};
use crate::symbol::names_view;
use crate::token::{Keyword, Operator, TokenV};

verus! {

/// The model of a syntax tree node: names as character sequences.
pub enum NodeV {
    Number(Seq<char>),
    Str(Seq<char>),
    Boolean(bool),
    Identifier(Seq<char>),
    Compound(Seq<NodeV>),
    Block(Seq<NodeV>),
    /// A lambda's id, parameters and body.
    Lambda(Seq<char>, Seq<Seq<char>>, Box<NodeV>),
    FunctionDecleration(Seq<char>, Seq<Seq<char>>, Box<NodeV>),
    FunctionCall(Box<NodeV>, Seq<NodeV>),
    VariabeDecleration(Seq<char>, Option<Box<NodeV>>),
    AssignmentExpr(Seq<char>, Box<NodeV>),
    BinOperator(Box<NodeV>, TokenV, Box<NodeV>),
    UnaryOperator(TokenV, Box<NodeV>),
    Expression(Box<NodeV>),
    NoValue,
    /// Object literals and property access, which the grammar does not produce.
    Reserved,
}

pub open spec fn node_view(n: Node) -> NodeV
    decreases n, 1int,
{
    match n {
        Node::Number(t) => NodeV::Number(t@),
        Node::String(t) => NodeV::Str(t@),
        Node::Boolean(b) => NodeV::Boolean(b),
        Node::Identifier(t) => NodeV::Identifier(t@),
        Node::Compound(v) => NodeV::Compound(nodes_view(v@)),
        Node::Block(v) => NodeV::Block(nodes_view(v@)),
        Node::Lambda(l) => NodeV::Lambda(l.id@, names_view(l.params@), Box::new(node_view(l.block))),
        Node::FunctionDecleration(f) => NodeV::FunctionDecleration(f.name@, names_view(f.params@), Box::new(node_view(f.block))),
        Node::FunctionCall(c) => NodeV::FunctionCall(Box::new(node_view(c.function)), nodes_view(c.arguments@)),
        Node::VariabeDecleration(d) => NodeV::VariabeDecleration(d.identifier@, match d.value {
            Some(v) => Some(Box::new(node_view(v))),
            None => None,
        }),
        Node::AssignmentExpr(a) => NodeV::AssignmentExpr(a.identifier@, Box::new(node_view(a.value))),
        Node::BinOperator(b) => NodeV::BinOperator(Box::new(node_view(b.left)), b.operator@, Box::new(node_view(b.right))),
        Node::UnaryOperator(u) => NodeV::UnaryOperator(u.operator@, Box::new(node_view(u.expression))),
        Node::Expression(e) => NodeV::Expression(Box::new(node_view(*e))),
        Node::NoValue => NodeV::NoValue,
        _ => NodeV::Reserved,
    }
}

pub open spec fn nodes_view(s: Seq<Node>) -> Seq<NodeV>
    decreases s, 0int,
{
    if s.len() == 0 {
        Seq::empty()
    } else {
        nodes_view(s.drop_last()).push(node_view(s.last()))
    }
}

/// The digit character of `d` (0 to 9).
pub open spec fn digit_char(d: int) -> char {
    if d == 0 { '0' } else if d == 1 { '1' } else if d == 2 { '2' } else if d == 3 { '3' }
    else if d == 4 { '4' } else if d == 5 { '5' } else if d == 6 { '6' } else if d == 7 { '7' }
    else if d == 8 { '8' } else { '9' }
}

/// The decimal digits of `n`.
pub open spec fn decimal_text(n: nat) -> Seq<char>
    decreases n,
{
    if n < 10 {
        seq![digit_char(n as int)]
    } else {
        decimal_text(n / 10).push(digit_char((n % 10) as int))
    }
}

/// The id of a lambda whose first token stands at position `p`: `(lambda)#p`, unique within a
/// parse.
pub open spec fn lambda_id_text(p: int) -> Seq<char> {
    "(lambda)#"@ + decimal_text(p as nat)
}

/// The result of parsing from a position: the node, if the tokens there form one, and the
/// position after it.
pub type Parsed = (Option<NodeV>, int);

/// The token at `p`, or `Unknown` past the end.
pub open spec fn tok(ts: Seq<TokenV>, p: int) -> TokenV {
    if 0 <= p < ts.len() {
        ts[p]
    } else {
        TokenV::Unknown
    }
}

pub open spec fn fail(p: int) -> Parsed {
    (None, p)
}

/// The binary operator levels, from `or` (6) down to `**` (0): the operator token that `t`
/// stands for at `level`, if any.
pub open spec fn level_operator(level: int, t: TokenV) -> bool {
    match t {
        TokenV::Keyword(Keyword::Or) => level == 6,
        TokenV::Keyword(Keyword::And) => level == 5,
        TokenV::Operator(o) => {
            if o == Operator::DoubleEqual || o == Operator::NotEqual {
                level == 4
            } else if o == Operator::LessThan || o == Operator::LessThanOrEqual || o == Operator::GreaterThan
                || o == Operator::GreaterThanOrEqual {
                level == 3
            } else if o == Operator::Plus || o == Operator::Minus {
                level == 2
            } else if o == Operator::Mul || o == Operator::Div || o == Operator::Modulus {
                level == 1
            } else if o == Operator::Exponent {
                level == 0
            } else {
                false
            }
        },
        _ => false,
    }
}

/// `primary := NUMBER | STRING | BOOL | IDENT | '(' expression ')'`
pub open spec fn p_value(ts: Seq<TokenV>, p: int) -> Parsed
    decreases ts.len() - p, 5int,
{
    if p < 0 || p >= ts.len() {
        fail(p)
    } else {
        match ts[p] {
            TokenV::Number(t) => (Some(NodeV::Number(t)), p + 1),
            TokenV::Identifier(t) => (Some(NodeV::Identifier(t)), p + 1),
            TokenV::Str(t) => (Some(NodeV::Str(t)), p + 1),
            TokenV::Boolean(b) => (Some(NodeV::Boolean(b)), p + 1),
            TokenV::LParen => {
                let (e, q) = p_expression(ts, p + 1);
                match e {
                    Some(e) => if tok(ts, q) == TokenV::RParen { (Some(e), q + 1) } else { fail(q) },
                    None => fail(q),
                }
            },
            _ => fail(p),
        }
    }
}

/// `call := primary ( '(' argList? ')' )*`
pub open spec fn p_call(ts: Seq<TokenV>, p: int) -> Parsed
    decreases ts.len() - p, 12int,
{
    if p < 0 || p > ts.len() {
        fail(p)
    } else {
        let (v, q) = p_value(ts, p);
        match v {
            Some(v) => if p < q && q <= ts.len() { p_call_rest(ts, q, v) } else { fail(q) },
            None => fail(q),
        }
    }
}

pub open spec fn p_call_rest(ts: Seq<TokenV>, p: int, callee: NodeV) -> Parsed
    decreases ts.len() - p, 11int,
{
    if p < 0 || p > ts.len() {
        fail(p)
    } else if tok(ts, p) == TokenV::LParen {
        let (args, q) = p_arguments(ts, p + 1, Seq::empty());
        match args {
            Some(NodeV::Compound(args)) => if p < q && q <= ts.len() {
                p_call_rest(ts, q, NodeV::FunctionCall(Box::new(callee), args))
            } else {
                fail(q)
            },
            _ => fail(q),
        }
    } else {
        (Some(callee), p)
    }
}

/// The arguments after `(` up to and including `)`, as a `Compound` of them.
pub open spec fn p_arguments(ts: Seq<TokenV>, p: int, acc: Seq<NodeV>) -> Parsed
    decreases ts.len() - p, 75int,
{
    if p < 0 || p > ts.len() {
        fail(p)
    } else {
        match tok(ts, p) {
            TokenV::Comma => p_arguments(ts, p + 1, acc),
            TokenV::RParen => (Some(NodeV::Compound(acc)), p + 1),
            TokenV::EndOfFile | TokenV::Unknown => fail(p),
            _ => {
                let (e, q) = p_expression(ts, p);
                match e {
                    Some(e) => if p < q && q <= ts.len() { p_arguments(ts, q, acc.push(e)) } else { fail(q) },
                    None => fail(q),
                }
            },
        }
    }
}

/// `unary := ('+' | '-' | 'not') unary | call`
pub open spec fn p_unary(ts: Seq<TokenV>, p: int) -> Parsed
    decreases ts.len() - p, 15int,
{
    if p < 0 || p > ts.len() {
        fail(p)
    } else {
        let t = tok(ts, p);
        if t == TokenV::Operator(Operator::Plus) || t == TokenV::Operator(Operator::Minus) || t == TokenV::Operator(Operator::Not) {
            let (e, q) = p_unary(ts, p + 1);
            match e {
                Some(e) => (Some(NodeV::UnaryOperator(t, Box::new(e))), q),
                None => fail(q),
            }
        } else {
            p_call(ts, p)
        }
    }
}

/// A left-associative chain of the operators of `level` over the level below.
pub open spec fn p_binary(ts: Seq<TokenV>, p: int, level: int) -> Parsed
    decreases ts.len() - p, 20 + 2 * level,
{
    if p < 0 || p > ts.len() || level < 0 || level > 6 {
        fail(p)
    } else {
        let (l, q) = if level == 0 { p_unary(ts, p) } else { p_binary(ts, p, level - 1) };
        match l {
            Some(l) => if p < q && q <= ts.len() { p_binary_rest(ts, q, l, level) } else { fail(q) },
            None => fail(q),
        }
    }
}

pub open spec fn p_binary_rest(ts: Seq<TokenV>, p: int, left: NodeV, level: int) -> Parsed
    decreases ts.len() - p, 20 + 2 * level,
{
    if p < 0 || p > ts.len() || level < 0 || level > 6 {
        fail(p)
    } else if level_operator(level, tok(ts, p)) {
        let (r, q) = if level == 0 { p_unary(ts, p + 1) } else { p_binary(ts, p + 1, level - 1) };
        match r {
            Some(r) => if p < q && q <= ts.len() {
                p_binary_rest(ts, q, NodeV::BinOperator(Box::new(left), tok(ts, p), Box::new(r)), level)
            } else {
                fail(q)
            },
            None => fail(q),
        }
    } else {
        (Some(left), p)
    }
}

/// `name op value` as the tree of a plain assignment.
pub open spec fn assignment_view(name: Seq<char>, op: Operator, value: NodeV) -> NodeV {
    match base_operator(op) {
        Some(b) => NodeV::AssignmentExpr(name, Box::new(NodeV::BinOperator(
            Box::new(NodeV::Identifier(name)),
            TokenV::Operator(b),
            Box::new(value),
        ))),
        None => NodeV::AssignmentExpr(name, Box::new(value)),
    }
}

/// `assignment := logicalOr ( assignOp expression )?`, where only an identifier may be
/// assigned to.
pub open spec fn p_assignment(ts: Seq<TokenV>, p: int) -> Parsed
    decreases ts.len() - p, 60int,
{
    if p < 0 || p > ts.len() {
        fail(p)
    } else {
        let (l, q) = p_binary(ts, p, 6);
        match l {
            Some(l) => match tok(ts, q) {
                TokenV::Operator(op) => if assignment_operator(op) {
                    match l {
                        NodeV::Identifier(name) => if p < q {
                            let (v, r) = p_expression(ts, q + 1);
                            match v {
                                Some(v) => (Some(assignment_view(name, op, v)), r),
                                None => fail(r),
                            }
                        } else {
                            fail(q)
                        },
                        _ => fail(q),
                    }
                } else {
                    (Some(l), q)
                },
                _ => (Some(l), q),
            },
            None => fail(q),
        }
    }
}

/// Names separated by commas, each followed by a comma or by `closing` (left in place).
pub open spec fn p_names(ts: Seq<TokenV>, p: int, closing: TokenV, acc: Seq<Seq<char>>) -> (Option<Seq<Seq<char>>>, int)
    decreases ts.len() - p,
{
    if p < 0 || p > ts.len() {
        (None, p)
    } else {
        match tok(ts, p) {
            TokenV::Identifier(x) => {
                if tok(ts, p + 1) == TokenV::Comma {
                    p_names(ts, p + 2, closing, acc.push(x))
                } else if tok(ts, p + 1) == closing {
                    p_names(ts, p + 1, closing, acc.push(x))
                } else {
                    (None, p + 1)
                }
            },
            _ => (Some(acc), p),
        }
    }
}

/// `open names close`
pub open spec fn p_param_list(ts: Seq<TokenV>, p: int, open: TokenV, close: TokenV) -> (Option<Seq<Seq<char>>>, int) {
    if tok(ts, p) == open {
        let (names, q) = p_names(ts, p + 1, close, Seq::empty());
        match names {
            Some(names) => if tok(ts, q) == close { (Some(names), q + 1) } else { (None, q) },
            None => (None, q),
        }
    } else {
        (None, p)
    }
}

/// `lambda := '|' params '|' lambdaBody | '||' lambdaBody`
pub open spec fn p_lambda(ts: Seq<TokenV>, p: int) -> Parsed
    decreases ts.len() - p, 69int,
{
    if p < 0 || p > ts.len() {
        fail(p)
    } else {
        let (params, q) = if tok(ts, p) == TokenV::Operator(Operator::Pipe) {
            p_param_list(ts, p, TokenV::Operator(Operator::Pipe), TokenV::Operator(Operator::Pipe))
        } else if tok(ts, p) == TokenV::Operator(Operator::DoublePipe) {
            (Some(Seq::empty()), p + 1)
        } else {
            (None, p)
        };
        match params {
            Some(params) => if p < q {
                let (b, r) = p_lambda_block(ts, q);
                match b {
                    Some(b) => (Some(NodeV::Lambda(lambda_id_text(p), params, Box::new(b))), r),
                    None => fail(r),
                }
            } else {
                fail(q)
            },
            None => fail(q),
        }
    }
}

/// `lambdaBody := block | expression`, an expression body becoming a block of it.
pub open spec fn p_lambda_block(ts: Seq<TokenV>, p: int) -> Parsed
    decreases ts.len() - p, 96int,
{
    if p < 0 || p > ts.len() {
        fail(p)
    } else if tok(ts, p) == TokenV::LBrace {
        p_block(ts, p)
    } else {
        let (e, q) = p_expression(ts, p);
        match e {
            Some(e) => (Some(NodeV::Block(seq![e])), q),
            None => fail(q),
        }
    }
}

/// `expression := lambda | assignment`; a `|` must be followed by a name.
pub open spec fn p_expression(ts: Seq<TokenV>, p: int) -> Parsed
    decreases ts.len() - p, 70int,
{
    if p < 0 || p > ts.len() {
        fail(p)
    } else if tok(ts, p) == TokenV::Operator(Operator::Pipe) {
        if tok(ts, p + 1) is Identifier {
            p_lambda(ts, p)
        } else {
            fail(p)
        }
    } else if tok(ts, p) == TokenV::Operator(Operator::DoublePipe) {
        p_lambda(ts, p)
    } else {
        p_assignment(ts, p)
    }
}

/// `exprStmt := expression ';'`, the `;` optional before a `}`.
pub open spec fn p_expression_statement(ts: Seq<TokenV>, p: int) -> Parsed
    decreases ts.len() - p, 80int,
{
    if p < 0 || p > ts.len() {
        fail(p)
    } else {
        let (e, q) = p_expression(ts, p);
        match e {
            Some(e) => if tok(ts, q) == TokenV::RBrace {
                (Some(NodeV::Expression(Box::new(e))), q)
            } else if tok(ts, q) == TokenV::Semicolon {
                (Some(NodeV::Expression(Box::new(e))), q + 1)
            } else {
                fail(q)
            },
            None => fail(q),
        }
    }
}

/// `varDecl := 'let' IDENT ('=' expression)? ';'`
pub open spec fn p_variable_declaration(ts: Seq<TokenV>, p: int) -> Parsed
    decreases ts.len() - p, 80int,
{
    if p < 0 || p > ts.len() || tok(ts, p) != TokenV::Keyword(Keyword::Let) {
        fail(p)
    } else {
        match tok(ts, p + 1) {
            TokenV::Identifier(name) => {
                if tok(ts, p + 2) == TokenV::Operator(Operator::Equal) {
                    let (e, q) = p_expression(ts, p + 3);
                    match e {
                        Some(e) => if tok(ts, q) == TokenV::Semicolon {
                            (Some(NodeV::VariabeDecleration(name, Some(Box::new(e)))), q + 1)
                        } else {
                            fail(q)
                        },
                        None => fail(q),
                    }
                } else if tok(ts, p + 2) == TokenV::Semicolon {
                    (Some(NodeV::VariabeDecleration(name, None)), p + 3)
                } else {
                    fail(p + 2)
                }
            },
            _ => fail(p + 1),
        }
    }
}

/// `funcDecl := 'function' IDENT '(' params ')' block`
pub open spec fn p_function_declaration(ts: Seq<TokenV>, p: int) -> Parsed
    decreases ts.len() - p, 80int,
{
    if p < 0 || p > ts.len() || tok(ts, p) != TokenV::Keyword(Keyword::Function) {
        fail(p)
    } else {
        match tok(ts, p + 1) {
            TokenV::Identifier(name) => {
                let (params, q) = p_param_list(ts, p + 2, TokenV::LParen, TokenV::RParen);
                match params {
                    Some(params) => if p < q {
                        let (b, r) = p_block(ts, q);
                        match b {
                            Some(b) => (Some(NodeV::FunctionDecleration(name, params, Box::new(b))), r),
                            None => fail(r),
                        }
                    } else {
                        fail(q)
                    },
                    None => fail(q),
                }
            },
            _ => fail(p + 1),
        }
    }
}

/// `declaration := varDecl | funcDecl | exprStmt`
pub open spec fn p_declaration(ts: Seq<TokenV>, p: int) -> Parsed
    decreases ts.len() - p, 90int,
{
    if p < 0 || p > ts.len() {
        fail(p)
    } else if tok(ts, p) == TokenV::Keyword(Keyword::Let) {
        p_variable_declaration(ts, p)
    } else if tok(ts, p) == TokenV::Keyword(Keyword::Function) {
        p_function_declaration(ts, p)
    } else {
        p_expression_statement(ts, p)
    }
}

/// `block := '{' declaration* '}'`
pub open spec fn p_block(ts: Seq<TokenV>, p: int) -> Parsed
    decreases ts.len() - p, 95int,
{
    if p < 0 || p > ts.len() || tok(ts, p) != TokenV::LBrace {
        fail(p)
    } else {
        p_block_items(ts, p + 1, Seq::empty())
    }
}

pub open spec fn p_block_items(ts: Seq<TokenV>, p: int, acc: Seq<NodeV>) -> Parsed
    decreases ts.len() - p, 92int,
{
    if p < 0 || p > ts.len() {
        fail(p)
    } else {
        match tok(ts, p) {
            TokenV::RBrace => (Some(NodeV::Block(acc)), p + 1),
            TokenV::EndOfFile | TokenV::Unknown => fail(p),
            _ => {
                let (d, q) = p_declaration(ts, p);
                match d {
                    Some(d) => if p < q && q <= ts.len() { p_block_items(ts, q, acc.push(d)) } else { fail(q) },
                    None => fail(q),
                }
            },
        }
    }
}

/// `program := declaration* EOF`
pub open spec fn p_program(ts: Seq<TokenV>, p: int, acc: Seq<NodeV>) -> Parsed
    decreases ts.len() - p, 100int,
{
    if p < 0 || p > ts.len() {
        fail(p)
    } else {
        match tok(ts, p) {
            TokenV::EndOfFile => (Some(NodeV::Compound(acc)), p),
            TokenV::Unknown => fail(p),
            _ => {
                let (d, q) = p_declaration(ts, p);
                match d {
                    Some(d) => if p < q && q <= ts.len() { p_program(ts, q, acc.push(d)) } else { fail(q) },
                    None => fail(q),
                }
            },
        }
    }
}

/// The tree of a source text, if it parses.
pub open spec fn parse_text(text: Seq<char>) -> Option<NodeV> {
    p_program(crate::lexer::lex_text(text), 0, Seq::empty()).0
}

} // verus!
