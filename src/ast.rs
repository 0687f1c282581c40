use vstd::prelude::*;
use vstd::string::*;
use crate::token::{token_text, Token};
use std::rc::Rc;

verus! {

/// A binary operation; `operator` is an operator token or the keyword `and` / `or`.
#[derive(Debug, PartialEq)]
pub struct BinOperator {
    pub left: Node,
    pub operator: Token,
    pub right: Node,
}

#[derive(Debug, PartialEq)]
pub struct UnaryOperator {
    pub operator: Token,
    pub expression: Node,
}

#[derive(Debug, PartialEq)]
pub struct VariabeDecleration {
    pub identifier: String,
    pub value: Option<Node>,
}

#[derive(Debug, PartialEq)]
pub struct AssignmentExpr {
    pub identifier: String,
    pub value: Node,
}

#[derive(Debug, PartialEq)]
pub struct FunctionDecleration {
    pub name: String,
    pub params: Vec<String>,
    pub block: Node,
}

/// An anonymous function; `id` names it uniquely within one parse.
#[derive(Debug, PartialEq)]
pub struct Lambda {
    pub id: String,
    pub params: Vec<String>,
    pub block: Node,
}

#[derive(Debug, PartialEq)]
pub struct FunctionCall {
    pub function: Node,
    pub arguments: Vec<Node>,
}

/// An object literal, as field names with their value expressions (reserved: not parsed).
#[derive(Debug, PartialEq)]
pub struct Object {
    pub values: Vec<(String, Node)>,
}

/// A property read `target.key` (reserved: not parsed).
#[derive(Debug, PartialEq)]
pub struct Index {
    pub target: Node,
    pub key: String,
}

/// A property write `target.key = value` (reserved: not parsed).
#[derive(Debug, PartialEq)]
pub struct SetPropertyExpr {
    pub target: Node,
    pub key: String,
    pub value: Node,
}

/// A node of the syntax tree.
#[derive(Debug, PartialEq)]
pub enum Node {
    /// A numeric literal, holding its source text.
    Number(String),
    String(String),
    Boolean(bool),
    Identifier(String),
    /// A whole program: its declarations in order.
    Compound(Vec<Node>),
    /// A brace-delimited body.
    Block(Vec<Node>),
    Lambda(Rc<Lambda>),
    Object(Box<Object>),
    /// The absent value.
    NoValue,
    Index(Box<Index>),
    FunctionDecleration(Rc<FunctionDecleration>),
    FunctionCall(Box<FunctionCall>),
    VariabeDecleration(Box<VariabeDecleration>),
    AssignmentExpr(Box<AssignmentExpr>),
    SetPropertyExpr(Box<SetPropertyExpr>),
    BinOperator(Box<BinOperator>),
    UnaryOperator(Box<UnaryOperator>),
    /// An expression that stands as a statement.
    Expression(Box<Node>),
}

/// The texts of `nodes`, separated by `, `.
fn join_nodes(nodes: &Vec<Node>) -> (r: String)
    decreases nodes, 0int,
{
    let mut text = String::new();
    let mut k: usize = 0;
    while k < nodes.len()
        decreases nodes@.len() - k,
    {
        if k > 0 {
            text.append(", ");
        }
        text.append(nodes[k].to_text().as_str());
        k = k + 1;
    }
    text
}

impl Node {
    /// The node written back as source-like text: strings in single quotes, programs and
    /// blocks as bracketed lists.
    pub fn to_text(&self) -> (r: String)
        ensures
            self is Number ==> r@ == self->Number_0@,
            self is Identifier ==> r@ == self->Identifier_0@,
            self is String ==> r@ == "'"@ + self->String_0@ + "'"@,
            self is NoValue ==> r@ == "none"@,
        decreases self, 1int,
    {
        match self {
            Node::Number(text) => text.clone(),
            Node::String(s) => {
                let mut t = String::from_str("'");
                t.append(s.as_str());
                t.append("'");
                t
            },
            Node::Boolean(b) => if *b { String::from_str("true") } else { String::from_str("false") },
            Node::Identifier(name) => name.clone(),
            Node::Compound(nodes) | Node::Block(nodes) => {
                let mut t = String::from_str("[");
                t.append(join_nodes(nodes).as_str());
                t.append("]");
                t
            },
            Node::Lambda(_) => String::from_str("Lambda"),
            Node::Object(_) => String::from_str("Object"),
            Node::Index(index) => {
                let mut t = index.target.to_text();
                t.append(".");
                t.append(index.key.as_str());
                t
            },
            Node::FunctionDecleration(_) => String::from_str("FunctionDecleration"),
            Node::FunctionCall(call) => {
                let mut t = call.function.to_text();
                t.append("(");
                t.append(join_nodes(&call.arguments).as_str());
                t.append(")");
                t
            },
            Node::VariabeDecleration(decl) => {
                let mut t = String::from_str("let ");
                t.append(decl.identifier.as_str());
                match &decl.value {
                    Some(value) => {
                        t.append(" = ");
                        t.append(value.to_text().as_str());
                    },
                    None => {},
                }
                t.append(";");
                t
            },
            Node::AssignmentExpr(assignment) => {
                let mut t = assignment.identifier.clone();
                t.append(" = ");
                t.append(assignment.value.to_text().as_str());
                t.append(";");
                t
            },
            Node::SetPropertyExpr(set) => {
                let mut t = set.target.to_text();
                t.append(".");
                t.append(set.key.as_str());
                t.append(" = ");
                t.append(set.value.to_text().as_str());
                t.append(";");
                t
            },
            Node::BinOperator(op) => {
                let mut t = op.left.to_text();
                t.append(" ");
                t.append(token_text(&op.operator).as_str());
                t.append(" ");
                t.append(op.right.to_text().as_str());
                t
            },
            Node::UnaryOperator(op) => {
                let mut t = token_text(&op.operator);
                t.append(op.expression.to_text().as_str());
                t
            },
            Node::Expression(inner) => inner.to_text(),
            Node::NoValue => String::from_str("none"),
        }
    }
}

} // verus!
