use vstd::prelude::*;
use vstd::string::*;
use crate::ast::{AssignmentExpr, BinOperator, FunctionCall, FunctionDecleration, Lambda, Node, UnaryOperator, VariabeDecleration};
use crate::grammar::{digit_char, decimal_text, node_view, nodes_view, p_arguments, p_assignment, p_binary, p_binary_rest, p_block, p_block_items, p_call, p_call_rest, p_declaration, p_expression, p_expression_statement, p_function_declaration, p_lambda, p_lambda_block, p_names, p_param_list, p_program, p_unary, p_value, p_variable_declaration, parse_text, tok, NodeV, Parsed};
use crate::lexer::{views, Lexer};
use crate::symbol::names_view;
use crate::token::{token_name, Keyword, Operator, Token, TokenV};
use std::rc::Rc;

verus! {

/// A recursive-descent parser over the tokens of one source text.
#[derive(Debug)]
pub struct Parser {
    pub lexer: Lexer,
}

/// The error of a failed parse, with its message.
pub fn syntax_error(what: &str, token: &Token) -> (r: Result<Node, String>)
    ensures
        r is Err,
{
    let mut message = String::from_str(what);
    message.append(", got ");
    message.append(token_name(token).as_str());
    Err(message)
}

impl Parser {
    /// The parser keeps its place within the tokens.
    pub open spec fn wf(&self) -> bool {
        self.lexer.position <= self.lexer.tokens@.len()
    }

    pub open spec fn remaining(&self) -> int {
        self.lexer.tokens@.len() - self.lexer.position
    }

    /// `self` follows `before` over the same tokens, not behind it, and strictly ahead after a
    /// successful parse.
    pub open spec fn moved_on(&self, before: Parser, ok: bool) -> bool {
        &&& self.wf()
        &&& self.lexer.tokens == before.lexer.tokens
        &&& self.lexer.position >= before.lexer.position
        &&& ok ==> self.lexer.position > before.lexer.position
    }

    /// A parser over the tokens of `text`.
    pub fn new(text: &str) -> (r: Self)
        ensures
            r.wf(),
            r.lexer.position == 0,
            crate::lexer::views(r.lexer.tokens@) == crate::lexer::lex_text(text@),
    {
        let mut lexer = Lexer::new(text);
        lexer.lex();
        Parser { lexer }
    }

    /// The models of the tokens.
    pub open spec fn toks(&self) -> Seq<TokenV> {
        views(self.lexer.tokens@)
    }

    pub open spec fn pos(&self) -> int {
        self.lexer.position as int
    }

    /// After a parse from `before`: on success the grammar finds the same tree and stops at
    /// the same place; on failure the grammar finds nothing.
    pub open spec fn agrees(&self, r: Option<NodeV>, spec: Parsed) -> bool {
        match r {
            Some(n) => spec == (Some(n), self.pos()),
            None => spec.0 is None,
        }
    }

    /// A literal, an identifier, or a parenthesised expression.
    fn value(&mut self) -> (r: Result<Node, String>)
        requires
            old(self).wf(),
        ensures
            final(self).moved_on(*old(self), r is Ok),
            final(self).agrees(ok_view(r), p_value(old(self).toks(), old(self).pos())),
        decreases old(self).remaining(), 5int,
    {
        let token = self.lexer.next();
        match token {
            Token::Number(num) => Ok(Node::Number(num)),
            Token::Identifier(iden) => Ok(Node::Identifier(iden)),
            Token::String(string) => Ok(Node::String(string)),
            Token::Boolean(boolean) => Ok(Node::Boolean(boolean)),
            Token::LParen => {
                let result = self.expression()?;
                let current = self.lexer.next();
                match current {
                    Token::RParen => Ok(result),
                    _ => syntax_error("Expected closing ')'", &current),
                }
            },
            _ => syntax_error("Invalid Syntax", &token),
        }
    }

    fn call_expression(&mut self) -> (r: Result<Node, String>)
        requires
            old(self).wf(),
        ensures
            final(self).moved_on(*old(self), r is Ok),
            final(self).agrees(ok_view(r), p_call(old(self).toks(), old(self).pos())),
        decreases old(self).remaining(), 10int,
    {
        let ghost start = *old(self);
        let ghost ts = old(self).toks();
        let mut node = self.value()?;
        loop
            invariant
                start == *old(self),
                ts == start.toks(),
                self.moved_on(start, true),
                p_call(ts, start.pos()) == p_call_rest(ts, self.pos(), node_view(node)),
            ensures
                start == *old(self),
                self.moved_on(start, true),
                p_call(ts, start.pos()) == (Some(node_view(node)), self.pos()),
            decreases self.remaining(),
        {
            match self.lexer.peek() {
                Token::LParen => {},
                _ => break,
            }
            let arguments = self.argument_list()?;
            node = Node::FunctionCall(Box::new(FunctionCall { function: node, arguments }));
        }
        Ok(node)
    }

    fn unary_expression(&mut self) -> (r: Result<Node, String>)
        requires
            old(self).wf(),
        ensures
            final(self).moved_on(*old(self), r is Ok),
            final(self).agrees(ok_view(r), p_unary(old(self).toks(), old(self).pos())),
        decreases old(self).remaining(), 15int,
    {
        let token = self.lexer.peek();
        match token {
            Token::Operator(Operator::Plus) | Token::Operator(Operator::Minus) | Token::Operator(Operator::Not) => {
                self.lexer.next();
                let expression = self.unary_expression()?;
                Ok(Node::UnaryOperator(Box::new(UnaryOperator { operator: token, expression })))
            },
            _ => self.call_expression(),
        }
    }

    fn exponent_expr(&mut self) -> (r: Result<Node, String>)
        requires
            old(self).wf(),
        ensures
            final(self).moved_on(*old(self), r is Ok),
            final(self).agrees(ok_view(r), p_binary(old(self).toks(), old(self).pos(), 0)),
        decreases old(self).remaining(), 20int,
    {
        let ghost start = *old(self);
        let ghost ts = old(self).toks();
        let mut node = self.unary_expression()?;
        loop
            invariant
                start == *old(self),
                ts == start.toks(),
                self.moved_on(start, true),
                p_binary(ts, start.pos(), 0) == p_binary_rest(ts, self.pos(), node_view(node), 0),
            ensures
                start == *old(self),
                self.moved_on(start, true),
                p_binary(ts, start.pos(), 0) == (Some(node_view(node)), self.pos()),
            decreases self.remaining(),
        {
            match self.lexer.peek() {
                Token::Operator(Operator::Exponent) => {},
                _ => break,
            }
            self.lexer.next();
            let right = self.unary_expression()?;
            node = binary(node, Operator::Exponent, right);
        }
        Ok(node)
    }

    fn multiplication_expr(&mut self) -> (r: Result<Node, String>)
        requires
            old(self).wf(),
        ensures
            final(self).moved_on(*old(self), r is Ok),
            final(self).agrees(ok_view(r), p_binary(old(self).toks(), old(self).pos(), 1)),
        decreases old(self).remaining(), 25int,
    {
        let ghost start = *old(self);
        let ghost ts = old(self).toks();
        let mut node = self.exponent_expr()?;
        loop
            invariant
                start == *old(self),
                ts == start.toks(),
                self.moved_on(start, true),
                p_binary(ts, start.pos(), 1) == p_binary_rest(ts, self.pos(), node_view(node), 1),
            ensures
                start == *old(self),
                self.moved_on(start, true),
                p_binary(ts, start.pos(), 1) == (Some(node_view(node)), self.pos()),
            decreases self.remaining(),
        {
            let op = match self.lexer.peek() {
                Token::Operator(Operator::Mul) => Operator::Mul,
                Token::Operator(Operator::Div) => Operator::Div,
                Token::Operator(Operator::Modulus) => Operator::Modulus,
                _ => break,
            };
            self.lexer.next();
            let right = self.exponent_expr()?;
            node = binary(node, op, right);
        }
        Ok(node)
    }

    fn addition_expr(&mut self) -> (r: Result<Node, String>)
        requires
            old(self).wf(),
        ensures
            final(self).moved_on(*old(self), r is Ok),
            final(self).agrees(ok_view(r), p_binary(old(self).toks(), old(self).pos(), 2)),
        decreases old(self).remaining(), 30int,
    {
        let ghost start = *old(self);
        let ghost ts = old(self).toks();
        let mut node = self.multiplication_expr()?;
        loop
            invariant
                start == *old(self),
                ts == start.toks(),
                self.moved_on(start, true),
                p_binary(ts, start.pos(), 2) == p_binary_rest(ts, self.pos(), node_view(node), 2),
            ensures
                start == *old(self),
                self.moved_on(start, true),
                p_binary(ts, start.pos(), 2) == (Some(node_view(node)), self.pos()),
            decreases self.remaining(),
        {
            let op = match self.lexer.peek() {
                Token::Operator(Operator::Plus) => Operator::Plus,
                Token::Operator(Operator::Minus) => Operator::Minus,
                _ => break,
            };
            self.lexer.next();
            let right = self.multiplication_expr()?;
            node = binary(node, op, right);
        }
        Ok(node)
    }

    /// Consumes the next token if it is `expected`; otherwise an error naming both.
    fn eat(&mut self, expected: &Token) -> (r: Result<Token, String>)
        requires
            old(self).wf(),
            !(expected is Unknown),
        ensures
            final(self).moved_on(*old(self), r is Ok),
            r is Ok <==> tok(old(self).toks(), old(self).pos()) == expected@,
            r is Ok ==> r->Ok_0@ == expected@ && final(self).lexer.position == old(self).lexer.position + 1,
            r is Err ==> *final(self) == *old(self),
    {
        let next = self.lexer.peek();
        if same_token(&next, expected) {
            Ok(self.lexer.next())
        } else {
            let mut message = String::from_str("Expected ");
            message.append(token_name(expected).as_str());
            message.append(", got ");
            message.append(token_name(&next).as_str());
            Err(message)
        }
    }

    fn comparison(&mut self) -> (r: Result<Node, String>)
        requires
            old(self).wf(),
        ensures
            final(self).moved_on(*old(self), r is Ok),
            final(self).agrees(ok_view(r), p_binary(old(self).toks(), old(self).pos(), 3)),
        decreases old(self).remaining(), 35int,
    {
        let ghost start = *old(self);
        let ghost ts = old(self).toks();
        let mut node = self.addition_expr()?;
        loop
            invariant
                start == *old(self),
                ts == start.toks(),
                self.moved_on(start, true),
                p_binary(ts, start.pos(), 3) == p_binary_rest(ts, self.pos(), node_view(node), 3),
            ensures
                start == *old(self),
                self.moved_on(start, true),
                p_binary(ts, start.pos(), 3) == (Some(node_view(node)), self.pos()),
            decreases self.remaining(),
        {
            let op = match self.lexer.peek() {
                Token::Operator(Operator::GreaterThan) => Operator::GreaterThan,
                Token::Operator(Operator::GreaterThanOrEqual) => Operator::GreaterThanOrEqual,
                Token::Operator(Operator::LessThan) => Operator::LessThan,
                Token::Operator(Operator::LessThanOrEqual) => Operator::LessThanOrEqual,
                _ => break,
            };
            self.lexer.next();
            let right = self.addition_expr()?;
            node = binary(node, op, right);
        }
        Ok(node)
    }

    fn equality(&mut self) -> (r: Result<Node, String>)
        requires
            old(self).wf(),
        ensures
            final(self).moved_on(*old(self), r is Ok),
            final(self).agrees(ok_view(r), p_binary(old(self).toks(), old(self).pos(), 4)),
        decreases old(self).remaining(), 40int,
    {
        let ghost start = *old(self);
        let ghost ts = old(self).toks();
        let mut node = self.comparison()?;
        loop
            invariant
                start == *old(self),
                ts == start.toks(),
                self.moved_on(start, true),
                p_binary(ts, start.pos(), 4) == p_binary_rest(ts, self.pos(), node_view(node), 4),
            ensures
                start == *old(self),
                self.moved_on(start, true),
                p_binary(ts, start.pos(), 4) == (Some(node_view(node)), self.pos()),
            decreases self.remaining(),
        {
            let op = match self.lexer.peek() {
                Token::Operator(Operator::DoubleEqual) => Operator::DoubleEqual,
                Token::Operator(Operator::NotEqual) => Operator::NotEqual,
                _ => break,
            };
            self.lexer.next();
            let right = self.comparison()?;
            node = binary(node, op, right);
        }
        Ok(node)
    }

    fn logical_and(&mut self) -> (r: Result<Node, String>)
        requires
            old(self).wf(),
        ensures
            final(self).moved_on(*old(self), r is Ok),
            final(self).agrees(ok_view(r), p_binary(old(self).toks(), old(self).pos(), 5)),
        decreases old(self).remaining(), 45int,
    {
        let ghost start = *old(self);
        let ghost ts = old(self).toks();
        let mut node = self.equality()?;
        loop
            invariant
                start == *old(self),
                ts == start.toks(),
                self.moved_on(start, true),
                p_binary(ts, start.pos(), 5) == p_binary_rest(ts, self.pos(), node_view(node), 5),
            ensures
                start == *old(self),
                self.moved_on(start, true),
                p_binary(ts, start.pos(), 5) == (Some(node_view(node)), self.pos()),
            decreases self.remaining(),
        {
            match self.lexer.peek() {
                Token::Keyword(Keyword::And) => {},
                _ => break,
            }
            self.lexer.next();
            let right = self.equality()?;
            node = Node::BinOperator(Box::new(BinOperator { left: node, operator: Token::Keyword(Keyword::And), right }));
        }
        Ok(node)
    }

    fn logical_or(&mut self) -> (r: Result<Node, String>)
        requires
            old(self).wf(),
        ensures
            final(self).moved_on(*old(self), r is Ok),
            final(self).agrees(ok_view(r), p_binary(old(self).toks(), old(self).pos(), 6)),
        decreases old(self).remaining(), 50int,
    {
        let ghost start = *old(self);
        let ghost ts = old(self).toks();
        let mut node = self.logical_and()?;
        loop
            invariant
                start == *old(self),
                ts == start.toks(),
                self.moved_on(start, true),
                p_binary(ts, start.pos(), 6) == p_binary_rest(ts, self.pos(), node_view(node), 6),
            ensures
                start == *old(self),
                self.moved_on(start, true),
                p_binary(ts, start.pos(), 6) == (Some(node_view(node)), self.pos()),
            decreases self.remaining(),
        {
            match self.lexer.peek() {
                Token::Keyword(Keyword::Or) => {},
                _ => break,
            }
            self.lexer.next();
            let right = self.logical_and()?;
            node = Node::BinOperator(Box::new(BinOperator { left: node, operator: Token::Keyword(Keyword::Or), right }));
        }
        Ok(node)
    }

    /// An assignment, plain or compound, or the expression below it. Only a bare identifier
    /// can be assigned to.
    pub fn assignment(&mut self) -> (r: Result<Node, String>)
        requires
            old(self).wf(),
        ensures
            final(self).moved_on(*old(self), r is Ok),
            final(self).agrees(ok_view(r), p_assignment(old(self).toks(), old(self).pos())),
        decreases old(self).remaining(), 60int,
    {
        let expression = self.logical_or()?;
        let op = match self.lexer.peek() {
            Token::Operator(op) => op,
            _ => return Ok(expression),
        };
        if !is_assignment_operator(op) {
            return Ok(expression);
        }
        match expression {
            Node::Identifier(identifier) => {
                self.lexer.next();
                let value = self.expression()?;
                let r = desugar_assignment(identifier, op, value);
                proof {
                    reveal_with_fuel(node_view, 4);
                }
                Ok(r)
            },
            _ => Err(String::from_str("Invalid assignment target, expected an identifier")),
        }
    }

    fn lambda(&mut self) -> (r: Result<Node, String>)
        requires
            old(self).wf(),
        ensures
            final(self).moved_on(*old(self), r is Ok),
            final(self).agrees(ok_view(r), p_lambda(old(self).toks(), old(self).pos())),
        decreases old(self).remaining(), 69int,
    {
        let start = self.lexer.position;
        let params = match self.lexer.peek() {
            Token::Operator(Operator::Pipe) => self.lambda_parameters()?,
            _ => {
                self.eat(&Token::Operator(Operator::DoublePipe))?;
                Vec::new()
            },
        };
        proof {
            if params@.len() == 0 {
                assert(names_view(params@) =~= Seq::<Seq<char>>::empty());
            }
        }
        let mut id = String::from_str("(lambda)#");
        id.append(decimal(start).as_str());
        let block = self.lambda_block()?;
        Ok(Node::Lambda(Rc::new(Lambda { id, params, block })))
    }

    fn expression(&mut self) -> (r: Result<Node, String>)
        requires
            old(self).wf(),
        ensures
            final(self).moved_on(*old(self), r is Ok),
            final(self).agrees(ok_view(r), p_expression(old(self).toks(), old(self).pos())),
        decreases old(self).remaining(), 70int,
    {
        match self.lexer.peek() {
            Token::Operator(Operator::Pipe) => {
                match self.lexer.get_index(1) {
                    Token::Identifier(_) => self.lambda(),
                    other => syntax_error("Invalid Syntax", &other),
                }
            },
            Token::Operator(Operator::DoublePipe) => self.lambda(),
            _ => self.assignment(),
        }
    }

    /// An expression and its `;`, which may be left out before the `}` that closes a block.
    fn expression_statment(&mut self) -> (r: Result<Node, String>)
        requires
            old(self).wf(),
        ensures
            final(self).moved_on(*old(self), r is Ok),
            final(self).agrees(ok_view(r), p_expression_statement(old(self).toks(), old(self).pos())),
        decreases old(self).remaining(), 80int,
    {
        let expr = self.expression()?;
        match self.lexer.peek() {
            Token::RBrace => {},
            _ => {
                self.eat(&Token::Semicolon)?;
            },
        }
        Ok(Node::Expression(Box::new(expr)))
    }

    fn variable_decleration(&mut self) -> (r: Result<Node, String>)
        requires
            old(self).wf(),
        ensures
            final(self).moved_on(*old(self), r is Ok),
            final(self).agrees(ok_view(r), p_variable_declaration(old(self).toks(), old(self).pos())),
        decreases old(self).remaining(), 80int,
    {
        self.eat(&Token::Keyword(Keyword::Let))?;
        let identifier = match self.lexer.peek() {
            Token::Identifier(identifier) => identifier,
            other => return syntax_error("Expected identifier", &other),
        };
        self.lexer.next();
        match self.lexer.next() {
            Token::Operator(Operator::Equal) => {
                let value = self.expression()?;
                self.eat(&Token::Semicolon)?;
                Ok(Node::VariabeDecleration(Box::new(VariabeDecleration { identifier, value: Some(value) })))
            },
            Token::Semicolon => Ok(Node::VariabeDecleration(Box::new(VariabeDecleration { identifier, value: None }))),
            other => syntax_error("Expected '=' or ';'", &other),
        }
    }

    fn decerlation(&mut self) -> (r: Result<Node, String>)
        requires
            old(self).wf(),
        ensures
            final(self).moved_on(*old(self), r is Ok),
            final(self).agrees(ok_view(r), p_declaration(old(self).toks(), old(self).pos())),
        decreases old(self).remaining(), 90int,
    {
        match self.lexer.peek() {
            Token::Keyword(Keyword::Let) => self.variable_decleration(),
            Token::Keyword(Keyword::Function) => self.function_decleration(),
            _ => self.expression_statment(),
        }
    }

    fn function_decleration(&mut self) -> (r: Result<Node, String>)
        requires
            old(self).wf(),
        ensures
            final(self).moved_on(*old(self), r is Ok),
            final(self).agrees(ok_view(r), p_function_declaration(old(self).toks(), old(self).pos())),
        decreases old(self).remaining(), 80int,
    {
        self.eat(&Token::Keyword(Keyword::Function))?;
        let name = match self.lexer.peek() {
            Token::Identifier(identifier) => identifier,
            other => return syntax_error("Expected identifier", &other),
        };
        self.lexer.next();
        let params = self.parameter_list()?;
        let block = self.block()?;
        Ok(Node::FunctionDecleration(Rc::new(FunctionDecleration { name, params, block })))
    }

    fn lambda_block(&mut self) -> (r: Result<Node, String>)
        requires
            old(self).wf(),
        ensures
            final(self).moved_on(*old(self), r is Ok),
            final(self).agrees(ok_view(r), p_lambda_block(old(self).toks(), old(self).pos())),
        decreases old(self).remaining(), 96int,
    {
        match self.lexer.peek() {
            Token::LBrace => self.block(),
            _ => {
                let expression = self.expression()?;
                let mut body = Vec::new();
                body.push(expression);
                proof {
                    assert(body@ =~= Seq::<Node>::empty().push(body@[0]));
                    lemma_nodes_view_push(Seq::<Node>::empty(), body@[0]);
                    assert(nodes_view(Seq::<Node>::empty()) =~= Seq::<NodeV>::empty());
                    assert(nodes_view(body@) =~= seq![node_view(body@[0])]);
                }
                Ok(Node::Block(body))
            },
        }
    }

    fn block(&mut self) -> (r: Result<Node, String>)
        requires
            old(self).wf(),
        ensures
            final(self).moved_on(*old(self), r is Ok),
            final(self).agrees(ok_view(r), p_block(old(self).toks(), old(self).pos())),
        decreases old(self).remaining(), 95int,
    {
        let ghost start = *old(self);
        let ghost ts = old(self).toks();
        self.eat(&Token::LBrace)?;
        let mut declarations: Vec<Node> = Vec::new();
        loop
            invariant
                start == *old(self),
                ts == start.toks(),
                self.moved_on(start, true),
                p_block(ts, start.pos()) == p_block_items(ts, self.pos(), nodes_view(declarations@)),
            ensures
                start == *old(self),
                self.moved_on(start, true),
                p_block(ts, start.pos()) == p_block_items(ts, self.pos(), nodes_view(declarations@)),
                tok(ts, self.pos()) is RBrace || tok(ts, self.pos()) is EndOfFile || tok(ts, self.pos()) is Unknown,
            decreases self.remaining(),
        {
            match self.lexer.peek() {
                Token::RBrace => break,
                Token::EndOfFile | Token::Unknown => break,
                _ => {},
            }
            let declaration = self.decerlation()?;
            let ghost before = declarations@;
            declarations.push(declaration);
            proof {
                lemma_nodes_view_push(before, declaration);
            }
        }
        self.eat(&Token::RBrace)?;
        Ok(Node::Block(declarations))
    }

    fn argument_list(&mut self) -> (r: Result<Vec<Node>, String>)
        requires
            old(self).wf(),
            tok(old(self).toks(), old(self).pos()) == TokenV::LParen,
        ensures
            final(self).moved_on(*old(self), r is Ok),
            final(self).agrees(
                match r { Ok(args) => Some(NodeV::Compound(nodes_view(args@))), Err(_) => None },
                p_arguments(old(self).toks(), old(self).pos() + 1, Seq::empty()),
            ),
        decreases old(self).remaining(), 8int,
    {
        let ghost start = *old(self);
        let ghost ts = old(self).toks();
        let mut args: Vec<Node> = Vec::new();
        if let Err(e) = self.eat(&Token::LParen) {
            return Err(e);
        }
        loop
            invariant
                start == *old(self),
                ts == start.toks(),
                self.moved_on(start, true),
                p_arguments(ts, start.pos() + 1, Seq::empty()) == p_arguments(ts, self.pos(), nodes_view(args@)),
            ensures
                start == *old(self),
                self.moved_on(start, true),
                p_arguments(ts, start.pos() + 1, Seq::empty()) == p_arguments(ts, self.pos(), nodes_view(args@)),
                tok(ts, self.pos()) is RParen || tok(ts, self.pos()) is EndOfFile || tok(ts, self.pos()) is Unknown,
            decreases self.remaining(),
        {
            match self.lexer.peek() {
                Token::Comma => {
                    self.lexer.next();
                },
                Token::RParen | Token::EndOfFile | Token::Unknown => break,
                _ => {
                    let argument = self.expression()?;
                    let ghost before = args@;
                    args.push(argument);
                    proof {
                        lemma_nodes_view_push(before, argument);
                    }
                },
            }
        }
        if let Err(e) = self.eat(&Token::RParen) {
            return Err(e);
        }
        Ok(args)
    }

    /// Names separated by commas, up to `closing` (which is not consumed).
    fn names(&mut self, closing: &Token) -> (r: Result<Vec<String>, String>)
        requires
            old(self).wf(),
            !(closing is Identifier),
            !(closing is Comma),
        ensures
            final(self).moved_on(*old(self), false),
            match r {
                Ok(names) => p_names(old(self).toks(), old(self).pos(), closing@, Seq::empty()) == (Some(names_view(names@)), final(self).pos()),
                Err(_) => p_names(old(self).toks(), old(self).pos(), closing@, Seq::empty()).0 is None,
            },
    {
        let ghost start = *old(self);
        let ghost ts = old(self).toks();
        let mut params: Vec<String> = Vec::new();
        proof {
            assert(names_view(params@) =~= Seq::<Seq<char>>::empty());
        }
        loop
            invariant
                start == *old(self),
                ts == start.toks(),
                self.moved_on(start, false),
                p_names(ts, start.pos(), closing@, Seq::empty()) == p_names(ts, self.pos(), closing@, names_view(params@)),
            ensures
                start == *old(self),
                self.moved_on(start, false),
                p_names(ts, start.pos(), closing@, Seq::empty()) == (Some(names_view(params@)), self.pos()),
            decreases self.remaining(),
        {
            let identifier = match self.lexer.peek() {
                Token::Identifier(identifier) => identifier,
                _ => break,
            };
            self.lexer.next();
            let next = self.lexer.peek();
            let ghost before = params@;
            if same_token(&next, &Token::Comma) {
                self.lexer.next();
            } else if !same_token(&next, closing) {
                let mut message = String::from_str("Expected ");
                message.append(token_name(closing).as_str());
                message.append(" or ','");
                message.append(", got ");
                message.append(token_name(&next).as_str());
                return Err(message);
            }
            params.push(identifier);
            proof {
                assert(names_view(params@) =~= names_view(before).push(identifier@));
            }
        }
        Ok(params)
    }

    fn lambda_parameters(&mut self) -> (r: Result<Vec<String>, String>)
        requires
            old(self).wf(),
        ensures
            final(self).moved_on(*old(self), r is Ok),
            match r {
                Ok(names) => p_param_list(old(self).toks(), old(self).pos(), TokenV::Operator(Operator::Pipe), TokenV::Operator(Operator::Pipe))
                    == (Some(names_view(names@)), final(self).pos()),
                Err(_) => p_param_list(old(self).toks(), old(self).pos(), TokenV::Operator(Operator::Pipe), TokenV::Operator(Operator::Pipe)).0 is None,
            },
    {
        if let Err(e) = self.eat(&Token::Operator(Operator::Pipe)) {
            return Err(e);
        }
        let params = self.names(&Token::Operator(Operator::Pipe))?;
        if let Err(e) = self.eat(&Token::Operator(Operator::Pipe)) {
            return Err(e);
        }
        Ok(params)
    }

    fn parameter_list(&mut self) -> (r: Result<Vec<String>, String>)
        requires
            old(self).wf(),
        ensures
            final(self).moved_on(*old(self), r is Ok),
            match r {
                Ok(names) => p_param_list(old(self).toks(), old(self).pos(), TokenV::LParen, TokenV::RParen)
                    == (Some(names_view(names@)), final(self).pos()),
                Err(_) => p_param_list(old(self).toks(), old(self).pos(), TokenV::LParen, TokenV::RParen).0 is None,
            },
    {
        if let Err(e) = self.eat(&Token::LParen) {
            return Err(e);
        }
        let params = self.names(&Token::RParen)?;
        if let Err(e) = self.eat(&Token::RParen) {
            return Err(e);
        }
        Ok(params)
    }

    fn program(&mut self) -> (r: Result<Node, String>)
        requires
            old(self).wf(),
        ensures
            final(self).moved_on(*old(self), false),
            final(self).agrees(ok_view(r), p_program(old(self).toks(), old(self).pos(), Seq::empty())),
    {
        let ghost start = *old(self);
        let ghost ts = old(self).toks();
        let mut declarations: Vec<Node> = Vec::new();
        proof {
            assert(nodes_view(declarations@) =~= Seq::<NodeV>::empty());
        }
        loop
            invariant
                start == *old(self),
                ts == start.toks(),
                self.moved_on(start, false),
                p_program(ts, start.pos(), Seq::empty()) == p_program(ts, self.pos(), nodes_view(declarations@)),
            ensures
                start == *old(self),
                self.moved_on(start, false),
                p_program(ts, start.pos(), Seq::empty()) == p_program(ts, self.pos(), nodes_view(declarations@)),
                tok(ts, self.pos()) is EndOfFile || tok(ts, self.pos()) is Unknown,
            decreases self.remaining(),
        {
            match self.lexer.peek() {
                Token::EndOfFile | Token::Unknown => break,
                _ => {},
            }
            let declaration = self.decerlation()?;
            let ghost before = declarations@;
            declarations.push(declaration);
            proof {
                lemma_nodes_view_push(before, declaration);
            }
        }
        match self.lexer.peek() {
            Token::EndOfFile => Ok(Node::Compound(declarations)),
            other => syntax_error("Invalid Syntax", &other),
        }
    }

    /// Parses the tokens from the current position as a program: a `Compound` of its
    /// declarations, exactly as the grammar `p_program` reads them.
    pub fn parse(&mut self) -> (r: Result<Node, String>)
        requires
            old(self).wf(),
        ensures
            final(self).moved_on(*old(self), false),
            final(self).agrees(ok_view(r), p_program(old(self).toks(), old(self).pos(), Seq::empty())),
    {
        self.program()
    }
}

/// The model of a parse result: the tree's model, or nothing for an error.
pub open spec fn ok_view(r: Result<Node, String>) -> Option<NodeV> {
    match r {
        Ok(n) => Some(node_view(n)),
        Err(_) => None,
    }
}

proof fn lemma_nodes_view_push(s: Seq<Node>, n: Node)
    ensures
        nodes_view(s.push(n)) == nodes_view(s).push(node_view(n)),
{
    assert(s.push(n).drop_last() =~= s);
}

/// Parses a source text. The tree is the one the grammar gives for the text's tokens, so it
/// depends on the text alone.
pub fn parse_source(text: &str) -> (r: Result<Node, String>)
    ensures
        ok_view(r) == parse_text(text@),
{
    let mut parser = Parser::new(text);
    parser.parse()
}

/// Whether two tokens are equal.
pub fn same_token(a: &Token, b: &Token) -> (r: bool)
    ensures
        r == (a@ == b@),
{
    match (a, b) {
        (Token::Number(x), Token::Number(y)) => x.eq(y),
        (Token::String(x), Token::String(y)) => x.eq(y),
        (Token::Boolean(x), Token::Boolean(y)) => *x == *y,
        (Token::Identifier(x), Token::Identifier(y)) => x.eq(y),
        (Token::Operator(x), Token::Operator(y)) => *x == *y,
        (Token::Keyword(x), Token::Keyword(y)) => *x == *y,
        (Token::LParen, Token::LParen) => true,
        (Token::RParen, Token::RParen) => true,
        (Token::LBrace, Token::LBrace) => true,
        (Token::RBrace, Token::RBrace) => true,
        (Token::Comma, Token::Comma) => true,
        (Token::EndOfFile, Token::EndOfFile) => true,
        (Token::Semicolon, Token::Semicolon) => true,
        (Token::Unknown, Token::Unknown) => true,
        _ => false,
    }
}

/// A binary operation node.
pub fn binary(left: Node, op: Operator, right: Node) -> (r: Node)
    ensures
        r == Node::BinOperator(Box::new(BinOperator { left, operator: Token::Operator(op), right })),
{
    Node::BinOperator(Box::new(BinOperator { left, operator: Token::Operator(op), right }))
}

pub open spec fn assignment_operator(op: Operator) -> bool {
    match op {
        Operator::Equal | Operator::PlusEqual | Operator::MinusEqual | Operator::MulEqual
        | Operator::DivEqual | Operator::ModulusEqual | Operator::ExponentEqual => true,
        _ => false,
    }
}

pub fn is_assignment_operator(op: Operator) -> (r: bool)
    ensures
        r == assignment_operator(op),
{
    match op {
        Operator::Equal | Operator::PlusEqual | Operator::MinusEqual | Operator::MulEqual
        | Operator::DivEqual | Operator::ModulusEqual | Operator::ExponentEqual => true,
        _ => false,
    }
}

/// The operator that a compound assignment applies: `+` for `+=`, and so on.
pub open spec fn base_operator(op: Operator) -> Option<Operator> {
    match op {
        Operator::PlusEqual => Some(Operator::Plus),
        Operator::MinusEqual => Some(Operator::Minus),
        Operator::MulEqual => Some(Operator::Mul),
        Operator::DivEqual => Some(Operator::Div),
        Operator::ModulusEqual => Some(Operator::Modulus),
        Operator::ExponentEqual => Some(Operator::Exponent),
        _ => None,
    }
}

/// `identifier op value` as a plain assignment: `x += e` becomes `x = x + e`.
pub fn desugar_assignment(identifier: String, op: Operator, value: Node) -> (r: Node)
    ensures
        r == match base_operator(op) {
            Some(base) => Node::AssignmentExpr(Box::new(AssignmentExpr {
                identifier,
                value: Node::BinOperator(Box::new(BinOperator {
                    left: Node::Identifier(identifier),
                    operator: Token::Operator(base),
                    right: value,
                })),
            })),
            None => Node::AssignmentExpr(Box::new(AssignmentExpr { identifier, value })),
        },
{
    let base = match op {
        Operator::PlusEqual => Some(Operator::Plus),
        Operator::MinusEqual => Some(Operator::Minus),
        Operator::MulEqual => Some(Operator::Mul),
        Operator::DivEqual => Some(Operator::Div),
        Operator::ModulusEqual => Some(Operator::Modulus),
        Operator::ExponentEqual => Some(Operator::Exponent),
        _ => None,
    };
    match base {
        Some(base) => {
            let left = Node::Identifier(identifier.clone());
            Node::AssignmentExpr(Box::new(AssignmentExpr { identifier, value: binary(left, base, value) }))
        },
        None => Node::AssignmentExpr(Box::new(AssignmentExpr { identifier, value })),
    }
}

/// The character of the digit `d`.
fn digit_of(d: usize) -> (c: char)
    requires
        d < 10,
    ensures
        c == digit_char(d as int),
{
    if d == 0 { '0' } else if d == 1 { '1' } else if d == 2 { '2' } else if d == 3 { '3' }
    else if d == 4 { '4' } else if d == 5 { '5' } else if d == 6 { '6' } else if d == 7 { '7' }
    else if d == 8 { '8' } else { '9' }
}

/// The decimal digits of `n`.
pub fn decimal(n: usize) -> (r: String)
    ensures
        r@ == decimal_text(n as nat),
    decreases n,
{
    let one = vec![digit_of(n % 10)];
    let last = crate::lexer::string_of(&one, 0, 1);
    proof {
        assert(one@.subrange(0, 1) =~= seq![digit_char((n % 10) as int)]);
    }
    if n < 10 {
        last
    } else {
        let mut head = decimal(n / 10);
        head.append(last.as_str());
        proof {
            assert(head@ =~= decimal_text((n / 10) as nat).push(digit_char((n % 10) as int)));
        }
        head
    }
}

} // verus!
