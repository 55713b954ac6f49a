pub mod ast;

use crate::parser::ast::{ParsedAst, ParsedAstKind};
use crate::tokens::{Token, TokenKind};
use vstd::prelude::*;

verus! {

/// A failed parse, positioned at the offending token.
#[derive(Debug, PartialEq)]
pub struct ParseError {
    pub line: usize,
    pub column: usize,
    pub kind: ParseErrorKind,
}

/// Every way parsing can fail.
#[derive(Debug, PartialEq, Clone, Copy, Eq, Structural)]
pub enum ParseErrorKind {
    /// The token stream ended where an expression was required.
    UnexpectedEof,
    /// A literal or identifier was required.
    ExpectedLiteral,
    /// A `,` or `]` was required inside an array literal.
    ExpectedCommaOrCloseBracket,
    /// An identifier was required as a call head.
    ExpectedIdentifier,
    /// A token that can begin no expression.
    ExpectedExpression,
}

/// The recursive-descent parser: a token buffer and a cursor.
#[derive(Debug)]
pub struct Parser {
    pub tokens: Vec<Token>,
    pub position: usize,
}

impl Parser {
    /// The cursor is inside the buffer.
    pub open spec fn wf(&self) -> bool {
        self.position <= self.tokens@.len()
    }

    /// A parser over `tokens`, at the first token.
    pub fn new(tokens: Vec<Token>) -> (r: Parser)
        ensures
            r.tokens@ == tokens@,
            r.position == 0,
            r.wf(),
    {
        Parser { tokens, position: 0 }
    }

    /// The token under the cursor, if any.
    pub fn current_token(&self) -> (r: Option<&Token>)
        ensures
            match r {
                Some(t) => self.position < self.tokens@.len() && *t == self.tokens@[self.position as int],
                None => self.position >= self.tokens@.len(),
            },
    {
        if self.position < self.tokens.len() {
            Some(&self.tokens[self.position])
        } else {
            None
        }
    }

    /// Step the cursor one token forward.
    pub fn advance(&mut self)
        requires
            old(self).position < old(self).tokens@.len(),
        ensures
            final(self).tokens == old(self).tokens,
            final(self).position == old(self).position + 1,
    {
        proof {
            vstd::std_specs::vec::axiom_spec_len(&self.tokens);
        }
        self.position = self.position + 1;
    }

    /// Parse one literal or identifier into the untyped node it denotes.
    pub fn parse_literal(&mut self) -> (r: Result<ParsedAst, ParseError>)
        requires
            old(self).wf(),
        ensures
            final(self).tokens == old(self).tokens,
            final(self).wf(),
            match r {
                Ok(a) => {
                    let t = old(self).tokens@[old(self).position as int];
                    &&& old(self).position < old(self).tokens@.len()
                    &&& final(self).position == old(self).position + 1
                    &&& a@.line == t@.line && a@.column == t@.column
                    &&& match t.kind {
                        TokenKind::Int(n) => a@.kind == crate::parser::ast::SpecParsedAstKind::Int(
                            n,
                        ),
                        TokenKind::Float(v) => a@.kind
                            == crate::parser::ast::SpecParsedAstKind::Float(v@),
                        TokenKind::Bool(b) => a@.kind
                            == crate::parser::ast::SpecParsedAstKind::Bool(b),
                        TokenKind::Char(c) => a@.kind
                            == crate::parser::ast::SpecParsedAstKind::Char(c),
                        TokenKind::String(v) => a@.kind
                            == crate::parser::ast::SpecParsedAstKind::String(v@),
                        TokenKind::Identifier(id) => a@.kind
                            == crate::parser::ast::SpecParsedAstKind::Identifier(id@),
                        _ => false,
                    }
                },
                Err(e) => final(self).position == old(self).position,
            },
    {
        let (line, column) = match self.current_token() {
            Some(t) => (t.line, t.column),
            None => {
                return Err(
                    ParseError { line: 0, column: 0, kind: ParseErrorKind::UnexpectedEof },
                );
            },
        };
        let kind = match &self.tokens[self.position].kind {
            TokenKind::Int(n) => ParsedAstKind::Int(*n),
            TokenKind::Float(s) => ParsedAstKind::Float(s.clone()),
            TokenKind::Bool(b) => ParsedAstKind::Bool(*b),
            TokenKind::Char(c) => ParsedAstKind::Char(*c),
            TokenKind::String(s) => ParsedAstKind::String(s.clone()),
            TokenKind::Identifier(id) => ParsedAstKind::Identifier(id.duplicate()),
            _ => {
                return Err(ParseError { line, column, kind: ParseErrorKind::ExpectedLiteral });
            },
        };
        self.advance();
        Ok(ParsedAst { kind, line, column })
    }

    /// Parse one array literal `[e, e, ...]`.
    pub fn parse_array(&mut self) -> (r: Result<ParsedAst, ParseError>)
        requires
            old(self).wf(),
            old(self).position < old(self).tokens@.len(),
            old(self).tokens@[old(self).position as int].kind == TokenKind::Delimiter('['),
        ensures
            final(self).tokens == old(self).tokens,
            final(self).wf(),
            match r {
                Ok(a) => a@.kind is Array && old(self).position < final(self).position
                    <= final(self).tokens@.len() && a@.line == old(self).tokens@[old(
                    self,
                ).position as int]@.line && a@.column == old(self).tokens@[old(
                    self,
                ).position as int]@.column,
                Err(e) => old(self).position <= final(self).position
                    <= final(self).tokens@.len(),
            },
        decreases old(self).tokens@.len() - old(self).position, 0int,
    {
        let line = self.tokens[self.position].line;
        let column = self.tokens[self.position].column;
        self.advance();
        let mut elements: Vec<ParsedAst> = Vec::new();
        loop
            invariant
                self.wf(),
                self.tokens == old(self).tokens,
                old(self).position < self.position <= self.tokens@.len(),
                line == old(self).tokens@[old(self).position as int].line,
                column == old(self).tokens@[old(self).position as int].column,
            decreases self.tokens@.len() - self.position,
        {
            let closed = match self.current_token() {
                Some(t) => match &t.kind {
                    TokenKind::Delimiter(c) => *c == ']',
                    _ => false,
                },
                None => {
                    return Err(
                        ParseError { line: 0, column: 0, kind: ParseErrorKind::UnexpectedEof },
                    );
                },
            };
            if closed {
                self.advance();
                return Ok(ParsedAst { kind: ParsedAstKind::Array(elements), line, column });
            }
            let element = match self.parse_expression() {
                Ok(e) => e,
                Err(e) => {
                    return Err(e);
                },
            };
            elements.push(element);
            let (next_close, next_comma, nline, ncolumn) = match self.current_token() {
                Some(t) => (
                    match &t.kind {
                        TokenKind::Delimiter(c) => *c == ']',
                        _ => false,
                    },
                    match &t.kind {
                        TokenKind::Delimiter(c) => *c == ',',
                        _ => false,
                    },
                    t.line,
                    t.column,
                ),
                None => {
                    return Err(
                        ParseError { line: 0, column: 0, kind: ParseErrorKind::UnexpectedEof },
                    );
                },
            };
            if next_close {
                self.advance();
                return Ok(ParsedAst { kind: ParsedAstKind::Array(elements), line, column });
            }
            if !next_comma {
                return Err(
                    ParseError {
                        line: nline,
                        column: ncolumn,
                        kind: ParseErrorKind::ExpectedCommaOrCloseBracket,
                    },
                );
            }
            self.advance();
        }
    }

    /// Parse one call `(head e ...)`, with optional commas between the
    /// arguments.
    pub fn parse_call(&mut self) -> (r: Result<ParsedAst, ParseError>)
        requires
            old(self).wf(),
            old(self).position < old(self).tokens@.len(),
            old(self).tokens@[old(self).position as int].kind == TokenKind::Delimiter('('),
        ensures
            final(self).tokens == old(self).tokens,
            final(self).wf(),
            match r {
                Ok(a) => a@.kind is Call && old(self).position < final(self).position
                    <= final(self).tokens@.len() && a@.line == old(self).tokens@[old(
                    self,
                ).position as int]@.line && a@.column == old(self).tokens@[old(
                    self,
                ).position as int]@.column && old(self).position + 1 < old(self).tokens@.len()
                    && (old(self).tokens@[old(self).position + 1].kind matches
                TokenKind::Identifier(tid) && (a@.kind matches
                crate::parser::ast::SpecParsedAstKind::Call { name, .. } && name == tid@)),
                Err(e) => old(self).position <= final(self).position
                    <= final(self).tokens@.len(),
            },
        decreases old(self).tokens@.len() - old(self).position, 0int,
    {
        let line = self.tokens[self.position].line;
        let column = self.tokens[self.position].column;
        self.advance();
        let name = match self.current_token() {
            Some(t) => match &t.kind {
                TokenKind::Identifier(id) => id.duplicate(),
                _ => {
                    return Err(
                        ParseError {
                            line: t.line,
                            column: t.column,
                            kind: ParseErrorKind::ExpectedIdentifier,
                        },
                    );
                },
            },
            None => {
                return Err(
                    ParseError { line: 0, column: 0, kind: ParseErrorKind::UnexpectedEof },
                );
            },
        };
        self.advance();
        let mut args: Vec<ParsedAst> = Vec::new();
        loop
            invariant
                self.wf(),
                self.tokens == old(self).tokens,
                old(self).position < self.position <= self.tokens@.len(),
                line == old(self).tokens@[old(self).position as int].line,
                column == old(self).tokens@[old(self).position as int].column,
                old(self).position + 1 < old(self).tokens@.len(),
                (old(self).tokens@[old(self).position + 1].kind matches TokenKind::Identifier(tid)
                    && name@ == tid@),
            decreases self.tokens@.len() - self.position,
        {
            let closed = match self.current_token() {
                Some(t) => match &t.kind {
                    TokenKind::Delimiter(c) => *c == ')',
                    _ => false,
                },
                None => {
                    return Err(
                        ParseError { line: 0, column: 0, kind: ParseErrorKind::UnexpectedEof },
                    );
                },
            };
            if closed {
                self.advance();
                return Ok(ParsedAst { kind: ParsedAstKind::Call { name, args }, line, column });
            }
            let arg = match self.parse_expression() {
                Ok(e) => e,
                Err(e) => {
                    return Err(e);
                },
            };
            args.push(arg);
            let comma = match self.current_token() {
                Some(t) => match &t.kind {
                    TokenKind::Delimiter(c) => *c == ',',
                    _ => false,
                },
                None => {
                    return Err(
                        ParseError { line: 0, column: 0, kind: ParseErrorKind::UnexpectedEof },
                    );
                },
            };
            if comma {
                self.advance();
            }
        }
    }

    /// Parse one expression: an array literal, a call, or a literal.
    pub fn parse_expression(&mut self) -> (r: Result<ParsedAst, ParseError>)
        requires
            old(self).wf(),
        ensures
            final(self).tokens == old(self).tokens,
            final(self).wf(),
            match r {
                Ok(a) => old(self).position < final(self).position <= final(self).tokens@.len(),
                Err(e) => old(self).position <= final(self).position
                    <= final(self).tokens@.len(),
            },
        decreases old(self).tokens@.len() - old(self).position, 1int,
    {
        let (is_open_bracket, is_open_paren, literal, line, column) = match self.current_token() {
            Some(t) => (
                match &t.kind {
                    TokenKind::Delimiter(c) => *c == '[',
                    _ => false,
                },
                match &t.kind {
                    TokenKind::Delimiter(c) => *c == '(',
                    _ => false,
                },
                t.kind.is_literal(),
                t.line,
                t.column,
            ),
            None => {
                return Err(
                    ParseError { line: 0, column: 0, kind: ParseErrorKind::UnexpectedEof },
                );
            },
        };
        if is_open_bracket {
            self.parse_array()
        } else if is_open_paren {
            self.parse_call()
        } else if literal {
            self.parse_literal()
        } else {
            Err(ParseError { line, column, kind: ParseErrorKind::ExpectedExpression })
        }
    }

    /// Parse the whole token stream into the ordered top-level forms.
    pub fn parse(&mut self) -> (r: Result<Vec<ParsedAst>, ParseError>)
        requires
            old(self).wf(),
        ensures
            final(self).tokens == old(self).tokens,
            final(self).wf(),
            r is Ok ==> final(self).position == final(self).tokens@.len()
                || final(self).tokens@[final(self).position as int].kind is EOF,
    {
        let mut ast: Vec<ParsedAst> = Vec::new();
        loop
            invariant
                self.wf(),
                self.tokens == old(self).tokens,
            decreases self.tokens@.len() - self.position,
        {
            let at_end = match self.current_token() {
                Some(t) => match &t.kind {
                    TokenKind::EOF => true,
                    _ => false,
                },
                None => true,
            };
            if at_end {
                return Ok(ast);
            }
            let expr = match self.parse_expression() {
                Ok(e) => e,
                Err(e) => {
                    return Err(e);
                },
            };
            ast.push(expr);
        }
    }
}

} // verus!
