pub mod expressions;
pub mod grammar;
pub mod statements;

use vstd::prelude::*;
use vstd::string::StringExecFns;

use crate::ast::{
    Assign, Binary, Block, Break, Call, Class, Continue, Expr, ExprV, Expression, Function, FunctionV,
    Get, Grouping, If, Lambda, Logical, Print, Return, SetProperty, Stmt, StmtV, Super, This, Unary,
    Var, Variable, While, exprs_v, function_v, functions_v, stmts_v, tokens_v,
};
use crate::error::{LoxError, LoxErrorV};
use crate::parser::grammar::{
    advance, at_end, check, consume, parse_program, skip, synchronize, synchronize_loop, wf_tokens,
};
use crate::token::{Literal, LiteralV, Token, TokenType, TokenV};

verus! {

// ---------------------------------------------------------------------------
// The parser.
// ---------------------------------------------------------------------------

pub open spec fn rv_token(r: Result<Token, LoxError>) -> Result<TokenV, LoxErrorV> {
    match r {
        Ok(v) => Ok(v@),
        Err(e) => Err(e@),
    }
}

pub open spec fn rv_expr(r: Result<Expr, LoxError>) -> Result<ExprV, LoxErrorV> {
    match r {
        Ok(v) => Ok(v@),
        Err(e) => Err(e@),
    }
}

pub open spec fn rv_exprs(r: Result<Vec<Expr>, LoxError>) -> Result<Seq<ExprV>, LoxErrorV> {
    match r {
        Ok(v) => Ok(exprs_v(v@)),
        Err(e) => Err(e@),
    }
}

pub open spec fn rv_stmt(r: Result<Stmt, LoxError>) -> Result<StmtV, LoxErrorV> {
    match r {
        Ok(v) => Ok(v@),
        Err(e) => Err(e@),
    }
}

pub open spec fn rv_stmts(r: Result<Vec<Stmt>, LoxError>) -> Result<Seq<StmtV>, LoxErrorV> {
    match r {
        Ok(v) => Ok(stmts_v(v@)),
        Err(e) => Err(e@),
    }
}

pub open spec fn rv_function(r: Result<Function, LoxError>) -> Result<FunctionV, LoxErrorV> {
    match r {
        Ok(v) => Ok(function_v(v)),
        Err(e) => Err(e@),
    }
}

pub open spec fn rv_functions(r: Result<Vec<Function>, LoxError>) -> Result<Seq<FunctionV>, LoxErrorV> {
    match r {
        Ok(v) => Ok(functions_v(v@)),
        Err(e) => Err(e@),
    }
}

pub open spec fn rv_tokens(r: Result<Vec<Token>, LoxError>) -> Result<Seq<TokenV>, LoxErrorV> {
    match r {
        Ok(v) => Ok(tokens_v(v@)),
        Err(e) => Err(e@),
    }
}

pub(crate) fn kind_message(prefix: &str, kind: &str, suffix: &str) -> (r: String)
    ensures
        r@ == prefix@ + kind@ + suffix@,
{
    let mut m = message(prefix);
    m.append(kind);
    m.append(suffix);
    m
}

pub(crate) fn message(s: &str) -> (r: String)
    ensures
        r@ == s@,
{
    proof {
        broadcast use vstd::string::group_string_axioms;
    }
    s.to_string()
}

/// The parser stands on one of its tokens, and they are well formed.
pub open spec fn parser_wf(t: Seq<Token>, curr: int) -> bool {
    wf_tokens(t) && 0 <= curr < t.len()
}

/// A recursive-descent parser over a sequence of tokens.
pub struct Parser {
    pub(crate) tokens: Vec<Token>,
    pub(crate) curr: usize,
}

impl Parser {
    /// The tokens being parsed.
    pub closed spec fn toks(&self) -> Seq<Token> {
        self.tokens@
    }

    /// The position of the next token to read.
    pub closed spec fn pos(&self) -> int {
        self.curr as int
    }

    /// The parser stands on one of its tokens, and they are well formed.
    pub closed spec fn wf(&self) -> bool {
        parser_wf(self.tokens@, self.curr as int)
    }

    /// A parser that starts at the first token.
    pub fn new(tokens: Vec<Token>) -> (r: Self)
        ensures
            r.toks() == tokens@,
            r.pos() == 0,
            wf_tokens(tokens@) ==> r.wf(),
    {
        Parser { tokens, curr: 0 }
    }

    /// Parses declarations up to the end of the tokens. On an error the
    /// parser recovers to where the next statement starts and reports it.
    pub fn parse(&mut self) -> (r: Result<Vec<Stmt>, LoxError>)
        requires
            old(self).wf(),
        ensures
            final(self).wf(),
            final(self).toks() == old(self).toks(),
            (rv_stmts(r), final(self).pos()) == parse_program(
                old(self).toks(),
                old(self).pos(),
                Seq::empty(),
            ),
    {
        let ghost t = self.tokens@;
        let ghost p0 = self.curr as int;
        let mut statements: Vec<Stmt> = Vec::new();
        proof {
            crate::ast::lemma_views_empty();
        }
        loop
            invariant
                self.wf(),
                self.tokens@ == t,
                t == old(self).tokens@,
                self.curr >= p0,
                p0 == old(self).curr,
                parse_program(t, p0, Seq::empty()) == parse_program(
                    t,
                    self.curr as int,
                    stmts_v(statements@),
                ),
            decreases t.len() - self.curr,
        {
            if self.is_at_end() {
                return Ok(statements);
            }
            let ghost at = self.curr as int;
            match self.declaration() {
                Ok(val) => {
                    proof {
                        crate::ast::lemma_stmts_v_push(statements@, val);
                    }
                    statements.push(val);
                },
                Err(err) => {
                    self.synchronize();
                    return Err(err);
                },
            }
        }
    }

    pub(crate) fn is_at_end(&self) -> (b: bool)
        requires
            parser_wf(self.tokens@, self.curr as int),
        ensures
            b == at_end(self.tokens@, (self.curr as int)),
    {
        self.tokens[self.curr].token_type == TokenType::EOF
    }

    pub(crate) fn check(&self, ty: TokenType) -> (b: bool)
        requires
            parser_wf(self.tokens@, self.curr as int),
        ensures
            b == check(self.tokens@, (self.curr as int), ty),
    {
        if self.is_at_end() {
            return false;
        }
        self.tokens[self.curr].token_type == ty
    }

    pub(crate) fn advance(&mut self)
        requires
            parser_wf(old(self).tokens@, old(self).curr as int),
        ensures
            parser_wf(final(self).tokens@, final(self).curr as int),
            final(self).tokens@ == old(self).tokens@,
            (final(self).curr as int) == advance(old(self).tokens@, (old(self).curr as int)),
    {
        if !self.is_at_end() {
            let n = self.tokens.len();
            assert(self.curr + 1 < n);
            self.curr += 1;
        }
    }

    pub(crate) fn validate(&mut self, ty: TokenType) -> (b: bool)
        requires
            parser_wf(old(self).tokens@, old(self).curr as int),
        ensures
            parser_wf(final(self).tokens@, final(self).curr as int),
            final(self).tokens@ == old(self).tokens@,
            b == check(old(self).tokens@, (old(self).curr as int), ty),
            (final(self).curr as int) == skip(old(self).tokens@, (old(self).curr as int), ty),
    {
        if self.check(ty) {
            self.advance();
            return true;
        }
        false
    }

    pub(crate) fn peek(&self) -> (r: &Token)
        requires
            parser_wf(self.tokens@, self.curr as int),
        ensures
            *r == self.tokens@[(self.curr as int)],
    {
        &self.tokens[self.curr]
    }

    pub(crate) fn previous(&self) -> (r: &Token)
        requires
            parser_wf(self.tokens@, self.curr as int),
            (self.curr as int) >= 1,
        ensures
            *r == self.tokens@[(self.curr as int) - 1],
    {
        &self.tokens[self.curr - 1]
    }

    pub(crate) fn error(token: &Token, msg: String) -> (e: LoxError)
        ensures
            e@ == LoxErrorV::ParserError(token.lexeme@, token.line_no, msg@),
    {
        LoxError::ParserError(token.lexeme.clone(), token.line_no, msg)
    }

    pub(crate) fn consume(&mut self, ty: TokenType, msg: String) -> (r: Result<Token, LoxError>)
        requires
            parser_wf(old(self).tokens@, old(self).curr as int),
        ensures
            parser_wf(final(self).tokens@, final(self).curr as int),
            final(self).tokens@ == old(self).tokens@,
            (rv_token(r), (final(self).curr as int)) == consume(old(self).tokens@, (old(self).curr as int), ty, msg@),
            r matches Ok(tok) ==> tok == old(self).tokens@[(old(self).curr as int)],
    {
        if self.check(ty) {
            let tok = self.peek().clone();
            self.advance();
            Ok(tok)
        } else {
            Err(Self::error(self.peek(), msg))
        }
    }

    pub(crate) fn synchronize(&mut self)
        requires
            parser_wf(old(self).tokens@, old(self).curr as int),
        ensures
            parser_wf(final(self).tokens@, final(self).curr as int),
            final(self).tokens@ == old(self).tokens@,
            (final(self).curr as int) == synchronize(old(self).tokens@, (old(self).curr as int)),
    {
        self.advance();
        loop
            invariant
                parser_wf(self.tokens@, self.curr as int),
                self.tokens@ == old(self).tokens@,
                synchronize(old(self).tokens@, (old(self).curr as int)) == synchronize_loop(
                    self.tokens@,
                    (self.curr as int),
                ),
                (self.curr as int) >= 1 || at_end(self.tokens@, (self.curr as int)),
            decreases self.tokens@.len() - self.curr,
        {
            if self.is_at_end() {
                return;
            }
            if self.previous().token_type == TokenType::SEMICOLON {
                return;
            }
            match self.peek().token_type {
                TokenType::CLASS | TokenType::FUN | TokenType::VAR | TokenType::FOR | TokenType::IF
                | TokenType::WHILE | TokenType::PRINT | TokenType::RETURN => return,
                _ => {},
            }
            self.advance();
        }
    }
}

} // verus!
