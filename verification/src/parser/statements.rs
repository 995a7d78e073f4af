use vstd::prelude::*;

use crate::ast::{
    Assign, Binary, Block, Break, Call, Class, Continue, Expr, ExprV, Expression, Function, FunctionV,
    Get, Grouping, If, Lambda, Logical, Print, Return, SetProperty, Stmt, StmtV, Super, This, Unary,
    Var, Variable, While, exprs_v, opt_expr_view, opt_stmt_view, opt_variable_name, function_v, functions_v, stmts_v, tokens_v,
};
use crate::error::{LoxError, LoxErrorV};
use crate::parser::grammar::{desugar_for, parse_class_members, rem, check, consume, parse_params, parse_param_list, parse_declaration, parse_class, parse_methods, parse_function, parse_var, parse_statement, parse_return, parse_block, parse_block_items, parse_print, parse_while, parse_for, parse_if, parse_expression_statement};
use crate::parser::{Parser, message, kind_message, parser_wf, rv_expr, rv_exprs, rv_function, rv_stmt, rv_stmts, rv_token, rv_tokens};
use crate::token::{Literal, LiteralV, Token, TokenType, TokenV};

verus! {

impl Parser {
    pub(crate) fn declaration(&mut self) -> (r: Result<Stmt, LoxError>)
        requires
            parser_wf(old(self).tokens@, old(self).curr as int),
        ensures
            parser_wf(final(self).tokens@, final(self).curr as int),
            final(self).tokens@ == old(self).tokens@,
            (final(self).curr as int) >= (old(self).curr as int),
            r is Ok ==> (final(self).curr as int) > (old(self).curr as int),
            (rv_stmt(r), (final(self).curr as int)) == parse_declaration(old(self).tokens@, (old(self).curr as int)),
        decreases rem(old(self).tokens@, (old(self).curr as int)), 21int,
    {
        if self.validate(TokenType::CLASS) {
            return self.class_declaration();
        }
        if self.validate(TokenType::FUN) {
            let f = self.function("function")?;
            return Ok(Stmt::Function(Box::new(f)));
        }
        if self.validate(TokenType::VAR) {
            return self.val_declaration();
        }
        self.statement()
    }

    pub(crate) fn class_declaration(&mut self) -> (r: Result<Stmt, LoxError>)
        requires
            parser_wf(old(self).tokens@, old(self).curr as int),
        ensures
            parser_wf(final(self).tokens@, final(self).curr as int),
            final(self).tokens@ == old(self).tokens@,
            (final(self).curr as int) >= (old(self).curr as int),
            r is Ok ==> (final(self).curr as int) > (old(self).curr as int),
            (rv_stmt(r), (final(self).curr as int)) == parse_class(old(self).tokens@, (old(self).curr as int)),
        decreases rem(old(self).tokens@, (old(self).curr as int)), 0int,
    {
        let ghost t = self.tokens@;
        let name = self.consume(TokenType::IDENTIFIER, message("Expect Class name"))?;
        let mut super_class: Option<Variable> = None;
        if self.validate(TokenType::LESS) {
            let sup = self.consume(TokenType::IDENTIFIER, message("Expect SuperClass name"))?;
            super_class = Some(Variable::new(sup));
        }
        self.consume(TokenType::LeftBrace, message("Expect { before class body"))?;
        let ghost p3 = self.curr as int;
        let ghost pc = old(self).curr as int;
        let ghost name_v = name@;
        let ghost sup_v = opt_variable_name(super_class);
        assert(parse_class(t, pc) == parse_class_members(t, p3, name_v, sup_v));
        let mut methods: Vec<Function> = Vec::new();
        proof {
            crate::ast::lemma_views_empty();
        }
        loop
            invariant
                parser_wf(self.tokens@, self.curr as int),
                self.tokens@ == t,
                t == old(self).tokens@,
                self.curr >= p3,
                p3 > (old(self).curr as int),
                pc == old(self).curr as int,
                parse_class(t, pc) == parse_class_members(t, p3, name_v, sup_v),
                name_v == name@,
                sup_v == opt_variable_name(super_class),
                parse_methods(t, p3, Seq::empty()) == parse_methods(
                    t,
                    self.curr as int,
                    functions_v(methods@),
                ),
            ensures
                parser_wf(self.tokens@, self.curr as int),
                self.tokens@ == t,
                self.curr >= p3,
                parse_class(t, pc) == parse_class_members(t, p3, name_v, sup_v),
                name_v == name@,
                sup_v == opt_variable_name(super_class),
                parse_methods(t, p3, Seq::empty()) == (
                    Ok::<Seq<FunctionV>, LoxErrorV>(functions_v(methods@)),
                    self.curr as int,
                ),
            decreases t.len() - self.curr,
        {
            if self.check(TokenType::RightBrace) || self.is_at_end() {
                break ;
            }
            let ghost cur = self.curr as int;
            match self.function("method") {
                Ok(m) => {
                    proof {
                        crate::ast::lemma_functions_v_push(methods@, m);
                    }
                    methods.push(m);
                },
                Err(e) => {
                    assert(parse_methods(t, cur, functions_v(methods@)) == (
                        Err::<Seq<FunctionV>, LoxErrorV>(e@),
                        self.curr as int,
                    ));
                    assert(parse_class_members(t, p3, name_v, sup_v) == (
                        Err::<StmtV, LoxErrorV>(e@),
                        self.curr as int,
                    ));
                    return Err(e);
                },
            }
        }
        self.consume(TokenType::RightBrace, message("Expect '}' after class body"))?;
        Ok(Stmt::Class(Box::new(Class::new(name, methods, super_class))))
    }

    pub(crate) fn function(&mut self, kind: &str) -> (r: Result<Function, LoxError>)
        requires
            parser_wf(old(self).tokens@, old(self).curr as int),
        ensures
            parser_wf(final(self).tokens@, final(self).curr as int),
            final(self).tokens@ == old(self).tokens@,
            (final(self).curr as int) >= (old(self).curr as int),
            r is Ok ==> (final(self).curr as int) > (old(self).curr as int),
            (rv_function(r), (final(self).curr as int)) == parse_function(old(self).tokens@, (old(self).curr as int), kind@),
        decreases rem(old(self).tokens@, (old(self).curr as int)), 0int,
    {
        let name = self.consume(TokenType::IDENTIFIER, kind_message("Expect ", kind, " name"))?;
        self.consume(TokenType::LeftParen, kind_message("Expect after ", kind, " name"))?;
        let params = self.param_list()?;
        self.consume(TokenType::LeftBrace, message("Expect '{' before body"))?;
        let body = self.block()?;
        Ok(Function::new(name, params, body))
    }

    pub(crate) fn param_list(&mut self) -> (r: Result<Vec<Token>, LoxError>)
        requires
            parser_wf(old(self).tokens@, old(self).curr as int),
        ensures
            parser_wf(final(self).tokens@, final(self).curr as int),
            final(self).tokens@ == old(self).tokens@,
            (final(self).curr as int) >= (old(self).curr as int),
            (rv_tokens(r), (final(self).curr as int)) == parse_param_list(old(self).tokens@, (old(self).curr as int)),
    {
        let ghost t = self.tokens@;
        let ghost p0 = self.curr as int;
        let mut params: Vec<Token> = Vec::new();
        proof {
            crate::ast::lemma_views_empty();
        }
        if !self.check(TokenType::RightParen) {
            loop
                invariant_except_break
                    parse_params(t, p0, Seq::empty()) == parse_params(
                        t,
                        self.curr as int,
                        tokens_v(params@),
                    ),
                invariant
                    parser_wf(self.tokens@, self.curr as int),
                    self.tokens@ == t,
                    t == old(self).tokens@,
                    self.curr >= p0,
                    p0 == old(self).curr,
                    !check(t, p0, TokenType::RightParen),
                ensures
                    parser_wf(self.tokens@, self.curr as int),
                    self.tokens@ == t,
                    t == old(self).tokens@,
                    self.curr >= p0,
                    p0 == old(self).curr,
                    parse_params(t, p0, Seq::empty()) == (
                        Ok::<Seq<TokenV>, LoxErrorV>(tokens_v(params@)),
                        self.curr as int,
                    ),
                decreases t.len() - self.curr,
            {
                proof {
                    crate::ast::lemma_tokens_v_len(params@);
                }
                if params.len() > 255 {
                    return Err(Self::error(self.peek(), message("m ax no. of args 255")));
                }
                let tok = self.consume(TokenType::IDENTIFIER, message("Expect Param Name"))?;
                proof {
                    crate::ast::lemma_tokens_v_push(params@, tok);
                }
                params.push(tok);
                if !self.validate(TokenType::COMMA) {
                    break ;
                }
            }
        }
        self.consume(TokenType::RightParen, message("Expect ')' after params"))?;
        Ok(params)
    }

    pub(crate) fn val_declaration(&mut self) -> (r: Result<Stmt, LoxError>)
        requires
            parser_wf(old(self).tokens@, old(self).curr as int),
        ensures
            parser_wf(final(self).tokens@, final(self).curr as int),
            final(self).tokens@ == old(self).tokens@,
            (final(self).curr as int) >= (old(self).curr as int),
            r is Ok ==> (final(self).curr as int) > (old(self).curr as int),
            (rv_stmt(r), (final(self).curr as int)) == parse_var(old(self).tokens@, (old(self).curr as int)),
        decreases rem(old(self).tokens@, (old(self).curr as int)), 0int,
    {
        let name = self.consume(TokenType::IDENTIFIER, message("Expect Variable Name."))?;
        let mut initializer: Option<Expr> = None;
        if self.validate(TokenType::EQUAL) {
            initializer = Some(self.expression()?);
        }
        self.consume(TokenType::SEMICOLON, message("Expect ';' after value."))?;
        Ok(Stmt::Var(Box::new(Var::new(name, initializer))))
    }

    pub(crate) fn statement(&mut self) -> (r: Result<Stmt, LoxError>)
        requires
            parser_wf(old(self).tokens@, old(self).curr as int),
        ensures
            parser_wf(final(self).tokens@, final(self).curr as int),
            final(self).tokens@ == old(self).tokens@,
            (final(self).curr as int) >= (old(self).curr as int),
            r is Ok ==> (final(self).curr as int) > (old(self).curr as int),
            (rv_stmt(r), (final(self).curr as int)) == parse_statement(old(self).tokens@, (old(self).curr as int)),
        decreases rem(old(self).tokens@, (old(self).curr as int)), 20int,
    {
        if self.validate(TokenType::PRINT) {
            return self.print_statement();
        }
        if self.validate(TokenType::LeftBrace) {
            let b = self.block()?;
            return Ok(Stmt::Block(Box::new(Block::new(b))));
        }
        if self.validate(TokenType::IF) {
            return self.if_statement();
        }
        if self.validate(TokenType::WHILE) {
            return self.while_statement();
        }
        if self.validate(TokenType::FOR) {
            return self.for_statement();
        }
        if self.validate(TokenType::BREAK) {
            let semi = self.consume(TokenType::SEMICOLON, message("Expect ';' after break."))?;
            return Ok(Stmt::Break(Box::new(Break::new(semi))));
        }
        if self.validate(TokenType::CONTINUE) {
            let semi = self.consume(TokenType::SEMICOLON, message("Expect ';' after continue."))?;
            return Ok(Stmt::Continue(Box::new(Continue::new(semi))));
        }
        if self.validate(TokenType::RETURN) {
            return self.return_statement();
        }
        self.expressions_statement()
    }

    pub(crate) fn return_statement(&mut self) -> (r: Result<Stmt, LoxError>)
        requires
            parser_wf(old(self).tokens@, old(self).curr as int),
            (old(self).curr as int) >= 1,
        ensures
            parser_wf(final(self).tokens@, final(self).curr as int),
            final(self).tokens@ == old(self).tokens@,
            (final(self).curr as int) >= (old(self).curr as int),
            r is Ok ==> (final(self).curr as int) > (old(self).curr as int),
            (rv_stmt(r), (final(self).curr as int)) == parse_return(old(self).tokens@, (old(self).curr as int)),
        decreases rem(old(self).tokens@, (old(self).curr as int)), 19int,
    {
        let keyword = self.previous().clone();
        let mut value: Option<Expr> = None;
        if !self.check(TokenType::SEMICOLON) {
            value = Some(self.expression()?);
        }
        self.consume(TokenType::SEMICOLON, message("Expect ';' after return."))?;
        Ok(Stmt::Return(Box::new(Return::new(keyword, value))))
    }

    pub(crate) fn block(&mut self) -> (r: Result<Vec<Stmt>, LoxError>)
        requires
            parser_wf(old(self).tokens@, old(self).curr as int),
        ensures
            parser_wf(final(self).tokens@, final(self).curr as int),
            final(self).tokens@ == old(self).tokens@,
            (final(self).curr as int) >= (old(self).curr as int),
            r is Ok ==> (final(self).curr as int) > (old(self).curr as int),
            (rv_stmts(r), (final(self).curr as int)) == parse_block(old(self).tokens@, (old(self).curr as int)),
        decreases rem(old(self).tokens@, (old(self).curr as int)), 23int,
    {
        let ghost t = self.tokens@;
        let ghost p0 = self.curr as int;
        let mut list: Vec<Stmt> = Vec::new();
        proof {
            crate::ast::lemma_views_empty();
        }
        loop
            invariant
                parser_wf(self.tokens@, self.curr as int),
                self.tokens@ == t,
                t == old(self).tokens@,
                self.curr >= p0,
                p0 == old(self).curr,
                parse_block_items(t, p0, Seq::empty()) == parse_block_items(
                    t,
                    self.curr as int,
                    stmts_v(list@),
                ),
            ensures
                parser_wf(self.tokens@, self.curr as int),
                self.tokens@ == t,
                self.curr >= p0,
                parse_block_items(t, p0, Seq::empty()) == (
                    Ok::<Seq<StmtV>, LoxErrorV>(stmts_v(list@)),
                    self.curr as int,
                ),
            decreases t.len() - self.curr,
        {
            if self.check(TokenType::RightBrace) || self.is_at_end() {
                break ;
            }
            let d = self.declaration()?;
            proof {
                crate::ast::lemma_stmts_v_push(list@, d);
            }
            list.push(d);
        }
        self.consume(TokenType::RightBrace, message("Expect '}' after block"))?;
        Ok(list)
    }

    pub(crate) fn print_statement(&mut self) -> (r: Result<Stmt, LoxError>)
        requires
            parser_wf(old(self).tokens@, old(self).curr as int),
            (old(self).curr as int) >= 1,
        ensures
            parser_wf(final(self).tokens@, final(self).curr as int),
            final(self).tokens@ == old(self).tokens@,
            (final(self).curr as int) >= (old(self).curr as int),
            r is Ok ==> (final(self).curr as int) > (old(self).curr as int),
            (rv_stmt(r), (final(self).curr as int)) == parse_print(old(self).tokens@, (old(self).curr as int)),
        decreases rem(old(self).tokens@, (old(self).curr as int)), 19int,
    {
        let token = self.previous().clone();
        let val = self.expression()?;
        self.consume(TokenType::SEMICOLON, message("Expect ';' after value."))?;
        Ok(Stmt::Print(Box::new(Print::new(val, token))))
    }

    pub(crate) fn while_statement(&mut self) -> (r: Result<Stmt, LoxError>)
        requires
            parser_wf(old(self).tokens@, old(self).curr as int),
            (old(self).curr as int) >= 1,
        ensures
            parser_wf(final(self).tokens@, final(self).curr as int),
            final(self).tokens@ == old(self).tokens@,
            (final(self).curr as int) >= (old(self).curr as int),
            r is Ok ==> (final(self).curr as int) > (old(self).curr as int),
            (rv_stmt(r), (final(self).curr as int)) == parse_while(old(self).tokens@, (old(self).curr as int)),
        decreases rem(old(self).tokens@, (old(self).curr as int)), 0int,
    {
        let token = self.previous().clone();
        self.consume(TokenType::LeftParen, message("Expect '(' after 'if'."))?;
        let condition = self.expression()?;
        self.consume(TokenType::RightParen, message("Expect ')' after if condition."))?;
        let body = self.statement()?;
        Ok(Stmt::While(Box::new(While::new(condition, body, token))))
    }

    pub(crate) fn for_statement(&mut self) -> (r: Result<Stmt, LoxError>)
        requires
            parser_wf(old(self).tokens@, old(self).curr as int),
            (old(self).curr as int) >= 1,
        ensures
            parser_wf(final(self).tokens@, final(self).curr as int),
            final(self).tokens@ == old(self).tokens@,
            (final(self).curr as int) >= (old(self).curr as int),
            r is Ok ==> (final(self).curr as int) > (old(self).curr as int),
            (rv_stmt(r), (final(self).curr as int)) == parse_for(old(self).tokens@, (old(self).curr as int)),
        decreases rem(old(self).tokens@, (old(self).curr as int)), 0int,
    {
        let token = self.previous().clone();
        self.consume(TokenType::LeftParen, message("Expect '(' after 'for'."))?;
        let init: Option<Stmt>;
        if self.validate(TokenType::SEMICOLON) {
            init = None;
        } else if self.validate(TokenType::VAR) {
            init = Some(self.val_declaration()?);
        } else {
            init = Some(self.expressions_statement()?);
        }
        let mut condition: Option<Expr> = None;
        if !self.check(TokenType::SEMICOLON) {
            condition = Some(self.expression()?);
        }
        self.consume(TokenType::SEMICOLON, message("Expect ';' after loop condition."))?;
        let mut increment: Option<Expr> = None;
        if !self.check(TokenType::RightParen) {
            increment = Some(self.expression()?);
        }
        self.consume(TokenType::RightParen, message("Expect ')' after for clause."))?;
        let body = self.statement()?;
        Ok(for_loop(token, init, condition, increment, body))
    }

    pub(crate) fn if_statement(&mut self) -> (r: Result<Stmt, LoxError>)
        requires
            parser_wf(old(self).tokens@, old(self).curr as int),
            (old(self).curr as int) >= 1,
        ensures
            parser_wf(final(self).tokens@, final(self).curr as int),
            final(self).tokens@ == old(self).tokens@,
            (final(self).curr as int) >= (old(self).curr as int),
            r is Ok ==> (final(self).curr as int) > (old(self).curr as int),
            (rv_stmt(r), (final(self).curr as int)) == parse_if(old(self).tokens@, (old(self).curr as int)),
        decreases rem(old(self).tokens@, (old(self).curr as int)), 0int,
    {
        let token = self.previous().clone();
        self.consume(TokenType::LeftParen, message("Expect '(' after 'if'."))?;
        let condition = self.expression()?;
        self.consume(TokenType::RightParen, message("Expect ')' after if condition."))?;
        let then_branch = self.statement()?;
        let mut else_branch: Option<Stmt> = None;
        if self.validate(TokenType::ELSE) {
            else_branch = Some(self.statement()?);
        }
        Ok(Stmt::If(Box::new(If::new(condition, then_branch, else_branch, token))))
    }

    pub(crate) fn expressions_statement(&mut self) -> (r: Result<Stmt, LoxError>)
        requires
            parser_wf(old(self).tokens@, old(self).curr as int),
        ensures
            parser_wf(final(self).tokens@, final(self).curr as int),
            final(self).tokens@ == old(self).tokens@,
            (final(self).curr as int) >= (old(self).curr as int),
            r is Ok ==> (final(self).curr as int) > (old(self).curr as int),
            (rv_stmt(r), (final(self).curr as int)) == parse_expression_statement(old(self).tokens@, (old(self).curr as int)),
        decreases rem(old(self).tokens@, (old(self).curr as int)), 19int,
    {
        let val = self.expression()?;
        self.consume(TokenType::SEMICOLON, message("Expect ';' after value."))?;
        Ok(Stmt::Expression(Box::new(Expression::new(val))))
    }

}

/// The statement that a `for` loop stands for (see `desugar_for`).
fn for_loop(
    token: Token,
    init: Option<Stmt>,
    condition: Option<Expr>,
    increment: Option<Expr>,
    body: Stmt,
) -> (r: Stmt)
    ensures
        r@ == desugar_for(
            token@,
            opt_stmt_view(init),
            opt_expr_view(condition),
            opt_expr_view(increment),
            body@,
        ),
{
    let ghost incr_v = opt_expr_view(increment);
    let ghost body1 = match incr_v {
        Some(i) => StmtV::Block(seq![body@, StmtV::Expression(i)]),
        None => body@,
    };
    let body = match increment {
        Some(incr) => {
            let step = Stmt::Expression(Box::new(Expression::new(incr)));
            Stmt::Block(Box::new(Block::new(pair(body, step))))
        },
        None => body,
    };
    assert(body@ == body1);
    let ghost cond_v = match opt_expr_view(condition) {
        Some(c) => c,
        None => ExprV::Literal(LiteralV::BOOL(true)),
    };
    let cond = match condition {
        Some(c) => c,
        None => Expr::Literal(Literal::BOOL(true)),
    };
    assert(cond@ == cond_v);
    let lp = Stmt::While(Box::new(While::new(cond, body, token)));
    assert(lp@ == StmtV::While(token@, cond_v, Box::new(body1)));
    match init {
        Some(i) => Stmt::Block(Box::new(Block::new(pair(i, lp)))),
        None => lp,
    }
}

fn pair(a: Stmt, b: Stmt) -> (v: Vec<Stmt>)
    ensures
        stmts_v(v@) == seq![a@, b@],
{
    let mut v: Vec<Stmt> = Vec::new();
    proof {
        crate::ast::lemma_views_empty();
        crate::ast::lemma_stmts_v_push(v@, a);
    }
    v.push(a);
    proof {
        crate::ast::lemma_stmts_v_push(v@, b);
    }
    v.push(b);
    assert(stmts_v(v@) =~= seq![a@, b@]);
    v
}

} // verus!
