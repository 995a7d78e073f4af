use vstd::prelude::*;

use crate::ast::{
    Assign, Binary, Block, Break, Call, Class, Continue, Expr, ExprV, Expression, Function, FunctionV,
    Get, Grouping, If, Lambda, Logical, Print, Return, SetProperty, Stmt, StmtV, Super, This, Unary,
    Var, Variable, While, exprs_v, function_v, functions_v, stmts_v, tokens_v,
};
use crate::error::{LoxError, LoxErrorV};
use crate::parser::grammar::{rem, check, consume, parse_expression, parse_lambda, parse_assignment, parse_or, parse_or_rest, parse_and, parse_and_rest, parse_equality, parse_equality_rest, parse_comparison, parse_comparison_rest, parse_addition, parse_addition_rest, parse_multiplication, parse_multiplication_rest, parse_unary, parse_call, parse_call_rest, parse_finish_call, parse_arguments, parse_primary};
use crate::parser::{Parser, message, kind_message, parser_wf, rv_expr, rv_exprs, rv_function, rv_stmt, rv_stmts, rv_token, rv_tokens};
use crate::token::{Literal, LiteralV, Token, TokenType, TokenV};

verus! {

/// `target = value`: an assignment to a variable or a property; nothing for
/// any other target.
pub(crate) fn assign_to(target: Expr, value: Expr) -> (r: Option<Expr>)
    ensures
        crate::ast::opt_expr_view(r) == crate::parser::grammar::assignment_target(target@, value@),
{
    match target {
        Expr::Variable(v) => Some(Expr::Assign(Box::new(Assign::new(v.name, value)))),
        Expr::Get(g) => Some(Expr::SetProperty(Box::new(SetProperty::new(g.object, g.name, value)))),
        _ => None,
    }
}

/// The end of an assignment: the assignment itself, or the error at its `=`
/// where the target is neither a variable nor a property.
fn finish_assignment(target: Expr, equals: &Token, value: Expr) -> (r: Result<Expr, LoxError>)
    ensures
        rv_expr(r) == (match crate::parser::grammar::assignment_target(target@, value@) {
            Some(e) => Ok::<ExprV, LoxErrorV>(e),
            None => Err(LoxErrorV::RuntimeError(equals.lexeme@, equals.line_no, "Invalid assignment target."@)),
        }),
{
    match assign_to(target, value) {
        Some(e) => Ok(e),
        None => Err(LoxError::RuntimeError(equals.lexeme.clone(), equals.line_no, message("Invalid assignment target."))),
    }
}

impl Parser {
    pub(crate) fn expression(&mut self) -> (r: Result<Expr, LoxError>)
        requires
            parser_wf(old(self).tokens@, old(self).curr as int),
        ensures
            parser_wf(final(self).tokens@, final(self).curr as int),
            final(self).tokens@ == old(self).tokens@,
            (final(self).curr as int) >= (old(self).curr as int),
            r is Ok ==> (final(self).curr as int) > (old(self).curr as int),
            (rv_expr(r), (final(self).curr as int)) == parse_expression(old(self).tokens@, (old(self).curr as int)),
        decreases rem(old(self).tokens@, (old(self).curr as int)), 18int,
    {
        if self.validate(TokenType::FUN) {
            return self.lambda_expr();
        }
        self.assignment()
    }

    pub(crate) fn lambda_expr(&mut self) -> (r: Result<Expr, LoxError>)
        requires
            parser_wf(old(self).tokens@, old(self).curr as int),
        ensures
            parser_wf(final(self).tokens@, final(self).curr as int),
            final(self).tokens@ == old(self).tokens@,
            (final(self).curr as int) >= (old(self).curr as int),
            r is Ok ==> (final(self).curr as int) > (old(self).curr as int),
            (rv_expr(r), (final(self).curr as int)) == parse_lambda(old(self).tokens@, (old(self).curr as int)),
        decreases rem(old(self).tokens@, (old(self).curr as int)), 0int,
    {
        let paren = self.consume(TokenType::LeftParen, message("Expect after lambda name"))?;
        let params = self.param_list()?;
        self.consume(TokenType::LeftBrace, message("Expect '{' before body"))?;
        let body = self.block()?;
        Ok(Expr::Lambda(Box::new(Lambda::new(paren, params, body))))
    }

    #[verifier::rlimit(40)]
    pub(crate) fn assignment(&mut self) -> (r: Result<Expr, LoxError>)
        requires
            parser_wf(old(self).tokens@, old(self).curr as int),
        ensures
            parser_wf(final(self).tokens@, final(self).curr as int),
            final(self).tokens@ == old(self).tokens@,
            (final(self).curr as int) >= (old(self).curr as int),
            r is Ok ==> (final(self).curr as int) > (old(self).curr as int),
            (rv_expr(r), (final(self).curr as int)) == parse_assignment(old(self).tokens@, (old(self).curr as int)),
        decreases rem(old(self).tokens@, (old(self).curr as int)), 17int,
    {
        let ghost t = self.tokens@;
        let ghost p = self.curr as int;
        let expr = self.or()?;
        if self.check(TokenType::EQUAL) {
            assert(crate::parser::grammar::moved(t, p, self.curr as int));
            return self.assign_value(expr);
        }
        Ok(expr)
    }

    /// After the target of an assignment, at its `=`: the value, then the
    /// assignment or the error at the `=`.
    #[verifier::rlimit(40)]
    pub(crate) fn assign_value(&mut self, target: Expr) -> (r: Result<Expr, LoxError>)
        requires
            parser_wf(old(self).tokens@, old(self).curr as int),
            check(old(self).tokens@, old(self).curr as int, TokenType::EQUAL),
        ensures
            parser_wf(final(self).tokens@, final(self).curr as int),
            final(self).tokens@ == old(self).tokens@,
            (final(self).curr as int) > (old(self).curr as int),
            (rv_expr(r), (final(self).curr as int)) == (match parse_assignment(old(self).tokens@, old(self).curr + 1) {
                (Err(e), q2) => (Err(e), q2),
                (Ok(v), q2) => crate::parser::grammar::assignment_outcome(old(self).tokens@, old(self).curr as int, target@, v, q2),
            }),
        decreases rem(old(self).tokens@, (old(self).curr as int)), 17int,
    {
        let ghost t = self.tokens@;
        let ghost q = self.curr as int;
        let equals = self.peek().clone();
        self.advance();
        let ghost ev = target@;
        let value = self.assignment()?;
        let ghost vv = value@;
        let r = finish_assignment(target, &equals, value);
        proof {
            reveal(crate::parser::grammar::assignment_outcome);
        }
        r
    }

    #[verifier::rlimit(40)]
    pub(crate) fn or(&mut self) -> (r: Result<Expr, LoxError>)
        requires
            parser_wf(old(self).tokens@, old(self).curr as int),
        ensures
            parser_wf(final(self).tokens@, final(self).curr as int),
            final(self).tokens@ == old(self).tokens@,
            (final(self).curr as int) >= (old(self).curr as int),
            r is Ok ==> (final(self).curr as int) > (old(self).curr as int),
            (rv_expr(r), (final(self).curr as int)) == parse_or(old(self).tokens@, (old(self).curr as int)),
        decreases rem(old(self).tokens@, (old(self).curr as int)), 16int,
    {
        let ghost t = self.tokens@;
        let ghost p0 = self.curr as int;
        let mut expr = self.and()?;
        loop
            invariant
                parser_wf(self.tokens@, self.curr as int),
                self.tokens@ == t,
                t == old(self).tokens@,
                self.curr > p0,
                p0 == old(self).curr,
                parse_or(t, p0) == parse_or_rest(t, expr@, self.curr as int),
            decreases t.len() - self.curr,
        {
            let a0 = self.validate(TokenType::OR);
            if !(a0) {
                return Ok(expr);
            }
            let operator = self.previous().clone();
            let right = self.and()?;
            expr = Expr::Logical(Box::new(Logical::new(expr, operator, right)));
        }
    }

    #[verifier::rlimit(40)]
    pub(crate) fn and(&mut self) -> (r: Result<Expr, LoxError>)
        requires
            parser_wf(old(self).tokens@, old(self).curr as int),
        ensures
            parser_wf(final(self).tokens@, final(self).curr as int),
            final(self).tokens@ == old(self).tokens@,
            (final(self).curr as int) >= (old(self).curr as int),
            r is Ok ==> (final(self).curr as int) > (old(self).curr as int),
            (rv_expr(r), (final(self).curr as int)) == parse_and(old(self).tokens@, (old(self).curr as int)),
        decreases rem(old(self).tokens@, (old(self).curr as int)), 14int,
    {
        let ghost t = self.tokens@;
        let ghost p0 = self.curr as int;
        let mut expr = self.equality()?;
        loop
            invariant
                parser_wf(self.tokens@, self.curr as int),
                self.tokens@ == t,
                t == old(self).tokens@,
                self.curr > p0,
                p0 == old(self).curr,
                parse_and(t, p0) == parse_and_rest(t, expr@, self.curr as int),
            decreases t.len() - self.curr,
        {
            let a0 = self.validate(TokenType::AND);
            if !(a0) {
                return Ok(expr);
            }
            let operator = self.previous().clone();
            let right = self.equality()?;
            expr = Expr::Logical(Box::new(Logical::new(expr, operator, right)));
        }
    }

    #[verifier::rlimit(40)]
    pub(crate) fn equality(&mut self) -> (r: Result<Expr, LoxError>)
        requires
            parser_wf(old(self).tokens@, old(self).curr as int),
        ensures
            parser_wf(final(self).tokens@, final(self).curr as int),
            final(self).tokens@ == old(self).tokens@,
            (final(self).curr as int) >= (old(self).curr as int),
            r is Ok ==> (final(self).curr as int) > (old(self).curr as int),
            (rv_expr(r), (final(self).curr as int)) == parse_equality(old(self).tokens@, (old(self).curr as int)),
        decreases rem(old(self).tokens@, (old(self).curr as int)), 12int,
    {
        let ghost t = self.tokens@;
        let ghost p0 = self.curr as int;
        let mut expr = self.comparison()?;
        loop
            invariant
                parser_wf(self.tokens@, self.curr as int),
                self.tokens@ == t,
                t == old(self).tokens@,
                self.curr > p0,
                p0 == old(self).curr,
                parse_equality(t, p0) == parse_equality_rest(t, expr@, self.curr as int),
            decreases t.len() - self.curr,
        {
            let a0 = self.validate(TokenType::BangEqual);
            let a1 = self.validate(TokenType::EqualEqual);
            if !(a0 || a1) {
                return Ok(expr);
            }
            let operator = self.previous().clone();
            let right = self.comparison()?;
            expr = Expr::Binary(Box::new(Binary::new(expr, operator, right)));
        }
    }

    #[verifier::rlimit(40)]
    pub(crate) fn comparison(&mut self) -> (r: Result<Expr, LoxError>)
        requires
            parser_wf(old(self).tokens@, old(self).curr as int),
        ensures
            parser_wf(final(self).tokens@, final(self).curr as int),
            final(self).tokens@ == old(self).tokens@,
            (final(self).curr as int) >= (old(self).curr as int),
            r is Ok ==> (final(self).curr as int) > (old(self).curr as int),
            (rv_expr(r), (final(self).curr as int)) == parse_comparison(old(self).tokens@, (old(self).curr as int)),
        decreases rem(old(self).tokens@, (old(self).curr as int)), 10int,
    {
        let ghost t = self.tokens@;
        let ghost p0 = self.curr as int;
        let mut expr = self.addition()?;
        loop
            invariant
                parser_wf(self.tokens@, self.curr as int),
                self.tokens@ == t,
                t == old(self).tokens@,
                self.curr > p0,
                p0 == old(self).curr,
                parse_comparison(t, p0) == parse_comparison_rest(t, expr@, self.curr as int),
            decreases t.len() - self.curr,
        {
            let a0 = self.validate(TokenType::GREATER);
            let a1 = self.validate(TokenType::GreaterEqual);
            let a2 = self.validate(TokenType::LESS);
            let a3 = self.validate(TokenType::LessEqual);
            if !(a0 || a1 || a2 || a3) {
                return Ok(expr);
            }
            let operator = self.previous().clone();
            let right = self.addition()?;
            expr = Expr::Binary(Box::new(Binary::new(expr, operator, right)));
        }
    }

    #[verifier::rlimit(40)]
    pub(crate) fn addition(&mut self) -> (r: Result<Expr, LoxError>)
        requires
            parser_wf(old(self).tokens@, old(self).curr as int),
        ensures
            parser_wf(final(self).tokens@, final(self).curr as int),
            final(self).tokens@ == old(self).tokens@,
            (final(self).curr as int) >= (old(self).curr as int),
            r is Ok ==> (final(self).curr as int) > (old(self).curr as int),
            (rv_expr(r), (final(self).curr as int)) == parse_addition(old(self).tokens@, (old(self).curr as int)),
        decreases rem(old(self).tokens@, (old(self).curr as int)), 8int,
    {
        let ghost t = self.tokens@;
        let ghost p0 = self.curr as int;
        let mut expr = self.multiplication()?;
        loop
            invariant
                parser_wf(self.tokens@, self.curr as int),
                self.tokens@ == t,
                t == old(self).tokens@,
                self.curr > p0,
                p0 == old(self).curr,
                parse_addition(t, p0) == parse_addition_rest(t, expr@, self.curr as int),
            decreases t.len() - self.curr,
        {
            let a0 = self.validate(TokenType::MINUS);
            let a1 = self.validate(TokenType::PLUS);
            if !(a0 || a1) {
                return Ok(expr);
            }
            let operator = self.previous().clone();
            let right = self.multiplication()?;
            expr = Expr::Binary(Box::new(Binary::new(expr, operator, right)));
        }
    }

    #[verifier::rlimit(40)]
    pub(crate) fn multiplication(&mut self) -> (r: Result<Expr, LoxError>)
        requires
            parser_wf(old(self).tokens@, old(self).curr as int),
        ensures
            parser_wf(final(self).tokens@, final(self).curr as int),
            final(self).tokens@ == old(self).tokens@,
            (final(self).curr as int) >= (old(self).curr as int),
            r is Ok ==> (final(self).curr as int) > (old(self).curr as int),
            (rv_expr(r), (final(self).curr as int)) == parse_multiplication(old(self).tokens@, (old(self).curr as int)),
        decreases rem(old(self).tokens@, (old(self).curr as int)), 6int,
    {
        let ghost t = self.tokens@;
        let ghost p0 = self.curr as int;
        let mut expr = self.unary()?;
        loop
            invariant
                parser_wf(self.tokens@, self.curr as int),
                self.tokens@ == t,
                t == old(self).tokens@,
                self.curr > p0,
                p0 == old(self).curr,
                parse_multiplication(t, p0) == parse_multiplication_rest(t, expr@, self.curr as int),
            decreases t.len() - self.curr,
        {
            let a0 = self.validate(TokenType::SLASH);
            let a1 = self.validate(TokenType::STAR);
            if !(a0 || a1) {
                return Ok(expr);
            }
            let operator = self.previous().clone();
            let right = self.unary()?;
            expr = Expr::Binary(Box::new(Binary::new(expr, operator, right)));
        }
    }

    pub(crate) fn unary(&mut self) -> (r: Result<Expr, LoxError>)
        requires
            parser_wf(old(self).tokens@, old(self).curr as int),
        ensures
            parser_wf(final(self).tokens@, final(self).curr as int),
            final(self).tokens@ == old(self).tokens@,
            (final(self).curr as int) >= (old(self).curr as int),
            r is Ok ==> (final(self).curr as int) > (old(self).curr as int),
            (rv_expr(r), (final(self).curr as int)) == parse_unary(old(self).tokens@, (old(self).curr as int)),
        decreases rem(old(self).tokens@, (old(self).curr as int)), 4int,
    {
        let a = self.validate(TokenType::BANG);
        let b = self.validate(TokenType::MINUS);
        if a || b {
            let operator = self.previous().clone();
            let right = self.unary()?;
            return Ok(Expr::Unary(Box::new(Unary::new(operator, right))));
        }
        self.call()
    }

    #[verifier::rlimit(40)]
    pub(crate) fn call(&mut self) -> (r: Result<Expr, LoxError>)
        requires
            parser_wf(old(self).tokens@, old(self).curr as int),
        ensures
            parser_wf(final(self).tokens@, final(self).curr as int),
            final(self).tokens@ == old(self).tokens@,
            (final(self).curr as int) >= (old(self).curr as int),
            r is Ok ==> (final(self).curr as int) > (old(self).curr as int),
            (rv_expr(r), (final(self).curr as int)) == parse_call(old(self).tokens@, (old(self).curr as int)),
        decreases rem(old(self).tokens@, (old(self).curr as int)), 3int,
    {
        let ghost t = self.tokens@;
        let ghost p0 = self.curr as int;
        let mut expr = self.primary()?;
        loop
            invariant
                parser_wf(self.tokens@, self.curr as int),
                self.tokens@ == t,
                t == old(self).tokens@,
                self.curr > p0,
                p0 == old(self).curr,
                parse_call(t, p0) == parse_call_rest(t, expr@, self.curr as int),
            decreases t.len() - self.curr,
        {
            if self.validate(TokenType::LeftParen) {
                expr = self.finish_call(expr)?;
            } else if self.validate(TokenType::DOT) {
                let name = self.consume(
                    TokenType::IDENTIFIER,
                    message("Expect property name after '.'."),
                )?;
                expr = Expr::Get(Box::new(Get::new(expr, name)));
            } else {
                return Ok(expr);
            }
        }
    }

    #[verifier::rlimit(40)]
    pub(crate) fn finish_call(&mut self, callee: Expr) -> (r: Result<Expr, LoxError>)
        requires
            parser_wf(old(self).tokens@, old(self).curr as int),
        ensures
            parser_wf(final(self).tokens@, final(self).curr as int),
            final(self).tokens@ == old(self).tokens@,
            (final(self).curr as int) >= (old(self).curr as int),
            r is Ok ==> (final(self).curr as int) > (old(self).curr as int),
            (rv_expr(r), (final(self).curr as int)) == parse_finish_call(old(self).tokens@, callee@, (old(self).curr as int)),
        decreases rem(old(self).tokens@, (old(self).curr as int)), 21int,
    {
        let ghost t = self.tokens@;
        let ghost p0 = self.curr as int;
        let mut args: Vec<Expr> = Vec::new();
        proof {
            crate::ast::lemma_views_empty();
        }
        if !self.check(TokenType::RightParen) {
            loop
                invariant_except_break
                    parse_arguments(t, p0, Seq::empty()) == parse_arguments(
                        t,
                        self.curr as int,
                        exprs_v(args@),
                    ),
                invariant
                    parser_wf(self.tokens@, self.curr as int),
                    self.tokens@ == t,
                    t == old(self).tokens@,
                    self.curr >= p0,
                    p0 == old(self).curr,
                    !check(t, p0, TokenType::RightParen),
                ensures
                    parser_wf(self.tokens@, self.curr as int),
                    self.tokens@ == t,
                    t == old(self).tokens@,
                    self.curr >= p0,
                    p0 == old(self).curr,
                    parse_arguments(t, p0, Seq::empty()) == (
                        Ok::<Seq<ExprV>, LoxErrorV>(exprs_v(args@)),
                        self.curr as int,
                    ),
                decreases t.len() - self.curr,
            {
                proof {
                    crate::ast::lemma_exprs_v_len(args@);
                }
                if args.len() > 255 {
                    return Err(Self::error(self.peek(), message("m ax no. of args 255")));
                }
                let arg = self.expression()?;
                proof {
                    crate::ast::lemma_exprs_v_push(args@, arg);
                }
                args.push(arg);
                if !self.validate(TokenType::COMMA) {
                    break ;
                }
            }
        }
        let paren = self.consume(TokenType::RightParen, message("Expect ')' after args."))?;
        Ok(Expr::Call(Box::new(Call::new(callee, paren, args))))
    }

    pub(crate) fn primary(&mut self) -> (r: Result<Expr, LoxError>)
        requires
            parser_wf(old(self).tokens@, old(self).curr as int),
        ensures
            parser_wf(final(self).tokens@, final(self).curr as int),
            final(self).tokens@ == old(self).tokens@,
            (final(self).curr as int) >= (old(self).curr as int),
            r is Ok ==> (final(self).curr as int) > (old(self).curr as int),
            (rv_expr(r), (final(self).curr as int)) == parse_primary(old(self).tokens@, (old(self).curr as int)),
        decreases rem(old(self).tokens@, (old(self).curr as int)), 1int,
    {
        if self.validate(TokenType::THIS) {
            return Ok(Expr::This(Box::new(This::new(self.previous().clone()))));
        }
        if self.validate(TokenType::SUPER) {
            let keyword = self.previous().clone();
            self.consume(TokenType::DOT, message("Expect '.' after super."))?;
            let method = self.consume(
                TokenType::IDENTIFIER,
                message("Expect super class method name."),
            )?;
            return Ok(Expr::Super(Box::new(Super::new(method, keyword))));
        }
        if self.validate(TokenType::FALSE) {
            return Ok(Expr::Literal(Literal::BOOL(false)));
        }
        if self.validate(TokenType::TRUE) {
            return Ok(Expr::Literal(Literal::BOOL(true)));
        }
        if self.validate(TokenType::NIL) {
            return Ok(Expr::Literal(Literal::NIL));
        }
        let is_literal = if self.validate(TokenType::NUMBER) {
            true
        } else {
            self.validate(TokenType::STRING)
        };
        if is_literal {
            match &self.previous().literal {
                Some(l) => {
                    return Ok(Expr::Literal(l.clone()));
                },
                None => {
                    assert(false);
                    return Err(Self::error(self.peek(), message("Expect Expression")));
                },
            }
        }
        if self.validate(TokenType::LeftParen) {
            let expr = self.expression()?;
            self.consume(TokenType::RightParen, message("Expect ')' after expression."))?;
            return Ok(Expr::Grouping(Box::new(Grouping::new(expr))));
        }
        if self.validate(TokenType::IDENTIFIER) {
            return Ok(Expr::Variable(Box::new(Variable::new(self.previous().clone()))));
        }
        Err(Self::error(self.peek(), message("Expect Expression")))
    }

}

} // verus!
