use vstd::prelude::*;

use crate::ast::{
    Assign, Binary, Block, Break, Call, Class, Continue, Expr, ExprV, Expression, Function, FunctionV,
    Get, Grouping, If, Lambda, Logical, Print, Return, SetProperty, Stmt, StmtV, Super, This, Unary,
    Var, Variable, While, exprs_v, function_v, functions_v, stmts_v, tokens_v,
};
use crate::error::{LoxError, LoxErrorV};
use crate::token::{Literal, LiteralV, Token, TokenType, TokenV};

verus! {

// ---------------------------------------------------------------------------
// The grammar of Lox, as a function of the token sequence and the position
// at which parsing starts. Each function gives what it parses (or the error
// it meets) and the position it stops at.
// ---------------------------------------------------------------------------

/// A parse outcome: what was parsed or the error met, and the position where
/// the parser stands afterwards.
pub type Parsed<T> = (Result<T, LoxErrorV>, int);

/// Token sequences that the parser accepts: they end with `EOF`, and every
/// number and string token carries its literal.
pub open spec fn wf_tokens(t: Seq<Token>) -> bool {
    &&& t.len() > 0
    &&& t.last().token_type == TokenType::EOF
    &&& forall|i: int|
        0 <= i < t.len() && (#[trigger] t[i].token_type == TokenType::NUMBER || t[i].token_type
            == TokenType::STRING) ==> t[i].literal is Some
}

/// The measure that every step of the parser decreases.
pub open spec fn rem(t: Seq<Token>, p: int) -> nat {
    if p < t.len() {
        (t.len() - p) as nat
    } else {
        0
    }
}

pub open spec fn at_end(t: Seq<Token>, p: int) -> bool {
    0 <= p < t.len() && t[p].token_type == TokenType::EOF
}

/// Whether the token at `p` has the given kind (never at the end).
pub open spec fn check(t: Seq<Token>, p: int, ty: TokenType) -> bool {
    0 <= p < t.len() && !at_end(t, p) && t[p].token_type == ty
}

/// The position after taking the token at `p` if it has the given kind.
pub open spec fn skip(t: Seq<Token>, p: int, ty: TokenType) -> int {
    if check(t, p, ty) {
        p + 1
    } else {
        p
    }
}

/// Whether a sub-parse that started at `p` and stopped at `q` moved on.
pub open spec fn moved(t: Seq<Token>, p: int, q: int) -> bool {
    p < q && p < t.len()
}

pub open spec fn error_at(t: Seq<Token>, p: int, msg: Seq<char>) -> LoxErrorV {
    LoxErrorV::ParserError(t[p].lexeme@, t[p].line_no, msg)
}

/// The outcome of a sub-parse that did not move on although it succeeded;
/// no parse comes to it (every successful parse takes at least one token).
pub open spec fn stalled<T>(q: int) -> Parsed<T> {
    (Err(LoxErrorV::ParserError(Seq::empty(), 0, Seq::empty())), q)
}

/// Takes a token of the given kind at `p`, or fails there with `msg`.
pub open spec fn consume(t: Seq<Token>, p: int, ty: TokenType, msg: Seq<char>) -> Parsed<TokenV> {
    if check(t, p, ty) {
        (Ok(t[p]@), p + 1)
    } else {
        (Err(error_at(t, p, msg)), p)
    }
}

pub open spec fn msg_args() -> Seq<char> {
    "m ax no. of args 255"@
}

/// The parameter names of a function after its `(`, up to the `)`.
pub open spec fn parse_params(t: Seq<Token>, p: int, acc: Seq<TokenV>) -> Parsed<Seq<TokenV>>
    decreases rem(t, p),
{
    if acc.len() > 255 {
        (Err(error_at(t, p, msg_args())), p)
    } else {
        let (r, q) = consume(t, p, TokenType::IDENTIFIER, "Expect Param Name"@);
        match r {
            Err(e) => (Err(e), q),
            Ok(name) => if check(t, q, TokenType::COMMA) {
                parse_params(t, q + 1, acc.push(name))
            } else {
                (Ok(acc.push(name)), q)
            },
        }
    }
}

pub proof fn lemma_parse_params(t: Seq<Token>, p: int, acc: Seq<TokenV>)
    ensures
        parse_params(t, p, acc).1 >= p,
        parse_params(t, p, acc).0 is Ok ==> moved(t, p, parse_params(t, p, acc).1),
    decreases rem(t, p),
{
    if acc.len() <= 255 {
        let (r, q) = consume(t, p, TokenType::IDENTIFIER, "Expect Param Name"@);
        if r is Ok && check(t, q, TokenType::COMMA) {
            lemma_parse_params(t, q + 1, acc.push(r->Ok_0));
        }
    }
}

/// The parameter list of a function or lambda, after its `(`, and the
/// closing `)`.
pub open spec fn parse_param_list(t: Seq<Token>, p: int) -> Parsed<Seq<TokenV>> {
    let (r, q) = if !check(t, p, TokenType::RightParen) {
        parse_params(t, p, Seq::empty())
    } else {
        (Ok(Seq::empty()), p)
    };
    match r {
        Err(e) => (Err(e), q),
        Ok(params) => {
            let (r2, q2) = consume(t, q, TokenType::RightParen, "Expect ')' after params"@);
            match r2 {
                Err(e) => (Err(e), q2),
                Ok(_) => (Ok(params), q2),
            }
        },
    }
}

pub proof fn lemma_parse_param_list(t: Seq<Token>, p: int)
    ensures
        parse_param_list(t, p).1 >= p,
        parse_param_list(t, p).0 is Ok ==> moved(t, p, parse_param_list(t, p).1),
{
    if !check(t, p, TokenType::RightParen) {
        lemma_parse_params(t, p, Seq::empty());
    }
}

/// Moves past the token at `p`, unless it is the end.
pub open spec fn advance(t: Seq<Token>, p: int) -> int {
    if 0 <= p < t.len() && !at_end(t, p) {
        p + 1
    } else {
        p
    }
}

pub open spec fn starts_statement(ty: TokenType) -> bool {
    ty == TokenType::CLASS || ty == TokenType::FUN || ty == TokenType::VAR || ty == TokenType::FOR
        || ty == TokenType::IF || ty == TokenType::WHILE || ty == TokenType::PRINT || ty
        == TokenType::RETURN
}

pub open spec fn synchronize_loop(t: Seq<Token>, p: int) -> int
    decreases rem(t, p),
{
    if !(0 <= p < t.len()) || at_end(t, p) {
        p
    } else if t[p - 1].token_type == TokenType::SEMICOLON {
        p
    } else if starts_statement(t[p].token_type) {
        p
    } else {
        synchronize_loop(t, p + 1)
    }
}

/// Where the parser stands after recovering from an error at `p`: past the
/// next `;`, or before the next keyword that starts a statement, or at the
/// end.
pub open spec fn synchronize(t: Seq<Token>, p: int) -> int {
    synchronize_loop(t, advance(t, p))
}

/// `target = value`: an assignment to a variable or a property; there is no
/// other kind of assignment.
pub open spec fn assignment_target(target: ExprV, value: ExprV) -> Option<ExprV> {
    match target {
        ExprV::Variable(name) => Some(ExprV::Assign(name, Box::new(value))),
        ExprV::Get(object, name) => Some(ExprV::SetProperty(object, name, Box::new(value))),
        _ => None,
    }
}

/// What an assignment whose `=` stands at `q` parses to, the parser then
/// standing at `q2`.
#[verifier::opaque]
pub open spec fn assignment_outcome(t: Seq<Token>, q: int, target: ExprV, value: ExprV, q2: int) -> Parsed<ExprV> {
    match assignment_target(target, value) {
        Some(e) => (Ok(e), q2),
        None => (Err(invalid_target(t, q)), q2),
    }
}

/// The error for an assignment to what is neither a variable nor a
/// property, reported at its `=`.
pub open spec fn invalid_target(t: Seq<Token>, q: int) -> LoxErrorV {
    LoxErrorV::RuntimeError(t[q].lexeme@, t[q].line_no, "Invalid assignment target."@)
}

/// The whole program from `p` on: declarations until the end. On an error
/// the parser recovers to the next statement and the error is the outcome.
pub open spec fn parse_program(t: Seq<Token>, p: int, acc: Seq<StmtV>) -> Parsed<Seq<StmtV>>
    decreases rem(t, p), 22int,
{
    if !at_end(t, p) {
        let (r, q) = parse_declaration(t, p);
        match r {
            Err(e) => (Err(e), synchronize(t, q)),
            Ok(s) => if moved(t, p, q) {
                parse_program(t, q, acc.push(s))
            } else {
                stalled(q)
            },
        }
    } else {
        (Ok(acc), p)
    }
}

/// `declaration := classDecl | funDecl | varDecl | statement`
pub open spec fn parse_declaration(t: Seq<Token>, p: int) -> Parsed<StmtV>
    decreases rem(t, p), 21int,
{
    if check(t, p, TokenType::CLASS) {
        parse_class(t, p + 1)
    } else if check(t, p, TokenType::FUN) {
        let (r, q) = parse_function(t, p + 1, "function"@);
        match r {
            Err(e) => (Err(e), q),
            Ok(f) => (Ok(StmtV::Function(f)), q),
        }
    } else if check(t, p, TokenType::VAR) {
        parse_var(t, p + 1)
    } else {
        parse_statement(t, p)
    }
}

/// After `class`: a name, an optional `< superclass`, and methods in braces.
pub open spec fn parse_class(t: Seq<Token>, p: int) -> Parsed<StmtV>
    decreases rem(t, p), 0int,
{
    let (r, p1) = consume(t, p, TokenType::IDENTIFIER, "Expect Class name"@);
    match r {
        Err(e) => (Err(e), p1),
        Ok(name) => {
            let (rs, p2): (Result<Option<TokenV>, LoxErrorV>, int) = if check(
                t,
                p1,
                TokenType::LESS,
            ) {
                let (r2, q) = consume(t, p1 + 1, TokenType::IDENTIFIER, "Expect SuperClass name"@);
                match r2 {
                    Err(e) => (Err(e), q),
                    Ok(sup) => (Ok(Some(sup)), q),
                }
            } else {
                (Ok(None), p1)
            };
            match rs {
                Err(e) => (Err(e), p2),
                Ok(sup) => {
                    let (r3, p3) = consume(
                        t,
                        p2,
                        TokenType::LeftBrace,
                        "Expect { before class body"@,
                    );
                    match r3 {
                        Err(e) => (Err(e), p3),
                        Ok(_) => parse_class_members(t, p3, name, sup),
                    }
                },
            }
        },
    }
}

/// The members of a class after its `{`, and the closing `}`.
pub open spec fn parse_class_members(t: Seq<Token>, p: int, name: TokenV, sup: Option<TokenV>) -> Parsed<StmtV>
    decreases rem(t, p), 2int,
{
    let (rm, p4) = parse_methods(t, p, Seq::empty());
    match rm {
        Err(e) => (Err(e), p4),
        Ok(methods) => {
            let (r5, p5) = consume(t, p4, TokenType::RightBrace, "Expect '}' after class body"@);
            match r5 {
                Err(e) => (Err(e), p5),
                Ok(_) => (Ok(StmtV::Class(name, methods, sup)), p5),
            }
        },
    }
}

/// The methods of a class body, up to its `}`.
pub open spec fn parse_methods(t: Seq<Token>, p: int, acc: Seq<FunctionV>) -> Parsed<Seq<FunctionV>>
    decreases rem(t, p), 1int,
{
    if !check(t, p, TokenType::RightBrace) && !at_end(t, p) {
        let (r, q) = parse_function(t, p, "method"@);
        match r {
            Err(e) => (Err(e), q),
            Ok(f) => if moved(t, p, q) {
                parse_methods(t, q, acc.push(f))
            } else {
                stalled(q)
            },
        }
    } else {
        (Ok(acc), p)
    }
}

/// A function of the given kind after `fun` (or a method): its name, its
/// parameters in parentheses, and its body in braces.
pub open spec fn parse_function(t: Seq<Token>, p: int, kind: Seq<char>) -> Parsed<FunctionV>
    decreases rem(t, p), 0int,
{
    let (r, p1) = consume(t, p, TokenType::IDENTIFIER, "Expect "@ + kind + " name"@);
    match r {
        Err(e) => (Err(e), p1),
        Ok(name) => {
            let (r2, p2) = consume(
                t,
                p1,
                TokenType::LeftParen,
                "Expect after "@ + kind + " name"@,
            );
            match r2 {
                Err(e) => (Err(e), p2),
                Ok(_) => {
                    let (rp, p3) = parse_param_list(t, p2);
                    proof {
                        lemma_parse_param_list(t, p2);
                    }
                    match rp {
                        Err(e) => (Err(e), p3),
                        Ok(params) => {
                            let (r4, p4) = consume(
                                t,
                                p3,
                                TokenType::LeftBrace,
                                "Expect '{' before body"@,
                            );
                            match r4 {
                                Err(e) => (Err(e), p4),
                                Ok(_) => {
                                    let (rb, p5) = parse_block(t, p4);
                                    match rb {
                                        Err(e) => (Err(e), p5),
                                        Ok(body) => (
                                            Ok(FunctionV { name, params, body }),
                                            p5,
                                        ),
                                    }
                                },
                            }
                        },
                    }
                },
            }
        },
    }
}

/// After `var`: a name, an optional initializer, and `;`.
pub open spec fn parse_var(t: Seq<Token>, p: int) -> Parsed<StmtV>
    decreases rem(t, p), 0int,
{
    let (r, p1) = consume(t, p, TokenType::IDENTIFIER, "Expect Variable Name."@);
    match r {
        Err(e) => (Err(e), p1),
        Ok(name) => {
            let (ri, p2): (Result<Option<ExprV>, LoxErrorV>, int) = if check(
                t,
                p1,
                TokenType::EQUAL,
            ) {
                let (re, q) = parse_expression(t, p1 + 1);
                match re {
                    Err(e) => (Err(e), q),
                    Ok(x) => (Ok(Some(x)), q),
                }
            } else {
                (Ok(None), p1)
            };
            match ri {
                Err(e) => (Err(e), p2),
                Ok(init) => {
                    let (r3, p3) = consume(
                        t,
                        p2,
                        TokenType::SEMICOLON,
                        "Expect ';' after value."@,
                    );
                    match r3 {
                        Err(e) => (Err(e), p3),
                        Ok(_) => (Ok(StmtV::Var(name, init)), p3),
                    }
                },
            }
        },
    }
}

/// `statement := print | block | if | while | for | break | continue | return | exprStmt`
pub open spec fn parse_statement(t: Seq<Token>, p: int) -> Parsed<StmtV>
    decreases rem(t, p), 20int,
{
    if check(t, p, TokenType::PRINT) {
        parse_print(t, p + 1)
    } else if check(t, p, TokenType::LeftBrace) {
        let (r, q) = parse_block(t, p + 1);
        match r {
            Err(e) => (Err(e), q),
            Ok(b) => (Ok(StmtV::Block(b)), q),
        }
    } else if check(t, p, TokenType::IF) {
        parse_if(t, p + 1)
    } else if check(t, p, TokenType::WHILE) {
        parse_while(t, p + 1)
    } else if check(t, p, TokenType::FOR) {
        parse_for(t, p + 1)
    } else if check(t, p, TokenType::BREAK) {
        let (r, q) = consume(t, p + 1, TokenType::SEMICOLON, "Expect ';' after break."@);
        match r {
            Err(e) => (Err(e), q),
            Ok(semi) => (Ok(StmtV::Break(semi)), q),
        }
    } else if check(t, p, TokenType::CONTINUE) {
        let (r, q) = consume(t, p + 1, TokenType::SEMICOLON, "Expect ';' after continue."@);
        match r {
            Err(e) => (Err(e), q),
            Ok(semi) => (Ok(StmtV::Continue(semi)), q),
        }
    } else if check(t, p, TokenType::RETURN) {
        parse_return(t, p + 1)
    } else {
        parse_expression_statement(t, p)
    }
}

/// After `return` (the token before `p`): an optional value, then `;`.
pub open spec fn parse_return(t: Seq<Token>, p: int) -> Parsed<StmtV>
    decreases rem(t, p), 19int,
{
    let keyword = t[p - 1]@;
    let (rv, p1): (Result<Option<ExprV>, LoxErrorV>, int) = if !check(
        t,
        p,
        TokenType::SEMICOLON,
    ) {
        let (re, q) = parse_expression(t, p);
        match re {
            Err(e) => (Err(e), q),
            Ok(x) => (Ok(Some(x)), q),
        }
    } else {
        (Ok(None), p)
    };
    match rv {
        Err(e) => (Err(e), p1),
        Ok(value) => {
            let (r2, p2) = consume(t, p1, TokenType::SEMICOLON, "Expect ';' after return."@);
            match r2 {
                Err(e) => (Err(e), p2),
                Ok(_) => (Ok(StmtV::Return(keyword, value)), p2),
            }
        },
    }
}

/// The statements of a block after its `{`, and the closing `}`.
pub open spec fn parse_block(t: Seq<Token>, p: int) -> Parsed<Seq<StmtV>>
    decreases rem(t, p), 23int,
{
    let (r, q) = parse_block_items(t, p, Seq::empty());
    match r {
        Err(e) => (Err(e), q),
        Ok(items) => {
            let (r2, q2) = consume(t, q, TokenType::RightBrace, "Expect '}' after block"@);
            match r2 {
                Err(e) => (Err(e), q2),
                Ok(_) => (Ok(items), q2),
            }
        },
    }
}

pub open spec fn parse_block_items(t: Seq<Token>, p: int, acc: Seq<StmtV>) -> Parsed<Seq<StmtV>>
    decreases rem(t, p), 22int,
{
    if !check(t, p, TokenType::RightBrace) && !at_end(t, p) {
        let (r, q) = parse_declaration(t, p);
        match r {
            Err(e) => (Err(e), q),
            Ok(s) => if moved(t, p, q) {
                parse_block_items(t, q, acc.push(s))
            } else {
                stalled(q)
            },
        }
    } else {
        (Ok(acc), p)
    }
}

/// After `print` (the token before `p`): an expression and `;`.
pub open spec fn parse_print(t: Seq<Token>, p: int) -> Parsed<StmtV>
    decreases rem(t, p), 19int,
{
    let keyword = t[p - 1]@;
    let (r, p1) = parse_expression(t, p);
    match r {
        Err(e) => (Err(e), p1),
        Ok(x) => {
            let (r2, p2) = consume(t, p1, TokenType::SEMICOLON, "Expect ';' after value."@);
            match r2 {
                Err(e) => (Err(e), p2),
                Ok(_) => (Ok(StmtV::Print(x, keyword)), p2),
            }
        },
    }
}

/// After `while` (the token before `p`): a condition in parentheses and a body.
pub open spec fn parse_while(t: Seq<Token>, p: int) -> Parsed<StmtV>
    decreases rem(t, p), 0int,
{
    let keyword = t[p - 1]@;
    let (r, p1) = consume(t, p, TokenType::LeftParen, "Expect '(' after 'if'."@);
    match r {
        Err(e) => (Err(e), p1),
        Ok(_) => {
            let (rc, p2) = parse_expression(t, p1);
            match rc {
                Err(e) => (Err(e), p2),
                Ok(cond) => {
                    let (r3, p3) = consume(
                        t,
                        p2,
                        TokenType::RightParen,
                        "Expect ')' after if condition."@,
                    );
                    match r3 {
                        Err(e) => (Err(e), p3),
                        Ok(_) => if moved(t, p, p3) {
                            let (rb, p4) = parse_statement(t, p3);
                            match rb {
                                Err(e) => (Err(e), p4),
                                Ok(body) => (Ok(StmtV::While(keyword, cond, Box::new(body))), p4),
                            }
                        } else {
                            stalled(p3)
                        },
                    }
                },
            }
        },
    }
}

/// The loop that a `for` statement stands for: the initializer, then a
/// `while` over the condition (`true` where there is none) whose body is the
/// statement followed by the increment.
pub open spec fn desugar_for(
    keyword: TokenV,
    init: Option<StmtV>,
    cond: Option<ExprV>,
    incr: Option<ExprV>,
    body: StmtV,
) -> StmtV {
    let body = match incr {
        Some(i) => StmtV::Block(seq![body, StmtV::Expression(i)]),
        None => body,
    };
    let cond = match cond {
        Some(c) => c,
        None => ExprV::Literal(LiteralV::BOOL(true)),
    };
    let lp = StmtV::While(keyword, cond, Box::new(body));
    match init {
        Some(i) => StmtV::Block(seq![i, lp]),
        None => lp,
    }
}

/// After `for` (the token before `p`): `(` initializer; condition; increment `)` body.
pub open spec fn parse_for(t: Seq<Token>, p: int) -> Parsed<StmtV>
    decreases rem(t, p), 0int,
{
    let keyword = t[p - 1]@;
    let (r, p1) = consume(t, p, TokenType::LeftParen, "Expect '(' after 'for'."@);
    match r {
        Err(e) => (Err(e), p1),
        Ok(_) => {
            let (ri, p2): (Result<Option<StmtV>, LoxErrorV>, int) = if check(
                t,
                p1,
                TokenType::SEMICOLON,
            ) {
                (Ok(None), p1 + 1)
            } else if check(t, p1, TokenType::VAR) {
                let (rv, q) = parse_var(t, p1 + 1);
                match rv {
                    Err(e) => (Err(e), q),
                    Ok(s) => (Ok(Some(s)), q),
                }
            } else {
                let (rv, q) = parse_expression_statement(t, p1);
                match rv {
                    Err(e) => (Err(e), q),
                    Ok(s) => (Ok(Some(s)), q),
                }
            };
            match ri {
                Err(e) => (Err(e), p2),
                Ok(init) => if moved(t, p, p2) {
                    let (rc, p3): (Result<Option<ExprV>, LoxErrorV>, int) = if !check(
                        t,
                        p2,
                        TokenType::SEMICOLON,
                    ) {
                        let (re, q) = parse_expression(t, p2);
                        match re {
                            Err(e) => (Err(e), q),
                            Ok(x) => (Ok(Some(x)), q),
                        }
                    } else {
                        (Ok(None), p2)
                    };
                    match rc {
                        Err(e) => (Err(e), p3),
                        Ok(cond) => {
                            let (r4, p4) = consume(
                                t,
                                p3,
                                TokenType::SEMICOLON,
                                "Expect ';' after loop condition."@,
                            );
                            match r4 {
                                Err(e) => (Err(e), p4),
                                Ok(_) => if moved(t, p, p4) {
                                    let (rn, p5): (Result<Option<ExprV>, LoxErrorV>, int) = if !check(
                                        t,
                                        p4,
                                        TokenType::RightParen,
                                    ) {
                                        let (re, q) = parse_expression(t, p4);
                                        match re {
                                            Err(e) => (Err(e), q),
                                            Ok(x) => (Ok(Some(x)), q),
                                        }
                                    } else {
                                        (Ok(None), p4)
                                    };
                                    match rn {
                                        Err(e) => (Err(e), p5),
                                        Ok(incr) => {
                                            let (r6, p6) = consume(
                                                t,
                                                p5,
                                                TokenType::RightParen,
                                                "Expect ')' after for clause."@,
                                            );
                                            match r6 {
                                                Err(e) => (Err(e), p6),
                                                Ok(_) => if moved(t, p, p6) {
                                                    let (rb, p7) = parse_statement(t, p6);
                                                    match rb {
                                                        Err(e) => (Err(e), p7),
                                                        Ok(body) => (
                                                            Ok(
                                                                desugar_for(
                                                                    keyword,
                                                                    init,
                                                                    cond,
                                                                    incr,
                                                                    body,
                                                                ),
                                                            ),
                                                            p7,
                                                        ),
                                                    }
                                                } else {
                                                    stalled(p6)
                                                },
                                            }
                                        },
                                    }
                                } else {
                                    stalled(p4)
                                },
                            }
                        },
                    }
                } else {
                    stalled(p2)
                },
            }
        },
    }
}

/// After `if` (the token before `p`): a condition in parentheses, a then
/// branch and an optional `else` branch.
pub open spec fn parse_if(t: Seq<Token>, p: int) -> Parsed<StmtV>
    decreases rem(t, p), 0int,
{
    let keyword = t[p - 1]@;
    let (r, p1) = consume(t, p, TokenType::LeftParen, "Expect '(' after 'if'."@);
    match r {
        Err(e) => (Err(e), p1),
        Ok(_) => {
            let (rc, p2) = parse_expression(t, p1);
            match rc {
                Err(e) => (Err(e), p2),
                Ok(cond) => {
                    let (r3, p3) = consume(
                        t,
                        p2,
                        TokenType::RightParen,
                        "Expect ')' after if condition."@,
                    );
                    match r3 {
                        Err(e) => (Err(e), p3),
                        Ok(_) => if moved(t, p, p3) {
                            let (rt, p4) = parse_statement(t, p3);
                            match rt {
                                Err(e) => (Err(e), p4),
                                Ok(then_branch) => if check(t, p4, TokenType::ELSE) {
                                    if moved(t, p, p4) {
                                        let (re, p5) = parse_statement(t, p4 + 1);
                                        match re {
                                            Err(e) => (Err(e), p5),
                                            Ok(else_branch) => (
                                                Ok(
                                                    StmtV::If(
                                                        keyword,
                                                        cond,
                                                        Box::new(then_branch),
                                                        Some(Box::new(else_branch)),
                                                    ),
                                                ),
                                                p5,
                                            ),
                                        }
                                    } else {
                                        stalled(p4)
                                    }
                                } else {
                                    (Ok(StmtV::If(keyword, cond, Box::new(then_branch), None)), p4)
                                },
                            }
                        } else {
                            stalled(p3)
                        },
                    }
                },
            }
        },
    }
}

/// An expression followed by `;`.
pub open spec fn parse_expression_statement(t: Seq<Token>, p: int) -> Parsed<StmtV>
    decreases rem(t, p), 19int,
{
    let (r, p1) = parse_expression(t, p);
    match r {
        Err(e) => (Err(e), p1),
        Ok(x) => {
            let (r2, p2) = consume(t, p1, TokenType::SEMICOLON, "Expect ';' after value."@);
            match r2 {
                Err(e) => (Err(e), p2),
                Ok(_) => (Ok(StmtV::Expression(x)), p2),
            }
        },
    }
}

/// `expression := "fun" lambda | assignment`
pub open spec fn parse_expression(t: Seq<Token>, p: int) -> Parsed<ExprV>
    decreases rem(t, p), 18int,
{
    if check(t, p, TokenType::FUN) {
        parse_lambda(t, p + 1)
    } else {
        parse_assignment(t, p)
    }
}

/// After `fun` in an expression: parameters in parentheses and a body in braces.
pub open spec fn parse_lambda(t: Seq<Token>, p: int) -> Parsed<ExprV>
    decreases rem(t, p), 0int,
{
    let (r, p1) = consume(t, p, TokenType::LeftParen, "Expect after lambda name"@);
    match r {
        Err(e) => (Err(e), p1),
        Ok(paren) => {
            let (rp, p2) = parse_param_list(t, p1);
            proof {
                lemma_parse_param_list(t, p1);
            }
            match rp {
                Err(e) => (Err(e), p2),
                Ok(params) => {
                    let (r3, p3) = consume(t, p2, TokenType::LeftBrace, "Expect '{' before body"@);
                    match r3 {
                        Err(e) => (Err(e), p3),
                        Ok(_) => {
                            let (rb, p4) = parse_block(t, p3);
                            match rb {
                                Err(e) => (Err(e), p4),
                                Ok(body) => (Ok(ExprV::Lambda(paren, params, body)), p4),
                            }
                        },
                    }
                },
            }
        },
    }
}

/// `assignment := or ("=" assignment)?`; the right side is dropped where
/// the left side is neither a variable nor a property.
pub open spec fn parse_assignment(t: Seq<Token>, p: int) -> Parsed<ExprV>
    decreases rem(t, p), 17int,
{
    let (r, q) = parse_or(t, p);
    match r {
        Err(e) => (Err(e), q),
        Ok(target) => if check(t, q, TokenType::EQUAL) {
            if moved(t, p, q) {
                let (rv, q2) = parse_assignment(t, q + 1);
                match rv {
                    Err(e) => (Err(e), q2),
                    Ok(value) => assignment_outcome(t, q, target, value, q2),
                }
            } else {
                stalled(q)
            }
        } else {
            (Ok(target), q)
        },
    }
}

/// `or := and ("or" and)*`
pub open spec fn parse_or(t: Seq<Token>, p: int) -> Parsed<ExprV>
    decreases rem(t, p), 16int,
{
    let (r, q) = parse_and(t, p);
    match r {
        Err(e) => (Err(e), q),
        Ok(left) => if moved(t, p, q) {
            parse_or_rest(t, left, q)
        } else {
            stalled(q)
        },
    }
}

pub open spec fn parse_or_rest(t: Seq<Token>, left: ExprV, p: int) -> Parsed<ExprV>
    decreases rem(t, p), 15int,
{
    if check(t, p, TokenType::OR) {
        let (r, q) = parse_and(t, p + 1);
        match r {
            Err(e) => (Err(e), q),
            Ok(right) => if moved(t, p, q) {
                parse_or_rest(t, ExprV::Logical(Box::new(left), t[p]@, Box::new(right)), q)
            } else {
                stalled(q)
            },
        }
    } else {
        (Ok(left), p)
    }
}

/// `and := equality ("and" equality)*`
pub open spec fn parse_and(t: Seq<Token>, p: int) -> Parsed<ExprV>
    decreases rem(t, p), 14int,
{
    let (r, q) = parse_equality(t, p);
    match r {
        Err(e) => (Err(e), q),
        Ok(left) => if moved(t, p, q) {
            parse_and_rest(t, left, q)
        } else {
            stalled(q)
        },
    }
}

pub open spec fn parse_and_rest(t: Seq<Token>, left: ExprV, p: int) -> Parsed<ExprV>
    decreases rem(t, p), 13int,
{
    if check(t, p, TokenType::AND) {
        let (r, q) = parse_equality(t, p + 1);
        match r {
            Err(e) => (Err(e), q),
            Ok(right) => if moved(t, p, q) {
                parse_and_rest(t, ExprV::Logical(Box::new(left), t[p]@, Box::new(right)), q)
            } else {
                stalled(q)
            },
        }
    } else {
        (Ok(left), p)
    }
}

/// `equality := comparison (("!=" | "==") comparison)*`. Both operators are
/// tried in turn at each step, so `!= ==` reads as one operator, the later.
pub open spec fn parse_equality(t: Seq<Token>, p: int) -> Parsed<ExprV>
    decreases rem(t, p), 12int,
{
    let (r, q) = parse_comparison(t, p);
    match r {
        Err(e) => (Err(e), q),
        Ok(left) => if moved(t, p, q) {
            parse_equality_rest(t, left, q)
        } else {
            stalled(q)
        },
    }
}

pub open spec fn parse_equality_rest(t: Seq<Token>, left: ExprV, p: int) -> Parsed<ExprV>
    decreases rem(t, p), 11int,
{
    let q1 = skip(t, p, TokenType::BangEqual);
    let q2 = skip(t, q1, TokenType::EqualEqual);
    if q2 > p {
        let (r, q) = parse_comparison(t, q2);
        match r {
            Err(e) => (Err(e), q),
            Ok(right) => if moved(t, p, q) {
                parse_equality_rest(
                    t,
                    ExprV::Binary(Box::new(left), t[q2 - 1]@, Box::new(right)),
                    q,
                )
            } else {
                stalled(q)
            },
        }
    } else {
        (Ok(left), p)
    }
}

/// `comparison := addition ((">" | ">=" | "<" | "<=") addition)*`, the four
/// operators tried in turn at each step.
pub open spec fn parse_comparison(t: Seq<Token>, p: int) -> Parsed<ExprV>
    decreases rem(t, p), 10int,
{
    let (r, q) = parse_addition(t, p);
    match r {
        Err(e) => (Err(e), q),
        Ok(left) => if moved(t, p, q) {
            parse_comparison_rest(t, left, q)
        } else {
            stalled(q)
        },
    }
}

pub open spec fn parse_comparison_rest(t: Seq<Token>, left: ExprV, p: int) -> Parsed<ExprV>
    decreases rem(t, p), 9int,
{
    let q1 = skip(t, p, TokenType::GREATER);
    let q2 = skip(t, q1, TokenType::GreaterEqual);
    let q3 = skip(t, q2, TokenType::LESS);
    let q4 = skip(t, q3, TokenType::LessEqual);
    if q4 > p {
        let (r, q) = parse_addition(t, q4);
        match r {
            Err(e) => (Err(e), q),
            Ok(right) => if moved(t, p, q) {
                parse_comparison_rest(
                    t,
                    ExprV::Binary(Box::new(left), t[q4 - 1]@, Box::new(right)),
                    q,
                )
            } else {
                stalled(q)
            },
        }
    } else {
        (Ok(left), p)
    }
}

/// `addition := multiplication (("-" | "+") multiplication)*`
pub open spec fn parse_addition(t: Seq<Token>, p: int) -> Parsed<ExprV>
    decreases rem(t, p), 8int,
{
    let (r, q) = parse_multiplication(t, p);
    match r {
        Err(e) => (Err(e), q),
        Ok(left) => if moved(t, p, q) {
            parse_addition_rest(t, left, q)
        } else {
            stalled(q)
        },
    }
}

pub open spec fn parse_addition_rest(t: Seq<Token>, left: ExprV, p: int) -> Parsed<ExprV>
    decreases rem(t, p), 7int,
{
    let q1 = skip(t, p, TokenType::MINUS);
    let q2 = skip(t, q1, TokenType::PLUS);
    if q2 > p {
        let (r, q) = parse_multiplication(t, q2);
        match r {
            Err(e) => (Err(e), q),
            Ok(right) => if moved(t, p, q) {
                parse_addition_rest(
                    t,
                    ExprV::Binary(Box::new(left), t[q2 - 1]@, Box::new(right)),
                    q,
                )
            } else {
                stalled(q)
            },
        }
    } else {
        (Ok(left), p)
    }
}

/// `multiplication := unary (("/" | "*") unary)*`
pub open spec fn parse_multiplication(t: Seq<Token>, p: int) -> Parsed<ExprV>
    decreases rem(t, p), 6int,
{
    let (r, q) = parse_unary(t, p);
    match r {
        Err(e) => (Err(e), q),
        Ok(left) => if moved(t, p, q) {
            parse_multiplication_rest(t, left, q)
        } else {
            stalled(q)
        },
    }
}

pub open spec fn parse_multiplication_rest(t: Seq<Token>, left: ExprV, p: int) -> Parsed<ExprV>
    decreases rem(t, p), 5int,
{
    let q1 = skip(t, p, TokenType::SLASH);
    let q2 = skip(t, q1, TokenType::STAR);
    if q2 > p {
        let (r, q) = parse_unary(t, q2);
        match r {
            Err(e) => (Err(e), q),
            Ok(right) => if moved(t, p, q) {
                parse_multiplication_rest(
                    t,
                    ExprV::Binary(Box::new(left), t[q2 - 1]@, Box::new(right)),
                    q,
                )
            } else {
                stalled(q)
            },
        }
    } else {
        (Ok(left), p)
    }
}

/// `unary := ("!" | "-") unary | call`, both operators tried in turn.
pub open spec fn parse_unary(t: Seq<Token>, p: int) -> Parsed<ExprV>
    decreases rem(t, p), 4int,
{
    let q1 = skip(t, p, TokenType::BANG);
    let q2 = skip(t, q1, TokenType::MINUS);
    if q2 > p {
        let (r, q) = parse_unary(t, q2);
        match r {
            Err(e) => (Err(e), q),
            Ok(right) => (Ok(ExprV::Unary(t[q2 - 1]@, Box::new(right))), q),
        }
    } else {
        parse_call(t, p)
    }
}

/// `call := primary ("(" arguments ")" | "." IDENTIFIER)*`
pub open spec fn parse_call(t: Seq<Token>, p: int) -> Parsed<ExprV>
    decreases rem(t, p), 3int,
{
    let (r, q) = parse_primary(t, p);
    match r {
        Err(e) => (Err(e), q),
        Ok(callee) => if moved(t, p, q) {
            parse_call_rest(t, callee, q)
        } else {
            stalled(q)
        },
    }
}

pub open spec fn parse_call_rest(t: Seq<Token>, callee: ExprV, p: int) -> Parsed<ExprV>
    decreases rem(t, p), 2int,
{
    if check(t, p, TokenType::LeftParen) {
        let (r, q) = parse_finish_call(t, callee, p + 1);
        match r {
            Err(e) => (Err(e), q),
            Ok(call) => if moved(t, p, q) {
                parse_call_rest(t, call, q)
            } else {
                stalled(q)
            },
        }
    } else if check(t, p, TokenType::DOT) {
        let (r, q) = consume(
            t,
            p + 1,
            TokenType::IDENTIFIER,
            "Expect property name after '.'."@,
        );
        match r {
            Err(e) => (Err(e), q),
            Ok(name) => parse_call_rest(t, ExprV::Get(Box::new(callee), name), q),
        }
    } else {
        (Ok(callee), p)
    }
}

/// The arguments of a call after its `(`, and the closing `)`.
pub open spec fn parse_finish_call(t: Seq<Token>, callee: ExprV, p: int) -> Parsed<ExprV>
    decreases rem(t, p), 21int,
{
    let (r, q) = if !check(t, p, TokenType::RightParen) {
        parse_arguments(t, p, Seq::empty())
    } else {
        (Ok(Seq::empty()), p)
    };
    match r {
        Err(e) => (Err(e), q),
        Ok(args) => {
            let (r2, q2) = consume(t, q, TokenType::RightParen, "Expect ')' after args."@);
            match r2 {
                Err(e) => (Err(e), q2),
                Ok(paren) => (Ok(ExprV::Call(Box::new(callee), paren, args)), q2),
            }
        },
    }
}

pub open spec fn parse_arguments(t: Seq<Token>, p: int, acc: Seq<ExprV>) -> Parsed<Seq<ExprV>>
    decreases rem(t, p), 20int,
{
    if acc.len() > 255 {
        (Err(error_at(t, p, msg_args())), p)
    } else {
        let (r, q) = parse_expression(t, p);
        match r {
            Err(e) => (Err(e), q),
            Ok(arg) => if check(t, q, TokenType::COMMA) {
                if moved(t, p, q) {
                    parse_arguments(t, q + 1, acc.push(arg))
                } else {
                    stalled(q)
                }
            } else {
                (Ok(acc.push(arg)), q)
            },
        }
    }
}

/// `primary := "this" | "super" "." IDENTIFIER | "false" | "true" | "nil"
///           | NUMBER | STRING | "(" expression ")" | IDENTIFIER`
pub open spec fn parse_primary(t: Seq<Token>, p: int) -> Parsed<ExprV>
    decreases rem(t, p), 1int,
{
    if check(t, p, TokenType::THIS) {
        (Ok(ExprV::This(t[p]@)), p + 1)
    } else if check(t, p, TokenType::SUPER) {
        let (r, q) = consume(t, p + 1, TokenType::DOT, "Expect '.' after super."@);
        match r {
            Err(e) => (Err(e), q),
            Ok(_) => {
                let (r2, q2) = consume(
                    t,
                    q,
                    TokenType::IDENTIFIER,
                    "Expect super class method name."@,
                );
                match r2 {
                    Err(e) => (Err(e), q2),
                    Ok(method) => (Ok(ExprV::Super(method, t[p]@)), q2),
                }
            },
        }
    } else if check(t, p, TokenType::FALSE) {
        (Ok(ExprV::Literal(LiteralV::BOOL(false))), p + 1)
    } else if check(t, p, TokenType::TRUE) {
        (Ok(ExprV::Literal(LiteralV::BOOL(true))), p + 1)
    } else if check(t, p, TokenType::NIL) {
        (Ok(ExprV::Literal(LiteralV::NIL)), p + 1)
    } else if check(t, p, TokenType::NUMBER) || check(t, p, TokenType::STRING) {
        (Ok(ExprV::Literal(t[p]@.literal->Some_0)), p + 1)
    } else if check(t, p, TokenType::LeftParen) {
        let (r, q) = parse_expression(t, p + 1);
        match r {
            Err(e) => (Err(e), q),
            Ok(x) => {
                let (r2, q2) = consume(
                    t,
                    q,
                    TokenType::RightParen,
                    "Expect ')' after expression."@,
                );
                match r2 {
                    Err(e) => (Err(e), q2),
                    Ok(_) => (Ok(ExprV::Grouping(Box::new(x))), q2),
                }
            },
        }
    } else if check(t, p, TokenType::IDENTIFIER) {
        (Ok(ExprV::Variable(t[p]@)), p + 1)
    } else {
        (Err(error_at(t, p, "Expect Expression"@)), p)
    }
}


/// A program that parses without error has been read up to its `EOF`.
pub proof fn law_parse_ends_at_eof(t: Seq<Token>, p: int, acc: Seq<StmtV>)
    ensures
        parse_program(t, p, acc).0 is Ok ==> at_end(t, parse_program(t, p, acc).1),
    decreases rem(t, p),
{
    if !at_end(t, p) {
        let (r, q) = parse_declaration(t, p);
        if r is Ok && moved(t, p, q) {
            law_parse_ends_at_eof(t, q, acc.push(r->Ok_0));
        }
    }
}

/// A literal token in primary position is read as the value it stands for,
/// taking that one token: `true` as the boolean true, `false` as the boolean
/// false, `nil` as nil, and a number or a string as the literal value the
/// token carries.
pub proof fn law_primary_literals(t: Seq<Token>, p: int)
    requires
        0 <= p < t.len(),
    ensures
        t[p].token_type == TokenType::TRUE ==> parse_primary(t, p) == (
            Ok::<ExprV, LoxErrorV>(ExprV::Literal(LiteralV::BOOL(true))),
            p + 1,
        ),
        t[p].token_type == TokenType::FALSE ==> parse_primary(t, p) == (
            Ok::<ExprV, LoxErrorV>(ExprV::Literal(LiteralV::BOOL(false))),
            p + 1,
        ),
        t[p].token_type == TokenType::NIL ==> parse_primary(t, p) == (
            Ok::<ExprV, LoxErrorV>(ExprV::Literal(LiteralV::NIL)),
            p + 1,
        ),
        (t[p].token_type == TokenType::NUMBER || t[p].token_type == TokenType::STRING)
            && t[p]@.literal is Some ==> parse_primary(t, p) == (
            Ok::<ExprV, LoxErrorV>(ExprV::Literal(t[p]@.literal->Some_0)),
            p + 1,
        ),
{
}

/// A name in primary position is read as itself, taking that one token:
/// `this` as a `this` expression and an identifier as a variable. A token
/// that can start no expression is an error there, and nothing is taken.
pub proof fn law_primary_names(t: Seq<Token>, p: int)
    requires
        0 <= p < t.len(),
    ensures
        t[p].token_type == TokenType::THIS ==> parse_primary(t, p) == (
            Ok::<ExprV, LoxErrorV>(ExprV::This(t[p]@)),
            p + 1,
        ),
        t[p].token_type == TokenType::IDENTIFIER ==> parse_primary(t, p) == (
            Ok::<ExprV, LoxErrorV>(ExprV::Variable(t[p]@)),
            p + 1,
        ),
        t[p].token_type != TokenType::THIS && t[p].token_type != TokenType::SUPER && t[p].token_type
            != TokenType::FALSE && t[p].token_type != TokenType::TRUE && t[p].token_type != TokenType::NIL
            && t[p].token_type != TokenType::NUMBER && t[p].token_type != TokenType::STRING
            && t[p].token_type != TokenType::LeftParen && t[p].token_type != TokenType::IDENTIFIER
            ==> parse_primary(t, p) == (
            Err::<ExprV, LoxErrorV>(error_at(t, p, "Expect Expression"@)),
            p,
        ),
{
}

} // verus!
