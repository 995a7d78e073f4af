use vstd::prelude::*;

use crate::ast::{ClassType, FunctionType, Stmt, StmtV, stmts_v};
use crate::error::{LoxError, LoxErrorV};
use crate::lexer::{Lexer, law_scanned_script_is_parseable, line_count, scan_script, token_views};
use crate::parser::Parser;
use crate::parser::grammar::parse_program;
use crate::resolver::Resolver;
use crate::resolver::rules::{ResolverV, res_stmts};
use crate::token::Token;

verus! {

/// A resolver that has not started.
pub open spec fn fresh_resolver() -> ResolverV {
    ResolverV { scopes: Seq::empty(), class: ClassType::NONE, function: FunctionType::NONE }
}

/// What the front end makes of the tokens of a script: the program they
/// parse to, resolved; or the first error of the parser, then of the
/// resolver.
pub open spec fn analysis(tokens: Seq<Token>) -> Result<Seq<StmtV>, LoxErrorV> {
    match parse_program(tokens, 0, Seq::empty()).0 {
        Err(e) => Err(e),
        Ok(program) => {
            let (_, r, resolved) = res_stmts(fresh_resolver(), program, 0);
            match r {
                Err(e) => Err(e),
                Ok(_) => Ok(resolved),
            }
        },
    }
}

pub open spec fn program_view(r: Result<Vec<Stmt>, LoxError>) -> Result<Seq<StmtV>, LoxErrorV> {
    match r {
        Ok(v) => Ok(stmts_v(v@)),
        Err(e) => Err(e@),
    }
}

/// The front end of a run of a script: its tokens (its first line being
/// line 1), the program they parse to, and that program resolved, ready to
/// be evaluated.
pub fn analyse(script: &String) -> (r: Result<Vec<Stmt>, LoxError>)
    requires
        1 + line_count(script@, 0) <= u32::MAX,
    ensures
        exists|tokens: Seq<Token>|
            token_views(tokens) == scan_script(script@, 1) && #[trigger] analysis(tokens) == program_view(r),
{
    let mut lexer = Lexer::new();
    let tokens = match lexer.parse(script) {
        Ok(t) => t,
        Err(e) => return Err(e),
    };
    let ghost tv = tokens@;
    proof {
        law_scanned_script_is_parseable(tv, script@, 1);
    }
    let mut parser = Parser::new(tokens);
    let mut program = match parser.parse() {
        Ok(p) => p,
        Err(e) => {
            assert(analysis(tv) == program_view(Err::<Vec<Stmt>, LoxError>(e)));
            return Err(e);
        },
    };
    let mut resolver = Resolver::new();
    let r = resolver.resolve(&mut program);
    match r {
        Ok(()) => {
            assert(analysis(tv) == program_view(Ok::<Vec<Stmt>, LoxError>(program)));
            Ok(program)
        },
        Err(e) => {
            assert(analysis(tv) == program_view(Err::<Vec<Stmt>, LoxError>(e)));
            Err(e)
        },
    }
}

} // verus!
