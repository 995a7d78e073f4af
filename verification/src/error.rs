use vstd::prelude::*;
use vstd::string::StringExecFns;

use crate::lexer::push_char;

verus! {

/// The errors that the front end of the interpreter reports: each of the
/// first four carries the lexeme at which it arose, its line and a message.
/// `Break` and `Continue` carry the line of a loop-control statement that
/// unwound the resolver.
#[derive(Debug)]
pub enum LoxError {
    ScannerError(String, u32, String),
    ParserError(String, u32, String),
    RuntimeError(String, u32, String),
    SemanticError(String, u32, String),
    Break(u32),
    Continue(u32),
}

/// The mathematical value of a `LoxError`, with every string taken as its
/// sequence of characters.
pub enum LoxErrorV {
    ScannerError(Seq<char>, u32, Seq<char>),
    ParserError(Seq<char>, u32, Seq<char>),
    RuntimeError(Seq<char>, u32, Seq<char>),
    SemanticError(Seq<char>, u32, Seq<char>),
    Break(u32),
    Continue(u32),
}

impl View for LoxError {
    type V = LoxErrorV;

    open spec fn view(&self) -> LoxErrorV {
        match self {
            LoxError::ScannerError(a, l, m) => LoxErrorV::ScannerError(a@, *l, m@),
            LoxError::ParserError(a, l, m) => LoxErrorV::ParserError(a@, *l, m@),
            LoxError::RuntimeError(a, l, m) => LoxErrorV::RuntimeError(a@, *l, m@),
            LoxError::SemanticError(a, l, m) => LoxErrorV::SemanticError(a@, *l, m@),
            LoxError::Break(l) => LoxErrorV::Break(*l),
            LoxError::Continue(l) => LoxErrorV::Continue(*l),
        }
    }
}

/// A result whose error is taken by its view; the value is kept as it is.
pub open spec fn result_view<T>(r: Result<T, LoxError>) -> Result<T, LoxErrorV> {
    match r {
        Ok(v) => Ok(v),
        Err(e) => Err(e@),
    }
}

/// The decimal digit `d` as a character.
pub open spec fn digit_char(d: nat) -> char {
    (('0' as nat) + d) as char
}

/// The decimal numeral of `n`, without leading zeros.
pub open spec fn decimal(n: nat) -> Seq<char>
    decreases n,
{
    if n < 10 {
        seq![digit_char(n)]
    } else {
        decimal(n / 10).push(digit_char(n % 10))
    }
}

/// The text by which an error is reported.
pub open spec fn error_text(e: LoxErrorV) -> Seq<char> {
    match e {
        LoxErrorV::ScannerError(lit, line, msg) => "[ScannerError:L"@ + decimal(line as nat) + ":"@ + lit + "] "@ + msg,
        LoxErrorV::ParserError(lit, line, msg) => "[ParserError:L"@ + decimal(line as nat) + ":"@ + lit + "] "@ + msg,
        LoxErrorV::RuntimeError(lit, line, msg) => "[RuntimeError:L"@ + decimal(line as nat) + ":"@ + lit + "] "@ + msg,
        LoxErrorV::SemanticError(lit, line, msg) => "[SemanticError:L"@ + decimal(line as nat) + ":"@ + lit + "] "@ + msg,
        LoxErrorV::Break(line) => "[Improper break:L"@ + decimal(line as nat) + "] "@
            + "break statements allowed only inside loops."@,
        LoxErrorV::Continue(line) => "[Improper continue:L"@ + decimal(line as nat) + "] "@
            + "continue statements allowed only inside loops."@,
    }
}

fn digit(d: u32) -> (r: char)
    requires
        d < 10,
    ensures
        r == digit_char(d as nat),
{
    match d {
        0 => '0',
        1 => '1',
        2 => '2',
        3 => '3',
        4 => '4',
        5 => '5',
        6 => '6',
        7 => '7',
        8 => '8',
        _ => '9',
    }
}

/// Appends the decimal numeral of `n`.
fn push_decimal(s: &mut String, n: u32)
    ensures
        final(s)@ == old(s)@ + decimal(n as nat),
    decreases n,
{
    if n < 10 {
        push_char(s, digit(n));
        assert(old(s)@.push(digit_char(n as nat)) =~= old(s)@ + decimal(n as nat));
    } else {
        push_decimal(s, n / 10);
        push_char(s, digit(n % 10));
        assert((old(s)@ + decimal((n / 10) as nat)).push(digit_char((n % 10) as nat)) =~= old(s)@ + decimal(n as nat));
    }
}

fn labelled(head: &str, line: u32, mid: &str, lit: &String, tail: &str, msg: &String) -> (r: String)
    ensures
        r@ == head@ + decimal(line as nat) + mid@ + lit@ + tail@ + msg@,
{
    let mut s = String::from_str(head);
    push_decimal(&mut s, line);
    s.append(mid);
    s.append(lit.as_str());
    s.append(tail);
    s.append(msg.as_str());
    s
}

impl LoxError {
    /// The text by which the error is reported.
    pub fn to_text(&self) -> (r: String)
        ensures
            r@ == error_text(self@),
    {
        let empty = String::new();
        match self {
            LoxError::ScannerError(lit, line, msg) => labelled("[ScannerError:L", *line, ":", lit, "] ", msg),
            LoxError::ParserError(lit, line, msg) => labelled("[ParserError:L", *line, ":", lit, "] ", msg),
            LoxError::RuntimeError(lit, line, msg) => labelled("[RuntimeError:L", *line, ":", lit, "] ", msg),
            LoxError::SemanticError(lit, line, msg) => labelled("[SemanticError:L", *line, ":", lit, "] ", msg),
            LoxError::Break(line) => {
                let m = String::from_str("break statements allowed only inside loops.");
                let r = labelled("[Improper break:L", *line, "", &empty, "] ", &m);
                proof {
                    reveal_strlit("");
                    assert(r@ =~= error_text(self@));
                }
                r
            },
            LoxError::Continue(line) => {
                let m = String::from_str("continue statements allowed only inside loops.");
                let r = labelled("[Improper continue:L", *line, "", &empty, "] ", &m);
                proof {
                    reveal_strlit("");
                    assert(r@ =~= error_text(self@));
                }
                r
            },
        }
    }
}

} // verus!
