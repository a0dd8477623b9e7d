//! Syntactic analysis: recursive descent with one token of lookahead over a
//! token stream, yielding a program tree or a structured syntax error. The
//! grammar:
//!
//! ```text
//! Program   := Function*                      (until the stream is exhausted)
//! Function  := Symbol Symbol '(' ')' Block    (return type name, then function name)
//! Block     := '{' Statement* '}'
//! Statement := "return" Expr ';'
//! Expr      := NumericLiteral
//! ```

use crate::ast;
use crate::keyword::Keyword;
use crate::keyword::is_keyword_text;
use crate::stream::Stream;
use crate::tokenizer::Token;
use crate::tokenizer::TokenV;
use vstd::prelude::*;

verus! {

broadcast use crate::stream::lemma_stream_deep_elems, crate::stream::lemma_stream_pos_nonneg;

/// A syntax fault, carrying a human-readable reason.
#[derive(Debug)]
pub struct ParseError {
    pub reason: String,
}

impl PartialEq for ParseError {
    fn eq(&self, other: &ParseError) -> (r: bool) {
        self.reason.eq(&other.reason)
    }
}

impl vstd::std_specs::cmp::PartialEqSpecImpl for ParseError {
    open spec fn obeys_eq_spec() -> bool {
        true
    }

    open spec fn eq_spec(&self, other: &ParseError) -> bool {
        self.reason@ == other.reason@
    }
}

/// What one grammar rule yields at a position: a parsed node and the position
/// just past it, or the reason of the first syntax fault.
#[verifier::ext_equal]
pub enum ParsedV<A> {
    Parsed { node: A, next: int },
    Fault { reason: Seq<char> },
}

/// How a token is named in an error reason.
pub open spec fn token_desc_v(t: TokenV) -> Seq<char> {
    match t {
        TokenV::OpenPar => "OpenPar"@,
        TokenV::ClosePar => "ClosePar"@,
        TokenV::OpenCur => "OpenCur"@,
        TokenV::CloseCur => "CloseCur"@,
        TokenV::Semi => "Semi"@,
        TokenV::Symbol(s) => "Symbol(\""@ + s + "\")"@,
        TokenV::NumLiteral(s) => "NumLiteral(\""@ + s + "\")"@,
    }
}

/// The reason reported when one exact token was required and another stood
/// in its place.
pub open spec fn expected_reason(exp: TokenV, got: TokenV) -> Seq<char> {
    "expected token: "@ + token_desc_v(exp) + ". actual: "@ + token_desc_v(got)
}

/// Expr := NumericLiteral
pub open spec fn parse_expr_at(ts: Seq<TokenV>, i: int) -> ParsedV<ast::ExprV> {
    if i >= ts.len() {
        ParsedV::Fault { reason: "premature end"@ }
    } else {
        match ts[i] {
            TokenV::NumLiteral(s) => ParsedV::Parsed {
                node: ast::ExprV::NumLiteral(s),
                next: i + 1,
            },
            _ => ParsedV::Fault { reason: "parse_expr: Expect NumLiteral"@ },
        }
    }
}

/// Statement := "return" Expr ';'
pub open spec fn parse_statement_at(ts: Seq<TokenV>, i: int) -> ParsedV<ast::StatementV> {
    if i >= ts.len() {
        ParsedV::Fault { reason: "premature end"@ }
    } else if ts[i] != TokenV::Symbol("return"@) {
        ParsedV::Fault { reason: expected_reason(TokenV::Symbol("return"@), ts[i]) }
    } else {
        match parse_expr_at(ts, i + 1) {
            ParsedV::Parsed { node: e, next: j } => {
                if j >= ts.len() {
                    ParsedV::Fault { reason: "premature end"@ }
                } else if ts[j] != TokenV::Semi {
                    ParsedV::Fault { reason: expected_reason(TokenV::Semi, ts[j]) }
                } else {
                    ParsedV::Parsed { node: ast::StatementV::Return(e), next: j + 1 }
                }
            },
            ParsedV::Fault { reason } => ParsedV::Fault { reason },
        }
    }
}

pub proof fn lemma_parse_statement_at_bounds(ts: Seq<TokenV>, i: int)
    requires
        0 <= i <= ts.len(),
    ensures
        parse_statement_at(ts, i) matches ParsedV::Parsed { node, next } ==> i < next <= ts.len(),
{
}

/// The statement list of a block: statements until the closing brace, which
/// is left in place.
pub open spec fn parse_stmts_at(ts: Seq<TokenV>, i: int) -> ParsedV<Seq<ast::StatementV>>
    decreases ts.len() - i,
    when 0 <= i
{
    if i >= ts.len() {
        ParsedV::Fault { reason: "Premature end"@ }
    } else if ts[i] == TokenV::CloseCur {
        ParsedV::Parsed { node: Seq::empty(), next: i }
    } else {
        match parse_statement_at(ts, i) {
            ParsedV::Parsed { node: st, next: j } => {
                proof {
                    lemma_parse_statement_at_bounds(ts, i);
                }
                match parse_stmts_at(ts, j) {
                    ParsedV::Parsed { node: sts, next: k } => ParsedV::Parsed {
                        node: seq![st] + sts,
                        next: k,
                    },
                    ParsedV::Fault { reason } => ParsedV::Fault { reason },
                }
            },
            ParsedV::Fault { reason } => ParsedV::Fault { reason },
        }
    }
}

pub proof fn lemma_parse_stmts_at_bounds(ts: Seq<TokenV>, i: int)
    requires
        0 <= i <= ts.len(),
    ensures
        parse_stmts_at(ts, i) matches ParsedV::Parsed { node, next } ==> i <= next <= ts.len(),
    decreases ts.len() - i,
{
    if i < ts.len() && ts[i] != TokenV::CloseCur {
        match parse_statement_at(ts, i) {
            ParsedV::Parsed { node, next } => {
                lemma_parse_statement_at_bounds(ts, i);
                lemma_parse_stmts_at_bounds(ts, next);
            },
            ParsedV::Fault { .. } => {},
        }
    }
}

/// Block := '{' Statement* '}'
pub open spec fn parse_block_at(ts: Seq<TokenV>, i: int) -> ParsedV<ast::BlockV> {
    if i >= ts.len() {
        ParsedV::Fault { reason: "premature end"@ }
    } else if ts[i] != TokenV::OpenCur {
        ParsedV::Fault { reason: expected_reason(TokenV::OpenCur, ts[i]) }
    } else {
        match parse_stmts_at(ts, i + 1) {
            ParsedV::Parsed { node: sts, next: j } => {
                if j >= ts.len() {
                    ParsedV::Fault { reason: "premature end"@ }
                } else if ts[j] != TokenV::CloseCur {
                    ParsedV::Fault { reason: expected_reason(TokenV::CloseCur, ts[j]) }
                } else {
                    ParsedV::Parsed { node: ast::BlockV { statements: sts }, next: j + 1 }
                }
            },
            ParsedV::Fault { reason } => ParsedV::Fault { reason },
        }
    }
}

/// Function := Symbol Symbol '(' ')' Block, where neither symbol may be a
/// keyword.
pub open spec fn parse_function_at(ts: Seq<TokenV>, i: int) -> ParsedV<ast::FunctionV> {
    if i >= ts.len() {
        ParsedV::Fault { reason: "premature end"@ }
    } else if !(ts[i] matches TokenV::Symbol(t) && !is_keyword_text(t)) {
        ParsedV::Fault { reason: "invalid return typename type"@ }
    } else if i + 1 >= ts.len() {
        ParsedV::Fault { reason: "premature end"@ }
    } else if !(ts[i + 1] matches TokenV::Symbol(n) && !is_keyword_text(n)) {
        ParsedV::Fault { reason: "invalid function name type"@ }
    } else if i + 2 >= ts.len() {
        ParsedV::Fault { reason: "premature end"@ }
    } else if ts[i + 2] != TokenV::OpenPar {
        ParsedV::Fault { reason: expected_reason(TokenV::OpenPar, ts[i + 2]) }
    } else if i + 3 >= ts.len() {
        ParsedV::Fault { reason: "premature end"@ }
    } else if ts[i + 3] != TokenV::ClosePar {
        ParsedV::Fault { reason: expected_reason(TokenV::ClosePar, ts[i + 3]) }
    } else {
        match parse_block_at(ts, i + 4) {
            ParsedV::Parsed { node: b, next: j } => ParsedV::Parsed {
                node: ast::FunctionV {
                    return_type: ast::TypeV { name: ts[i]->Symbol_0 },
                    name: ts[i + 1]->Symbol_0,
                    parameters: Seq::empty(),
                    block: b,
                },
                next: j,
            },
            ParsedV::Fault { reason } => ParsedV::Fault { reason },
        }
    }
}

pub proof fn lemma_parse_function_at_bounds(ts: Seq<TokenV>, i: int)
    requires
        0 <= i <= ts.len(),
    ensures
        parse_function_at(ts, i) matches ParsedV::Parsed { node, next } ==> i < next <= ts.len(),
{
    if i + 4 < ts.len() {
        lemma_parse_stmts_at_bounds(ts, i + 5);
    }
}

/// The function list of a program: functions until the stream is exhausted.
pub open spec fn parse_funcs_at(ts: Seq<TokenV>, i: int) -> ParsedV<Seq<ast::FunctionV>>
    decreases ts.len() - i,
    when 0 <= i
{
    if i >= ts.len() {
        ParsedV::Parsed { node: Seq::empty(), next: i }
    } else {
        match parse_function_at(ts, i) {
            ParsedV::Parsed { node: f, next: j } => {
                proof {
                    lemma_parse_function_at_bounds(ts, i);
                }
                match parse_funcs_at(ts, j) {
                    ParsedV::Parsed { node: fs, next: k } => ParsedV::Parsed {
                        node: seq![f] + fs,
                        next: k,
                    },
                    ParsedV::Fault { reason } => ParsedV::Fault { reason },
                }
            },
            ParsedV::Fault { reason } => ParsedV::Fault { reason },
        }
    }
}

/// Program := Function*
pub open spec fn parse_program_at(ts: Seq<TokenV>, i: int) -> ParsedV<ast::ProgramV> {
    match parse_funcs_at(ts, i) {
        ParsedV::Parsed { node: fs, next: j } => ParsedV::Parsed {
            node: ast::ProgramV { functions: fs },
            next: j,
        },
        ParsedV::Fault { reason } => ParsedV::Fault { reason },
    }
}

/// How a token is named in an error reason.
fn token_desc(t: &Token) -> (r: String)
    ensures
        r@ == token_desc_v(t@),
{
    match t {
        Token::OpenPar => String::from_str("OpenPar"),
        Token::ClosePar => String::from_str("ClosePar"),
        Token::OpenCur => String::from_str("OpenCur"),
        Token::CloseCur => String::from_str("CloseCur"),
        Token::Semi => String::from_str("Semi"),
        Token::Symbol(s) => {
            let mut r = String::from_str("Symbol(\"");
            r.append(s.as_str());
            r.append("\")");
            r
        },
        Token::NumLiteral(s) => {
            let mut r = String::from_str("NumLiteral(\"");
            r.append(s.as_str());
            r.append("\")");
            r
        },
    }
}

fn premature_end_error() -> (e: ParseError)
    ensures
        e.reason@ == "premature end"@,
{
    ParseError { reason: String::from_str("premature end") }
}

/// Takes the next token, or reports a premature end of input. Either way
/// the cursor advances by exactly one: it goes through the stream's
/// unconditionally-advancing `next`.
fn expect_next(token_stream: &mut Stream<Token>) -> (r: Result<Token, ParseError>)
    requires
        old(token_stream).spec_pos() < usize::MAX,
    ensures
        final(token_stream).elems() == old(token_stream).elems(),
        final(token_stream).spec_pos() == old(token_stream).spec_pos() + 1,
        match r {
            Ok(t) => !old(token_stream).spec_is_exhausted() && t@ == old(
                token_stream,
            ).deep_elems()[old(token_stream).spec_pos()],
            Err(e) => old(token_stream).spec_is_exhausted() && e.reason@ == "premature end"@,
        },
{
    match token_stream.next() {
        Some(t) => Ok(t),
        None => Err(premature_end_error()),
    }
}

/// Takes the next token and demands that it equal `exp`, reporting either a
/// premature end or the mismatching token.
fn expect_next_eql(token_stream: &mut Stream<Token>, exp: Token) -> (r: Result<(), ParseError>)
    requires
        old(token_stream).spec_pos() < usize::MAX,
    ensures
        final(token_stream).elems() == old(token_stream).elems(),
        final(token_stream).spec_pos() == old(token_stream).spec_pos() + 1,
        match r {
            Ok(()) => !old(token_stream).spec_is_exhausted() && old(token_stream).deep_elems()[old(
                token_stream,
            ).spec_pos()] == exp@,
            Err(e) => {
                let ts = old(token_stream).deep_elems();
                let i = old(token_stream).spec_pos();
                if old(token_stream).spec_is_exhausted() {
                    e.reason@ == "premature end"@
                } else {
                    ts[i] != exp@ && e.reason@ == expected_reason(exp@, ts[i])
                }
            },
        },
{
    let tok = match expect_next(token_stream) {
        Ok(t) => t,
        Err(e) => {
            return Err(e);
        },
    };
    if tok != exp {
        let mut reason = String::from_str("expected token: ");
        reason.append(token_desc(&exp).as_str());
        reason.append(". actual: ");
        reason.append(token_desc(&tok).as_str());
        Err(ParseError { reason })
    } else {
        Ok(())
    }
}

/// Parses one expression: a numeric literal.
pub fn parse_expr(token_stream: &mut Stream<Token>) -> (r: Result<ast::Expr, ParseError>)
    requires
        old(token_stream).spec_pos() < usize::MAX,
    ensures
        final(token_stream).elems() == old(token_stream).elems(),
        final(token_stream).spec_pos() == old(token_stream).spec_pos() + 1,
        match r {
            Ok(e) => parse_expr_at(old(token_stream).deep_elems(), old(token_stream).spec_pos())
                == (ParsedV::Parsed { node: e.deep_view(), next: final(token_stream).spec_pos() }),
            Err(pe) => parse_expr_at(old(token_stream).deep_elems(), old(token_stream).spec_pos())
                == (ParsedV::Fault::<ast::ExprV> { reason: pe.reason@ }),
        },
{
    let tok = match expect_next(token_stream) {
        Ok(t) => t,
        Err(e) => {
            return Err(e);
        },
    };
    match tok {
        Token::NumLiteral(s) => Ok(ast::Expr::NumLiteral(s)),
        _ => Err(ParseError { reason: String::from_str("parse_expr: Expect NumLiteral") }),
    }
}

/// Parses one statement: `return`, an expression, and a semicolon.
pub fn parse_statement(token_stream: &mut Stream<Token>) -> (r: Result<
    ast::Statement,
    ParseError,
>)
    requires
        old(token_stream).spec_pos() < usize::MAX,
        old(token_stream).elems().len() < usize::MAX,
    ensures
        final(token_stream).elems() == old(token_stream).elems(),
        match r {
            Ok(st) => parse_statement_at(
                old(token_stream).deep_elems(),
                old(token_stream).spec_pos(),
            ) == (ParsedV::Parsed { node: st.deep_view(), next: final(token_stream).spec_pos() }),
            Err(pe) => parse_statement_at(
                old(token_stream).deep_elems(),
                old(token_stream).spec_pos(),
            ) == (ParsedV::Fault::<ast::StatementV> { reason: pe.reason@ }),
        },
{
    match expect_next_eql(token_stream, Token::Symbol(String::from_str("return"))) {
        Ok(()) => {},
        Err(e) => {
            return Err(e);
        },
    }
    let expr = match parse_expr(token_stream) {
        Ok(e) => e,
        Err(e) => {
            return Err(e);
        },
    };
    match expect_next_eql(token_stream, Token::Semi) {
        Ok(()) => {},
        Err(e) => {
            return Err(e);
        },
    }
    Ok(ast::Statement::Return(Box::new(expr)))
}

/// Parses one block: an opening brace, statements until the closing brace,
/// and the closing brace itself.
pub fn parse_block(token_stream: &mut Stream<Token>) -> (r: Result<ast::Block, ParseError>)
    requires
        old(token_stream).spec_pos() < usize::MAX,
        old(token_stream).elems().len() < usize::MAX,
    ensures
        final(token_stream).elems() == old(token_stream).elems(),
        match r {
            Ok(b) => parse_block_at(old(token_stream).deep_elems(), old(token_stream).spec_pos())
                == (ParsedV::Parsed { node: b.deep_view(), next: final(token_stream).spec_pos() }),
            Err(pe) => parse_block_at(old(token_stream).deep_elems(), old(token_stream).spec_pos())
                == (ParsedV::Fault::<ast::BlockV> { reason: pe.reason@ }),
        },
{
    let ghost ts = token_stream.deep_elems();
    let ghost i0 = token_stream.spec_pos();
    let ghost elems0 = token_stream.elems();
    match expect_next_eql(token_stream, Token::OpenCur) {
        Ok(()) => {},
        Err(e) => {
            return Err(e);
        },
    }
    let ghost start = token_stream.spec_pos();
    let mut statements: Vec<ast::Statement> = Vec::new();
    proof {
        assert(statements.deep_view() =~= Seq::<ast::StatementV>::empty());
        match parse_stmts_at(ts, start) {
            ParsedV::Parsed { node, next } => {
                assert(statements.deep_view() + node =~= node);
            },
            ParsedV::Fault { .. } => {},
        }
    }
    loop
        invariant
            elems0 == old(token_stream).elems(),
            ts == old(token_stream).deep_elems(),
            i0 == old(token_stream).spec_pos(),
            0 <= i0 < elems0.len(),
            ts[i0] == TokenV::OpenCur,
            start == i0 + 1,
            token_stream.elems() == elems0,
            ts == token_stream.deep_elems(),
            start <= token_stream.spec_pos() <= elems0.len(),
            elems0.len() < usize::MAX,
            parse_stmts_at(ts, start) == (match parse_stmts_at(ts, token_stream.spec_pos()) {
                ParsedV::Parsed { node: sts, next: k } => ParsedV::Parsed::<Seq<ast::StatementV>> {
                    node: statements.deep_view() + sts,
                    next: k,
                },
                ParsedV::Fault { reason } => ParsedV::Fault::<Seq<ast::StatementV>> { reason },
            }),
        ensures
            token_stream.elems() == elems0,
            ts == token_stream.deep_elems(),
            start <= token_stream.spec_pos() < elems0.len(),
            ts[token_stream.spec_pos()] == TokenV::CloseCur,
            parse_stmts_at(ts, start) == (ParsedV::Parsed::<Seq<ast::StatementV>> {
                node: statements.deep_view(),
                next: token_stream.spec_pos(),
            }),
        decreases elems0.len() - token_stream.spec_pos(),
    {
        let ghost pos0 = token_stream.spec_pos();
        let ghost stmts0 = statements.deep_view();
        let tok = match token_stream.peek() {
            Some(t) => t,
            None => {
                return Err(ParseError { reason: String::from_str("Premature end") });
            },
        };
        match tok {
            Token::CloseCur => {
                proof {
                    assert(ts[pos0] == TokenV::CloseCur);
                    assert(stmts0 + Seq::<ast::StatementV>::empty() =~= stmts0);
                }
                break;
            },
            _ => {
                proof {
                    assert(ts[pos0] != TokenV::CloseCur);
                }
                let stmt = match parse_statement(token_stream) {
                    Ok(s) => s,
                    Err(e) => {
                        return Err(e);
                    },
                };
                statements.push(stmt);
                proof {
                    lemma_parse_statement_at_bounds(ts, pos0);
                    assert(statements.deep_view() =~= stmts0.push(stmt.deep_view()));
                    match parse_stmts_at(ts, token_stream.spec_pos()) {
                        ParsedV::Parsed { node: sts, next: k } => {
                            assert(stmts0 + (seq![stmt.deep_view()] + sts) =~= statements.deep_view() + sts);
                        },
                        ParsedV::Fault { .. } => {},
                    }
                }
            },
        }
    }
    match expect_next_eql(token_stream, Token::CloseCur) {
        Ok(()) => {},
        Err(e) => {
            return Err(e);
        },
    }
    Ok(ast::Block { statements })
}

/// Parses one function: a non-keyword return-type name, a non-keyword
/// function name, an empty parameter list, and a block.
pub fn parse_function(token_stream: &mut Stream<Token>) -> (r: Result<ast::Function, ParseError>)
    requires
        old(token_stream).spec_pos() < usize::MAX,
        old(token_stream).elems().len() < usize::MAX,
    ensures
        final(token_stream).elems() == old(token_stream).elems(),
        match r {
            Ok(f) => parse_function_at(
                old(token_stream).deep_elems(),
                old(token_stream).spec_pos(),
            ) == (ParsedV::Parsed { node: f.deep_view(), next: final(token_stream).spec_pos() }),
            Err(pe) => parse_function_at(
                old(token_stream).deep_elems(),
                old(token_stream).spec_pos(),
            ) == (ParsedV::Fault::<ast::FunctionV> { reason: pe.reason@ }),
        },
{
    let ghost ts = token_stream.deep_elems();
    let ghost i0 = token_stream.spec_pos();
    let tok = match expect_next(token_stream) {
        Ok(t) => t,
        Err(e) => {
            return Err(e);
        },
    };
    let return_typename = match tok.get_ident_string() {
        Some(name) => {
            match Keyword::from_str(name.as_str()) {
                Some(_) => {
                    return Err(
                        ParseError { reason: String::from_str("invalid return typename type") },
                    );
                },
                None => name,
            }
        },
        None => {
            return Err(ParseError { reason: String::from_str("invalid return typename type") });
        },
    };
    let tok = match expect_next(token_stream) {
        Ok(t) => t,
        Err(e) => {
            return Err(e);
        },
    };
    let function_name = match tok.get_ident_string() {
        Some(name) => {
            match Keyword::from_str(name.as_str()) {
                Some(_) => {
                    return Err(ParseError { reason: String::from_str("invalid function name type") });
                },
                None => name,
            }
        },
        None => {
            return Err(ParseError { reason: String::from_str("invalid function name type") });
        },
    };
    match expect_next_eql(token_stream, Token::OpenPar) {
        Ok(()) => {},
        Err(e) => {
            return Err(e);
        },
    }
    match expect_next_eql(token_stream, Token::ClosePar) {
        Ok(()) => {},
        Err(e) => {
            return Err(e);
        },
    }
    let block = match parse_block(token_stream) {
        Ok(b) => b,
        Err(e) => {
            return Err(e);
        },
    };
    let f = ast::Function {
        return_type: ast::Type { name: return_typename },
        name: function_name,
        parameters: Vec::new(),
        block,
    };
    proof {
        assert(parse_function_at(ts, i0) =~= (ParsedV::Parsed::<ast::FunctionV> {
            node: f.deep_view(),
            next: token_stream.spec_pos(),
        }));
    }
    Ok(f)
}

/// Parses a whole program: functions until the token stream is exhausted.
pub fn parse_program(token_stream: &mut Stream<Token>) -> (r: Result<ast::Program, ParseError>)
    requires
        old(token_stream).elems().len() < usize::MAX,
    ensures
        final(token_stream).elems() == old(token_stream).elems(),
        match r {
            Ok(p) => parse_program_at(
                old(token_stream).deep_elems(),
                old(token_stream).spec_pos(),
            ) == (ParsedV::Parsed { node: p.deep_view(), next: final(token_stream).spec_pos() })
                && final(token_stream).spec_is_exhausted(),
            Err(pe) => parse_program_at(
                old(token_stream).deep_elems(),
                old(token_stream).spec_pos(),
            ) == (ParsedV::Fault::<ast::ProgramV> { reason: pe.reason@ }),
        },
{
    let ghost ts = token_stream.deep_elems();
    let ghost i0 = token_stream.spec_pos();
    let ghost elems0 = token_stream.elems();
    let mut functions: Vec<ast::Function> = Vec::new();
    proof {
        assert(functions.deep_view() =~= Seq::<ast::FunctionV>::empty());
        match parse_funcs_at(ts, i0) {
            ParsedV::Parsed { node, next } => {
                assert(functions.deep_view() + node =~= node);
            },
            ParsedV::Fault { .. } => {},
        }
    }
    while !token_stream.is_exhausted()
        invariant
            elems0 == old(token_stream).elems(),
            ts == old(token_stream).deep_elems(),
            i0 == old(token_stream).spec_pos(),
            0 <= i0,
            token_stream.elems() == elems0,
            ts == token_stream.deep_elems(),
            i0 <= token_stream.spec_pos(),
            token_stream.spec_pos() <= elems0.len() || token_stream.spec_pos() == i0,
            elems0.len() < usize::MAX,
            parse_funcs_at(ts, i0) == (match parse_funcs_at(ts, token_stream.spec_pos()) {
                ParsedV::Parsed { node: fs, next: k } => ParsedV::Parsed::<Seq<ast::FunctionV>> {
                    node: functions.deep_view() + fs,
                    next: k,
                },
                ParsedV::Fault { reason } => ParsedV::Fault::<Seq<ast::FunctionV>> { reason },
            }),
        decreases elems0.len() - token_stream.spec_pos(),
    {
        let ghost pos0 = token_stream.spec_pos();
        let ghost funcs0 = functions.deep_view();
        let f = match parse_function(token_stream) {
            Ok(f) => f,
            Err(e) => {
                return Err(e);
            },
        };
        functions.push(f);
        proof {
            lemma_parse_function_at_bounds(ts, pos0);
            assert(functions.deep_view() =~= funcs0.push(f.deep_view()));
            match parse_funcs_at(ts, token_stream.spec_pos()) {
                ParsedV::Parsed { node: fs, next: k } => {
                    assert(funcs0 + (seq![f.deep_view()] + fs) =~= functions.deep_view() + fs);
                },
                ParsedV::Fault { .. } => {},
            }
        }
    }
    proof {
        assert(functions.deep_view() + Seq::<ast::FunctionV>::empty() =~= functions.deep_view());
    }
    Ok(ast::Program { functions })
}

/// Law: every function of a parsed program carries an empty parameter list;
/// the grammar has no parameter-list rule.
pub proof fn lemma_parse_funcs_at_no_parameters(ts: Seq<TokenV>, i: int)
    requires
        0 <= i,
    ensures
        parse_funcs_at(ts, i) matches ParsedV::Parsed { node, next } ==> forall|k: int|
            0 <= k < node.len() ==> (#[trigger] node[k]).parameters.len() == 0,
    decreases ts.len() - i,
{
    if i < ts.len() {
        match parse_function_at(ts, i) {
            ParsedV::Parsed { node: f, next: j } => {
                lemma_parse_function_at_bounds(ts, i);
                lemma_parse_funcs_at_no_parameters(ts, j);
                match parse_funcs_at(ts, j) {
                    ParsedV::Parsed { node: fs, next: k } => {
                        assert(forall|m: int|
                            0 <= m < (seq![f] + fs).len() ==> (#[trigger] (seq![f] + fs)[m])
                                .parameters.len() == 0) by {
                            assert(f.parameters.len() == 0);
                            assert(forall|m: int|
                                1 <= m < (seq![f] + fs).len() ==> (seq![f] + fs)[m] == fs[m - 1]);
                        }
                    },
                    ParsedV::Fault { .. } => {},
                }
            },
            ParsedV::Fault { .. } => {},
        }
    }
}

} // verus!
