//! Code generation: a pure pre-order walk of the syntax tree that appends
//! tokens to a shared accumulator, and serialization of a token sequence
//! into dense, C-like text with minimal separating whitespace.

use crate::ast;
use crate::tokenizer::Token;
use crate::tokenizer::TokenV;
use vstd::prelude::*;

verus! {

/// The tokens a type name generates: a single symbol.
pub open spec fn type_tokens(t: ast::TypeV) -> Seq<TokenV> {
    seq![TokenV::Symbol(t.name)]
}

/// The tokens an expression generates: a single numeric literal.
pub open spec fn expr_tokens(e: ast::ExprV) -> Seq<TokenV> {
    match e {
        ast::ExprV::NumLiteral(s) => seq![TokenV::NumLiteral(s)],
    }
}

/// The tokens a statement generates: `return`, the expression, a semicolon.
pub open spec fn statement_tokens(st: ast::StatementV) -> Seq<TokenV> {
    match st {
        ast::StatementV::Return(e) => seq![TokenV::Symbol("return"@)] + expr_tokens(e) + seq![
            TokenV::Semi,
        ],
    }
}

/// The tokens of a statement sequence, in order.
pub open spec fn statements_tokens(sts: Seq<ast::StatementV>) -> Seq<TokenV>
    decreases sts.len(),
{
    if sts.len() == 0 {
        Seq::empty()
    } else {
        statement_tokens(sts[0]) + statements_tokens(sts.drop_first())
    }
}

/// The tokens a block generates: braces around its statements.
pub open spec fn block_tokens(b: ast::BlockV) -> Seq<TokenV> {
    seq![TokenV::OpenCur] + statements_tokens(b.statements) + seq![TokenV::CloseCur]
}

/// The tokens a function generates: return type, name, an empty parameter
/// list, and the block.
pub open spec fn function_tokens(f: ast::FunctionV) -> Seq<TokenV> {
    type_tokens(f.return_type) + seq![
        TokenV::Symbol(f.name),
        TokenV::OpenPar,
        TokenV::ClosePar,
    ] + block_tokens(f.block)
}

/// The tokens of a function sequence, in order.
pub open spec fn functions_tokens(fs: Seq<ast::FunctionV>) -> Seq<TokenV>
    decreases fs.len(),
{
    if fs.len() == 0 {
        Seq::empty()
    } else {
        function_tokens(fs[0]) + functions_tokens(fs.drop_first())
    }
}

/// The tokens a whole program generates: its functions, concatenated.
pub open spec fn program_tokens(p: ast::ProgramV) -> Seq<TokenV> {
    functions_tokens(p.functions)
}

/// Emission handles no parameter lists: every function's list must be empty.
pub open spec fn program_emittable(p: ast::ProgramV) -> bool {
    forall|k: int| 0 <= k < p.functions.len() ==> (#[trigger] p.functions[k]).parameters.len() == 0
}

impl ast::Expr {
    /// Appends this expression's tokens to the accumulator.
    pub fn emit(&self, into: &mut Vec<Token>)
        ensures
            final(into).deep_view() == old(into).deep_view() + expr_tokens(self.deep_view()),
    {
        let ghost base = into.deep_view();
        match self {
            ast::Expr::NumLiteral(s) => {
                into.push(Token::NumLiteral(s.clone()));
            },
        }
        proof {
            assert(into.deep_view() =~= base + expr_tokens(self.deep_view()));
        }
    }
}

impl ast::Statement {
    /// Appends this statement's tokens to the accumulator.
    pub fn emit(&self, into: &mut Vec<Token>)
        ensures
            final(into).deep_view() == old(into).deep_view() + statement_tokens(self.deep_view()),
    {
        let ghost base = into.deep_view();
        match self {
            ast::Statement::Return(expr) => {
                into.push(Token::Symbol(String::from_str("return")));
                proof {
                    assert(into.deep_view() =~= base + seq![TokenV::Symbol("return"@)]);
                }
                (&**expr).emit(into);
                let ghost b2 = into.deep_view();
                into.push(Token::Semi);
                proof {
                    assert(into.deep_view() =~= b2 + seq![TokenV::Semi]);
                    assert(into.deep_view() =~= base + statement_tokens(self.deep_view()));
                }
            },
        }
    }
}

impl ast::Type {
    /// Appends this type's single symbol token to the accumulator.
    pub fn emit(&self, into: &mut Vec<Token>)
        ensures
            final(into).deep_view() == old(into).deep_view() + type_tokens(self.deep_view()),
    {
        let ghost base = into.deep_view();
        into.push(Token::Symbol(self.name.clone()));
        proof {
            assert(into.deep_view() =~= base + type_tokens(self.deep_view()));
        }
    }
}

impl ast::Block {
    /// Appends this block's tokens to the accumulator: an opening brace, the
    /// statements in order, a closing brace.
    pub fn emit(&self, into: &mut Vec<Token>)
        ensures
            final(into).deep_view() == old(into).deep_view() + block_tokens(self.deep_view()),
    {
        let ghost base = into.deep_view();
        let ghost sts = self.statements.deep_view();
        into.push(Token::OpenCur);
        proof {
            assert(into.deep_view() =~= base + seq![TokenV::OpenCur]);
        }
        let ghost after_open = into.deep_view();
        let n = self.statements.len();
        let mut i: usize = 0;
        while i < n
            invariant
                n == self.statements.len(),
                sts == self.statements.deep_view(),
                i <= n,
                into.deep_view() == after_open + statements_tokens(sts.take(i as int)),
            decreases n - i,
        {
            self.statements[i].emit(into);
            i = i + 1;
            proof {
                lemma_statements_tokens_take(sts, i as int);
                assert(into.deep_view() =~= after_open + statements_tokens(sts.take(i as int)));
            }
        }
        proof {
            assert(sts.take(n as int) =~= sts);
        }
        let ghost b2 = into.deep_view();
        into.push(Token::CloseCur);
        proof {
            assert(into.deep_view() =~= b2 + seq![TokenV::CloseCur]);
            assert(into.deep_view() =~= base + block_tokens(self.deep_view()));
        }
    }
}

/// The tokens of a statement prefix end with the tokens of its last
/// statement.
proof fn lemma_statements_tokens_take(sts: Seq<ast::StatementV>, i: int)
    requires
        0 < i <= sts.len(),
    ensures
        statements_tokens(sts.take(i)) == statements_tokens(sts.take(i - 1)) + statement_tokens(
            sts[i - 1],
        ),
    decreases i,
{
    let pre = sts.take(i);
    if i == 1 {
        assert(pre.drop_first() =~= Seq::<ast::StatementV>::empty());
        assert(sts.take(0) =~= Seq::<ast::StatementV>::empty());
        assert(statements_tokens(Seq::<ast::StatementV>::empty()) == Seq::<TokenV>::empty());
        assert(statements_tokens(pre) == statement_tokens(pre[0]) + statements_tokens(
            pre.drop_first(),
        ));
        assert(statements_tokens(pre) =~= statements_tokens(sts.take(0)) + statement_tokens(
            sts[0],
        ));
    } else {
        lemma_statements_tokens_take(sts.subrange(1, sts.len() as int), i - 1);
        assert(pre.drop_first() =~= sts.subrange(1, sts.len() as int).take(i - 1));
        assert(sts.take(i - 1).drop_first() =~= sts.subrange(1, sts.len() as int).take(i - 2));
        assert(statements_tokens(pre) == statement_tokens(sts[0]) + statements_tokens(
            pre.drop_first(),
        ));
        assert(statement_tokens(sts[0]) + (statements_tokens(
            sts.subrange(1, sts.len() as int).take(i - 2),
        ) + statement_tokens(sts[i - 1])) =~= (statement_tokens(sts[0]) + statements_tokens(
            sts.subrange(1, sts.len() as int).take(i - 2),
        )) + statement_tokens(sts[i - 1]));
    }
}

/// The tokens of a function prefix end with the tokens of its last function.
proof fn lemma_functions_tokens_take(fs: Seq<ast::FunctionV>, i: int)
    requires
        0 < i <= fs.len(),
    ensures
        functions_tokens(fs.take(i)) == functions_tokens(fs.take(i - 1)) + function_tokens(
            fs[i - 1],
        ),
    decreases i,
{
    let pre = fs.take(i);
    if i == 1 {
        assert(pre.drop_first() =~= Seq::<ast::FunctionV>::empty());
        assert(fs.take(0) =~= Seq::<ast::FunctionV>::empty());
        assert(functions_tokens(Seq::<ast::FunctionV>::empty()) == Seq::<TokenV>::empty());
        assert(functions_tokens(pre) == function_tokens(pre[0]) + functions_tokens(
            pre.drop_first(),
        ));
        assert(functions_tokens(pre) =~= functions_tokens(fs.take(0)) + function_tokens(fs[0]));
    } else {
        lemma_functions_tokens_take(fs.subrange(1, fs.len() as int), i - 1);
        assert(pre.drop_first() =~= fs.subrange(1, fs.len() as int).take(i - 1));
        assert(fs.take(i - 1).drop_first() =~= fs.subrange(1, fs.len() as int).take(i - 2));
        assert(functions_tokens(pre) == function_tokens(fs[0]) + functions_tokens(
            pre.drop_first(),
        ));
        assert(function_tokens(fs[0]) + (functions_tokens(
            fs.subrange(1, fs.len() as int).take(i - 2),
        ) + function_tokens(fs[i - 1])) =~= (function_tokens(fs[0]) + functions_tokens(
            fs.subrange(1, fs.len() as int).take(i - 2),
        )) + function_tokens(fs[i - 1]));
    }
}

impl ast::Function {
    /// Appends this function's tokens to the accumulator. The parameter list
    /// must be empty: emitting parameters is not implemented.
    pub fn emit(&self, into: &mut Vec<Token>)
        requires
            self.deep_view().parameters.len() == 0,
        ensures
            final(into).deep_view() == old(into).deep_view() + function_tokens(self.deep_view()),
    {
        let ghost base = into.deep_view();
        self.return_type.emit(into);
        let ghost c1 = into.deep_view();
        into.push(Token::Symbol(self.name.clone()));
        proof {
            assert(into.deep_view() =~= c1 + seq![TokenV::Symbol(self.name@)]);
        }
        let ghost c2 = into.deep_view();
        into.push(Token::OpenPar);
        proof {
            assert(into.deep_view() =~= c2 + seq![TokenV::OpenPar]);
        }
        let ghost c3 = into.deep_view();
        into.push(Token::ClosePar);
        proof {
            assert(into.deep_view() =~= c3 + seq![TokenV::ClosePar]);
        }
        self.block.emit(into);
        proof {
            assert(into.deep_view() =~= base + function_tokens(self.deep_view()));
        }
    }
}

impl ast::Program {
    /// Appends the whole program's tokens to the accumulator: each function
    /// in order.
    pub fn emit(&self, into: &mut Vec<Token>)
        requires
            program_emittable(self.deep_view()),
        ensures
            final(into).deep_view() == old(into).deep_view() + program_tokens(self.deep_view()),
    {
        let ghost base = into.deep_view();
        let ghost fs = self.functions.deep_view();
        proof {
            assert(fs.take(0) =~= Seq::<ast::FunctionV>::empty());
            assert(base + functions_tokens(fs.take(0)) =~= base);
        }
        let n = self.functions.len();
        let mut i: usize = 0;
        while i < n
            invariant
                n == self.functions.len(),
                fs == self.functions.deep_view(),
                program_emittable(self.deep_view()),
                self.deep_view().functions == fs,
                i <= n,
                into.deep_view() == base + functions_tokens(fs.take(i as int)),
            decreases n - i,
        {
            proof {
                assert(self.functions@[i as int].deep_view() == fs[i as int]);
                assert(fs[i as int] == self.deep_view().functions[i as int]);
                assert(fs[i as int].parameters.len() == 0);
            }
            self.functions[i].emit(into);
            i = i + 1;
            proof {
                lemma_functions_tokens_take(fs, i as int);
                assert(into.deep_view() =~= base + functions_tokens(fs.take(i as int)));
            }
        }
        proof {
            assert(fs.take(n as int) =~= fs);
        }
    }
}

/// True of the token kinds whose text must not merge with a neighbour:
/// symbols and numeric literals.
pub open spec fn is_symbol_like(t: TokenV) -> bool {
    t is Symbol || t is NumLiteral
}

/// The text one token contributes: punctuation glyphs stand alone, while a
/// symbol or literal takes one leading space when the previous token was
/// symbol-like.
pub open spec fn token_text(t: TokenV, prev_symbol_like: bool) -> Seq<char> {
    match t {
        TokenV::OpenPar => "("@,
        TokenV::ClosePar => ")"@,
        TokenV::OpenCur => "{"@,
        TokenV::CloseCur => "}"@,
        TokenV::Semi => ";"@,
        TokenV::Symbol(s) => if prev_symbol_like {
            " "@ + s
        } else {
            s
        },
        TokenV::NumLiteral(s) => if prev_symbol_like {
            " "@ + s
        } else {
            s
        },
    }
}

/// The text of the tokens from index `i` on, given whether the token before
/// `i` was symbol-like.
pub open spec fn serialize_from(ts: Seq<TokenV>, i: int, prev_symbol_like: bool) -> Seq<char>
    decreases ts.len() - i,
    when 0 <= i
{
    if i >= ts.len() {
        Seq::empty()
    } else {
        token_text(ts[i], prev_symbol_like) + serialize_from(ts, i + 1, is_symbol_like(ts[i]))
    }
}

/// The serialized text of a token sequence.
pub open spec fn serialize_tokens(ts: Seq<TokenV>) -> Seq<char> {
    serialize_from(ts, 0, false)
}

/// Joins a token sequence into printable text under the minimal-whitespace
/// rule: a single space exactly between two adjacent symbol-like tokens.
pub fn serialize(tokens: &[Token]) -> (s: String)
    ensures
        s@ == serialize_tokens(tokens.deep_view()),
{
    let ghost ts = tokens.deep_view();
    let mut s = String::new();
    let mut last_token_num_or_sym = false;
    let n = tokens.len();
    let mut i: usize = 0;
    while i < n
        invariant
            ts == tokens.deep_view(),
            n == tokens@.len(),
            i <= n,
            serialize_tokens(ts) == s@ + serialize_from(ts, i as int, last_token_num_or_sym),
        decreases n - i,
    {
        let ghost s0 = s@;
        let ghost prev = last_token_num_or_sym;
        match &tokens[i] {
            Token::OpenPar => {
                s.append("(");
                last_token_num_or_sym = false;
            },
            Token::ClosePar => {
                s.append(")");
                last_token_num_or_sym = false;
            },
            Token::OpenCur => {
                s.append("{");
                last_token_num_or_sym = false;
            },
            Token::CloseCur => {
                s.append("}");
                last_token_num_or_sym = false;
            },
            Token::Semi => {
                s.append(";");
                last_token_num_or_sym = false;
            },
            Token::Symbol(name) => {
                if last_token_num_or_sym {
                    s.append(" ");
                }
                s.append(name.as_str());
                last_token_num_or_sym = true;
            },
            Token::NumLiteral(num) => {
                if last_token_num_or_sym {
                    s.append(" ");
                }
                s.append(num.as_str());
                last_token_num_or_sym = true;
            },
        }
        proof {
            assert(s@ =~= s0 + token_text(ts[i as int], prev));
        }
        i = i + 1;
        proof {
            assert(s0 + (token_text(ts[i - 1], prev) + serialize_from(ts, i as int,
            last_token_num_or_sym)) =~= s@ + serialize_from(ts, i as int, last_token_num_or_sym));
        }
    }
    proof {
        assert(s@ + Seq::<char>::empty() =~= s@);
    }
    s
}

} // verus!
