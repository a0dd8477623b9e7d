//! Lexical analysis: one left-to-right pass over the source characters,
//! producing the token sequence or the first offending character and its
//! character index.

use crate::stream::Stream;
use vstd::prelude::*;

verus! {

/// The minimal lexical unit: punctuation, a symbol (identifier or keyword),
/// or a numeric literal holding its raw digit text.
#[derive(Debug)]
pub enum Token {
    OpenPar,
    ClosePar,
    OpenCur,
    CloseCur,
    Semi,
    Symbol(String),
    NumLiteral(String),
}

/// The mathematical view of a token: its text as a character sequence.
#[verifier::ext_equal]
pub enum TokenV {
    OpenPar,
    ClosePar,
    OpenCur,
    CloseCur,
    Semi,
    Symbol(Seq<char>),
    NumLiteral(Seq<char>),
}

impl View for Token {
    type V = TokenV;

    open spec fn view(&self) -> TokenV {
        match self {
            Token::OpenPar => TokenV::OpenPar,
            Token::ClosePar => TokenV::ClosePar,
            Token::OpenCur => TokenV::OpenCur,
            Token::CloseCur => TokenV::CloseCur,
            Token::Semi => TokenV::Semi,
            Token::Symbol(s) => TokenV::Symbol(s@),
            Token::NumLiteral(s) => TokenV::NumLiteral(s@),
        }
    }
}

impl DeepView for Token {
    type V = TokenV;

    open spec fn deep_view(&self) -> TokenV {
        self.view()
    }
}

impl Clone for Token {
    fn clone(&self) -> (res: Self)
        ensures
            res == *self,
    {
        match self {
            Token::OpenPar => Token::OpenPar,
            Token::ClosePar => Token::ClosePar,
            Token::OpenCur => Token::OpenCur,
            Token::CloseCur => Token::CloseCur,
            Token::Semi => Token::Semi,
            Token::Symbol(s) => Token::Symbol(s.clone()),
            Token::NumLiteral(s) => Token::NumLiteral(s.clone()),
        }
    }
}

impl PartialEq for Token {
    fn eq(&self, other: &Token) -> (r: bool) {
        match (self, other) {
            (Token::OpenPar, Token::OpenPar) => true,
            (Token::ClosePar, Token::ClosePar) => true,
            (Token::OpenCur, Token::OpenCur) => true,
            (Token::CloseCur, Token::CloseCur) => true,
            (Token::Semi, Token::Semi) => true,
            (Token::Symbol(a), Token::Symbol(b)) => a.eq(b),
            (Token::NumLiteral(a), Token::NumLiteral(b)) => a.eq(b),
            _ => false,
        }
    }
}

impl vstd::std_specs::cmp::PartialEqSpecImpl for Token {
    open spec fn obeys_eq_spec() -> bool {
        true
    }

    open spec fn eq_spec(&self, other: &Token) -> bool {
        self@ == other@
    }
}

impl Token {
    /// Returns the text of a `Symbol` token; any other kind yields `None`.
    pub fn get_ident_string(self) -> (r: Option<String>)
        ensures
            match r {
                Some(s) => self@ == TokenV::Symbol(s@),
                None => !(self@ is Symbol),
            },
    {
        match self {
            Token::Symbol(s) => Some(s),
            _ => None,
        }
    }
}

/// The whitespace characters the lexer skips: the ASCII whitespace set.
pub open spec fn is_space_char(c: char) -> bool {
    c == ' ' || c == '\t' || c == '\n' || c == '\r' || c == '\u{b}' || c == '\u{c}'
}

/// The characters that may start a symbol: ASCII letters.
pub open spec fn is_letter_char(c: char) -> bool {
    ('a' <= c && c <= 'z') || ('A' <= c && c <= 'Z')
}

/// The decimal digits.
pub open spec fn is_digit_char(c: char) -> bool {
    '0' <= c && c <= '9'
}

/// The characters that may continue a symbol: letters and digits.
pub open spec fn is_symbol_char(c: char) -> bool {
    is_letter_char(c) || is_digit_char(c)
}

/// The characters the lexer recognizes at all.
pub open spec fn is_lexable_char(c: char) -> bool {
    is_space_char(c) || is_symbol_char(c) || c == '(' || c == ')' || c == '{' || c == '}'
        || c == ';'
}

/// A lexical fault: the offending character and its character index.
#[derive(Debug)]
pub struct LexError {
    pub character: char,
    pub position: usize,
}

/// What lexing yields: the full token sequence, or the first offending
/// character with its character index.
#[verifier::ext_equal]
pub enum LexResultV {
    Tokens(Seq<TokenV>),
    Fault { character: char, position: int },
}

/// End of the maximal run of symbol characters starting at `i`.
pub open spec fn symbol_run_end(s: Seq<char>, i: int) -> int
    decreases s.len() - i,
{
    if i < s.len() && is_symbol_char(s[i]) {
        symbol_run_end(s, i + 1)
    } else {
        i
    }
}

/// End of the maximal run of digits starting at `i`.
pub open spec fn digit_run_end(s: Seq<char>, i: int) -> int
    decreases s.len() - i,
{
    if i < s.len() && is_digit_char(s[i]) {
        digit_run_end(s, i + 1)
    } else {
        i
    }
}

pub proof fn lemma_symbol_run_end_bounds(s: Seq<char>, i: int)
    requires
        0 <= i <= s.len(),
    ensures
        i <= symbol_run_end(s, i) <= s.len(),
    decreases s.len() - i,
{
    if i < s.len() && is_symbol_char(s[i]) {
        lemma_symbol_run_end_bounds(s, i + 1);
    }
}

pub proof fn lemma_digit_run_end_bounds(s: Seq<char>, i: int)
    requires
        0 <= i <= s.len(),
    ensures
        i <= digit_run_end(s, i) <= s.len(),
    decreases s.len() - i,
{
    if i < s.len() && is_digit_char(s[i]) {
        lemma_digit_run_end_bounds(s, i + 1);
    }
}

/// A run of symbol characters over `[i, j)` that cannot be extended at `j`
/// is exactly the maximal run starting at `i`.
pub proof fn lemma_symbol_run_end_exact(s: Seq<char>, i: int, j: int)
    requires
        0 <= i <= j <= s.len(),
        forall|k: int| i <= k < j ==> is_symbol_char(s[k]),
        j == s.len() || !is_symbol_char(s[j]),
    ensures
        symbol_run_end(s, i) == j,
    decreases j - i,
{
    if i < j {
        lemma_symbol_run_end_exact(s, i + 1, j);
    }
}

/// A run of digits over `[i, j)` that cannot be extended at `j` is exactly
/// the maximal run starting at `i`.
pub proof fn lemma_digit_run_end_exact(s: Seq<char>, i: int, j: int)
    requires
        0 <= i <= j <= s.len(),
        forall|k: int| i <= k < j ==> is_digit_char(s[k]),
        j == s.len() || !is_digit_char(s[j]),
    ensures
        digit_run_end(s, i) == j,
    decreases j - i,
{
    if i < j {
        lemma_digit_run_end_exact(s, i + 1, j);
    }
}

/// Prepends a token to the result of lexing the rest of the input; a fault
/// in the rest stays a fault.
pub open spec fn lex_cons(t: TokenV, r: LexResultV) -> LexResultV {
    match r {
        LexResultV::Tokens(ts) => LexResultV::Tokens(seq![t] + ts),
        LexResultV::Fault { .. } => r,
    }
}

/// Prepends an already-lexed token sequence to the result of lexing the rest.
pub open spec fn lex_prepend(ts: Seq<TokenV>, r: LexResultV) -> LexResultV {
    match r {
        LexResultV::Tokens(rest) => LexResultV::Tokens(ts + rest),
        LexResultV::Fault { .. } => r,
    }
}

/// Lexing the characters of `s` from index `i` on: whitespace is skipped, a
/// letter starts a maximal symbol run, a digit a maximal digit run, each of
/// `( ) { } ;` is one token, and any other character is the fault.
pub open spec fn lex_from(s: Seq<char>, i: int) -> LexResultV
    decreases s.len() - i,
    when 0 <= i <= s.len()
{
    if i >= s.len() {
        LexResultV::Tokens(Seq::empty())
    } else {
        let c = s[i];
        if is_space_char(c) {
            lex_from(s, i + 1)
        } else if is_letter_char(c) {
            proof {
                lemma_symbol_run_end_bounds(s, i + 1);
            }
            let j = symbol_run_end(s, i);
            lex_cons(TokenV::Symbol(s.subrange(i, j)), lex_from(s, j))
        } else if is_digit_char(c) {
            proof {
                lemma_digit_run_end_bounds(s, i + 1);
            }
            let j = digit_run_end(s, i);
            lex_cons(TokenV::NumLiteral(s.subrange(i, j)), lex_from(s, j))
        } else if c == '(' {
            lex_cons(TokenV::OpenPar, lex_from(s, i + 1))
        } else if c == ')' {
            lex_cons(TokenV::ClosePar, lex_from(s, i + 1))
        } else if c == '{' {
            lex_cons(TokenV::OpenCur, lex_from(s, i + 1))
        } else if c == '}' {
            lex_cons(TokenV::CloseCur, lex_from(s, i + 1))
        } else if c == ';' {
            lex_cons(TokenV::Semi, lex_from(s, i + 1))
        } else {
            LexResultV::Fault { character: c, position: i }
        }
    }
}

/// Relates prepending one token to extending the already-lexed prefix.
pub proof fn lemma_prepend_cons(ts: Seq<TokenV>, t: TokenV, r: LexResultV)
    ensures
        lex_prepend(ts, lex_cons(t, r)) == lex_prepend(ts.push(t), r),
{
    match r {
        LexResultV::Tokens(rest) => {
            assert(ts + (seq![t] + rest) =~= ts.push(t) + rest);
        },
        LexResultV::Fault { .. } => {},
    }
}

fn is_space(c: char) -> (b: bool)
    ensures
        b == is_space_char(c),
{
    c == ' ' || c == '\t' || c == '\n' || c == '\r' || c == '\u{b}' || c == '\u{c}'
}

fn is_letter(c: char) -> (b: bool)
    ensures
        b == is_letter_char(c),
{
    ('a' <= c && c <= 'z') || ('A' <= c && c <= 'Z')
}

fn is_digit(c: char) -> (b: bool)
    ensures
        b == is_digit_char(c),
{
    '0' <= c && c <= '9'
}

fn is_symbol(c: char) -> (b: bool)
    ensures
        b == is_symbol_char(c),
{
    is_letter(c) || is_digit(c)
}

/// Collects the characters of the source text into a vector.
fn source_chars(s: &str) -> (v: Vec<char>)
    ensures
        v@ == s@,
{
    let n = s.unicode_len();
    let mut v: Vec<char> = Vec::new();
    let mut idx: usize = 0;
    while idx < n
        invariant
            n == s@.len(),
            idx <= n,
            v@ == s@.subrange(0, idx as int),
        decreases n - idx,
    {
        let c = s.get_char(idx);
        v.push(c);
        idx = idx + 1;
        proof {
            assert(v@ =~= s@.subrange(0, idx as int));
        }
    }
    proof {
        assert(v@ =~= s@);
    }
    v
}

/// Lexical analysis: yields the token sequence of the source text, or the
/// first unrecognized character together with its character index.
pub fn tokenize(s: &str) -> (r: Result<Vec<Token>, LexError>)
    ensures
        match r {
            Ok(tokens) => lex_from(s@, 0) == LexResultV::Tokens(tokens.deep_view())
                && tokens@.len() <= s@.len(),
            Err(e) => lex_from(s@, 0) == (LexResultV::Fault {
                character: e.character,
                position: e.position as int,
            }),
        },
{
    let chars = source_chars(s);
    let mut tokens: Vec<Token> = Vec::new();
    let mut stream: Stream<char> = Stream::new(chars);
    loop
        invariant
            stream.elems() == s@,
            0 <= stream.spec_pos() <= s@.len(),
            tokens@.len() <= stream.spec_pos(),
            lex_from(s@, 0) == lex_prepend(tokens.deep_view(), lex_from(s@, stream.spec_pos())),
        ensures
            stream.spec_pos() == s@.len(),
            tokens@.len() <= s@.len(),
            lex_from(s@, 0) == LexResultV::Tokens(tokens.deep_view()),
        decreases s@.len() - stream.spec_pos(),
    {
        let ghost prev_tokens = tokens.deep_view();
        match stream.peek() {
            None => {
                proof {
                    assert(prev_tokens + Seq::<TokenV>::empty() =~= prev_tokens);
                }
                break;
            },
            Some(ch) => {
                let ghost pos = stream.spec_pos();
                proof {
                    assert(ch == s@[pos]);
                }
                if is_space(ch) {
                    stream.skip();
                } else if is_letter(ch) || is_digit(ch) {
                    let letter_run = is_letter(ch);
                    let start = stream.get_pos();
                    loop
                        invariant
                            stream.elems() == s@,
                            start as int <= stream.spec_pos() <= s@.len(),
                            forall|k: int|
                                start as int <= k < stream.spec_pos() ==> (if letter_run {
                                    is_symbol_char(s@[k])
                                } else {
                                    is_digit_char(s@[k])
                                }),
                        ensures
                            stream.elems() == s@,
                            start as int <= stream.spec_pos() <= s@.len(),
                            forall|k: int|
                                start as int <= k < stream.spec_pos() ==> (if letter_run {
                                    is_symbol_char(s@[k])
                                } else {
                                    is_digit_char(s@[k])
                                }),
                            stream.spec_pos() == s@.len() || (if letter_run {
                                !is_symbol_char(s@[stream.spec_pos()])
                            } else {
                                !is_digit_char(s@[stream.spec_pos()])
                            }),
                        decreases s@.len() - stream.spec_pos(),
                    {
                        match stream.peek() {
                            Some(c2) => {
                                let more = if letter_run {
                                    is_symbol(c2)
                                } else {
                                    is_digit(c2)
                                };
                                if more {
                                    stream.skip();
                                } else {
                                    break;
                                }
                            },
                            None => {
                                break;
                            },
                        }
                    }
                    let end = stream.get_pos();
                    let text = s.substring_char(start, end).to_owned();
                    proof {
                        if letter_run {
                            lemma_symbol_run_end_exact(s@, start as int, end as int);
                        } else {
                            lemma_digit_run_end_exact(s@, start as int, end as int);
                        }
                    }
                    let tok = if letter_run {
                        Token::Symbol(text)
                    } else {
                        Token::NumLiteral(text)
                    };
                    proof {
                        lemma_prepend_cons(prev_tokens, tok.deep_view(), lex_from(s@, end as int));
                    }
                    tokens.push(tok);
                    proof {
                        assert(tokens.deep_view() =~= prev_tokens.push(
                            if letter_run {
                                TokenV::Symbol(s@.subrange(start as int, end as int))
                            } else {
                                TokenV::NumLiteral(s@.subrange(start as int, end as int))
                            },
                        ));
                    }
                } else if ch == '(' || ch == ')' || ch == '{' || ch == '}' || ch == ';' {
                    stream.skip();
                    let tok = if ch == '(' {
                        Token::OpenPar
                    } else if ch == ')' {
                        Token::ClosePar
                    } else if ch == '{' {
                        Token::OpenCur
                    } else if ch == '}' {
                        Token::CloseCur
                    } else {
                        Token::Semi
                    };
                    proof {
                        lemma_prepend_cons(prev_tokens, tok.deep_view(), lex_from(s@, pos + 1));
                    }
                    tokens.push(tok);
                    proof {
                        assert(tokens.deep_view() =~= prev_tokens.push(
                            if ch == '(' {
                                TokenV::OpenPar
                            } else if ch == ')' {
                                TokenV::ClosePar
                            } else if ch == '{' {
                                TokenV::OpenCur
                            } else if ch == '}' {
                                TokenV::CloseCur
                            } else {
                                TokenV::Semi
                            },
                        ));
                    }
                } else {
                    let position = stream.get_pos();
                    return Err(LexError { character: ch, position });
                }
            },
        }
    }
    Ok(tokens)
}

/// The maximal symbol run starting at `i` ends at or before any non-symbol
/// character at or after `i`.
proof fn lemma_symbol_run_end_le(s: Seq<char>, i: int, b: int)
    requires
        0 <= i <= b < s.len(),
        !is_symbol_char(s[b]),
    ensures
        symbol_run_end(s, i) <= b,
    decreases b - i,
{
    if i < s.len() && is_symbol_char(s[i]) {
        lemma_symbol_run_end_le(s, i + 1, b);
    }
}

/// The maximal digit run starting at `i` ends at or before any non-digit
/// character at or after `i`.
proof fn lemma_digit_run_end_le(s: Seq<char>, i: int, b: int)
    requires
        0 <= i <= b < s.len(),
        !is_digit_char(s[b]),
    ensures
        digit_run_end(s, i) <= b,
    decreases b - i,
{
    if i < s.len() && is_digit_char(s[i]) {
        lemma_digit_run_end_le(s, i + 1, b);
    }
}

proof fn lemma_lex_from_total(s: Seq<char>, i: int)
    requires
        0 <= i <= s.len(),
        forall|k: int| i <= k < s.len() ==> is_lexable_char(s[k]),
    ensures
        lex_from(s, i) is Tokens,
    decreases s.len() - i,
{
    if i < s.len() {
        let c = s[i];
        if is_space_char(c) {
            lemma_lex_from_total(s, i + 1);
        } else if is_letter_char(c) {
            lemma_symbol_run_end_bounds(s, i + 1);
            lemma_lex_from_total(s, symbol_run_end(s, i));
        } else if is_digit_char(c) {
            lemma_digit_run_end_bounds(s, i + 1);
            lemma_lex_from_total(s, digit_run_end(s, i));
        } else {
            lemma_lex_from_total(s, i + 1);
        }
    }
}

proof fn lemma_lex_from_fault(s: Seq<char>, i: int, b: int)
    requires
        0 <= i <= b < s.len(),
        !is_lexable_char(s[b]),
        forall|k: int| i <= k < b ==> is_lexable_char(s[k]),
    ensures
        lex_from(s, i) == (LexResultV::Fault { character: s[b], position: b }),
    decreases b - i,
{
    if i < b {
        let c = s[i];
        if is_space_char(c) {
            lemma_lex_from_fault(s, i + 1, b);
        } else if is_letter_char(c) {
            lemma_symbol_run_end_bounds(s, i + 1);
            lemma_symbol_run_end_le(s, i, b);
            lemma_lex_from_fault(s, symbol_run_end(s, i), b);
        } else if is_digit_char(c) {
            lemma_digit_run_end_bounds(s, i + 1);
            lemma_digit_run_end_le(s, i, b);
            lemma_lex_from_fault(s, digit_run_end(s, i), b);
        } else {
            lemma_lex_from_fault(s, i + 1, b);
        }
    }
}

/// Law: on input built only from whitespace, letters, digits and the five
/// punctuation marks, lexing yields a token sequence, never a fault.
pub proof fn lemma_tokenize_total(s: Seq<char>)
    requires
        forall|k: int| 0 <= k < s.len() ==> is_lexable_char(s[k]),
    ensures
        lex_from(s, 0) is Tokens,
{
    lemma_lex_from_total(s, 0);
}

/// Law: when the first unrecognized character of the input stands at index
/// `b`, lexing yields exactly the fault naming that character and `b`.
pub proof fn lemma_tokenize_fault_exact(s: Seq<char>, b: int)
    requires
        0 <= b < s.len(),
        !is_lexable_char(s[b]),
        forall|k: int| 0 <= k < b ==> is_lexable_char(s[k]),
    ensures
        lex_from(s, 0) == (LexResultV::Fault { character: s[b], position: b }),
{
    lemma_lex_from_fault(s, 0, b);
}

} // verus!
