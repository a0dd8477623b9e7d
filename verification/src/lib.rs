//! A tiny compiler core for a small C-like language: lexical analysis of
//! source text into tokens, recursive-descent parsing of tokens into a
//! syntax tree, tree-to-token generation, and token-to-text serialization.
//! The pipeline is strictly linear: text, tokens, tree, tokens, text.

pub mod ast;
pub mod codegen;
pub mod keyword;
pub mod parser;
pub mod stream;
pub mod tokenizer;

use vstd::prelude::*;

verus! {

use crate::codegen::program_emittable;
use crate::codegen::program_tokens;
use crate::codegen::serialize;
use crate::codegen::serialize_tokens;
use crate::parser::ParseError;
use crate::parser::ParsedV;
use crate::parser::lemma_parse_funcs_at_no_parameters;
use crate::parser::parse_program;
use crate::parser::parse_program_at;
use crate::stream::Stream;
use crate::tokenizer::LexError;
use crate::tokenizer::LexResultV;
use crate::tokenizer::Token;
use crate::tokenizer::lex_from;
use crate::tokenizer::tokenize;

/// Why a compilation failed: in the lexer, or in the parser.
#[derive(Debug)]
pub enum CompileError {
    Lex(LexError),
    Parse(ParseError),
}

/// What compilation yields: generated text, or the first fault of the stage
/// that rejected the input.
#[verifier::ext_equal]
pub enum CompiledV {
    Text(Seq<char>),
    LexFault { character: char, position: int },
    ParseFault { reason: Seq<char> },
}

/// The whole pipeline over the source characters: lex, parse, generate,
/// serialize.
pub open spec fn compile_spec(src: Seq<char>) -> CompiledV {
    match lex_from(src, 0) {
        LexResultV::Tokens(ts) => match parse_program_at(ts, 0) {
            ParsedV::Parsed { node: p, next } => CompiledV::Text(
                serialize_tokens(program_tokens(p)),
            ),
            ParsedV::Fault { reason } => CompiledV::ParseFault { reason },
        },
        LexResultV::Fault { character, position } => CompiledV::LexFault { character, position },
    }
}

/// Translates one compilation unit: source text in, generated text out, or
/// the first lexical or syntax fault.
pub fn compile(source_text: &str) -> (r: Result<String, CompileError>)
    requires
        source_text@.len() < usize::MAX,
    ensures
        match r {
            Ok(out) => compile_spec(source_text@) == CompiledV::Text(out@),
            Err(CompileError::Lex(e)) => compile_spec(source_text@) == (CompiledV::LexFault {
                character: e.character,
                position: e.position as int,
            }),
            Err(CompileError::Parse(e)) => compile_spec(source_text@) == (CompiledV::ParseFault {
                reason: e.reason@,
            }),
        },
{
    let tokens = match tokenize(source_text) {
        Ok(t) => t,
        Err(e) => {
            return Err(CompileError::Lex(e));
        },
    };
    let ghost tv = tokens.deep_view();
    let mut token_stream: Stream<Token> = Stream::new(tokens);
    proof {
        assert(token_stream.deep_elems() =~= tv);
    }
    let program = match parse_program(&mut token_stream) {
        Ok(p) => p,
        Err(e) => {
            return Err(CompileError::Parse(e));
        },
    };
    proof {
        lemma_parse_funcs_at_no_parameters(tv, 0);
        assert(program_emittable(program.deep_view()));
    }
    let mut out_tokens: Vec<Token> = Vec::new();
    proof {
        assert(out_tokens.deep_view() =~= Seq::<crate::tokenizer::TokenV>::empty());
    }
    program.emit(&mut out_tokens);
    proof {
        assert(out_tokens.deep_view() =~= program_tokens(program.deep_view()));
    }
    let text = serialize(out_tokens.as_slice());
    Ok(text)
}

} // verus!
