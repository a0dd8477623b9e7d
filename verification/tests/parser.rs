use minic::ast;
use minic::keyword::Keyword;
use minic::parser::{parse_expr, parse_program, ParseError};
use minic::stream::Stream;
use minic::tokenizer::{tokenize, Token};

#[test]
fn test_parser() {
    let tokens = vec![
        Token::Symbol("int".to_string()),
        Token::Symbol("main".to_string()),
        Token::OpenPar,
        Token::ClosePar,
        Token::OpenCur,
        Token::Symbol("return".to_string()),
        Token::NumLiteral("0".to_string()),
        Token::Semi,
        Token::CloseCur,
    ];

    let exp_ast = ast::Program {
        functions: vec![ast::Function {
            return_type: ast::Type {
                name: "int".to_string(),
            },
            name: "main".to_string(),
            parameters: vec![],
            block: ast::Block {
                statements: vec![ast::Statement::Return(Box::new(ast::Expr::NumLiteral(
                    "0".to_string(),
                )))],
            },
        }],
    };

    let mut token_stream = Stream::new(tokens);
    let ast = parse_program(&mut token_stream).unwrap();
    assert_eq!(true, token_stream.is_exhausted());

    assert_eq!(exp_ast, ast);
}

fn parse_source(src: &str) -> Result<ast::Program, ParseError> {
    let tokens = tokenize(src).unwrap();
    let mut token_stream = Stream::new(tokens);
    parse_program(&mut token_stream)
}

#[test]
fn test_parser_missing_close_paren_is_fault() {
    let err = parse_source("int main( { return 0; }").unwrap_err();
    assert_eq!(err.reason, "expected token: ClosePar. actual: OpenCur");
}

#[test]
fn test_parser_misspelled_keyword_is_fault() {
    let err = parse_source("int main() { retrn 0; }").unwrap_err();
    assert_eq!(
        err.reason,
        "expected token: Symbol(\"return\"). actual: Symbol(\"retrn\")"
    );
}

#[test]
fn test_parser_keyword_as_return_type_is_fault() {
    let err = parse_source("return main() {}").unwrap_err();
    assert_eq!(err.reason, "invalid return typename type");
}

#[test]
fn test_parser_keyword_as_function_name_is_fault() {
    let err = parse_source("int return() {}").unwrap_err();
    assert_eq!(err.reason, "invalid function name type");
}

#[test]
fn test_parser_premature_end_is_fault() {
    let err = parse_source("int main() {").unwrap_err();
    assert_eq!(err.reason, "Premature end");

    let err = parse_source("int").unwrap_err();
    assert_eq!(err.reason, "premature end");
}

#[test]
fn test_parser_expr_must_be_literal() {
    let err = parse_source("int main() { return x; }").unwrap_err();
    assert_eq!(err.reason, "parse_expr: Expect NumLiteral");
}

#[test]
fn test_parser_empty_block() {
    let program = parse_source("int nop() {}").unwrap();
    assert_eq!(program.functions.len(), 1);
    assert_eq!(program.functions[0].block.statements, vec![]);
    assert_eq!(program.functions[0].parameters, vec![]);
}

#[test]
fn test_parser_empty_input_is_empty_program() {
    let program = parse_source("").unwrap();
    assert_eq!(program, ast::Program { functions: vec![] });
}

#[test]
fn test_premature_end_consumes_position() {
    let mut stream: Stream<Token> = Stream::new(vec![]);
    let err = parse_expr(&mut stream).unwrap_err();
    assert_eq!(err.reason, "premature end");
    // the failed lookup still consumed a position: the parser reads through
    // the cursor's unconditionally-advancing next
    assert_eq!(stream.get_pos(), 1);
}

#[test]
fn test_keyword_from_str() {
    assert_eq!(Keyword::from_str("return"), Some(Keyword::Return));
    assert_eq!(Keyword::from_str("retrn"), None);
    assert_eq!(Keyword::from_str(""), None);
}

#[test]
fn test_stream_cursor_discipline() {
    let mut stream = Stream::new(vec![1u8, 2, 3]);
    assert_eq!(stream.get_pos(), 0);
    assert_eq!(stream.peek(), Some(1));
    // peek never advances
    assert_eq!(stream.peek(), Some(1));
    assert_eq!(stream.get_pos(), 0);
    stream.skip();
    assert_eq!(stream.get_pos(), 1);
    assert_eq!(stream.next(), Some(2));
    assert_eq!(stream.next(), Some(3));
    assert!(stream.is_exhausted());
    // next past the end is safe and yields absent values
    assert_eq!(stream.next(), None);
    assert_eq!(stream.peek(), None);
}

#[test]
fn test_get_ident_string() {
    assert_eq!(
        Token::Symbol("main".to_string()).get_ident_string(),
        Some("main".to_string())
    );
    assert_eq!(Token::Semi.get_ident_string(), None);
    assert_eq!(
        Token::NumLiteral("0".to_string()).get_ident_string(),
        None
    );
}
