use minic::ast;
use minic::codegen::serialize;
use minic::tokenizer::Token;

#[test]
fn test_codegen_c() {
    let ast = ast::Program {
        functions: vec![ast::Function {
            return_type: ast::Type {
                name: "int".to_string(),
            },
            name: "main".to_string(),
            parameters: vec![],
            block: ast::Block {
                statements: vec![ast::Statement::Return(Box::new(ast::Expr::NumLiteral(
                    "0".to_string(),
                )))],
            },
        }],
    };

    let exp_tokens = vec![
        Token::Symbol("int".to_string()),
        Token::Symbol("main".to_string()),
        Token::OpenPar,
        Token::ClosePar,
        Token::OpenCur,
        Token::Symbol("return".to_string()),
        Token::NumLiteral("0".to_string()),
        Token::Semi,
        Token::CloseCur,
    ];

    let mut tokens = vec![];
    ast.emit(&mut tokens);

    assert_eq!(exp_tokens, tokens);

    let exp_code = "int main(){return 0;}";
    let code = serialize(&tokens[..]);

    assert_eq!(exp_code, code.as_str());
}

#[test]
fn test_serialize_empty() {
    assert_eq!(serialize(&[]), "");
}

#[test]
fn test_serialize_separates_adjacent_symbol_like_tokens() {
    let tokens = vec![
        Token::Symbol("return".to_string()),
        Token::NumLiteral("0".to_string()),
        Token::Semi,
    ];
    assert_eq!(serialize(&tokens[..]), "return 0;");

    let tokens = vec![
        Token::NumLiteral("1".to_string()),
        Token::NumLiteral("2".to_string()),
    ];
    assert_eq!(serialize(&tokens[..]), "1 2");
}

#[test]
fn test_serialize_no_space_after_punctuation() {
    let tokens = vec![
        Token::CloseCur,
        Token::Symbol("int".to_string()),
        Token::OpenPar,
        Token::ClosePar,
    ];
    assert_eq!(serialize(&tokens[..]), "}int()");
}

#[test]
fn test_emit_statement_tokens() {
    let stmt = ast::Statement::Return(Box::new(ast::Expr::NumLiteral("42".to_string())));
    let mut tokens = vec![];
    stmt.emit(&mut tokens);
    assert_eq!(
        tokens,
        vec![
            Token::Symbol("return".to_string()),
            Token::NumLiteral("42".to_string()),
            Token::Semi,
        ]
    );
}

#[test]
fn test_emit_appends_to_accumulator() {
    let ty = ast::Type {
        name: "int".to_string(),
    };
    let mut tokens = vec![Token::Semi];
    ty.emit(&mut tokens);
    assert_eq!(
        tokens,
        vec![Token::Semi, Token::Symbol("int".to_string())]
    );
}

#[test]
fn test_emit_empty_block() {
    let block = ast::Block { statements: vec![] };
    let mut tokens = vec![];
    block.emit(&mut tokens);
    assert_eq!(tokens, vec![Token::OpenCur, Token::CloseCur]);
}
