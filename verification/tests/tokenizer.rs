use minic::tokenizer::{tokenize, Token};

#[test]
fn test_tokenizer() {
    let sourcecode: &str = "
		int main() {
			return 0;
		}
	";

    let exp_tokens = vec![
        Token::Symbol("int".to_string()),
        Token::Symbol("main".to_string()),
        Token::OpenPar,
        Token::ClosePar,
        Token::OpenCur,
        Token::Symbol("return".to_string()),
        Token::NumLiteral("0".to_string()),
        Token::Semi,
        Token::CloseCur,
    ];

    let tokens = tokenize(sourcecode).unwrap();

    assert_eq!(&exp_tokens[..], &tokens[..]);
}

#[test]
fn test_tokenizer_single_line() {
    let tokens = tokenize("int main() { return 0; }").unwrap();
    let exp_tokens = vec![
        Token::Symbol("int".to_string()),
        Token::Symbol("main".to_string()),
        Token::OpenPar,
        Token::ClosePar,
        Token::OpenCur,
        Token::Symbol("return".to_string()),
        Token::NumLiteral("0".to_string()),
        Token::Semi,
        Token::CloseCur,
    ];
    assert_eq!(exp_tokens, tokens);
}

#[test]
fn test_tokenizer_empty_input() {
    assert_eq!(tokenize("").unwrap(), vec![]);
    assert_eq!(tokenize(" \t\n\r").unwrap(), vec![]);
}

#[test]
fn test_tokenizer_maximal_runs() {
    // a symbol run continues through digits; a digit run stops at a letter
    assert_eq!(
        tokenize("a1b2").unwrap(),
        vec![Token::Symbol("a1b2".to_string())]
    );
    assert_eq!(
        tokenize("0abc").unwrap(),
        vec![
            Token::NumLiteral("0".to_string()),
            Token::Symbol("abc".to_string()),
        ]
    );
}

#[test]
fn test_tokenizer_punctuation_only() {
    assert_eq!(
        tokenize("(){};").unwrap(),
        vec![
            Token::OpenPar,
            Token::ClosePar,
            Token::OpenCur,
            Token::CloseCur,
            Token::Semi,
        ]
    );
}

#[test]
fn test_tokenizer_fault_reports_character_and_index() {
    let err = tokenize("ab=cd").unwrap_err();
    assert_eq!(err.character, '=');
    assert_eq!(err.position, 2);

    let err = tokenize("int $x").unwrap_err();
    assert_eq!(err.character, '$');
    assert_eq!(err.position, 4);
}

#[test]
fn test_tokenizer_fault_is_first_offender() {
    // both '@' and '#' are unrecognized; only the first is reported
    let err = tokenize("x @ #").unwrap_err();
    assert_eq!(err.character, '@');
    assert_eq!(err.position, 2);
}
