use minic::compile;
use minic::parser::parse_program;
use minic::stream::Stream;
use minic::tokenizer::tokenize;
use minic::CompileError;

#[test]
fn test_compile_fixed_program() {
    let out = compile("int main() { return 0; }").unwrap();
    assert_eq!(out, "int main(){return 0;}");
}

#[test]
fn test_compile_round_trip_is_stable() {
    let src = "int main() { return 0; }";
    let out = compile(src).unwrap();

    // re-tokenizing and re-parsing the generated text yields a structurally
    // equal tree
    let tree = {
        let mut stream = Stream::new(tokenize(src).unwrap());
        parse_program(&mut stream).unwrap()
    };
    let tree_again = {
        let mut stream = Stream::new(tokenize(out.as_str()).unwrap());
        parse_program(&mut stream).unwrap()
    };
    assert_eq!(tree, tree_again);

    // compiling the generated text reproduces it exactly
    let out_again = compile(out.as_str()).unwrap();
    assert_eq!(out, out_again);
}

#[test]
fn test_compile_multiple_functions() {
    let out = compile("int a() {} int b() { return 5; }").unwrap();
    assert_eq!(out, "int a(){}int b(){return 5;}");
}

#[test]
fn test_compile_lex_fault() {
    let err = compile("int main() { return 0?; }").unwrap_err();
    match err {
        CompileError::Lex(e) => {
            assert_eq!(e.character, '?');
            assert_eq!(e.position, 21);
        }
        CompileError::Parse(_) => panic!("expected a lexical fault"),
    }
}

#[test]
fn test_compile_parse_fault() {
    let err = compile("int main( { return 0; }").unwrap_err();
    match err {
        CompileError::Parse(e) => {
            assert_eq!(e.reason, "expected token: ClosePar. actual: OpenCur");
        }
        CompileError::Lex(_) => panic!("expected a syntax fault"),
    }
}

#[test]
fn test_compile_empty_source() {
    assert_eq!(compile("").unwrap(), "");
}
