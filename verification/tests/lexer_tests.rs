use evenframe_core::typesync::flatbuffers_parser::lexer::{tokenize, Token};

#[test]
fn test_tokenize_simple_table() {
    let source = r#"
            table Person {
                name: string;
                age: int32;
            }
        "#;

    let tokens = tokenize(source).unwrap();
    assert!(tokens.iter().any(|t| matches!(&t.token, Token::Table)));
    assert!(tokens
        .iter()
        .any(|t| matches!(&t.token, Token::Identifier) && t.text == "Person"));
}

#[test]
fn test_tokenize_with_metadata() {
    let source = r#"
            table User (validate: "required") {
                email: string (validate: "email");
            }
        "#;

    let tokens = tokenize(source).unwrap();
    assert!(tokens.iter().any(|t| matches!(&t.token, Token::LParen)));
    assert!(tokens
        .iter()
        .any(|t| matches!(&t.token, Token::Identifier) && t.text == "validate"));
}
