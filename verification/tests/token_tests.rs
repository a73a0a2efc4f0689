use jmc::token::{Token, TokenType};
use jmc::tokenizer::Tokenizer;

#[test]
fn test_get_full_string() {
    assert_eq!(
        Token::new(
            TokenType::Keyword,
            1,
            1,
            "KEYWORD_TOKEN".to_owned(),
            None,
            None,
        )
        .get_full_string(),
        "KEYWORD_TOKEN"
    );
    assert_eq!(
        Token::new(
            TokenType::String,
            1,
            1,
            "STRING_TOKEN".to_owned(),
            None,
            Some('"'),
        )
        .get_full_string(),
        "'STRING_TOKEN'"
    );
    assert_eq!(
        Token::new(
            TokenType::String,
            1,
            1,
            "'STRING_TOKEN'".to_owned(),
            None,
            Some('"'),
        )
        .get_full_string(),
        "\"'STRING_TOKEN'\""
    );
    assert_eq!(
        Token::empty(TokenType::Keyword, "KEYWORD_TOKEN".to_owned()).get_full_string(),
        "KEYWORD_TOKEN"
    );
}

#[test]
fn test_unescape_string() {
    assert_eq!(
        Tokenizer::unescape_str("\n\t\r TEST \"\"'''", '\''),
        r#""\n\t\r TEST \"\"'''""#
    )
}

#[test]
fn test_escape() {
    let tokenizer = Tokenizer::parse_raw_string(
        &jmc::header::Header::default(),
        r#""\n\t\r TEST \"\"'''""#.to_owned(),
        String::new(),
        None,
        false,
        false,
    )
    .unwrap();
    assert_eq!(tokenizer.programs[0][0].string, "\n\t\r TEST \"\"'''")
}
