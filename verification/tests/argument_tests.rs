use jmc::exception::{JMCError, JMCErrorType};
use jmc::header::Header;
use jmc::token::{Token, TokenType};
use jmc::tokenizer::Tokenizer;

fn arguments_of(
    bracket: &str,
) -> Result<(Vec<Vec<Token>>, Vec<(String, Vec<Token>)>), JMCError> {
    let header = Header::default();
    let source = format!("f{};", bracket);
    let tokenizer = Tokenizer::parse_raw_string(
        &header,
        source,
        "main.jmc".to_owned(),
        None,
        true,
        false,
    )
    .unwrap();
    let token = tokenizer.programs[0][1].clone();
    tokenizer.clone().parse_func_args_round(&header, &token)
}

fn texts(tokens: &Vec<Token>) -> Vec<String> {
    tokens.iter().map(|t| t.string.clone()).collect()
}

#[test]
fn arguments_by_position_and_by_name() {
    let (args, kwargs) = arguments_of("(1, \"two\", key=3, other=-4)").unwrap();
    assert_eq!(args.len(), 2);
    assert_eq!(texts(&args[0]), vec!["1"]);
    assert_eq!(texts(&args[1]), vec!["two"]);
    assert_eq!(args[1][0].token_type, TokenType::String);
    assert_eq!(kwargs.len(), 2);
    assert_eq!(kwargs[0].0, "key");
    assert_eq!(texts(&kwargs[0].1), vec!["3"]);
    assert_eq!(kwargs[1].0, "other");
    assert_eq!(texts(&kwargs[1].1), vec!["-", "4"]);
    let sign = &kwargs[1].1[0];
    assert_eq!(sign.token_type, TokenType::Operator);
    // the `=` of `other=-4` stands in column 25 of `f(1, "two", key=3, other=-4)`
    assert_eq!((sign.line, sign.col), (1, 26));
    assert_eq!((args[0][0].line, args[0][0].col), (1, 3));
}

#[test]
fn empty_bracket_holds_no_argument() {
    let (args, kwargs) = arguments_of("()").unwrap();
    assert!(args.is_empty());
    assert!(kwargs.is_empty());
}

#[test]
fn commas_inside_brackets_and_strings_split_nothing() {
    let (args, _) = arguments_of("((a, b), \"c, d\", [e, f])").unwrap();
    assert_eq!(args.len(), 3);
    assert_eq!(texts(&args[0]), vec!["(a, b)"]);
    assert_eq!(texts(&args[1]), vec!["c, d"]);
    assert_eq!(texts(&args[2]), vec!["[e, f]"]);
}

#[test]
fn arrow_function_is_one_function_token() {
    let (args, _) = arguments_of("(()=>{ say \"x\"; })").unwrap();
    assert_eq!(args.len(), 1);
    assert_eq!(args[0].len(), 1);
    assert_eq!(args[0][0].token_type, TokenType::Func);
    assert_eq!(args[0][0].string, " say \"x\"; ");
    assert_eq!((args[0][0].line, args[0][0].col), (1, 8));
}

#[test]
fn arrow_function_is_checked() {
    let nothing = arguments_of("(()=>)").unwrap_err();
    assert!(nothing
        .msg
        .contains("Expected curly bracket after '()=>' (got nothing)"));
    let other = arguments_of("(()=> 1)").unwrap_err();
    assert!(other
        .msg
        .contains("Expected curly bracket after '()=>' (got Keyword)"));
    let more = arguments_of("(()=>{} 1)").unwrap_err();
    assert!(more
        .msg
        .contains("Unexpected token after arrow function '()=>{}'"));
}

#[test]
fn misplaced_commas_are_refused() {
    let end = arguments_of("(1, )").unwrap_err();
    assert_eq!(end.error_type, JMCErrorType::JMCSyntaxException);
    assert!(end
        .msg
        .contains("Unexpected comma at the end of function arguments at line 1 col 4."));
    let middle = arguments_of("(1,,2)").unwrap_err();
    assert!(middle
        .msg
        .contains("Unexpected comma in function arguments at line 1 col 5."));
    let start = arguments_of("(,1)").unwrap_err();
    assert!(start
        .msg
        .contains("Unexpected comma in function arguments at line 1 col 3."));
}

#[test]
fn names_are_checked() {
    let twice = arguments_of("(a=1, a=2)").unwrap_err();
    assert!(twice.msg.contains("Duplicated key(a) at line 1 col 8."));
    let order = arguments_of("(a=1, \"x\")").unwrap_err();
    assert!(order
        .msg
        .contains("Positional argument follows keyword argument"));
    let no_value = arguments_of("(a=)").unwrap_err();
    assert!(no_value
        .msg
        .contains("Expected keyword argument after '=' in function arguments"));
    let no_key = arguments_of("(=)").unwrap_err();
    assert!(no_key.msg.contains("Empty key in function argument"));
    let no_comma = arguments_of("(\"a\" \"b\")").unwrap_err();
    assert!(no_comma
        .msg
        .contains("Unexpected String Literal after String Literal in function argument"));
    assert!(no_comma.msg.ends_with("You may have missed a comma"));
}

#[test]
fn bracket_of_another_kind_is_refused() {
    let header = Header::default();
    let tokenizer = Tokenizer::parse_raw_string(
        &header,
        "f[1];".to_owned(),
        "main.jmc".to_owned(),
        None,
        true,
        false,
    )
    .unwrap();
    let token = tokenizer.programs[0][1].clone();
    let error = tokenizer
        .clone()
        .parse_func_args_round(&header, &token)
        .unwrap_err();
    assert!(error
        .msg
        .contains("Expected Round-Parentheses (got Square-Parentheses) at line 1 col 2."));
}

#[test]
fn find_token_splits_at_the_splitters() {
    let tokens: Vec<Token> = ["a", "b", "c", "d"]
        .iter()
        .map(|s| Token::empty(TokenType::Keyword, s.to_string()))
        .collect();
    let (groups, splitters) = Tokenizer::find_token(tokens, "b", false);
    assert_eq!(
        groups.iter().map(texts).collect::<Vec<_>>(),
        vec![vec!["a".to_owned()], vec!["c".to_owned(), "d".to_owned()]]
    );
    assert_eq!(texts(&splitters), vec!["b"]);

    let with_string = vec![
        Token::empty(TokenType::Keyword, "x".to_owned()),
        Token::empty(TokenType::String, ",".to_owned()),
        Token::empty(TokenType::Comma, ",".to_owned()),
    ];
    let (groups, splitters) = Tokenizer::find_token(with_string, ",", false);
    assert_eq!(groups.len(), 2);
    assert_eq!(texts(&groups[0]), vec!["x", ","]);
    assert!(groups[1].is_empty());
    assert_eq!(splitters.len(), 1);
    assert_eq!(splitters[0].token_type, TokenType::Comma);
}

#[test]
fn merged_tokens_are_one_keyword_at_the_place_of_the_first() {
    let tokens = vec![
        Token::new(TokenType::Operator, 3, 4, "-".to_owned(), None, None),
        Token::new(TokenType::Keyword, 3, 5, "12".to_owned(), None, None),
    ];
    let merged = Tokenizer::merge_tokens(&tokens);
    assert_eq!(merged.token_type, TokenType::Keyword);
    assert_eq!(merged.string, "-12");
    assert_eq!((merged.line, merged.col), (3, 4));
}

#[test]
fn arguments_are_read_by_a_copy_that_starts_over() {
    let header = Header::default();
    let mut tokenizer = Tokenizer::parse_raw_string(
        &header,
        "f(1, 2) g;".to_owned(),
        "main.jmc".to_owned(),
        None,
        true,
        false,
    )
    .unwrap();
    let token = tokenizer.programs[0][1].clone();
    let (args, kwargs) = tokenizer.parse_func_args_round(&header, &token).unwrap();
    assert_eq!(args.len(), 2);
    assert!(kwargs.is_empty());
    // the tokenizer that was asked keeps what it had read
    assert_eq!(tokenizer.programs.len(), 1);
    assert_eq!(tokenizer.programs[0].len(), 3);
}
