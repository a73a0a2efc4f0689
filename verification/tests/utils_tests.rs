use jmc::exception::JMCErrorType;
use jmc::header::{Header, HeaderInner, MacroFactory, MacroPiece};
use jmc::token::{Token, TokenType};
use jmc::tokenizer::{get_paren_pair, StateType, Tokenizer};
use jmc::utils::{convention_jmc_to_mc, is_connected, is_decorator, is_vanilla_macro};

fn context() -> (Token, Tokenizer) {
    let token = Token::new(TokenType::Keyword, 1, 1, "name".to_owned(), None, None);
    let tokenizer = Tokenizer::new(
        &Header::default(),
        "name".to_owned(),
        "main.jmc".to_owned(),
        None,
        false,
    );
    (token, tokenizer)
}

#[test]
fn names_become_paths() {
    let (token, tokenizer) = context();
    assert_eq!(
        convention_jmc_to_mc("hello.World", &token, &tokenizer, "class", true).unwrap(),
        "hello/world"
    );
    assert_eq!(
        convention_jmc_to_mc("this.run", &token, &tokenizer, "pack/util/", true).unwrap(),
        "pack/util/run"
    );
    assert_eq!(
        convention_jmc_to_mc("this.run", &token, &tokenizer, "", true).unwrap(),
        "this/run"
    );
    assert_eq!(
        convention_jmc_to_mc("a_1/b.c", &token, &tokenizer, "", false).unwrap(),
        "a_1/b/c"
    );
}

#[test]
fn names_that_are_no_paths_are_refused() {
    let (token, tokenizer) = context();
    let leading = convention_jmc_to_mc(".a", &token, &tokenizer, "", true).unwrap_err();
    assert_eq!(leading.error_type, JMCErrorType::JMCSyntaxException);
    assert!(leading.msg.contains("A name cannot starts with '.'"));
    let trailing = convention_jmc_to_mc("a.", &token, &tokenizer, "", true).unwrap_err();
    assert_eq!(trailing.error_type, JMCErrorType::JMCSyntaxException);
    assert!(trailing.msg.contains("A name cannot ends with '.'"));
    let capital = convention_jmc_to_mc("Abc", &token, &tokenizer, "", false).unwrap_err();
    assert_eq!(capital.error_type, JMCErrorType::MinecraftSyntaxWarning);
    assert!(capital.msg.contains("Invalid character detected in 'Abc'"));
    let call = convention_jmc_to_mc("Run()", &token, &tokenizer, "", true).unwrap_err();
    assert_eq!(call.error_type, JMCErrorType::MinecraftSyntaxWarning);
    assert!(call.msg.contains("Invalid character detected in 'run()'"));
    assert!(call
        .msg
        .ends_with("If run() is meant to be a function name, remove the parentheses"));
    for bad in ["", "a b", "a\\b", "a-b", "a\nb", "é"] {
        let error = convention_jmc_to_mc(bad, &token, &tokenizer, "", true).unwrap_err();
        assert_eq!(error.error_type, JMCErrorType::MinecraftSyntaxWarning);
    }
}

#[test]
fn decorators_begin_with_an_at_sign() {
    assert!(is_decorator("@add"));
    assert!(is_decorator("@ab"));
    assert!(!is_decorator("@a"));
    assert!(!is_decorator("add"));
    assert!(!is_decorator(""));
}

#[test]
fn macros_of_the_game_stand_in_dollar_brackets() {
    assert!(is_vanilla_macro("$(name)"));
    assert!(is_vanilla_macro("$()"));
    assert!(!is_vanilla_macro("$(name"));
    assert!(!is_vanilla_macro("(name)"));
    assert!(!is_vanilla_macro("$"));
    assert!(!is_vanilla_macro(""));
}

#[test]
fn tokens_are_connected_where_one_ends_and_the_next_begins() {
    let first = Token::new(TokenType::Keyword, 2, 5, "abc".to_owned(), None, None);
    let touching = Token::new(TokenType::Operator, 2, 8, "+".to_owned(), None, None);
    let apart = Token::new(TokenType::Operator, 2, 9, "+".to_owned(), None, None);
    let below = Token::new(TokenType::Operator, 3, 8, "+".to_owned(), None, None);
    assert!(is_connected(&touching, &first));
    assert!(!is_connected(&apart, &first));
    assert!(!is_connected(&below, &first));
    // a string literal counts with its quotes
    let text = Token::new(TokenType::String, 1, 1, "ab".to_owned(), None, Some('"'));
    let behind = Token::new(TokenType::Keyword, 1, 5, "x".to_owned(), None, None);
    assert!(is_connected(&behind, &text));
    // a token of a macro ends where the macro call ended
    let expanded = Token::new(TokenType::Keyword, 1, 1, "expanded".to_owned(), Some(3), None);
    let next = Token::new(TokenType::Keyword, 1, 4, "x".to_owned(), None, None);
    assert!(is_connected(&next, &expanded));
}

#[test]
fn token_lengths_count_columns() {
    let keyword = Token::new(TokenType::Keyword, 1, 1, "héllo".to_owned(), None, None);
    assert_eq!(keyword.length(), 5);
    let single = Token::new(TokenType::String, 1, 1, "it's".to_owned(), None, Some('\''));
    assert_eq!(single.length(), 7);
    assert_eq!(single.get_original_string(), "\"it's\"");
    let double = Token::new(TokenType::String, 1, 1, "it's".to_owned(), None, Some('"'));
    assert_eq!(double.length(), 6);
    let tab = Token::new(TokenType::String, 1, 1, "a\tb".to_owned(), None, None);
    assert_eq!(tab.length(), 6);
    assert_eq!(tab.get_full_string(), "'a\\tb'");
    let empty = Token::empty(TokenType::String, String::new());
    assert_eq!(empty.length(), 2);
    assert_eq!((empty.line, empty.col, empty._macro_length, empty.quote), (0, 0, 0, '"'));
}

#[test]
fn token_kinds_have_their_names() {
    let names: Vec<String> = [
        TokenType::Keyword,
        TokenType::Operator,
        TokenType::ParenRound,
        TokenType::ParenSquare,
        TokenType::ParenCurly,
        TokenType::String,
        TokenType::Comma,
        TokenType::Func,
    ]
    .iter()
    .map(|kind| kind.to_string())
    .collect();
    assert_eq!(
        names,
        vec![
            "Keyword",
            "Operator",
            "Round-Parentheses",
            "Square-Parentheses",
            "Curly-Parentheses",
            "String Literal",
            "Comma",
            "Function"
        ]
    );
    assert_eq!(TokenType::default(), TokenType::Keyword);
}

#[test]
fn states_finish_their_kinds_of_token() {
    assert!(StateType::Idle.is_none());
    assert!(!StateType::Keyword.is_none());
    assert_eq!(StateType::Keyword.to_token_type(), TokenType::Keyword);
    assert_eq!(StateType::Operator.to_token_type(), TokenType::Operator);
    assert_eq!(StateType::ParenRound.to_token_type(), TokenType::ParenRound);
    assert_eq!(StateType::ParenSquare.to_token_type(), TokenType::ParenSquare);
    assert_eq!(StateType::ParenCurly.to_token_type(), TokenType::ParenCurly);
    assert_eq!(StateType::String.to_token_type(), TokenType::String);
    assert_eq!(StateType::Comma.to_token_type(), TokenType::Comma);
    assert_eq!(get_paren_pair('('), Ok(')'));
    assert_eq!(get_paren_pair('['), Ok(']'));
    assert_eq!(get_paren_pair('{'), Ok('}'));
    assert_eq!(get_paren_pair(')'), Err(()));
    assert_eq!(Tokenizer::escape('n'), Ok('\n'));
    assert_eq!(Tokenizer::escape('0'), Ok('\0'));
    assert_eq!(Tokenizer::escape('q'), Err(()));
    assert_eq!(Tokenizer::unescape('\n', '"'), Some(('\\', 'n')));
    assert_eq!(Tokenizer::unescape('\'', '"'), None);
    assert_eq!(Tokenizer::unescape('\'', '\''), Some(('\\', '\'')));
    assert_eq!(Tokenizer::unescape_str_force_quote("a\"b", '`'), "\"a\\\"b\"");
}

#[test]
fn header_notes_each_file_once() {
    let mut header = HeaderInner::default();
    assert!(!header.is_header_already_exist("a.jmc"));
    header.add_file_read("a.jmc".to_owned());
    header.add_file_read("b.jmc".to_owned());
    header.add_file_read("a.jmc".to_owned());
    assert_eq!(header.file_read, vec!["a.jmc".to_owned(), "b.jmc".to_owned()]);
    assert!(header.is_header_already_exist("a.jmc"));
    assert!(!header.is_header_already_exist("c.jmc"));
    let shared = Header { inner: header };
    assert!(shared.get().is_header_already_exist("b.jmc"));
    assert_eq!(shared.into_inner().file_read.len(), 2);
}

#[test]
fn macro_factory_puts_its_pieces_at_the_place_of_the_call() {
    let factory = MacroFactory {
        template: vec![
            MacroPiece::Literal(Token::new(
                TokenType::String,
                9,
                9,
                "text".to_owned(),
                None,
                Some('\''),
            )),
            MacroPiece::Argument(1),
            MacroPiece::Argument(5),
            MacroPiece::Argument(0),
        ],
        key_length: 4,
    };
    let arguments = vec![
        Token::new(TokenType::Keyword, 1, 1, "a".to_owned(), None, None),
        Token::new(TokenType::ParenCurly, 1, 3, "{b}".to_owned(), None, None),
    ];
    let out = factory.call(&arguments, 7, 3);
    let shown: Vec<(TokenType, String, u32, u32, u32, char)> = out
        .iter()
        .map(|t| (t.token_type, t.string.clone(), t.line, t.col, t._macro_length, t.quote))
        .collect();
    assert_eq!(
        shown,
        vec![
            (TokenType::String, "text".to_owned(), 7, 3, 4, '\''),
            (TokenType::ParenCurly, "{b}".to_owned(), 7, 3, 4, '"'),
            (TokenType::Keyword, "a".to_owned(), 7, 3, 4, '"'),
        ]
    );
}

#[test]
fn every_this_gives_way_to_the_prefix() {
    let (token, tokenizer) = context();
    assert_eq!(
        convention_jmc_to_mc("this.a.this.b", &token, &tokenizer, "p/", true).unwrap(),
        "p/a/p/b"
    );
    // a name that does not begin with `this.` keeps every `this.`
    assert_eq!(
        convention_jmc_to_mc("a.this.b", &token, &tokenizer, "p/", true).unwrap(),
        "a/this/b"
    );
}
