use jmc::exception::{JMCError, JMCErrorType};
use jmc::header::{Header, MacroEntry, MacroFactory, MacroPiece};
use jmc::token::{Token, TokenType};
use jmc::tokenizer::Tokenizer;

fn tokenize_with(header: &Header, source: &str) -> Result<Tokenizer, JMCError> {
    Tokenizer::parse_raw_string(
        header,
        source.to_owned(),
        "main.jmc".to_owned(),
        None,
        true,
        false,
    )
}

fn tokenize(source: &str) -> Result<Tokenizer, JMCError> {
    tokenize_with(&Header::default(), source)
}

fn shape(statements: &Vec<Vec<Token>>) -> Vec<Vec<(TokenType, String)>> {
    statements
        .iter()
        .map(|s| s.iter().map(|t| (t.token_type, t.string.clone())).collect())
        .collect()
}

fn keyword(text: &str) -> (TokenType, String) {
    (TokenType::Keyword, text.to_owned())
}

fn places(statement: &Vec<Token>) -> Vec<(u32, u32)> {
    statement.iter().map(|t| (t.line, t.col)).collect()
}

#[test]
fn say_hello_world_is_one_statement_of_two_tokens() {
    let tokenizer = tokenize(r#"say "Hello World";"#).unwrap();
    assert_eq!(
        shape(&tokenizer.programs),
        vec![vec![
            keyword("say"),
            (TokenType::String, "Hello World".to_owned()),
        ]]
    );
    let say = &tokenizer.programs[0][0];
    assert_eq!((say.line, say.col), (1, 1));
    let text = &tokenizer.programs[0][1];
    assert_eq!((text.line, text.col), (1, 5));
    assert_eq!(text.quote, '"');
    assert_eq!(text.length(), 13);
}

#[test]
fn unterminated_string_is_refused_at_the_line_break() {
    let error = tokenize("say \"unterminated\n").unwrap_err();
    assert_eq!(error.error_type, JMCErrorType::JMCSyntaxException);
    assert!(error
        .msg
        .contains("String literal contains unescaped line break at line 1."));
}

#[test]
fn string_open_at_the_end_of_the_text_is_refused() {
    let error = tokenize("say \"open").unwrap_err();
    assert_eq!(error.error_type, JMCErrorType::JMCSyntaxException);
    assert!(error
        .msg
        .contains("String literal contains an unescaped linebreak at line 1."));
    assert!(error
        .msg
        .ends_with("If you intended to use multiple line, try multiline string '`'"));
}

#[test]
fn backslash_at_the_end_of_the_text_is_refused() {
    let error = tokenize("say \"open\\").unwrap_err();
    assert_eq!(error.error_type, JMCErrorType::JMCSyntaxException);
    assert!(error
        .msg
        .ends_with("You are currently trying to escape(\\) nothing."));
}

#[test]
fn array_prefix_stays_inside_its_square_bracket() {
    let tokenizer = tokenize("data [I;1,2,3];").unwrap();
    assert_eq!(
        shape(&tokenizer.programs),
        vec![vec![
            keyword("data"),
            (TokenType::ParenSquare, "[I;1,2,3]".to_owned()),
        ]]
    );
    let spaced = tokenize("data [I; 1, 2, 3];").unwrap();
    assert_eq!(spaced.programs[0][1].string, "[I; 1, 2, 3]");
    assert_eq!(spaced.programs[0][1].token_type, TokenType::ParenSquare);
}

#[test]
fn semicolon_is_taken_once_behind_an_array_prefix_where_allowed() {
    let tokenizer = Tokenizer::parse_raw_string(
        &Header::default(),
        "I;1,2".to_owned(),
        "main.jmc".to_owned(),
        None,
        false,
        true,
    )
    .unwrap();
    assert_eq!(
        shape(&tokenizer.programs),
        vec![vec![
            keyword("I;1"),
            (TokenType::Comma, ",".to_owned()),
            keyword("2"),
        ]]
    );
    let refused = Tokenizer::parse_raw_string(
        &Header::default(),
        "X;1".to_owned(),
        "main.jmc".to_owned(),
        None,
        false,
        true,
    )
    .unwrap_err();
    assert!(refused.msg.contains("Unexpected semicolon(;) at line 1 col 2."));
    let not_allowed = Tokenizer::parse_raw_string(
        &Header::default(),
        "I;1".to_owned(),
        "main.jmc".to_owned(),
        None,
        false,
        false,
    )
    .unwrap_err();
    assert!(not_allowed.msg.contains("Unexpected semicolon(;)"));
}

#[test]
fn semicolon_between_tokens_is_refused_where_statements_have_none() {
    let error = Tokenizer::parse_raw_string(
        &Header::default(),
        "a ;".to_owned(),
        "main.jmc".to_owned(),
        None,
        false,
        false,
    )
    .unwrap_err();
    assert_eq!(error.error_type, JMCErrorType::JMCSyntaxException);
    assert!(error.msg.contains("Unexpected semicolon(;) at line 1 col 3."));
}

#[test]
fn operators_keywords_and_commas_are_split() {
    let tokenizer = tokenize("$x+=1,y;").unwrap();
    assert_eq!(
        shape(&tokenizer.programs),
        vec![vec![
            keyword("$x"),
            (TokenType::Operator, "+=".to_owned()),
            keyword("1"),
            (TokenType::Comma, ",".to_owned()),
            keyword("y"),
        ]]
    );
    assert_eq!(
        places(&tokenizer.programs[0]),
        vec![(1, 1), (1, 3), (1, 5), (1, 6), (1, 7)]
    );
}

#[test]
fn brackets_are_taken_whole_with_their_nesting() {
    let tokenizer = tokenize("f(a, (b), \")\") [x] {y};").unwrap();
    assert_eq!(
        shape(&tokenizer.programs),
        vec![vec![
            keyword("f"),
            (TokenType::ParenRound, "(a, (b), \")\")".to_owned()),
            (TokenType::ParenSquare, "[x]".to_owned()),
            (TokenType::ParenCurly, "{y}".to_owned()),
        ]]
    );
}

#[test]
fn statements_keep_the_order_of_the_source() {
    let tokenizer = tokenize("a 1;\nb 2;\n\nc 3;").unwrap();
    assert_eq!(
        shape(&tokenizer.programs),
        vec![
            vec![keyword("a"), keyword("1")],
            vec![keyword("b"), keyword("2")],
            vec![keyword("c"), keyword("3")],
        ]
    );
    assert_eq!(places(&tokenizer.programs[1]), vec![(2, 1), (2, 3)]);
    assert_eq!(places(&tokenizer.programs[2]), vec![(4, 1), (4, 3)]);
}

#[test]
fn comments_are_passed_over() {
    let tokenizer = tokenize("// first\nsay \"a\"; // second\n# third\nsay \"b\";").unwrap();
    assert_eq!(
        shape(&tokenizer.programs),
        vec![
            vec![keyword("say"), (TokenType::String, "a".to_owned())],
            vec![keyword("say"), (TokenType::String, "b".to_owned())],
        ]
    );
    // a hash inside a statement is no comment
    let inside = tokenize("say #x;").unwrap();
    assert_eq!(
        shape(&inside.programs),
        vec![vec![keyword("say"), keyword("#x")]]
    );
    // comments inside a bracket span hide its brackets
    let span = tokenize("f { // }\n x };").unwrap();
    assert_eq!(span.programs[0][1].string, "{ // }\n x }");
}

#[test]
fn escapes_stand_for_their_characters() {
    let tokenizer = tokenize(r#"say "a\nb\t\\\"\q" 'it\'s';"#).unwrap();
    assert_eq!(tokenizer.programs[0][1].string, "a\nb\t\\\"\\q");
    assert_eq!(tokenizer.programs[0][2].string, "it's");
    assert_eq!(tokenizer.programs[0][2].quote, '\'');
}

#[test]
fn curly_bracket_ends_the_statements_that_end_on_it() {
    let tokenizer = tokenize(
        "function f() { a; }\nclass C { }\nif (x) { b; }\n@lazy function g() {}\nexecute as @a run { c; }\nsay \"x\";",
    )
    .unwrap();
    let first: Vec<String> = tokenizer
        .programs
        .iter()
        .map(|s| s[0].string.clone())
        .collect();
    assert_eq!(
        first,
        vec!["function", "class", "if", "@lazy", "execute", "say"]
    );
}

#[test]
fn curly_bracket_elsewhere_needs_its_semicolon() {
    let tokenizer = tokenize("give @s {a:1};\nif (x) give @s {a:1};").unwrap();
    assert_eq!(tokenizer.programs.len(), 2);
    assert_eq!(tokenizer.programs[1].len(), 5);
    let error = tokenize("give @s {a:1}").unwrap_err();
    assert_eq!(error.error_type, JMCErrorType::JMCSyntaxException);
    assert!(error.msg.contains("Expected semicolon(;) at line 1 col 14."));
    // the statement goes on behind the bracket until its semicolon
    let longer = tokenize("give @s {a:1} 2;").unwrap();
    assert_eq!(longer.programs[0].len(), 4);
}

#[test]
fn return_run_ends_on_its_bracket() {
    let tokenizer = tokenize("return run { a; }\nsay \"x\";").unwrap();
    assert_eq!(tokenizer.programs.len(), 2);
    assert_eq!(tokenizer.programs[0].len(), 3);
}

#[test]
fn semicolon_without_a_statement_is_refused() {
    let error = tokenize("say \"a\";;").unwrap_err();
    assert_eq!(error.error_type, JMCErrorType::JMCSyntaxWarning);
    assert!(error.msg.contains("Unnecessary semicolon(;) at line 1 col 9."));
}

#[test]
fn closing_bracket_between_tokens_is_refused() {
    let error = tokenize("say )").unwrap_err();
    assert_eq!(error.error_type, JMCErrorType::JMCSyntaxException);
    assert!(error
        .msg
        .contains("Unexpected closing bracket ()) at line 1 col 5."));
}

#[test]
fn bracket_left_open_is_refused_where_it_began() {
    let error = tokenize("say (a;\nb").unwrap_err();
    assert_eq!(error.error_type, JMCErrorType::JMCSyntaxException);
    assert!(error.msg.contains("Bracket was never closed at line 1 col 5."));
    assert!(error
        .msg
        .ends_with("This can be the result of unclosed string as well"));
}

#[test]
fn backtick_literal_holds_the_lines_between_its_first_and_last() {
    let tokenizer = tokenize("say `\n  hello\n  world\n`;").unwrap();
    let text = &tokenizer.programs[0][1];
    assert_eq!(text.token_type, TokenType::String);
    assert_eq!(text.string, "  hello\n  world");
    assert_eq!(text.quote, '`');
    assert_eq!(text.get_original_string(), "`\n  hello\\n  world\n`");
    let empty = tokenize("say `  \n\n\t`;").unwrap();
    assert_eq!(empty.programs[0][1].string, "");
}

#[test]
fn backtick_literal_needs_two_line_breaks_and_blank_ends() {
    let none = tokenize("say `a`;").unwrap_err();
    assert!(none
        .msg
        .contains("Expected newline after open backtick(`) for multiline string"));
    let one = tokenize("say `\na`;").unwrap_err();
    assert!(one
        .msg
        .contains("Expected newline before close backtick(`) for multiline string"));
    let first = tokenize("say `x\"\na\n`;").unwrap_err();
    assert!(first
        .msg
        .contains(r#"Expected whitespaces line after open backtick(`) (got "x\"")"#));
    let last = tokenize("say `\na\n y`;").unwrap_err();
    assert_eq!(last.error_type, JMCErrorType::JMCSyntaxException);
    assert!(last
        .msg
        .contains(r#"Expected whitespaces line before open backtick(`) (got " y")"#));
}

fn literal(token_type: TokenType, text: &str) -> MacroPiece {
    MacroPiece::Literal(Token::empty(token_type, text.to_owned()))
}

fn header_with_macros() -> Header {
    let mut header = Header::default();
    header.inner.macros.push(MacroEntry {
        name: "GREET".to_owned(),
        factory: MacroFactory {
            template: vec![
                literal(TokenType::Keyword, "say"),
                literal(TokenType::Keyword, "TWICE"),
            ],
            key_length: 5,
        },
        arg_count: 0,
    });
    header.inner.macros.push(MacroEntry {
        name: "TWICE".to_owned(),
        factory: MacroFactory {
            template: vec![
                MacroPiece::Argument(0),
                literal(TokenType::Operator, "+"),
                MacroPiece::Argument(0),
                MacroPiece::Argument(1),
            ],
            key_length: 5,
        },
        arg_count: 2,
    });
    header
}

#[test]
fn macro_without_arguments_expands_once_in_place() {
    let header = header_with_macros();
    let tokenizer = tokenize_with(&header, "x GREET y;").unwrap();
    assert_eq!(
        shape(&tokenizer.programs),
        vec![vec![
            keyword("x"),
            keyword("say"),
            keyword("TWICE"),
            keyword("y"),
        ]]
    );
    let expanded = &tokenizer.programs[0][1];
    assert_eq!((expanded.line, expanded.col), (1, 3));
    assert_eq!(expanded._macro_length, 5);
    assert_eq!(tokenizer.programs[0][0]._macro_length, 0);
}

#[test]
fn macro_with_arguments_takes_them_from_its_round_bracket() {
    let header = header_with_macros();
    let tokenizer = tokenize_with(&header, "a TWICE(-1, \"s\") b;").unwrap();
    assert_eq!(
        shape(&tokenizer.programs),
        vec![vec![
            keyword("a"),
            keyword("-1"),
            (TokenType::Operator, "+".to_owned()),
            keyword("-1"),
            (TokenType::String, "s".to_owned()),
            keyword("b"),
        ]]
    );
    assert_eq!(
        places(&tokenizer.programs[0]),
        vec![(1, 1), (1, 8), (1, 8), (1, 8), (1, 8), (1, 18)]
    );
}

#[test]
fn macro_call_is_checked() {
    let header = header_with_macros();
    let few = tokenize_with(&header, "TWICE(1);").unwrap_err();
    assert_eq!(few.error_type, JMCErrorType::JMCSyntaxWarning);
    assert!(few
        .msg
        .contains("This Macro factory (TWICE) expect 2 arguments (got 1)"));
    let named = tokenize_with(&header, "TWICE(1, k=2);").unwrap_err();
    assert_eq!(named.error_type, JMCErrorType::JMCSyntaxWarning);
    assert!(named
        .msg
        .contains("Macro factory does not support keyword argument (k=)"));
    let bare = tokenize_with(&header, "TWICE x;").unwrap_err();
    assert_eq!(bare.error_type, JMCErrorType::JMCSyntaxWarning);
    assert!(bare
        .msg
        .contains("Expected round bracket after macro factory(TWICE)"));
    assert!(bare
        .msg
        .ends_with("Macro factory(TWICE) requires 2 argument. Try 'TWICE(arg1, arg2)'"));
    let ended = tokenize_with(&header, "TWICE;").unwrap_err();
    assert!(ended
        .msg
        .contains("Expected a round bracket after macro factory(TWICE)"));
}

#[test]
fn string_written_back_is_read_as_itself() {
    for content in ["plain", "it's", "say \"hi\"", "a\nb\\c\t\0", "'\"'\"", ""] {
        let token = Token::new(
            TokenType::String,
            7,
            9,
            content.to_owned(),
            None,
            Some('"'),
        );
        let mut source = token.get_full_string();
        source.push(';');
        let tokenizer = tokenize(&source).unwrap();
        assert_eq!(tokenizer.programs.len(), 1);
        assert_eq!(tokenizer.programs[0].len(), 1);
        let read = &tokenizer.programs[0][0];
        assert_eq!(read.token_type, TokenType::String);
        assert_eq!(read.string, content);
        assert_eq!((read.line, read.col), (1, 1));
    }
}

#[test]
fn length_of_a_source_token_is_its_width_in_columns() {
    let tokenizer = tokenize("give @s[tag=a] minecraft:stone{b:1} 64;").unwrap();
    let statement = &tokenizer.programs[0];
    for pair in statement.windows(2) {
        assert!(pair[0].col as usize + pair[0].length() <= pair[1].col as usize);
    }
    assert_eq!(statement[1].string, "@s");
    assert_eq!(statement[2].string, "[tag=a]");
    assert_eq!(statement[2].col as usize, statement[1].col as usize + statement[1].length());
}

#[test]
fn tokenizer_copy_starts_over_on_the_same_text() {
    let tokenizer = tokenize("a;\nb;").unwrap();
    let copy = tokenizer.clone();
    assert!(copy.programs.is_empty());
    assert_eq!((copy.line, copy.col), (1, 0));
    assert_eq!(copy.get_file_string(), "a;\nb;");
    assert_eq!(copy.file_path_str, "main.jmc");
}
