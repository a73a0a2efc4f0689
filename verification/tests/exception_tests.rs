use jmc::exception::{create_error_msg, relative_file_name, JMCError, JMCErrorType};
use jmc::header::Header;
use jmc::pack_version::PackVersion;
use jmc::token::{Token, TokenType};
use jmc::tokenizer::Tokenizer;

fn tokenizer_for(text: &str, path: &str, working_dir: &str) -> Tokenizer {
    let mut header = Header::default();
    header.inner.working_dir = working_dir.to_owned();
    Tokenizer::new(&header, text.to_owned(), path.to_owned(), None, false)
}

const SOURCE: &str = "first line\n\tsay hello there;\nthird line";

#[test]
fn diagnostic_underlines_the_token() {
    let tokenizer = tokenizer_for(SOURCE, "/work/pack/main.jmc", "/work");
    let token = Token::new(TokenType::Keyword, 2, 6, "hello".to_owned(), None, None);
    let message = create_error_msg(
        "Unknown word",
        Some(&token),
        &tokenizer,
        false,
        true,
        false,
        Some("Try another word".to_owned()),
    );
    assert_eq!(
        message,
        "In pack/main.jmc:2:6\n\
         Unknown word at line 2 col 6.\n\
         1 |first line\n\
         2 |    say hello there;\n\
         \x20\x20\x20\x20\x20\x20\x20\x20\x20\x20\x20^^^^^\n\
         3 |third line\n\
         Try another word"
    );
}

#[test]
fn diagnostic_behind_the_token() {
    let tokenizer = tokenizer_for(SOURCE, "main.jmc", "");
    let token = Token::new(TokenType::Keyword, 2, 6, "hello".to_owned(), None, None);
    let message = create_error_msg("Expected more", Some(&token), &tokenizer, true, true, false, None);
    assert_eq!(
        message,
        "In main.jmc:2:11\n\
         Expected more at line 2 col 11.\n\
         1 |first line\n\
         2 |    say hello there;\n\
         \x20\x20\x20\x20\x20\x20\x20\x20\x20\x20\x20\x20\x20\x20\x20\x20^\n\
         3 |third line\n"
    );
}

#[test]
fn diagnostic_without_a_token_points_at_the_tokenizer() {
    let mut tokenizer = tokenizer_for("ab\ncd", "main.jmc", "");
    tokenizer.line = 1;
    tokenizer.col = 2;
    let message = create_error_msg("Bad place", None, &tokenizer, false, true, false, None);
    assert_eq!(
        message,
        "In main.jmc:1:2\n\
         Bad place at line 1 col 2.\n\
         0 |\n\
         1 |ab\n\
         \x20\x20\x20\x20^\n\
         2 |cd\n"
    );
}

#[test]
fn diagnostic_for_the_whole_line_names_no_column() {
    let mut tokenizer = tokenizer_for("say \"open\nnext", "main.jmc", "");
    tokenizer.line = 1;
    tokenizer.col = 10;
    let message = create_error_msg("Broken", None, &tokenizer, false, false, true, None);
    assert_eq!(
        message,
        "In main.jmc:1\n\
         Broken at line 1.\n\
         0 |\n\
         1 |say \"open\n\
         \x20\x20\x20\x20\x20\x20\x20\x20\x20\x20\x20\x20\n\
         2 |next\n"
    );
    tokenizer.col = 5;
    let message = create_error_msg("Broken", None, &tokenizer, false, false, true, None);
    assert!(message.contains("\n       ^^^^^\n"));
}

#[test]
fn diagnostic_pads_line_numbers_to_one_width() {
    let text = "l1\nl2\nl3\nl4\nl5\nl6\nl7\nl8\nl9\nl10\nl11";
    let tokenizer = tokenizer_for(text, "main.jmc", "");
    let token = Token::new(TokenType::Keyword, 9, 1, "l9".to_owned(), None, None);
    let message = create_error_msg("M", Some(&token), &tokenizer, false, true, false, None);
    assert_eq!(
        message,
        "In main.jmc:9:1\n\
         M at line 9 col 1.\n\
         \x208 |l8\n\
         \x209 |l9\n\
         \x20\x20\x20\x20^^\n\
         10 |l10\n"
    );
}

#[test]
fn diagnostic_for_a_token_of_several_lines_points_to_its_last_line() {
    let text = "f (a\nbc) d;";
    let tokenizer = tokenizer_for(text, "main.jmc", "");
    let token = Token::new(TokenType::ParenRound, 1, 3, "(a\nbc)".to_owned(), None, None);
    let message = create_error_msg("M", Some(&token), &tokenizer, true, true, false, None);
    assert_eq!(
        message,
        "In main.jmc:2:4\n\
         M at line 2 col 4.\n\
         1 |f (a\n\
         2 |bc) d;\n\
         \x20\x20\x20\x20\x20\x20^\n\
         3 |\n"
    );
}

#[test]
fn file_name_is_shown_from_the_working_directory() {
    assert_eq!(
        relative_file_name("/work/pack/main.jmc", "/work", Some(3), Some(14)),
        "pack/main.jmc:3:14"
    );
    assert_eq!(
        relative_file_name("/work/pack/main.jmc", "/work/", Some(3), None),
        "pack/main.jmc:3"
    );
    assert_eq!(
        relative_file_name("/workshop/main.jmc", "/work", Some(3), Some(1)),
        "/workshop/main.jmc:3:1"
    );
    assert_eq!(
        relative_file_name("/other/main.jmc", "/work", None, None),
        "/other/main.jmc"
    );
    assert_eq!(relative_file_name("main.jmc", "", Some(1), None), "main.jmc:1");
    assert_eq!(relative_file_name("/work", "/work", Some(2), None), ":2");
}

#[test]
fn plain_failures_carry_their_texts() {
    let evaluation = JMCError::evaluation_exception("1 +".to_owned());
    assert_eq!(evaluation.error_type, JMCErrorType::EvaluationException);
    assert_eq!(evaluation.msg, "Unable to evaluate expression '1 +'");

    let missing = JMCError::jmc_file_not_found("JMC file not found: a.jmc".to_owned());
    assert_eq!(missing.error_type, JMCErrorType::JMCFileNotFound);
    assert_eq!(missing.msg, "JMC file not found: a.jmc");

    let header = JMCError::header_file_not_found_error("/work/main.hjmc");
    assert_eq!(header.error_type, JMCErrorType::HeaderFileNotFoundError);
    assert_eq!(header.msg, "Header file not found: /work/main.hjmc");

    let duplicated = JMCError::header_duplicated_macro(
        "Duplicated macro".to_owned(),
        "/work/main.hjmc".to_owned(),
        "/work",
        4,
        "#define A 1".to_owned(),
    );
    assert_eq!(duplicated.error_type, JMCErrorType::HeaderDuplicatedMacro);
    assert_eq!(
        duplicated.msg,
        "In main.hjmc:4\nDuplicated macro at line 4\n#define A 1"
    );

    let syntax = JMCError::header_syntax_exception(
        "Expected a keyword".to_owned(),
        "main.hjmc".to_owned(),
        "/work",
        12,
        "#define".to_owned(),
        Some("\nGive the macro a name".to_owned()),
    );
    assert_eq!(syntax.error_type, JMCErrorType::HeaderSyntaxException);
    assert_eq!(
        syntax.msg,
        "In main.hjmc:12\nExpected a keyword at line 12\n#define\nGive the macro a name"
    );
}

#[test]
fn anchored_failures_differ_in_their_kind_only() {
    let tokenizer = tokenizer_for(SOURCE, "main.jmc", "");
    let token = Token::new(TokenType::Keyword, 2, 6, "hello".to_owned(), None, None);
    let text = create_error_msg("M", Some(&token), &tokenizer, false, true, false, None);
    let exception = JMCError::jmc_syntax_exception(
        "M".to_owned(),
        Some(&token),
        &tokenizer,
        false,
        true,
        false,
        None,
    );
    assert_eq!(exception.error_type, JMCErrorType::JMCSyntaxException);
    assert_eq!(exception.msg, text);
    let warning = JMCError::jmc_syntax_warning(
        "M".to_owned(),
        Some(&token),
        &tokenizer,
        false,
        true,
        false,
        None,
    );
    assert_eq!(warning.error_type, JMCErrorType::JMCSyntaxWarning);
    assert_eq!(warning.msg, text);
    let minecraft = JMCError::minecraft_syntax_warning(
        "M".to_owned(),
        Some(&token),
        &tokenizer,
        false,
        true,
        false,
        None,
    );
    assert_eq!(minecraft.error_type, JMCErrorType::MinecraftSyntaxWarning);
    assert_eq!(minecraft.msg, text);
    let json = JMCError::decode_json_error_at("M".to_owned(), &token, &tokenizer);
    assert_eq!(json.error_type, JMCErrorType::JMCDecodeJSONError);
    assert_eq!(json.msg, text);
}

#[test]
fn pack_format_that_is_too_low_is_refused() {
    let tokenizer = tokenizer_for(SOURCE, "main.jmc", "");
    let token = Token::new(TokenType::Keyword, 2, 6, "hello".to_owned(), None, None);
    let old = PackVersion::new(10);
    assert!(old.require(10, &token, &tokenizer, None).is_ok());
    assert!(old.require(4, &token, &tokenizer, None).is_ok());
    let error = old.require(15, &token, &tokenizer, None).unwrap_err();
    assert_eq!(error.error_type, JMCErrorType::MinecraftVersionTooLow);
    assert!(error.msg.contains(
        "Datapack's pack_format is too outdated for this feature. Expected pack_format of 15 or higher at line 2 col 6."
    ));
    // the format 0 lifts every demand
    assert!(PackVersion::new(0).require(99, &token, &tokenizer, None).is_ok());
}

#[test]
fn pack_format_follows_the_version_of_the_game() {
    assert_eq!(PackVersion::try_from((1, 21, 0)), Ok(PackVersion::new(41)));
    assert_eq!(PackVersion::try_from((1, 20, 6)), Ok(PackVersion::new(41)));
    assert_eq!(PackVersion::try_from((1, 20, 5)), Ok(PackVersion::new(26)));
    assert_eq!(PackVersion::try_from((1, 20, 1)), Ok(PackVersion::new(15)));
    assert_eq!(PackVersion::try_from((1, 19, 4)), Ok(PackVersion::new(10)));
    assert_eq!(PackVersion::try_from((1, 13, 1)), Ok(PackVersion::new(4)));
    assert_eq!(PackVersion::try_from((1, 13, 0)), Err(()));
    assert_eq!(PackVersion::try_from((1, 12, 2)), Err(()));
    assert_eq!(PackVersion::try_from((2, 0, 0)), Ok(PackVersion::new(41)));
}

#[test]
fn failure_of_the_json_parser_becomes_the_message() {
    let tokenizer = tokenizer_for("new recipe(a) {\"a\": ", "main.jmc", "");
    let token = Token::new(TokenType::ParenCurly, 1, 15, "{\"a\": }".to_owned(), None, None);
    let error = serde_json::from_str::<serde_json::Value>("{\"a\": ").unwrap_err();
    let failure = JMCError::jmc_decode_json_error(error, &token, &tokenizer);
    assert_eq!(failure.error_type, JMCErrorType::JMCDecodeJSONError);
    assert!(failure
        .msg
        .contains("EOF while parsing a value at line 1 column 6 at line 1 col 15."));
}
