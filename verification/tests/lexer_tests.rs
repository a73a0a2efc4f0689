use jmc::configuration::Configuration;
use jmc::exception::{JMCError, JMCErrorType};
use jmc::header::Header;
use jmc::lexer::{Lexer, LexerRequest, Pending};
use jmc::pack_version::PackVersion;

fn lexer() -> Lexer {
    let config = Configuration {
        namespace: "namespace".to_owned(),
        load_name: "__load__".to_owned(),
        private_name: "__private__".to_owned(),
        pack_version: PackVersion::new(20),
    };
    Lexer::new(config, Header::default())
}

/// Runs the lexer until it asks for something or fails.
fn next_request(lexer: &mut Lexer) -> Result<LexerRequest, JMCError> {
    loop {
        match lexer.step()? {
            LexerRequest::Again => continue,
            request => return Ok(request),
        }
    }
}

#[test]
fn function_definition_leaves_the_load_body_alone_and_records_its_place() {
    let mut lexer = lexer();
    lexer
        .parse(
            r#"function foo() { say "hi"; }"#.to_owned(),
            "dir/main.jmc",
            true,
        )
        .unwrap();
    let request = next_request(&mut lexer).unwrap();
    let content = match request {
        LexerRequest::Content(content) => content,
        other => panic!("expected a body to lower, got {:?}", other),
    };
    assert!(!content.is_load);
    assert_eq!(content.programs.len(), 1);
    assert_eq!(content.programs[0][0].string, "say");
    assert_eq!(content.programs[0][1].string, "hi");
    assert!(matches!(&lexer.pending, Some(Pending::Function(path)) if path == "foo"));
    assert!(lexer.load_function.is_empty());

    let place = &lexer.datapack.defined_file_pos[0];
    assert_eq!(place.path, "foo");
    assert_eq!((place.token.line, place.token.col), (1, 10));

    lexer.supply_commands(vec!["say hi".to_owned()]);
    assert!(lexer.pending.is_none());
    let (path, function) = &lexer.datapack.functions[1];
    assert_eq!(path, "foo");
    assert_eq!(function.commands, vec!["say hi".to_owned()]);
    // the load function got nothing
    assert_eq!(lexer.datapack.functions[0].0, "__load__");
    assert!(lexer.datapack.functions[0].1.commands.is_empty());
    assert!(matches!(next_request(&mut lexer).unwrap(), LexerRequest::Done));
}

#[test]
fn function_definition_ends_with_its_body() {
    let header = Header::default();
    let tokenizer = jmc::tokenizer::Tokenizer::new(
        &header,
        "function f() {} 1".to_owned(),
        "main.jmc".to_owned(),
        None,
        false,
    );
    let command = vec![
        jmc::token::Token::new(jmc::token::TokenType::Keyword, 1, 1, "function".to_owned(), None, None),
        jmc::token::Token::new(jmc::token::TokenType::Keyword, 1, 10, "f".to_owned(), None, None),
        jmc::token::Token::new(jmc::token::TokenType::ParenRound, 1, 11, "()".to_owned(), None, None),
        jmc::token::Token::new(jmc::token::TokenType::ParenCurly, 1, 14, "{}".to_owned(), None, None),
        jmc::token::Token::new(jmc::token::TokenType::Keyword, 1, 17, "1".to_owned(), None, None),
    ];
    let mut lexer = lexer();
    let error = Lexer::parse_func_tokens(
        &lexer.config,
        &mut lexer.datapack,
        &tokenizer,
        command,
        "main.jmc",
        "",
        true,
    )
    .unwrap_err();
    assert_eq!(error.error_type, JMCErrorType::JMCSyntaxException);
    assert!(error.msg.contains("Unexpected token at line 1 col 17."));
    assert!(lexer.datapack.defined_file_pos.is_empty());
}

#[test]
fn import_of_a_missing_file_is_file_not_found() {
    let mut lexer = lexer();
    lexer
        .parse(r#"import "sub";"#.to_owned(), "dir/main.jmc", true)
        .unwrap();
    let path = match next_request(&mut lexer).unwrap() {
        LexerRequest::File(path) => path,
        other => panic!("expected a file to read, got {:?}", other),
    };
    assert_eq!(path, "dir/sub.jmc");
    let error = lexer.parse_file(&path, None, false).unwrap_err();
    assert_eq!(error.error_type, JMCErrorType::JMCFileNotFound);
    assert_eq!(error.msg, "JMC file not found: dir/sub.jmc");
}

#[test]
fn defining_the_load_function_is_refused() {
    let mut lexer = lexer();
    lexer
        .parse("function __load__() {}".to_owned(), "main.jmc", true)
        .unwrap();
    let error = next_request(&mut lexer).unwrap_err();
    assert_eq!(error.error_type, JMCErrorType::JMCSyntaxWarning);
    assert!(error.msg.contains("Load function is defined at line 1 col 10."));
    assert!(error
        .msg
        .ends_with("JMC needs to reserve '__load__' name for load function."));
}

#[test]
fn importing_the_same_path_twice_adds_nothing() {
    let mut lexer = lexer();
    lexer
        .parse_file("a.jmc", Some("say \"a\";".to_owned()), false)
        .unwrap();
    assert_eq!(lexer.work.len(), 1);
    assert_eq!(lexer.header.inner.file_read, vec!["a.jmc".to_owned()]);
    lexer
        .parse_file("a.jmc", Some("say \"b\";".to_owned()), false)
        .unwrap();
    assert_eq!(lexer.work.len(), 1);
    assert_eq!(lexer.header.inner.file_read, vec!["a.jmc".to_owned()]);
    // even a file that has vanished since is passed over
    lexer.parse_file("a.jmc", None, false).unwrap();
    assert_eq!(lexer.work.len(), 1);
}

#[test]
fn statements_outside_forms_go_to_the_load_function_in_order() {
    let mut lexer = lexer();
    lexer
        .parse(
            "say \"one\";\nfunction f() { say \"in\"; }\nsay \"two\";".to_owned(),
            "main.jmc",
            true,
        )
        .unwrap();
    let mut seen = Vec::new();
    loop {
        match next_request(&mut lexer).unwrap() {
            LexerRequest::Content(content) => {
                let text = content.programs[0][1].string.clone();
                seen.push((content.is_load, text.clone()));
                lexer.supply_commands(vec![format!("say {}", text)]);
            }
            LexerRequest::Done => break,
            other => panic!("unexpected request {:?}", other),
        }
    }
    assert_eq!(
        seen,
        vec![
            (true, "one".to_owned()),
            (false, "in".to_owned()),
            (true, "two".to_owned())
        ]
    );
    assert_eq!(
        lexer.datapack.functions[0].1.commands,
        vec!["say one".to_owned(), "say two".to_owned()]
    );
}

use jmc::datapack::{Datapack, McFunction};
use jmc::decorator_parse::{JMCDecorator, ModifyMcFunction};
use jmc::token::{Token, TokenType};
use jmc::tokenizer::Tokenizer;

fn run(source: &str) -> Result<Lexer, JMCError> {
    let mut lexer = lexer();
    lexer
        .decorators
        .push(("test".to_owned(), ModifyMcFunction::NoSave));
    lexer
        .decorators
        .push(("keep".to_owned(), ModifyMcFunction::Save));
    lexer.parse(source.to_owned(), "dir/main.jmc", true)?;
    let mut request = lexer.step()?;
    loop {
        request = match request {
            LexerRequest::Done => return Ok(lexer),
            LexerRequest::Again => lexer.step()?,
            LexerRequest::Content(content) => {
                let commands = content
                    .programs
                    .iter()
                    .map(|statement| {
                        statement
                            .iter()
                            .map(|token| token.string.clone())
                            .collect::<Vec<String>>()
                            .join(" ")
                    })
                    .collect();
                lexer.supply_commands(commands);
                lexer.step()?
            }
            LexerRequest::Decorated(decorator, function) => {
                if decorator.is_save_to_datapack() {
                    match lexer.decorated(&decorator, function)? {
                        LexerRequest::Content(_) => {
                            lexer.supply_commands(vec!["decorated".to_owned()]);
                            lexer.step()?
                        }
                        other => panic!("unexpected request {:?}", other),
                    }
                } else {
                    lexer.decorated(&decorator, function)?
                }
            }
            LexerRequest::File(path) => {
                let content = match path.as_str() {
                    "dir/lib.jmc" => Some("function lib() { say \"lib\"; }".to_owned()),
                    "dir/all/a.jmc" => Some("say \"a\";".to_owned()),
                    "dir/all/b.jmc" => Some("import \"a\";\nsay \"b\";".to_owned()),
                    _ => None,
                };
                lexer.parse_file(&path, content, false)?;
                lexer.step()?
            }
            LexerRequest::Directory(directory) => {
                let paths = if directory == "all" {
                    Some(vec!["dir/all/a.jmc".to_owned(), "dir/all/b.jmc".to_owned()])
                } else {
                    None
                };
                lexer.import_all(&directory, paths)?;
                lexer.step()?
            }
        };
    }
}

fn function_paths(lexer: &Lexer) -> Vec<String> {
    lexer
        .datapack
        .functions
        .iter()
        .map(|(path, _)| path.clone())
        .collect()
}

#[test]
fn class_puts_its_path_before_its_functions() {
    let lexer = run(
        "class Outer {\n  function a() { say \"a\"; }\n  class Inner.Deep { function b() { say \"b\"; } }\n}\nfunction c.d() {}",
    )
    .unwrap();
    assert_eq!(
        function_paths(&lexer),
        vec!["__load__", "outer/a", "outer/inner/deep/b", "c/d"]
    );
    let inner = lexer
        .datapack
        .defined_file_pos
        .iter()
        .find(|place| place.path == "outer/inner/deep/b")
        .unwrap();
    // positions inside a class are those of the file
    assert_eq!((inner.token.line, inner.token.col), (3, 31));
    assert_eq!(lexer.datapack.functions[2].1.commands, vec!["say b"]);
}

#[test]
fn class_takes_definitions_only() {
    let import = run("class C { import \"x\"; }").unwrap_err();
    assert_eq!(import.error_type, JMCErrorType::JMCSyntaxException);
    assert!(import.msg.contains("Importing is not supported in class at line 1 col 11."));
    let other = run("class C { say \"x\"; }").unwrap_err();
    assert!(other
        .msg
        .contains("Expected 'function' or 'new' or 'class' (got say) at line 1 col 11."));
    let nameless = run("class { }").unwrap_err();
    assert!(nameless
        .msg
        .contains("Expected class name after keyword 'class' (got Curly-Parentheses)"));
    let alone = run("class C;").unwrap_err();
    assert!(alone.msg.contains("Expected '{' after class name"));
}

#[test]
fn function_definition_is_checked() {
    let cases = [
        ("function;", "Expected keyword(function's name) at line 1 col 9."),
        ("function () {}", "Expected keyword(function's name) at line 1 col 10."),
        ("function f;", "Expected round bracket, `()` at line 1 col 11."),
        ("function f(a) {}", "Expected empty round bracket, `()` at line 1 col 11."),
        ("function f();", "Expected { at line 1 col 11."),
        ("function f() 1;", "Expected { at line 1 col 14."),
        ("function f.() {}", "A name cannot ends with '.' at line 1 col 10."),
        ("function f-g() {}", "Expected empty round bracket, `()` at line 1 col 11."),
    ];
    for (source, message) in cases {
        let error = run(source).unwrap_err();
        assert!(
            error.msg.contains(message),
            "{:?} gave {:?}",
            source,
            error.msg
        );
    }
}

#[test]
fn reserved_and_taken_paths_are_refused() {
    let private = run("function __private__() {}").unwrap_err();
    assert_eq!(private.error_type, JMCErrorType::JMCSyntaxWarning);
    assert!(private.msg.contains("Private function is defined at line 1 col 10."));
    assert!(private
        .msg
        .ends_with("JMC needs to reserve '__private__' name for private function."));
    let under = run("function __private__.x() {}").unwrap_err();
    assert!(under
        .msg
        .contains("Function(__private__/x) may override private function of JMC"));
    assert!(under
        .msg
        .ends_with("Please avoid starting function's path with __private__"));
    let twice = run("function a() {}\n  function a() {}").unwrap_err();
    assert_eq!(twice.error_type, JMCErrorType::JMCSyntaxWarning);
    assert!(twice
        .msg
        .contains("Duplicate function declaration(a) at line 2 col 12."));
    assert!(twice
        .msg
        .ends_with("This function was already defined at line 1 col 10 in dir/main.jmc:1:10"));
}

#[test]
fn calls_of_functions_of_the_game_are_statements_of_the_load_function() {
    let lexer = run(
        "function \"ns:f\";\nfunction ns:f;\nfunction ns:a/b;\nfunction ns:f {x:1}\nfunction ns:f with storage ns:s;",
    )
    .unwrap();
    assert_eq!(function_paths(&lexer), vec!["__load__"]);
    assert_eq!(lexer.datapack.functions[0].1.commands.len(), 5);
    assert_eq!(lexer.datapack.functions[0].1.commands[2], "function ns : a / b");
    let tokens = |texts: &[(&str, TokenType)]| -> Vec<Token> {
        texts
            .iter()
            .map(|(text, kind)| Token::empty(*kind, text.to_string()))
            .collect()
    };
    assert!(!Lexer::is_vanilla_func(&tokens(&[
        ("function", TokenType::Keyword),
        ("f", TokenType::Keyword),
        ("()", TokenType::ParenRound),
        ("{}", TokenType::ParenCurly),
    ])));
    assert!(!Lexer::is_vanilla_func(&tokens(&[
        ("function", TokenType::Keyword),
        ("ns", TokenType::Keyword),
        (":", TokenType::Operator),
        ("f", TokenType::Keyword),
        ("x", TokenType::Keyword),
    ])));
    assert!(Lexer::is_vanilla_func(&tokens(&[
        ("function", TokenType::Keyword),
        ("ns", TokenType::Keyword),
        (":", TokenType::Operator),
        ("a", TokenType::Keyword),
        ("/", TokenType::Operator),
        ("b", TokenType::Keyword),
        ("{}", TokenType::ParenCurly),
    ])));
}

#[test]
fn resource_joins_the_datapack_with_its_json() {
    let lexer = run(
        "new advancement(my.first) {\"criteria\": {}}\nclass C { new worldgen.biome(hot) {\"a\": [1, 2]} }",
    )
    .unwrap();
    assert_eq!(
        lexer.datapack.jsons,
        vec![
            (
                "advancements/my/first".to_owned(),
                "{\"criteria\": {}}".to_owned()
            ),
            (
                "worldgen/biome/c/hot".to_owned(),
                "{\"a\": [1, 2]}".to_owned()
            ),
        ]
    );
    let place = &lexer.datapack.defined_file_pos[0];
    assert_eq!(place.path, "advancements/my/first");
    assert_eq!((place.token.line, place.token.col), (1, 5));
}

#[test]
fn resource_is_checked() {
    let cases = [
        ("new;", "Expected keyword(JSON file's type)", JMCErrorType::JMCSyntaxException),
        ("new (a) {}", "Expected keyword(JSON file's type)", JMCErrorType::JMCSyntaxException),
        ("new recipe;", "Expected round bracket(JSON file's path)", JMCErrorType::JMCSyntaxException),
        ("new recipe() {}", "Expected JSON file's path in the bracket", JMCErrorType::JMCSyntaxException),
        ("new thing(a) {}", "Unrecognized JSON file's type(thing)", JMCErrorType::JMCSyntaxException),
        ("new recipe(a);", "Expected { at line 1 col 14.", JMCErrorType::JMCSyntaxException),
        ("new recipe(a) 1;", "Expected JSON file's content", JMCErrorType::JMCSyntaxException),
        ("new recipe(A B) {}", "Invalid character detected in 'a b'", JMCErrorType::MinecraftSyntaxWarning),
        ("new recipe(a) {}\nnew recipe(a) {}", "Duplicate JSON declaration(recipes/a)", JMCErrorType::JMCSyntaxWarning),
    ];
    for (source, message, kind) in cases {
        let error = run(source).unwrap_err();
        assert!(
            error.msg.contains(message),
            "{:?} gave {:?}",
            source,
            error.msg
        );
        assert_eq!(error.error_type, kind);
    }
}

#[test]
fn resource_that_is_no_json_is_refused() {
    let error = run("new recipe(a) {\"a\": }").unwrap_err();
    assert_eq!(error.error_type, JMCErrorType::JMCDecodeJSONError);
    assert!(error.msg.contains("expected value at line 1 column 7 at line 1 col 15."));
    let lexer = run("new recipe(a) {\"a\": \"}\"}").unwrap();
    assert_eq!(lexer.datapack.jsons[0].1, "{\"a\": \"}\"}");
}

#[test]
fn decorated_function_goes_to_its_decorator() {
    let lexer = run("@test function a() { say \"a\"; }\n@keep function b() { say \"b\"; }").unwrap();
    // the one is kept out of the datapack, the other joins it
    assert_eq!(function_paths(&lexer), vec!["__load__", "b"]);
    assert_eq!(lexer.datapack.functions[1].1.commands, vec!["decorated"]);
    let recorded: Vec<String> = lexer
        .datapack
        .defined_file_pos
        .iter()
        .map(|place| place.path.clone())
        .collect();
    assert_eq!(recorded, vec!["a", "b"]);

    let mut with_arguments = lexer_with_decorators();
    with_arguments
        .parse(
            "@test(1, k=2) function c(x) { }".to_owned(),
            "main.jmc",
            true,
        )
        .unwrap();
    match next_request(&mut with_arguments).unwrap() {
        LexerRequest::Decorated(decorator, function) => {
            assert!(!decorator.is_save_to_datapack());
            assert_eq!(decorator.args.len(), 1);
            assert_eq!(decorator.args[0][0].string, "1");
            assert_eq!(decorator.kwargs.len(), 1);
            assert_eq!(decorator.kwargs[0].0, "k");
            assert_eq!(function.func_path, "c");
            assert_eq!(function.params.string, "(x)");
            assert_eq!(function.func_content, " ");
            assert_eq!((function.line, function.col), (1, 29));
        }
        other => panic!("unexpected request {:?}", other),
    }
}

fn lexer_with_decorators() -> Lexer {
    let mut lexer = lexer();
    lexer
        .decorators
        .push(("test".to_owned(), ModifyMcFunction::NoSave));
    lexer
        .decorators
        .push(("keep".to_owned(), ModifyMcFunction::Save));
    lexer
}

#[test]
fn decorated_function_is_checked() {
    let unknown = run("@what function a() {}").unwrap_err();
    assert_eq!(unknown.error_type, JMCErrorType::JMCSyntaxException);
    assert!(unknown.msg.contains("Unrecognized decorator 'what' at line 1 col 1."));
    let import = run("@import function a() {}").unwrap_err();
    assert!(import
        .msg
        .ends_with("Did you mean to use 'import' (without @) instead?"));
    let short = run("@test a() {}").unwrap_err();
    assert!(short.msg.contains("Function decorator syntax usage is"));
    let parameters = run("@keep function a(x) {}").unwrap_err();
    assert!(parameters
        .msg
        .contains("Expected empty round bracket, `()`"));
    let arguments = run("@test(1,) function a() {}").unwrap_err();
    assert!(arguments
        .msg
        .contains("Unexpected comma at the end of function arguments"));
}

#[test]
fn imports_are_worked_through_where_they_stand() {
    let lexer = run("say \"1\";\nimport \"lib\";\nsay \"2\";\nimport \"all/*\";\nsay \"3\";").unwrap();
    assert_eq!(function_paths(&lexer), vec!["__load__", "lib"]);
    assert_eq!(
        lexer.datapack.functions[0].1.commands,
        vec!["say 1", "say 2", "say a", "say b", "say 3"]
    );
    assert_eq!(
        lexer.header.inner.file_read,
        vec!["dir/lib.jmc", "dir/all/a.jmc", "dir/all/b.jmc"]
    );
}

#[test]
fn import_is_checked() {
    let missing = run("import \"nowhere/*\";").unwrap_err();
    assert_eq!(missing.error_type, JMCErrorType::JMCFileNotFound);
    assert_eq!(missing.msg, "Directory(folder) not found: nowhere");
    let other = run("import \"nowhere\\*\";").unwrap_err();
    assert_eq!(other.msg, "Directory(folder) not found: nowhere");
    let bare = run("import;").unwrap_err();
    assert!(bare.msg.contains("Expected string after 'import' at line 1 col 7."));
    let keyword = run("import lib;").unwrap_err();
    assert!(keyword
        .msg
        .contains("Expected string after 'import' (got Keyword) at line 1 col 8."));
    let more = run("import \"lib\" 1;").unwrap_err();
    assert!(more.msg.contains("Unexpected token at line 1 col 14."));
    let rooted = run("import \"/abs/lib.jmc\";").unwrap_err();
    assert_eq!(rooted.msg, "JMC file not found: /abs/lib.jmc");
}

#[test]
fn commands_join_the_function_they_were_asked_for() {
    let mut lexer = lexer();
    // nothing is awaited: the commands are dropped
    lexer.supply_commands(vec!["lost".to_owned()]);
    assert!(lexer.datapack.functions[0].1.commands.is_empty());
    lexer.pending = Some(Pending::Function("a".to_owned()));
    lexer.supply_commands(vec!["one".to_owned()]);
    lexer.pending = Some(Pending::Function("a".to_owned()));
    lexer.supply_commands(vec!["two".to_owned()]);
    assert_eq!(function_paths(&lexer), vec!["__load__", "a"]);
    assert_eq!(lexer.datapack.functions[1].1.commands, vec!["two"]);
    lexer.pending = Some(Pending::Load);
    lexer.supply_commands(vec!["x".to_owned()]);
    lexer.pending = Some(Pending::Load);
    lexer.supply_commands(vec!["y".to_owned()]);
    assert_eq!(lexer.datapack.functions[0].1.commands, vec!["x", "y"]);
}

#[test]
fn datapack_keeps_one_entry_for_each_path() {
    let config = Configuration {
        namespace: "ns".to_owned(),
        load_name: "load".to_owned(),
        private_name: "private".to_owned(),
        pack_version: PackVersion::new(7),
    };
    let mut datapack = Datapack::new(&config);
    assert_eq!(datapack.namespace, "ns");
    assert_eq!(datapack.version, PackVersion::new(7));
    assert_eq!(datapack.function_index("load"), Some(0));
    assert_eq!(datapack.function_index("other"), None);
    datapack.extend_function("tick", vec!["a".to_owned()]);
    datapack.extend_function("tick", vec!["b".to_owned()]);
    assert_eq!(datapack.functions[1].1.commands, vec!["a", "b"]);
    datapack.insert_function("tick".to_owned(), McFunction::from(vec!["c".to_owned()]));
    assert_eq!(datapack.functions.len(), 2);
    assert_eq!(datapack.functions[1].1.commands, vec!["c"]);
    datapack.insert_json("recipes/a".to_owned(), "{}".to_owned());
    datapack.insert_json("recipes/a".to_owned(), "[]".to_owned());
    assert_eq!(datapack.jsons, vec![("recipes/a".to_owned(), "[]".to_owned())]);
    assert_eq!(datapack.json_index("recipes/a"), Some(0));
    assert_eq!(datapack.defined_index("recipes/a"), None);
    let mut function = McFunction::from(vec!["1".to_owned()]);
    function.extend(vec!["2".to_owned(), "3".to_owned()]);
    assert_eq!(function.commands, vec!["1", "2", "3"]);
}

#[test]
fn decorator_without_arguments_keeps_its_kind() {
    let header = Header::default();
    let tokenizer = Tokenizer::new(&header, String::new(), "main.jmc".to_owned(), None, false);
    assert!(ModifyMcFunction::Save.is_save());
    assert!(!ModifyMcFunction::NoSave.is_save());
    let used = JMCDecorator::new(ModifyMcFunction::Save)
        .call(&header, &tokenizer, "class/", None)
        .unwrap();
    assert!(used.is_save_to_datapack());
    assert!(used.args.is_empty());
    assert!(used.kwargs.is_empty());
    assert_eq!(used.prefix, "class/");
}

#[test]
fn defining_asks_for_the_body_to_be_lowered() {
    let mut lexer = lexer();
    let tokenizer = Tokenizer::parse_raw_string(
        &lexer.header,
        "function f() { a; b; }".to_owned(),
        "main.jmc".to_owned(),
        None,
        true,
        false,
    )
    .unwrap();
    let function = Lexer::parse_func_tokens(
        &lexer.config,
        &mut lexer.datapack,
        &tokenizer,
        tokenizer.programs[0].clone(),
        "main.jmc",
        "pre/",
        true,
    )
    .unwrap();
    assert_eq!(function.func_path, "pre/f");
    assert_eq!(function.func_content, " a; b; ");
    match lexer.define(function).unwrap() {
        LexerRequest::Content(content) => {
            assert_eq!(content.programs.len(), 2);
            assert_eq!(content.prefix, "pre/");
            assert_eq!(
                (content.programs[1][0].line, content.programs[1][0].col),
                (1, 19)
            );
        }
        other => panic!("unexpected request {:?}", other),
    }
}

#[test]
fn whole_program_is_worked_through_in_order() {
    let source = r#"// a small pack
$counter = 0;
import "lib";

class Game.State {
    function start() {
        $counter += 1;
        if ($counter > 3) {
            say "late";
        } else {
            tellraw @a {"text": "go", "color": "green"};
        }
    }
    new advancement(root) {
        "criteria": {"tick": {"trigger": "minecraft:tick"}}
    }
}

function tick() {
    execute as @a at @s run {
        particle flame ~ ~ ~;
    }
}
tellraw @a `
  {"text": "loaded"}
`;
"#;
    let lexer = run(source).unwrap();
    assert_eq!(
        function_paths(&lexer),
        vec!["__load__", "lib", "game/state/start", "tick"]
    );
    assert_eq!(
        lexer.datapack.functions[0].1.commands,
        vec!["$counter = 0", "tellraw @a   {\"text\": \"loaded\"}"]
    );
    // `if` and `else` end on their curly brackets, each a statement of its own
    assert_eq!(lexer.datapack.functions[2].1.commands.len(), 3);
    assert_eq!(lexer.datapack.functions[2].1.commands[0], "$counter += 1");
    assert!(lexer.datapack.functions[2].1.commands[1].starts_with("if ($counter > 3) {"));
    assert!(lexer.datapack.functions[2].1.commands[2].starts_with("else {"));
    assert_eq!(lexer.datapack.jsons.len(), 1);
    assert_eq!(lexer.datapack.jsons[0].0, "advancements/game/state/root");
    let places: Vec<(String, u32, u32)> = lexer
        .datapack
        .defined_file_pos
        .iter()
        .map(|place| (place.path.clone(), place.token.line, place.token.col))
        .collect();
    assert_eq!(
        places,
        vec![
            ("lib".to_owned(), 1, 10),
            ("game/state/start".to_owned(), 6, 14),
            ("advancements/game/state/root".to_owned(), 14, 9),
            ("tick".to_owned(), 19, 10),
        ]
    );
}

#[test]
fn file_that_is_missing_leaves_the_lexer_as_it_was() {
    let mut lexer = lexer();
    lexer.header.inner.credits.push("made by hand".to_owned());
    lexer
        .datapack
        .insert_json("recipes/a".to_owned(), "{}".to_owned());
    let error = lexer.parse_file("dir/sub.jmc", None, false).unwrap_err();
    assert_eq!(error.error_type, JMCErrorType::JMCFileNotFound);
    assert_eq!(lexer.datapack.jsons.len(), 1);
    assert_eq!(lexer.datapack.functions.len(), 1);
    assert!(lexer.header.inner.file_read.is_empty());
    assert_eq!(lexer.header.inner.credits, vec!["made by hand"]);
    assert!(lexer.work.is_empty());
}

#[test]
fn decorator_that_does_not_save_drops_its_function() {
    let mut lexer = lexer_with_decorators();
    lexer
        .parse(
            "@test function a() { say \"a\"; }\nsay \"b\";".to_owned(),
            "main.jmc",
            true,
        )
        .unwrap();
    let (decorator, function) = match next_request(&mut lexer).unwrap() {
        LexerRequest::Decorated(decorator, function) => (decorator, function),
        other => panic!("unexpected request {:?}", other),
    };
    // the lexer goes on with the statement behind the function
    let mut request = lexer.decorated(&decorator, function).unwrap();
    while matches!(request, LexerRequest::Again) {
        request = lexer.step().unwrap();
    }
    match request {
        LexerRequest::Content(content) => {
            assert!(content.is_load);
            assert_eq!(content.programs[0][1].string, "b");
        }
        other => panic!("unexpected request {:?}", other),
    }
    assert_eq!(lexer.datapack.functions.len(), 1);
}
