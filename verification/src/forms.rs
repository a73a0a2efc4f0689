//! What the lexer makes of a statement, as functions on plain values: the
//! top-level forms (function, class, resource, import, decorated function),
//! each from the tokens of its statement to what it defines or to the
//! failure that ends the compilation.

use crate::configuration::ConfigurationView;
use crate::datapack::{DatapackView, DefinedPosView, PreMcFunctionView};
use crate::decorator_parse::{JMCDecoratorView, ModifyMcFunction};
use crate::exception::{anchored, located, JMCErrorType, JMCErrorView};
use crate::foreign::json_fault;
use crate::grammar::{inner_text, ArgumentsView};
use crate::header::MacroEntryView;
use crate::lexer_func_content::FuncContentView;
use crate::text::{after_last, decimal, ends_with, position, starts_with};
use crate::token::{kind_name, TokenType, TokenView};
use crate::tokenizer::TokenizerView;
use crate::utils::path_of_name;
use vstd::prelude::*;

verus! {

/// The number of pairs of tokens of `command` from `i` on, two by two, whose
/// first token is `/`: the steps of a path behind the name of a function of
/// the game.
pub open spec fn path_pairs(command: Seq<TokenView>, i: int) -> nat
    decreases command.len() - i,
{
    if i < 0 || i + 1 >= command.len() {
        0
    } else {
        (if command[i].string == "/"@ {
            1nat
        } else {
            0nat
        }) + path_pairs(command, i + 2)
    }
}

/// Whether the statement `command`, which begins with `function`, calls a
/// function of the game rather than defines one: its second token is a string
/// literal and its last; or `namespace:name` follows, and behind it, the
/// steps of a path apart, nothing, or one curly bracket, or `with` and more.
pub open spec fn is_vanilla_func(command: Seq<TokenView>) -> bool {
    let n = command.len() as int;
    if n == 2 && command[1].token_type == TokenType::String {
        true
    } else if !(n >= 4 && command[1].token_type == TokenType::Keyword && command[2].token_type
        == TokenType::Operator && command[2].string == ":"@ && command[3].token_type
        == TokenType::Keyword) {
        false
    } else {
        let length = n - 2 * path_pairs(command, 4);
        length == 4 || (length == 5 && command[n - 1].token_type == TokenType::ParenCurly) || (
        length >= 5 && command[4].string == "with"@)
    }
}

/// The failure of the kind "syntax" at `token`.
pub open spec fn refuse(
    tokenizer: TokenizerView,
    message: Seq<char>,
    token: TokenView,
    is_length_include_col: bool,
    is_display_col_length: bool,
) -> JMCErrorView {
    anchored(
        JMCErrorType::JMCSyntaxException,
        message,
        Some(token),
        tokenizer,
        is_length_include_col,
        is_display_col_length,
        false,
        None,
    )
}

/// The failure of the kind "warning" at `token`, with a suggestion.
pub open spec fn warn(
    tokenizer: TokenizerView,
    message: Seq<char>,
    token: TokenView,
    is_display_col_length: bool,
    suggestion: Option<Seq<char>>,
) -> JMCErrorView {
    anchored(
        JMCErrorType::JMCSyntaxWarning,
        message,
        Some(token),
        tokenizer,
        false,
        is_display_col_length,
        false,
        suggestion,
    )
}

/// The hint that names where `path` was defined before, as far as that is
/// on record.
pub open spec fn defined_before(
    datapack: DatapackView,
    path: Seq<char>,
    working_dir: Seq<char>,
    what: Seq<char>,
) -> Option<Seq<char>> {
    match datapack.defined_at(path) {
        Some(place) => Some(
            "This "@ + what + " was already defined at line "@ + decimal(place.token.line as nat)
                + " col "@ + decimal(place.token.col as nat) + " in "@ + located(
                place.file_path_str,
                working_dir,
                Some(place.token.line as nat),
                Some(place.token.col as nat),
            ),
        ),
        None => None,
    }
}

/// What the definition of a function gives: the datapack with the definition
/// on record, and the function with its body as text.
///
/// `command` is the statement from `function` on: `function name() { .. }`.
/// The name becomes a path as `path_of_name` says, behind `prefix`. The path
/// may lie neither under the compiler's own path nor be that path or the
/// path of the load function, and no function may have it yet.
pub open spec fn func_tokens(
    config: ConfigurationView,
    datapack: DatapackView,
    tokenizer: TokenizerView,
    command: Seq<TokenView>,
    file_path_str: Seq<char>,
    prefix: Seq<char>,
    is_save_to_datapack: bool,
) -> Result<(DatapackView, PreMcFunctionView), JMCErrorView> {
    if command.len() < 2 {
        Err(refuse(tokenizer, "Expected keyword(function's name)"@, command[0], true, true))
    } else if command[1].token_type != TokenType::Keyword {
        Err(refuse(tokenizer, "Expected keyword(function's name)"@, command[1], false, true))
    } else if command.len() < 3 {
        Err(refuse(tokenizer, "Expected round bracket, `()`"@, command[1], true, true))
    } else if is_save_to_datapack && command[2].string != "()"@ {
        Err(refuse(tokenizer, "Expected empty round bracket, `()`"@, command[2], false, true))
    } else if command.len() < 4 {
        Err(refuse(tokenizer, "Expected {"@, command[1], true, true))
    } else if command[3].token_type != TokenType::ParenCurly {
        Err(refuse(tokenizer, "Expected {"@, command[3], false, false))
    } else if command.len() > 4 {
        Err(refuse(tokenizer, "Unexpected token"@, command[4], false, true))
    } else {
        match path_of_name(command[1].string, command[1], tokenizer, Seq::empty(), true) {
            Err(e) => Err(e),
            Ok(name) => {
                let func_path = prefix + name;
                if starts_with(func_path, config.private_name + "/"@) {
                    Err(
                        warn(
                            tokenizer,
                            "Function("@ + func_path + ") may override private function of JMC"@,
                            command[1],
                            true,
                            Some(
                                "Please avoid starting function's path with "@
                                    + config.private_name,
                            ),
                        ),
                    )
                } else if func_path == config.load_name {
                    Err(
                        warn(
                            tokenizer,
                            "Load function is defined"@,
                            command[1],
                            true,
                            Some(
                                "JMC needs to reserve '"@ + config.load_name
                                    + "' name for load function."@,
                            ),
                        ),
                    )
                } else if datapack.has_function(func_path) {
                    Err(
                        warn(
                            tokenizer,
                            "Duplicate function declaration("@ + func_path + ")"@,
                            command[1],
                            true,
                            defined_before(
                                datapack,
                                func_path,
                                tokenizer.working_dir,
                                "function"@,
                            ),
                        ),
                    )
                } else if func_path == config.private_name {
                    Err(
                        warn(
                            tokenizer,
                            "Private function is defined"@,
                            command[1],
                            false,
                            Some(
                                "JMC needs to reserve '"@ + config.private_name
                                    + "' name for private function."@,
                            ),
                        ),
                    )
                } else {
                    Ok(
                        (
                            datapack.record(
                                DefinedPosView {
                                    path: func_path,
                                    token: command[1],
                                    file_path_str: tokenizer.file_path_str,
                                },
                            ),
                            PreMcFunctionView {
                                func_content: inner_text(command[3].string),
                                jmc_file_path: file_path_str,
                                line: command[3].line,
                                col: command[3].col,
                                func_path,
                                self_token: command[1],
                                params: command[2],
                                file_string: tokenizer.file_text(),
                                prefix,
                            },
                        ),
                    )
                }
            },
        }
    }
}

/// The body of a class: the path that stands before every function in it,
/// the text between its curly brackets, and the place of the opening one.
pub struct ClassBodyView {
    pub class_path: Seq<char>,
    pub content: Seq<char>,
    pub line: u32,
    pub col: u32,
}

/// What the statement `command`, `class Name { .. }`, gives: the body of the
/// class. The name becomes a path as `path_of_name` says, behind `prefix`
/// and before a `/`.
pub open spec fn class_body(tokenizer: TokenizerView, command: Seq<TokenView>, prefix: Seq<char>) -> Result<
    ClassBodyView,
    JMCErrorView,
> {
    if command.len() < 2 {
        Err(
            refuse(
                tokenizer,
                "Expected class name after keyword 'class'"@,
                command[0],
                false,
                true,
            ),
        )
    } else if command[1].token_type != TokenType::Keyword {
        Err(
            refuse(
                tokenizer,
                "Expected class name after keyword 'class' (got "@ + kind_name(
                    command[1].token_type,
                ) + ")"@,
                command[1],
                false,
                true,
            ),
        )
    } else if command.len() < 3 {
        Err(refuse(tokenizer, "Expected '{' after class name"@, command[1], false, true))
    } else {
        match path_of_name(command[1].string, command[1], tokenizer, Seq::empty(), true) {
            Err(e) => Err(e),
            Ok(name) => Ok(
                ClassBodyView {
                    class_path: prefix + name + "/"@,
                    content: inner_text(command[2].string),
                    line: command[2].line,
                    col: command[2].col,
                },
            ),
        }
    }
}

/// What an import asks for.
pub enum ImportView {
    /// The one file of this path.
    File(Seq<char>),
    /// Every source file below this directory.
    Directory(Seq<char>),
}

/// The directory of the file `path`, with its `/`: empty for a path without
/// a `/`.
pub open spec fn parent_dir(path: Seq<char>) -> Seq<char> {
    path.take(after_last(path, '/'))
}

/// `name` with the ending of a source file, unless it has it.
pub open spec fn with_extension(name: Seq<char>) -> Seq<char> {
    if ends_with(name, ".jmc"@) {
        name
    } else {
        name + ".jmc"@
    }
}

/// The path of the file that the file `file_path` imports as `name`: beside
/// that file, unless `name` begins at the root.
pub open spec fn import_path(file_path: Seq<char>, name: Seq<char>) -> Seq<char> {
    if starts_with(name, "/"@) {
        with_extension(name)
    } else {
        parent_dir(file_path) + with_extension(name)
    }
}

/// What the statement `command`, `import "..."`, in the file `file_path`
/// asks for: a directory where the string ends with `/*` or `\*`, the
/// directory being what stands before that; else a file.
pub open spec fn import_target(
    tokenizer: TokenizerView,
    command: Seq<TokenView>,
    file_path: Seq<char>,
) -> Result<ImportView, JMCErrorView> {
    if command.len() < 2 {
        Err(refuse(tokenizer, "Expected string after 'import'"@, command[0], true, true))
    } else if command[1].token_type != TokenType::String {
        Err(
            refuse(
                tokenizer,
                "Expected string after 'import' (got "@ + kind_name(command[1].token_type) + ")"@,
                command[1],
                false,
                false,
            ),
        )
    } else if command.len() > 2 {
        Err(refuse(tokenizer, "Unexpected token"@, command[2], false, true))
    } else if ends_with(command[1].string, "/*"@) || ends_with(command[1].string, "\\*"@) {
        Ok(ImportView::Directory(command[1].string.take(command[1].string.len() - 2)))
    } else {
        Ok(ImportView::File(import_path(file_path, command[1].string)))
    }
}

/// The kinds of resource that the game knows, by the name of their directory.
pub open spec fn is_json_type(name: Seq<char>) -> bool {
    name == "advancements"@ || name == "dimension"@ || name == "dimension_type"@ || name
        == "loot_tables"@ || name == "predicates"@ || name == "recipes"@ || name
        == "item_modifiers"@ || name == "structures"@ || name == "worldgen/biome"@ || name
        == "worldgen/configured_carver"@ || name == "worldgen/configured_feature"@ || name
        == "worldgen/configured_surface_builder"@ || name == "worldgen/density_function"@ || name
        == "worldgen/flat_level_generator_preset"@ || name == "worldgen/noise"@ || name
        == "worldgen/noise_settings"@ || name == "worldgen/placed_feature"@ || name
        == "worldgen/processor_list"@ || name == "worldgen/structure"@ || name
        == "worldgen/structure_set"@ || name == "worldgen/template_pool"@ || name
        == "worldgen/world_preset"@ || name == "trim_material"@ || name == "trim_pattern"@ || name
        == "chat_type"@ || name == "damage_type"@
}

/// The name of the game for a kind of resource that the source may name in
/// the singular.
pub open spec fn json_type_of(name: Seq<char>) -> Seq<char> {
    if name == "advancement"@ {
        "advancements"@
    } else if name == "loot_table"@ {
        "loot_tables"@
    } else if name == "structure"@ {
        "structures"@
    } else if name == "recipe"@ {
        "recipes"@
    } else {
        name
    }
}

/// What the statement `command`, `new type(path) { .. }`, gives: the
/// datapack with the resource in it and its definition on record.
///
/// The type becomes a path as `path_of_name` says and must be a kind of
/// resource of the game, or the singular of one. The path between the round
/// brackets becomes a path in the same way, behind the type, a `/` and
/// `prefix`. No resource may have that path yet. What stands in the curly
/// bracket, the brackets included, must be JSON.
pub open spec fn resource(
    datapack: DatapackView,
    tokenizer: TokenizerView,
    command: Seq<TokenView>,
    prefix: Seq<char>,
) -> Result<DatapackView, JMCErrorView> {
    if command.len() < 2 {
        Err(refuse(tokenizer, "Expected keyword(JSON file's type)"@, command[0], true, true))
    } else if command[1].token_type != TokenType::Keyword {
        Err(refuse(tokenizer, "Expected keyword(JSON file's type)"@, command[1], false, true))
    } else if command.len() < 3 {
        Err(
            refuse(
                tokenizer,
                "Expected round bracket(JSON file's path)"@,
                command[1],
                true,
                true,
            ),
        )
    } else if command[2].string == "()"@ {
        Err(
            refuse(
                tokenizer,
                "Expected JSON file's path in the bracket"@,
                command[2],
                false,
                true,
            ),
        )
    } else {
        match path_of_name(command[1].string, command[1], tokenizer, Seq::empty(), true) {
            Err(e) => Err(e),
            Ok(given) => {
                let json_type = json_type_of(given);
                if !is_json_type(json_type) {
                    Err(
                        refuse(
                            tokenizer,
                            "Unrecognized JSON file's type("@ + json_type + ")"@,
                            command[1],
                            false,
                            true,
                        ),
                    )
                } else if command.len() < 4 {
                    Err(refuse(tokenizer, "Expected {"@, command[2], true, true))
                } else if command[3].token_type != TokenType::ParenCurly {
                    Err(
                        refuse(
                            tokenizer,
                            "Expected JSON file's content"@,
                            command[3],
                            false,
                            true,
                        ),
                    )
                } else if command.len() > 4 {
                    Err(refuse(tokenizer, "Unexpected token"@, command[4], false, true))
                } else {
                    match path_of_name(
                        inner_text(command[2].string),
                        command[2],
                        tokenizer,
                        Seq::empty(),
                        true,
                    ) {
                        Err(e) => Err(e),
                        Ok(name) => {
                            let json_path = json_type + "/"@ + prefix + name;
                            if datapack.has_json(json_path) {
                                Err(
                                    warn(
                                        tokenizer,
                                        "Duplicate JSON declaration("@ + json_path + ")"@,
                                        command[2],
                                        true,
                                        defined_before(
                                            datapack,
                                            json_path,
                                            tokenizer.working_dir,
                                            "JSON"@,
                                        ),
                                    ),
                                )
                            } else {
                                match json_fault(command[3].string) {
                                    Some(message) => Err(
                                        anchored(
                                            JMCErrorType::JMCDecodeJSONError,
                                            message,
                                            Some(command[3]),
                                            tokenizer,
                                            false,
                                            true,
                                            false,
                                            None,
                                        ),
                                    ),
                                    None => Ok(
                                        datapack.record(
                                            DefinedPosView {
                                                path: json_path,
                                                token: command[1],
                                                file_path_str: tokenizer.file_path_str,
                                            },
                                        ).insert_json(json_path, command[3].string),
                                    ),
                                }
                            }
                        },
                    }
                }
            },
        }
    }
}

/// What the decorator of the name `name` does with its function, where the
/// name is known.
pub open spec fn decorator_named(
    decorators: Seq<(Seq<char>, ModifyMcFunction)>,
    name: Seq<char>,
) -> Option<ModifyMcFunction> {
    let k = position(Seq::new(decorators.len(), |i: int| decorators[i].0), name);
    if 0 <= k < decorators.len() {
        Some(decorators[k].1)
    } else {
        None
    }
}

/// What the statement `command`, `@name function ..` or `@name(..) function
/// ..`, gives: the use of the decorator, the function that it stands before,
/// and the datapack with the function's definition on record.
///
/// The decorator must be known. What follows it, and its round bracket
/// where it has one, is the definition of a function as `func_tokens` reads
/// it. The round bracket holds the decorator's arguments.
pub open spec fn decorated(
    config: ConfigurationView,
    datapack: DatapackView,
    decorators: Seq<(Seq<char>, ModifyMcFunction)>,
    macros: Seq<MacroEntryView>,
    tokenizer: TokenizerView,
    command: Seq<TokenView>,
    file_path_str: Seq<char>,
    prefix: Seq<char>,
) -> Result<(DatapackView, JMCDecoratorView, PreMcFunctionView), JMCErrorView> {
    let name = command[0].string.skip(1);
    match decorator_named(decorators, name) {
        None => Err(
            anchored(
                JMCErrorType::JMCSyntaxException,
                "Unrecognized decorator '"@ + name + "'"@,
                Some(command[0]),
                tokenizer,
                false,
                true,
                false,
                if name == "import"@ {
                    Some("Did you mean to use 'import' (without @) instead?"@)
                } else {
                    None
                },
            ),
        ),
        Some(modify) => if command.len() < 5 {
            Err(
                refuse(
                    tokenizer,
                    "Function decorator syntax usage is '@decorator_name function name() {}' or '@decorator_name() function name() {}'"@,
                    command[0],
                    false,
                    true,
                ),
            )
        } else {
            let has_arguments = command[1].token_type == TokenType::ParenRound;
            let definition = if has_arguments {
                command.skip(2)
            } else {
                command.skip(1)
            };
            match func_tokens(
                config,
                datapack,
                tokenizer,
                definition,
                file_path_str,
                prefix,
                modify == ModifyMcFunction::Save,
            ) {
                Err(e) => Err(e),
                Ok((recorded, function)) => {
                    let arguments = if has_arguments {
                        tokenizer.sub().parse_func_args(
                            command[1],
                            TokenType::ParenRound,
                            macros,
                            command[1].string.len() + 1,
                        )
                    } else {
                        Ok(ArgumentsView { args: Seq::empty(), kwargs: Seq::empty() })
                    };
                    match arguments {
                        Err(e) => Err(e),
                        Ok(a) => Ok(
                            (
                                recorded,
                                JMCDecoratorView { modify_mcfunction: modify, arguments: a, prefix },
                                function,
                            ),
                        ),
                    }
                },
            }
        },
    }
}

/// The statements of the body of `function`, for the content parser.
pub open spec fn function_body(
    function: PreMcFunctionView,
    working_dir: Seq<char>,
    macros: Seq<MacroEntryView>,
) -> Result<FuncContentView, JMCErrorView> {
    match function.body_tokenizer(working_dir).parse(function.func_content, true, false, macros) {
        Err(e) => Err(e),
        Ok(s) => Ok(
            FuncContentView {
                tokenizer: s,
                programs: s.programs,
                is_load: false,
                prefix: function.prefix,
            },
        ),
    }
}

} // verus!
