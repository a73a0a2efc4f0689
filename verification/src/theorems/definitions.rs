//! What the definition of a function does to the lexer.

use crate::forms::{func_tokens, function_body, is_vanilla_func};
use crate::lexer::{FrameView, LexerRequestView, LexerView, OutcomeView, PendingView};
use crate::text::lemma_position;
use crate::token::TokenView;
use vstd::prelude::*;

verus! {

/// A statement that defines a function leaves the load function alone: the
/// lexer asks for the function's body to be lowered, and for nothing of the
/// load function. The commands that come back are the function at its
/// path, behind the functions that were there, which stay as they were.
pub proof fn lemma_definition_joins_the_functions(
    lexer: LexerView,
    frame: FrameView,
    command: Seq<TokenView>,
    commands: Seq<Seq<char>>,
)
    requires
        command.len() > 0,
        command[0].string == "function"@,
        frame.in_class || !is_vanilla_func(command),
        func_tokens(
            lexer.config,
            lexer.datapack,
            frame.tokenizer,
            command,
            frame.file_path,
            frame.prefix,
            true,
        ) is Ok,
        function_body(
            func_tokens(
                lexer.config,
                lexer.datapack,
                frame.tokenizer,
                command,
                frame.file_path,
                frame.prefix,
                true,
            )->Ok_0.1,
            lexer.working_dir,
            lexer.macros,
        ) is Ok,
    ensures
        ({
            let defined = func_tokens(
                lexer.config,
                lexer.datapack,
                frame.tokenizer,
                command,
                frame.file_path,
                frame.prefix,
                true,
            )->Ok_0;
            let function = defined.1;
            let content = function_body(function, lexer.working_dir, lexer.macros)->Ok_0;
            let asked = lexer.dispatch(frame, command);
            &&& asked is Ok
            &&& asked->Ok_0.1 == OutcomeView::Ask(LexerRequestView::Content(content))
            &&& !content.is_load
            &&& asked->Ok_0.0.load_function == lexer.load_function
            &&& asked->Ok_0.0.pending == Some(PendingView::Function(function.func_path))
            &&& asked->Ok_0.0.datapack.functions == lexer.datapack.functions
            &&& !lexer.datapack.has_function(function.func_path)
            &&& asked->Ok_0.0.supply_commands(commands).datapack.functions
                == lexer.datapack.functions.push((function.func_path, commands))
            &&& asked->Ok_0.0.supply_commands(commands).pending is None
        }),
{
    let defined = func_tokens(
        lexer.config,
        lexer.datapack,
        frame.tokenizer,
        command,
        frame.file_path,
        frame.prefix,
        true,
    )->Ok_0;
    let function = defined.1;
    let recorded = defined.0;
    assert(recorded.functions == lexer.datapack.functions);
    assert(recorded.function_paths() == lexer.datapack.function_paths());
    assert(lexer.dispatch(frame, command) == lexer.define_function(frame, command));
    lemma_position(lexer.datapack.function_paths(), function.func_path);
}

} // verus!
