//! How a statement ends behind a curly bracket, and what becomes of the name
//! of a macro.

use crate::grammar::should_terminate_line;
use crate::header::{macro_named, MacroEntryView};
use crate::tokenizer::{StateType, TokenizerView};
use vstd::prelude::*;

verus! {

/// A curly bracket that closes a statement of none of the kinds that end
/// with their bracket leaves the statement open: the bracket is its last
/// token so far. The semicolon that follows ends the statement. The end of
/// the text in place of the semicolon is refused.
pub proof fn lemma_bracket_leaves_statement_open(
    s: TokenizerView,
    macros: Seq<MacroEntryView>,
    bound: nat,
)
    requires
        s.left_paren == Some('{'),
        s.macro_factory_info is None,
        !should_terminate_line(
            s.keywords.push((TokenizerView { state: StateType::ParenCurly, ..s }).current_token()),
            0,
        ),
    ensures
        ({
            let bracket = (TokenizerView { state: StateType::ParenCurly, ..s }).current_token();
            let open = s.close_paren(true, macros, bound);
            &&& open is Ok
            &&& open->Ok_0.programs == s.programs
            &&& open->Ok_0.keywords == s.keywords.push(bracket)
            &&& open->Ok_0.parse_none(';', macros, bound) is Ok
            &&& open->Ok_0.parse_none(';', macros, bound)->Ok_0.programs == s.programs.push(
                s.keywords.push(bracket),
            )
            &&& open->Ok_0.finish(true, false, macros, bound) == Err::<
                TokenizerView,
                crate::exception::JMCErrorView,
            >(open->Ok_0.exception("Expected semicolon(;)"@, Some(bracket), true, true, false, None))
        }),
{
    let begun = TokenizerView { state: StateType::ParenCurly, ..s };
    let bracket = begun.current_token();
    let open = begun.append_token(macros, bound);
    assert(open is Ok);
    assert(open->Ok_0.keywords =~= s.keywords.push(bracket));
    assert(s.close_paren(true, macros, bound) == open);
    assert(open->Ok_0.keywords.last() == bracket);
}

/// The name of a macro without arguments gives way to the macro's
/// expansion, which joins the statement as it is: a token of the expansion
/// is looked up no more, whatever its text.
pub proof fn lemma_macro_expands_once(s: TokenizerView, macros: Seq<MacroEntryView>, bound: nat)
    requires
        s.state == StateType::Keyword,
        macro_named(macros, s.token_str) is Some,
        macro_named(macros, s.token_str)->0.arg_count == 0,
    ensures
        ({
            let expansion = macro_named(macros, s.token_str)->0.factory.expand(
                Seq::empty(),
                s.token_pos.line,
                s.token_pos.col,
            );
            let after = s.append_token(macros, bound);
            &&& after is Ok
            &&& after->Ok_0.keywords == s.keywords + expansion
            &&& after->Ok_0.programs == s.programs
            &&& after->Ok_0.macro_factory_info == s.macro_factory_info
            &&& after->Ok_0.state == StateType::Idle
        }),
{
}

/// Inside a keyword, where statements do not end with semicolons, a
/// semicolon joins the keyword once: behind the array prefix `I`, `B` or `L`,
/// where that was allowed, and then no more. Anywhere else it is refused.
/// The statement and the statements stay as they are either way.
pub proof fn lemma_array_prefix_takes_one_semicolon(
    s: TokenizerView,
    macros: Seq<MacroEntryView>,
    bound: nat,
)
    requires
        s.state == StateType::Keyword,
    ensures
        ({
            let moved = s.parse_keyword_and_operator(';', false, macros, bound);
            let spent = TokenizerView { allow_semicolon: false, ..s };
            if s.allow_semicolon && crate::grammar::is_array_prefix(s.token_str) {
                moved == Ok::<(TokenizerView, bool), crate::exception::JMCErrorView>(
                    (spent.put(';'), true),
                )
            } else {
                moved == Err::<(TokenizerView, bool), crate::exception::JMCErrorView>(
                    spent.exception("Unexpected semicolon(;)"@, None, false, true, false, None),
                )
            }
        }),
{
}

/// Where the call of a macro with arguments is awaited, a token that ends
/// and is neither a macro's name nor a round bracket is refused.
pub proof fn lemma_macro_call_needs_round_bracket(
    s: TokenizerView,
    macros: Seq<MacroEntryView>,
    bound: nat,
)
    requires
        s.macro_factory_info is Some,
        s.state.token_type() != crate::token::TokenType::ParenRound,
        s.state.token_type() != crate::token::TokenType::Keyword || macro_named(
            macros,
            s.token_str,
        ) is None,
    ensures
        s.append_token(macros, bound) is Err,
        s.append_token(macros, bound)->Err_0.error_type
            == crate::exception::JMCErrorType::JMCSyntaxWarning,
{
}

} // verus!
