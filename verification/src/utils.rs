//! Small rules that the tokenizer and the lexer share.

use crate::exception::{anchored, JMCError, JMCErrorType, JMCErrorView};
use crate::foreign::{is_path_text, regex_is_match};
use crate::grammar::is_decorator_name;
use crate::text::{
    chars_of, ends_with, extend, extend_str, has_prefix, has_suffix, lowercase, lowercase_of,
    replace_all, replace_all_of, replace_char, replace_char_of, starts_with, string_of,
};
use crate::token::{Token, TokenView};
use crate::tokenizer::{Tokenizer, TokenizerView};
use vstd::prelude::*;

verus! {

/// Whether `string` names a decorator: an `@` and at least two more
/// characters.
pub fn is_decorator(string: &str) -> (r: bool)
    ensures
        r == is_decorator_name(string@),
{
    let chars = chars_of(string);
    chars.len() > 2 && chars[0] == '@'
}

/// Where the token `token` ends: the column behind it. A token that a macro
/// put out ends where the macro call ended.
pub open spec fn end_column(token: TokenView) -> int {
    if token.macro_length == 0 {
        token.col + token.length()
    } else {
        token.col + token.macro_length
    }
}

/// Whether `current_token` stands directly behind `previous_token`: on the
/// same line, in the column at which the other ends.
pub fn is_connected(current_token: &Token, previous_token: &Token) -> (r: bool)
    ensures
        r == (previous_token@.line == current_token@.line && end_column(previous_token@)
            == current_token@.col),
{
    let width: u128 = if previous_token._macro_length == 0 {
        previous_token.length() as u128
    } else {
        previous_token._macro_length as u128
    };
    previous_token.line == current_token.line && previous_token.col as u128 + width
        == current_token.col as u128
}

/// Whether `s` has the form of a macro of the game itself: `$(` .. `)`.
pub open spec fn is_vanilla_macro_text(s: Seq<char>) -> bool {
    starts_with(s, seq!['$', '(']) && ends_with(s, seq![')'])
}

/// Whether `string` has the form of a macro of the game itself: `$(` .. `)`.
pub fn is_vanilla_macro(string: &str) -> (r: bool)
    ensures
        r == is_vanilla_macro_text(string@),
{
    let chars = chars_of(string);
    let n = chars.len();
    if n >= 2 && chars[0] == '$' && chars[1] == '(' && chars[n - 1] == ')' {
        assert(chars@.take(2) =~= seq!['$', '(']);
        assert(chars@.skip(n - 1) =~= seq![')']);
        true
    } else {
        if n >= 2 {
            assert(chars@.take(2)[0] == chars@[0]);
            assert(chars@.take(2)[1] == chars@[1]);
            assert(chars@.skip(n - 1)[0] == chars@[n - 1]);
        }
        false
    }
}

/// The name `string` with every `this.` replaced by `prefix`, where there
/// is a prefix and the name begins with `this.`.
pub open spec fn with_prefix(string: Seq<char>, prefix: Seq<char>) -> Seq<char> {
    if prefix.len() > 0 && starts_with(string, "this."@) {
        replace_all(string, "this."@, prefix)
    } else {
        string
    }
}

/// The name that `convention_jmc_to_mc` checks: `string` with its prefix in
/// place, in small letters where that is asked for.
pub open spec fn plain_name(string: Seq<char>, prefix: Seq<char>, is_make_lower: bool) -> Seq<char> {
    if is_make_lower {
        lowercase(with_prefix(string, prefix))
    } else {
        with_prefix(string, prefix)
    }
}

/// What `convention_jmc_to_mc` gives: the path for the name `string`, or the
/// failure at `token`. A name that begins or ends with `.` is refused; so is
/// one that, with its prefix in place and in small letters where asked for,
/// is empty or holds any character but small letters, digits, `_`, `/` and
/// `.`. In the path every `.` is a `/`.
pub open spec fn path_of_name(
    string: Seq<char>,
    token: TokenView,
    tokenizer: TokenizerView,
    prefix: Seq<char>,
    is_make_lower: bool,
) -> Result<Seq<char>, JMCErrorView> {
    let name = plain_name(string, prefix, is_make_lower);
    if starts_with(string, "."@) {
        Err(
            anchored(
                JMCErrorType::JMCSyntaxException,
                "A name cannot starts with '.'"@,
                Some(token),
                tokenizer,
                false,
                true,
                false,
                None,
            ),
        )
    } else if ends_with(string, "."@) {
        Err(
            anchored(
                JMCErrorType::JMCSyntaxException,
                "A name cannot ends with '.'"@,
                Some(token),
                tokenizer,
                false,
                true,
                false,
                None,
            ),
        )
    } else if !is_path_text(name) {
        Err(
            anchored(
                JMCErrorType::MinecraftSyntaxWarning,
                "Invalid character detected in '"@ + name + "'"@,
                Some(token),
                tokenizer,
                false,
                true,
                false,
                if ends_with(name, "()"@) {
                    Some(
                        "If "@ + name + " is meant to be a function name, remove the parentheses"@,
                    )
                } else {
                    None
                },
            ),
        )
    } else {
        Ok(replace_char(name, '.', '/'))
    }
}

/// The path that the game knows for the name `string` of a function or a
/// resource, as `path_of_name` says.
///
/// * `token` - where the name stands, for the failure
/// * `prefix` - what `this.` at the start of the name stands for; empty for none
/// * `is_make_lower` - whether capitals in the name become small letters
pub fn convention_jmc_to_mc(
    string: &str,
    token: &Token,
    tokenizer: &Tokenizer,
    prefix: &str,
    is_make_lower: bool,
) -> (r: Result<String, JMCError>)
    ensures
        match path_of_name(string@, token@, tokenizer@, prefix@, is_make_lower) {
            Ok(path) => r is Ok && r->Ok_0@ == path,
            Err(e) => r is Err && r->Err_0@ == e,
        },
{
    let chars = chars_of(string);
    let dot = chars_of(".");
    if has_prefix(&chars, &dot) {
        return Err(
            JMCError::jmc_syntax_exception(
                "A name cannot starts with '.'".to_owned(),
                Some(token),
                tokenizer,
                false,
                true,
                false,
                None,
            ),
        );
    }
    if has_suffix(&chars, &dot) {
        return Err(
            JMCError::jmc_syntax_exception(
                "A name cannot ends with '.'".to_owned(),
                Some(token),
                tokenizer,
                false,
                true,
                false,
                None,
            ),
        );
    }
    let this = chars_of("this.");
    let prefix_chars = chars_of(prefix);
    let mut name: Vec<char> = if prefix_chars.len() > 0 && has_prefix(&chars, &this) {
        replace_all_of(&chars, &this, &prefix_chars)
    } else {
        chars
    };
    if is_make_lower {
        name = lowercase_of(&name);
    }
    assert(name@ == plain_name(string@, prefix@, is_make_lower));
    let text = string_of(&name);
    let valid = match regex_is_match("^[a-z0-9_/.]+$", text.as_str()) {
        Some(valid) => valid,
        None => false,
    };
    if !valid {
        let parens = chars_of("()");
        let parens_hint = if has_suffix(&name, &parens) {
            let mut hint = chars_of("If ");
            extend(&mut hint, &name);
            extend_str(&mut hint, " is meant to be a function name, remove the parentheses");
            Some(string_of(&hint))
        } else {
            None
        };
        let mut message = chars_of("Invalid character detected in '");
        extend(&mut message, &name);
        extend_str(&mut message, "'");
        return Err(
            JMCError::minecraft_syntax_warning(
                string_of(&message),
                Some(token),
                tokenizer,
                false,
                true,
                false,
                parens_hint,
            ),
        );
    }
    let path = replace_char_of(&name, '.', '/');
    Ok(string_of(&path))
}

} // verus!
