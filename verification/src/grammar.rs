//! What the tokenizer does, as functions on plain values: one function for
//! each move of the state machine, from the state before to the state after
//! or to the failure that ends the run.

use crate::exception::{anchored, JMCErrorType, JMCErrorView};
use crate::foreign::debug_text;
use crate::header::{macro_named, MacroEntryView};
use crate::text::{after_last, decimal, find, is_blank, is_whitespace};
use crate::token::{kind_name, TokenType, TokenView};
use crate::tokenizer::{escape_of, paren_pair, MacroFactoryInfoView, Pos, StateType, TokenizerView};
use vstd::prelude::*;

verus! {

/// `n + 1`, but for the largest number, which stays.
pub open spec fn bump(n: u32) -> u32 {
    if n < u32::MAX {
        (n + 1) as u32
    } else {
        n
    }
}

/// The characters that operators are made of.
pub open spec fn is_operator(ch: char) -> bool {
    ch == '+' || ch == '-' || ch == '*' || ch == '/' || ch == '>' || ch == '<' || ch == '='
        || ch == '%' || ch == ':' || ch == '!' || ch == '|' || ch == '&' || ch == '?'
}

pub open spec fn is_quote(ch: char) -> bool {
    ch == '\'' || ch == '"' || ch == '`'
}

pub open spec fn is_left_paren(ch: char) -> bool {
    ch == '{' || ch == '(' || ch == '['
}

pub open spec fn is_right_paren(ch: char) -> bool {
    ch == '}' || ch == ')' || ch == ']'
}

/// The characters that end a keyword or an operator without belonging to it.
pub open spec fn is_separator(ch: char) -> bool {
    is_whitespace(ch) || is_quote(ch) || is_left_paren(ch) || ch == ','
}

/// The first words of the statements that end with their curly bracket.
pub open spec fn ends_on_bracket(word: Seq<char>) -> bool {
    word == "function"@ || word == "class"@ || word == "new"@ || word == "schedule"@ || word
        == "if"@ || word == "else"@ || word == "do"@ || word == "while"@ || word == "for"@ || word
        == "switch"@
}

/// Whether `word` names a decorator: an `@` and at least two more characters.
pub open spec fn is_decorator_name(word: Seq<char>) -> bool {
    word.len() > 2 && word[0] == '@'
}

/// Whether the statement `keywords`, whose last token is a curly bracket, is
/// of a kind that ends with that bracket, judged by its token at `start_at`:
/// that token is one of the words that end on a bracket or a decorator, or it
/// is `execute` and `run` or `expand` stands before the bracket, or `return
/// run` stands before the bracket.
pub open spec fn should_terminate_line(keywords: Seq<TokenView>, start_at: int) -> bool {
    let n = keywords.len() as int;
    if n < 2 || start_at < 0 || start_at >= n {
        false
    } else {
        let word = keywords[start_at].string;
        ||| ends_on_bracket(word)
        ||| (word == "execute"@ && (keywords[n - 2].string == "run"@ || keywords[n - 2].string
            == "expand"@))
        ||| is_decorator_name(word)
        ||| (n >= 3 && keywords[n - 3].string == "return"@ && keywords[n - 2].string == "run"@)
    }
}

/// Whether the statement is an `if` whose condition is followed by neither
/// `expand` nor a curly bracket: its body is one command.
pub open spec fn is_shorten_if(keywords: Seq<TokenView>) -> bool {
    keywords.len() >= 3 && keywords[0].string == "if"@ && keywords[2].string != "expand"@
        && keywords[2].token_type != TokenType::ParenCurly
}

/// Whether the statement `keywords` ends with the curly bracket that is its
/// last token, without a semicolon.
pub open spec fn ends_statement(keywords: Seq<TokenView>) -> bool {
    should_terminate_line(keywords, 0) && (!is_shorten_if(keywords) || should_terminate_line(
        keywords,
        2,
    ))
}

/// The arguments of a call: those by position, and those by name in the
/// order in which they were given.
pub struct ArgumentsView {
    pub args: Seq<Seq<TokenView>>,
    pub kwargs: Seq<(Seq<char>, Seq<TokenView>)>,
}

/// Whether `token` splits a list at the text `string`. A string literal
/// splits only where that is allowed.
pub open spec fn is_splitter(token: TokenView, string: Seq<char>, allow_string_token: bool) -> bool {
    token.string == string && (allow_string_token || token.token_type != TokenType::String)
}

/// The runs of tokens between the splitters of `tokens`, in order: one more
/// than there are splitters, empty where two splitters meet or one stands at
/// either end.
pub open spec fn split_groups(
    tokens: Seq<TokenView>,
    string: Seq<char>,
    allow_string_token: bool,
) -> Seq<Seq<TokenView>>
    decreases tokens.len(),
{
    if tokens.len() == 0 {
        seq![Seq::empty()]
    } else {
        let before = split_groups(tokens.drop_last(), string, allow_string_token);
        if is_splitter(tokens.last(), string, allow_string_token) {
            before.push(Seq::empty())
        } else {
            before.drop_last().push(before.last().push(tokens.last()))
        }
    }
}

/// The splitters of `tokens`, in order.
pub open spec fn splitters(tokens: Seq<TokenView>, string: Seq<char>, allow_string_token: bool) -> Seq<
    TokenView,
>
    decreases tokens.len(),
{
    if tokens.len() == 0 {
        Seq::empty()
    } else {
        let before = splitters(tokens.drop_last(), string, allow_string_token);
        if is_splitter(tokens.last(), string, allow_string_token) {
            before.push(tokens.last())
        } else {
            before
        }
    }
}

/// The tokens of one argument as one token: their texts in a row, at the
/// place of the first, an operator counted as a keyword.
pub open spec fn merged_text(tokens: Seq<TokenView>) -> Seq<char>
    decreases tokens.len(),
{
    if tokens.len() == 0 {
        Seq::empty()
    } else {
        merged_text(tokens.drop_last()) + tokens.last().string
    }
}

pub open spec fn merge_tokens(tokens: Seq<TokenView>) -> TokenView {
    TokenView {
        token_type: if tokens.len() == 0 || tokens[0].token_type == TokenType::Operator {
            TokenType::Keyword
        } else {
            tokens[0].token_type
        },
        line: if tokens.len() == 0 {
            0
        } else {
            tokens[0].line
        },
        col: if tokens.len() == 0 {
            0
        } else {
            tokens[0].col
        },
        string: merged_text(tokens),
        macro_length: 0,
        quote: '"',
    }
}

/// The one token that a macro gets for each argument: the argument's own
/// token where it has one, else its tokens merged.
pub open spec fn macro_arguments(args: Seq<Seq<TokenView>>) -> Seq<TokenView> {
    Seq::new(
        args.len(),
        |i: int|
            if args[i].len() == 1 {
                args[i][0]
            } else {
                merge_tokens(args[i])
            },
    )
}

/// `arg1, arg2, ...` up to `n`, as the hint for a macro call shows them.
pub open spec fn argument_names(n: nat) -> Seq<char>
    decreases n,
{
    if n == 0 {
        Seq::empty()
    } else if n == 1 {
        "arg"@ + decimal(1)
    } else {
        argument_names((n - 1) as nat) + ", "@ + "arg"@ + decimal(n)
    }
}

/// Whether an argument by the name `key` was given already.
pub open spec fn has_key(kwargs: Seq<(Seq<char>, Seq<TokenView>)>, key: Seq<char>) -> bool {
    exists|i: int| 0 <= i < kwargs.len() && (#[trigger] kwargs[i]).0 == key
}

/// The name of the place that an argument stands in.
pub open spec fn argument_place(is_nbt: bool) -> Seq<char> {
    if is_nbt {
        "JSObject/NBT"@
    } else {
        "function argument"@
    }
}

impl TokenizerView {
    pub open spec fn exception(
        self,
        message: Seq<char>,
        token: Option<TokenView>,
        is_length_include_col: bool,
        is_display_col_length: bool,
        is_entire_line: bool,
        suggestion: Option<Seq<char>>,
    ) -> JMCErrorView {
        anchored(
            JMCErrorType::JMCSyntaxException,
            message,
            token,
            self,
            is_length_include_col,
            is_display_col_length,
            is_entire_line,
            suggestion,
        )
    }

    pub open spec fn warning(
        self,
        message: Seq<char>,
        token: Option<TokenView>,
        is_length_include_col: bool,
        is_display_col_length: bool,
        is_entire_line: bool,
        suggestion: Option<Seq<char>>,
    ) -> JMCErrorView {
        anchored(
            JMCErrorType::JMCSyntaxWarning,
            message,
            token,
            self,
            is_length_include_col,
            is_display_col_length,
            is_entire_line,
            suggestion,
        )
    }

    /// The place of the character read last.
    pub open spec fn pos(self) -> Pos {
        Pos { line: self.line, col: self.col }
    }

    /// A token of the kind `state` begins at the character read last.
    pub open spec fn begin(self, state: StateType) -> TokenizerView {
        TokenizerView { token_pos: self.pos(), state, ..self }
    }

    /// The character `ch` joins the token that is being read.
    pub open spec fn put(self, ch: char) -> TokenizerView {
        TokenizerView { token_str: self.token_str.push(ch), ..self }
    }

    /// One more character was read on the same line.
    pub open spec fn advance(self) -> TokenizerView {
        TokenizerView { col: bump(self.col), ..self }
    }

    /// The tokens `tokens` join the statement that is being read.
    pub open spec fn add(self, tokens: Seq<TokenView>) -> TokenizerView {
        TokenizerView { keywords: self.keywords + tokens, ..self }
    }

    /// The token that is being read is taken out of the tokenizer.
    pub open spec fn taken(self) -> TokenizerView {
        TokenizerView { token_str: Seq::empty(), token_pos: Pos { line: 0, col: 0 }, ..self }
    }

    /// The tokenizer is between tokens.
    pub open spec fn idle(self) -> TokenizerView {
        TokenizerView { state: StateType::Idle, ..self }
    }

    /// The token that is being read, as it is when it ends here.
    pub open spec fn current_token(self) -> TokenView {
        TokenView {
            token_type: self.state.token_type(),
            line: self.token_pos.line,
            col: self.token_pos.col,
            string: self.token_str,
            macro_length: 0,
            quote: match self.quote {
                Some(q) => q,
                None => '"',
            },
        }
    }

    /// The statement that is being read ends: it joins the statements. A
    /// statement without a token is refused.
    pub open spec fn append_keywords(self) -> Result<TokenizerView, JMCErrorView> {
        if self.keywords.len() == 0 {
            Err(self.warning("Unnecessary semicolon(;)"@, None, false, true, false, None))
        } else {
            Ok(
                TokenizerView {
                    programs: self.programs.push(self.keywords),
                    keywords: Seq::empty(),
                    ..self
                },
            )
        }
    }

    /// The tokenizer that reads the arguments of a call in the same file:
    /// before its first character, with nothing gathered.
    pub open spec fn sub(self) -> TokenizerView {
        TokenizerView::fresh(
            self.raw_string,
            self.file_path_str,
            self.file_string,
            self.working_dir,
            self.allow_semicolon,
        )
    }

    /// The token that is being read ends and joins the statement.
    ///
    /// A keyword that names a macro without arguments is replaced by the
    /// macro's expansion, which is taken as it is: a macro name in it is a
    /// keyword like any other. A keyword that names a macro with arguments is
    /// held back until the next token, which must be a round bracket with as
    /// many arguments by position as the macro takes, and none by name; the
    /// expansion then takes the place of both.
    ///
    /// `bound` is the length of the text that is being read.
    pub open spec fn append_token(self, macros: Seq<MacroEntryView>, bound: nat) -> Result<
        TokenizerView,
        JMCErrorView,
    >
        decreases bound, 3nat,
    {
        let token = self.current_token();
        let pos = self.token_pos;
        let taken = self.taken();
        if token.token_type == TokenType::Keyword && macro_named(macros, token.string) is Some {
            let entry = macro_named(macros, token.string)->0;
            if entry.arg_count == 0 {
                Ok(taken.add(entry.factory.expand(Seq::empty(), pos.line, pos.col)).idle())
            } else {
                Ok(
                    TokenizerView {
                        macro_factory_info: Some(
                            MacroFactoryInfoView {
                                name: token.string,
                                macro_factory: entry.factory,
                                arg_count: entry.arg_count,
                                pos,
                            },
                        ),
                        ..taken
                    }.idle(),
                )
            }
        } else if taken.macro_factory_info is Some {
            let info = taken.macro_factory_info->0;
            let cleared = TokenizerView { macro_factory_info: None, ..taken };
            if token.token_type != TokenType::ParenRound {
                Err(
                    cleared.warning(
                        "Expected round bracket after macro factory("@ + info.name + ")"@,
                        Some(token),
                        false,
                        false,
                        false,
                        Some(
                            "Macro factory("@ + info.name + ") requires "@ + decimal(
                                info.arg_count as nat,
                            ) + " argument. Try '"@ + info.name + "("@ + argument_names(
                                info.arg_count as nat,
                            ) + ")'"@,
                        ),
                    ),
                )
            } else {
                match cleared.sub().parse_func_args(token, TokenType::ParenRound, macros, bound) {
                    Err(e) => Err(e),
                    Ok(arguments) => cleared.apply_macro(info, token, pos, arguments),
                }
            }
        } else {
            Ok(taken.add(seq![token]).idle())
        }
    }

    /// The call of the macro `info` with the arguments `arguments`, which
    /// stood in the bracket `token`: its expansion at `pos` joins the
    /// statement. Arguments by name are refused, and so is any number of
    /// arguments but the one that the macro takes.
    pub open spec fn apply_macro(
        self,
        info: MacroFactoryInfoView,
        token: TokenView,
        pos: Pos,
        arguments: ArgumentsView,
    ) -> Result<TokenizerView, JMCErrorView> {
        let given = macro_arguments(arguments.args);
        if arguments.kwargs.len() > 0 {
            Err(
                self.warning(
                    "Macro factory does not support keyword argument ("@ + arguments.kwargs[0].0
                        + "=)"@,
                    Some(token),
                    true,
                    false,
                    true,
                    None,
                ),
            )
        } else if given.len() != info.arg_count {
            Err(
                self.warning(
                    "This Macro factory ("@ + info.name + ") expect "@ + decimal(
                        info.arg_count as nat,
                    ) + " arguments (got "@ + decimal(given.len()) + ")"@,
                    Some(token),
                    true,
                    false,
                    true,
                    None,
                ),
            )
        } else {
            Ok(self.add(info.macro_factory.expand(given, pos.line, pos.col)).idle())
        }
    }

    /// One argument, checked: the tokens of a slot of an argument list that
    /// is given by position, or the tokens behind the name of one given by
    /// name. An arrow function `()=>{..}` becomes one function token that
    /// holds what stands between the curly brackets.
    pub open spec fn parse_func_arg(self, tokens: Seq<TokenView>, has_kwargs: bool, is_nbt: bool) -> Result<
        Seq<TokenView>,
        JMCErrorView,
    > {
        if (tokens[0].token_type == TokenType::Keyword || tokens[0].token_type
            == TokenType::Operator) && tokens.len() != 1 {
            Ok(tokens)
        } else if tokens.len() > 1 {
            if tokens[0].string == "()"@ && tokens[1].string == "=>"@ {
                if tokens.len() < 3 {
                    Err(
                        self.exception(
                            "Expected curly bracket after '()=>' (got nothing)"@,
                            Some(tokens[1]),
                            false,
                            true,
                            false,
                            None,
                        ),
                    )
                } else if tokens[2].token_type != TokenType::ParenCurly {
                    Err(
                        self.exception(
                            "Expected curly bracket after '()=>' (got "@ + kind_name(
                                tokens[2].token_type,
                            ) + ")"@,
                            Some(tokens[2]),
                            false,
                            true,
                            false,
                            None,
                        ),
                    )
                } else if tokens.len() > 3 {
                    Err(
                        self.exception(
                            "Unexpected token after arrow function '()=>{}'"@,
                            Some(tokens[3]),
                            false,
                            true,
                            false,
                            None,
                        ),
                    )
                } else {
                    Ok(
                        seq![
                            TokenView {
                                token_type: TokenType::Func,
                                line: tokens[2].line,
                                col: bump(tokens[2].col),
                                string: inner_text(tokens[2].string),
                                macro_length: tokens[2].macro_length,
                                quote: tokens[2].quote,
                            },
                        ],
                    )
                }
            } else {
                Err(
                    self.exception(
                        "Unexpected "@ + kind_name(tokens[1].token_type) + " after "@ + kind_name(
                            tokens[0].token_type,
                        ) + " in "@ + argument_place(is_nbt),
                        Some(tokens[1]),
                        false,
                        true,
                        false,
                        Some("You may have missed a comma"@),
                    ),
                )
            }
        } else if tokens[0].string == (if is_nbt {
            ":"@
        } else {
            "="@
        }) {
            Err(
                self.exception(
                    "Empty key in "@ + argument_place(is_nbt),
                    Some(tokens[0]),
                    false,
                    true,
                    false,
                    None,
                ),
            )
        } else if has_kwargs {
            Err(
                self.exception(
                    "Positional argument follows keyword argument"@,
                    Some(tokens[0]),
                    false,
                    true,
                    false,
                    Some(
                        "There's no way to tell which value belong to which key, try rearranging arguments. Arguments without '=' should come first."@,
                    ),
                ),
            )
        } else {
            Ok(tokens)
        }
    }

    /// The arguments that the slots from `i` on add to `sofar`: each slot is
    /// an argument by name where its second token is `=`, `=+` or `=-`, else
    /// one by position. A sign behind the `=` becomes the first token of the
    /// value, one column behind the `=`.
    pub open spec fn collect_arguments(
        self,
        groups: Seq<Seq<TokenView>>,
        commas: Seq<TokenView>,
        i: int,
        sofar: ArgumentsView,
    ) -> Result<ArgumentsView, JMCErrorView>
        decreases groups.len() - i,
    {
        if i < 0 || i >= groups.len() {
            Ok(sofar)
        } else {
            let group = groups[i];
            if group.len() == 0 {
                Err(
                    self.exception(
                        "Unexpected comma in function arguments"@,
                        if i < commas.len() {
                            Some(commas[i])
                        } else {
                            None
                        },
                        false,
                        true,
                        false,
                        None,
                    ),
                )
            } else if group.len() > 1 && is_assignment(group[1].string) {
                let key = group[0];
                let equal = group[1];
                let rest = group.skip(2);
                if rest.len() == 0 {
                    Err(
                        self.exception(
                            "Expected keyword argument after '=' in function arguments"@,
                            Some(equal),
                            false,
                            true,
                            false,
                            None,
                        ),
                    )
                } else {
                    match self.parse_func_arg(rest, false, false) {
                        Err(e) => Err(e),
                        Ok(value) => {
                            let value = if equal.string == "="@ {
                                value
                            } else {
                                seq![
                                    TokenView {
                                        col: bump(equal.col),
                                        string: equal.string.skip(1),
                                        ..equal
                                    },
                                ] + value
                            };
                            if has_key(sofar.kwargs, key.string) {
                                Err(
                                    self.exception(
                                        "Duplicated key("@ + key.string + ")"@,
                                        Some(key),
                                        false,
                                        true,
                                        false,
                                        None,
                                    ),
                                )
                            } else {
                                self.collect_arguments(
                                    groups,
                                    commas,
                                    i + 1,
                                    ArgumentsView {
                                        args: sofar.args,
                                        kwargs: sofar.kwargs.push((key.string, value)),
                                    },
                                )
                            }
                        },
                    }
                }
            } else {
                match self.parse_func_arg(group, sofar.kwargs.len() > 0, false) {
                    Err(e) => Err(e),
                    Ok(value) => self.collect_arguments(
                        groups,
                        commas,
                        i + 1,
                        ArgumentsView { args: sofar.args.push(value), kwargs: sofar.kwargs },
                    ),
                }
            }
        }
    }

    /// The arguments in the statement `keywords`, which is what stood between
    /// the brackets of a call: its tokens split at the commas, each slot an
    /// argument. A bracket without a token holds no argument.
    pub open spec fn arguments_of(self, keywords: Seq<TokenView>) -> Result<
        ArgumentsView,
        JMCErrorView,
    > {
        let groups = split_groups(keywords, ","@, false);
        let commas = splitters(keywords, ","@, false);
        if keywords.len() == 0 {
            Ok(ArgumentsView { args: Seq::empty(), kwargs: Seq::empty() })
        } else if groups.last().len() == 0 {
            Err(
                self.exception(
                    "Unexpected comma at the end of function arguments"@,
                    if commas.len() > 0 {
                        Some(commas.last())
                    } else {
                        None
                    },
                    false,
                    true,
                    false,
                    None,
                ),
            )
        } else {
            self.collect_arguments(
                groups,
                commas,
                0,
                ArgumentsView { args: Seq::empty(), kwargs: Seq::empty() },
            )
        }
    }

    /// The arguments in the bracket `token`, which must be of the kind
    /// `token_type`: what stands between its brackets is tokenized from the
    /// token's own place on, as one statement without semicolons, and then
    /// taken apart as `arguments_of` says. `bound` is the length of the text
    /// that the token was read from: the token is shorter than `bound + 2`.
    /// Of a longer token, which no run makes, the function says that it
    /// holds no arguments; that case is there to let the definition end.
    #[verifier::opaque]
    pub open spec fn parse_func_args(
        self,
        token: TokenView,
        token_type: TokenType,
        macros: Seq<MacroEntryView>,
        bound: nat,
    ) -> Result<ArgumentsView, JMCErrorView>
        decreases bound, 2nat,
    {
        if token.token_type != token_type {
            Err(
                self.exception(
                    "Expected "@ + kind_name(token_type) + " (got "@ + kind_name(token.token_type)
                        + ")"@,
                    Some(token),
                    false,
                    false,
                    false,
                    None,
                ),
            )
        } else if inner_text(token.string).len() >= bound {
            Ok(ArgumentsView { args: Seq::empty(), kwargs: Seq::empty() })
        } else {
            let start = TokenizerView { line: token.line, col: token.col, ..self };
            match start.parse(inner_text(token.string), false, false, macros) {
                Err(e) => Err(e),
                Ok(done) => done.arguments_of(
                    if done.programs.len() > 0 {
                        done.programs[0]
                    } else {
                        Seq::empty()
                    },
                ),
            }
        }
    }

    /// The move at a line feed: it ends a comment, a keyword and an
    /// operator, joins a backtick literal and a bracket span, and is refused
    /// inside any other string literal. The next character is the first of
    /// the next line.
    pub open spec fn parse_newline(self, macros: Seq<MacroEntryView>, bound: nat) -> Result<
        TokenizerView,
        JMCErrorView,
    >
        decreases bound, 5nat,
    {
        let s = TokenizerView { is_comment: false, ..self };
        let after = if s.state == StateType::String {
            if s.quote == Some('`') {
                Ok(s.put('\n'))
            } else {
                Err(
                    s.exception(
                        "String literal contains unescaped line break"@,
                        None,
                        false,
                        false,
                        true,
                        None,
                    ),
                )
            }
        } else if s.state == StateType::Comment {
            Ok(TokenizerView { state: StateType::Idle, ..s })
        } else if s.state == StateType::Keyword || s.state == StateType::Operator {
            s.append_token(macros, bound)
        } else if s.state == StateType::Paren {
            Ok(s.put('\n'))
        } else {
            Ok(s)
        };
        match after {
            Err(e) => Err(e),
            Ok(t) => Ok(TokenizerView { line: bump(t.line), col: 0, ..t }),
        }
    }

    /// The move at `ch` inside a keyword or an operator. The result says
    /// whether `ch` was taken; where it was not, the token has ended and `ch`
    /// is still to be read, between tokens.
    ///
    /// A separator ends the token. An operator character ends a keyword and
    /// begins an operator; any other character but the semicolon ends an
    /// operator and begins a keyword. A semicolon ends the token where
    /// statements end with semicolons; elsewhere it is taken only once,
    /// behind the array prefix `I`, `B` or `L`, where that was allowed.
    pub open spec fn parse_keyword_and_operator(
        self,
        ch: char,
        expect_semicolon: bool,
        macros: Seq<MacroEntryView>,
        bound: nat,
    ) -> Result<(TokenizerView, bool), JMCErrorView>
        decreases bound, 5nat,
    {
        if is_separator(ch) {
            match self.append_token(macros, bound) {
                Err(e) => Err(e),
                Ok(t) => Ok((t, false)),
            }
        } else {
            let switched = if self.state == StateType::Keyword && is_operator(ch) {
                match self.append_token(macros, bound) {
                    Err(e) => Err(e),
                    Ok(t) => Ok(t.begin(StateType::Operator)),
                }
            } else if self.state == StateType::Operator && !is_operator(ch) && ch != ';' {
                match self.append_token(macros, bound) {
                    Err(e) => Err(e),
                    Ok(t) => Ok(t.begin(StateType::Keyword)),
                }
            } else {
                Ok(self)
            };
            match switched {
                Err(e) => Err(e),
                Ok(s) => if ch != ';' {
                    Ok((s.put(ch), true))
                } else if expect_semicolon {
                    match s.append_token(macros, bound) {
                        Err(e) => Err(e),
                        Ok(t) => Ok((t, false)),
                    }
                } else if s.allow_semicolon && is_array_prefix(s.token_str) {
                    Ok((TokenizerView { allow_semicolon: false, ..s }.put(ch), true))
                } else {
                    Err(
                        TokenizerView { allow_semicolon: false, ..s }.exception(
                            "Unexpected semicolon(;)"@,
                            None,
                            false,
                            true,
                            false,
                            None,
                        ),
                    )
                },
            }
        }
    }

    /// The move at the bracket that closes the span: the span is a token,
    /// and where it is a curly bracket that ends its statement, the statement
    /// ends.
    pub open spec fn close_paren(
        self,
        expect_semicolon: bool,
        macros: Seq<MacroEntryView>,
        bound: nat,
    ) -> Result<TokenizerView, JMCErrorView>
        decreases bound, 4nat,
    {
        let state = if self.left_paren == Some('{') {
            StateType::ParenCurly
        } else if self.left_paren == Some('[') {
            StateType::ParenSquare
        } else {
            StateType::ParenRound
        };
        match (TokenizerView { state, ..self }).append_token(macros, bound) {
            Err(e) => Err(e),
            Ok(t) => if state == StateType::ParenCurly && expect_semicolon && ends_statement(
                t.keywords,
            ) {
                t.append_keywords()
            } else {
                Ok(t)
            },
        }
    }

    /// The move at `ch`, which has joined the span, inside a string literal
    /// of a bracket span: a backslash takes the next character with it, the
    /// literal's quote ends the literal.
    pub open spec fn paren_literal(self, ch: char, next: Option<char>) -> Result<
        (TokenizerView, bool),
        JMCErrorView,
    > {
        if ch == '\\' {
            match next {
                Some(n) => Ok((self.put(n).advance(), true)),
                None => Err(
                    self.exception(
                        "String literal contains an unescaped linebreak"@,
                        None,
                        true,
                        false,
                        true,
                        Some("If you intended to use multiple line, try multiline string '`'"@),
                    ),
                ),
            }
        } else if Some(ch) == self.quote {
            Ok((TokenizerView { is_string: false, ..self }, false))
        } else {
            Ok((self, false))
        }
    }

    /// The move at `ch`, which has joined the span, inside a bracket span but
    /// outside its string literals and comments: a bracket of the opening
    /// kind opens a level, the closing one closes a level or, at the
    /// outermost level, the span; a quote begins a string literal; `//`
    /// begins a comment, and so does `#` while the statement has no token.
    pub open spec fn paren_code(
        self,
        ch: char,
        next: Option<char>,
        expect_semicolon: bool,
        macros: Seq<MacroEntryView>,
        bound: nat,
    ) -> Result<TokenizerView, JMCErrorView>
        decreases bound, 5nat,
    {
        if Some(ch) == self.left_paren {
            Ok(TokenizerView { paren_count: bump(self.paren_count), ..self })
        } else if Some(ch) == self.right_paren {
            if self.paren_count != 0 {
                Ok(TokenizerView { paren_count: (self.paren_count - 1) as u32, ..self })
            } else {
                self.close_paren(expect_semicolon, macros, bound)
            }
        } else if is_quote(ch) {
            Ok(TokenizerView { is_string: true, quote: Some(ch), ..self })
        } else if (ch == '/' && next == Some('/')) || (ch == '#' && self.keywords.len() == 0) {
            Ok(TokenizerView { is_comment: true, ..self })
        } else {
            Ok(self)
        }
    }

    /// The move at `ch` inside a bracket span, with the character `next`
    /// behind it. The result says whether `next` was taken too.
    ///
    /// Every character joins the span. Inside a string literal of the span
    /// and inside a comment of it no bracket counts.
    pub open spec fn parse_paren(
        self,
        ch: char,
        next: Option<char>,
        expect_semicolon: bool,
        macros: Seq<MacroEntryView>,
        bound: nat,
    ) -> Result<(TokenizerView, bool), JMCErrorView>
        decreases bound, 6nat,
    {
        let s = self.put(ch);
        if s.is_string {
            s.paren_literal(ch, next)
        } else if s.is_comment {
            Ok((s, false))
        } else {
            match s.paren_code(ch, next, expect_semicolon, macros, bound) {
                Err(e) => Err(e),
                Ok(t) => Ok((t, false)),
            }
        }
    }

    /// The check of a backtick literal whose text between the backticks is
    /// the token that is being read: it holds at least two line feeds, and
    /// nothing but white space before the first and behind the last. What
    /// stands between those two is the literal's content.
    pub open spec fn validate_multiline_string(self) -> Result<TokenizerView, JMCErrorView> {
        let raw = self.token_str;
        let first = find(raw, '\n');
        let last = after_last(raw, '\n') - 1;
        if first >= raw.len() {
            Err(
                self.exception(
                    "Expected newline after open backtick(`) for multiline string"@,
                    None,
                    false,
                    false,
                    false,
                    None,
                ),
            )
        } else if first == last {
            Err(
                self.exception(
                    "Expected newline before close backtick(`) for multiline string"@,
                    None,
                    false,
                    true,
                    false,
                    None,
                ),
            )
        } else if !is_blank(raw.take(first)) {
            Err(
                self.exception(
                    "Expected whitespaces line after open backtick(`) (got "@ + debug_text(
                        raw.take(first),
                    ) + ")"@,
                    None,
                    false,
                    true,
                    false,
                    None,
                ),
            )
        } else if !is_blank(raw.skip(last + 1)) {
            Err(
                self.exception(
                    "Expected whitespaces line before open backtick(`) (got "@ + debug_text(
                        raw.skip(last + 1),
                    ) + ")"@,
                    None,
                    false,
                    true,
                    false,
                    None,
                ),
            )
        } else {
            Ok(TokenizerView { token_str: raw.subrange(first + 1, last), ..self })
        }
    }

    /// The move at `ch` inside a string literal, with the character `next`
    /// behind it. The result says whether `next` was taken too.
    ///
    /// A backslash takes the next character with it: together they stand for
    /// the character that the escape names, or for themselves where the
    /// escape names none. The literal's quote ends the literal, which is a
    /// token. Any other character joins the literal.
    pub open spec fn parse_string(
        self,
        ch: char,
        next: Option<char>,
        macros: Seq<MacroEntryView>,
        bound: nat,
    ) -> Result<(TokenizerView, bool), JMCErrorView>
        decreases bound, 5nat,
    {
        if ch == '\\' {
            match next {
                None => Err(
                    self.exception(
                        "String literal contains unescaped line break"@,
                        None,
                        false,
                        false,
                        true,
                        Some("You are currently trying to escape(\\) nothing."@),
                    ),
                ),
                Some(n) => match escape_of(n) {
                    Ok(c) => Ok((self.put(c).advance(), true)),
                    Err(_) => Ok((self.put('\\').put(n).advance(), true)),
                },
            }
        } else if Some(ch) != self.quote {
            Ok((self.put(ch), false))
        } else {
            let checked = if ch == '`' {
                self.validate_multiline_string()
            } else {
                Ok(self)
            };
            match checked {
                Err(e) => Err(e),
                Ok(s) => match s.append_token(macros, bound) {
                    Err(e) => Err(e),
                    Ok(t) => Ok((t, false)),
                },
            }
        }
    }

    /// The move at `ch` between tokens.
    ///
    /// A quote begins a string literal, a bracket a span, an operator
    /// character an operator; a comma is a token of its own; a semicolon ends
    /// the statement; `#` begins a comment while the statement has no token;
    /// white space is passed over; a closing bracket is refused. Any other
    /// character begins a keyword.
    pub open spec fn parse_none(self, ch: char, macros: Seq<MacroEntryView>, bound: nat) -> Result<
        TokenizerView,
        JMCErrorView,
    >
        decreases bound, 5nat,
    {
        if is_quote(ch) {
            Ok(TokenizerView { quote: Some(ch), ..self.begin(StateType::String) })
        } else if ch == ';' {
            match self.macro_factory_info {
                Some(info) => Err(
                    self.warning(
                        "Expected a round bracket after macro factory("@ + info.name + ")"@,
                        None,
                        false,
                        true,
                        false,
                        Some(
                            "Macro factory is a macro that acts like a function (requires parameter(s))"@,
                        ),
                    ),
                ),
                None => self.append_keywords(),
            }
        } else if is_left_paren(ch) {
            Ok(
                TokenizerView {
                    left_paren: Some(ch),
                    right_paren: match paren_pair(ch) {
                        Ok(right) => Some(right),
                        Err(_) => None,
                    },
                    ..self.put(ch).begin(StateType::Paren)
                },
            )
        } else if is_right_paren(ch) {
            Err(
                self.exception(
                    "Unexpected closing bracket ("@ + seq![ch] + ")"@,
                    None,
                    false,
                    false,
                    false,
                    None,
                ),
            )
        } else if ch == '#' && self.keywords.len() == 0 {
            Ok(TokenizerView { state: StateType::Comment, ..self })
        } else if ch == ',' {
            self.put(ch).begin(StateType::Comma).append_token(macros, bound)
        } else if is_operator(ch) {
            Ok(self.put(ch).begin(StateType::Operator))
        } else if is_whitespace(ch) {
            Ok(self)
        } else {
            Ok(self.put(ch).begin(StateType::Keyword))
        }
    }

    /// The move at `ch` in whatever state the tokenizer is, once the line
    /// feed and the start of a comment are dealt with.
    pub open spec fn dispatch(
        self,
        ch: char,
        next: Option<char>,
        expect_semicolon: bool,
        macros: Seq<MacroEntryView>,
        bound: nat,
    ) -> Result<(TokenizerView, bool), JMCErrorView>
        decreases bound, 7nat,
    {
        if self.state == StateType::Paren {
            self.parse_paren(ch, next, expect_semicolon, macros, bound)
        } else if self.state == StateType::String {
            self.parse_string(ch, next, macros, bound)
        } else if self.state == StateType::Comment {
            Ok((self, false))
        } else {
            match self.parse_none(ch, macros, bound) {
                Err(e) => Err(e),
                Ok(t) => Ok((t, false)),
            }
        }
    }

    /// The move at `//` outside a bracket span and a string literal: the
    /// token that is being read ends, and a comment begins that takes both
    /// characters.
    pub open spec fn begin_comment(self, macros: Seq<MacroEntryView>, bound: nat) -> Result<
        TokenizerView,
        JMCErrorView,
    >
        decreases bound, 5nat,
    {
        let s = self.advance();
        let flushed = if s.token_str.len() > 0 {
            s.append_token(macros, bound)
        } else {
            Ok(s)
        };
        match flushed {
            Err(e) => Err(e),
            Ok(t) => Ok(TokenizerView { state: StateType::Comment, ..t }),
        }
    }

    /// The move at `ch` where neither a line feed nor a comment begins: a
    /// keyword or an operator that is being read takes `ch` or ends before
    /// it; a character that is not taken so is read in the state that the
    /// tokenizer is in then.
    pub open spec fn read(
        self,
        ch: char,
        next: Option<char>,
        expect_semicolon: bool,
        macros: Seq<MacroEntryView>,
        bound: nat,
    ) -> Result<(TokenizerView, bool), JMCErrorView>
        decreases bound, 8nat,
    {
        if self.state == StateType::Keyword || self.state == StateType::Operator {
            match self.parse_keyword_and_operator(ch, expect_semicolon, macros, bound) {
                Err(e) => Err(e),
                Ok((t, taken)) => if taken {
                    Ok((t, false))
                } else {
                    t.dispatch(ch, next, expect_semicolon, macros, bound)
                },
            }
        } else {
            self.dispatch(ch, next, expect_semicolon, macros, bound)
        }
    }

    /// One move: the tokenizer reads `ch`, and `next` with it where the
    /// result says so.
    ///
    /// A semicolon between tokens is refused where statements do not end
    /// with semicolons. `//` outside a bracket span and a string literal
    /// begins a comment.
    pub open spec fn step(
        self,
        ch: char,
        next: Option<char>,
        expect_semicolon: bool,
        macros: Seq<MacroEntryView>,
        bound: nat,
    ) -> Result<(TokenizerView, bool), JMCErrorView>
        decreases bound, 9nat,
    {
        let s = self.advance();
        if ch == ';' && s.state == StateType::Idle && !expect_semicolon {
            Err(s.exception("Unexpected semicolon(;)"@, None, false, true, false, None))
        } else if ch == '\n' {
            match s.parse_newline(macros, bound) {
                Err(e) => Err(e),
                Ok(t) => Ok((t, false)),
            }
        } else if ch == '/' && next == Some('/') && s.state != StateType::Paren && s.state
            != StateType::String {
            match s.begin_comment(macros, bound) {
                Err(e) => Err(e),
                Ok(t) => Ok((t, true)),
            }
        } else {
            s.read(ch, next, expect_semicolon, macros, bound)
        }
    }

    /// The moves over `input` from its index `i` on.
    pub open spec fn parse_chars(
        self,
        input: Seq<char>,
        i: int,
        expect_semicolon: bool,
        macros: Seq<MacroEntryView>,
    ) -> Result<TokenizerView, JMCErrorView>
        decreases input.len(), 10nat, input.len() - i,
    {
        if i < 0 || i >= input.len() {
            Ok(self)
        } else {
            let next = if i + 1 < input.len() {
                Some(input[i + 1])
            } else {
                None
            };
            match self.step(input[i], next, expect_semicolon, macros, input.len()) {
                Err(e) => Err(e),
                Ok((t, both)) => t.parse_chars(
                    input,
                    if both && i + 1 < input.len() {
                        i + 2
                    } else {
                        i + 1
                    },
                    expect_semicolon,
                    macros,
                ),
            }
        }
    }

    /// What the end of the text makes of the state: an open string literal
    /// and an open bracket are refused; where statements end with semicolons,
    /// so is a statement that is still open, unless the last one may go
    /// without; elsewhere what was read is the one statement.
    pub open spec fn finish(
        self,
        expect_semicolon: bool,
        allow_last_missing_semicolon: bool,
        macros: Seq<MacroEntryView>,
        bound: nat,
    ) -> Result<TokenizerView, JMCErrorView>
        decreases bound, 5nat,
    {
        if self.state == StateType::String {
            Err(
                self.exception(
                    "String literal contains an unescaped linebreak"@,
                    None,
                    true,
                    false,
                    true,
                    Some("If you intended to use multiple line, try multiline string '`'"@),
                ),
            )
        } else if self.state == StateType::Paren {
            Err(
                self.exception(
                    "Bracket was never closed"@,
                    Some(
                        TokenView {
                            token_type: TokenType::Keyword,
                            line: self.token_pos.line,
                            col: self.token_pos.col,
                            string: match self.left_paren {
                                Some(c) => seq![c],
                                None => Seq::empty(),
                            },
                            macro_length: 0,
                            quote: '"',
                        },
                    ),
                    false,
                    true,
                    false,
                    Some("This can be the result of unclosed string as well"@),
                ),
            )
        } else {
            let flushed = if self.token_str.len() > 0 {
                self.append_token(macros, bound)
            } else {
                Ok(self)
            };
            match flushed {
                Err(e) => Err(e),
                Ok(s) => if s.keywords.len() == 0 {
                    Ok(s)
                } else if !expect_semicolon || allow_last_missing_semicolon {
                    s.append_keywords()
                } else {
                    Err(
                        s.exception(
                            "Expected semicolon(;)"@,
                            Some(s.keywords.last()),
                            true,
                            true,
                            false,
                            None,
                        ),
                    )
                },
            }
        }
    }

    /// The tokenizer after the whole of `input`.
    pub open spec fn parse(
        self,
        input: Seq<char>,
        expect_semicolon: bool,
        allow_last_missing_semicolon: bool,
        macros: Seq<MacroEntryView>,
    ) -> Result<TokenizerView, JMCErrorView>
        decreases input.len(), 20nat,
    {
        match self.parse_chars(input, 0, expect_semicolon, macros) {
            Err(e) => Err(e),
            Ok(s) => s.finish(expect_semicolon, allow_last_missing_semicolon, macros, input.len()),
        }
    }
}

/// What stands between the first and the last character of `s`.
pub open spec fn inner_text(s: Seq<char>) -> Seq<char> {
    if s.len() >= 2 {
        s.subrange(1, s.len() - 1)
    } else {
        Seq::empty()
    }
}

/// Whether `s` is `=`, `=+` or `=-`.
pub open spec fn is_assignment(s: Seq<char>) -> bool {
    s == "="@ || s == "=+"@ || s == "=-"@
}

/// Whether `s` is the prefix of an array of numbers: `I`, `B` or `L`.
pub open spec fn is_array_prefix(s: Seq<char>) -> bool {
    s == seq!['I'] || s == seq!['B'] || s == seq!['L']
}

} // verus!
