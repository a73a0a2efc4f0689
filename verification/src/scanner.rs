//! The moves of the tokenizer, each proved to do what the grammar says.

use crate::arguments::{arguments_view, clone_tokens};
use crate::exception::{text_view, token_view, JMCError, JMCErrorView};
use crate::foreign::{debug_format, regex_is_match};
use crate::grammar::{
    argument_names, bump, ends_on_bracket, inner_text, is_array_prefix, is_left_paren,
    is_operator, is_quote, is_right_paren, is_separator, is_shorten_if, macro_arguments,
    should_terminate_line,
};
use crate::header::{macro_views, Header, HeaderInner};
use crate::text::{
    after_last_of, char_is_whitespace, chars_of, decimal_of, extend, extend_str, find_from, slice,
    str_equal, string_of,
};
use crate::token::{statement_views, token_views, Token, TokenType};
use crate::tokenizer::{MacroFactoryInfo, Pos, StateType, Tokenizer, TokenizerView};
use crate::utils::is_decorator;
use vstd::prelude::*;

verus! {

/// Whether a move ended as the grammar says: with the state `expected`, or
/// with the failure `expected`.
pub open spec fn agrees(
    r: Result<(), JMCError>,
    after: TokenizerView,
    expected: Result<TokenizerView, JMCErrorView>,
) -> bool {
    match expected {
        Ok(s) => r is Ok && after == s,
        Err(e) => r is Err && r->Err_0@ == e,
    }
}

/// As `agrees`, for a move that says whether it took a character.
pub open spec fn agrees_taking(
    r: Result<bool, JMCError>,
    after: TokenizerView,
    expected: Result<(TokenizerView, bool), JMCErrorView>,
) -> bool {
    match expected {
        Ok(pair) => r == Ok::<bool, JMCError>(pair.1) && after == pair.0,
        Err(e) => r is Err && r->Err_0@ == e,
    }
}

/// Whether the statement that is being read and the statements that have
/// ended are in `after` as they are in `before`: what holds of the
/// tokenizer where a move fails.
pub open spec fn keeps(before: TokenizerView, after: TokenizerView) -> bool {
    after.keywords == before.keywords && after.programs == before.programs
}

/// `n + 1`, but for the largest number, which stays.
pub fn bump_of(n: u32) -> (r: u32)
    ensures
        r == bump(n),
{
    if n < u32::MAX {
        n + 1
    } else {
        n
    }
}

pub fn is_operator_char(ch: char) -> (r: bool)
    ensures
        r == is_operator(ch),
{
    ch == '+' || ch == '-' || ch == '*' || ch == '/' || ch == '>' || ch == '<' || ch == '='
        || ch == '%' || ch == ':' || ch == '!' || ch == '|' || ch == '&' || ch == '?'
}

pub fn is_quote_char(ch: char) -> (r: bool)
    ensures
        r == is_quote(ch),
{
    ch == '\'' || ch == '"' || ch == '`'
}

pub fn is_left_paren_char(ch: char) -> (r: bool)
    ensures
        r == is_left_paren(ch),
{
    ch == '{' || ch == '(' || ch == '['
}

pub fn is_right_paren_char(ch: char) -> (r: bool)
    ensures
        r == is_right_paren(ch),
{
    ch == '}' || ch == ')' || ch == ']'
}

pub fn is_separator_char(ch: char) -> (r: bool)
    ensures
        r == is_separator(ch),
{
    char_is_whitespace(ch) || is_quote_char(ch) || is_left_paren_char(ch) || ch == ','
}

/// Whether `word` is the first word of a statement that ends with its curly
/// bracket.
pub fn is_ending_word(word: &str) -> (r: bool)
    ensures
        r == ends_on_bracket(word@),
{
    str_equal(word, "function") || str_equal(word, "class") || str_equal(word, "new")
        || str_equal(word, "schedule") || str_equal(word, "if") || str_equal(word, "else")
        || str_equal(word, "do") || str_equal(word, "while") || str_equal(word, "for")
        || str_equal(word, "switch")
}

/// The kind of token that the state `state` finishes.
fn token_type_of(state: StateType) -> (r: TokenType)
    ensures
        r == state.token_type(),
{
    match state {
        StateType::Keyword => TokenType::Keyword,
        StateType::Operator => TokenType::Operator,
        StateType::ParenRound => TokenType::ParenRound,
        StateType::ParenSquare => TokenType::ParenSquare,
        StateType::ParenCurly => TokenType::ParenCurly,
        StateType::String => TokenType::String,
        _ => TokenType::Comma,
    }
}

impl Clone for Tokenizer {
    /// A tokenizer for the same text, before its first character.
    fn clone(&self) -> (r: Self)
        ensures
            r@ == self@.sub(),
    {
        self.sub_tokenizer()
    }
}

impl Tokenizer {
    /// The failure for source that does not follow the syntax, at this
    /// tokenizer's place or at `token`.
    pub fn exception(
        &self,
        message: String,
        token: Option<&Token>,
        is_length_include_col: bool,
        is_display_col_length: bool,
        is_entire_line: bool,
        suggestion: Option<String>,
    ) -> (e: JMCError)
        ensures
            e@ == self@.exception(
                message@,
                token_view(token),
                is_length_include_col,
                is_display_col_length,
                is_entire_line,
                text_view(suggestion),
            ),
    {
        JMCError::jmc_syntax_exception(
            message,
            token,
            self,
            is_length_include_col,
            is_display_col_length,
            is_entire_line,
            suggestion,
        )
    }

    /// The failure for source that follows the syntax but is refused.
    pub fn warning(
        &self,
        message: String,
        token: Option<&Token>,
        is_length_include_col: bool,
        is_display_col_length: bool,
        is_entire_line: bool,
        suggestion: Option<String>,
    ) -> (e: JMCError)
        ensures
            e@ == self@.warning(
                message@,
                token_view(token),
                is_length_include_col,
                is_display_col_length,
                is_entire_line,
                text_view(suggestion),
            ),
    {
        JMCError::jmc_syntax_warning(
            message,
            token,
            self,
            is_length_include_col,
            is_display_col_length,
            is_entire_line,
            suggestion,
        )
    }

    /// The place of the character read last.
    pub fn get_pos(&self) -> (pos: Pos)
        ensures
            pos == self@.pos(),
    {
        Pos { line: self.line, col: self.col }
    }

    /// Whether the quote of the string literal that is being read is `ch`.
    fn quote_is(&self, ch: char) -> (r: bool)
        ensures
            r == (self.quote == Some(ch)),
    {
        match self.quote {
            Some(q) => q == ch,
            None => false,
        }
    }

    /// Whether the statement that is being read, whose last token is a curly
    /// bracket, is of a kind that ends with that bracket, judged by its token
    /// at `start_at`.
    pub fn should_terminate_line(&self, start_at: usize) -> (r: bool)
        ensures
            r == should_terminate_line(self@.keywords, start_at as int),
    {
        let n = self.keywords.len();
        if n < 2 || start_at >= n {
            return false;
        }
        let ghost views = self@.keywords;
        assert(forall|j: int| 0 <= j < n ==> views[j] == (#[trigger] self.keywords[j])@);
        let keyword = self.keywords[start_at].string.as_str();
        let before = self.keywords[n - 2].string.as_str();
        let is_in_terminate_line = is_ending_word(keyword);
        let is_run_expand = str_equal(keyword, "execute") && (str_equal(before, "run")
            || str_equal(before, "expand"));
        let is_a_decorator = is_decorator(keyword);
        let is_return_run = n >= 3 && str_equal(self.keywords[n - 3].string.as_str(), "return")
            && str_equal(before, "run");
        is_in_terminate_line || is_run_expand || is_a_decorator || is_return_run
    }

    /// Whether the statement that is being read is an `if` whose body is one
    /// command.
    pub fn is_shorten_if(&self) -> (r: bool)
        ensures
            r == is_shorten_if(self@.keywords),
    {
        if self.keywords.len() < 3 {
            return false;
        }
        let ghost views = self@.keywords;
        assert(forall|j: int|
            0 <= j < self.keywords.len() ==> views[j] == (#[trigger] self.keywords[j])@);
        let is_if = str_equal(self.keywords[0].string.as_str(), "if");
        let is_not_expand = !str_equal(self.keywords[2].string.as_str(), "expand")
            && self.keywords[2].token_type != TokenType::ParenCurly;
        is_if && is_not_expand
    }

    /// The character `ch` joins the token that is being read.
    fn put(&mut self, ch: char)
        ensures
            final(self)@ == old(self)@.put(ch),
    {
        self.token_str.push(ch);
    }

    /// A token of the kind `state` begins at the character read last.
    fn begin(&mut self, state: StateType)
        ensures
            final(self)@ == old(self)@.begin(state),
    {
        self.token_pos = self.get_pos();
        self.state = state;
    }

    /// One more character was read on the same line.
    fn advance(&mut self)
        ensures
            final(self)@ == old(self)@.advance(),
    {
        self.col = bump_of(self.col);
    }

    /// The tokens `tokens` join the statement that is being read.
    fn add(&mut self, tokens: Vec<Token>)
        ensures
            final(self)@ == old(self)@.add(token_views(tokens@)),
    {
        let mut tokens = tokens;
        let ghost before = self@.keywords;
        let ghost added = token_views(tokens@);
        self.keywords.append(&mut tokens);
        assert(self@.keywords =~= before + added);
    }

    /// The token that is being read is taken out of the tokenizer.
    fn take_token(&mut self) -> (r: (Token, Pos))
        ensures
            final(self)@ == old(self)@.taken(),
            r.0@ == old(self)@.current_token(),
            r.1 == old(self)@.token_pos,
    {
        let string = string_of(&self.token_str);
        self.token_str = Vec::new();
        let token_pos = self.token_pos;
        self.token_pos = Pos { line: 0, col: 0 };
        let token = Token {
            token_type: token_type_of(self.state),
            line: token_pos.line,
            col: token_pos.col,
            string,
            _macro_length: 0,
            quote: match self.quote {
                Some(q) => q,
                None => '"',
            },
        };
        (token, token_pos)
    }

    /// The tokenizer is between tokens.
    fn idle(&mut self)
        ensures
            final(self)@ == old(self)@.idle(),
    {
        self.state = StateType::Idle;
    }

    /// The statement that is being read ends: it joins the statements.
    pub fn append_keywords(&mut self) -> (r: Result<(), JMCError>)
        ensures
            agrees(r, final(self)@, old(self)@.append_keywords()),
            final(self).token_str@ == old(self).token_str@,
            r is Err ==> keeps(old(self)@, final(self)@),
    {
        if self.keywords.len() == 0 {
            Err(self.warning("Unnecessary semicolon(;)".to_owned(), None, false, true, false, None))
        } else {
            let mut statement: Vec<Token> = Vec::new();
            std::mem::swap(&mut self.keywords, &mut statement);
            self.programs.push(statement);
            assert(self@.programs =~= old(self)@.programs.push(old(self)@.keywords));
            assert(self@.keywords =~= Seq::empty());
            Ok(())
        }
    }

    /// The tokenizer that reads the arguments of a call in the same file.
    pub fn sub_tokenizer(&self) -> (sub: Tokenizer)
        ensures
            sub@ == self@.sub(),
    {
        let sub = Tokenizer {
            programs: Vec::new(),
            line: 1,
            col: 0,
            state: StateType::Idle,
            token_str: Vec::new(),
            token_pos: Pos { line: 0, col: 0 },
            keywords: Vec::new(),
            raw_string: self.raw_string.clone(),
            file_string: match &self.file_string {
                Some(text) => Some(text.clone()),
                None => None,
            },
            file_path_str: self.file_path_str.clone(),
            working_dir: self.working_dir.clone(),
            quote: None,
            left_paren: None,
            right_paren: None,
            paren_count: 0,
            is_string: false,
            is_comment: false,
            allow_semicolon: self.allow_semicolon,
            macro_factory_info: None,
        };
        assert(sub@.programs =~= Seq::empty());
        assert(sub@.keywords =~= Seq::empty());
        sub
    }

    /// The hint that shows a call of the macro `info` with all its arguments.
    fn macro_hint(info: &MacroFactoryInfo) -> (hint: String)
        ensures
            hint@ == "Macro factory("@ + info@.name + ") requires "@ + crate::text::decimal(
                info@.arg_count as nat,
            ) + " argument. Try '"@ + info@.name + "("@ + argument_names(info@.arg_count as nat)
                + ")'"@,
    {
        let mut names: Vec<char> = Vec::new();
        let mut i: usize = 0;
        while i < info.arg_count
            invariant
                i <= info.arg_count,
                names@ == argument_names(i as nat),
            decreases info.arg_count - i,
        {
            let number = decimal_of(i as u128 + 1);
            if i > 0 {
                extend_str(&mut names, ", ");
                extend_str(&mut names, "arg");
                extend(&mut names, &number);
            } else {
                let mut first = chars_of("arg");
                extend(&mut first, &number);
                names = first;
            }
            i += 1;
        }
        let mut hint = chars_of("Macro factory(");
        extend_str(&mut hint, info.name.as_str());
        extend_str(&mut hint, ") requires ");
        let count = decimal_of(info.arg_count as u128);
        extend(&mut hint, &count);
        extend_str(&mut hint, " argument. Try '");
        extend_str(&mut hint, info.name.as_str());
        extend_str(&mut hint, "(");
        extend(&mut hint, &names);
        extend_str(&mut hint, ")'");
        string_of(&hint)
    }

    /// The one token that a macro gets for each argument.
    fn macro_arguments(args: &Vec<Vec<Token>>) -> (given: Vec<Token>)
        ensures
            token_views(given@) == macro_arguments(statement_views(args@)),
    {
        let mut given: Vec<Token> = Vec::new();
        let mut i: usize = 0;
        while i < args.len()
            invariant
                i <= args.len(),
                given.len() == i,
                forall|j: int|
                    0 <= j < i ==> (#[trigger] given[j])@ == macro_arguments(
                        statement_views(args@),
                    )[j],
            decreases args.len() - i,
        {
            let arg = &args[i];
            assert(statement_views(args@)[i as int] == token_views(arg@));
            if arg.len() == 1 {
                assert(token_views(arg@)[0] == arg[0]@);
                given.push(arg[0].clone());
            } else {
                given.push(Self::merge_tokens(arg));
            }
            i += 1;
        }
        assert(token_views(given@) =~= macro_arguments(statement_views(args@)));
        given
    }

    /// The call of the macro `info` with the arguments that stood in the
    /// bracket `token`: its expansion joins the statement.
    fn apply_macro(
        &mut self,
        info: &MacroFactoryInfo,
        token: &Token,
        pos: Pos,
        arguments: (Vec<Vec<Token>>, Vec<(String, Vec<Token>)>),
    ) -> (r: Result<(), JMCError>)
        ensures
            agrees(
                r,
                final(self)@,
                old(self)@.apply_macro(info@, token@, pos, arguments_view(arguments)),
            ),
            final(self).token_str@ == old(self).token_str@,
            r is Err ==> keeps(old(self)@, final(self)@),
    {
        let (args, kwargs) = arguments;
        let arg_tokens = Self::macro_arguments(&args);
        if kwargs.len() > 0 {
            assert(crate::arguments::kwargs_view(kwargs@)[0].0 == kwargs[0].0@);
            let mut message = chars_of("Macro factory does not support keyword argument (");
            extend_str(&mut message, kwargs[0].0.as_str());
            extend_str(&mut message, "=)");
            return Err(
                self.warning(string_of(&message), Some(token), true, false, true, None),
            );
        }
        if arg_tokens.len() != info.arg_count {
            let mut message = chars_of("This Macro factory (");
            extend_str(&mut message, info.name.as_str());
            extend_str(&mut message, ") expect ");
            let wanted = decimal_of(info.arg_count as u128);
            extend(&mut message, &wanted);
            extend_str(&mut message, " arguments (got ");
            let got = decimal_of(arg_tokens.len() as u128);
            extend(&mut message, &got);
            extend_str(&mut message, ")");
            return Err(
                self.warning(string_of(&message), Some(token), true, false, true, None),
            );
        }
        let expansion = info.macro_factory.call(&arg_tokens, pos.line, pos.col);
        self.add(expansion);
        self.idle();
        Ok(())
    }

    /// The token that is being read ends and joins the statement; a macro's
    /// name gives way to the macro's expansion.
    pub(crate) fn append_token(&mut self, header: &HeaderInner, Ghost(bound): Ghost<nat>) -> (r:
        Result<(), JMCError>)
        requires
            old(self).token_str@.len() <= bound,
            bound >= 1,
        ensures
            agrees(r, final(self)@, old(self)@.append_token(macro_views(header.macros@), bound)),
            r is Ok ==> final(self).token_str@.len() == 0,
            r is Err ==> keeps(old(self)@, final(self)@),
        decreases bound, 3nat,
    {
        let ghost macros = macro_views(header.macros@);
        let (new_token, token_pos) = self.take_token();
        let found = if new_token.token_type == TokenType::Keyword {
            header.find_macro(new_token.string.as_str())
        } else {
            None
        };
        match found {
            Some(k) => {
                let entry = &header.macros[k];
                assert(macros[k as int] == entry@);
                if entry.arg_count == 0 {
                    let none: Vec<Token> = Vec::new();
                    assert(token_views(none@) =~= Seq::empty());
                    let expansion = entry.factory.call(&none, token_pos.line, token_pos.col);
                    self.add(expansion);
                } else {
                    self.macro_factory_info = Some(
                        MacroFactoryInfo {
                            name: new_token.string,
                            macro_factory: entry.factory.clone(),
                            arg_count: entry.arg_count,
                            pos: token_pos,
                        },
                    );
                }
                self.idle();
                Ok(())
            },
            None => {
                match self.macro_factory_info.take() {
                    Some(info) => {
                        if new_token.token_type != TokenType::ParenRound {
                            let mut message = chars_of("Expected round bracket after macro factory(");
                            extend_str(&mut message, info.name.as_str());
                            extend_str(&mut message, ")");
                            return Err(
                                self.warning(
                                    string_of(&message),
                                    Some(&new_token),
                                    false,
                                    false,
                                    false,
                                    Some(Self::macro_hint(&info)),
                                ),
                            );
                        }
                        assert(self@ == (TokenizerView {
                            macro_factory_info: None,
                            ..old(self)@.taken()
                        }));
                        reveal(TokenizerView::parse_func_args);
                        let mut sub = self.sub_tokenizer();
                        let arguments = sub.parse_func_args_in(
                            header,
                            &new_token,
                            TokenType::ParenRound,
                            Ghost(bound),
                        )?;
                        self.apply_macro(&info, &new_token, token_pos, arguments)
                    },
                    None => {
                        let mut one: Vec<Token> = Vec::new();
                        let ghost view = new_token@;
                        one.push(new_token);
                        assert(token_views(one@) =~= seq![view]);
                        self.add(one);
                        self.idle();
                        Ok(())
                    },
                }
            },
        }
    }

    /// The arguments in the bracket `token`, read by this tokenizer, which
    /// has read nothing yet.
    pub(crate) fn parse_func_args_in(
        &mut self,
        header: &HeaderInner,
        token: &Token,
        token_type: TokenType,
        Ghost(bound): Ghost<nat>,
    ) -> (r: Result<(Vec<Vec<Token>>, Vec<(String, Vec<Token>)>), JMCError>)
        requires
            token@.string.len() < bound + 2,
            bound >= 1,
            old(self).token_str@.len() == 0,
        ensures
            match old(self)@.parse_func_args(
                token@,
                token_type,
                macro_views(header.macros@),
                bound,
            ) {
                Ok(a) => r is Ok && arguments_view(r->Ok_0) == a,
                Err(e) => r is Err && r->Err_0@ == e,
            },
        decreases bound, 2nat,
    {
        reveal(TokenizerView::parse_func_args);
        if token.token_type != token_type {
            let mut message = chars_of("Expected ");
            extend_str(&mut message, token_type.to_string().as_str());
            extend_str(&mut message, " (got ");
            extend_str(&mut message, token.token_type.to_string().as_str());
            extend_str(&mut message, ")");
            return Err(
                self.exception(string_of(&message), Some(token), false, false, false, None),
            );
        }
        self.line = token.line;
        self.col = token.col;
        let all = chars_of(token.string.as_str());
        let content = if all.len() >= 2 {
            slice(&all, 1, all.len() - 1)
        } else {
            Vec::new()
        };
        assert(content@ =~= inner_text(token@.string));
        self.parse(header, &content, false, false)?;
        let keywords = if self.programs.len() > 0 {
            assert(self@.programs[0] == token_views(self.programs[0]@));
            clone_tokens(&self.programs[0])
        } else {
            let none: Vec<Token> = Vec::new();
            assert(token_views(none@) =~= Seq::empty());
            none
        };
        self.arguments_of(keywords)
    }

    /// The move at a line feed.
    fn parse_newline(&mut self, header: &HeaderInner, Ghost(bound): Ghost<nat>) -> (r: Result<
        (),
        JMCError,
    >)
        requires
            old(self).token_str@.len() < bound,
        ensures
            agrees(r, final(self)@, old(self)@.parse_newline(macro_views(header.macros@), bound)),
            r is Ok ==> final(self).token_str@.len() <= old(self).token_str@.len() + 1,
            r is Err ==> keeps(old(self)@, final(self)@),
        decreases bound, 5nat,
    {
        self.is_comment = false;
        match self.state {
            StateType::String => {
                if self.quote_is('`') {
                    self.put('\n');
                } else {
                    return Err(
                        self.exception(
                            "String literal contains unescaped line break".to_owned(),
                            None,
                            false,
                            false,
                            true,
                            None,
                        ),
                    );
                }
            },
            StateType::Comment => {
                self.state = StateType::Idle;
            },
            StateType::Keyword | StateType::Operator => {
                self.append_token(header, Ghost(bound))?;
            },
            StateType::Paren => {
                self.put('\n');
            },
            _ => {},
        }
        self.line = bump_of(self.line);
        self.col = 0;
        Ok(())
    }

    /// The move at `ch` inside a keyword or an operator. The result says
    /// whether `ch` was taken.
    fn parse_keyword_and_operator(
        &mut self,
        header: &HeaderInner,
        ch: char,
        expect_semicolon: bool,
        Ghost(bound): Ghost<nat>,
    ) -> (r: Result<bool, JMCError>)
        requires
            old(self).token_str@.len() < bound,
        ensures
            agrees_taking(
                r,
                final(self)@,
                old(self)@.parse_keyword_and_operator(
                    ch,
                    expect_semicolon,
                    macro_views(header.macros@),
                    bound,
                ),
            ),
            r is Ok ==> final(self).token_str@.len() <= old(self).token_str@.len() + 1,
            r == Ok::<bool, JMCError>(false) ==> final(self).token_str@.len() == 0,
            r is Err ==> keeps(old(self)@, final(self)@),
        decreases bound, 5nat,
    {
        if is_separator_char(ch) {
            self.append_token(header, Ghost(bound))?;
            return Ok(false);
        }
        let is_an_operator = is_operator_char(ch);
        if self.state == StateType::Keyword && is_an_operator {
            self.append_token(header, Ghost(bound))?;
            self.begin(StateType::Operator);
        } else if self.state == StateType::Operator && !is_an_operator && ch != ';' {
            self.append_token(header, Ghost(bound))?;
            self.begin(StateType::Keyword);
        }
        if ch != ';' {
            self.put(ch);
            return Ok(true);
        }
        if expect_semicolon {
            self.append_token(header, Ghost(bound))?;
            return Ok(false);
        }
        let allowed = self.allow_semicolon;
        self.allow_semicolon = false;
        let is_prefix = self.token_str.len() == 1 && (self.token_str[0] == 'I' || self.token_str[0]
            == 'B' || self.token_str[0] == 'L');
        proof {
            let t = self.token_str@;
            if is_prefix {
                assert(t =~= seq![t[0]]);
            } else if is_array_prefix(t) {
                assert(t.len() == 1);
            }
        }
        if allowed && is_prefix {
            self.put(ch);
            return Ok(true);
        }
        Err(self.exception("Unexpected semicolon(;)".to_owned(), None, false, true, false, None))
    }

    /// The move at the bracket that closes the span.
    fn close_paren(
        &mut self,
        header: &HeaderInner,
        expect_semicolon: bool,
        Ghost(bound): Ghost<nat>,
    ) -> (r: Result<(), JMCError>)
        requires
            old(self).token_str@.len() <= bound,
            bound >= 1,
        ensures
            agrees(
                r,
                final(self)@,
                old(self)@.close_paren(expect_semicolon, macro_views(header.macros@), bound),
            ),
            r is Ok ==> final(self).token_str@.len() == 0,
            r is Err ==> keeps(old(self)@, final(self)@),
        decreases bound, 4nat,
    {
        let is_paren_curly = match self.left_paren {
            Some(c) => c == '{',
            None => false,
        };
        let is_paren_square = match self.left_paren {
            Some(c) => c == '[',
            None => false,
        };
        self.state = if is_paren_curly {
            StateType::ParenCurly
        } else if is_paren_square {
            StateType::ParenSquare
        } else {
            StateType::ParenRound
        };
        let ghost begun = self@;
        self.append_token(header, Ghost(bound))?;
        proof {
            crate::theorems::statements::lemma_append_token_adds(
                begun,
                macro_views(header.macros@),
                bound,
            );
        }
        if is_paren_curly && expect_semicolon && self.should_terminate_line(0) && (
        !self.is_shorten_if() || self.should_terminate_line(2)) {
            let ghost open = self@;
            match self.append_keywords() {
                Ok(()) => {},
                Err(e) => {
                    assert(open.keywords.len() == 0);
                    assert(self@.keywords =~= old(self)@.keywords);
                    return Err(e);
                },
            }
        }
        Ok(())
    }

    /// The move at `ch`, which has joined the span, inside a string literal
    /// of a bracket span.
    fn paren_literal(&mut self, ch: char, next: Option<char>) -> (r: Result<bool, JMCError>)
        ensures
            agrees_taking(r, final(self)@, old(self)@.paren_literal(ch, next)),
            r is Ok ==> final(self).token_str@.len() <= old(self).token_str@.len() + 1,
            r == Ok::<bool, JMCError>(true) ==> next is Some,
            r is Err ==> keeps(old(self)@, final(self)@),
    {
        if ch == '\\' {
            match next {
                Some(n) => {
                    self.put(n);
                    self.advance();
                    return Ok(true);
                },
                None => {
                    return Err(
                        self.exception(
                            "String literal contains an unescaped linebreak".to_owned(),
                            None,
                            true,
                            false,
                            true,
                            Some(
                                "If you intended to use multiple line, try multiline string '`'".to_owned(),
                            ),
                        ),
                    );
                },
            }
        }
        if self.quote_is(ch) {
            self.is_string = false;
        }
        Ok(false)
    }

    /// The move at `ch`, which has joined the span, inside a bracket span but
    /// outside its string literals and comments.
    fn paren_code(
        &mut self,
        header: &HeaderInner,
        ch: char,
        next: Option<char>,
        expect_semicolon: bool,
        Ghost(bound): Ghost<nat>,
    ) -> (r: Result<(), JMCError>)
        requires
            old(self).token_str@.len() <= bound,
            bound >= 1,
        ensures
            agrees(
                r,
                final(self)@,
                old(self)@.paren_code(
                    ch,
                    next,
                    expect_semicolon,
                    macro_views(header.macros@),
                    bound,
                ),
            ),
            r is Ok ==> final(self).token_str@.len() <= old(self).token_str@.len(),
            r is Err ==> keeps(old(self)@, final(self)@),
        decreases bound, 5nat,
    {
        let is_left = match self.left_paren {
            Some(c) => c == ch,
            None => false,
        };
        let is_right = match self.right_paren {
            Some(c) => c == ch,
            None => false,
        };
        let next_is_slash = match next {
            Some(c) => c == '/',
            None => false,
        };
        if is_left {
            self.paren_count = bump_of(self.paren_count);
        } else if is_right {
            if self.paren_count != 0 {
                self.paren_count = self.paren_count - 1;
            } else {
                self.close_paren(header, expect_semicolon, Ghost(bound))?;
            }
        } else if is_quote_char(ch) {
            self.is_string = true;
            self.quote = Some(ch);
        } else if (ch == '/' && next_is_slash) || (ch == '#' && self.keywords.len() == 0) {
            self.is_comment = true;
        }
        Ok(())
    }

    /// The move at `ch` inside a bracket span. The result says whether `next`
    /// was taken too.
    fn parse_paren(
        &mut self,
        header: &HeaderInner,
        ch: char,
        next: Option<char>,
        expect_semicolon: bool,
        Ghost(bound): Ghost<nat>,
    ) -> (r: Result<bool, JMCError>)
        requires
            old(self).token_str@.len() < bound,
        ensures
            agrees_taking(
                r,
                final(self)@,
                old(self)@.parse_paren(
                    ch,
                    next,
                    expect_semicolon,
                    macro_views(header.macros@),
                    bound,
                ),
            ),
            r is Ok ==> final(self).token_str@.len() <= old(self).token_str@.len() + (if r
                == Ok::<bool, JMCError>(true) {
                2int
            } else {
                1int
            }),
            r == Ok::<bool, JMCError>(true) ==> next is Some,
            r is Err ==> keeps(old(self)@, final(self)@),
        decreases bound, 6nat,
    {
        self.put(ch);
        if self.is_string {
            return self.paren_literal(ch, next);
        }
        if self.is_comment {
            return Ok(false);
        }
        self.paren_code(header, ch, next, expect_semicolon, Ghost(bound))?;
        Ok(false)
    }

    /// The check of a backtick literal whose text between the backticks is
    /// the token that is being read.
    fn validate_multiline_string(&mut self) -> (r: Result<(), JMCError>)
        ensures
            agrees(r, final(self)@, old(self)@.validate_multiline_string()),
            r is Ok ==> final(self).token_str@.len() <= old(self).token_str@.len(),
            r is Err ==> keeps(old(self)@, final(self)@),
    {
        let n = self.token_str.len();
        let first = find_from(&self.token_str, 0, '\n');
        assert(self.token_str@.skip(0) == self.token_str@);
        proof {
            crate::text::lemma_after_last_bounds(self.token_str@, '\n');
            crate::text::lemma_find_bounds(self.token_str@, '\n');
        }
        if first >= n {
            return Err(
                self.exception(
                    "Expected newline after open backtick(`) for multiline string".to_owned(),
                    None,
                    false,
                    false,
                    false,
                    None,
                ),
            );
        }
        let behind = after_last_of(&self.token_str, '\n');
        assert(self.token_str@[first as int] == '\n');
        assert(behind > first);
        let last = behind - 1;
        if first == last {
            return Err(
                self.exception(
                    "Expected newline before close backtick(`) for multiline string".to_owned(),
                    None,
                    false,
                    true,
                    false,
                    None,
                ),
            );
        }
        let first_line = slice(&self.token_str, 0, first);
        let last_line = slice(&self.token_str, behind, n);
        assert(first_line@ == self.token_str@.take(first as int));
        assert(last_line@ == self.token_str@.skip(last + 1));
        let first_text = string_of(&first_line);
        let first_blank = match regex_is_match("^\\s*$", first_text.as_str()) {
            Some(blank) => blank,
            None => false,
        };
        if !first_blank {
            let mut message = chars_of("Expected whitespaces line after open backtick(`) (got ");
            extend_str(&mut message, debug_format(first_text.as_str()).as_str());
            extend_str(&mut message, ")");
            return Err(self.exception(string_of(&message), None, false, true, false, None));
        }
        let last_text = string_of(&last_line);
        let last_blank = match regex_is_match("^\\s*$", last_text.as_str()) {
            Some(blank) => blank,
            None => false,
        };
        if !last_blank {
            let mut message = chars_of("Expected whitespaces line before open backtick(`) (got ");
            extend_str(&mut message, debug_format(last_text.as_str()).as_str());
            extend_str(&mut message, ")");
            return Err(self.exception(string_of(&message), None, false, true, false, None));
        }
        self.token_str = slice(&self.token_str, first + 1, last);
        Ok(())
    }

    /// The move at `ch` inside a string literal. The result says whether
    /// `next` was taken too.
    fn parse_string(
        &mut self,
        header: &HeaderInner,
        ch: char,
        next: Option<char>,
        Ghost(bound): Ghost<nat>,
    ) -> (r: Result<bool, JMCError>)
        requires
            old(self).token_str@.len() < bound,
        ensures
            agrees_taking(
                r,
                final(self)@,
                old(self)@.parse_string(ch, next, macro_views(header.macros@), bound),
            ),
            r is Ok ==> final(self).token_str@.len() <= old(self).token_str@.len() + (if r
                == Ok::<bool, JMCError>(true) {
                2int
            } else {
                1int
            }),
            r == Ok::<bool, JMCError>(true) ==> next is Some,
            r is Err ==> keeps(old(self)@, final(self)@),
        decreases bound, 5nat,
    {
        if ch == '\\' {
            let next_char: char = match next {
                Some(next_char) => next_char,
                None => {
                    return Err(
                        self.exception(
                            "String literal contains unescaped line break".to_owned(),
                            None,
                            false,
                            false,
                            true,
                            Some("You are currently trying to escape(\\) nothing.".to_owned()),
                        ),
                    );
                },
            };
            match Self::escape(next_char) {
                Ok(unescaped) => self.put(unescaped),
                Err(_) => {
                    self.put('\\');
                    self.put(next_char);
                },
            }
            self.advance();
            return Ok(true);
        }
        if !self.quote_is(ch) {
            self.put(ch);
            return Ok(false);
        }
        if ch == '`' {
            self.validate_multiline_string()?;
        }
        self.append_token(header, Ghost(bound))?;
        Ok(false)
    }

    /// The move at `ch` between tokens.
    fn parse_none(&mut self, header: &HeaderInner, ch: char, Ghost(bound): Ghost<nat>) -> (r:
        Result<(), JMCError>)
        requires
            old(self).token_str@.len() < bound,
        ensures
            agrees(r, final(self)@, old(self)@.parse_none(ch, macro_views(header.macros@), bound)),
            r is Ok ==> final(self).token_str@.len() <= old(self).token_str@.len() + 1,
            r is Err ==> keeps(old(self)@, final(self)@),
        decreases bound, 5nat,
    {
        if is_quote_char(ch) {
            self.begin(StateType::String);
            self.quote = Some(ch);
        } else if ch == ';' {
            match &self.macro_factory_info {
                Some(macro_factory) => {
                    let mut message = chars_of("Expected a round bracket after macro factory(");
                    extend_str(&mut message, macro_factory.name.as_str());
                    extend_str(&mut message, ")");
                    return Err(
                        self.warning(
                            string_of(&message),
                            None,
                            false,
                            true,
                            false,
                            Some(
                                "Macro factory is a macro that acts like a function (requires parameter(s))".to_owned(),
                            ),
                        ),
                    );
                },
                None => {
                    self.append_keywords()?;
                },
            }
        } else if is_left_paren_char(ch) {
            self.put(ch);
            self.begin(StateType::Paren);
            self.left_paren = Some(ch);
            self.right_paren = match crate::tokenizer::get_paren_pair(ch) {
                Ok(right) => Some(right),
                Err(_) => None,
            };
        } else if is_right_paren_char(ch) {
            let mut message = chars_of("Unexpected closing bracket (");
            message.push(ch);
            assert(message@ == "Unexpected closing bracket ("@ + seq![ch]);
            extend_str(&mut message, ")");
            return Err(self.exception(string_of(&message), None, false, false, false, None));
        } else if ch == '#' && self.keywords.len() == 0 {
            self.state = StateType::Comment;
        } else if ch == ',' {
            self.put(ch);
            self.begin(StateType::Comma);
            self.append_token(header, Ghost(bound))?;
        } else if is_operator_char(ch) {
            self.put(ch);
            self.begin(StateType::Operator);
        } else if char_is_whitespace(ch) {
        } else {
            self.put(ch);
            self.begin(StateType::Keyword);
        }
        Ok(())
    }

    /// The move at `ch` in whatever state the tokenizer is.
    fn dispatch(
        &mut self,
        header: &HeaderInner,
        ch: char,
        next: Option<char>,
        expect_semicolon: bool,
        Ghost(bound): Ghost<nat>,
    ) -> (r: Result<bool, JMCError>)
        requires
            old(self).token_str@.len() < bound,
        ensures
            agrees_taking(
                r,
                final(self)@,
                old(self)@.dispatch(ch, next, expect_semicolon, macro_views(header.macros@), bound),
            ),
            r is Ok ==> final(self).token_str@.len() <= old(self).token_str@.len() + (if r
                == Ok::<bool, JMCError>(true) {
                2int
            } else {
                1int
            }),
            r == Ok::<bool, JMCError>(true) ==> next is Some,
            r is Err ==> keeps(old(self)@, final(self)@),
        decreases bound, 7nat,
    {
        match self.state {
            StateType::Paren => self.parse_paren(header, ch, next, expect_semicolon, Ghost(bound)),
            StateType::String => self.parse_string(header, ch, next, Ghost(bound)),
            StateType::Comment => Ok(false),
            _ => {
                self.parse_none(header, ch, Ghost(bound))?;
                Ok(false)
            },
        }
    }

    /// The move at `//` outside a bracket span and a string literal.
    fn begin_comment(&mut self, header: &HeaderInner, Ghost(bound): Ghost<nat>) -> (r: Result<
        (),
        JMCError,
    >)
        requires
            old(self).token_str@.len() <= bound,
            bound >= 1,
        ensures
            agrees(r, final(self)@, old(self)@.begin_comment(macro_views(header.macros@), bound)),
            r is Ok ==> final(self).token_str@.len() == 0,
            r is Err ==> keeps(old(self)@, final(self)@),
        decreases bound, 5nat,
    {
        self.advance();
        if self.token_str.len() > 0 {
            self.append_token(header, Ghost(bound))?;
        }
        self.state = StateType::Comment;
        Ok(())
    }

    /// The move at `ch` where neither a line feed nor a comment begins.
    fn read(
        &mut self,
        header: &HeaderInner,
        ch: char,
        next: Option<char>,
        expect_semicolon: bool,
        Ghost(bound): Ghost<nat>,
    ) -> (r: Result<bool, JMCError>)
        requires
            old(self).token_str@.len() < bound,
        ensures
            agrees_taking(
                r,
                final(self)@,
                old(self)@.read(ch, next, expect_semicolon, macro_views(header.macros@), bound),
            ),
            r is Ok ==> final(self).token_str@.len() <= old(self).token_str@.len() + (if r
                == Ok::<bool, JMCError>(true) {
                2int
            } else {
                1int
            }),
            r == Ok::<bool, JMCError>(true) ==> next is Some,
        decreases bound, 8nat,
    {
        if self.state == StateType::Keyword || self.state == StateType::Operator {
            let taken = self.parse_keyword_and_operator(header, ch, expect_semicolon, Ghost(bound))?;
            if taken {
                return Ok(false);
            }
            assert(self.token_str@.len() == 0);
        }
        self.dispatch(header, ch, next, expect_semicolon, Ghost(bound))
    }

    /// One move: the tokenizer reads `ch`, and `next` with it where the
    /// result says so.
    fn step(
        &mut self,
        header: &HeaderInner,
        ch: char,
        next: Option<char>,
        expect_semicolon: bool,
        Ghost(bound): Ghost<nat>,
    ) -> (r: Result<bool, JMCError>)
        requires
            old(self).token_str@.len() < bound,
        ensures
            agrees_taking(
                r,
                final(self)@,
                old(self)@.step(ch, next, expect_semicolon, macro_views(header.macros@), bound),
            ),
            r is Ok ==> final(self).token_str@.len() <= old(self).token_str@.len() + (if r
                == Ok::<bool, JMCError>(true) {
                2int
            } else {
                1int
            }),
            r == Ok::<bool, JMCError>(true) ==> next is Some,
        decreases bound, 9nat,
    {
        self.advance();
        if ch == ';' && self.state == StateType::Idle && !expect_semicolon {
            return Err(
                self.exception("Unexpected semicolon(;)".to_owned(), None, false, true, false, None),
            );
        }
        if ch == '\n' {
            self.parse_newline(header, Ghost(bound))?;
            return Ok(false);
        }
        let next_is_slash = match next {
            Some(c) => c == '/',
            None => false,
        };
        if ch == '/' && next_is_slash && self.state != StateType::Paren && self.state
            != StateType::String {
            self.begin_comment(header, Ghost(bound))?;
            return Ok(true);
        }
        self.read(header, ch, next, expect_semicolon, Ghost(bound))
    }

    /// The moves over the whole of `string`.
    #[verifier::loop_isolation(false)]
    fn parse_chars(&mut self, header: &HeaderInner, string: &Vec<char>, expect_semicolon: bool) -> (r:
        Result<(), JMCError>)
        requires
            old(self).token_str@.len() == 0,
        ensures
            agrees(
                r,
                final(self)@,
                old(self)@.parse_chars(string@, 0, expect_semicolon, macro_views(header.macros@)),
            ),
            r is Ok ==> final(self).token_str@.len() <= string@.len(),
        decreases string@.len(), 10nat,
    {
        let ghost macros = macro_views(header.macros@);
        let mut i: usize = 0;
        while i < string.len()
            invariant
                i <= string.len(),
                self.token_str@.len() <= i,
                old(self)@.parse_chars(string@, 0, expect_semicolon, macros)
                    == self@.parse_chars(string@, i as int, expect_semicolon, macros),
            decreases string.len() - i,
        {
            let next: Option<char> = if i + 1 < string.len() {
                Some(string[i + 1])
            } else {
                None
            };
            let both = self.step(header, string[i], next, expect_semicolon, Ghost(string@.len()))?;
            if both {
                i += 2;
            } else {
                i += 1;
            }
        }
        Ok(())
    }

    /// What the end of the text makes of the state.
    fn finish(
        &mut self,
        header: &HeaderInner,
        expect_semicolon: bool,
        allow_last_missing_semicolon: bool,
        Ghost(bound): Ghost<nat>,
    ) -> (r: Result<(), JMCError>)
        requires
            old(self).token_str@.len() <= bound,
        ensures
            agrees(
                r,
                final(self)@,
                old(self)@.finish(
                    expect_semicolon,
                    allow_last_missing_semicolon,
                    macro_views(header.macros@),
                    bound,
                ),
            ),
        decreases bound, 5nat,
    {
        match self.state {
            StateType::String => {
                return Err(
                    self.exception(
                        "String literal contains an unescaped linebreak".to_owned(),
                        None,
                        true,
                        false,
                        true,
                        Some(
                            "If you intended to use multiple line, try multiline string '`'".to_owned(),
                        ),
                    ),
                );
            },
            StateType::Paren => {
                let mut paren: Vec<char> = Vec::new();
                match self.left_paren {
                    Some(left_paren) => {
                        paren.push(left_paren);
                        assert(paren@ =~= seq![left_paren]);
                    },
                    None => {},
                }
                let token = Token {
                    token_type: TokenType::Keyword,
                    line: self.token_pos.line,
                    col: self.token_pos.col,
                    string: string_of(&paren),
                    _macro_length: 0,
                    quote: '"',
                };
                return Err(
                    self.exception(
                        "Bracket was never closed".to_owned(),
                        Some(&token),
                        false,
                        true,
                        false,
                        Some("This can be the result of unclosed string as well".to_owned()),
                    ),
                );
            },
            _ => {},
        }
        if self.token_str.len() > 0 {
            self.append_token(header, Ghost(bound))?;
        }
        if self.keywords.len() == 0 {
            return Ok(());
        }
        if !expect_semicolon || allow_last_missing_semicolon {
            return self.append_keywords();
        }
        let last = &self.keywords[self.keywords.len() - 1];
        assert(self@.keywords.last() == last@);
        Err(self.exception("Expected semicolon(;)".to_owned(), Some(last), true, true, false, None))
    }

    /// Tokenizes `string` from the tokenizer's place on.
    ///
    /// * `expect_semicolon` - whether statements end with semicolons
    /// * `allow_last_missing_semicolon` - whether the last statement may go
    ///   without its semicolon
    pub(crate) fn parse(
        &mut self,
        header: &HeaderInner,
        string: &Vec<char>,
        expect_semicolon: bool,
        allow_last_missing_semicolon: bool,
    ) -> (r: Result<(), JMCError>)
        requires
            old(self).token_str@.len() == 0,
        ensures
            agrees(
                r,
                final(self)@,
                old(self)@.parse(
                    string@,
                    expect_semicolon,
                    allow_last_missing_semicolon,
                    macro_views(header.macros@),
                ),
            ),
        decreases string@.len(), 20nat,
    {
        self.parse_chars(header, string, expect_semicolon)?;
        self.finish(header, expect_semicolon, allow_last_missing_semicolon, Ghost(string@.len()))
    }

    /// The arguments in the bracket `token`, which must be of the kind
    /// `token_type`. A copy of this tokenizer that starts over on the same
    /// text reads them; this tokenizer stays as it is.
    pub fn parse_func_args(&mut self, header: &Header, token: &Token, token_type: TokenType) -> (r:
        Result<(Vec<Vec<Token>>, Vec<(String, Vec<Token>)>), JMCError>)
        ensures
            match old(self)@.sub().parse_func_args(
                token@,
                token_type,
                macro_views(header.inner.macros@),
                token@.string.len() + 1,
            ) {
                Ok(a) => r is Ok && arguments_view(r->Ok_0) == a,
                Err(e) => r is Err && r->Err_0@ == e,
            },
            *final(self) == *old(self),
    {
        reveal(TokenizerView::parse_func_args);
        let mut copy = self.sub_tokenizer();
        copy.parse_func_args_in(header.get(), token, token_type, Ghost(token@.string.len() + 1))
    }

    /// The arguments in the round bracket `token`, read as `parse_func_args`
    /// reads them.
    pub fn parse_func_args_round(&mut self, header: &Header, token: &Token) -> (r: Result<
        (Vec<Vec<Token>>, Vec<(String, Vec<Token>)>),
        JMCError,
    >)
        ensures
            match old(self)@.sub().parse_func_args(
                token@,
                TokenType::ParenRound,
                macro_views(header.inner.macros@),
                token@.string.len() + 1,
            ) {
                Ok(a) => r is Ok && arguments_view(r->Ok_0) == a,
                Err(e) => r is Err && r->Err_0@ == e,
            },
            *final(self) == *old(self),
    {
        self.parse_func_args(header, token, TokenType::ParenRound)
    }

    /// Tokenizes `raw_string` from line 1, column 1 on: the tokenizer after
    /// the whole text, with the statements in `programs`, or the failure that
    /// ended the run.
    ///
    /// * `raw_string` - the text to tokenize
    /// * `file_path_str` - the path of the file that the text is from
    /// * `file_string` - the text of the whole file, where `raw_string` is a part
    /// * `expect_semicolon` - whether statements end with semicolons
    /// * `allow_semicolon` - whether a semicolon may follow an array prefix
    pub fn parse_raw_string(
        header: &Header,
        raw_string: String,
        file_path_str: String,
        file_string: Option<String>,
        expect_semicolon: bool,
        allow_semicolon: bool,
    ) -> (r: Result<Self, JMCError>)
        ensures
            match TokenizerView::fresh(
                raw_string@,
                file_path_str@,
                text_view(file_string),
                header.inner.working_dir@,
                allow_semicolon,
            ).parse(raw_string@, expect_semicolon, false, macro_views(header.inner.macros@)) {
                Ok(s) => r is Ok && r->Ok_0@ == s,
                Err(e) => r is Err && r->Err_0@ == e,
            },
            r is Ok ==> forall|i: int|
                0 <= i < r->Ok_0.programs.len() ==> (#[trigger] r->Ok_0.programs[i]).len() > 0,
    {
        let chars = chars_of(raw_string.as_str());
        let mut tokenizer = Self::new(
            header,
            raw_string,
            file_path_str,
            file_string,
            allow_semicolon,
        );
        proof {
            crate::theorems::statements::lemma_statements_in_source_order(
                tokenizer@,
                chars@,
                expect_semicolon,
                false,
                macro_views(header.inner.macros@),
            );
        }
        tokenizer.parse(header.get(), &chars, expect_semicolon, false)?;
        proof {
            Self::lemma_statements_hold_tokens(&tokenizer);
        }
        Ok(tokenizer)
    }

    /// Tokenizes `raw_string`, which stands in its file behind the place
    /// (`line`, `col`): positions are counted from there.
    pub fn parse_raw_string_col_line(
        header: &Header,
        raw_string: String,
        file_path_str: String,
        file_string: Option<String>,
        expect_semicolon: bool,
        allow_semicolon: bool,
        line: u32,
        col: u32,
    ) -> (r: Result<Self, JMCError>)
        ensures
            match TokenizerView::fresh_at(
                raw_string@,
                file_path_str@,
                text_view(file_string),
                header.inner.working_dir@,
                allow_semicolon,
                line,
                col,
            ).parse(raw_string@, expect_semicolon, false, macro_views(header.inner.macros@)) {
                Ok(s) => r is Ok && r->Ok_0@ == s,
                Err(e) => r is Err && r->Err_0@ == e,
            },
            r is Ok ==> forall|i: int|
                0 <= i < r->Ok_0.programs.len() ==> (#[trigger] r->Ok_0.programs[i]).len() > 0,
    {
        let chars = chars_of(raw_string.as_str());
        let mut tokenizer = Self::new(
            header,
            raw_string,
            file_path_str,
            file_string,
            allow_semicolon,
        );
        tokenizer.line = line;
        tokenizer.col = col;
        proof {
            crate::theorems::statements::lemma_statements_in_source_order(
                tokenizer@,
                chars@,
                expect_semicolon,
                false,
                macro_views(header.inner.macros@),
            );
        }
        tokenizer.parse(header.get(), &chars, expect_semicolon, false)?;
        proof {
            Self::lemma_statements_hold_tokens(&tokenizer);
        }
        Ok(tokenizer)
    }

    /// Where every statement of a tokenizer's value holds a token, every
    /// statement of the tokenizer does.
    proof fn lemma_statements_hold_tokens(tokenizer: &Tokenizer)
        requires
            crate::theorems::statements::all_hold_tokens(tokenizer@.programs),
        ensures
            forall|i: int|
                0 <= i < tokenizer.programs.len() ==> (#[trigger] tokenizer.programs[i]).len() > 0,
    {
        assert forall|i: int| 0 <= i < tokenizer.programs.len() implies (
        #[trigger] tokenizer.programs[i]).len() > 0 by {
            assert(tokenizer@.programs[i].len() == tokenizer.programs[i].len());
        }
    }
}

} // verus!
