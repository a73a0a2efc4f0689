//! The token model: one lexical token with its position, and the rules by
//! which the content of a string literal is written back between quotes.

use crate::text::{chars_of, count, string_of};
use crate::tokenizer::Tokenizer;
use vstd::prelude::*;

verus! {

/// The kind of a token.
#[derive(Clone, Copy, Debug, PartialEq, Eq, Structural)]
pub enum TokenType {
    Keyword,
    Operator,
    ParenRound,
    ParenSquare,
    ParenCurly,
    String,
    Comma,
    Func,
}

impl Default for TokenType {
    fn default() -> (r: Self)
        ensures
            r == TokenType::Keyword,
    {
        TokenType::Keyword
    }
}

/// The name under which diagnostics speak of a token kind.
pub open spec fn kind_name(token_type: TokenType) -> Seq<char> {
    match token_type {
        TokenType::Keyword => "Keyword"@,
        TokenType::Operator => "Operator"@,
        TokenType::ParenRound => "Round-Parentheses"@,
        TokenType::ParenSquare => "Square-Parentheses"@,
        TokenType::ParenCurly => "Curly-Parentheses"@,
        TokenType::String => "String Literal"@,
        TokenType::Comma => "Comma"@,
        TokenType::Func => "Function"@,
    }
}

impl TokenType {
    /// The name under which diagnostics speak of this kind.
    pub fn to_string(&self) -> (r: String)
        ensures
            r@ == kind_name(*self),
    {
        let name = match self {
            TokenType::Keyword => "Keyword",
            TokenType::Operator => "Operator",
            TokenType::ParenRound => "Round-Parentheses",
            TokenType::ParenSquare => "Square-Parentheses",
            TokenType::ParenCurly => "Curly-Parentheses",
            TokenType::String => "String Literal",
            TokenType::Comma => "Comma",
            TokenType::Func => "Function",
        };
        name.to_owned()
    }
}

/// How one character of a string literal's content is written between quotes
/// of the kind `quote`: control characters and the backslash as two-character
/// escapes, a quote character escaped only where it equals `quote`.
pub open spec fn escaped(ch: char, quote: char) -> Seq<char> {
    if ch == '\n' {
        seq!['\\', 'n']
    } else if ch == '\r' {
        seq!['\\', 'r']
    } else if ch == '\t' {
        seq!['\\', 't']
    } else if ch == '\\' {
        seq!['\\', '\\']
    } else if ch == '\0' {
        seq!['\\', '0']
    } else if ch == '\'' && quote == '\'' {
        seq!['\\', '\'']
    } else if ch == '"' && quote == '"' {
        seq!['\\', '"']
    } else {
        seq![ch]
    }
}

/// The content `s` with each character written as `escaped` gives it.
pub open spec fn escaped_text(s: Seq<char>, quote: char) -> Seq<char>
    decreases s.len(),
{
    if s.len() == 0 {
        s
    } else {
        escaped_text(s.drop_last(), quote) + escaped(s.last(), quote)
    }
}

/// The quote that wraps a rendering when `forced` is asked for: `forced` itself
/// if it is a single or a double quote, else the double quote.
pub open spec fn wrapping_quote(forced: char) -> char {
    if forced == '\'' || forced == '"' {
        forced
    } else {
        '"'
    }
}

/// The content `s` between quotes of the kind that `forced` asks for.
pub open spec fn quoted(s: Seq<char>, forced: char) -> Seq<char> {
    let q = wrapping_quote(forced);
    seq![q] + escaped_text(s, q) + seq![q]
}

/// The quote that suits the content `s`: the one of single and double quote that
/// occurs less often in it, and `preferred` where both occur equally often.
pub open spec fn suited_quote(s: Seq<char>, preferred: char) -> char {
    let single = count(s, '\'');
    let double = count(s, '"');
    if single > double {
        '"'
    } else if single < double {
        '\''
    } else {
        preferred
    }
}

/// The content `s` between the quotes that suit it.
pub open spec fn rendered(s: Seq<char>, preferred: char) -> Seq<char> {
    quoted(s, suited_quote(s, preferred))
}

/// Whether `s` begins with `{` and ends with `}`.
pub open spec fn is_braced(s: Seq<char>) -> bool {
    s.len() >= 1 && s[0] == '{' && s.last() == '}'
}

/// A token as a plain value.
pub struct TokenView {
    pub token_type: TokenType,
    pub line: u32,
    pub col: u32,
    pub string: Seq<char>,
    pub macro_length: u32,
    pub quote: char,
}

impl TokenView {
    /// A curly-bracket token holds its two brackets.
    pub open spec fn wf(self) -> bool {
        self.token_type == TokenType::ParenCurly ==> is_braced(self.string)
    }

    /// The number of columns the token takes in its source: for a string
    /// literal those of its content between its own quotes, for any other
    /// token those of its text.
    pub open spec fn length(self) -> nat {
        if self.token_type == TokenType::String {
            quoted(self.string, self.quote).len()
        } else {
            self.string.len()
        }
    }

    /// The token's text as source: a string literal between the quotes that
    /// suit it, the single quote preferred; any other token as it is.
    pub open spec fn full_string(self) -> Seq<char> {
        if self.token_type == TokenType::String {
            rendered(self.string, '\'')
        } else {
            self.string
        }
    }

    /// The token's text as it was written: as `full_string`, but with the
    /// token's own quote preferred, and a backtick literal between backticks
    /// with a line break after the opening and before the closing one.
    pub open spec fn original_string(self) -> Seq<char> {
        if self.token_type == TokenType::String {
            let r = rendered(self.string, self.quote);
            if self.quote == '`' {
                seq!['`', '\n'] + r.subrange(1, r.len() - 1) + seq!['\n', '`']
            } else {
                r
            }
        } else {
            self.string
        }
    }
}

/// One lexical token.
#[derive(Debug)]
pub struct Token {
    pub token_type: TokenType,
    /// Line of the first character, counted from 1.
    pub line: u32,
    /// Column of the first character, counted from 1.
    pub col: u32,
    /// The text: with its brackets for a bracket token, the content without
    /// its quotes for a string literal.
    pub string: String,
    /// Columns that the macro call took which produced this token; 0 for a
    /// token that stands in the source itself.
    pub _macro_length: u32,
    /// The quote of a string literal.
    pub quote: char,
}

impl View for Token {
    type V = TokenView;

    open spec fn view(&self) -> TokenView {
        TokenView {
            token_type: self.token_type,
            line: self.line,
            col: self.col,
            string: self.string@,
            macro_length: self._macro_length,
            quote: self.quote,
        }
    }
}

impl Clone for Token {
    fn clone(&self) -> (r: Self)
        ensures
            r@ == self@,
    {
        Token {
            token_type: self.token_type,
            line: self.line,
            col: self.col,
            string: self.string.clone(),
            _macro_length: self._macro_length,
            quote: self.quote,
        }
    }
}

impl Default for Token {
    fn default() -> (r: Self)
        ensures
            r@ == (TokenView {
                token_type: TokenType::Keyword,
                line: 0,
                col: 0,
                string: Seq::empty(),
                macro_length: 0,
                quote: '\0',
            }),
    {
        Token {
            token_type: TokenType::Keyword,
            line: 0,
            col: 0,
            string: String::new(),
            _macro_length: 0,
            quote: '\0',
        }
    }
}

/// The tokens of a list as plain values.
pub open spec fn token_views(tokens: Seq<Token>) -> Seq<TokenView> {
    Seq::new(tokens.len(), |i: int| tokens[i]@)
}

/// The statements of a list as plain values.
pub open spec fn statement_views(statements: Seq<Vec<Token>>) -> Seq<Seq<TokenView>> {
    Seq::new(statements.len(), |i: int| token_views(statements[i]@))
}

impl Token {
    /// A token of the given kind, position and text. Without a macro length
    /// it is a token of the source (0); without a quote it has the double quote.
    pub fn new(
        token_type: TokenType,
        line: u32,
        col: u32,
        string: String,
        _macro_length: Option<u32>,
        quote: Option<char>,
    ) -> (token: Self)
        requires
            token_type == TokenType::ParenCurly ==> is_braced(string@),
        ensures
            token@ == (TokenView {
                token_type,
                line,
                col,
                string: string@,
                macro_length: match _macro_length {
                    Some(n) => n,
                    None => 0,
                },
                quote: match quote {
                    Some(q) => q,
                    None => '"',
                },
            }),
            token@.wf(),
    {
        let _macro_length: u32 = match _macro_length {
            Some(value) => value,
            None => 0,
        };
        let quote: char = match quote {
            Some(value) => value,
            None => '"',
        };
        Token { token_type, line, col, string, _macro_length, quote }
    }

    /// A token of the given kind and text at no position.
    pub fn empty(token_type: TokenType, string: String) -> (token: Self)
        requires
            token_type == TokenType::ParenCurly ==> is_braced(string@),
        ensures
            token@ == (TokenView {
                token_type,
                line: 0,
                col: 0,
                string: string@,
                macro_length: 0,
                quote: '"',
            }),
            token@.wf(),
    {
        Token { token_type, line: 0, col: 0, string, _macro_length: 0, quote: '"' }
    }

    /// The number of columns the token takes in its source.
    pub fn length(&self) -> (n: usize)
        ensures
            n == self@.length(),
    {
        match self.token_type {
            TokenType::String => {
                let shown = Tokenizer::unescape_str_force_quote(self.string.as_str(), self.quote);
                chars_of(shown.as_str()).len()
            },
            _ => chars_of(self.string.as_str()).len(),
        }
    }

    /// The token's text as source, a string literal between quotes.
    pub fn get_full_string(&self) -> (s: String)
        ensures
            s@ == self@.full_string(),
            self.token_type != TokenType::String ==> s@ == self.string@,
    {
        match self.token_type {
            TokenType::String => Tokenizer::unescape_str(self.string.as_str(), '\''),
            _ => self.string.clone(),
        }
    }

    /// The token's text as it was written.
    pub fn get_original_string(&self) -> (s: String)
        ensures
            s@ == self@.original_string(),
    {
        match self.token_type {
            TokenType::String => {
                let shown = Tokenizer::unescape_str(self.string.as_str(), self.quote);
                if self.quote == '`' {
                    let all = chars_of(shown.as_str());
                    let mut out: Vec<char> = Vec::new();
                    out.push('`');
                    out.push('\n');
                    let inner = crate::text::slice(&all, 1, all.len() - 1);
                    crate::text::extend(&mut out, &inner);
                    out.push('\n');
                    out.push('`');
                    assert(out@ == seq!['`', '\n'] + all@.subrange(1, all@.len() - 1) + seq![
                        '\n',
                        '`',
                    ]);
                    string_of(&out)
                } else {
                    shown
                }
            },
            _ => self.string.clone(),
        }
    }
}

} // verus!
