//! The tokenizer: a state machine that reads source text character by
//! character and groups its tokens into statements.

use crate::header::{Header, MacroFactory, MacroFactoryView};
use crate::text::{chars_of, count_of, string_of};
use crate::token::{
    escaped, escaped_text, quoted, rendered, statement_views, token_views, Token, TokenType,
    TokenView,
};
use vstd::prelude::*;

verus! {

/// What the tokenizer is reading.
#[derive(Clone, Copy, Debug, PartialEq, Eq, Structural)]
pub enum StateType {
    Keyword,
    Operator,
    /// Inside a bracket span that is still open.
    Paren,
    ParenRound,
    ParenSquare,
    ParenCurly,
    String,
    Comment,
    Comma,
    /// Between tokens.
    Idle,
}

impl StateType {
    /// Whether this state is that of a finished token.
    pub open spec fn is_token(self) -> bool {
        self != StateType::Paren && self != StateType::Comment && self != StateType::Idle
    }

    /// The kind of token that this state finishes.
    pub open spec fn token_type(self) -> TokenType {
        match self {
            StateType::Keyword => TokenType::Keyword,
            StateType::Operator => TokenType::Operator,
            StateType::ParenRound => TokenType::ParenRound,
            StateType::ParenSquare => TokenType::ParenSquare,
            StateType::ParenCurly => TokenType::ParenCurly,
            StateType::String => TokenType::String,
            _ => TokenType::Comma,
        }
    }

    pub fn is_none(&self) -> (r: bool)
        ensures
            r == (*self == StateType::Idle),
    {
        *self == StateType::Idle
    }

    /// The kind of token that this state finishes.
    pub fn to_token_type(&self) -> (r: TokenType)
        requires
            self.is_token(),
        ensures
            r == self.token_type(),
    {
        match self {
            StateType::Keyword => TokenType::Keyword,
            StateType::Operator => TokenType::Operator,
            StateType::ParenRound => TokenType::ParenRound,
            StateType::ParenSquare => TokenType::ParenSquare,
            StateType::ParenCurly => TokenType::ParenCurly,
            StateType::String => TokenType::String,
            _ => TokenType::Comma,
        }
    }
}

/// A place in the source: line and column, both counted from 1.
#[derive(Clone, Copy, Debug, PartialEq, Eq, Structural)]
pub struct Pos {
    pub line: u32,
    pub col: u32,
}

/// A macro with arguments whose name was read and whose arguments are awaited.
#[derive(Debug)]
pub struct MacroFactoryInfo {
    pub name: String,
    pub macro_factory: MacroFactory,
    /// The number of arguments that a call takes.
    pub arg_count: usize,
    /// Where the name stands.
    pub pos: Pos,
}

/// An awaited macro call as a plain value.
pub struct MacroFactoryInfoView {
    pub name: Seq<char>,
    pub macro_factory: MacroFactoryView,
    pub arg_count: usize,
    pub pos: Pos,
}

impl View for MacroFactoryInfo {
    type V = MacroFactoryInfoView;

    open spec fn view(&self) -> MacroFactoryInfoView {
        MacroFactoryInfoView {
            name: self.name@,
            macro_factory: self.macro_factory@,
            arg_count: self.arg_count,
            pos: self.pos,
        }
    }
}

/// The tokenizer: the text it reads, where it stands in it, and what it has
/// gathered.
#[derive(Debug)]
pub struct Tokenizer {
    /// The statements that were finished, in the order of the source.
    pub programs: Vec<Vec<Token>>,
    /// The line of the character read last, counted from 1.
    pub line: u32,
    /// The column of the character read last, counted from 1; 0 before the
    /// first character of a line.
    pub col: u32,
    pub state: StateType,
    /// The text of the token that is being read.
    pub token_str: Vec<char>,
    /// Where the token that is being read began.
    pub token_pos: Pos,
    /// The tokens of the statement that is being read.
    pub keywords: Vec<Token>,
    /// The text to tokenize.
    pub raw_string: String,
    /// The text of the whole file, where `raw_string` is a part of it.
    pub file_string: Option<String>,
    /// The path of the file that the text is from.
    pub file_path_str: String,
    /// The directory that diagnostics show the path relative to.
    pub working_dir: String,
    /// The quote of the string literal that is being read.
    pub quote: Option<char>,
    /// The bracket that opened the span that is being read.
    pub left_paren: Option<char>,
    /// The bracket that closes it.
    pub right_paren: Option<char>,
    /// How many brackets of the opening kind are open inside the span.
    pub paren_count: u32,
    /// Whether the place is inside a string literal inside a bracket span.
    pub is_string: bool,
    /// Whether the place is inside a comment inside a bracket span.
    pub is_comment: bool,
    /// Whether a semicolon may follow an array prefix as the next character.
    pub allow_semicolon: bool,
    pub macro_factory_info: Option<MacroFactoryInfo>,
}

/// A tokenizer as a plain value.
pub struct TokenizerView {
    pub programs: Seq<Seq<TokenView>>,
    pub line: u32,
    pub col: u32,
    pub state: StateType,
    pub token_str: Seq<char>,
    pub token_pos: Pos,
    pub keywords: Seq<TokenView>,
    pub raw_string: Seq<char>,
    pub file_string: Option<Seq<char>>,
    pub file_path_str: Seq<char>,
    pub working_dir: Seq<char>,
    pub quote: Option<char>,
    pub left_paren: Option<char>,
    pub right_paren: Option<char>,
    pub paren_count: u32,
    pub is_string: bool,
    pub is_comment: bool,
    pub allow_semicolon: bool,
    pub macro_factory_info: Option<MacroFactoryInfoView>,
}

impl View for Tokenizer {
    type V = TokenizerView;

    open spec fn view(&self) -> TokenizerView {
        TokenizerView {
            programs: statement_views(self.programs@),
            line: self.line,
            col: self.col,
            state: self.state,
            token_str: self.token_str@,
            token_pos: self.token_pos,
            keywords: token_views(self.keywords@),
            raw_string: self.raw_string@,
            file_string: match self.file_string {
                Some(text) => Some(text@),
                None => None,
            },
            file_path_str: self.file_path_str@,
            working_dir: self.working_dir@,
            quote: self.quote,
            left_paren: self.left_paren,
            right_paren: self.right_paren,
            paren_count: self.paren_count,
            is_string: self.is_string,
            is_comment: self.is_comment,
            allow_semicolon: self.allow_semicolon,
            macro_factory_info: match self.macro_factory_info {
                Some(info) => Some(info@),
                None => None,
            },
        }
    }
}

impl TokenizerView {
    /// The text that diagnostics quote lines from: that of the whole file
    /// where it is known, else the text that is tokenized.
    pub open spec fn file_text(self) -> Seq<char> {
        match self.file_string {
            Some(text) => text,
            None => self.raw_string,
        }
    }

    /// The tokenizer before its first character: at line 1, before column 1,
    /// between tokens, with nothing gathered.
    pub open spec fn fresh(
        raw_string: Seq<char>,
        file_path_str: Seq<char>,
        file_string: Option<Seq<char>>,
        working_dir: Seq<char>,
        allow_semicolon: bool,
    ) -> TokenizerView {
        TokenizerView {
            programs: Seq::empty(),
            line: 1,
            col: 0,
            state: StateType::Idle,
            token_str: Seq::empty(),
            token_pos: Pos { line: 0, col: 0 },
            keywords: Seq::empty(),
            raw_string,
            file_string,
            file_path_str,
            working_dir,
            quote: None,
            left_paren: None,
            right_paren: None,
            paren_count: 0,
            is_string: false,
            is_comment: false,
            allow_semicolon,
            macro_factory_info: None,
        }
    }
}

impl TokenizerView {
    /// The tokenizer before the first character of a text that stands in its
    /// file behind the place (`line`, `col`).
    pub open spec fn fresh_at(
        raw_string: Seq<char>,
        file_path_str: Seq<char>,
        file_string: Option<Seq<char>>,
        working_dir: Seq<char>,
        allow_semicolon: bool,
        line: u32,
        col: u32,
    ) -> TokenizerView {
        TokenizerView {
            line,
            col,
            ..TokenizerView::fresh(
                raw_string,
                file_path_str,
                file_string,
                working_dir,
                allow_semicolon,
            )
        }
    }
}

impl Tokenizer {
    /// A tokenizer for `raw_string`, before its first character.
    ///
    /// * `header` - the state of the compilation, for its working directory
    /// * `raw_string` - the text to tokenize
    /// * `file_path_str` - the path of the file that the text is from
    /// * `file_string` - the text of the whole file, where `raw_string` is a part
    /// * `allow_semicolon` - whether a semicolon may follow an array prefix
    pub fn new(
        header: &Header,
        raw_string: String,
        file_path_str: String,
        file_string: Option<String>,
        allow_semicolon: bool,
    ) -> (tokenizer: Self)
        ensures
            tokenizer@ == TokenizerView::fresh(
                raw_string@,
                file_path_str@,
                crate::exception::text_view(file_string),
                header.inner.working_dir@,
                allow_semicolon,
            ),
    {
        let tokenizer = Tokenizer {
            programs: Vec::new(),
            line: 1,
            col: 0,
            state: StateType::Idle,
            token_str: Vec::new(),
            token_pos: Pos { line: 0, col: 0 },
            keywords: Vec::new(),
            raw_string,
            file_string,
            file_path_str,
            working_dir: header.inner.working_dir.clone(),
            quote: None,
            left_paren: None,
            right_paren: None,
            paren_count: 0,
            is_string: false,
            is_comment: false,
            allow_semicolon,
            macro_factory_info: None,
        };
        assert(tokenizer@.programs =~= Seq::empty());
        assert(tokenizer@.keywords =~= Seq::empty());
        tokenizer
    }

    /// The text that diagnostics quote lines from.
    pub fn get_file_string(&self) -> (text: &str)
        ensures
            text@ == self@.file_text(),
    {
        match &self.file_string {
            Some(file_string) => file_string.as_str(),
            None => self.raw_string.as_str(),
        }
    }

    /// The character that an escape stands for: `ch` is what follows the
    /// backslash.
    pub fn escape(ch: char) -> (r: Result<char, ()>)
        ensures
            r == escape_of(ch),
    {
        match ch {
            'n' => Ok('\n'),
            'r' => Ok('\r'),
            't' => Ok('\t'),
            '\\' => Ok('\\'),
            '0' => Ok('\0'),
            '\'' => Ok('\''),
            '"' => Ok('"'),
            _ => Err(()),
        }
    }

    /// The content `string` between the quotes that suit it, `prefered_quote`
    /// where single and double quotes occur equally often in it.
    pub fn unescape_str(string: &str, prefered_quote: char) -> (r: String)
        ensures
            r@ == rendered(string@, prefered_quote),
    {
        let chars = chars_of(string);
        let single_quote_count = count_of(&chars, '\'');
        let double_quote_count = count_of(&chars, '"');
        let choosen_quote = if single_quote_count > double_quote_count {
            '"'
        } else if single_quote_count < double_quote_count {
            '\''
        } else {
            prefered_quote
        };
        Self::unescape_str_force_quote(string, choosen_quote)
    }

    /// The content `string` between quotes of the kind `forced_quote`, or
    /// between double quotes where that is no quote of a one-line literal.
    pub fn unescape_str_force_quote(string: &str, forced_quote: char) -> (r: String)
        ensures
            r@ == quoted(string@, forced_quote),
    {
        let quote = if forced_quote == '\'' || forced_quote == '"' {
            forced_quote
        } else {
            '"'
        };
        let chars = chars_of(string);
        let mut out: Vec<char> = Vec::new();
        out.push(quote);
        let mut i: usize = 0;
        while i < chars.len()
            invariant
                i <= chars.len(),
                out@ == seq![quote] + escaped_text(chars@.take(i as int), quote),
            decreases chars.len() - i,
        {
            assert(chars@.take(i + 1).drop_last() == chars@.take(i as int));
            let ghost before = out@;
            match Self::unescape(chars[i], quote) {
                Some(pair) => {
                    out.push(pair.0);
                    out.push(pair.1);
                    assert(out@ == before + seq![pair.0, pair.1]);
                },
                None => {
                    out.push(chars[i]);
                    assert(out@ == before + seq![chars@[i as int]]);
                },
            }
            i += 1;
        }
        assert(chars@.take(chars.len() as int) == chars@);
        out.push(quote);
        string_of(&out)
    }

    /// The two characters that stand for `ch` between quotes of the kind
    /// `prefered_quote`, or nothing where `ch` stands for itself.
    pub fn unescape(ch: char, prefered_quote: char) -> (r: Option<(char, char)>)
        ensures
            match r {
                Some(pair) => escaped(ch, prefered_quote) == seq![pair.0, pair.1],
                None => escaped(ch, prefered_quote) == seq![ch],
            },
    {
        match ch {
            '\n' => Some(('\\', 'n')),
            '\r' => Some(('\\', 'r')),
            '\t' => Some(('\\', 't')),
            '\\' => Some(('\\', '\\')),
            '\0' => Some(('\\', '0')),
            '\'' => {
                if prefered_quote == '\'' {
                    Some(('\\', '\''))
                } else {
                    None
                }
            },
            '"' => {
                if prefered_quote == '"' {
                    Some(('\\', '"'))
                } else {
                    None
                }
            },
            _ => None,
        }
    }
}

/// The character that the escape `\ch` stands for, where there is one.
pub open spec fn escape_of(ch: char) -> Result<char, ()> {
    if ch == 'n' {
        Ok('\n')
    } else if ch == 'r' {
        Ok('\r')
    } else if ch == 't' {
        Ok('\t')
    } else if ch == '\\' {
        Ok('\\')
    } else if ch == '0' {
        Ok('\0')
    } else if ch == '\'' {
        Ok('\'')
    } else if ch == '"' {
        Ok('"')
    } else {
        Err(())
    }
}

/// The bracket that closes the bracket `left_paren`.
pub open spec fn paren_pair(left_paren: char) -> Result<char, ()> {
    if left_paren == '(' {
        Ok(')')
    } else if left_paren == '[' {
        Ok(']')
    } else if left_paren == '{' {
        Ok('}')
    } else {
        Err(())
    }
}

/// The bracket that closes the bracket `left_paren`.
pub fn get_paren_pair(left_paren: char) -> (r: Result<char, ()>)
    ensures
        r == paren_pair(left_paren),
{
    match left_paren {
        '(' => Ok(')'),
        '[' => Ok(']'),
        '{' => Ok('}'),
        _ => Err(()),
    }
}

} // verus!
