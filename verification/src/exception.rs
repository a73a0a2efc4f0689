//! Errors, and the text that shows where in a source file one arose.

use crate::text::{
    after_last, after_last_of, chars_of, count, count_of, decimal, decimal_of, expand_tabs,
    expand_tabs_of, extend, extend_repeat, extend_str, has_prefix, lines, lines_of, repeat, slice,
    starts_with, string_of,
};
use crate::token::{Token, TokenView};
use crate::tokenizer::{Tokenizer, TokenizerView};
use vstd::prelude::*;

verus! {

/// `a - b` where that is positive, else 0.
pub open spec fn minus(a: int, b: int) -> nat {
    if a > b {
        (a - b) as nat
    } else {
        0
    }
}

/// Whether the path `path` lies under the directory `dir`: it begins with
/// `dir`, and ends there or goes on behind a `/`. Paths are compared as
/// texts, character by character: two `/` in a row are not taken for one.
pub open spec fn is_under(path: Seq<char>, dir: Seq<char>) -> bool {
    &&& dir.len() > 0
    &&& starts_with(path, dir)
    &&& (path.len() == dir.len() || dir.last() == '/' || path[dir.len() as int] == '/')
}

/// The path `path` as seen from the directory `dir`: what follows `dir` and
/// the `/` behind it where `path` lies under `dir`, else `path` itself.
pub open spec fn relative_to(path: Seq<char>, dir: Seq<char>) -> Seq<char> {
    if is_under(path, dir) {
        let rest = path.skip(dir.len() as int);
        if rest.len() > 0 && rest[0] == '/' {
            rest.skip(1)
        } else {
            rest
        }
    } else {
        path
    }
}

/// A colon and the number, where there is a number.
pub open spec fn position_suffix(n: Option<nat>) -> Seq<char> {
    match n {
        Some(v) => seq![':'] + decimal(v),
        None => Seq::empty(),
    }
}

/// The place that a diagnostic names: the path as seen from `dir`, then line
/// and column behind a colon each, as far as they are given.
pub open spec fn located(path: Seq<char>, dir: Seq<char>, line: Option<nat>, col: Option<nat>) -> Seq<
    char,
> {
    relative_to(path, dir) + position_suffix(line) + position_suffix(col)
}

/// A number as a natural number, where there is one.
pub open spec fn as_nat(n: Option<u32>) -> Option<nat> {
    match n {
        Some(v) => Some(v as nat),
        None => None,
    }
}

/// The token behind an optional reference, as a plain value.
pub open spec fn token_view(token: Option<&Token>) -> Option<TokenView> {
    match token {
        Some(t) => Some(t@),
        None => None,
    }
}

/// The text of an optional string.
pub open spec fn text_view(text: Option<String>) -> Option<Seq<char>> {
    match text {
        Some(t) => Some(t@),
        None => None,
    }
}

/// Where a diagnostic points.
pub struct Mark {
    /// The line that the message names.
    pub line: nat,
    /// The column that the message names and at which the underline begins.
    pub col: nat,
    /// The line that is shown between its neighbours.
    pub display_line: nat,
    /// The column at which the underline ends.
    pub display_col: nat,
}

/// Where a diagnostic points, for an anchor with the text `string` that takes
/// `length` columns from (`line`, `col`) on. With `include_col` the message
/// names the place behind the anchor; with `display_col_length` the underline
/// spans the anchor. An anchor of several lines moves both to its last line.
pub open spec fn mark(
    string: Seq<char>,
    length: nat,
    line: nat,
    col: nat,
    include_col: bool,
    display_col_length: bool,
) -> Mark {
    let newlines = count(string, '\n');
    let since = if after_last(string, '\n') == 0 {
        0nat
    } else {
        minus(length as int, after_last(string, '\n') - 1)
    };
    let shift: nat = if include_col {
        1
    } else {
        0
    };
    Mark {
        line: if include_col && newlines > 0 {
            line + newlines
        } else {
            line
        },
        col: if include_col {
            if newlines > 0 {
                since
            } else {
                col + length
            }
        } else {
            col
        },
        display_line: if display_col_length && newlines > 0 {
            line + newlines
        } else {
            line
        },
        display_col: if display_col_length {
            if newlines > 0 {
                since + 1
            } else {
                col + shift + length
            }
        } else {
            col + shift + 1
        },
    }
}

/// The line of the number `number`, counted from 1; empty where the text has
/// no such line.
pub open spec fn line_at(msgs: Seq<Seq<char>>, number: int) -> Seq<char> {
    if 1 <= number <= msgs.len() {
        msgs[number - 1]
    } else {
        Seq::empty()
    }
}

/// A line of source as a diagnostic shows it: its number, right-aligned to
/// `width` columns, a bar, the line with its tabs as four spaces each, and a
/// line feed.
pub open spec fn context_line(msgs: Seq<Seq<char>>, number: nat, width: nat) -> Seq<char> {
    repeat(' ', minus(width as int, decimal(number).len() as int)) + decimal(number) + " |"@
        + expand_tabs(line_at(msgs, number as int)) + "\n"@
}

/// The anchor of a diagnostic: the token's, or without a token the one
/// character at the tokenizer's own place.
pub open spec fn anchor_mark(
    token: Option<TokenView>,
    tokenizer: TokenizerView,
    is_length_include_col: bool,
    is_display_col_length: bool,
) -> Mark {
    match token {
        Some(t) => mark(
            t.original_string(),
            t.length(),
            t.line as nat,
            t.col as nat,
            is_length_include_col,
            is_display_col_length,
        ),
        None => mark(
            Seq::empty(),
            1,
            tokenizer.line as nat,
            tokenizer.col as nat,
            is_length_include_col,
            is_display_col_length,
        ),
    }
}

/// The first two lines of a diagnostic: the place, and the message with the
/// line and, unless the whole line is meant, the column.
pub open spec fn headline(
    message: Seq<char>,
    path: Seq<char>,
    dir: Seq<char>,
    m: Mark,
    is_entire_line: bool,
) -> Seq<char> {
    if is_entire_line {
        "In "@ + located(path, dir, Some(m.line), None) + "\n"@ + message + " at line "@ + decimal(
            m.line,
        ) + ".\n"@
    } else {
        "In "@ + located(path, dir, Some(m.line), Some(m.col)) + "\n"@ + message + " at line "@
            + decimal(m.line) + " col "@ + decimal(m.col) + ".\n"@
    }
}

/// The number of tabs that stand before the underline in the line `current`.
pub open spec fn tabs_before(current: Seq<char>, m: Mark, is_entire_line: bool) -> nat {
    if is_entire_line || m.col > current.len() + 1 {
        count(current, '\t')
    } else {
        count(current.take(minus(m.col as int, 1) as int), '\t')
    }
}

/// The number of carets of the underline: to the end of the line where the
/// whole line is meant, else from the column to the display column.
pub open spec fn carets(current: Seq<char>, m: Mark, is_entire_line: bool) -> nat {
    if is_entire_line {
        minus(current.len() as int + 1, m.col as int)
    } else {
        minus(m.display_col as int, m.col as int)
    }
}

/// The underline: spaces up to the column, three more for each tab before
/// it, then the carets.
pub open spec fn underline(current: Seq<char>, m: Mark, width: nat, is_entire_line: bool) -> Seq<
    char,
> {
    repeat(' ', m.col + width + 3 * tabs_before(current, m, is_entire_line) + 1) + repeat(
        '^',
        carets(current, m, is_entire_line),
    ) + "\n"@
}

/// The lines of source that a diagnostic shows: the line it points to
/// between its neighbours, with the underline below it.
pub open spec fn excerpt(msgs: Seq<Seq<char>>, m: Mark, is_entire_line: bool) -> Seq<char> {
    let width = decimal(m.display_line + 1).len();
    context_line(msgs, minus(m.display_line as int, 1), width) + context_line(
        msgs,
        m.display_line,
        width,
    ) + underline(line_at(msgs, m.display_line as int), m, width, is_entire_line) + context_line(
        msgs,
        m.display_line + 1,
        width,
    )
}

/// The text, or nothing.
pub open spec fn or_empty(text: Option<Seq<char>>) -> Seq<char> {
    match text {
        Some(s) => s,
        None => Seq::empty(),
    }
}

/// The text of a diagnostic: the place, the message with line and column, the
/// line it points to between its neighbours with an underline below it, and
/// the suggestion.
///
/// With `is_entire_line` the message names no column and the underline
/// runs from the column to the end of the line.
#[verifier::opaque]
pub open spec fn diagnostic(
    message: Seq<char>,
    token: Option<TokenView>,
    tokenizer: TokenizerView,
    is_length_include_col: bool,
    is_display_col_length: bool,
    is_entire_line: bool,
    suggestion: Option<Seq<char>>,
) -> Seq<char> {
    let m = anchor_mark(token, tokenizer, is_length_include_col, is_display_col_length);
    headline(message, tokenizer.file_path_str, tokenizer.working_dir, m, is_entire_line) + excerpt(
        lines(tokenizer.file_text()),
        m,
        is_entire_line,
    ) + or_empty(suggestion)
}

/// The kinds of failure. Each ends the compilation.
#[derive(Clone, Copy, Debug, PartialEq, Eq, Structural)]
pub enum JMCErrorType {
    EvaluationException,
    HeaderFileNotFoundError,
    HeaderDuplicatedMacro,
    HeaderSyntaxException,
    JMCSyntaxException,
    JMCSyntaxWarning,
    MinecraftSyntaxWarning,
    MinecraftVersionTooLow,
    JMCFileNotFound,
    JMCDecodeJSONError,
}

/// A failure: its kind and the text for the user.
#[derive(Debug)]
pub struct JMCError {
    pub error_type: JMCErrorType,
    pub msg: String,
}

/// A failure as a plain value.
pub struct JMCErrorView {
    pub error_type: JMCErrorType,
    pub msg: Seq<char>,
}

impl View for JMCError {
    type V = JMCErrorView;

    open spec fn view(&self) -> JMCErrorView {
        JMCErrorView { error_type: self.error_type, msg: self.msg@ }
    }
}

/// The failure of the kind `error_type` whose text is the diagnostic for the
/// given message and anchor.
pub open spec fn anchored(
    error_type: JMCErrorType,
    message: Seq<char>,
    token: Option<TokenView>,
    tokenizer: TokenizerView,
    is_length_include_col: bool,
    is_display_col_length: bool,
    is_entire_line: bool,
    suggestion: Option<Seq<char>>,
) -> JMCErrorView {
    JMCErrorView {
        error_type,
        msg: diagnostic(
            message,
            token,
            tokenizer,
            is_length_include_col,
            is_display_col_length,
            is_entire_line,
            suggestion,
        ),
    }
}

/// The text of the message that a datapack's format is too old for a feature
/// that needs `pack_format`.
pub open spec fn too_low_message(pack_format: u32) -> Seq<char> {
    "Datapack's pack_format is too outdated for this feature. Expected pack_format of "@
        + decimal(pack_format as nat) + " or higher"@
}

/// The text of a failure in a header file: place, message, line number, and
/// the line itself.
pub open spec fn header_message(
    message: Seq<char>,
    file_name: Seq<char>,
    working_dir: Seq<char>,
    line: u32,
    line_str: Seq<char>,
) -> Seq<char> {
    "In "@ + located(file_name, working_dir, Some(line as nat), None) + "\n"@ + message
        + " at line "@ + decimal(line as nat) + "\n"@ + line_str
}

/// The path `file_name` as seen from `working_dir`, as characters.
fn relative_chars(file_name: &Vec<char>, working_dir: &Vec<char>) -> (out: Vec<char>)
    ensures
        out@ == relative_to(file_name@, working_dir@),
{
    let n = working_dir.len();
    if n == 0 || !has_prefix(file_name, working_dir) {
        return slice(file_name, 0, file_name.len());
    }
    if file_name.len() == n {
        let out = slice(file_name, n, n);
        assert(out@ == file_name@.skip(n as int));
        return out;
    }
    if file_name[n] == '/' {
        let out = slice(file_name, n + 1, file_name.len());
        assert(out@ == file_name@.skip(n as int).skip(1));
        return out;
    }
    if working_dir[n - 1] == '/' {
        let out = slice(file_name, n, file_name.len());
        assert(out@ == file_name@.skip(n as int));
        return out;
    }
    slice(file_name, 0, file_name.len())
}

/// Appends a colon and the number, where there is a number.
fn extend_position(out: &mut Vec<char>, n: Option<u128>)
    ensures
        final(out)@ == old(out)@ + position_suffix(
            match n {
                Some(v) => Some(v as nat),
                None => None,
            },
        ),
{
    match n {
        Some(v) => {
            out.push(':');
            let digits = decimal_of(v);
            extend(out, &digits);
            assert(out@ == old(out)@ + (seq![':'] + decimal(v as nat)));
        },
        None => {
            assert(out@ == old(out)@ + Seq::<char>::empty());
        },
    }
}

/// The place that a diagnostic names, as characters.
fn located_chars(
    file_name: &Vec<char>,
    working_dir: &Vec<char>,
    line: Option<u128>,
    col: Option<u128>,
) -> (out: Vec<char>)
    ensures
        out@ == located(
            file_name@,
            working_dir@,
            match line {
                Some(v) => Some(v as nat),
                None => None,
            },
            match col {
                Some(v) => Some(v as nat),
                None => None,
            },
        ),
{
    let mut out = relative_chars(file_name, working_dir);
    extend_position(&mut out, line);
    extend_position(&mut out, col);
    out
}

/// The place that a diagnostic names: `file_name` as seen from `working_dir`,
/// then line and column behind a colon each, as far as they are given.
pub fn relative_file_name(
    file_name: &str,
    working_dir: &str,
    line: Option<u32>,
    col: Option<u32>,
) -> (r: String)
    ensures
        r@ == located(file_name@, working_dir@, as_nat(line), as_nat(col)),
{
    let file = chars_of(file_name);
    let dir = chars_of(working_dir);
    let line: Option<u128> = match line {
        Some(v) => Some(v as u128),
        None => None,
    };
    let col: Option<u128> = match col {
        Some(v) => Some(v as u128),
        None => None,
    };
    let out = located_chars(&file, &dir, line, col);
    string_of(&out)
}

/// The lines of a list as plain values.
pub open spec fn line_views(msgs: Seq<Vec<char>>) -> Seq<Seq<char>> {
    Seq::new(msgs.len(), |i: int| msgs[i]@)
}

/// A line of source as a diagnostic shows it.
fn context_line_of(msgs: &Vec<Vec<char>>, number: u128, width: usize) -> (out: Vec<char>)
    ensures
        out@ == context_line(line_views(msgs@), number as nat, width as nat),
{
    let digits = decimal_of(number);
    let pad: usize = if width > digits.len() {
        width - digits.len()
    } else {
        0
    };
    let mut out: Vec<char> = Vec::new();
    extend_repeat(&mut out, ' ', pad as u128);
    extend(&mut out, &digits);
    extend_str(&mut out, " |");
    if 1 <= number && number <= msgs.len() as u128 {
        let shown = expand_tabs_of(&msgs[(number - 1) as usize]);
        assert(line_views(msgs@)[number as int - 1] == msgs@[number as int - 1]@);
        extend(&mut out, &shown);
    } else {
        let shown: Vec<char> = Vec::new();
        extend(&mut out, &shown);
    }
    extend_str(&mut out, "\n");
    assert(out@ =~= context_line(line_views(msgs@), number as nat, width as nat));
    out
}

/// Where a diagnostic points, in machine numbers.
pub struct MarkValue {
    pub line: u128,
    pub col: u128,
    pub display_line: u128,
    pub display_col: u128,
}

impl View for MarkValue {
    type V = Mark;

    open spec fn view(&self) -> Mark {
        Mark {
            line: self.line as nat,
            col: self.col as nat,
            display_line: self.display_line as nat,
            display_col: self.display_col as nat,
        }
    }
}

/// Where a diagnostic points.
fn mark_of(
    token: Option<&Token>,
    tokenizer: &Tokenizer,
    is_length_include_col: bool,
    is_display_col_length: bool,
) -> (m: MarkValue)
    ensures
        m@ == anchor_mark(
            token_view(token),
            tokenizer@,
            is_length_include_col,
            is_display_col_length,
        ),
        m.line < 0x4_0000_0000_0000_0000,
        m.col < 0x4_0000_0000_0000_0000,
        m.display_line < 0x4_0000_0000_0000_0000,
        m.display_col < 0x4_0000_0000_0000_0000,
{
    let string: Vec<char>;
    let length: u128;
    let col0: u128;
    let line0: u128;
    match token {
        Some(token) => {
            let original = token.get_original_string();
            string = chars_of(original.as_str());
            length = token.length() as u128;
            col0 = token.col as u128;
            line0 = token.line as u128;
        },
        None => {
            string = Vec::new();
            length = 1;
            col0 = tokenizer.col as u128;
            line0 = tokenizer.line as u128;
        },
    }
    let newlines: u128 = count_of(&string, '\n') as u128;
    let last: u128 = after_last_of(&string, '\n') as u128;
    proof {
        crate::text::lemma_count_bounds(string@, '\n');
        crate::text::lemma_after_last_bounds(string@, '\n');
    }
    let since: u128 = if last == 0 {
        0
    } else if length > last - 1 {
        length - (last - 1)
    } else {
        0
    };
    let shift: u128 = if is_length_include_col {
        1
    } else {
        0
    };
    MarkValue {
        line: if is_length_include_col && newlines > 0 {
            line0 + newlines
        } else {
            line0
        },
        col: if is_length_include_col {
            if newlines > 0 {
                since
            } else {
                col0 + length
            }
        } else {
            col0
        },
        display_line: if is_display_col_length && newlines > 0 {
            line0 + newlines
        } else {
            line0
        },
        display_col: if is_display_col_length {
            if newlines > 0 {
                since + 1
            } else {
                col0 + shift + length
            }
        } else {
            col0 + shift + 1
        },
    }
}

/// The first two lines of a diagnostic.
fn headline_of(message: &str, tokenizer: &Tokenizer, m: &MarkValue, is_entire_line: bool) -> (out:
    Vec<char>)
    ensures
        out@ == headline(
            message@,
            tokenizer@.file_path_str,
            tokenizer@.working_dir,
            m@,
            is_entire_line,
        ),
{
    let file = chars_of(tokenizer.file_path_str.as_str());
    let dir = chars_of(tokenizer.working_dir.as_str());
    let place = located_chars(
        &file,
        &dir,
        Some(m.line),
        if is_entire_line {
            None
        } else {
            Some(m.col)
        },
    );
    let mut out = chars_of("In ");
    extend(&mut out, &place);
    extend_str(&mut out, "\n");
    extend_str(&mut out, message);
    extend_str(&mut out, " at line ");
    let line_digits = decimal_of(m.line);
    extend(&mut out, &line_digits);
    if !is_entire_line {
        extend_str(&mut out, " col ");
        let col_digits = decimal_of(m.col);
        extend(&mut out, &col_digits);
    }
    extend_str(&mut out, ".\n");
    out
}

/// The underline of a diagnostic.
fn underline_of(current: &Vec<char>, m: &MarkValue, width: usize, is_entire_line: bool) -> (out:
    Vec<char>)
    requires
        m.col < 0x4_0000_0000_0000_0000,
        m.display_col < 0x4_0000_0000_0000_0000,
    ensures
        out@ == underline(current@, m@, width as nat, is_entire_line),
{
    proof {
        crate::text::lemma_count_bounds(current@, '\t');
    }
    let tabs: u128 = if is_entire_line || m.col > current.len() as u128 + 1 {
        count_of(current, '\t') as u128
    } else {
        let upto: usize = if m.col >= 1 {
            (m.col - 1) as usize
        } else {
            0
        };
        let head = slice(current, 0, upto);
        proof {
            crate::text::lemma_count_bounds(head@, '\t');
            assert(head@ == current@.take(minus(m.col as int, 1) as int));
        }
        count_of(&head, '\t') as u128
    };
    let carets: u128 = if is_entire_line {
        if current.len() as u128 + 1 > m.col {
            current.len() as u128 + 1 - m.col
        } else {
            0
        }
    } else if m.display_col > m.col {
        m.display_col - m.col
    } else {
        0
    };
    let mut out: Vec<char> = Vec::new();
    extend_repeat(&mut out, ' ', m.col + width as u128 + 3 * tabs + 1);
    extend_repeat(&mut out, '^', carets);
    extend_str(&mut out, "\n");
    assert(out@ =~= underline(current@, m@, width as nat, is_entire_line));
    out
}

/// The lines of source that a diagnostic shows.
fn excerpt_of(tokenizer: &Tokenizer, m: &MarkValue, is_entire_line: bool) -> (out: Vec<char>)
    requires
        m.line < 0x4_0000_0000_0000_0000,
        m.col < 0x4_0000_0000_0000_0000,
        m.display_line < 0x4_0000_0000_0000_0000,
        m.display_col < 0x4_0000_0000_0000_0000,
    ensures
        out@ == excerpt(lines(tokenizer@.file_text()), m@, is_entire_line),
{
    let text = chars_of(tokenizer.get_file_string());
    let msgs = lines_of(&text);
    assert(line_views(msgs@) =~= lines(tokenizer@.file_text()));
    let width: usize = decimal_of(m.display_line + 1).len();
    let previous: u128 = if m.display_line >= 1 {
        m.display_line - 1
    } else {
        0
    };
    let mut out = context_line_of(&msgs, previous, width);
    let shown = context_line_of(&msgs, m.display_line, width);
    extend(&mut out, &shown);
    let empty: Vec<char> = Vec::new();
    let current: &Vec<char> = if 1 <= m.display_line && m.display_line <= msgs.len() as u128 {
        &msgs[(m.display_line - 1) as usize]
    } else {
        &empty
    };
    assert(current@ == line_at(line_views(msgs@), m.display_line as int));
    let under = underline_of(current, m, width, is_entire_line);
    extend(&mut out, &under);
    let next = context_line_of(&msgs, m.display_line + 1, width);
    extend(&mut out, &next);
    out
}

/// The text of a diagnostic.
pub fn create_error_msg(
    message: &str,
    token: Option<&Token>,
    tokenizer: &Tokenizer,
    is_length_include_col: bool,
    is_display_col_length: bool,
    is_entire_line: bool,
    suggestion: Option<String>,
) -> (msg: String)
    ensures
        msg@ == diagnostic(
            message@,
            token_view(token),
            tokenizer@,
            is_length_include_col,
            is_display_col_length,
            is_entire_line,
            text_view(suggestion),
        ),
{
    reveal(diagnostic);
    let m = mark_of(token, tokenizer, is_length_include_col, is_display_col_length);
    let mut out = headline_of(message, tokenizer, &m, is_entire_line);
    let shown = excerpt_of(tokenizer, &m, is_entire_line);
    extend(&mut out, &shown);
    let hint: Vec<char> = match suggestion {
        Some(s) => chars_of(s.as_str()),
        None => Vec::new(),
    };
    extend(&mut out, &hint);
    string_of(&out)
}

impl JMCError {
    /// An expression could not be evaluated.
    pub fn evaluation_exception(string: String) -> (e: Self)
        ensures
            e@ == (JMCErrorView {
                error_type: JMCErrorType::EvaluationException,
                msg: "Unable to evaluate expression '"@ + string@ + "'"@,
            }),
    {
        let mut out = chars_of("Unable to evaluate expression '");
        extend_str(&mut out, string.as_str());
        extend_str(&mut out, "'");
        JMCError { error_type: JMCErrorType::EvaluationException, msg: string_of(&out) }
    }

    /// A source file or a directory is missing; `msg` says which.
    pub fn jmc_file_not_found(msg: String) -> (e: Self)
        ensures
            e@ == (JMCErrorView { error_type: JMCErrorType::JMCFileNotFound, msg: msg@ }),
    {
        JMCError { error_type: JMCErrorType::JMCFileNotFound, msg }
    }

    /// The header file at `path` is missing.
    pub fn header_file_not_found_error(path: &str) -> (e: Self)
        ensures
            e@ == (JMCErrorView {
                error_type: JMCErrorType::HeaderFileNotFoundError,
                msg: "Header file not found: "@ + path@,
            }),
    {
        let mut out = chars_of("Header file not found: ");
        extend_str(&mut out, path);
        JMCError { error_type: JMCErrorType::HeaderFileNotFoundError, msg: string_of(&out) }
    }

    /// A header file defines a macro twice.
    pub fn header_duplicated_macro(
        message: String,
        file_name: String,
        working_dir: &str,
        line: u32,
        line_str: String,
    ) -> (e: Self)
        ensures
            e@ == (JMCErrorView {
                error_type: JMCErrorType::HeaderDuplicatedMacro,
                msg: header_message(message@, file_name@, working_dir@, line, line_str@),
            }),
    {
        let out = Self::header_text(&message, &file_name, working_dir, line, &line_str);
        JMCError { error_type: JMCErrorType::HeaderDuplicatedMacro, msg: string_of(&out) }
    }

    /// A header file does not follow the header syntax.
    pub fn header_syntax_exception(
        message: String,
        file_name: String,
        working_dir: &str,
        line: u32,
        line_str: String,
        suggestion: Option<String>,
    ) -> (e: Self)
        ensures
            e@ == (JMCErrorView {
                error_type: JMCErrorType::HeaderSyntaxException,
                msg: header_message(message@, file_name@, working_dir@, line, line_str@)
                    + or_empty(text_view(suggestion)),
            }),
    {
        let mut out = Self::header_text(&message, &file_name, working_dir, line, &line_str);
        let hint: Vec<char> = match suggestion {
            Some(s) => chars_of(s.as_str()),
            None => Vec::new(),
        };
        extend(&mut out, &hint);
        JMCError { error_type: JMCErrorType::HeaderSyntaxException, msg: string_of(&out) }
    }

    fn header_text(
        message: &String,
        file_name: &String,
        working_dir: &str,
        line: u32,
        line_str: &String,
    ) -> (out: Vec<char>)
        ensures
            out@ == header_message(message@, file_name@, working_dir@, line, line_str@),
    {
        let file = chars_of(file_name.as_str());
        let dir = chars_of(working_dir);
        let place = located_chars(&file, &dir, Some(line as u128), None);
        let mut out = chars_of("In ");
        extend(&mut out, &place);
        extend_str(&mut out, "\n");
        extend_str(&mut out, message.as_str());
        extend_str(&mut out, " at line ");
        let digits = decimal_of(line as u128);
        extend(&mut out, &digits);
        extend_str(&mut out, "\n");
        extend_str(&mut out, line_str.as_str());
        out
    }

    /// The source does not follow the syntax.
    ///
    /// * `is_length_include_col` - name the place behind the token
    /// * `is_display_col_length` - underline the whole token
    /// * `is_entire_line` - underline the line from the column on
    pub fn jmc_syntax_exception(
        message: String,
        token: Option<&Token>,
        tokenizer: &Tokenizer,
        is_length_include_col: bool,
        is_display_col_length: bool,
        is_entire_line: bool,
        suggestion: Option<String>,
    ) -> (e: Self)
        ensures
            e@ == anchored(
                JMCErrorType::JMCSyntaxException,
                message@,
                token_view(token),
                tokenizer@,
                is_length_include_col,
                is_display_col_length,
                is_entire_line,
                text_view(suggestion),
            ),
    {
        let msg = create_error_msg(
            message.as_str(),
            token,
            tokenizer,
            is_length_include_col,
            is_display_col_length,
            is_entire_line,
            suggestion,
        );
        JMCError { error_type: JMCErrorType::JMCSyntaxException, msg }
    }

    /// The source follows the syntax but is refused all the same.
    pub fn jmc_syntax_warning(
        message: String,
        token: Option<&Token>,
        tokenizer: &Tokenizer,
        is_length_include_col: bool,
        is_display_col_length: bool,
        is_entire_line: bool,
        suggestion: Option<String>,
    ) -> (e: Self)
        ensures
            e@ == anchored(
                JMCErrorType::JMCSyntaxWarning,
                message@,
                token_view(token),
                tokenizer@,
                is_length_include_col,
                is_display_col_length,
                is_entire_line,
                text_view(suggestion),
            ),
    {
        let msg = create_error_msg(
            message.as_str(),
            token,
            tokenizer,
            is_length_include_col,
            is_display_col_length,
            is_entire_line,
            suggestion,
        );
        JMCError { error_type: JMCErrorType::JMCSyntaxWarning, msg }
    }

    /// What the source asks for is refused by the game's own syntax.
    pub fn minecraft_syntax_warning(
        message: String,
        token: Option<&Token>,
        tokenizer: &Tokenizer,
        is_length_include_col: bool,
        is_display_col_length: bool,
        is_entire_line: bool,
        suggestion: Option<String>,
    ) -> (e: Self)
        ensures
            e@ == anchored(
                JMCErrorType::MinecraftSyntaxWarning,
                message@,
                token_view(token),
                tokenizer@,
                is_length_include_col,
                is_display_col_length,
                is_entire_line,
                text_view(suggestion),
            ),
    {
        let msg = create_error_msg(
            message.as_str(),
            token,
            tokenizer,
            is_length_include_col,
            is_display_col_length,
            is_entire_line,
            suggestion,
        );
        JMCError { error_type: JMCErrorType::MinecraftSyntaxWarning, msg }
    }

    /// The datapack's format is too old for a feature that needs `pack_format`.
    pub fn minecraft_version_too_low(
        pack_format: u32,
        token: Option<&Token>,
        tokenizer: &Tokenizer,
        suggestion: Option<String>,
    ) -> (e: Self)
        ensures
            e@ == anchored(
                JMCErrorType::MinecraftVersionTooLow,
                too_low_message(pack_format),
                token_view(token),
                tokenizer@,
                false,
                true,
                false,
                text_view(suggestion),
            ),
    {
        let mut out = chars_of(
            "Datapack's pack_format is too outdated for this feature. Expected pack_format of ",
        );
        let digits = decimal_of(pack_format as u128);
        extend(&mut out, &digits);
        extend_str(&mut out, " or higher");
        let message = string_of(&out);
        let msg = create_error_msg(message.as_str(), token, tokenizer, false, true, false, suggestion);
        JMCError { error_type: JMCErrorType::MinecraftVersionTooLow, msg }
    }

    /// The text between the curly brackets of a resource is no JSON;
    /// `message` says why.
    pub fn decode_json_error_at(message: String, token: &Token, tokenizer: &Tokenizer) -> (e: Self)
        ensures
            e@ == anchored(
                JMCErrorType::JMCDecodeJSONError,
                message@,
                Some(token@),
                tokenizer@,
                false,
                true,
                false,
                None,
            ),
    {
        let msg = create_error_msg(message.as_str(), Some(token), tokenizer, false, true, false, None);
        JMCError { error_type: JMCErrorType::JMCDecodeJSONError, msg }
    }

    /// The text between the curly brackets of a resource is no JSON; what the
    /// parser's failure `error` says is the message.
    pub fn jmc_decode_json_error(
        error: serde_json::Error,
        token: &Token,
        tokenizer: &Tokenizer,
    ) -> (e: Self)
        ensures
            exists|message: Seq<char>|
                e@ == anchored(
                    JMCErrorType::JMCDecodeJSONError,
                    message,
                    Some(token@),
                    tokenizer@,
                    false,
                    true,
                    false,
                    None,
                ),
    {
        let message = crate::foreign::json_error_text(&error);
        Self::decode_json_error_at(message, token, tokenizer)
    }
}

} // verus!
