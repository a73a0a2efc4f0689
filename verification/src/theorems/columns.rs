//! The length of a token is the number of columns that it takes in the
//! source.

use crate::header::MacroEntryView;
use crate::tokenizer::{StateType, TokenizerView};
use vstd::prelude::*;

verus! {

/// Whether the tokenizer is reading a token that lies on one line so far:
/// a keyword, an operator, or a bracket span that began on the line of the
/// character read last.
pub open spec fn reads_on_one_line(s: TokenizerView) -> bool {
    (s.state == StateType::Keyword || s.state == StateType::Operator || s.state
        == StateType::Paren) && s.token_pos.line == s.line
}

/// Whether the token that is being read takes as many columns as it has
/// characters: where it lies on one line, it reaches from the column at
/// which it began to the column of the character read last. Between tokens
/// and in a comment no token is being read.
pub open spec fn spans_its_columns(s: TokenizerView) -> bool {
    &&& reads_on_one_line(s) ==> s.token_pos.col + s.token_str.len() == s.col + 1
    &&& (s.state == StateType::Idle || s.state == StateType::Comment) ==> s.token_str.len() == 0
}

/// The states in which a run finds the tokenizer between two moves: no
/// token has just ended, a keyword and an operator lie on the line of the
/// character read last, and no bracket span began behind it.
pub open spec fn rests(s: TokenizerView) -> bool {
    &&& (s.state == StateType::Keyword || s.state == StateType::Operator) ==> s.token_pos.line
        == s.line
    &&& s.state == StateType::Paren ==> s.token_pos.line <= s.line
    &&& (s.state == StateType::Idle || s.state == StateType::Comment || s.state
        == StateType::Paren || s.state == StateType::String || s.state == StateType::Keyword
        || s.state == StateType::Operator)
}

pub proof fn lemma_append_token_rests(s: TokenizerView, macros: Seq<MacroEntryView>, bound: nat)
    ensures
        s.append_token(macros, bound) is Ok ==> ({
            let t = s.append_token(macros, bound)->Ok_0;
            &&& t.state == StateType::Idle
            &&& t.token_str.len() == 0
            &&& t.line == s.line
            &&& t.col == s.col
        }),
{
}

proof fn lemma_dispatch_spans(
    s: TokenizerView,
    ch: char,
    next: Option<char>,
    expect_semicolon: bool,
    macros: Seq<MacroEntryView>,
    bound: nat,
)
    requires
        ch != '\n',
        s.col < u32::MAX - 1,
        s.state != StateType::Keyword,
        s.state != StateType::Operator,
        s.state == StateType::Paren && s.token_pos.line == s.line ==> s.token_pos.col
            + s.token_str.len() == s.col,
        (s.state == StateType::Idle || s.state == StateType::Comment) ==> s.token_str.len() == 0,
        s.state == StateType::Idle || s.state == StateType::Comment || s.state
            == StateType::Paren || s.state == StateType::String,
    ensures
        s.dispatch(ch, next, expect_semicolon, macros, bound) is Ok ==> ({
            let r = s.dispatch(ch, next, expect_semicolon, macros, bound)->Ok_0;
            &&& spans_its_columns(r.0)
            &&& r.0.line == s.line
            &&& r.0.col == (if r.1 {
                s.col + 1
            } else {
                s.col as int
            })
        }),
{
    if s.state == StateType::Paren {
        let p = s.put(ch);
        if !p.is_string && !p.is_comment && Some(ch) == p.right_paren && Some(ch) != p.left_paren
            && p.paren_count == 0 {
            let state = if p.left_paren == Some('{') {
                StateType::ParenCurly
            } else if p.left_paren == Some('[') {
                StateType::ParenSquare
            } else {
                StateType::ParenRound
            };
            lemma_append_token_rests(TokenizerView { state, ..p }, macros, bound);
        }
    } else if s.state == StateType::String {
        if ch != '\\' && Some(ch) == s.quote {
            if ch == '`' {
                if s.validate_multiline_string() is Ok {
                    lemma_append_token_rests(s.validate_multiline_string()->Ok_0, macros, bound);
                }
            } else {
                lemma_append_token_rests(s, macros, bound);
            }
        }
    } else if s.state == StateType::Comment {
    } else {
        lemma_append_token_rests(s.put(ch).begin(StateType::Comma), macros, bound);
    }
}

proof fn lemma_read_spans(
    s: TokenizerView,
    ch: char,
    next: Option<char>,
    expect_semicolon: bool,
    macros: Seq<MacroEntryView>,
    bound: nat,
)
    requires
        ch != '\n',
        s.col < u32::MAX - 1,
        reads_on_one_line(s) ==> s.token_pos.col + s.token_str.len() == s.col,
        (s.state == StateType::Keyword || s.state == StateType::Operator) ==> s.token_pos.line
            == s.line,
        (s.state == StateType::Idle || s.state == StateType::Comment) ==> s.token_str.len() == 0,
        s.state == StateType::Idle || s.state == StateType::Comment || s.state
            == StateType::Paren || s.state == StateType::String || s.state == StateType::Keyword
            || s.state == StateType::Operator,
    ensures
        s.read(ch, next, expect_semicolon, macros, bound) is Ok ==> ({
            let r = s.read(ch, next, expect_semicolon, macros, bound)->Ok_0;
            &&& spans_its_columns(r.0)
            &&& r.0.line == s.line
            &&& r.0.col == (if r.1 {
                s.col + 1
            } else {
                s.col as int
            })
        }),
{
    if s.state == StateType::Keyword || s.state == StateType::Operator {
        lemma_append_token_rests(s, macros, bound);
        let r = s.parse_keyword_and_operator(ch, expect_semicolon, macros, bound);
        if s.append_token(macros, bound) is Ok {
            let u = s.append_token(macros, bound)->Ok_0;
            lemma_append_token_rests(u.begin(StateType::Operator), macros, bound);
            lemma_append_token_rests(u.begin(StateType::Keyword), macros, bound);
        }
        if r is Ok && !r->Ok_0.1 {
            lemma_dispatch_spans(r->Ok_0.0, ch, next, expect_semicolon, macros, bound);
        }
    } else {
        lemma_dispatch_spans(s, ch, next, expect_semicolon, macros, bound);
    }
}

/// Every move keeps it so that the token that is being read takes as many
/// columns as it has characters, as long as no counter has reached the
/// largest number. A move goes on by as many columns as it takes
/// characters, or to the next line.
pub proof fn lemma_step_spans(
    s: TokenizerView,
    ch: char,
    next: Option<char>,
    expect_semicolon: bool,
    macros: Seq<MacroEntryView>,
    bound: nat,
)
    requires
        spans_its_columns(s),
        rests(s),
        s.col < u32::MAX - 2,
        s.line < u32::MAX,
    ensures
        s.step(ch, next, expect_semicolon, macros, bound) is Ok ==> ({
            let r = s.step(ch, next, expect_semicolon, macros, bound)->Ok_0;
            let t = r.0;
            &&& spans_its_columns(t)
            &&& rests(t)
            &&& (t.line == s.line && t.col == s.col + (if r.1 {
                2int
            } else {
                1int
            })) || (t.line == s.line + 1 && t.col == 0)
        }),
{
    let a = s.advance();
    if ch == ';' && a.state == StateType::Idle && !expect_semicolon {
    } else if ch == '\n' {
        let c = TokenizerView { is_comment: false, ..a };
        lemma_append_token_rests(c, macros, bound);
    } else if ch == '/' && next == Some('/') && a.state != StateType::Paren && a.state
        != StateType::String {
        lemma_append_token_rests(a.advance(), macros, bound);
    } else {
        lemma_read_spans(a, ch, next, expect_semicolon, macros, bound);
        lemma_read_states(a, ch, next, expect_semicolon, macros, bound);
    }
}

pub proof fn lemma_read_states(
    s: TokenizerView,
    ch: char,
    next: Option<char>,
    expect_semicolon: bool,
    macros: Seq<MacroEntryView>,
    bound: nat,
)
    requires
        ch != '\n',
        rests(s),
    ensures
        s.read(ch, next, expect_semicolon, macros, bound) is Ok ==> rests(
            s.read(ch, next, expect_semicolon, macros, bound)->Ok_0.0,
        ),
{
    if s.state == StateType::Keyword || s.state == StateType::Operator {
        lemma_append_token_rests(s, macros, bound);
        let r = s.parse_keyword_and_operator(ch, expect_semicolon, macros, bound);
        if s.append_token(macros, bound) is Ok {
            let u = s.append_token(macros, bound)->Ok_0;
            lemma_append_token_rests(u.begin(StateType::Operator), macros, bound);
            lemma_append_token_rests(u.begin(StateType::Keyword), macros, bound);
        }
        if r is Ok && !r->Ok_0.1 {
            lemma_dispatch_states(r->Ok_0.0, ch, next, expect_semicolon, macros, bound);
        }
    } else {
        lemma_dispatch_states(s, ch, next, expect_semicolon, macros, bound);
    }
}

proof fn lemma_dispatch_states(
    s: TokenizerView,
    ch: char,
    next: Option<char>,
    expect_semicolon: bool,
    macros: Seq<MacroEntryView>,
    bound: nat,
)
    requires
        rests(s),
        s.state != StateType::Keyword,
        s.state != StateType::Operator,
    ensures
        s.dispatch(ch, next, expect_semicolon, macros, bound) is Ok ==> rests(
            s.dispatch(ch, next, expect_semicolon, macros, bound)->Ok_0.0,
        ),
{
    if s.state == StateType::Paren {
        let p = s.put(ch);
        if !p.is_string && !p.is_comment && Some(ch) == p.right_paren && Some(ch) != p.left_paren
            && p.paren_count == 0 {
            let state = if p.left_paren == Some('{') {
                StateType::ParenCurly
            } else if p.left_paren == Some('[') {
                StateType::ParenSquare
            } else {
                StateType::ParenRound
            };
            lemma_append_token_rests(TokenizerView { state, ..p }, macros, bound);
        }
    } else if s.state == StateType::String {
        if ch != '\\' && Some(ch) == s.quote {
            if ch == '`' {
                if s.validate_multiline_string() is Ok {
                    lemma_append_token_rests(s.validate_multiline_string()->Ok_0, macros, bound);
                }
            } else {
                lemma_append_token_rests(s, macros, bound);
            }
        }
    } else if s.state == StateType::Comment {
    } else {
        lemma_append_token_rests(s.put(ch).begin(StateType::Comma), macros, bound);
    }
}

/// Throughout a run over a text that is short enough for the counters, a
/// token that is being read on one line takes as many columns as it has
/// characters: the length of a keyword, of an operator and of a bracket
/// token is the number of columns that it takes in the source.
pub proof fn lemma_token_length_is_columns(
    s: TokenizerView,
    input: Seq<char>,
    i: int,
    expect_semicolon: bool,
    macros: Seq<MacroEntryView>,
)
    requires
        0 <= i <= input.len(),
        spans_its_columns(s),
        rests(s),
        s.col + (input.len() - i) < u32::MAX - 2,
        s.line + (input.len() - i) < u32::MAX,
    ensures
        s.parse_chars(input, i, expect_semicolon, macros) is Ok ==> ({
            let t = s.parse_chars(input, i, expect_semicolon, macros)->Ok_0;
            &&& spans_its_columns(t)
            &&& rests(t)
            &&& reads_on_one_line(t) ==> t.token_pos.col + t.current_token().length() == t.col + 1
        }),
    decreases input.len() - i,
{
    if i < input.len() {
        let next = if i + 1 < input.len() {
            Some(input[i + 1])
        } else {
            None
        };
        let r = s.step(input[i], next, expect_semicolon, macros, input.len());
        if r is Ok {
            lemma_step_spans(s, input[i], next, expect_semicolon, macros, input.len());
            let t = r->Ok_0.0;
            let j = if r->Ok_0.1 && i + 1 < input.len() {
                i + 2
            } else {
                i + 1
            };
            lemma_both_has_next(s, input[i], next, expect_semicolon, macros, input.len());
            lemma_token_length_is_columns(t, input, j, expect_semicolon, macros);
        }
    }
}

/// A move takes a second character only where there is one.
pub proof fn lemma_both_has_next(
    s: TokenizerView,
    ch: char,
    next: Option<char>,
    expect_semicolon: bool,
    macros: Seq<MacroEntryView>,
    bound: nat,
)
    ensures
        s.step(ch, next, expect_semicolon, macros, bound) is Ok && s.step(
            ch,
            next,
            expect_semicolon,
            macros,
            bound,
        )->Ok_0.1 ==> next is Some,
{
    let a = s.advance();
    if a.state == StateType::Keyword || a.state == StateType::Operator {
        let r = a.parse_keyword_and_operator(ch, expect_semicolon, macros, bound);
        if r is Ok && !r->Ok_0.1 {
            let t = r->Ok_0.0;
            assert(t.dispatch(ch, next, expect_semicolon, macros, bound) is Ok && t.dispatch(
                ch,
                next,
                expect_semicolon,
                macros,
                bound,
            )->Ok_0.1 ==> next is Some);
        }
    }
}

} // verus!
