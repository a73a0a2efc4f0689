//! The statements of a run's result stand in the order in which they ended
//! in the source, and each of them holds a token.

use crate::header::MacroEntryView;
use crate::token::TokenView;
use crate::tokenizer::{StateType, TokenizerView};
use vstd::prelude::*;

verus! {

/// Whether the statements `before` are the first of the statements `after`,
/// in the same order.
pub open spec fn kept(before: Seq<Seq<TokenView>>, after: Seq<Seq<TokenView>>) -> bool {
    before.len() <= after.len() && after.take(before.len() as int) == before
}

/// Whether every statement of `programs` holds a token.
pub open spec fn all_hold_tokens(programs: Seq<Seq<TokenView>>) -> bool {
    forall|i: int| 0 <= i < programs.len() ==> (#[trigger] programs[i]).len() > 0
}

/// What a move may do to the statements: it leaves them as they are or adds
/// one behind them, and the one it adds holds a token.
pub open spec fn grows(s: TokenizerView, t: TokenizerView) -> bool {
    kept(s.programs, t.programs) && (all_hold_tokens(s.programs) ==> all_hold_tokens(t.programs))
}

proof fn lemma_kept_push(a: Seq<Seq<TokenView>>, x: Seq<TokenView>)
    ensures
        kept(a, a.push(x)),
        kept(a, a),
{
    assert(a.push(x).take(a.len() as int) =~= a);
    assert(a.take(a.len() as int) =~= a);
}

proof fn lemma_kept_transitive(
    a: Seq<Seq<TokenView>>,
    b: Seq<Seq<TokenView>>,
    c: Seq<Seq<TokenView>>,
)
    requires
        kept(a, b),
        kept(b, c),
    ensures
        kept(a, c),
{
    assert(c.take(a.len() as int) =~= c.take(b.len() as int).take(a.len() as int));
}

proof fn lemma_append_keywords(s: TokenizerView)
    ensures
        s.append_keywords() is Ok ==> grows(s, s.append_keywords()->Ok_0),
{
    lemma_kept_push(s.programs, s.keywords);
}

proof fn lemma_append_token(s: TokenizerView, macros: Seq<MacroEntryView>, bound: nat)
    ensures
        s.append_token(macros, bound) is Ok ==> s.append_token(macros, bound)->Ok_0.programs
            == s.programs,
{
}

/// A token that ends takes nothing from the statement that is being read
/// and leaves the statements that have ended as they are.
pub proof fn lemma_append_token_adds(s: TokenizerView, macros: Seq<MacroEntryView>, bound: nat)
    ensures
        s.append_token(macros, bound) is Ok ==> ({
            let t = s.append_token(macros, bound)->Ok_0;
            &&& t.programs == s.programs
            &&& s.keywords.len() <= t.keywords.len()
        }),
{
}

proof fn lemma_close_paren(
    s: TokenizerView,
    expect_semicolon: bool,
    macros: Seq<MacroEntryView>,
    bound: nat,
)
    ensures
        s.close_paren(expect_semicolon, macros, bound) is Ok ==> grows(
            s,
            s.close_paren(expect_semicolon, macros, bound)->Ok_0,
        ),
{
    let state = if s.left_paren == Some('{') {
        StateType::ParenCurly
    } else if s.left_paren == Some('[') {
        StateType::ParenSquare
    } else {
        StateType::ParenRound
    };
    let begun = TokenizerView { state, ..s };
    lemma_append_token(begun, macros, bound);
    lemma_kept_push(s.programs, Seq::empty());
    if begun.append_token(macros, bound) is Ok {
        lemma_append_keywords(begun.append_token(macros, bound)->Ok_0);
    }
}

/// One move leaves the statements as they are or adds one behind them.
pub proof fn lemma_step_grows(
    s: TokenizerView,
    ch: char,
    next: Option<char>,
    expect_semicolon: bool,
    macros: Seq<MacroEntryView>,
    bound: nat,
)
    ensures
        s.step(ch, next, expect_semicolon, macros, bound) is Ok ==> grows(
            s,
            s.step(ch, next, expect_semicolon, macros, bound)->Ok_0.0,
        ),
{
    let a = s.advance();
    lemma_kept_push(s.programs, Seq::empty());
    if ch == ';' && a.state == StateType::Idle && !expect_semicolon {
    } else if ch == '\n' {
        let c = TokenizerView { is_comment: false, ..a };
        lemma_append_token(c, macros, bound);
    } else if ch == '/' && next == Some('/') && a.state != StateType::Paren && a.state
        != StateType::String {
        lemma_append_token(a.advance(), macros, bound);
    } else {
        lemma_read_grows(a, ch, next, expect_semicolon, macros, bound);
    }
}

proof fn lemma_dispatch_grows(
    s: TokenizerView,
    ch: char,
    next: Option<char>,
    expect_semicolon: bool,
    macros: Seq<MacroEntryView>,
    bound: nat,
)
    ensures
        s.dispatch(ch, next, expect_semicolon, macros, bound) is Ok ==> grows(
            s,
            s.dispatch(ch, next, expect_semicolon, macros, bound)->Ok_0.0,
        ),
{
    lemma_kept_push(s.programs, Seq::empty());
    if s.state == StateType::Paren {
        let p = s.put(ch);
        lemma_close_paren(p, expect_semicolon, macros, bound);
    } else if s.state == StateType::String {
        if ch != '\\' && Some(ch) == s.quote {
            if ch == '`' {
                if s.validate_multiline_string() is Ok {
                    lemma_append_token(s.validate_multiline_string()->Ok_0, macros, bound);
                }
            } else {
                lemma_append_token(s, macros, bound);
            }
        }
    } else if s.state == StateType::Comment {
    } else {
        lemma_append_keywords(s);
        lemma_append_token(s.put(ch).begin(StateType::Comma), macros, bound);
    }
}

proof fn lemma_read_grows(
    s: TokenizerView,
    ch: char,
    next: Option<char>,
    expect_semicolon: bool,
    macros: Seq<MacroEntryView>,
    bound: nat,
)
    ensures
        s.read(ch, next, expect_semicolon, macros, bound) is Ok ==> grows(
            s,
            s.read(ch, next, expect_semicolon, macros, bound)->Ok_0.0,
        ),
{
    lemma_kept_push(s.programs, Seq::empty());
    if s.state == StateType::Keyword || s.state == StateType::Operator {
        lemma_append_token(s, macros, bound);
        let r = s.parse_keyword_and_operator(ch, expect_semicolon, macros, bound);
        if r is Ok {
            let t = r->Ok_0.0;
            assert(t.programs == s.programs) by {
                if s.append_token(macros, bound) is Ok {
                    let u = s.append_token(macros, bound)->Ok_0;
                    lemma_append_token(u.begin(StateType::Operator), macros, bound);
                    lemma_append_token(u.begin(StateType::Keyword), macros, bound);
                }
            }
            if !r->Ok_0.1 {
                lemma_dispatch_grows(t, ch, next, expect_semicolon, macros, bound);
            }
        }
    } else {
        lemma_dispatch_grows(s, ch, next, expect_semicolon, macros, bound);
    }
}

/// The statements that have ended at some point of a run are the first
/// statements of its result, in the same order: a statement that ends later
/// in the source stands later. Where every statement held a token, every
/// statement of the result holds one.
pub proof fn lemma_parse_chars_grows(
    s: TokenizerView,
    input: Seq<char>,
    i: int,
    expect_semicolon: bool,
    macros: Seq<MacroEntryView>,
)
    ensures
        s.parse_chars(input, i, expect_semicolon, macros) is Ok ==> grows(
            s,
            s.parse_chars(input, i, expect_semicolon, macros)->Ok_0,
        ),
    decreases input.len() - i,
{
    lemma_kept_push(s.programs, Seq::empty());
    if 0 <= i < input.len() {
        let next = if i + 1 < input.len() {
            Some(input[i + 1])
        } else {
            None
        };
        let r = s.step(input[i], next, expect_semicolon, macros, input.len());
        if r is Ok {
            lemma_step_grows(s, input[i], next, expect_semicolon, macros, input.len());
            let t = r->Ok_0.0;
            let j = if r->Ok_0.1 && i + 1 < input.len() {
                i + 2
            } else {
                i + 1
            };
            lemma_parse_chars_grows(t, input, j, expect_semicolon, macros);
            if t.parse_chars(input, j, expect_semicolon, macros) is Ok {
                lemma_kept_transitive(
                    s.programs,
                    t.programs,
                    t.parse_chars(input, j, expect_semicolon, macros)->Ok_0.programs,
                );
            }
        }
    }
}

/// The statements of a run's result stand in the order in which they ended
/// in the source: what had ended before the run are its first statements,
/// and every statement that the run adds holds a token.
pub proof fn lemma_statements_in_source_order(
    s: TokenizerView,
    input: Seq<char>,
    expect_semicolon: bool,
    allow_last_missing_semicolon: bool,
    macros: Seq<MacroEntryView>,
)
    ensures
        s.parse(input, expect_semicolon, allow_last_missing_semicolon, macros) is Ok ==> grows(
            s,
            s.parse(input, expect_semicolon, allow_last_missing_semicolon, macros)->Ok_0,
        ),
{
    lemma_parse_chars_grows(s, input, 0, expect_semicolon, macros);
    let r = s.parse_chars(input, 0, expect_semicolon, macros);
    if r is Ok {
        let t = r->Ok_0;
        lemma_append_token(t, macros, input.len());
        lemma_kept_push(t.programs, Seq::empty());
        if t.token_str.len() > 0 {
            if t.append_token(macros, input.len()) is Ok {
                lemma_append_keywords(t.append_token(macros, input.len())->Ok_0);
            }
        } else {
            lemma_append_keywords(t);
        }
        let f = t.finish(expect_semicolon, allow_last_missing_semicolon, macros, input.len());
        if f is Ok {
            lemma_kept_transitive(s.programs, t.programs, f->Ok_0.programs);
        }
    }
}

} // verus!
