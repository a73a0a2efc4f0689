//! Without macros, every curly-bracket token of a run's result holds its two
//! brackets.

use crate::grammar::is_left_paren;
use crate::header::{macro_named, MacroEntryView};
use crate::theorems::columns::{
    lemma_append_token_rests, lemma_both_has_next, lemma_read_states, rests,
};
use crate::theorems::order::{flat, lemma_flat_push, made};
use crate::token::TokenView;
use crate::tokenizer::{paren_pair, StateType, TokenizerView};
use vstd::prelude::*;

verus! {

/// Whether every token of `tokens` is well formed: a curly-bracket token
/// holds its two brackets.
pub open spec fn all_well_formed(tokens: Seq<TokenView>) -> bool {
    forall|i: int| 0 <= i < tokens.len() ==> (#[trigger] tokens[i]).wf()
}

/// Whether the tokenizer, with no macro call awaited, has made well-formed
/// tokens only, and a bracket span that it is reading began with the
/// bracket that it is to end with.
pub open spec fn brackets_fit(s: TokenizerView) -> bool {
    &&& s.macro_factory_info is None
    &&& all_well_formed(made(s))
    &&& s.state == StateType::Paren ==> {
        &&& s.token_str.len() >= 1
        &&& is_left_paren(s.token_str[0])
        &&& s.left_paren == Some(s.token_str[0])
        &&& paren_pair(s.token_str[0]) is Ok
        &&& s.right_paren == Some(paren_pair(s.token_str[0])->Ok_0)
    }
}

proof fn lemma_no_macro(name: Seq<char>)
    ensures
        macro_named(Seq::<MacroEntryView>::empty(), name) is None,
{
}

proof fn lemma_fit_append_token(s: TokenizerView, bound: nat)
    requires
        brackets_fit(TokenizerView { state: StateType::Idle, ..s }),
        s.current_token().wf(),
    ensures
        s.append_token(Seq::empty(), bound) is Ok,
        brackets_fit(s.append_token(Seq::empty(), bound)->Ok_0),
        made(s.append_token(Seq::empty(), bound)->Ok_0) == made(s).push(s.current_token()),
{
    let token = s.current_token();
    lemma_no_macro(token.string);
    let t = s.append_token(Seq::empty(), bound)->Ok_0;
    assert(t.keywords =~= s.keywords.push(token));
    assert(made(t) =~= made(s).push(token));
    assert(made(TokenizerView { state: StateType::Idle, ..s }) == made(s));
    assert forall|i: int| 0 <= i < made(t).len() implies (#[trigger] made(t)[i]).wf() by {
        if i < made(s).len() {
            assert(made(t)[i] == made(s)[i]);
        }
    }
}

proof fn lemma_fit_append_keywords(s: TokenizerView)
    requires
        brackets_fit(s),
        s.state != StateType::Paren,
    ensures
        s.append_keywords() is Ok ==> brackets_fit(s.append_keywords()->Ok_0),
{
    lemma_order_made_kept(s);
}

proof fn lemma_order_made_kept(s: TokenizerView)
    ensures
        s.append_keywords() is Ok ==> made(s.append_keywords()->Ok_0) == made(s),
{
    lemma_flat_push(s.programs, s.keywords);
    assert(flat(s.programs) + s.keywords + Seq::<TokenView>::empty() =~= made(s));
}

proof fn lemma_dispatch_fits(
    s: TokenizerView,
    ch: char,
    next: Option<char>,
    expect_semicolon: bool,
    bound: nat,
)
    requires
        brackets_fit(s),
        s.state == StateType::Idle || s.state == StateType::Comment || s.state
            == StateType::Paren || s.state == StateType::String,
        (s.state == StateType::Idle || s.state == StateType::Comment) ==> s.token_str.len() == 0,
    ensures
        s.dispatch(ch, next, expect_semicolon, Seq::empty(), bound) is Ok ==> brackets_fit(
            s.dispatch(ch, next, expect_semicolon, Seq::empty(), bound)->Ok_0.0,
        ),
{
    let macros = Seq::<MacroEntryView>::empty();
    if s.state == StateType::Paren {
        let p = s.put(ch);
        assert(made(p) == made(s));
        assert(p.token_str[0] == s.token_str[0]);
        if !p.is_string && !p.is_comment && Some(ch) == p.right_paren && Some(ch) != p.left_paren
            && p.paren_count == 0 {
            let state = if p.left_paren == Some('{') {
                StateType::ParenCurly
            } else if p.left_paren == Some('[') {
                StateType::ParenSquare
            } else {
                StateType::ParenRound
            };
            let begun = TokenizerView { state, ..p };
            assert(made(begun) == made(s));
            assert(begun.current_token().wf()) by {
                if state == StateType::ParenCurly {
                    assert(p.token_str.last() == ch);
                }
            }
            lemma_fit_append_token(begun, bound);
            lemma_append_token_rests(begun, macros, bound);
            lemma_fit_append_keywords(begun.append_token(macros, bound)->Ok_0);
        } else if p.is_string && ch == '\\' && next is Some {
            let t = p.put(next->0).advance();
            assert(made(t) == made(s));
            assert(t.token_str[0] == s.token_str[0]);
        }
    } else if s.state == StateType::String {
        if ch == '\\' {
            if next is Some {
                let t = s.dispatch(ch, next, expect_semicolon, macros, bound)->Ok_0.0;
                assert(made(t) == made(s));
            }
        } else if Some(ch) == s.quote {
            if ch == '`' {
                if s.validate_multiline_string() is Ok {
                    let v = s.validate_multiline_string()->Ok_0;
                    assert(made(v) == made(s));
                    lemma_fit_append_token(v, bound);
                }
            } else {
                lemma_fit_append_token(s, bound);
            }
        } else {
            assert(made(s.put(ch)) == made(s));
        }
    } else if s.state == StateType::Comment {
    } else {
        let r = s.parse_none(ch, macros, bound);
        if r is Ok {
            let t = r->Ok_0;
            if ch == ';' {
                lemma_fit_append_keywords(s);
            } else if ch == ',' {
                let b = s.put(ch).begin(StateType::Comma);
                assert(made(b) == made(s));
                lemma_fit_append_token(b, bound);
            } else {
                assert(made(t) == made(s));
                if is_left_paren(ch) {
                    assert(t.token_str =~= s.token_str.push(ch));
                }
            }
        }
    }
}

/// Without macros, and with the token between tokens empty, every move
/// keeps it so that the curly-bracket tokens hold their two brackets.
pub proof fn lemma_step_fits(
    s: TokenizerView,
    ch: char,
    next: Option<char>,
    expect_semicolon: bool,
    bound: nat,
)
    requires
        brackets_fit(s),
        rests(s),
        (s.state == StateType::Idle || s.state == StateType::Comment) ==> s.token_str.len() == 0,
    ensures
        s.step(ch, next, expect_semicolon, Seq::empty(), bound) is Ok ==> ({
            let t = s.step(ch, next, expect_semicolon, Seq::empty(), bound)->Ok_0.0;
            &&& brackets_fit(t)
            &&& rests(t)
            &&& (t.state == StateType::Idle || t.state == StateType::Comment)
                ==> t.token_str.len() == 0
        }),
{
    let macros = Seq::<MacroEntryView>::empty();
    let a = s.advance();
    assert(made(a) == made(s));
    assert(rests(a));
    if ch == ';' && a.state == StateType::Idle && !expect_semicolon {
    } else if ch == '\n' {
        let c = TokenizerView { is_comment: false, ..a };
        assert(made(c) == made(a));
        let r = a.parse_newline(macros, bound);
        if r is Ok {
            let t = r->Ok_0;
            if c.state == StateType::Keyword || c.state == StateType::Operator {
                lemma_fit_append_token(c, bound);
                lemma_append_token_rests(c, macros, bound);
                assert(made(t) == made(c.append_token(macros, bound)->Ok_0));
            } else {
                assert(made(t) == made(c));
                if c.state == StateType::Paren {
                    assert(t.token_str[0] == c.token_str[0]);
                }
            }
        }
    } else if ch == '/' && next == Some('/') && a.state != StateType::Paren && a.state
        != StateType::String {
        let b = a.advance();
        assert(made(b) == made(a));
        let r = a.begin_comment(macros, bound);
        if r is Ok {
            let t = r->Ok_0;
            if b.token_str.len() > 0 {
                lemma_fit_append_token(b, bound);
                lemma_append_token_rests(b, macros, bound);
                assert(made(t) == made(b.append_token(macros, bound)->Ok_0));
            } else {
                assert(made(t) == made(b));
            }
        }
    } else {
        lemma_read_states(a, ch, next, expect_semicolon, macros, bound);
        if a.state == StateType::Keyword || a.state == StateType::Operator {
            lemma_fit_append_token(a, bound);
            lemma_append_token_rests(a, macros, bound);
            let u = a.append_token(macros, bound)->Ok_0;
            let o = u.begin(StateType::Operator);
            let k = u.begin(StateType::Keyword);
            assert(made(o) == made(u) && made(k) == made(u));
            lemma_fit_append_token(o, bound);
            lemma_fit_append_token(k, bound);
            lemma_append_token_rests(o, macros, bound);
            lemma_append_token_rests(k, macros, bound);
            assert(made(o.put(ch)) == made(u));
            assert(made(k.put(ch)) == made(u));
            assert(made(a.put(ch)) == made(a));
            assert(made((TokenizerView { allow_semicolon: false, ..a }).put(ch)) == made(a));
            let r = a.parse_keyword_and_operator(ch, expect_semicolon, macros, bound);
            if r is Ok {
                let t = r->Ok_0.0;
                assert(brackets_fit(t));
                if !r->Ok_0.1 {
                    assert(t.state == StateType::Idle && t.token_str.len() == 0);
                    lemma_dispatch_fits(t, ch, next, expect_semicolon, bound);
                    lemma_dispatch_empties(t, ch, next, expect_semicolon, macros, bound);
                }
            }
        } else {
            lemma_dispatch_fits(a, ch, next, expect_semicolon, bound);
            lemma_dispatch_empties(a, ch, next, expect_semicolon, macros, bound);
        }
    }
}

/// A move between tokens, in a string literal, in a bracket span or in a
/// comment leaves no text of a token behind where it ends between tokens.
proof fn lemma_dispatch_empties(
    s: TokenizerView,
    ch: char,
    next: Option<char>,
    expect_semicolon: bool,
    macros: Seq<MacroEntryView>,
    bound: nat,
)
    requires
        s.state == StateType::Idle || s.state == StateType::Comment || s.state
            == StateType::Paren || s.state == StateType::String,
        (s.state == StateType::Idle || s.state == StateType::Comment) ==> s.token_str.len() == 0,
    ensures
        s.dispatch(ch, next, expect_semicolon, macros, bound) is Ok ==> ({
            let t = s.dispatch(ch, next, expect_semicolon, macros, bound)->Ok_0.0;
            (t.state == StateType::Idle || t.state == StateType::Comment) ==> t.token_str.len()
                == 0
        }),
{
    if s.state == StateType::Paren {
        let p = s.put(ch);
        let state = if p.left_paren == Some('{') {
            StateType::ParenCurly
        } else if p.left_paren == Some('[') {
            StateType::ParenSquare
        } else {
            StateType::ParenRound
        };
        lemma_append_token_rests(TokenizerView { state, ..p }, macros, bound);
    } else if s.state == StateType::String {
        lemma_append_token_rests(s, macros, bound);
        if s.validate_multiline_string() is Ok {
            lemma_append_token_rests(s.validate_multiline_string()->Ok_0, macros, bound);
        }
    } else if s.state == StateType::Comment {
    } else {
        lemma_append_token_rests(s.put(ch).begin(StateType::Comma), macros, bound);
    }
}

/// Without macros, every curly-bracket token that a run makes holds its two
/// brackets: every token of the result is well formed.
pub proof fn lemma_tokens_well_formed(
    s: TokenizerView,
    input: Seq<char>,
    i: int,
    expect_semicolon: bool,
)
    requires
        0 <= i <= input.len(),
        brackets_fit(s),
        rests(s),
        (s.state == StateType::Idle || s.state == StateType::Comment) ==> s.token_str.len() == 0,
    ensures
        s.parse_chars(input, i, expect_semicolon, Seq::empty()) is Ok ==> ({
            let t = s.parse_chars(input, i, expect_semicolon, Seq::empty())->Ok_0;
            &&& brackets_fit(t)
            &&& rests(t)
            &&& (t.state == StateType::Idle || t.state == StateType::Comment)
                ==> t.token_str.len() == 0
        }),
    decreases input.len() - i,
{
    let macros = Seq::<MacroEntryView>::empty();
    if i < input.len() {
        let next = if i + 1 < input.len() {
            Some(input[i + 1])
        } else {
            None
        };
        let r = s.step(input[i], next, expect_semicolon, macros, input.len());
        if r is Ok {
            lemma_step_fits(s, input[i], next, expect_semicolon, input.len());
            lemma_both_has_next(s, input[i], next, expect_semicolon, macros, input.len());
            let t = r->Ok_0.0;
            let j = if r->Ok_0.1 && i + 1 < input.len() {
                i + 2
            } else {
                i + 1
            };
            lemma_tokens_well_formed(t, input, j, expect_semicolon);
        }
    }
}

} // verus!
