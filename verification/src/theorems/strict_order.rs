//! Without macros, no two tokens of a run's result stand at one place: each
//! token stands behind the one before it.

use crate::header::{macro_named, MacroEntryView};
use crate::theorems::columns::{lemma_append_token_rests, lemma_both_has_next, lemma_read_states, rests};
use crate::theorems::order::{at_or_before, flat, lemma_flat_push, lemma_step_places, made, place};
use crate::token::TokenView;
use crate::tokenizer::{Pos, StateType, TokenizerView};
use vstd::prelude::*;

verus! {

/// Whether the place `a` is before the place `b` in the source.
pub open spec fn before(a: Pos, b: Pos) -> bool {
    a.line < b.line || (a.line == b.line && a.col < b.col)
}

/// Whether every token of `tokens` stands before the place `p`.
pub open spec fn all_strictly_before(tokens: Seq<TokenView>, p: Pos) -> bool {
    forall|i: int| 0 <= i < tokens.len() ==> before(place(#[trigger] tokens[i]), p)
}

/// Whether every token of `tokens` stands at the place `p` or before it.
pub open spec fn none_behind(tokens: Seq<TokenView>, p: Pos) -> bool {
    forall|i: int| 0 <= i < tokens.len() ==> at_or_before(place(#[trigger] tokens[i]), p)
}

/// Whether each token stands behind every token that precedes it in the
/// list.
pub open spec fn strictly_in_order(tokens: Seq<TokenView>) -> bool {
    forall|i: int, j: int|
        0 <= i < j < tokens.len() ==> before(
            place(#[trigger] tokens[i]),
            place(#[trigger] tokens[j]),
        )
}

/// Whether the tokenizer is reading a token.
pub open spec fn reading(s: TokenizerView) -> bool {
    s.state != StateType::Idle && s.state != StateType::Comment
}

/// What holds between two moves of a run without macros: the tokens made
/// stand each behind the one before it, all of them before the token that
/// is being read, and none behind the character read last.
pub open spec fn strictly_ordered(s: TokenizerView) -> bool {
    &&& s.macro_factory_info is None
    &&& rests(s)
    &&& strictly_in_order(made(s))
    &&& reading(s) ==> all_strictly_before(made(s), s.token_pos) && at_or_before(
        s.token_pos,
        s.pos(),
    )
    &&& !reading(s) ==> none_behind(made(s), s.pos()) && s.token_str.len() == 0
}

/// What holds inside a move, once the character is counted: as between
/// moves, but every token made stands before that character.
pub open spec fn strictly_ordered_inside(s: TokenizerView) -> bool {
    &&& s.macro_factory_info is None
    &&& rests(s)
    &&& strictly_in_order(made(s))
    &&& reading(s) ==> all_strictly_before(made(s), s.token_pos) && before(s.token_pos, s.pos())
    &&& !reading(s) ==> all_strictly_before(made(s), s.pos()) && s.token_str.len() == 0
}

proof fn lemma_later(tokens: Seq<TokenView>, p: Pos, q: Pos)
    requires
        all_strictly_before(tokens, p),
        at_or_before(p, q),
    ensures
        all_strictly_before(tokens, q),
        none_behind(tokens, q),
{
    assert forall|i: int| 0 <= i < tokens.len() implies before(place(#[trigger] tokens[i]), q)
        && at_or_before(place(tokens[i]), q) by {
        assert(before(place(tokens[i]), p));
    }
}

proof fn lemma_much_later(tokens: Seq<TokenView>, p: Pos, q: Pos)
    requires
        none_behind(tokens, p),
        before(p, q),
    ensures
        all_strictly_before(tokens, q),
{
    assert forall|i: int| 0 <= i < tokens.len() implies before(place(#[trigger] tokens[i]), q) by {
        assert(at_or_before(place(tokens[i]), p));
    }
}

proof fn lemma_one_more(tokens: Seq<TokenView>, token: TokenView, q: Pos)
    requires
        strictly_in_order(tokens),
        all_strictly_before(tokens, place(token)),
        at_or_before(place(token), q),
    ensures
        strictly_in_order(tokens.push(token)),
        none_behind(tokens.push(token), q),
        before(place(token), q) ==> all_strictly_before(tokens.push(token), q),
{
    let all = tokens.push(token);
    assert forall|i: int, j: int| 0 <= i < j < all.len() implies before(
        place(#[trigger] all[i]),
        place(#[trigger] all[j]),
    ) by {
        assert(all[i] == tokens[i]);
        if j < tokens.len() {
            assert(all[j] == tokens[j]);
        }
    }
    assert forall|i: int| 0 <= i < all.len() implies at_or_before(place(#[trigger] all[i]), q) by {
        if i < tokens.len() {
            assert(all[i] == tokens[i]);
            assert(before(place(tokens[i]), place(token)));
        }
    }
    if before(place(token), q) {
        assert forall|i: int| 0 <= i < all.len() implies before(place(#[trigger] all[i]), q) by {
            if i < tokens.len() {
                assert(all[i] == tokens[i]);
                assert(before(place(tokens[i]), place(token)));
            }
        }
    }
}

/// Without macros, a token that ends joins the statement as it is.
proof fn lemma_token_joins(s: TokenizerView, bound: nat)
    requires
        s.macro_factory_info is None,
        strictly_in_order(made(s)),
        all_strictly_before(made(s), s.token_pos),
        at_or_before(s.token_pos, s.pos()),
    ensures
        s.append_token(Seq::empty(), bound) is Ok,
        ({
            let t = s.append_token(Seq::empty(), bound)->Ok_0;
            &&& t.macro_factory_info is None
            &&& t.state == StateType::Idle
            &&& t.token_str.len() == 0
            &&& t.pos() == s.pos()
            &&& made(t) == made(s).push(s.current_token())
            &&& strictly_in_order(made(t))
            &&& none_behind(made(t), t.pos())
            &&& before(s.token_pos, s.pos()) ==> all_strictly_before(made(t), t.pos())
        }),
{
    let token = s.current_token();
    assert(macro_named(Seq::<MacroEntryView>::empty(), token.string) is None);
    let t = s.append_token(Seq::empty(), bound)->Ok_0;
    assert(t.keywords =~= s.keywords.push(token));
    assert(made(t) =~= made(s).push(token));
    lemma_one_more(made(s), token, s.pos());
}

proof fn lemma_statement_ends(s: TokenizerView)
    ensures
        s.append_keywords() is Ok ==> made(s.append_keywords()->Ok_0) == made(s),
{
    lemma_flat_push(s.programs, s.keywords);
    assert(flat(s.programs) + s.keywords + Seq::<TokenView>::empty() =~= made(s));
}

proof fn lemma_dispatch_strict(
    s: TokenizerView,
    ch: char,
    next: Option<char>,
    expect_semicolon: bool,
    bound: nat,
)
    requires
        strictly_ordered_inside(s),
        s.state != StateType::Keyword,
        s.state != StateType::Operator,
        s.col < u32::MAX,
    ensures
        s.dispatch(ch, next, expect_semicolon, Seq::empty(), bound) is Ok ==> strictly_ordered(
            s.dispatch(ch, next, expect_semicolon, Seq::empty(), bound)->Ok_0.0,
        ),
{
    let macros = Seq::<MacroEntryView>::empty();
    lemma_dispatch_rests(s, ch, next, expect_semicolon, macros, bound);
    if s.state == StateType::Paren {
        let p = s.put(ch);
        assert(made(p) == made(s));
        if !p.is_string && !p.is_comment && Some(ch) == p.right_paren && Some(ch) != p.left_paren
            && p.paren_count == 0 {
            let state = if p.left_paren == Some('{') {
                StateType::ParenCurly
            } else if p.left_paren == Some('[') {
                StateType::ParenSquare
            } else {
                StateType::ParenRound
            };
            let begun = TokenizerView { state, ..p };
            assert(made(begun) == made(s));
            lemma_token_joins(begun, bound);
            lemma_statement_ends(begun.append_token(macros, bound)->Ok_0);
        } else if p.is_string && ch == '\\' && next is Some {
            let t = p.put(next->0).advance();
            assert(made(t) == made(s));
        }
    } else if s.state == StateType::String {
        if ch == '\\' {
            if next is Some {
                let t = s.dispatch(ch, next, expect_semicolon, macros, bound)->Ok_0.0;
                assert(made(t) == made(s));
            }
        } else if Some(ch) == s.quote {
            if ch == '`' {
                if s.validate_multiline_string() is Ok {
                    let v = s.validate_multiline_string()->Ok_0;
                    assert(made(v) == made(s));
                    lemma_token_joins(v, bound);
                }
            } else {
                lemma_token_joins(s, bound);
            }
        } else {
            assert(made(s.put(ch)) == made(s));
        }
    } else if s.state == StateType::Comment {
        lemma_later(made(s), s.pos(), s.pos());
    } else {
        let r = s.parse_none(ch, macros, bound);
        lemma_later(made(s), s.pos(), s.pos());
        if r is Ok {
            let t = r->Ok_0;
            if ch == ';' {
                lemma_statement_ends(s);
            } else if ch == ',' {
                let b = s.put(ch).begin(StateType::Comma);
                assert(made(b) == made(s));
                lemma_token_joins(b, bound);
            } else {
                assert(made(t) == made(s));
            }
        }
    }
}

proof fn lemma_dispatch_rests(
    s: TokenizerView,
    ch: char,
    next: Option<char>,
    expect_semicolon: bool,
    macros: Seq<MacroEntryView>,
    bound: nat,
)
    requires
        rests(s),
        s.state != StateType::Keyword,
        s.state != StateType::Operator,
    ensures
        s.dispatch(ch, next, expect_semicolon, macros, bound) is Ok ==> rests(
            s.dispatch(ch, next, expect_semicolon, macros, bound)->Ok_0.0,
        ),
{
    if s.state == StateType::Paren {
        let p = s.put(ch);
        let state = if p.left_paren == Some('{') {
            StateType::ParenCurly
        } else if p.left_paren == Some('[') {
            StateType::ParenSquare
        } else {
            StateType::ParenRound
        };
        lemma_append_token_rests(TokenizerView { state, ..p }, macros, bound);
    } else if s.state == StateType::String {
        lemma_append_token_rests(s, macros, bound);
        if s.validate_multiline_string() is Ok {
            lemma_append_token_rests(s.validate_multiline_string()->Ok_0, macros, bound);
        }
    } else if s.state == StateType::Comment {
    } else {
        lemma_append_token_rests(s.put(ch).begin(StateType::Comma), macros, bound);
    }
}

proof fn lemma_read_strict(
    s: TokenizerView,
    ch: char,
    next: Option<char>,
    expect_semicolon: bool,
    bound: nat,
)
    requires
        strictly_ordered_inside(s),
        ch != '\n',
        s.col < u32::MAX,
    ensures
        s.read(ch, next, expect_semicolon, Seq::empty(), bound) is Ok ==> strictly_ordered(
            s.read(ch, next, expect_semicolon, Seq::empty(), bound)->Ok_0.0,
        ),
{
    let macros = Seq::<MacroEntryView>::empty();
    lemma_read_states(s, ch, next, expect_semicolon, macros, bound);
    if s.state == StateType::Keyword || s.state == StateType::Operator {
        lemma_token_joins(s, bound);
        let u = s.append_token(macros, bound)->Ok_0;
        let o = u.begin(StateType::Operator);
        let k = u.begin(StateType::Keyword);
        assert(made(o) == made(u) && made(k) == made(u));
        assert(made(o.put(ch)) == made(u));
        assert(made(k.put(ch)) == made(u));
        assert(made(s.put(ch)) == made(s));
        assert(made((TokenizerView { allow_semicolon: false, ..s }).put(ch)) == made(s));
        lemma_token_joins(o, bound);
        lemma_token_joins(k, bound);
        let r = s.parse_keyword_and_operator(ch, expect_semicolon, macros, bound);
        if r is Ok {
            let t = r->Ok_0.0;
            if !r->Ok_0.1 {
                assert(strictly_ordered_inside(t));
                lemma_dispatch_strict(t, ch, next, expect_semicolon, bound);
            } else {
                assert(strictly_ordered(t));
            }
        }
    } else {
        lemma_dispatch_strict(s, ch, next, expect_semicolon, bound);
    }
}

/// Without macros, every move keeps each token behind the one before it, as
/// long as no counter has reached the largest number.
pub proof fn lemma_step_strict(
    s: TokenizerView,
    ch: char,
    next: Option<char>,
    expect_semicolon: bool,
    bound: nat,
)
    requires
        strictly_ordered(s),
        s.line < u32::MAX,
        s.col < u32::MAX - 2,
    ensures
        s.step(ch, next, expect_semicolon, Seq::empty(), bound) is Ok ==> strictly_ordered(
            s.step(ch, next, expect_semicolon, Seq::empty(), bound)->Ok_0.0,
        ),
{
    let macros = Seq::<MacroEntryView>::empty();
    let a = s.advance();
    assert(made(a) == made(s));
    assert(before(s.pos(), a.pos()));
    assert(rests(a));
    assert(strictly_ordered_inside(a)) by {
        if !reading(s) {
            lemma_much_later(made(s), s.pos(), a.pos());
        }
    }
    if ch == ';' && a.state == StateType::Idle && !expect_semicolon {
    } else if ch == '\n' {
        let c = TokenizerView { is_comment: false, ..a };
        assert(made(c) == made(a));
        let r = a.parse_newline(macros, bound);
        if r is Ok {
            let t = r->Ok_0;
            if c.state == StateType::Keyword || c.state == StateType::Operator {
                lemma_token_joins(c, bound);
                let u = c.append_token(macros, bound)->Ok_0;
                assert(made(t) == made(u));
                lemma_later(made(u), a.pos(), t.pos());
            } else {
                assert(made(t) == made(c));
                if reading(c) {
                } else {
                    lemma_later(made(c), c.pos(), t.pos());
                }
            }
        }
    } else if ch == '/' && next == Some('/') && a.state != StateType::Paren && a.state
        != StateType::String {
        let b = a.advance();
        assert(made(b) == made(a));
        let r = a.begin_comment(macros, bound);
        if r is Ok {
            let t = r->Ok_0;
            if b.token_str.len() > 0 {
                lemma_token_joins(b, bound);
                let u = b.append_token(macros, bound)->Ok_0;
                assert(made(t) == made(u));
            } else {
                assert(made(t) == made(b));
                if reading(b) {
                    lemma_later(made(b), b.token_pos, b.pos());
                } else {
                    lemma_later(made(b), a.pos(), b.pos());
                }
            }
        }
    } else {
        lemma_read_strict(a, ch, next, expect_semicolon, bound);
    }
}

/// Without macros, throughout a run over a text that is short enough for
/// the counters, each token stands behind the one before it.
pub proof fn lemma_run_strict(s: TokenizerView, input: Seq<char>, i: int, expect_semicolon: bool)
    requires
        0 <= i <= input.len(),
        strictly_ordered(s),
        s.col + (input.len() - i) < u32::MAX - 2,
        s.line + (input.len() - i) < u32::MAX,
    ensures
        s.parse_chars(input, i, expect_semicolon, Seq::empty()) is Ok ==> strictly_ordered(
            s.parse_chars(input, i, expect_semicolon, Seq::empty())->Ok_0,
        ),
    decreases input.len() - i,
{
    let macros = Seq::<MacroEntryView>::empty();
    if i < input.len() {
        let next = if i + 1 < input.len() {
            Some(input[i + 1])
        } else {
            None
        };
        let r = s.step(input[i], next, expect_semicolon, macros, input.len());
        if r is Ok {
            lemma_step_strict(s, input[i], next, expect_semicolon, input.len());
            lemma_step_places(s, input[i], next, expect_semicolon, macros, input.len());
            lemma_both_has_next(s, input[i], next, expect_semicolon, macros, input.len());
            let t = r->Ok_0.0;
            let j = if r->Ok_0.1 && i + 1 < input.len() {
                i + 2
            } else {
                i + 1
            };
            lemma_run_strict(t, input, j, expect_semicolon);
        }
    }
}

/// Without macros, the statements that the tokenizer makes of a text, from
/// before its first character on, hold their tokens in the strict order of
/// the source, for a text that is short enough for the counters: within a
/// statement and from statement to statement, each token stands behind the
/// one before it.
pub proof fn lemma_result_strictly_in_source_order(
    start: TokenizerView,
    input: Seq<char>,
    expect_semicolon: bool,
    allow_last_missing_semicolon: bool,
)
    requires
        start.programs.len() == 0,
        start.keywords.len() == 0,
        start.token_str.len() == 0,
        start.state == StateType::Idle,
        start.macro_factory_info is None,
        start.col + input.len() < u32::MAX - 2,
        start.line + input.len() < u32::MAX,
    ensures
        start.parse(input, expect_semicolon, allow_last_missing_semicolon, Seq::empty()) is Ok
            ==> strictly_in_order(
            flat(
                start.parse(
                    input,
                    expect_semicolon,
                    allow_last_missing_semicolon,
                    Seq::empty(),
                )->Ok_0.programs,
            ),
        ),
{
    let macros = Seq::<MacroEntryView>::empty();
    assert(made(start) =~= Seq::<TokenView>::empty());
    lemma_run_strict(start, input, 0, expect_semicolon);
    let r = start.parse_chars(input, 0, expect_semicolon, macros);
    if r is Ok {
        let t = r->Ok_0;
        let f = t.finish(expect_semicolon, allow_last_missing_semicolon, macros, input.len());
        if f is Ok {
            let u = if t.token_str.len() > 0 {
                lemma_token_joins(t, input.len());
                t.append_token(macros, input.len())->Ok_0
            } else {
                t
            };
            lemma_statement_ends(u);
            let done = f->Ok_0;
            assert(strictly_in_order(made(done)));
            assert forall|a: int, b: int| 0 <= a < b < flat(done.programs).len() implies before(
                place(#[trigger] flat(done.programs)[a]),
                place(#[trigger] flat(done.programs)[b]),
            ) by {
                assert(made(done)[a] == flat(done.programs)[a]);
                assert(made(done)[b] == flat(done.programs)[b]);
            }
        }
    }
}

} // verus!
