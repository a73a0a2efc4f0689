//! The tokens of a run's result stand in the order of their places in the
//! source.

use crate::header::{macro_named, MacroEntryView};
use crate::theorems::columns::{
    lemma_append_token_rests, lemma_both_has_next, lemma_read_states, rests,
};
use crate::token::{TokenType, TokenView};
use crate::tokenizer::{Pos, StateType, TokenizerView};
use vstd::prelude::*;

verus! {

/// Whether the place `a` is the place `b` or one before it in the source.
pub open spec fn at_or_before(a: Pos, b: Pos) -> bool {
    a.line < b.line || (a.line == b.line && a.col <= b.col)
}

/// The place of a token.
pub open spec fn place(token: TokenView) -> Pos {
    Pos { line: token.line, col: token.col }
}

/// Whether every token of `tokens` stands at `p` or before it.
pub open spec fn all_before(tokens: Seq<TokenView>, p: Pos) -> bool {
    forall|i: int| 0 <= i < tokens.len() ==> at_or_before(place(#[trigger] tokens[i]), p)
}

/// Whether the tokens stand in the order of their places: none before one
/// that precedes it in the list.
pub open spec fn in_order(tokens: Seq<TokenView>) -> bool {
    forall|i: int, j: int|
        0 <= i <= j < tokens.len() ==> at_or_before(
            place(#[trigger] tokens[i]),
            place(#[trigger] tokens[j]),
        )
}

/// The tokens of the statements, one statement behind the other.
pub open spec fn flat(programs: Seq<Seq<TokenView>>) -> Seq<TokenView>
    decreases programs.len(),
{
    if programs.len() == 0 {
        Seq::empty()
    } else {
        flat(programs.drop_last()) + programs.last()
    }
}

/// All tokens that the tokenizer has made: those of the statements that
/// have ended, then those of the statement that is being read.
pub open spec fn made(s: TokenizerView) -> Seq<TokenView> {
    flat(s.programs) + s.keywords
}

/// The place that no token stands behind: where the token that is being
/// read began, or the character read last.
pub open spec fn limit(s: TokenizerView) -> Pos {
    if s.state == StateType::Idle || s.state == StateType::Comment {
        s.pos()
    } else {
        s.token_pos
    }
}

/// Whether the tokens that the tokenizer has made stand in the order of the
/// source, none behind the token that is being read.
pub open spec fn in_source_order(s: TokenizerView) -> bool {
    &&& in_order(made(s))
    &&& all_before(made(s), limit(s))
    &&& at_or_before(limit(s), s.pos())
    &&& (s.state == StateType::Idle || s.state == StateType::Comment) ==> s.token_str.len() == 0
}

proof fn lemma_all_before_later(tokens: Seq<TokenView>, p: Pos, q: Pos)
    requires
        all_before(tokens, p),
        at_or_before(p, q),
    ensures
        all_before(tokens, q),
{
    assert forall|i: int| 0 <= i < tokens.len() implies at_or_before(
        place(#[trigger] tokens[i]),
        q,
    ) by {
        assert(at_or_before(place(tokens[i]), p));
    }
}

proof fn lemma_in_order_more(tokens: Seq<TokenView>, more: Seq<TokenView>, p: Pos)
    requires
        in_order(tokens),
        all_before(tokens, p),
        forall|i: int| 0 <= i < more.len() ==> place(#[trigger] more[i]) == p,
    ensures
        in_order(tokens + more),
        all_before(tokens + more, p),
{
    let all = tokens + more;
    assert forall|i: int, j: int| 0 <= i <= j < all.len() implies at_or_before(
        place(#[trigger] all[i]),
        place(#[trigger] all[j]),
    ) by {
        if j < tokens.len() {
            assert(all[i] == tokens[i] && all[j] == tokens[j]);
        } else if i < tokens.len() {
            assert(all[i] == tokens[i]);
            assert(all[j] == more[j - tokens.len()]);
            assert(at_or_before(place(tokens[i]), p));
        } else {
            assert(all[i] == more[i - tokens.len()]);
            assert(all[j] == more[j - tokens.len()]);
        }
    }
    assert forall|i: int| 0 <= i < all.len() implies at_or_before(place(#[trigger] all[i]), p) by {
        if i < tokens.len() {
            assert(all[i] == tokens[i]);
        } else {
            assert(all[i] == more[i - tokens.len()]);
        }
    }
}

pub proof fn lemma_flat_push(programs: Seq<Seq<TokenView>>, statement: Seq<TokenView>)
    ensures
        flat(programs.push(statement)) == flat(programs) + statement,
{
    assert(programs.push(statement).drop_last() =~= programs);
}

proof fn lemma_expansion_places(
    factory: crate::header::MacroFactoryView,
    n: nat,
    arguments: Seq<TokenView>,
    line: u32,
    col: u32,
)
    ensures
        forall|i: int|
            0 <= i < factory.expand_first(n, arguments, line, col).len() ==> place(
                #[trigger] factory.expand_first(n, arguments, line, col)[i],
            ) == (Pos { line, col }),
    decreases n,
{
    if n > 0 && n <= factory.template.len() {
        lemma_expansion_places(factory, (n - 1) as nat, arguments, line, col);
        let before = factory.expand_first((n - 1) as nat, arguments, line, col);
        let put = factory.piece_output(factory.template[n - 1], arguments, line, col);
        let all = factory.expand_first(n, arguments, line, col);
        assert forall|i: int| 0 <= i < all.len() implies place(#[trigger] all[i]) == (Pos {
            line,
            col,
        }) by {
            if i < before.len() {
                assert(all[i] == before[i]);
            } else {
                assert(all[i] == put[i - before.len()]);
            }
        }
    }
}

proof fn lemma_order_append_keywords(s: TokenizerView)
    requires
        in_source_order(s),
    ensures
        s.append_keywords() is Ok ==> in_source_order(s.append_keywords()->Ok_0) && made(
            s.append_keywords()->Ok_0,
        ) == made(s),
{
    lemma_flat_push(s.programs, s.keywords);
    assert(flat(s.programs) + s.keywords + Seq::<TokenView>::empty() =~= made(s));
}

proof fn lemma_order_append_token(s: TokenizerView, macros: Seq<MacroEntryView>, bound: nat)
    requires
        in_source_order(s),
        s.state != StateType::Idle,
        s.state != StateType::Comment,
    ensures
        s.append_token(macros, bound) is Ok ==> in_source_order(
            s.append_token(macros, bound)->Ok_0,
        ),
{
    let r = s.append_token(macros, bound);
    if r is Ok {
        let t = r->Ok_0;
        let token = s.current_token();
        let pos = s.token_pos;
        assert(t.programs == s.programs);
        assert(t.state == StateType::Idle);
        assert(t.pos() == s.pos());
        // what joined the statement stands where the token began
        let more: Seq<TokenView> = if token.token_type == TokenType::Keyword && macro_named(
            macros,
            token.string,
        ) is Some {
            let entry = macro_named(macros, token.string)->0;
            if entry.arg_count == 0 {
                entry.factory.expand(Seq::empty(), pos.line, pos.col)
            } else {
                Seq::empty()
            }
        } else if s.macro_factory_info is Some {
            let info = s.macro_factory_info->0;
            let cleared = TokenizerView { macro_factory_info: None, ..s.taken() };
            let arguments = cleared.sub().parse_func_args(
                token,
                TokenType::ParenRound,
                macros,
                bound,
            );
            info.macro_factory.expand(
                crate::grammar::macro_arguments(arguments->Ok_0.args),
                pos.line,
                pos.col,
            )
        } else {
            seq![token]
        };
        assert(t.keywords =~= s.keywords + more);
        assert forall|i: int| 0 <= i < more.len() implies place(#[trigger] more[i]) == pos by {
            if token.token_type == TokenType::Keyword && macro_named(macros, token.string) is Some {
                let entry = macro_named(macros, token.string)->0;
                lemma_expansion_places(
                    entry.factory,
                    entry.factory.template.len(),
                    Seq::empty(),
                    pos.line,
                    pos.col,
                );
            } else if s.macro_factory_info is Some {
                let info = s.macro_factory_info->0;
                let cleared = TokenizerView { macro_factory_info: None, ..s.taken() };
                let arguments = cleared.sub().parse_func_args(
                    token,
                    TokenType::ParenRound,
                    macros,
                    bound,
                );
                lemma_expansion_places(
                    info.macro_factory,
                    info.macro_factory.template.len(),
                    crate::grammar::macro_arguments(arguments->Ok_0.args),
                    pos.line,
                    pos.col,
                );
            }
        }
        lemma_in_order_more(made(s), more, pos);
        assert(made(t) =~= made(s) + more);
        lemma_all_before_later(made(t), pos, t.pos());
    }
}

/// A move between tokens, in a string literal, in a bracket span or in a
/// comment keeps the tokens in the order of the source.
proof fn lemma_dispatch_order(
    s: TokenizerView,
    ch: char,
    next: Option<char>,
    expect_semicolon: bool,
    macros: Seq<MacroEntryView>,
    bound: nat,
)
    requires
        in_source_order(s),
        rests(s),
        s.state != StateType::Keyword,
        s.state != StateType::Operator,
        s.col < u32::MAX,
    ensures
        s.dispatch(ch, next, expect_semicolon, macros, bound) is Ok ==> in_source_order(
            s.dispatch(ch, next, expect_semicolon, macros, bound)->Ok_0.0,
        ),
{
    if s.state == StateType::Paren {
        let p = s.put(ch);
        assert(made(p) == made(s));
        if !p.is_string && !p.is_comment && Some(ch) == p.right_paren && Some(ch) != p.left_paren
            && p.paren_count == 0 {
            let state = if p.left_paren == Some('{') {
                StateType::ParenCurly
            } else if p.left_paren == Some('[') {
                StateType::ParenSquare
            } else {
                StateType::ParenRound
            };
            let begun = TokenizerView { state, ..p };
            assert(made(begun) == made(s));
            lemma_order_append_token(begun, macros, bound);
            if begun.append_token(macros, bound) is Ok {
                lemma_order_append_keywords(begun.append_token(macros, bound)->Ok_0);
            }
        } else if p.is_string && ch == '\\' && next is Some {
            let t = p.put(next->0).advance();
            assert(made(t) == made(s));
        }
    } else if s.state == StateType::String {
        if ch == '\\' {
            if next is Some {
                let t = s.dispatch(ch, next, expect_semicolon, macros, bound)->Ok_0.0;
                assert(made(t) == made(s));
            }
        } else if Some(ch) == s.quote {
            if ch == '`' {
                if s.validate_multiline_string() is Ok {
                    let v = s.validate_multiline_string()->Ok_0;
                    assert(made(v) == made(s));
                    lemma_order_append_token(v, macros, bound);
                }
            } else {
                lemma_order_append_token(s, macros, bound);
            }
        } else {
            assert(made(s.put(ch)) == made(s));
        }
    } else if s.state == StateType::Comment {
    } else {
        // between tokens
        let r = s.parse_none(ch, macros, bound);
        if r is Ok {
            let t = r->Ok_0;
            if ch == ';' {
                lemma_order_append_keywords(s);
            } else if ch == ',' && !crate::grammar::is_quote(ch) && !crate::grammar::is_left_paren(
                ch,
            ) && !crate::grammar::is_right_paren(ch) && !(ch == '#' && s.keywords.len() == 0) {
                let b = s.put(ch).begin(StateType::Comma);
                assert(made(b) == made(s));
                lemma_all_before_later(made(s), limit(s), s.pos());
                lemma_order_append_token(b, macros, bound);
            } else {
                assert(made(t) == made(s));
                lemma_all_before_later(made(s), limit(s), s.pos());
            }
        }
    }
}

proof fn lemma_read_order(
    s: TokenizerView,
    ch: char,
    next: Option<char>,
    expect_semicolon: bool,
    macros: Seq<MacroEntryView>,
    bound: nat,
)
    requires
        in_source_order(s),
        rests(s),
        s.col < u32::MAX,
    ensures
        s.read(ch, next, expect_semicolon, macros, bound) is Ok ==> in_source_order(
            s.read(ch, next, expect_semicolon, macros, bound)->Ok_0.0,
        ),
{
    if s.state == StateType::Keyword || s.state == StateType::Operator {
        lemma_order_append_token(s, macros, bound);
        let r = s.parse_keyword_and_operator(ch, expect_semicolon, macros, bound);
        if r is Ok {
            let t = r->Ok_0.0;
            assert(in_source_order(t) && t.col == s.col && (!r->Ok_0.1 ==> t.state
                == StateType::Idle)) by {
                lemma_append_token_rests(s, macros, bound);
                if s.append_token(macros, bound) is Ok {
                    let u = s.append_token(macros, bound)->Ok_0;
                    let o = u.begin(StateType::Operator);
                    let k = u.begin(StateType::Keyword);
                    assert(made(o) == made(u) && made(k) == made(u));
                    lemma_order_append_token(o, macros, bound);
                    lemma_order_append_token(k, macros, bound);
                    lemma_append_token_rests(o, macros, bound);
                    lemma_append_token_rests(k, macros, bound);
                    assert(made(o.put(ch)) == made(u));
                    assert(made(k.put(ch)) == made(u));
                }
                assert(made(s.put(ch)) == made(s));
                assert(made(
                    (TokenizerView { allow_semicolon: false, ..s }).put(ch),
                ) == made(s));
            }
            if !r->Ok_0.1 {
                assert(rests(t));
                lemma_dispatch_order(t, ch, next, expect_semicolon, macros, bound);
            }
        }
    } else {
        lemma_dispatch_order(s, ch, next, expect_semicolon, macros, bound);
    }
}

/// Every move keeps the tokens in the order of the source, as long as the
/// line counter has not reached the largest number.
pub proof fn lemma_step_order(
    s: TokenizerView,
    ch: char,
    next: Option<char>,
    expect_semicolon: bool,
    macros: Seq<MacroEntryView>,
    bound: nat,
)
    requires
        in_source_order(s),
        rests(s),
        s.line < u32::MAX,
        s.col < u32::MAX - 2,
    ensures
        s.step(ch, next, expect_semicolon, macros, bound) is Ok ==> in_source_order(
            s.step(ch, next, expect_semicolon, macros, bound)->Ok_0.0,
        ) && rests(s.step(ch, next, expect_semicolon, macros, bound)->Ok_0.0),
{
    let a = s.advance();
    assert(rests(a));
    assert(made(a) == made(s));
    assert(at_or_before(s.pos(), a.pos()));
    assert(in_source_order(a)) by {
        lemma_all_before_later(made(s), limit(s), limit(a));
    }
    if ch == ';' && a.state == StateType::Idle && !expect_semicolon {
    } else if ch == '\n' {
        let c = TokenizerView { is_comment: false, ..a };
        assert(made(c) == made(a));
        let r = a.parse_newline(macros, bound);
        if r is Ok {
            let t = r->Ok_0;
            if c.state == StateType::Keyword || c.state == StateType::Operator {
                lemma_order_append_token(c, macros, bound);
                lemma_append_token_rests(c, macros, bound);
                let u = c.append_token(macros, bound)->Ok_0;
                assert(made(t) == made(u));
                lemma_all_before_later(made(u), limit(u), limit(t));
            } else {
                assert(made(t) == made(c));
                lemma_all_before_later(made(c), limit(c), limit(t));
            }
        }
    } else if ch == '/' && next == Some('/') && a.state != StateType::Paren && a.state
        != StateType::String {
        let b = a.advance();
        assert(made(b) == made(a));
        assert(in_source_order(b)) by {
            lemma_all_before_later(made(a), limit(a), limit(b));
        }
        let r = a.begin_comment(macros, bound);
        if r is Ok {
            let t = r->Ok_0;
            if b.token_str.len() > 0 {
                lemma_order_append_token(b, macros, bound);
                lemma_append_token_rests(b, macros, bound);
                let u = b.append_token(macros, bound)->Ok_0;
                assert(made(t) == made(u));
            } else {
                assert(made(t) == made(b));
                lemma_all_before_later(made(b), limit(b), b.pos());
            }
        }
    } else {
        lemma_read_order(a, ch, next, expect_semicolon, macros, bound);
        lemma_read_states(a, ch, next, expect_semicolon, macros, bound);
    }
}

pub proof fn lemma_step_places(
    s: TokenizerView,
    ch: char,
    next: Option<char>,
    expect_semicolon: bool,
    macros: Seq<MacroEntryView>,
    bound: nat,
)
    ensures
        s.step(ch, next, expect_semicolon, macros, bound) is Ok ==> ({
            let r = s.step(ch, next, expect_semicolon, macros, bound)->Ok_0;
            &&& r.0.line <= s.line + 1
            &&& r.0.col <= s.col + (if r.1 {
                2int
            } else {
                1int
            })
        }),
{
    let a = s.advance();
    if ch == ';' && a.state == StateType::Idle && !expect_semicolon {
    } else if ch == '\n' {
        lemma_append_token_rests(TokenizerView { is_comment: false, ..a }, macros, bound);
    } else if ch == '/' && next == Some('/') && a.state != StateType::Paren && a.state
        != StateType::String {
        lemma_append_token_rests(a.advance(), macros, bound);
    } else {
        lemma_append_token_rests(a, macros, bound);
        if a.state == StateType::Keyword || a.state == StateType::Operator {
            if a.append_token(macros, bound) is Ok {
                let u = a.append_token(macros, bound)->Ok_0;
                lemma_append_token_rests(u.begin(StateType::Operator), macros, bound);
                lemma_append_token_rests(u.begin(StateType::Keyword), macros, bound);
            }
            let r = a.parse_keyword_and_operator(ch, expect_semicolon, macros, bound);
            if r is Ok && !r->Ok_0.1 {
                lemma_dispatch_places(r->Ok_0.0, ch, next, expect_semicolon, macros, bound);
            }
        } else {
            lemma_dispatch_places(a, ch, next, expect_semicolon, macros, bound);
        }
    }
}

proof fn lemma_dispatch_places(
    s: TokenizerView,
    ch: char,
    next: Option<char>,
    expect_semicolon: bool,
    macros: Seq<MacroEntryView>,
    bound: nat,
)
    ensures
        s.dispatch(ch, next, expect_semicolon, macros, bound) is Ok ==> ({
            let r = s.dispatch(ch, next, expect_semicolon, macros, bound)->Ok_0;
            &&& r.0.line == s.line
            &&& r.0.col <= s.col + (if r.1 {
                1int
            } else {
                0int
            })
        }),
{
    if s.state == StateType::Paren {
        let p = s.put(ch);
        let state = if p.left_paren == Some('{') {
            StateType::ParenCurly
        } else if p.left_paren == Some('[') {
            StateType::ParenSquare
        } else {
            StateType::ParenRound
        };
        lemma_append_token_rests(TokenizerView { state, ..p }, macros, bound);
    } else if s.state == StateType::String {
        lemma_append_token_rests(s, macros, bound);
        if s.validate_multiline_string() is Ok {
            lemma_append_token_rests(s.validate_multiline_string()->Ok_0, macros, bound);
        }
    } else if s.state == StateType::Comment {
    } else {
        lemma_append_token_rests(s.put(ch).begin(StateType::Comma), macros, bound);
    }
}

/// The tokens of a run's result stand in the order of the source, for a
/// text that is short enough for the counters: within a statement and from
/// statement to statement, no token stands before one that precedes it.
pub proof fn lemma_tokens_in_source_order(
    s: TokenizerView,
    input: Seq<char>,
    i: int,
    expect_semicolon: bool,
    macros: Seq<MacroEntryView>,
)
    requires
        0 <= i <= input.len(),
        in_source_order(s),
        rests(s),
        s.col + (input.len() - i) < u32::MAX - 2,
        s.line + (input.len() - i) < u32::MAX,
    ensures
        s.parse_chars(input, i, expect_semicolon, macros) is Ok ==> in_source_order(
            s.parse_chars(input, i, expect_semicolon, macros)->Ok_0,
        ),
    decreases input.len() - i,
{
    if i < input.len() {
        let next = if i + 1 < input.len() {
            Some(input[i + 1])
        } else {
            None
        };
        let r = s.step(input[i], next, expect_semicolon, macros, input.len());
        if r is Ok {
            lemma_step_order(s, input[i], next, expect_semicolon, macros, input.len());
            lemma_step_places(s, input[i], next, expect_semicolon, macros, input.len());
            lemma_both_has_next(s, input[i], next, expect_semicolon, macros, input.len());
            let t = r->Ok_0.0;
            let j = if r->Ok_0.1 && i + 1 < input.len() {
                i + 2
            } else {
                i + 1
            };
            lemma_tokens_in_source_order(t, input, j, expect_semicolon, macros);
        }
    }
}

/// The statements that the tokenizer makes of a text, from before its first
/// character on, hold their tokens in the order of the source, for a text
/// that is short enough for the counters.
pub proof fn lemma_result_in_source_order(
    start: TokenizerView,
    input: Seq<char>,
    expect_semicolon: bool,
    allow_last_missing_semicolon: bool,
    macros: Seq<MacroEntryView>,
)
    requires
        start.programs.len() == 0,
        start.keywords.len() == 0,
        start.token_str.len() == 0,
        start.state == StateType::Idle,
        start.col + input.len() < u32::MAX - 2,
        start.line + input.len() < u32::MAX,
    ensures
        start.parse(input, expect_semicolon, allow_last_missing_semicolon, macros) is Ok
            ==> in_order(
            flat(
                start.parse(
                    input,
                    expect_semicolon,
                    allow_last_missing_semicolon,
                    macros,
                )->Ok_0.programs,
            ),
        ),
{
    assert(made(start) =~= Seq::<TokenView>::empty());
    lemma_tokens_in_source_order(start, input, 0, expect_semicolon, macros);
    let r = start.parse_chars(input, 0, expect_semicolon, macros);
    if r is Ok {
        let t = r->Ok_0;
        let f = t.finish(expect_semicolon, allow_last_missing_semicolon, macros, input.len());
        if f is Ok {
            let u = if t.token_str.len() > 0 {
                lemma_order_append_token(t, macros, input.len());
                t.append_token(macros, input.len())->Ok_0
            } else {
                t
            };
            lemma_order_append_keywords(u);
            let done = f->Ok_0;
            assert(in_order(made(done)));
            assert forall|a: int, b: int| 0 <= a <= b < flat(done.programs).len() implies at_or_before(
                place(#[trigger] flat(done.programs)[a]),
                place(#[trigger] flat(done.programs)[b]),
            ) by {
                assert(made(done)[a] == flat(done.programs)[a]);
                assert(made(done)[b] == flat(done.programs)[b]);
            }
        }
    }
}

} // verus!
