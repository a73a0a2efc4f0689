//! A string literal that is written back is read as itself.

use crate::grammar::bump;
use crate::header::MacroEntryView;
use crate::token::{escaped, escaped_text, quoted, suited_quote, TokenType, TokenView};
use crate::tokenizer::{escape_of, StateType, TokenizerView};
use vstd::prelude::*;

verus! {

/// The column `k` characters behind the column `col`.
pub open spec fn bump_by(col: u32, k: nat) -> u32
    decreases k,
{
    if k == 0 {
        col
    } else {
        bump(bump_by(col, (k - 1) as nat))
    }
}

proof fn lemma_bump_by(col: u32, j: nat, k: nat)
    ensures
        bump_by(bump_by(col, j), k) == bump_by(col, j + k),
    decreases k,
{
    if k > 0 {
        lemma_bump_by(col, j, (k - 1) as nat);
    }
}

proof fn lemma_escaped_text_concat(a: Seq<char>, b: Seq<char>, quote: char)
    ensures
        escaped_text(a + b, quote) == escaped_text(a, quote) + escaped_text(b, quote),
    decreases b.len(),
{
    if b.len() == 0 {
        assert(a + b =~= a);
        assert(escaped_text(a, quote) + escaped_text(b, quote) =~= escaped_text(a, quote));
    } else {
        lemma_escaped_text_concat(a, b.drop_last(), quote);
        assert((a + b).drop_last() =~= a + b.drop_last());
        assert((a + b).last() == b.last());
        assert(escaped_text(a, quote) + (escaped_text(b.drop_last(), quote) + escaped(
            b.last(),
            quote,
        )) =~= (escaped_text(a, quote) + escaped_text(b.drop_last(), quote)) + escaped(
            b.last(),
            quote,
        ));
    }
}

proof fn lemma_escaped_text_first(c: Seq<char>, quote: char)
    requires
        c.len() > 0,
    ensures
        escaped_text(c, quote) == escaped(c[0], quote) + escaped_text(c.skip(1), quote),
{
    let head = seq![c[0]];
    assert(c =~= head + c.skip(1));
    lemma_escaped_text_concat(head, c.skip(1), quote);
    assert(head.drop_last() =~= Seq::<char>::empty());
    assert(head.last() == c[0]);
    assert(escaped_text(Seq::<char>::empty(), quote) =~= Seq::<char>::empty());
    assert(escaped_text(head, quote) =~= escaped(c[0], quote));
}

/// Inside a string literal, a move at anything but a line feed is the move
/// of the literal.
proof fn lemma_step_in_literal(
    s: TokenizerView,
    ch: char,
    next: Option<char>,
    expect_semicolon: bool,
    macros: Seq<MacroEntryView>,
    bound: nat,
)
    requires
        s.state == StateType::String,
        ch != '\n',
    ensures
        s.step(ch, next, expect_semicolon, macros, bound) == s.advance().parse_string(
            ch,
            next,
            macros,
            bound,
        ),
{
    let a = s.advance();
    assert(a.read(ch, next, expect_semicolon, macros, bound) == a.dispatch(
        ch,
        next,
        expect_semicolon,
        macros,
        bound,
    ));
}

/// Inside a string literal, the tokenizer reads the written form of one
/// character back as that character.
proof fn lemma_literal_char(
    s: TokenizerView,
    c0: char,
    q: char,
    next: Option<char>,
    expect_semicolon: bool,
    macros: Seq<MacroEntryView>,
    bound: nat,
)
    requires
        s.state == StateType::String,
        s.quote == Some(q),
        q == '\'' || q == '"',
        escaped(c0, q).len() == 2 ==> next == Some(escaped(c0, q)[1]),
    ensures
        s.step(escaped(c0, q)[0], next, expect_semicolon, macros, bound) == Ok::<
            (TokenizerView, bool),
            crate::exception::JMCErrorView,
        >(
            (
                TokenizerView {
                    token_str: s.token_str.push(c0),
                    col: bump_by(s.col, escaped(c0, q).len()),
                    ..s
                },
                escaped(c0, q).len() == 2,
            ),
        ),
{
    let first = escaped(c0, q);
    let ch = first[0];
    let a = s.advance();
    assert(bump_by(s.col, 1) == bump(s.col)) by {
        assert(bump_by(s.col, 0) == s.col);
    }
    assert(bump_by(s.col, 2) == bump(bump(s.col)));
    lemma_step_in_literal(s, ch, next, expect_semicolon, macros, bound);
    if first.len() == 2 {
        assert(ch == '\\');
        assert(escape_of(first[1]) == Ok::<char, ()>(c0));
    } else {
        assert(first == seq![c0]);
        assert(ch == c0);
        assert(Some(ch) != a.quote);
    }
}

/// A run goes on behind a move as the run of the state that the move leaves.
proof fn lemma_run_behind_move(
    s: TokenizerView,
    input: Seq<char>,
    i: int,
    expect_semicolon: bool,
    macros: Seq<MacroEntryView>,
    t: TokenizerView,
    both: bool,
)
    requires
        0 <= i < input.len(),
        both ==> i + 1 < input.len(),
        s.step(
            input[i],
            if i + 1 < input.len() {
                Some(input[i + 1])
            } else {
                None
            },
            expect_semicolon,
            macros,
            input.len(),
        ) == Ok::<(TokenizerView, bool), crate::exception::JMCErrorView>((t, both)),
    ensures
        s.parse_chars(input, i, expect_semicolon, macros) == t.parse_chars(
            input,
            if both {
                i + 2
            } else {
                i + 1
            },
            expect_semicolon,
            macros,
        ),
{
}

/// Inside a string literal, the tokenizer reads the written form of a
/// content back as that content.
#[verifier::rlimit(60)]
proof fn lemma_literal_body(
    s: TokenizerView,
    input: Seq<char>,
    i: int,
    c: Seq<char>,
    q: char,
    expect_semicolon: bool,
    macros: Seq<MacroEntryView>,
)
    requires
        s.state == StateType::String,
        s.quote == Some(q),
        q == '\'' || q == '"',
        0 <= i,
        i + escaped_text(c, q).len() <= input.len(),
        input.subrange(i, i + escaped_text(c, q).len()) == escaped_text(c, q),
    ensures
        s.parse_chars(input, i, expect_semicolon, macros) == (TokenizerView {
            token_str: s.token_str + c,
            col: bump_by(s.col, escaped_text(c, q).len()),
            ..s
        }).parse_chars(input, i + escaped_text(c, q).len(), expect_semicolon, macros),
    decreases c.len(),
{
    let e = escaped_text(c, q);
    if c.len() == 0 {
        assert(s.token_str + c =~= s.token_str);
    } else {
        lemma_escaped_text_first(c, q);
        let first = escaped(c[0], q);
        let rest = escaped_text(c.skip(1), q);
        assert(forall|j: int| 0 <= j < e.len() ==> input[i + j] == #[trigger] e[j]) by {
            assert forall|j: int| 0 <= j < e.len() implies input[i + j] == #[trigger] e[j] by {
                assert(input.subrange(i, i + e.len())[j] == input[i + j]);
            }
        }
        assert(input[i] == e[0]);
        assert(e[0] == first[0]);
        let next = if i + 1 < input.len() {
            Some(input[i + 1])
        } else {
            None
        };
        let after = TokenizerView {
            token_str: s.token_str.push(c[0]),
            col: bump_by(s.col, first.len()),
            ..s
        };
        if first.len() == 2 {
            assert(input[i + 1] == e[1]);
            assert(e[1] == first[1]);
        }
        lemma_literal_char(s, c[0], q, next, expect_semicolon, macros, input.len());
        lemma_run_behind_move(s, input, i, expect_semicolon, macros, after, first.len() == 2);
        let j = i + first.len();
        assert(s.parse_chars(input, i, expect_semicolon, macros) == after.parse_chars(
            input,
            j,
            expect_semicolon,
            macros,
        ));
        assert(input.subrange(j, j + rest.len()) =~= rest) by {
            assert forall|k: int| 0 <= k < rest.len() implies input.subrange(j, j + rest.len())[k]
                == rest[k] by {
                assert(e[first.len() + k] == rest[k]);
            }
        }
        lemma_literal_body(after, input, j, c.skip(1), q, expect_semicolon, macros);
        lemma_bump_by(s.col, first.len(), rest.len());
        assert(after.token_str + c.skip(1) =~= s.token_str + c);
    }
}

/// A string literal that is written as `full_string` gives it is read back
/// as itself: the tokenizer, before its first character, makes of that text
/// and a semicolon one statement of one token, a string literal with the
/// same content.
pub proof fn lemma_string_round_trip(
    token: TokenView,
    start: TokenizerView,
    macros: Seq<MacroEntryView>,
)
    requires
        token.token_type == TokenType::String,
        start == TokenizerView::fresh(
            start.raw_string,
            start.file_path_str,
            start.file_string,
            start.working_dir,
            start.allow_semicolon,
        ),
    ensures
        ({
            let read = start.parse(token.full_string().push(';'), true, false, macros);
            &&& read is Ok
            &&& read->Ok_0.programs == seq![
                seq![
                    TokenView {
                        token_type: TokenType::String,
                        line: 1,
                        col: 1,
                        string: token.string,
                        macro_length: 0,
                        quote: suited_quote(token.string, '\''),
                    },
                ],
            ]
        }),
{
    let c = token.string;
    let q = suited_quote(c, '\'');
    let e = escaped_text(c, q);
    let text = token.full_string().push(';');
    let n = e.len() as int;
    assert(token.full_string() == quoted(c, q));
    assert(text =~= seq![q] + e + seq![q, ';']);
    assert(text.len() == n + 3);
    assert(text[0] == q);
    assert(text[n + 1] == q);
    assert(text[n + 2] == ';');
    let expect = true;
    // the opening quote
    let s1 = TokenizerView { quote: Some(q), ..start.advance().begin(StateType::String) };
    assert(start.step(text[0], Some(text[1]), expect, macros, text.len()) == Ok::<
        (TokenizerView, bool),
        crate::exception::JMCErrorView,
    >((s1, false)));
    assert(start.parse_chars(text, 0, expect, macros) == s1.parse_chars(text, 1, expect, macros));
    // the content
    assert(text.subrange(1, 1 + n) =~= e);
    lemma_literal_body(s1, text, 1, c, q, expect, macros);
    let s2 = TokenizerView { token_str: s1.token_str + c, col: bump_by(s1.col, e.len()), ..s1 };
    assert(s1.token_str + c =~= c);
    // the closing quote
    let found = TokenView {
        token_type: TokenType::String,
        line: 1,
        col: 1,
        string: c,
        macro_length: 0,
        quote: q,
    };
    let a2 = s2.advance();
    assert(a2.current_token() == found);
    let s3 = a2.taken().add(seq![found]).idle();
    assert(a2.append_token(macros, text.len()) == Ok::<
        TokenizerView,
        crate::exception::JMCErrorView,
    >(s3));
    assert(s2.step(text[n + 1], Some(text[n + 2]), expect, macros, text.len()) == Ok::<
        (TokenizerView, bool),
        crate::exception::JMCErrorView,
    >((s3, false)));
    assert(s2.parse_chars(text, n + 1, expect, macros) == s3.parse_chars(
        text,
        n + 2,
        expect,
        macros,
    ));
    // the semicolon
    let a3 = s3.advance();
    assert(a3.keywords =~= seq![found]);
    let s4 = TokenizerView { programs: a3.programs.push(a3.keywords), keywords: Seq::empty(), ..a3 };
    assert(a3.append_keywords() == Ok::<TokenizerView, crate::exception::JMCErrorView>(s4));
    assert(s3.step(text[n + 2], None, expect, macros, text.len()) == Ok::<
        (TokenizerView, bool),
        crate::exception::JMCErrorView,
    >((s4, false)));
    assert(s3.parse_chars(text, n + 2, expect, macros) == s4.parse_chars(
        text,
        n + 3,
        expect,
        macros,
    ));
    assert(s4.parse_chars(text, n + 3, expect, macros) == Ok::<
        TokenizerView,
        crate::exception::JMCErrorView,
    >(s4));
    assert(s4.finish(expect, false, macros, text.len()) == Ok::<
        TokenizerView,
        crate::exception::JMCErrorView,
    >(s4));
    assert(s4.programs =~= seq![seq![found]]);
}

} // verus!
