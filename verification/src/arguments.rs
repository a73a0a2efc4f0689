//! The grammar of an argument list: the tokens between the brackets of a call,
//! split at the commas into arguments by position and arguments by name.

use crate::exception::JMCError;
use crate::grammar::{
    has_key, is_assignment, is_splitter, merge_tokens, merged_text, split_groups, splitters,
    ArgumentsView,
};
use crate::text::{chars_of, extend_str, slice, str_equal, string_of};
use crate::token::{statement_views, token_views, Token, TokenType, TokenView};
use crate::tokenizer::Tokenizer;
use vstd::prelude::*;

verus! {

/// The arguments by name of a list as plain values.
pub open spec fn kwargs_view(kwargs: Seq<(String, Vec<Token>)>) -> Seq<(Seq<char>, Seq<TokenView>)> {
    Seq::new(kwargs.len(), |i: int| (kwargs[i].0@, token_views(kwargs[i].1@)))
}

/// The arguments of a call as plain values.
pub open spec fn arguments_view(arguments: (Vec<Vec<Token>>, Vec<(String, Vec<Token>)>)) -> ArgumentsView {
    ArgumentsView { args: statement_views(arguments.0@), kwargs: kwargs_view(arguments.1@) }
}

/// A copy of a list of tokens.
pub fn clone_tokens(tokens: &Vec<Token>) -> (out: Vec<Token>)
    ensures
        token_views(out@) == token_views(tokens@),
{
    let mut out: Vec<Token> = Vec::new();
    let mut i: usize = 0;
    while i < tokens.len()
        invariant
            i <= tokens.len(),
            out.len() == i,
            forall|j: int| 0 <= j < i ==> (#[trigger] out[j])@ == tokens[j]@,
        decreases tokens.len() - i,
    {
        out.push(tokens[i].clone());
        i += 1;
    }
    assert(token_views(out@) =~= token_views(tokens@));
    out
}

/// The tokens of `tokens` from the index `from` on.
pub fn tokens_from(tokens: &Vec<Token>, from: usize) -> (out: Vec<Token>)
    requires
        from <= tokens.len(),
    ensures
        token_views(out@) == token_views(tokens@).skip(from as int),
{
    let mut out: Vec<Token> = Vec::new();
    let mut i: usize = from;
    while i < tokens.len()
        invariant
            from <= i <= tokens.len(),
            out.len() == i - from,
            forall|j: int| 0 <= j < i - from ==> (#[trigger] out[j])@ == tokens[j + from]@,
        decreases tokens.len() - i,
    {
        out.push(tokens[i].clone());
        i += 1;
    }
    assert(token_views(out@) =~= token_views(tokens@).skip(from as int));
    out
}

impl Tokenizer {
    /// The tokens of one argument as one token: their texts in a row, at the
    /// place of the first, an operator counted as a keyword.
    pub fn merge_tokens(tokens: &Vec<Token>) -> (token: Token)
        ensures
            token@ == merge_tokens(token_views(tokens@)),
    {
        let ghost views = token_views(tokens@);
        let mut text: Vec<char> = Vec::new();
        let mut i: usize = 0;
        while i < tokens.len()
            invariant
                i <= tokens.len(),
                views == token_views(tokens@),
                text@ == merged_text(views.take(i as int)),
            decreases tokens.len() - i,
        {
            assert(views.take(i + 1).drop_last() == views.take(i as int));
            extend_str(&mut text, tokens[i].string.as_str());
            i += 1;
        }
        assert(views.take(tokens.len() as int) == views);
        if tokens.len() == 0 {
            Token {
                token_type: TokenType::Keyword,
                line: 0,
                col: 0,
                string: string_of(&text),
                _macro_length: 0,
                quote: '"',
            }
        } else {
            let first = &tokens[0];
            let token_type = match first.token_type {
                TokenType::Operator => TokenType::Keyword,
                other => other,
            };
            Token {
                token_type,
                line: first.line,
                col: first.col,
                string: string_of(&text),
                _macro_length: 0,
                quote: '"',
            }
        }
    }

    /// Splits a list of tokens at the tokens whose text is `string`: the runs
    /// between them, and the splitting tokens themselves.
    ///
    /// `find_token([a, b, c, d], b.string)` is `([[a], [c, d]], [b])`.
    pub fn find_token(tokens: Vec<Token>, string: &str, allow_string_token: bool) -> (r: (
        Vec<Vec<Token>>,
        Vec<Token>,
    ))
        ensures
            statement_views(r.0@) == split_groups(
                token_views(tokens@),
                string@,
                allow_string_token,
            ),
            token_views(r.1@) == splitters(token_views(tokens@), string@, allow_string_token),
    {
        let ghost views = token_views(tokens@);
        let mut result: Vec<Vec<Token>> = Vec::new();
        let mut token_array: Vec<Token> = Vec::new();
        let mut splitter_array: Vec<Token> = Vec::new();
        let mut i: usize = 0;
        assert(views.take(0) =~= Seq::empty());
        assert(statement_views(result@).push(token_views(token_array@)) =~~= seq![
            Seq::<TokenView>::empty(),
        ]);
        assert(token_views(splitter_array@) =~= Seq::empty());
        while i < tokens.len()
            invariant
                i <= tokens.len(),
                views == token_views(tokens@),
                statement_views(result@).push(token_views(token_array@)) == split_groups(
                    views.take(i as int),
                    string@,
                    allow_string_token,
                ),
                token_views(splitter_array@) == splitters(
                    views.take(i as int),
                    string@,
                    allow_string_token,
                ),
            decreases tokens.len() - i,
        {
            assert(views.take(i + 1).drop_last() == views.take(i as int));
            let ghost before = statement_views(result@);
            let ghost run = token_views(token_array@);
            let ghost split = token_views(splitter_array@);
            let token = tokens[i].clone();
            let same = str_equal(token.string.as_str(), string);
            let is_append_result = same && (allow_string_token || token.token_type
                != TokenType::String);
            assert(is_append_result == is_splitter(views[i as int], string@, allow_string_token));
            if is_append_result {
                splitter_array.push(token);
                let mut finished: Vec<Token> = Vec::new();
                std::mem::swap(&mut token_array, &mut finished);
                result.push(finished);
                assert(token_views(splitter_array@) =~= split.push(views[i as int]));
                assert(statement_views(result@) =~= before.push(run));
                assert(token_views(token_array@) =~= Seq::empty());
            } else {
                token_array.push(token);
                assert(token_views(token_array@) =~= run.push(views[i as int]));
                assert(before.push(run).drop_last() =~= before);
            }
            i += 1;
        }
        assert(views.take(tokens.len() as int) == views);
        let ghost before = statement_views(result@);
        result.push(token_array);
        assert(statement_views(result@) =~= before.push(token_views(token_array@)));
        (result, splitter_array)
    }

    /// One argument, checked.
    ///
    /// * `tokens` - the tokens of the argument, at least one
    /// * `has_kwargs` - whether an argument by name was given before it
    /// * `is_nbt` - whether the list is that of an object, where `:` stands
    ///   between name and value
    pub fn parse_func_arg(&self, tokens: Vec<Token>, has_kwargs: bool, is_nbt: bool) -> (r: Result<
        Vec<Token>,
        JMCError,
    >)
        requires
            tokens.len() > 0,
        ensures
            match self@.parse_func_arg(token_views(tokens@), has_kwargs, is_nbt) {
                Ok(value) => r is Ok && token_views(r->Ok_0@) == value,
                Err(e) => r is Err && r->Err_0@ == e,
            },
    {
        let ghost views = token_views(tokens@);
        assert(forall|j: int| 0 <= j < tokens.len() ==> views[j] == (#[trigger] tokens[j])@);
        if (tokens[0].token_type == TokenType::Keyword || tokens[0].token_type
            == TokenType::Operator) && tokens.len() != 1 {
            return Ok(tokens);
        }
        let where_ = if is_nbt {
            "JSObject/NBT"
        } else {
            "function argument"
        };
        if tokens.len() > 1 {
            if str_equal(tokens[0].string.as_str(), "()") && str_equal(
                tokens[1].string.as_str(),
                "=>",
            ) {
                if tokens.len() < 3 {
                    return Err(
                        self.exception(
                            "Expected curly bracket after '()=>' (got nothing)".to_owned(),
                            Some(&tokens[1]),
                            false,
                            true,
                            false,
                            None,
                        ),
                    );
                }
                if tokens[2].token_type != TokenType::ParenCurly {
                    let mut message = chars_of("Expected curly bracket after '()=>' (got ");
                    extend_str(&mut message, tokens[2].token_type.to_string().as_str());
                    extend_str(&mut message, ")");
                    return Err(
                        self.exception(
                            string_of(&message),
                            Some(&tokens[2]),
                            false,
                            true,
                            false,
                            None,
                        ),
                    );
                }
                if tokens.len() > 3 {
                    return Err(
                        self.exception(
                            "Unexpected token after arrow function '()=>{}'".to_owned(),
                            Some(&tokens[3]),
                            false,
                            true,
                            false,
                            None,
                        ),
                    );
                }
                let body = &tokens[2];
                let all = chars_of(body.string.as_str());
                let inner = if all.len() >= 2 {
                    slice(&all, 1, all.len() - 1)
                } else {
                    Vec::new()
                };
                let mut out: Vec<Token> = Vec::new();
                out.push(
                    Token {
                        token_type: TokenType::Func,
                        line: body.line,
                        col: if body.col < u32::MAX {
                            body.col + 1
                        } else {
                            body.col
                        },
                        string: string_of(&inner),
                        _macro_length: body._macro_length,
                        quote: body.quote,
                    },
                );
                assert(token_views(out@) =~= seq![out[0]@]);
                return Ok(out);
            }
            let mut message = chars_of("Unexpected ");
            extend_str(&mut message, tokens[1].token_type.to_string().as_str());
            extend_str(&mut message, " after ");
            extend_str(&mut message, tokens[0].token_type.to_string().as_str());
            extend_str(&mut message, " in ");
            extend_str(&mut message, where_);
            return Err(
                self.exception(
                    string_of(&message),
                    Some(&tokens[1]),
                    false,
                    true,
                    false,
                    Some("You may have missed a comma".to_owned()),
                ),
            );
        }
        if str_equal(
            tokens[0].string.as_str(),
            if is_nbt {
                ":"
            } else {
                "="
            },
        ) {
            let mut message = chars_of("Empty key in ");
            extend_str(&mut message, where_);
            return Err(
                self.exception(string_of(&message), Some(&tokens[0]), false, true, false, None),
            );
        }
        if has_kwargs {
            return Err(
                self.exception(
                    "Positional argument follows keyword argument".to_owned(),
                    Some(&tokens[0]),
                    false,
                    true,
                    false,
                    Some(
                        "There's no way to tell which value belong to which key, try rearranging arguments. Arguments without '=' should come first.".to_owned(),
                    ),
                ),
            );
        }
        Ok(tokens)
    }

    /// Whether an argument by the name `key` is among `kwargs`.
    fn has_key(kwargs: &Vec<(String, Vec<Token>)>, key: &str) -> (r: bool)
        ensures
            r == has_key(kwargs_view(kwargs@), key@),
    {
        let mut i: usize = 0;
        while i < kwargs.len()
            invariant
                i <= kwargs.len(),
                forall|j: int| 0 <= j < i ==> (#[trigger] kwargs_view(kwargs@)[j]).0 != key@,
            decreases kwargs.len() - i,
        {
            if str_equal(kwargs[i].0.as_str(), key) {
                assert(kwargs_view(kwargs@)[i as int].0 == key@);
                return true;
            }
            i += 1;
        }
        false
    }

    /// The arguments in the statement `keywords`, which is what stood between
    /// the brackets of a call.
    #[verifier::loop_isolation(false)]
    pub fn arguments_of(&self, keywords: Vec<Token>) -> (r: Result<
        (Vec<Vec<Token>>, Vec<(String, Vec<Token>)>),
        JMCError,
    >)
        ensures
            match self@.arguments_of(token_views(keywords@)) {
                Ok(a) => r is Ok && arguments_view(r->Ok_0) == a,
                Err(e) => r is Err && r->Err_0@ == e,
            },
    {
        let mut args: Vec<Vec<Token>> = Vec::new();
        let mut kwargs: Vec<(String, Vec<Token>)> = Vec::new();
        assert(statement_views(args@) =~= Seq::empty());
        assert(kwargs_view(kwargs@) =~= Seq::empty());
        if keywords.len() == 0 {
            return Ok((args, kwargs));
        }
        let ghost keyword_views = token_views(keywords@);
        let (groups, commas) = Self::find_token(keywords, ",", false);
        let ghost group_views = statement_views(groups@);
        let ghost comma_views = token_views(commas@);
        proof {
            lemma_groups_len(keyword_views, ","@, false);
        }
        assert(groups.len() > 0);
        assert(group_views.last() == token_views(groups[groups.len() - 1]@));
        if groups[groups.len() - 1].len() == 0 {
            let comma: Option<&Token> = if commas.len() > 0 {
                assert(comma_views.last() == commas[commas.len() - 1]@);
                Some(&commas[commas.len() - 1])
            } else {
                None
            };
            return Err(
                self.exception(
                    "Unexpected comma at the end of function arguments".to_owned(),
                    comma,
                    false,
                    true,
                    false,
                    None,
                ),
            );
        }
        let ghost start = ArgumentsView { args: Seq::empty(), kwargs: Seq::empty() };
        let mut i: usize = 0;
        while i < groups.len()
            invariant
                i <= groups.len(),
                group_views == statement_views(groups@),
                comma_views == token_views(commas@),
                self@.collect_arguments(group_views, comma_views, 0, start)
                    == self@.collect_arguments(
                    group_views,
                    comma_views,
                    i as int,
                    arguments_view((args, kwargs)),
                ),
            decreases groups.len() - i,
        {
            let ghost sofar = arguments_view((args, kwargs));
            let group = &groups[i];
            assert(group_views[i as int] == token_views(group@));
            let ghost group_view = token_views(group@);
            assert(forall|j: int| 0 <= j < group.len() ==> group_view[j] == (#[trigger] group[j])@);
            if group.len() == 0 {
                let comma: Option<&Token> = if i < commas.len() {
                    assert(comma_views[i as int] == commas[i as int]@);
                    Some(&commas[i])
                } else {
                    None
                };
                return Err(
                    self.exception(
                        "Unexpected comma in function arguments".to_owned(),
                        comma,
                        false,
                        true,
                        false,
                        None,
                    ),
                );
            }
            let is_named = group.len() > 1 && (str_equal(group[1].string.as_str(), "=")
                || str_equal(group[1].string.as_str(), "=+") || str_equal(
                group[1].string.as_str(),
                "=-",
            ));
            assert(is_named == (group_view.len() > 1 && is_assignment(group_view[1].string)));
            if is_named {
                let key = &group[0];
                let equal_token = &group[1];
                let rest = tokens_from(group, 2);
                if rest.len() == 0 {
                    return Err(
                        self.exception(
                            "Expected keyword argument after '=' in function arguments".to_owned(),
                            Some(equal_token),
                            false,
                            true,
                            false,
                            None,
                        ),
                    );
                }
                let mut value = self.parse_func_arg(rest, false, false)?;
                let ghost plain = token_views(value@);
                if !str_equal(equal_token.string.as_str(), "=") {
                    let sign_chars = chars_of(equal_token.string.as_str());
                    proof {
                        reveal_strlit("=+");
                        reveal_strlit("=-");
                    }
                    assert(sign_chars.len() == 2);
                    let sign = if sign_chars.len() >= 1 {
                        slice(&sign_chars, 1, sign_chars.len())
                    } else {
                        Vec::new()
                    };
                    assert(sign@ =~= equal_token@.string.skip(1));
                    let mut signed: Vec<Token> = Vec::new();
                    signed.push(
                        Token {
                            token_type: equal_token.token_type,
                            line: equal_token.line,
                            col: if equal_token.col < u32::MAX {
                                equal_token.col + 1
                            } else {
                                equal_token.col
                            },
                            string: string_of(&sign),
                            _macro_length: equal_token._macro_length,
                            quote: equal_token.quote,
                        },
                    );
                    let ghost head = signed[0]@;
                    signed.append(&mut value);
                    value = signed;
                    assert(token_views(value@) =~= seq![head] + plain);
                }
                if Self::has_key(&kwargs, key.string.as_str()) {
                    let mut message = chars_of("Duplicated key(");
                    extend_str(&mut message, key.string.as_str());
                    extend_str(&mut message, ")");
                    return Err(
                        self.exception(string_of(&message), Some(key), false, true, false, None),
                    );
                }
                let ghost named = kwargs_view(kwargs@);
                kwargs.push((key.string.clone(), value));
                assert(kwargs_view(kwargs@) =~= named.push((key@.string, token_views(value@))));
            } else {
                let copy = clone_tokens(group);
                let value = self.parse_func_arg(copy, kwargs.len() > 0, false)?;
                let ghost placed = statement_views(args@);
                args.push(value);
                assert(statement_views(args@) =~= placed.push(token_views(value@)));
            }
            i += 1;
        }
        Ok((args, kwargs))
    }
}

/// There is one more run than there are splitters.
pub proof fn lemma_groups_len(tokens: Seq<TokenView>, string: Seq<char>, allow_string_token: bool)
    ensures
        split_groups(tokens, string, allow_string_token).len() == splitters(
            tokens,
            string,
            allow_string_token,
        ).len() + 1,
    decreases tokens.len(),
{
    if tokens.len() > 0 {
        lemma_groups_len(tokens.drop_last(), string, allow_string_token);
    }
}

} // verus!
