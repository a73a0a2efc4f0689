//! Decorators: what an `@name` before a function definition stands for.

use crate::exception::JMCError;
use crate::grammar::ArgumentsView;
use crate::header::{macro_views, Header};
use crate::token::{Token, TokenType};
use crate::tokenizer::Tokenizer;
use vstd::prelude::*;

verus! {

/// What a decorator does with the function that it stands before.
#[derive(Clone, Copy, Debug, PartialEq, Eq, Structural)]
pub enum ModifyMcFunction {
    /// The function joins the datapack.
    Save,
    /// The function is kept out of the datapack.
    NoSave,
}

impl ModifyMcFunction {
    pub fn is_save(&self) -> (r: bool)
        ensures
            r == (*self == ModifyMcFunction::Save),
    {
        match self {
            ModifyMcFunction::Save => true,
            ModifyMcFunction::NoSave => false,
        }
    }
}

/// A decorator: what it does with its function, and the arguments of one
/// use of it.
#[derive(Debug)]
pub struct JMCDecorator {
    pub modify_mcfunction: ModifyMcFunction,
    /// The arguments by position.
    pub args: Vec<Vec<Token>>,
    /// The arguments by name.
    pub kwargs: Vec<(String, Vec<Token>)>,
    /// The path of the class that the function is defined in, with its `/`.
    pub prefix: String,
}

/// A decorator as a plain value.
pub struct JMCDecoratorView {
    pub modify_mcfunction: ModifyMcFunction,
    pub arguments: ArgumentsView,
    pub prefix: Seq<char>,
}

impl View for JMCDecorator {
    type V = JMCDecoratorView;

    open spec fn view(&self) -> JMCDecoratorView {
        JMCDecoratorView {
            modify_mcfunction: self.modify_mcfunction,
            arguments: ArgumentsView {
                args: crate::token::statement_views(self.args@),
                kwargs: crate::arguments::kwargs_view(self.kwargs@),
            },
            prefix: self.prefix@,
        }
    }
}

impl JMCDecorator {
    /// The decorator that does `modify_mcfunction`, before any use.
    pub fn new(modify_mcfunction: ModifyMcFunction) -> (r: Self)
        ensures
            r@ == (JMCDecoratorView {
                modify_mcfunction,
                arguments: ArgumentsView { args: Seq::empty(), kwargs: Seq::empty() },
                prefix: Seq::empty(),
            }),
    {
        let r = JMCDecorator {
            modify_mcfunction,
            args: Vec::new(),
            kwargs: Vec::new(),
            prefix: String::new(),
        };
        assert(r@.arguments.args =~= Seq::empty());
        assert(r@.arguments.kwargs =~= Seq::empty());
        r
    }

    /// One use of the decorator, in the class `prefix`, with the arguments
    /// in the round bracket `arg_token`: none without a bracket.
    pub fn call(
        &self,
        header: &Header,
        tokenizer: &Tokenizer,
        prefix: &str,
        arg_token: Option<Token>,
    ) -> (r: Result<Self, JMCError>)
        ensures
            match arg_token {
                None => r is Ok && r->Ok_0@ == (JMCDecoratorView {
                    modify_mcfunction: self.modify_mcfunction,
                    arguments: ArgumentsView { args: Seq::empty(), kwargs: Seq::empty() },
                    prefix: prefix@,
                }),
                Some(token) => match tokenizer@.sub().parse_func_args(
                    token@,
                    TokenType::ParenRound,
                    macro_views(header.inner.macros@),
                    token@.string.len() + 1,
                ) {
                    Ok(a) => r is Ok && r->Ok_0@ == (JMCDecoratorView {
                        modify_mcfunction: self.modify_mcfunction,
                        arguments: a,
                        prefix: prefix@,
                    }),
                    Err(e) => r is Err && r->Err_0@ == e,
                },
            },
    {
        match arg_token {
            None => {
                let r = JMCDecorator {
                    modify_mcfunction: self.modify_mcfunction,
                    args: Vec::new(),
                    kwargs: Vec::new(),
                    prefix: prefix.to_owned(),
                };
                assert(r@.arguments.args =~= Seq::empty());
                assert(r@.arguments.kwargs =~= Seq::empty());
                Ok(r)
            },
            Some(token) => {
                let mut sub = tokenizer.clone();
                let (args, kwargs) = sub.parse_func_args_round(header, &token)?;
                Ok(
                    JMCDecorator {
                        modify_mcfunction: self.modify_mcfunction,
                        args,
                        kwargs,
                        prefix: prefix.to_owned(),
                    },
                )
            },
        }
    }

    pub fn is_save_to_datapack(&self) -> (r: bool)
        ensures
            r == (self.modify_mcfunction == ModifyMcFunction::Save),
    {
        self.modify_mcfunction.is_save()
    }
}

} // verus!
