//! What the lexer hands to the content parser: the statements of a function
//! body, or of a piece of the load function, to be lowered to commands.

use crate::arguments::clone_tokens;
use crate::token::{statement_views, token_views, Token, TokenView};
use crate::tokenizer::{Tokenizer, TokenizerView};
use vstd::prelude::*;

verus! {

/// The statements of one body, with what the content parser needs to lower
/// them and to report failures in them.
#[derive(Debug)]
pub struct FuncContent {
    /// The tokenizer that read the statements.
    pub tokenizer: Tokenizer,
    /// The statements, in the order of the source.
    pub programs: Vec<Vec<Token>>,
    /// Whether the statements belong to the load function.
    pub is_load: bool,
    /// The path of the class that the body stands in, with its `/`.
    pub prefix: String,
}

/// The statements of one body as a plain value.
pub struct FuncContentView {
    pub tokenizer: TokenizerView,
    pub programs: Seq<Seq<TokenView>>,
    pub is_load: bool,
    pub prefix: Seq<char>,
}

impl View for FuncContent {
    type V = FuncContentView;

    open spec fn view(&self) -> FuncContentView {
        FuncContentView {
            tokenizer: self.tokenizer@,
            programs: statement_views(self.programs@),
            is_load: self.is_load,
            prefix: self.prefix@,
        }
    }
}

impl FuncContent {
    pub fn new(tokenizer: Tokenizer, programs: Vec<Vec<Token>>, is_load: bool, prefix: String) -> (r:
        Self)
        ensures
            r@ == (FuncContentView {
                tokenizer: tokenizer@,
                programs: statement_views(programs@),
                is_load,
                prefix: prefix@,
            }),
    {
        FuncContent { tokenizer, programs, is_load, prefix }
    }
}

/// A copy of a list of statements.
pub fn clone_statements(statements: &Vec<Vec<Token>>) -> (out: Vec<Vec<Token>>)
    ensures
        statement_views(out@) == statement_views(statements@),
{
    let mut out: Vec<Vec<Token>> = Vec::new();
    let mut i: usize = 0;
    while i < statements.len()
        invariant
            i <= statements.len(),
            out.len() == i,
            forall|j: int|
                0 <= j < i ==> token_views((#[trigger] out[j])@) == token_views(statements[j]@),
        decreases statements.len() - i,
    {
        out.push(clone_tokens(&statements[i]));
        i += 1;
    }
    assert(statement_views(out@) =~= statement_views(statements@));
    out
}

} // verus!
