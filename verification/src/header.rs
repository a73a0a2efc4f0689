//! The state that one compilation shares: macros, the files already read, the
//! extra commands and conditions that are allowed, credits.

use crate::text::str_equal;
use crate::token::{Token, TokenView};
use vstd::prelude::*;

verus! {

/// One piece of a macro's expansion: a token of its own, or the place of the
/// argument with the given index.
#[derive(Debug)]
pub enum MacroPiece {
    Literal(Token),
    Argument(usize),
}

/// A piece of a macro's expansion as a plain value.
pub enum MacroPieceView {
    Literal(TokenView),
    Argument(usize),
}

impl View for MacroPiece {
    type V = MacroPieceView;

    open spec fn view(&self) -> MacroPieceView {
        match self {
            MacroPiece::Literal(token) => MacroPieceView::Literal(token@),
            MacroPiece::Argument(index) => MacroPieceView::Argument(*index),
        }
    }
}

impl Clone for MacroPiece {
    fn clone(&self) -> (r: Self)
        ensures
            r@ == self@,
    {
        match self {
            MacroPiece::Literal(token) => MacroPiece::Literal(token.clone()),
            MacroPiece::Argument(index) => MacroPiece::Argument(*index),
        }
    }
}

/// A user-defined textual substitution: the tokens that take the place of a
/// macro's name, and of its arguments where it has any.
#[derive(Debug)]
pub struct MacroFactory {
    /// The expansion, piece by piece.
    pub template: Vec<MacroPiece>,
    /// The macro length that every token of an expansion carries.
    pub key_length: u32,
}

/// A macro factory as a plain value.
pub struct MacroFactoryView {
    pub template: Seq<MacroPieceView>,
    pub key_length: u32,
}

/// The pieces of a template as plain values.
pub open spec fn piece_views(pieces: Seq<MacroPiece>) -> Seq<MacroPieceView> {
    Seq::new(pieces.len(), |i: int| pieces[i]@)
}

impl View for MacroFactory {
    type V = MacroFactoryView;

    open spec fn view(&self) -> MacroFactoryView {
        MacroFactoryView { template: piece_views(self.template@), key_length: self.key_length }
    }
}

/// `token` as a macro puts it out at (`line`, `col`): kind, text and quote
/// stay, the position is that of the call, the macro length is `key_length`.
pub open spec fn placed(token: TokenView, line: u32, col: u32, key_length: u32) -> TokenView {
    TokenView {
        token_type: token.token_type,
        line,
        col,
        string: token.string,
        macro_length: key_length,
        quote: token.quote,
    }
}

impl MacroFactoryView {
    /// What one piece puts out: its own token, or the argument it stands for;
    /// nothing where there is no argument of that index.
    pub open spec fn piece_output(
        self,
        piece: MacroPieceView,
        arguments: Seq<TokenView>,
        line: u32,
        col: u32,
    ) -> Seq<TokenView> {
        match piece {
            MacroPieceView::Literal(token) => seq![placed(token, line, col, self.key_length)],
            MacroPieceView::Argument(index) => if index < arguments.len() {
                seq![placed(arguments[index as int], line, col, self.key_length)]
            } else {
                Seq::empty()
            },
        }
    }

    /// What the first `n` pieces put out, in order.
    pub open spec fn expand_first(
        self,
        n: nat,
        arguments: Seq<TokenView>,
        line: u32,
        col: u32,
    ) -> Seq<TokenView>
        decreases n,
    {
        if n == 0 || n > self.template.len() {
            Seq::empty()
        } else {
            self.expand_first((n - 1) as nat, arguments, line, col) + self.piece_output(
                self.template[n - 1],
                arguments,
                line,
                col,
            )
        }
    }

    /// The expansion of a call at (`line`, `col`) with the given arguments.
    pub open spec fn expand(self, arguments: Seq<TokenView>, line: u32, col: u32) -> Seq<
        TokenView,
    > {
        self.expand_first(self.template.len(), arguments, line, col)
    }
}

impl Clone for MacroFactory {
    fn clone(&self) -> (r: Self)
        ensures
            r@ == self@,
    {
        let mut template: Vec<MacroPiece> = Vec::new();
        let mut i: usize = 0;
        while i < self.template.len()
            invariant
                i <= self.template.len(),
                template.len() == i,
                forall|j: int| 0 <= j < i ==> (#[trigger] template[j])@ == self.template[j]@,
            decreases self.template.len() - i,
        {
            template.push(self.template[i].clone());
            i += 1;
        }
        assert(piece_views(template@) =~= piece_views(self.template@));
        MacroFactory { template, key_length: self.key_length }
    }
}

impl MacroFactory {
    /// The tokens that take the place of a call at (`line`, `col`) with the
    /// given argument tokens.
    pub fn call(&self, tokens: &Vec<Token>, line: u32, col: u32) -> (out: Vec<Token>)
        ensures
            crate::token::token_views(out@) == self@.expand(
                crate::token::token_views(tokens@),
                line,
                col,
            ),
    {
        let ghost arguments = crate::token::token_views(tokens@);
        let mut out: Vec<Token> = Vec::new();
        let mut i: usize = 0;
        while i < self.template.len()
            invariant
                i <= self.template.len(),
                arguments == crate::token::token_views(tokens@),
                crate::token::token_views(out@) == self@.expand_first(
                    i as nat,
                    arguments,
                    line,
                    col,
                ),
            decreases self.template.len() - i,
        {
            let ghost before = crate::token::token_views(out@);
            match &self.template[i] {
                MacroPiece::Literal(token) => {
                    out.push(
                        Token {
                            token_type: token.token_type,
                            line,
                            col,
                            string: token.string.clone(),
                            _macro_length: self.key_length,
                            quote: token.quote,
                        },
                    );
                },
                MacroPiece::Argument(index) => {
                    if *index < tokens.len() {
                        let token = &tokens[*index];
                        out.push(
                            Token {
                                token_type: token.token_type,
                                line,
                                col,
                                string: token.string.clone(),
                                _macro_length: self.key_length,
                                quote: token.quote,
                            },
                        );
                    }
                },
            }
            assert(crate::token::token_views(out@) =~= before + self@.piece_output(
                self@.template[i as int],
                arguments,
                line,
                col,
            ));
            i += 1;
        }
        out
    }
}

/// One macro of the header: its name, what it expands to, and how many
/// arguments a call of it takes.
#[derive(Debug)]
pub struct MacroEntry {
    pub name: String,
    pub factory: MacroFactory,
    pub arg_count: usize,
}

/// A macro of the header as a plain value.
pub struct MacroEntryView {
    pub name: Seq<char>,
    pub factory: MacroFactoryView,
    pub arg_count: usize,
}

impl View for MacroEntry {
    type V = MacroEntryView;

    open spec fn view(&self) -> MacroEntryView {
        MacroEntryView { name: self.name@, factory: self.factory@, arg_count: self.arg_count }
    }
}

/// The macros of a list as plain values.
pub open spec fn macro_views(macros: Seq<MacroEntry>) -> Seq<MacroEntryView> {
    Seq::new(macros.len(), |i: int| macros[i]@)
}

/// The index of the first macro of the name `name`, or the number of macros
/// where none has it.
pub open spec fn macro_index(macros: Seq<MacroEntryView>, name: Seq<char>) -> int
    decreases macros.len(),
{
    if macros.len() == 0 {
        0
    } else if macros[0].name == name {
        0
    } else {
        1 + macro_index(macros.skip(1), name)
    }
}

/// The macro that the name `name` stands for: the first of that name.
pub open spec fn macro_named(macros: Seq<MacroEntryView>, name: Seq<char>) -> Option<
    MacroEntryView,
> {
    let k = macro_index(macros, name);
    if 0 <= k < macros.len() {
        Some(macros[k])
    } else {
        None
    }
}

pub proof fn lemma_macro_index(macros: Seq<MacroEntryView>, name: Seq<char>)
    ensures
        0 <= macro_index(macros, name) <= macros.len(),
        macro_index(macros, name) < macros.len() ==> macros[macro_index(macros, name)].name
            == name,
        forall|j: int| 0 <= j < macro_index(macros, name) ==> macros[j].name != name,
    decreases macros.len(),
{
    if macros.len() > 0 && macros[0].name != name {
        lemma_macro_index(macros.skip(1), name);
        assert forall|j: int| 0 <= j < macro_index(macros, name) implies macros[j].name
            != name by {
            if j > 0 {
                assert(macros.skip(1)[j - 1] == macros[j]);
            }
        }
    }
}

/// The texts of a list of strings.
pub open spec fn string_views(strings: Seq<String>) -> Seq<Seq<char>> {
    Seq::new(strings.len(), |i: int| strings[i]@)
}

/// Everything that one compilation shares.
#[derive(Debug)]
pub struct HeaderInner {
    /// The files that were read already.
    pub file_read: Vec<String>,
    /// The macros, found by name.
    pub macros: Vec<MacroEntry>,
    /// Texts and the numbers, as text, that take their place in arithmetic.
    pub number_macros: Vec<(String, String)>,
    /// Comments for the end of every function file.
    pub credits: Vec<String>,
    /// Namespaces that the compilation may take over.
    pub namespace_overrides: Vec<String>,
    /// Further commands (first words) that are allowed.
    pub commands: Vec<String>,
    /// Further conditions of `execute if` that are allowed.
    pub conditions: Vec<String>,
    /// Paths that the emitter must leave in place.
    pub statics: Vec<String>,
    /// Commands (first words) that are taken off the allowed ones.
    pub dels: Vec<String>,
    /// When the compilation ended, in seconds since the epoch.
    pub finished_compiled_time: Option<u64>,
    /// Whether the pack's metadata file is left to the user.
    pub nometa: bool,
    /// The directory that diagnostics show file paths relative to.
    pub working_dir: String,
}

impl HeaderInner {
    /// Whether the state is well formed: no file is noted as read twice, and
    /// no two macros have one name.
    pub open spec fn wf(&self) -> bool {
        &&& string_views(self.file_read@).no_duplicates()
        &&& Seq::new(self.macros@.len(), |i: int| self.macros@[i].name@).no_duplicates()
    }

    /// Whether this state differs from `other` in nothing but the files that
    /// are noted as read.
    pub open spec fn same_but_files(&self, other: &HeaderInner) -> bool {
        &&& self.macros == other.macros
        &&& self.working_dir == other.working_dir
        &&& self.number_macros == other.number_macros
        &&& self.credits == other.credits
        &&& self.namespace_overrides == other.namespace_overrides
        &&& self.commands == other.commands
        &&& self.conditions == other.conditions
        &&& self.statics == other.statics
        &&& self.dels == other.dels
        &&& self.finished_compiled_time == other.finished_compiled_time
        &&& self.nometa == other.nometa
    }

    /// Whether `path` is among the files read.
    pub open spec fn has_read(&self, path: Seq<char>) -> bool {
        string_views(self.file_read@).contains(path)
    }

    /// Notes `path` as read. A path that was noted before is not noted again.
    pub fn add_file_read(&mut self, path: String)
        ensures
            old(self).has_read(path@) ==> string_views(final(self).file_read@) == string_views(
                old(self).file_read@,
            ),
            !old(self).has_read(path@) ==> string_views(final(self).file_read@) == string_views(
                old(self).file_read@,
            ).push(path@),
            final(self).has_read(path@),
            old(self).has_read(path@) ==> *final(self) == *old(self),
            final(self).same_but_files(old(self)),
            old(self).wf() ==> final(self).wf(),
    {
        if !self.is_header_already_exist(path.as_str()) {
            let ghost before = string_views(self.file_read@);
            self.file_read.push(path);
            assert(string_views(self.file_read@) =~= before.push(path@));
            assert(string_views(self.file_read@)[before.len() as int] == path@);
            proof {
                if old(self).wf() {
                    assert forall|i: int, j: int|
                        0 <= i < before.len() + 1 && 0 <= j < before.len() + 1 && i
                            != j implies before.push(path@)[i] != before.push(path@)[j] by {
                        if i < before.len() && j < before.len() {
                        } else if i < before.len() {
                            assert(before.contains(before[i]));
                        } else {
                            assert(before.contains(before[j]));
                        }
                    }
                }
            }
        }
    }

    /// Whether `path` is among the files read.
    pub fn is_header_already_exist(&self, path: &str) -> (r: bool)
        ensures
            r == self.has_read(path@),
    {
        let mut i: usize = 0;
        while i < self.file_read.len()
            invariant
                i <= self.file_read.len(),
                forall|j: int| 0 <= j < i ==> string_views(self.file_read@)[j] != path@,
            decreases self.file_read.len() - i,
        {
            if str_equal(self.file_read[i].as_str(), path) {
                assert(string_views(self.file_read@)[i as int] == path@);
                return true;
            }
            i += 1;
        }
        false
    }

    /// The macro that `name` stands for, with its place among the macros.
    pub fn find_macro(&self, name: &str) -> (r: Option<usize>)
        ensures
            match r {
                Some(k) => k < self.macros.len() && macro_named(macro_views(self.macros@), name@)
                    == Some(self.macros[k as int]@),
                None => macro_named(macro_views(self.macros@), name@) is None,
            },
    {
        let ghost views = macro_views(self.macros@);
        let mut i: usize = 0;
        while i < self.macros.len()
            invariant
                i <= self.macros.len(),
                views == macro_views(self.macros@),
                forall|j: int| 0 <= j < i ==> views[j].name != name@,
            decreases self.macros.len() - i,
        {
            if str_equal(self.macros[i].name.as_str(), name) {
                proof {
                    lemma_macro_index(views, name@);
                    let k = macro_index(views, name@);
                    if k < i {
                        assert(views[k].name != name@);
                    } else if k > i {
                        assert(views[i as int].name == name@);
                    }
                }
                return Some(i);
            }
            i += 1;
        }
        proof {
            lemma_macro_index(views, name@);
        }
        None
    }
}

impl HeaderInner {
    /// Whether the state is that of a compilation that has not begun:
    /// nothing is read, defined or allowed beyond what is built in.
    pub open spec fn is_blank(&self) -> bool {
        &&& self.file_read@.len() == 0
        &&& self.macros@.len() == 0
        &&& self.number_macros@.len() == 0
        &&& self.credits@.len() == 0
        &&& self.namespace_overrides@.len() == 0
        &&& self.commands@.len() == 0
        &&& self.conditions@.len() == 0
        &&& self.statics@.len() == 0
        &&& self.dels@.len() == 0
        &&& self.finished_compiled_time is None
        &&& !self.nometa
        &&& self.working_dir@.len() == 0
    }
}

impl Default for HeaderInner {
    fn default() -> (r: Self)
        ensures
            r.is_blank(),
            r.wf(),
    {
        HeaderInner {
            file_read: Vec::new(),
            macros: Vec::new(),
            number_macros: Vec::new(),
            credits: Vec::new(),
            namespace_overrides: Vec::new(),
            commands: Vec::new(),
            conditions: Vec::new(),
            statics: Vec::new(),
            dels: Vec::new(),
            finished_compiled_time: None,
            nometa: false,
            working_dir: String::new(),
        }
    }
}

/// The shared state of a compilation, handed from stage to stage.
#[derive(Debug)]
pub struct Header {
    pub inner: HeaderInner,
}

impl Header {
    /// The shared state, to read.
    pub fn get(&self) -> (r: &HeaderInner)
        ensures
            *r == self.inner,
    {
        &self.inner
    }

    /// The shared state itself.
    pub fn into_inner(self) -> (r: HeaderInner)
        ensures
            r == self.inner,
    {
        self.inner
    }
}

impl Default for Header {
    fn default() -> (r: Self)
        ensures
            r.inner.is_blank(),
            r.inner.wf(),
    {
        Header { inner: HeaderInner::default() }
    }
}

} // verus!
