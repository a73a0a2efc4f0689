//! The lexer: it works through the statements of source files, recognises
//! the top-level forms, and asks its driver for what it cannot do itself:
//! to read a file, to list a directory, to lower statements to commands.

use crate::arguments::{clone_tokens, tokens_from};
use crate::configuration::{Configuration, ConfigurationView};
use crate::datapack::{Datapack, DatapackView, DefinedPos, McFunction, PreMcFunction, PreMcFunctionView};
use crate::decorator_parse::{JMCDecorator, JMCDecoratorView, ModifyMcFunction};
use crate::exception::{text_view, JMCError, JMCErrorType, JMCErrorView};
use crate::foreign::json_fault_of;
use crate::forms::{
    class_body, decorated, decorator_named, func_tokens, function_body, import_path, import_target,
    is_json_type, is_vanilla_func, json_type_of, parent_dir, path_pairs, resource, ClassBodyView,
    ImportView,
};
use crate::grammar::is_decorator_name;
use crate::header::{macro_views, string_views, Header, MacroEntryView};
use crate::lexer_func_content::{clone_statements, FuncContent, FuncContentView};
use crate::text::{
    after_last_of, chars_of, decimal_of, extend, extend_str, has_prefix, has_suffix,
    lemma_position_is, slice, str_equal, string_of,
};
use crate::token::{statement_views, token_views, Token, TokenType, TokenView};
use crate::tokenizer::{Tokenizer, TokenizerView};
use crate::utils::{convention_jmc_to_mc, is_decorator};
use vstd::prelude::*;

verus! {

/// A source whose statements the lexer is working through: a file, or the
/// body of a class.
#[derive(Debug)]
pub struct Frame {
    /// The tokenizer that read the statements.
    pub tokenizer: Tokenizer,
    /// The statements, in the order of the source.
    pub statements: Vec<Vec<Token>>,
    /// The index of the statement that comes next.
    pub next: usize,
    /// The path of the source file.
    pub file_path: String,
    /// The path of the class, with its `/`; empty outside a class.
    pub prefix: String,
    /// Whether the statements are the body of a class.
    pub in_class: bool,
    /// Whether the file is the one that the compilation began with.
    pub is_load: bool,
}

/// A source that is being worked through, as a plain value.
pub struct FrameView {
    pub tokenizer: TokenizerView,
    pub statements: Seq<Seq<TokenView>>,
    pub next: int,
    pub file_path: Seq<char>,
    pub prefix: Seq<char>,
    pub in_class: bool,
    pub is_load: bool,
}

impl View for Frame {
    type V = FrameView;

    open spec fn view(&self) -> FrameView {
        FrameView {
            tokenizer: self.tokenizer@,
            statements: statement_views(self.statements@),
            next: self.next as int,
            file_path: self.file_path@,
            prefix: self.prefix@,
            in_class: self.in_class,
            is_load: self.is_load,
        }
    }
}

/// What the lexer has still to work through.
#[derive(Debug)]
pub enum Work {
    /// The statements of a source.
    Statements(Frame),
    /// The files of an imported directory, with the index of the next one.
    Files(Vec<String>, usize),
}

/// A piece of work as a plain value.
pub enum WorkView {
    Statements(FrameView),
    Files(Seq<Seq<char>>, int),
}

impl View for Work {
    type V = WorkView;

    open spec fn view(&self) -> WorkView {
        match self {
            Work::Statements(frame) => WorkView::Statements(frame@),
            Work::Files(paths, next) => WorkView::Files(string_views(paths@), *next as int),
        }
    }
}

/// The pieces of work of a list as plain values.
pub open spec fn work_views(work: Seq<Work>) -> Seq<WorkView> {
    Seq::new(work.len(), |i: int| work[i]@)
}

/// What the commands that the lexer waits for are for.
#[derive(Debug)]
pub enum Pending {
    /// They belong to the load function.
    Load,
    /// They are the function of this path.
    Function(String),
}

/// What awaited commands are for, as a plain value.
pub enum PendingView {
    Load,
    Function(Seq<char>),
}

impl View for Pending {
    type V = PendingView;

    open spec fn view(&self) -> PendingView {
        match self {
            Pending::Load => PendingView::Load,
            Pending::Function(path) => PendingView::Function(path@),
        }
    }
}

/// What the lexer asks of its driver.
#[derive(Debug)]
pub enum LexerRequest {
    /// Lower these statements to commands, and hand the commands over with
    /// `Lexer::supply_commands`.
    Content(FuncContent),
    /// Let this decorator work on this function, and hand the function
    /// back with `Lexer::decorated`.
    Decorated(JMCDecorator, PreMcFunction),
    /// Read the file of this path, and hand its text over with
    /// `Lexer::parse_file`.
    File(String),
    /// List the source files below this directory, and hand the list over
    /// with `Lexer::import_all`.
    Directory(String),
    /// Nothing is asked; there is more to do.
    Again,
    /// Nothing is left to do.
    Done,
}

/// A request as a plain value.
pub enum LexerRequestView {
    Content(FuncContentView),
    Decorated(JMCDecoratorView, PreMcFunctionView),
    File(Seq<char>),
    Directory(Seq<char>),
    Again,
    Done,
}

impl View for LexerRequest {
    type V = LexerRequestView;

    open spec fn view(&self) -> LexerRequestView {
        match self {
            LexerRequest::Content(content) => LexerRequestView::Content(content@),
            LexerRequest::Decorated(decorator, function) => LexerRequestView::Decorated(
                decorator@,
                function@,
            ),
            LexerRequest::File(path) => LexerRequestView::File(path@),
            LexerRequest::Directory(path) => LexerRequestView::Directory(path@),
            LexerRequest::Again => LexerRequestView::Again,
            LexerRequest::Done => LexerRequestView::Done,
        }
    }
}

/// What a statement leaves the lexer to do.
#[derive(Debug)]
pub enum Outcome {
    /// To ask this of the driver.
    Ask(LexerRequest),
    /// To work through this source next.
    Enter(Frame),
}

/// What a statement leaves to do, as a plain value.
pub enum OutcomeView {
    Ask(LexerRequestView),
    Enter(FrameView),
}

impl View for Outcome {
    type V = OutcomeView;

    open spec fn view(&self) -> OutcomeView {
        match self {
            Outcome::Ask(request) => OutcomeView::Ask(request@),
            Outcome::Enter(frame) => OutcomeView::Enter(frame@),
        }
    }
}

/// The body of a class.
#[derive(Debug)]
pub struct ClassBody {
    pub class_path: String,
    pub content: String,
    pub line: u32,
    pub col: u32,
}

impl View for ClassBody {
    type V = ClassBodyView;

    open spec fn view(&self) -> ClassBodyView {
        ClassBodyView {
            class_path: self.class_path@,
            content: self.content@,
            line: self.line,
            col: self.col,
        }
    }
}

/// What an import asks for.
#[derive(Debug)]
pub enum ImportTarget {
    File(String),
    Directory(String),
}

impl View for ImportTarget {
    type V = ImportView;

    open spec fn view(&self) -> ImportView {
        match self {
            ImportTarget::File(path) => ImportView::File(path@),
            ImportTarget::Directory(path) => ImportView::Directory(path@),
        }
    }
}

/// The lexer: one compilation, from its first file to the datapack.
#[derive(Debug)]
pub struct Lexer {
    pub config: Configuration,
    pub datapack: Datapack,
    /// The state that the compilation shares.
    pub header: Header,
    /// The decorators that the source may use, by name.
    pub decorators: Vec<(String, ModifyMcFunction)>,
    /// What is still to be worked through; the last piece comes first.
    pub work: Vec<Work>,
    /// What the commands that the lexer waits for are for.
    pub pending: Option<Pending>,
    /// The statements of the load function that were read and not yet handed
    /// to the content parser.
    pub load_function: Vec<Vec<Token>>,
}

/// A lexer as a plain value.
pub struct LexerView {
    pub config: ConfigurationView,
    pub datapack: DatapackView,
    pub file_read: Seq<Seq<char>>,
    pub macros: Seq<MacroEntryView>,
    pub working_dir: Seq<char>,
    pub decorators: Seq<(Seq<char>, ModifyMcFunction)>,
    pub work: Seq<WorkView>,
    pub pending: Option<PendingView>,
    pub load_function: Seq<Seq<TokenView>>,
}

/// The decorators of a list as plain values.
pub open spec fn decorator_views(decorators: Seq<(String, ModifyMcFunction)>) -> Seq<
    (Seq<char>, ModifyMcFunction),
> {
    Seq::new(decorators.len(), |i: int| (decorators[i].0@, decorators[i].1))
}

impl View for Lexer {
    type V = LexerView;

    open spec fn view(&self) -> LexerView {
        LexerView {
            config: self.config@,
            datapack: self.datapack@,
            file_read: string_views(self.header.inner.file_read@),
            macros: macro_views(self.header.inner.macros@),
            working_dir: self.header.inner.working_dir@,
            decorators: decorator_views(self.decorators@),
            work: work_views(self.work@),
            pending: match self.pending {
                Some(pending) => Some(pending@),
                None => None,
            },
            load_function: statement_views(self.load_function@),
        }
    }
}

impl LexerView {
    /// Whether the lexer is well formed: its datapack is, and no file is
    /// noted as read twice.
    pub open spec fn wf(self) -> bool {
        self.datapack.wf() && self.file_read.no_duplicates()
    }

    /// The statements of the body of `function` are asked to be lowered; the
    /// commands that come back are the function.
    pub open spec fn define(self, function: PreMcFunctionView) -> Result<
        (LexerView, LexerRequestView),
        JMCErrorView,
    > {
        match function_body(function, self.working_dir, self.macros) {
            Err(e) => Err(e),
            Ok(content) => Ok(
                (
                    LexerView {
                        pending: Some(PendingView::Function(function.func_path)),
                        ..self
                    },
                    LexerRequestView::Content(content),
                ),
            ),
        }
    }

    /// The statement `command` defines a function: its definition goes on
    /// record, and its body is asked to be lowered.
    pub open spec fn define_function(self, frame: FrameView, command: Seq<TokenView>) -> Result<
        (LexerView, OutcomeView),
        JMCErrorView,
    > {
        match func_tokens(
            self.config,
            self.datapack,
            frame.tokenizer,
            command,
            frame.file_path,
            frame.prefix,
            true,
        ) {
            Err(e) => Err(e),
            Ok((recorded, function)) => match (LexerView { datapack: recorded, ..self }).define(
                function,
            ) {
                Err(e) => Err(e),
                Ok((after, request)) => Ok((after, OutcomeView::Ask(request))),
            },
        }
    }

    /// The statement `command` defines a resource, which joins the datapack.
    pub open spec fn new_resource(self, frame: FrameView, command: Seq<TokenView>) -> Result<
        (LexerView, OutcomeView),
        JMCErrorView,
    > {
        match resource(self.datapack, frame.tokenizer, command, frame.prefix) {
            Err(e) => Err(e),
            Ok(datapack) => Ok(
                (LexerView { datapack, ..self }, OutcomeView::Ask(LexerRequestView::Again)),
            ),
        }
    }

    /// The statement `command` opens a class: its body is tokenized from the
    /// place of its opening curly bracket on, and is the source to enter.
    pub open spec fn open_class(self, frame: FrameView, command: Seq<TokenView>) -> Result<
        (LexerView, OutcomeView),
        JMCErrorView,
    > {
        match class_body(frame.tokenizer, command, frame.prefix) {
            Err(e) => Err(e),
            Ok(body) => match TokenizerView::fresh_at(
                body.content,
                frame.file_path,
                Some(frame.tokenizer.file_text()),
                self.working_dir,
                false,
                body.line,
                body.col,
            ).parse(body.content, true, false, self.macros) {
                Err(e) => Err(e),
                Ok(s) => Ok(
                    (
                        self,
                        OutcomeView::Enter(
                            FrameView {
                                tokenizer: s,
                                statements: s.programs,
                                next: 0,
                                file_path: frame.file_path,
                                prefix: body.class_path,
                                in_class: true,
                                is_load: false,
                            },
                        ),
                    ),
                ),
            },
        }
    }

    /// The statement `command` imports: a file or a directory is asked for.
    /// In a class that is refused.
    pub open spec fn import(self, frame: FrameView, command: Seq<TokenView>) -> Result<
        (LexerView, OutcomeView),
        JMCErrorView,
    > {
        if frame.in_class {
            Err(
                crate::forms::refuse(
                    frame.tokenizer,
                    "Importing is not supported in class"@,
                    command[0],
                    false,
                    true,
                ),
            )
        } else {
            match import_target(frame.tokenizer, command, frame.file_path) {
                Err(e) => Err(e),
                Ok(ImportView::File(path)) => Ok(
                    (self, OutcomeView::Ask(LexerRequestView::File(path))),
                ),
                Ok(ImportView::Directory(path)) => Ok(
                    (self, OutcomeView::Ask(LexerRequestView::Directory(path))),
                ),
            }
        }
    }

    /// The statement `command` defines a decorated function: its definition
    /// goes on record, and the decorator is asked to work on it.
    pub open spec fn decorate(self, frame: FrameView, command: Seq<TokenView>) -> Result<
        (LexerView, OutcomeView),
        JMCErrorView,
    > {
        match decorated(
            self.config,
            self.datapack,
            self.decorators,
            self.macros,
            frame.tokenizer,
            command,
            frame.file_path,
            frame.prefix,
        ) {
            Err(e) => Err(e),
            Ok((recorded, decorator, function)) => Ok(
                (
                    LexerView { datapack: recorded, ..self },
                    OutcomeView::Ask(LexerRequestView::Decorated(decorator, function)),
                ),
            ),
        }
    }

    /// The statement `command` is none of the forms: in a class it is
    /// refused; elsewhere it belongs to the load function, and is asked to
    /// be lowered at once, with the statements that waited for that.
    pub open spec fn load_statement(self, frame: FrameView, command: Seq<TokenView>) -> Result<
        (LexerView, OutcomeView),
        JMCErrorView,
    > {
        if frame.in_class {
            Err(
                crate::forms::refuse(
                    frame.tokenizer,
                    "Expected 'function' or 'new' or 'class' (got "@ + command[0].string + ")"@,
                    command[0],
                    false,
                    true,
                ),
            )
        } else {
            Ok(
                (
                    LexerView {
                        pending: Some(PendingView::Load),
                        load_function: Seq::empty(),
                        ..self
                    },
                    OutcomeView::Ask(
                        LexerRequestView::Content(
                            FuncContentView {
                                tokenizer: frame.tokenizer.sub(),
                                programs: self.load_function.push(command),
                                is_load: true,
                                prefix: Seq::empty(),
                            },
                        ),
                    ),
                ),
            )
        }
    }

    /// What the lexer makes of the statement `command` of the source `frame`.
    ///
    /// The first token decides: `function` defines a function, unless the
    /// statement calls one of the game outside a class; `new` defines a
    /// resource; `class` opens a class; `import` imports; a decorator's name
    /// defines a decorated function. Any other statement belongs to the
    /// load function. A statement without a token is passed over.
    pub open spec fn dispatch(self, frame: FrameView, command: Seq<TokenView>) -> Result<
        (LexerView, OutcomeView),
        JMCErrorView,
    > {
        let word = command[0].string;
        if command.len() == 0 {
            Ok((self, OutcomeView::Ask(LexerRequestView::Again)))
        } else if word == "function"@ && (frame.in_class || !is_vanilla_func(command)) {
            self.define_function(frame, command)
        } else if word == "new"@ {
            self.new_resource(frame, command)
        } else if word == "class"@ {
            self.open_class(frame, command)
        } else if word == "import"@ {
            self.import(frame, command)
        } else if is_decorator_name(word) {
            self.decorate(frame, command)
        } else {
            self.load_statement(frame, command)
        }
    }

    /// One step of the lexer: it takes the next statement of the source
    /// that it is working through and does what `dispatch` says, or takes
    /// the next file of an imported directory and asks for it. A source that
    /// the statement opens is worked through next. A source without a
    /// statement left, and a directory without a file left, is done with.
    /// Without any work left the lexer is done.
    pub open spec fn step(self) -> Result<(LexerView, LexerRequestView), JMCErrorView> {
        if self.work.len() == 0 {
            Ok((self, LexerRequestView::Done))
        } else {
            let rest = LexerView { work: self.work.drop_last(), ..self };
            match self.work.last() {
                WorkView::Files(paths, next) => if 0 <= next < paths.len() {
                    Ok(
                        (
                            LexerView {
                                work: rest.work.push(WorkView::Files(paths, next + 1)),
                                ..rest
                            },
                            LexerRequestView::File(paths[next]),
                        ),
                    )
                } else {
                    Ok((rest, LexerRequestView::Again))
                },
                WorkView::Statements(frame) => if 0 <= frame.next < frame.statements.len() {
                    let left = WorkView::Statements(FrameView { next: frame.next + 1, ..frame });
                    match rest.dispatch(frame, frame.statements[frame.next]) {
                        Err(e) => Err(e),
                        Ok((after, OutcomeView::Ask(request))) => Ok(
                            (LexerView { work: after.work.push(left), ..after }, request),
                        ),
                        Ok((after, OutcomeView::Enter(entered))) => Ok(
                            (
                                LexerView {
                                    work: after.work.push(left).push(
                                        WorkView::Statements(entered),
                                    ),
                                    ..after
                                },
                                LexerRequestView::Again,
                            ),
                        ),
                    }
                } else {
                    Ok((rest, LexerRequestView::Again))
                },
            }
        }
    }

    /// The commands that were asked for have come: they join the load
    /// function, or they are the function that was being defined.
    pub open spec fn supply_commands(self, commands: Seq<Seq<char>>) -> LexerView {
        LexerView {
            datapack: match self.pending {
                Some(PendingView::Load) => self.datapack.extend_function(
                    self.config.load_name,
                    commands,
                ),
                Some(PendingView::Function(path)) => self.datapack.insert_function(path, commands),
                None => self.datapack,
            },
            pending: None,
            ..self
        }
    }

    /// The text `file_string` of the file `file_path` is tokenized, as
    /// statements that end with semicolons; its statements are worked
    /// through next.
    pub open spec fn parse(self, file_string: Seq<char>, file_path: Seq<char>, is_load: bool) -> Result<
        LexerView,
        JMCErrorView,
    > {
        match TokenizerView::fresh(file_string, file_path, None, self.working_dir, false).parse(
            file_string,
            true,
            false,
            self.macros,
        ) {
            Err(e) => Err(e),
            Ok(s) => Ok(
                LexerView {
                    work: self.work.push(
                        WorkView::Statements(
                            FrameView {
                                tokenizer: s,
                                statements: s.programs,
                                next: 0,
                                file_path,
                                prefix: Seq::empty(),
                                in_class: false,
                                is_load,
                            },
                        ),
                    ),
                    ..self
                },
            ),
        }
    }

    /// The file `file_path` was looked for and `content` is what was found.
    /// A file that was read before is passed over. A file that was not found
    /// is a failure. Any other file is noted as read and parsed.
    pub open spec fn parse_file(
        self,
        file_path: Seq<char>,
        content: Option<Seq<char>>,
        is_load: bool,
    ) -> Result<LexerView, JMCErrorView> {
        if self.file_read.contains(file_path) {
            Ok(self)
        } else {
            match content {
                None => Err(
                    JMCErrorView {
                        error_type: JMCErrorType::JMCFileNotFound,
                        msg: "JMC file not found: "@ + file_path,
                    },
                ),
                Some(text) => (LexerView { file_read: self.file_read.push(file_path), ..self }).parse(
                    text,
                    file_path,
                    is_load,
                ),
            }
        }
    }

    /// The directory `directory` was looked for and `paths` are the source
    /// files found below it. A directory that was not found is a failure.
    /// The files are asked for one by one, in their order.
    pub open spec fn import_all(self, directory: Seq<char>, paths: Option<Seq<Seq<char>>>) -> Result<
        LexerView,
        JMCErrorView,
    > {
        match paths {
            None => Err(
                JMCErrorView {
                    error_type: JMCErrorType::JMCFileNotFound,
                    msg: "Directory(folder) not found: "@ + directory,
                },
            ),
            Some(found) => Ok(LexerView { work: self.work.push(WorkView::Files(found, 0)), ..self }),
        }
    }
}

/// The failure of the kind "syntax" at `token`.
fn refuse(
    tokenizer: &Tokenizer,
    message: &str,
    token: &Token,
    is_length_include_col: bool,
    is_display_col_length: bool,
) -> (e: JMCError)
    ensures
        e@ == crate::forms::refuse(
            tokenizer@,
            message@,
            token@,
            is_length_include_col,
            is_display_col_length,
        ),
{
    JMCError::jmc_syntax_exception(
        message.to_owned(),
        Some(token),
        tokenizer,
        is_length_include_col,
        is_display_col_length,
        false,
        None,
    )
}

/// The failure of the kind "warning" at `token`, with a suggestion.
fn warn(
    tokenizer: &Tokenizer,
    message: String,
    token: &Token,
    is_display_col_length: bool,
    suggestion: Option<String>,
) -> (e: JMCError)
    ensures
        e@ == crate::forms::warn(
            tokenizer@,
            message@,
            token@,
            is_display_col_length,
            text_view(suggestion),
        ),
{
    JMCError::jmc_syntax_warning(
        message,
        Some(token),
        tokenizer,
        false,
        is_display_col_length,
        false,
        suggestion,
    )
}

/// The empty string literal holds no character.
proof fn lemma_empty_literal()
    ensures
        ""@ == Seq::<char>::empty(),
{
    reveal_strlit("");
    assert(""@ =~= Seq::<char>::empty());
}

/// `head` and `tail` in a row.
fn join2(head: &str, tail: &str) -> (r: String)
    ensures
        r@ == head@ + tail@,
{
    let mut out = chars_of(head);
    extend_str(&mut out, tail);
    string_of(&out)
}

/// `head`, `middle` and `tail` in a row.
fn join3(head: &str, middle: &str, tail: &str) -> (r: String)
    ensures
        r@ == head@ + middle@ + tail@,
{
    let mut out = chars_of(head);
    extend_str(&mut out, middle);
    extend_str(&mut out, tail);
    string_of(&out)
}

/// The hint that names where `path` was defined before.
fn defined_before(datapack: &Datapack, path: &str, working_dir: &str, what: &str) -> (r: Option<
    String,
>)
    ensures
        text_view(r) == crate::forms::defined_before(datapack@, path@, working_dir@, what@),
{
    match datapack.defined_index(path) {
        Some(k) => {
            let place = &datapack.defined_file_pos[k];
            let mut hint = chars_of("This ");
            extend_str(&mut hint, what);
            extend_str(&mut hint, " was already defined at line ");
            let line = decimal_of(place.token.line as u128);
            extend(&mut hint, &line);
            extend_str(&mut hint, " col ");
            let col = decimal_of(place.token.col as u128);
            extend(&mut hint, &col);
            extend_str(&mut hint, " in ");
            let shown = crate::exception::relative_file_name(
                place.file_path_str.as_str(),
                working_dir,
                Some(place.token.line),
                Some(place.token.col),
            );
            extend_str(&mut hint, shown.as_str());
            Some(string_of(&hint))
        },
        None => None,
    }
}

/// What stands between the first and the last character of `s`.
fn inner_of(s: &str) -> (r: String)
    ensures
        r@ == crate::grammar::inner_text(s@),
{
    let all = chars_of(s);
    let inner = if all.len() >= 2 {
        slice(&all, 1, all.len() - 1)
    } else {
        Vec::new()
    };
    assert(inner@ =~= crate::grammar::inner_text(s@));
    string_of(&inner)
}

/// Whether `name` is a kind of resource that the game knows.
fn is_json_type_name(name: &str) -> (r: bool)
    ensures
        r == is_json_type(name@),
{
    str_equal(name, "advancements") || str_equal(name, "dimension") || str_equal(
        name,
        "dimension_type",
    ) || str_equal(name, "loot_tables") || str_equal(name, "predicates") || str_equal(
        name,
        "recipes",
    ) || str_equal(name, "item_modifiers") || str_equal(name, "structures") || str_equal(
        name,
        "worldgen/biome",
    ) || str_equal(name, "worldgen/configured_carver") || str_equal(
        name,
        "worldgen/configured_feature",
    ) || str_equal(name, "worldgen/configured_surface_builder") || str_equal(
        name,
        "worldgen/density_function",
    ) || str_equal(name, "worldgen/flat_level_generator_preset") || str_equal(
        name,
        "worldgen/noise",
    ) || str_equal(name, "worldgen/noise_settings") || str_equal(name, "worldgen/placed_feature")
        || str_equal(name, "worldgen/processor_list") || str_equal(name, "worldgen/structure")
        || str_equal(name, "worldgen/structure_set") || str_equal(name, "worldgen/template_pool")
        || str_equal(name, "worldgen/world_preset") || str_equal(name, "trim_material")
        || str_equal(name, "trim_pattern") || str_equal(name, "chat_type") || str_equal(
        name,
        "damage_type",
    )
}

/// The name of the game for a kind of resource.
fn json_type_name(name: String) -> (r: String)
    ensures
        r@ == json_type_of(name@),
{
    if str_equal(name.as_str(), "advancement") {
        "advancements".to_owned()
    } else if str_equal(name.as_str(), "loot_table") {
        "loot_tables".to_owned()
    } else if str_equal(name.as_str(), "structure") {
        "structures".to_owned()
    } else if str_equal(name.as_str(), "recipe") {
        "recipes".to_owned()
    } else {
        name
    }
}

impl Lexer {
    /// The lexer of a compilation with the settings `config` and the shared
    /// state `header`: with the datapack as it is before anything is
    /// compiled, no decorators, and nothing to work through.
    pub fn new(config: Configuration, header: Header) -> (lexer: Self)
        ensures
            lexer@ == (LexerView {
                config: config@,
                datapack: DatapackView::blank(config@),
                file_read: string_views(header.inner.file_read@),
                macros: macro_views(header.inner.macros@),
                working_dir: header.inner.working_dir@,
                decorators: Seq::empty(),
                work: Seq::empty(),
                pending: None,
                load_function: Seq::empty(),
            }),
            lexer.config == config,
            lexer.header == header,
            header.inner.wf() ==> lexer@.wf(),
    {
        let datapack = Datapack::new(&config);
        let lexer = Lexer {
            config,
            datapack,
            header,
            decorators: Vec::new(),
            work: Vec::new(),
            pending: None,
            load_function: Vec::new(),
        };
        assert(lexer@.decorators =~= Seq::empty());
        assert(lexer@.work =~= Seq::empty());
        assert(lexer@.load_function =~= Seq::empty());
        lexer
    }

    /// Whether the statement `command`, which begins with `function`, calls
    /// a function of the game rather than defines one.
    pub fn is_vanilla_func(command: &Vec<Token>) -> (r: bool)
        ensures
            r == is_vanilla_func(token_views(command@)),
    {
        let ghost views = token_views(command@);
        assert(forall|j: int| 0 <= j < command.len() ==> views[j] == (#[trigger] command[j])@);
        proof {
            lemma_empty_literal();
        }
        let length = command.len();
        if length == 2 && command[1].token_type == TokenType::String {
            return true;
        }
        if !(length >= 4 && command[1].token_type == TokenType::Keyword && command[2].token_type
            == TokenType::Operator && str_equal(command[2].string.as_str(), ":")
            && command[3].token_type == TokenType::Keyword) {
            return false;
        }
        let mut ignored_count: usize = 0;
        let mut i: usize = 4;
        while i < length - 1
            invariant
                4 <= i <= length + 1,
                length == command.len(),
                views == token_views(command@),
                2 * ignored_count <= i - 4,
                ignored_count + path_pairs(views, i as int) == path_pairs(views, 4),
            decreases length + 1 - i,
        {
            assert(views[i as int] == command[i as int]@);
            if str_equal(command[i].string.as_str(), "/") {
                ignored_count += 1;
            }
            i += 2;
        }
        let length = length - 2 * ignored_count;
        if length == 4 {
            return true;
        }
        if length == 5 && command[command.len() - 1].token_type == TokenType::ParenCurly {
            return true;
        }
        if length >= 5 && str_equal(command[4].string.as_str(), "with") {
            return true;
        }
        false
    }

    /// The definition of a function in the statement `command`, which is
    /// `function name() { .. }`: the function with its body as text. The
    /// definition goes on record in `datapack`.
    ///
    /// * `tokenizer` - the tokenizer that read the statement
    /// * `file_path_str` - the path of the source file
    /// * `prefix` - the path of the class, with its `/`; empty outside a class
    /// * `is_save_to_datapack` - whether the function joins the datapack; one
    ///   that does takes no parameters
    pub fn parse_func_tokens(
        config: &Configuration,
        datapack: &mut Datapack,
        tokenizer: &Tokenizer,
        command: Vec<Token>,
        file_path_str: &str,
        prefix: &str,
        is_save_to_datapack: bool,
    ) -> (r: Result<PreMcFunction, JMCError>)
        requires
            command.len() >= 1,
        ensures
            match func_tokens(
                config@,
                old(datapack)@,
                tokenizer@,
                token_views(command@),
                file_path_str@,
                prefix@,
                is_save_to_datapack,
            ) {
                Ok((recorded, function)) => r is Ok && r->Ok_0@ == function && final(datapack)@
                    == recorded,
                Err(e) => r is Err && r->Err_0@ == e && final(datapack)@ == old(datapack)@,
            },
            old(datapack)@.wf() ==> final(datapack)@.wf(),
    {
        let ghost views = token_views(command@);
        assert(forall|j: int| 0 <= j < command.len() ==> views[j] == (#[trigger] command[j])@);
        proof {
            lemma_empty_literal();
        }
        if command.len() < 2 {
            return Err(
                refuse(tokenizer, "Expected keyword(function's name)", &command[0], true, true),
            );
        }
        if command[1].token_type != TokenType::Keyword {
            return Err(
                refuse(tokenizer, "Expected keyword(function's name)", &command[1], false, true),
            );
        }
        if command.len() < 3 {
            return Err(refuse(tokenizer, "Expected round bracket, `()`", &command[1], true, true));
        }
        if is_save_to_datapack && !str_equal(command[2].string.as_str(), "()") {
            return Err(
                refuse(tokenizer, "Expected empty round bracket, `()`", &command[2], false, true),
            );
        }
        if command.len() < 4 {
            return Err(refuse(tokenizer, "Expected {", &command[1], true, true));
        }
        if command[3].token_type != TokenType::ParenCurly {
            return Err(refuse(tokenizer, "Expected {", &command[3], false, false));
        }
        if command.len() > 4 {
            return Err(refuse(tokenizer, "Unexpected token", &command[4], false, true));
        }
        let name = convention_jmc_to_mc(
            command[1].string.as_str(),
            &command[1],
            tokenizer,
            "",
            true,
        )?;
        let mut path_chars = chars_of(prefix);
        extend_str(&mut path_chars, name.as_str());
        let func_path = string_of(&path_chars);
        let mut private_dir = chars_of(config.private_name.as_str());
        extend_str(&mut private_dir, "/");
        if has_prefix(&path_chars, &private_dir) {
            return Err(
                warn(
                    tokenizer,
                    join3("Function(", func_path.as_str(), ") may override private function of JMC"),
                    &command[1],
                    true,
                    Some(
                        join2(
                            "Please avoid starting function's path with ",
                            config.private_name.as_str(),
                        ),
                    ),
                ),
            );
        }
        if str_equal(func_path.as_str(), config.load_name.as_str()) {
            return Err(
                warn(
                    tokenizer,
                    "Load function is defined".to_owned(),
                    &command[1],
                    true,
                    Some(
                        join3(
                            "JMC needs to reserve '",
                            config.load_name.as_str(),
                            "' name for load function.",
                        ),
                    ),
                ),
            );
        }
        if datapack.function_index(func_path.as_str()).is_some() {
            return Err(
                warn(
                    tokenizer,
                    join3("Duplicate function declaration(", func_path.as_str(), ")"),
                    &command[1],
                    true,
                    defined_before(
                        datapack,
                        func_path.as_str(),
                        tokenizer.working_dir.as_str(),
                        "function",
                    ),
                ),
            );
        }
        if str_equal(func_path.as_str(), config.private_name.as_str()) {
            return Err(
                warn(
                    tokenizer,
                    "Private function is defined".to_owned(),
                    &command[1],
                    false,
                    Some(
                        join3(
                            "JMC needs to reserve '",
                            config.private_name.as_str(),
                            "' name for private function.",
                        ),
                    ),
                ),
            );
        }
        datapack.record(
            DefinedPos {
                path: func_path.clone(),
                token: command[1].clone(),
                file_path_str: tokenizer.file_path_str.clone(),
            },
        );
        Ok(
            PreMcFunction::new(
                inner_of(command[3].string.as_str()),
                file_path_str.to_owned(),
                command[3].line,
                command[3].col,
                func_path,
                command[1].clone(),
                command[2].clone(),
                tokenizer.get_file_string().to_owned(),
                prefix.to_owned(),
            ),
        )
    }

    /// The body of the class in the statement `command`, which is `class
    /// Name { .. }`.
    pub fn parse_class(tokenizer: &Tokenizer, command: &Vec<Token>, prefix: &str) -> (r: Result<
        ClassBody,
        JMCError,
    >)
        requires
            command.len() >= 1,
        ensures
            match class_body(tokenizer@, token_views(command@), prefix@) {
                Ok(body) => r is Ok && r->Ok_0@ == body,
                Err(e) => r is Err && r->Err_0@ == e,
            },
    {
        let ghost views = token_views(command@);
        assert(forall|j: int| 0 <= j < command.len() ==> views[j] == (#[trigger] command[j])@);
        proof {
            lemma_empty_literal();
        }
        if command.len() < 2 {
            return Err(
                refuse(
                    tokenizer,
                    "Expected class name after keyword 'class'",
                    &command[0],
                    false,
                    true,
                ),
            );
        }
        if command[1].token_type != TokenType::Keyword {
            let message = join3(
                "Expected class name after keyword 'class' (got ",
                command[1].token_type.to_string().as_str(),
                ")",
            );
            return Err(refuse(tokenizer, message.as_str(), &command[1], false, true));
        }
        if command.len() < 3 {
            return Err(
                refuse(tokenizer, "Expected '{' after class name", &command[1], false, true),
            );
        }
        let name = convention_jmc_to_mc(
            command[1].string.as_str(),
            &command[1],
            tokenizer,
            "",
            true,
        )?;
        Ok(
            ClassBody {
                class_path: join3(prefix, name.as_str(), "/"),
                content: inner_of(command[2].string.as_str()),
                line: command[2].line,
                col: command[2].col,
            },
        )
    }

    /// The statements of the body of a class, tokenized from the place of
    /// its opening curly bracket on, as a source to work through.
    pub fn parse_class_content(
        header: &Header,
        prefix: String,
        class_content: String,
        file_path_str: &str,
        line: u32,
        col: u32,
        file_string: String,
    ) -> (r: Result<Frame, JMCError>)
        ensures
            match TokenizerView::fresh_at(
                class_content@,
                file_path_str@,
                Some(file_string@),
                header.inner.working_dir@,
                false,
                line,
                col,
            ).parse(class_content@, true, false, macro_views(header.inner.macros@)) {
                Ok(s) => r is Ok && r->Ok_0@ == (FrameView {
                    tokenizer: s,
                    statements: s.programs,
                    next: 0,
                    file_path: file_path_str@,
                    prefix: prefix@,
                    in_class: true,
                    is_load: false,
                }),
                Err(e) => r is Err && r->Err_0@ == e,
            },
    {
        let tokenizer = Tokenizer::parse_raw_string_col_line(
            header,
            class_content,
            file_path_str.to_owned(),
            Some(file_string),
            true,
            false,
            line,
            col,
        )?;
        let statements = clone_statements(&tokenizer.programs);
        Ok(
            Frame {
                tokenizer,
                statements,
                next: 0,
                file_path: file_path_str.to_owned(),
                prefix,
                in_class: true,
                is_load: false,
            },
        )
    }

    /// The path of the file that the file `file_path` imports as `name`.
    fn import_path(file_path: &str, name: &str) -> (r: String)
        ensures
            r@ == import_path(file_path@, name@),
    {
        let name_chars = chars_of(name);
        let ending = chars_of(".jmc");
        let mut full = chars_of(name);
        if !has_suffix(&name_chars, &ending) {
            extend_str(&mut full, ".jmc");
        }
        let slash = chars_of("/");
        if has_prefix(&name_chars, &slash) {
            return string_of(&full);
        }
        let file_chars = chars_of(file_path);
        let cut = after_last_of(&file_chars, '/');
        proof {
            crate::text::lemma_after_last_bounds(file_chars@, '/');
        }
        let mut out = slice(&file_chars, 0, cut);
        assert(out@ == parent_dir(file_path@));
        extend(&mut out, &full);
        string_of(&out)
    }

    /// What the statement `command`, which is `import "..."`, in the file
    /// `file_path` asks for.
    pub fn parse_import(tokenizer: &Tokenizer, command: &Vec<Token>, file_path: &str) -> (r: Result<
        ImportTarget,
        JMCError,
    >)
        requires
            command.len() >= 1,
        ensures
            match import_target(tokenizer@, token_views(command@), file_path@) {
                Ok(target) => r is Ok && r->Ok_0@ == target,
                Err(e) => r is Err && r->Err_0@ == e,
            },
    {
        let ghost views = token_views(command@);
        assert(forall|j: int| 0 <= j < command.len() ==> views[j] == (#[trigger] command[j])@);
        proof {
            lemma_empty_literal();
        }
        if command.len() < 2 {
            return Err(refuse(tokenizer, "Expected string after 'import'", &command[0], true, true));
        }
        if command[1].token_type != TokenType::String {
            let message = join3(
                "Expected string after 'import' (got ",
                command[1].token_type.to_string().as_str(),
                ")",
            );
            return Err(refuse(tokenizer, message.as_str(), &command[1], false, false));
        }
        if command.len() > 2 {
            return Err(refuse(tokenizer, "Unexpected token", &command[2], false, true));
        }
        let name = chars_of(command[1].string.as_str());
        let all = chars_of("/*");
        let all_other = chars_of("\\*");
        if has_suffix(&name, &all) || has_suffix(&name, &all_other) {
            proof {
                reveal_strlit("/*");
                reveal_strlit("\\*");
            }
            let directory = slice(&name, 0, name.len() - 2);
            assert(directory@ == name@.take(name@.len() - 2));
            return Ok(ImportTarget::Directory(string_of(&directory)));
        }
        Ok(ImportTarget::File(Self::import_path(file_path, command[1].string.as_str())))
    }

    /// The resource in the statement `command`, which is `new type(path) {
    /// .. }`: it joins `datapack`, and its definition goes on record.
    pub fn parse_new(
        datapack: &mut Datapack,
        tokenizer: &Tokenizer,
        command: &Vec<Token>,
        prefix: &str,
    ) -> (r: Result<(), JMCError>)
        requires
            command.len() >= 1,
        ensures
            match resource(old(datapack)@, tokenizer@, token_views(command@), prefix@) {
                Ok(changed) => r is Ok && final(datapack)@ == changed,
                Err(e) => r is Err && r->Err_0@ == e && final(datapack)@ == old(datapack)@,
            },
            old(datapack)@.wf() ==> final(datapack)@.wf(),
    {
        let ghost views = token_views(command@);
        assert(forall|j: int| 0 <= j < command.len() ==> views[j] == (#[trigger] command[j])@);
        proof {
            lemma_empty_literal();
        }
        if command.len() < 2 {
            return Err(
                refuse(tokenizer, "Expected keyword(JSON file's type)", &command[0], true, true),
            );
        }
        if command[1].token_type != TokenType::Keyword {
            return Err(
                refuse(tokenizer, "Expected keyword(JSON file's type)", &command[1], false, true),
            );
        }
        if command.len() < 3 {
            return Err(
                refuse(
                    tokenizer,
                    "Expected round bracket(JSON file's path)",
                    &command[1],
                    true,
                    true,
                ),
            );
        }
        if str_equal(command[2].string.as_str(), "()") {
            return Err(
                refuse(
                    tokenizer,
                    "Expected JSON file's path in the bracket",
                    &command[2],
                    false,
                    true,
                ),
            );
        }
        let given = convention_jmc_to_mc(
            command[1].string.as_str(),
            &command[1],
            tokenizer,
            "",
            true,
        )?;
        let json_type = json_type_name(given);
        if !is_json_type_name(json_type.as_str()) {
            let message = join3("Unrecognized JSON file's type(", json_type.as_str(), ")");
            return Err(refuse(tokenizer, message.as_str(), &command[1], false, true));
        }
        if command.len() < 4 {
            return Err(refuse(tokenizer, "Expected {", &command[2], true, true));
        }
        if command[3].token_type != TokenType::ParenCurly {
            return Err(
                refuse(tokenizer, "Expected JSON file's content", &command[3], false, true),
            );
        }
        if command.len() > 4 {
            return Err(refuse(tokenizer, "Unexpected token", &command[4], false, true));
        }
        let inner = inner_of(command[2].string.as_str());
        let name = convention_jmc_to_mc(inner.as_str(), &command[2], tokenizer, "", true)?;
        let mut path_chars = chars_of(json_type.as_str());
        extend_str(&mut path_chars, "/");
        extend_str(&mut path_chars, prefix);
        extend_str(&mut path_chars, name.as_str());
        let json_path = string_of(&path_chars);
        if datapack.json_index(json_path.as_str()).is_some() {
            return Err(
                warn(
                    tokenizer,
                    join3("Duplicate JSON declaration(", json_path.as_str(), ")"),
                    &command[2],
                    true,
                    defined_before(
                        datapack,
                        json_path.as_str(),
                        tokenizer.working_dir.as_str(),
                        "JSON",
                    ),
                ),
            );
        }
        match json_fault_of(command[3].string.as_str()) {
            Some(message) => Err(
                JMCError::decode_json_error_at(message, &command[3], tokenizer),
            ),
            None => {
                datapack.record(
                    DefinedPos {
                        path: json_path.clone(),
                        token: command[1].clone(),
                        file_path_str: tokenizer.file_path_str.clone(),
                    },
                );
                datapack.insert_json(json_path, command[3].string.clone());
                Ok(())
            },
        }
    }

    /// What the decorator of the name `name` does with its function.
    fn decorator_named(decorators: &Vec<(String, ModifyMcFunction)>, name: &str) -> (r: Option<
        ModifyMcFunction,
    >)
        ensures
            r == decorator_named(decorator_views(decorators@), name@),
    {
        let ghost views = decorator_views(decorators@);
        let ghost keys = Seq::new(views.len(), |i: int| views[i].0);
        let mut i: usize = 0;
        while i < decorators.len()
            invariant
                i <= decorators.len(),
                views == decorator_views(decorators@),
                keys == Seq::new(views.len(), |i: int| views[i].0),
                forall|j: int| 0 <= j < i ==> keys[j] != name@,
            decreases decorators.len() - i,
        {
            if str_equal(decorators[i].0.as_str(), name) {
                proof {
                    assert(keys[i as int] == name@);
                    lemma_position_is(keys, name@, i as int);
                }
                return Some(decorators[i].1);
            }
            i += 1;
        }
        proof {
            lemma_position_is(keys, name@, i as int);
        }
        None
    }

    /// The decorated function in the statement `command`, which is `@name
    /// function ..` or `@name(..) function ..`: the use of the decorator,
    /// and the function with its body as text. The definition goes on
    /// record in `datapack`.
    pub fn parse_decorated_func(
        config: &Configuration,
        datapack: &mut Datapack,
        header: &Header,
        decorators: &Vec<(String, ModifyMcFunction)>,
        tokenizer: &Tokenizer,
        command: Vec<Token>,
        file_path_str: &str,
        prefix: &str,
    ) -> (r: Result<(JMCDecorator, PreMcFunction), JMCError>)
        requires
            command.len() >= 1,
            is_decorator_name(command[0]@.string),
        ensures
            match decorated(
                config@,
                old(datapack)@,
                decorator_views(decorators@),
                macro_views(header.inner.macros@),
                tokenizer@,
                token_views(command@),
                file_path_str@,
                prefix@,
            ) {
                Ok((recorded, decorator, function)) => r is Ok && r->Ok_0.0@ == decorator
                    && r->Ok_0.1@ == function && final(datapack)@ == recorded,
                Err(e) => r is Err && r->Err_0@ == e,
            },
            old(datapack)@.wf() ==> final(datapack)@.wf(),
    {
        let ghost views = token_views(command@);
        assert(forall|j: int| 0 <= j < command.len() ==> views[j] == (#[trigger] command[j])@);
        proof {
            lemma_empty_literal();
        }
        let word = chars_of(command[0].string.as_str());
        let name_chars = if word.len() >= 1 {
            slice(&word, 1, word.len())
        } else {
            Vec::new()
        };
        let decorator_name = string_of(&name_chars);
        proof {
            if word.len() >= 1 {
                assert(name_chars@ == views[0].string.skip(1));
            }
        }
        let found = Self::decorator_named(decorators, decorator_name.as_str());
        let modify = match found {
            Some(modify) => modify,
            None => {
                let hint = if str_equal(decorator_name.as_str(), "import") {
                    Some("Did you mean to use 'import' (without @) instead?".to_owned())
                } else {
                    None
                };
                return Err(
                    JMCError::jmc_syntax_exception(
                        join3("Unrecognized decorator '", decorator_name.as_str(), "'"),
                        Some(&command[0]),
                        tokenizer,
                        false,
                        true,
                        false,
                        hint,
                    ),
                );
            },
        };
        if command.len() < 5 {
            return Err(
                refuse(
                    tokenizer,
                    "Function decorator syntax usage is '@decorator_name function name() {}' or '@decorator_name() function name() {}'",
                    &command[0],
                    false,
                    true,
                ),
            );
        }
        let has_arguments = command[1].token_type == TokenType::ParenRound;
        let definition = if has_arguments {
            tokens_from(&command, 2)
        } else {
            tokens_from(&command, 1)
        };
        let function = Self::parse_func_tokens(
            config,
            datapack,
            tokenizer,
            definition,
            file_path_str,
            prefix,
            modify.is_save(),
        )?;
        let arguments = if has_arguments {
            Some(command[1].clone())
        } else {
            None
        };
        let decorator = JMCDecorator::new(modify).call(header, tokenizer, prefix, arguments)?;
        Ok((decorator, function))
    }

    /// What the content parser gets for the statements `programs`.
    pub fn parse_func_content(
        tokenizer: Tokenizer,
        programs: Vec<Vec<Token>>,
        prefix: &str,
        is_load: bool,
    ) -> (r: FuncContent)
        ensures
            r@ == (FuncContentView {
                tokenizer: tokenizer@,
                programs: statement_views(programs@),
                is_load,
                prefix: prefix@,
            }),
    {
        FuncContent::new(tokenizer, programs, is_load, prefix.to_owned())
    }

    /// What the content parser gets for the statements of the load function
    /// that were read and not yet handed over; none of them is left.
    pub fn parse_load_func_content(&mut self, tokenizer: Tokenizer) -> (r: FuncContent)
        ensures
            r@ == (FuncContentView {
                tokenizer: tokenizer@,
                programs: old(self)@.load_function,
                is_load: true,
                prefix: Seq::empty(),
            }),
            final(self)@ == (LexerView { load_function: Seq::empty(), ..old(self)@ }),
            final(self).header == old(self).header,
            old(self)@.wf() ==> final(self)@.wf(),
    {
        proof {
            lemma_empty_literal();
        }
        let mut programs: Vec<Vec<Token>> = Vec::new();
        std::mem::swap(&mut self.load_function, &mut programs);
        assert(self@.load_function =~= Seq::empty());
        Self::parse_func_content(tokenizer, programs, "", true)
    }

    /// Hands the statements of the load function that were read to the
    /// content parser, if there are any: the commands that come back join
    /// the load function.
    pub fn parse_current_load(&mut self, tokenizer: Tokenizer) -> (r: Option<FuncContent>)
        ensures
            old(self)@.load_function.len() == 0 ==> r is None && final(self)@ == old(self)@,
            old(self)@.load_function.len() > 0 ==> r is Some && r->0@ == (FuncContentView {
                tokenizer: tokenizer@,
                programs: old(self)@.load_function,
                is_load: true,
                prefix: Seq::empty(),
            }) && final(self)@ == (LexerView {
                load_function: Seq::empty(),
                pending: Some(PendingView::Load),
                ..old(self)@
            }),
            final(self).header == old(self).header,
            old(self)@.wf() ==> final(self)@.wf(),
    {
        if self.load_function.len() == 0 {
            return None;
        }
        let content = self.parse_load_func_content(tokenizer);
        self.pending = Some(Pending::Load);
        Some(content)
    }

    /// Tokenizes the body of `function` and asks for its statements to be
    /// lowered; the commands that come back are the function.
    pub fn define(&mut self, function: PreMcFunction) -> (r: Result<LexerRequest, JMCError>)
        ensures
            match old(self)@.define(function@) {
                Ok((after, request)) => r is Ok && r->Ok_0@ == request && final(self)@ == after,
                Err(e) => r is Err && r->Err_0@ == e,
            },
            final(self).header == old(self).header,
            old(self)@.wf() ==> final(self)@.wf(),
    {
        let (content, func_path) = function.parse(&self.header)?;
        self.pending = Some(Pending::Function(func_path));
        Ok(LexerRequest::Content(content))
    }

    /// Defines the function in the statement `command`, which is `function
    /// name() { .. }`, and asks for its body to be lowered.
    pub fn parse_func(&mut self, frame: &Frame, command: Vec<Token>) -> (r: Result<
        Outcome,
        JMCError,
    >)
        requires
            command.len() >= 1,
        ensures
            match old(self)@.define_function(frame@, token_views(command@)) {
                Ok((after, request)) => r is Ok && r->Ok_0@ == request && final(self)@ == after,
                Err(e) => r is Err && r->Err_0@ == e,
            },
            final(self).header == old(self).header,
            old(self)@.wf() ==> final(self)@.wf(),
    {
        let function = Self::parse_func_tokens(
            &self.config,
            &mut self.datapack,
            &frame.tokenizer,
            command,
            frame.file_path.as_str(),
            frame.prefix.as_str(),
            true,
        )?;
        let request = self.define(function)?;
        Ok(Outcome::Ask(request))
    }

    /// Defines the resource in the statement `command`.
    fn new_resource(&mut self, frame: &Frame, command: Vec<Token>) -> (r: Result<
        Outcome,
        JMCError,
    >)
        requires
            command.len() >= 1,
        ensures
            match old(self)@.new_resource(frame@, token_views(command@)) {
                Ok((after, request)) => r is Ok && r->Ok_0@ == request && final(self)@ == after,
                Err(e) => r is Err && r->Err_0@ == e,
            },
            final(self).header == old(self).header,
            old(self)@.wf() ==> final(self)@.wf(),
    {
        Self::parse_new(&mut self.datapack, &frame.tokenizer, &command, frame.prefix.as_str())?;
        Ok(Outcome::Ask(LexerRequest::Again))
    }

    /// Opens the class in the statement `command`.
    fn open_class(&self, frame: &Frame, command: Vec<Token>) -> (r: Result<
        Outcome,
        JMCError,
    >)
        requires
            command.len() >= 1,
        ensures
            match self@.open_class(frame@, token_views(command@)) {
                Ok((after, request)) => r is Ok && r->Ok_0@ == request && self@ == after,
                Err(e) => r is Err && r->Err_0@ == e,
            },
    {
        let body = Self::parse_class(&frame.tokenizer, &command, frame.prefix.as_str())?;
        let class_frame = Self::parse_class_content(
            &self.header,
            body.class_path,
            body.content,
            frame.file_path.as_str(),
            body.line,
            body.col,
            frame.tokenizer.get_file_string().to_owned(),
        )?;
        Ok(Outcome::Enter(class_frame))
    }

    /// Asks for what the statement `command` imports.
    fn import(&self, frame: &Frame, command: Vec<Token>) -> (r: Result<Outcome, JMCError>)
        requires
            command.len() >= 1,
        ensures
            match self@.import(frame@, token_views(command@)) {
                Ok((after, request)) => r is Ok && r->Ok_0@ == request && self@ == after,
                Err(e) => r is Err && r->Err_0@ == e,
            },
    {
        assert(token_views(command@)[0] == command[0]@);
        if frame.in_class {
            return Err(
                refuse(
                    &frame.tokenizer,
                    "Importing is not supported in class",
                    &command[0],
                    false,
                    true,
                ),
            );
        }
        match Self::parse_import(&frame.tokenizer, &command, frame.file_path.as_str())? {
            ImportTarget::File(path) => Ok(Outcome::Ask(LexerRequest::File(path))),
            ImportTarget::Directory(path) => Ok(Outcome::Ask(LexerRequest::Directory(path))),
        }
    }

    /// Defines the decorated function in the statement `command`.
    fn decorate(&mut self, frame: &Frame, command: Vec<Token>) -> (r: Result<
        Outcome,
        JMCError,
    >)
        requires
            command.len() >= 1,
            is_decorator_name(command[0]@.string),
        ensures
            match old(self)@.decorate(frame@, token_views(command@)) {
                Ok((after, request)) => r is Ok && r->Ok_0@ == request && final(self)@ == after,
                Err(e) => r is Err && r->Err_0@ == e,
            },
            final(self).header == old(self).header,
            old(self)@.wf() ==> final(self)@.wf(),
    {
        let (decorator, function) = Self::parse_decorated_func(
            &self.config,
            &mut self.datapack,
            &self.header,
            &self.decorators,
            &frame.tokenizer,
            command,
            frame.file_path.as_str(),
            frame.prefix.as_str(),
        )?;
        Ok(Outcome::Ask(LexerRequest::Decorated(decorator, function)))
    }

    /// Takes the statement `command` as one of the load function.
    fn load_statement(&mut self, frame: &Frame, command: Vec<Token>) -> (r: Result<
        Outcome,
        JMCError,
    >)
        requires
            command.len() >= 1,
        ensures
            match old(self)@.load_statement(frame@, token_views(command@)) {
                Ok((after, request)) => r is Ok && r->Ok_0@ == request && final(self)@ == after,
                Err(e) => r is Err && r->Err_0@ == e,
            },
            final(self).header == old(self).header,
            old(self)@.wf() ==> final(self)@.wf(),
    {
        let ghost views = token_views(command@);
        assert(views[0] == command[0]@);
        if frame.in_class {
            let message = join3(
                "Expected 'function' or 'new' or 'class' (got ",
                command[0].string.as_str(),
                ")",
            );
            return Err(refuse(&frame.tokenizer, message.as_str(), &command[0], false, true));
        }
        let ghost waiting = self@.load_function;
        self.load_function.push(command);
        assert(self@.load_function =~= waiting.push(views));
        match self.parse_current_load(frame.tokenizer.clone()) {
            Some(content) => Ok(Outcome::Ask(LexerRequest::Content(content))),
            None => Ok(Outcome::Ask(LexerRequest::Again)),
        }
    }

    /// What the lexer makes of the statement `command` of the source `frame`.
    fn dispatch(&mut self, frame: &Frame, command: Vec<Token>) -> (r: Result<
        Outcome,
        JMCError,
    >)
        ensures
            match old(self)@.dispatch(frame@, token_views(command@)) {
                Ok((after, request)) => r is Ok && r->Ok_0@ == request && final(self)@ == after,
                Err(e) => r is Err && r->Err_0@ == e,
            },
            final(self).header == old(self).header,
            old(self)@.wf() ==> final(self)@.wf(),
    {
        if command.len() == 0 {
            return Ok(Outcome::Ask(LexerRequest::Again));
        }
        assert(token_views(command@)[0] == command[0]@);
        let word = command[0].string.clone();
        if str_equal(word.as_str(), "function") && (frame.in_class || !Self::is_vanilla_func(
            &command,
        )) {
            self.parse_func(frame, command)
        } else if str_equal(word.as_str(), "new") {
            self.new_resource(frame, command)
        } else if str_equal(word.as_str(), "class") {
            self.open_class(frame, command)
        } else if str_equal(word.as_str(), "import") {
            self.import(frame, command)
        } else if is_decorator(word.as_str()) {
            self.decorate(frame, command)
        } else {
            self.load_statement(frame, command)
        }
    }

    /// The piece of work `work` comes first from now on.
    fn push_work(&mut self, work: Work)
        ensures
            final(self)@ == (LexerView { work: old(self)@.work.push(work@), ..old(self)@ }),
            final(self).header == old(self).header,
            old(self)@.wf() ==> final(self)@.wf(),
    {
        let ghost before = self@.work;
        let ghost pushed = work@;
        self.work.push(work);
        assert(self@.work =~= before.push(pushed));
    }

    /// Takes the piece of work that comes first off the work.
    fn pop_work(&mut self) -> (work: Work)
        requires
            old(self).work.len() > 0,
        ensures
            work@ == old(self)@.work.last(),
            final(self)@ == (LexerView { work: old(self)@.work.drop_last(), ..old(self)@ }),
            final(self).header == old(self).header,
            old(self)@.wf() ==> final(self)@.wf(),
    {
        let ghost before = self@.work;
        let work = self.work.pop().unwrap();
        assert(self@.work =~= before.drop_last());
        work
    }

    /// One step of the lexer, as `LexerView::step` says: what it asks of its
    /// driver, or the failure that ends the compilation.
    pub fn step(&mut self) -> (r: Result<LexerRequest, JMCError>)
        ensures
            match old(self)@.step() {
                Ok((after, request)) => r is Ok && r->Ok_0@ == request && final(self)@ == after,
                Err(e) => r is Err && r->Err_0@ == e,
            },
            final(self).header == old(self).header,
            old(self)@.wf() ==> final(self)@.wf(),
    {
        if self.work.len() == 0 {
            return Ok(LexerRequest::Done);
        }
        match self.pop_work() {
            Work::Files(paths, next) => {
                if next < paths.len() {
                    let path = paths[next].clone();
                    self.push_work(Work::Files(paths, next + 1));
                    Ok(LexerRequest::File(path))
                } else {
                    Ok(LexerRequest::Again)
                }
            },
            Work::Statements(frame) => {
                if frame.next < frame.statements.len() {
                    let command = clone_tokens(&frame.statements[frame.next]);
                    assert(frame@.statements[frame.next as int] == token_views(
                        frame.statements[frame.next as int]@,
                    ));
                    let outcome = self.dispatch(&frame, command)?;
                    let mut frame = frame;
                    frame.next = frame.next + 1;
                    self.push_work(Work::Statements(frame));
                    match outcome {
                        Outcome::Ask(request) => Ok(request),
                        Outcome::Enter(entered) => {
                            self.push_work(Work::Statements(entered));
                            Ok(LexerRequest::Again)
                        },
                    }
                } else {
                    Ok(LexerRequest::Again)
                }
            },
        }
    }

    /// Takes the commands that were asked for: they join the load function,
    /// or they are the function that was being defined.
    pub fn supply_commands(&mut self, commands: Vec<String>)
        ensures
            final(self)@ == old(self)@.supply_commands(string_views(commands@)),
            final(self).header == old(self).header,
            old(self)@.wf() ==> final(self)@.wf(),
    {
        match self.pending.take() {
            Some(Pending::Load) => {
                self.datapack.extend_function(self.config.load_name.as_str(), commands);
            },
            Some(Pending::Function(path)) => {
                self.datapack.insert_function(path, McFunction::from(commands));
            },
            None => {},
        }
    }

    /// Tokenizes the text `file_string` of the file `file_path`; its
    /// statements are worked through next.
    ///
    /// * `is_load` - whether the file is the one that the compilation began with
    pub fn parse(&mut self, file_string: String, file_path: &str, is_load: bool) -> (r: Result<
        (),
        JMCError,
    >)
        ensures
            match old(self)@.parse(file_string@, file_path@, is_load) {
                Ok(after) => r is Ok && final(self)@ == after,
                Err(e) => r is Err && r->Err_0@ == e && final(self)@ == old(self)@,
            },
            final(self).header == old(self).header,
            old(self)@.wf() ==> final(self)@.wf(),
            r is Err ==> *final(self) == *old(self),
    {
        proof {
            lemma_empty_literal();
        }
        let tokenizer = Tokenizer::parse_raw_string(
            &self.header,
            file_string,
            file_path.to_owned(),
            None,
            true,
            false,
        )?;
        let statements = clone_statements(&tokenizer.programs);
        self.push_work(
            Work::Statements(
                Frame {
                    tokenizer,
                    statements,
                    next: 0,
                    file_path: file_path.to_owned(),
                    prefix: String::new(),
                    in_class: false,
                    is_load,
                },
            ),
        );
        Ok(())
    }

    /// Takes what was found of the file `file_path`: its text, or nothing
    /// where there is no such file. A file that was read before is passed
    /// over, whatever was found: the lexer stays as it is. A file that was
    /// not found is a failure that leaves the lexer as it is. Any other file
    /// is noted as read, which is all that changes of the header, and
    /// parsed.
    pub fn parse_file(&mut self, file_path: &str, content: Option<String>, is_load: bool) -> (r:
        Result<(), JMCError>)
        ensures
            match old(self)@.parse_file(file_path@, text_view(content), is_load) {
                Ok(after) => r is Ok && final(self)@ == after,
                Err(e) => r is Err && r->Err_0@ == e,
            },
            old(self)@.file_read.contains(file_path@) ==> r is Ok && *final(self) == *old(self),
            !old(self)@.file_read.contains(file_path@) && content is None ==> r is Err
                && *final(self) == *old(self),
            !old(self)@.file_read.contains(file_path@) && content is Some ==> {
                &&& final(self).header.inner.same_but_files(&old(self).header.inner)
                &&& final(self)@.file_read == old(self)@.file_read.push(file_path@)
                &&& r is Err ==> final(self)@ == (LexerView {
                    file_read: old(self)@.file_read.push(file_path@),
                    ..old(self)@
                })
            },
            old(self)@.wf() ==> final(self)@.wf(),
    {
        if self.header.inner.is_header_already_exist(file_path) {
            return Ok(());
        }
        match content {
            None => Err(JMCError::jmc_file_not_found(join2("JMC file not found: ", file_path))),
            Some(text) => {
                self.header.inner.add_file_read(file_path.to_owned());
                self.parse(text, file_path, is_load)
            },
        }
    }

    /// Takes the function `function` back from the decorator `decorator`
    /// that has worked on it. Where the decorator saves its function, the
    /// body is tokenized and asked to be lowered, as `define` says; where it
    /// does not, the function is dropped and the lexer goes on, as `step`
    /// says.
    pub fn decorated(&mut self, decorator: &JMCDecorator, function: PreMcFunction) -> (r: Result<
        LexerRequest,
        JMCError,
    >)
        ensures
            match (if decorator@.modify_mcfunction == ModifyMcFunction::Save {
                old(self)@.define(function@)
            } else {
                old(self)@.step()
            }) {
                Ok((after, request)) => r is Ok && r->Ok_0@ == request && final(self)@ == after,
                Err(e) => r is Err && r->Err_0@ == e,
            },
            final(self).header == old(self).header,
            old(self)@.wf() ==> final(self)@.wf(),
    {
        if decorator.is_save_to_datapack() {
            self.define(function)
        } else {
            self.step()
        }
    }

    /// Takes what was found of the directory `directory`: the paths of the
    /// source files below it, or nothing where there is no such directory.
    /// The files are asked for one by one.
    pub fn import_all(&mut self, directory: &str, paths: Option<Vec<String>>) -> (r: Result<
        (),
        JMCError,
    >)
        ensures
            match old(self)@.import_all(
                directory@,
                match paths {
                    Some(found) => Some(string_views(found@)),
                    None => None,
                },
            ) {
                Ok(after) => r is Ok && final(self)@ == after,
                Err(e) => r is Err && r->Err_0@ == e && final(self)@ == old(self)@,
            },
            final(self).header == old(self).header,
            old(self)@.wf() ==> final(self)@.wf(),
    {
        match paths {
            None => Err(
                JMCError::jmc_file_not_found(join2("Directory(folder) not found: ", directory)),
            ),
            Some(found) => {
                self.push_work(Work::Files(found, 0));
                Ok(())
            },
        }
    }
}

} // verus!
