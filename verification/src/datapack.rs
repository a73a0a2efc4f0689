//! What a compilation gathers: the functions and the resources of the
//! datapack, and where in the source each of them was defined.

use crate::configuration::Configuration;
use crate::exception::JMCError;
use crate::header::{string_views, Header};
use crate::lexer_func_content::FuncContent;
use crate::pack_version::PackVersion;
use crate::text::{lemma_position, lemma_position_is, position, str_equal};
use crate::token::{Token, TokenView};
use crate::tokenizer::TokenizerView;
use vstd::prelude::*;

verus! {

/// A function of the datapack: its commands, in order.
#[derive(Debug)]
pub struct McFunction {
    pub commands: Vec<String>,
}

impl View for McFunction {
    type V = Seq<Seq<char>>;

    open spec fn view(&self) -> Seq<Seq<char>> {
        string_views(self.commands@)
    }
}

impl McFunction {
    /// The function that holds `commands`.
    pub fn from(commands: Vec<String>) -> (r: Self)
        ensures
            r@ == string_views(commands@),
    {
        Self { commands }
    }

    /// Appends `command` to the function's commands.
    pub fn extend(&mut self, command: Vec<String>)
        ensures
            final(self)@ == old(self)@ + string_views(command@),
    {
        let mut command = command;
        let ghost before = self@;
        let ghost added = string_views(command@);
        self.commands.append(&mut command);
        assert(self@ =~= before + added);
    }
}

/// Where a function or a resource was defined.
#[derive(Debug)]
pub struct DefinedPos {
    /// The path of what was defined.
    pub path: String,
    /// The token that names it.
    pub token: Token,
    /// The path of the source file.
    pub file_path_str: String,
}

/// The place of a definition as a plain value.
pub struct DefinedPosView {
    pub path: Seq<char>,
    pub token: TokenView,
    pub file_path_str: Seq<char>,
}

impl View for DefinedPos {
    type V = DefinedPosView;

    open spec fn view(&self) -> DefinedPosView {
        DefinedPosView {
            path: self.path@,
            token: self.token@,
            file_path_str: self.file_path_str@,
        }
    }
}

/// What a compilation has gathered.
#[derive(Debug)]
pub struct Datapack {
    /// The pack format that the datapack is for.
    pub version: PackVersion,
    /// The namespace of the datapack.
    pub namespace: String,
    /// The whole numbers that the scoreboard must hold.
    pub ints: Vec<i64>,
    /// The functions by path.
    pub functions: Vec<(String, McFunction)>,
    /// The resources by path, each with its JSON text.
    pub jsons: Vec<(String, String)>,
    /// The scoreboards to create, each with its criteria.
    pub scoreboards: Vec<(String, String)>,
    /// The commands of the load sequence.
    pub loads: Vec<String>,
    /// The commands of the tick sequence.
    pub ticks: Vec<String>,
    /// The commands at the end of the load sequence.
    pub after_loads: Vec<String>,
    /// The commands at the end of the tick sequence.
    pub after_ticks: Vec<String>,
    /// The commands that may be used once only, with what used them.
    pub used_command: Vec<(String, String)>,
    /// Where each function and resource was defined.
    pub defined_file_pos: Vec<DefinedPos>,
}

/// The pairs of texts of a list.
pub open spec fn pair_views(pairs: Seq<(String, String)>) -> Seq<(Seq<char>, Seq<char>)> {
    Seq::new(pairs.len(), |i: int| (pairs[i].0@, pairs[i].1@))
}

/// A datapack as a plain value.
pub struct DatapackView {
    pub pack_format: u32,
    pub namespace: Seq<char>,
    pub ints: Seq<i64>,
    pub functions: Seq<(Seq<char>, Seq<Seq<char>>)>,
    pub jsons: Seq<(Seq<char>, Seq<char>)>,
    pub scoreboards: Seq<(Seq<char>, Seq<char>)>,
    pub loads: Seq<Seq<char>>,
    pub ticks: Seq<Seq<char>>,
    pub after_loads: Seq<Seq<char>>,
    pub after_ticks: Seq<Seq<char>>,
    pub used_command: Seq<(Seq<char>, Seq<char>)>,
    pub defined_file_pos: Seq<DefinedPosView>,
}

impl View for Datapack {
    type V = DatapackView;

    open spec fn view(&self) -> DatapackView {
        DatapackView {
            pack_format: self.version.pack_format,
            namespace: self.namespace@,
            ints: self.ints@,
            functions: Seq::new(
                self.functions@.len(),
                |i: int| (self.functions@[i].0@, self.functions@[i].1@),
            ),
            jsons: pair_views(self.jsons@),
            scoreboards: pair_views(self.scoreboards@),
            loads: string_views(self.loads@),
            ticks: string_views(self.ticks@),
            after_loads: string_views(self.after_loads@),
            after_ticks: string_views(self.after_ticks@),
            used_command: pair_views(self.used_command@),
            defined_file_pos: Seq::new(
                self.defined_file_pos@.len(),
                |i: int| self.defined_file_pos@[i]@,
            ),
        }
    }
}

impl DatapackView {
    /// The datapack before anything is compiled: it holds the load
    /// function, without commands, and nothing else.
    pub open spec fn blank(config: crate::configuration::ConfigurationView) -> DatapackView {
        DatapackView {
            pack_format: config.pack_format,
            namespace: config.namespace,
            ints: Seq::empty(),
            functions: seq![(config.load_name, Seq::empty())],
            jsons: Seq::empty(),
            scoreboards: Seq::empty(),
            loads: Seq::empty(),
            ticks: Seq::empty(),
            after_loads: Seq::empty(),
            after_ticks: Seq::empty(),
            used_command: Seq::empty(),
            defined_file_pos: Seq::empty(),
        }
    }

    /// Whether the datapack is well formed: no two functions have one path,
    /// no two resources have one path, and no path has two records of its
    /// definition.
    pub open spec fn wf(self) -> bool {
        &&& self.function_paths().no_duplicates()
        &&& self.json_paths().no_duplicates()
        &&& self.defined_paths().no_duplicates()
    }

    /// The paths of the functions, in the order of the functions.
    pub open spec fn function_paths(self) -> Seq<Seq<char>> {
        Seq::new(self.functions.len(), |i: int| self.functions[i].0)
    }

    /// The paths of the resources.
    pub open spec fn json_paths(self) -> Seq<Seq<char>> {
        Seq::new(self.jsons.len(), |i: int| self.jsons[i].0)
    }

    /// The paths whose definitions are on record.
    pub open spec fn defined_paths(self) -> Seq<Seq<char>> {
        Seq::new(self.defined_file_pos.len(), |i: int| self.defined_file_pos[i].path)
    }

    pub open spec fn has_function(self, path: Seq<char>) -> bool {
        position(self.function_paths(), path) < self.functions.len()
    }

    pub open spec fn has_json(self, path: Seq<char>) -> bool {
        position(self.json_paths(), path) < self.jsons.len()
    }

    /// Where `path` was defined, as far as that is on record.
    pub open spec fn defined_at(self, path: Seq<char>) -> Option<DefinedPosView> {
        let k = position(self.defined_paths(), path);
        if 0 <= k < self.defined_file_pos.len() {
            Some(self.defined_file_pos[k])
        } else {
            None
        }
    }

    /// The function at `path` is `commands`: in the place of the function
    /// that had the path, or behind all functions where none had it.
    pub open spec fn insert_function(self, path: Seq<char>, commands: Seq<Seq<char>>) -> DatapackView {
        let k = position(self.function_paths(), path);
        DatapackView {
            functions: if 0 <= k < self.functions.len() {
                self.functions.update(k, (path, commands))
            } else {
                self.functions.push((path, commands))
            },
            ..self
        }
    }

    /// The function at `path` has `commands` behind its own; a path without
    /// a function gets one of these commands.
    pub open spec fn extend_function(self, path: Seq<char>, commands: Seq<Seq<char>>) -> DatapackView {
        let k = position(self.function_paths(), path);
        DatapackView {
            functions: if 0 <= k < self.functions.len() {
                self.functions.update(k, (path, self.functions[k].1 + commands))
            } else {
                self.functions.push((path, commands))
            },
            ..self
        }
    }

    /// The resource at `path` is `text`.
    pub open spec fn insert_json(self, path: Seq<char>, text: Seq<char>) -> DatapackView {
        let k = position(self.json_paths(), path);
        DatapackView {
            jsons: if 0 <= k < self.jsons.len() {
                self.jsons.update(k, (path, text))
            } else {
                self.jsons.push((path, text))
            },
            ..self
        }
    }

    /// The definition of `place.path` is on record as `place`.
    pub open spec fn record(self, place: DefinedPosView) -> DatapackView {
        let k = position(self.defined_paths(), place.path);
        DatapackView {
            defined_file_pos: if 0 <= k < self.defined_file_pos.len() {
                self.defined_file_pos.update(k, place)
            } else {
                self.defined_file_pos.push(place)
            },
            ..self
        }
    }
}

impl Datapack {
    /// The datapack before anything is compiled: it holds the load
    /// function, without commands, and nothing else.
    pub fn new(config: &Configuration) -> (r: Self)
        ensures
            r@ == DatapackView::blank(config@),
            r@.wf(),
    {
        let mut functions: Vec<(String, McFunction)> = Vec::new();
        let none: Vec<String> = Vec::new();
        assert(string_views(none@) =~= Seq::empty());
        functions.push((config.load_name.clone(), McFunction::from(none)));
        let r = Self {
            version: config.pack_version,
            namespace: config.namespace.clone(),
            ints: Vec::new(),
            functions,
            jsons: Vec::new(),
            scoreboards: Vec::new(),
            loads: Vec::new(),
            ticks: Vec::new(),
            after_loads: Vec::new(),
            after_ticks: Vec::new(),
            used_command: Vec::new(),
            defined_file_pos: Vec::new(),
        };
        assert(r@.functions =~= seq![(config@.load_name, Seq::empty())]);
        assert(r@.jsons =~= Seq::empty());
        assert(r@.scoreboards =~= Seq::empty());
        assert(r@.used_command =~= Seq::empty());
        assert(r@.loads =~= Seq::empty());
        assert(r@.ticks =~= Seq::empty());
        assert(r@.after_loads =~= Seq::empty());
        assert(r@.after_ticks =~= Seq::empty());
        assert(r@.ints =~= Seq::empty());
        assert(r@.defined_file_pos =~= Seq::empty());
        proof {
            lemma_blank_is_well_formed(config@);
        }
        r
    }

    /// The place of the function at `path` among the functions.
    pub fn function_index(&self, path: &str) -> (r: Option<usize>)
        ensures
            match r {
                Some(k) => k == position(self@.function_paths(), path@) && k < self.functions.len(),
                None => !self@.has_function(path@),
            },
    {
        let ghost keys = self@.function_paths();
        let mut i: usize = 0;
        while i < self.functions.len()
            invariant
                i <= self.functions.len(),
                keys == self@.function_paths(),
                forall|j: int| 0 <= j < i ==> keys[j] != path@,
            decreases self.functions.len() - i,
        {
            if str_equal(self.functions[i].0.as_str(), path) {
                proof {
                    assert(keys[i as int] == path@);
                    lemma_position_is(keys, path@, i as int);
                }
                return Some(i);
            }
            i += 1;
        }
        proof {
            lemma_position_is(keys, path@, i as int);
        }
        None
    }

    /// The place of the resource at `path` among the resources.
    pub fn json_index(&self, path: &str) -> (r: Option<usize>)
        ensures
            match r {
                Some(k) => k == position(self@.json_paths(), path@) && k < self.jsons.len(),
                None => !self@.has_json(path@),
            },
    {
        let ghost keys = self@.json_paths();
        let mut i: usize = 0;
        while i < self.jsons.len()
            invariant
                i <= self.jsons.len(),
                keys == self@.json_paths(),
                forall|j: int| 0 <= j < i ==> keys[j] != path@,
            decreases self.jsons.len() - i,
        {
            if str_equal(self.jsons[i].0.as_str(), path) {
                proof {
                    assert(keys[i as int] == path@);
                    lemma_position_is(keys, path@, i as int);
                }
                return Some(i);
            }
            i += 1;
        }
        proof {
            lemma_position_is(keys, path@, i as int);
        }
        None
    }

    /// The place of the record for `path` among the records of definitions.
    pub fn defined_index(&self, path: &str) -> (r: Option<usize>)
        ensures
            match r {
                Some(k) => k == position(self@.defined_paths(), path@) && k
                    < self.defined_file_pos.len() && self@.defined_at(path@) == Some(
                    self.defined_file_pos[k as int]@,
                ),
                None => self@.defined_at(path@) is None,
            },
    {
        let ghost keys = self@.defined_paths();
        let mut i: usize = 0;
        while i < self.defined_file_pos.len()
            invariant
                i <= self.defined_file_pos.len(),
                keys == self@.defined_paths(),
                forall|j: int| 0 <= j < i ==> keys[j] != path@,
            decreases self.defined_file_pos.len() - i,
        {
            if str_equal(self.defined_file_pos[i].path.as_str(), path) {
                proof {
                    assert(keys[i as int] == path@);
                    lemma_position_is(keys, path@, i as int);
                }
                return Some(i);
            }
            i += 1;
        }
        proof {
            lemma_position_is(keys, path@, i as int);
        }
        None
    }

    /// Puts the function `function` at `path`.
    pub fn insert_function(&mut self, path: String, function: McFunction)
        ensures
            final(self)@ == old(self)@.insert_function(path@, function@),
            old(self)@.wf() ==> final(self)@.wf(),
    {
        proof {
            lemma_insert_function_keeps(self@, path@, function@);
        }
        match self.function_index(path.as_str()) {
            Some(k) => {
                self.functions[k] = (path, function);
                assert(self@.functions =~= old(self)@.functions.update(
                    k as int,
                    (path@, function@),
                ));
            },
            None => {
                self.functions.push((path, function));
                assert(self@.functions =~= old(self)@.functions.push((path@, function@)));
            },
        }
        assert(self@.jsons =~= old(self)@.jsons);
        assert(self@.defined_file_pos =~= old(self)@.defined_file_pos);
    }

    /// Appends `commands` to the function at `path`.
    pub fn extend_function(&mut self, path: &str, commands: Vec<String>)
        ensures
            final(self)@ == old(self)@.extend_function(path@, string_views(commands@)),
            old(self)@.wf() ==> final(self)@.wf(),
    {
        proof {
            lemma_extend_function_keeps(self@, path@, string_views(commands@));
        }
        match self.function_index(path) {
            Some(k) => {
                let ghost before = self.functions[k as int].1@;
                assert(self@.function_paths()[k as int] == self.functions[k as int].0@);
                proof {
                    lemma_position(self@.function_paths(), path@);
                }
                let ghost entries = self.functions@;
                let (key, mut function) = self.functions.remove(k);
                function.extend(commands);
                self.functions.insert(k, (key, function));
                assert(key@ == path@);
                assert(self.functions@ =~= entries.update(k as int, (key, function)));
                assert(self@.functions =~= old(self)@.functions.update(
                    k as int,
                    (path@, before + string_views(commands@)),
                ));
            },
            None => {
                let function = McFunction::from(commands);
                self.functions.push((path.to_owned(), function));
                assert(self@.functions =~= old(self)@.functions.push(
                    (path@, string_views(commands@)),
                ));
            },
        }
        assert(self@.jsons =~= old(self)@.jsons);
        assert(self@.defined_file_pos =~= old(self)@.defined_file_pos);
    }

    /// Puts the resource with the JSON text `text` at `path`.
    pub fn insert_json(&mut self, path: String, text: String)
        ensures
            final(self)@ == old(self)@.insert_json(path@, text@),
            old(self)@.wf() ==> final(self)@.wf(),
    {
        proof {
            lemma_insert_json_keeps(self@, path@, text@);
        }
        match self.json_index(path.as_str()) {
            Some(k) => {
                self.jsons[k] = (path, text);
                assert(self@.jsons =~= old(self)@.jsons.update(k as int, (path@, text@)));
            },
            None => {
                self.jsons.push((path, text));
                assert(self@.jsons =~= old(self)@.jsons.push((path@, text@)));
            },
        }
        assert(self@.functions =~= old(self)@.functions);
        assert(self@.defined_file_pos =~= old(self)@.defined_file_pos);
    }

    /// Puts the definition `place` on record.
    pub fn record(&mut self, place: DefinedPos)
        ensures
            final(self)@ == old(self)@.record(place@),
            old(self)@.wf() ==> final(self)@.wf(),
    {
        proof {
            lemma_record_keeps(self@, place@);
        }
        match self.defined_index(place.path.as_str()) {
            Some(k) => {
                self.defined_file_pos[k] = place;
                assert(self@.defined_file_pos =~= old(self)@.defined_file_pos.update(
                    k as int,
                    place@,
                ));
            },
            None => {
                self.defined_file_pos.push(place);
                assert(self@.defined_file_pos =~= old(self)@.defined_file_pos.push(place@));
            },
        }
        assert(self@.functions =~= old(self)@.functions);
        assert(self@.jsons =~= old(self)@.jsons);
    }
}

/// A list of keys keeps being without duplicates where one that it lacks
/// joins it.
pub proof fn lemma_push_no_duplicates(keys: Seq<Seq<char>>, key: Seq<char>)
    requires
        keys.no_duplicates(),
        position(keys, key) >= keys.len(),
    ensures
        keys.push(key).no_duplicates(),
{
    lemma_position(keys, key);
    let after = keys.push(key);
    assert forall|i: int, j: int| 0 <= i < after.len() && 0 <= j < after.len() && i != j implies after[i]
        != after[j] by {
        if i < keys.len() && j < keys.len() {
        } else if i < keys.len() {
            assert(keys.contains(keys[i]));
        } else {
            assert(keys.contains(keys[j]));
        }
    }
}

/// The datapack before anything is compiled is well formed.
pub proof fn lemma_blank_is_well_formed(config: crate::configuration::ConfigurationView)
    ensures
        DatapackView::blank(config).wf(),
{
    let d = DatapackView::blank(config);
    assert(d.function_paths().len() == 1);
    assert(d.json_paths().len() == 0);
    assert(d.defined_paths().len() == 0);
}

/// A function that is put at a path leaves the datapack well formed.
pub proof fn lemma_insert_function_keeps(d: DatapackView, path: Seq<char>, commands: Seq<Seq<char>>)
    ensures
        d.wf() ==> d.insert_function(path, commands).wf(),
        d.insert_function(path, commands).has_function(path),
{
    let k = position(d.function_paths(), path);
    let after = d.insert_function(path, commands);
    lemma_position(d.function_paths(), path);
    if 0 <= k < d.functions.len() {
        assert(after.function_paths() =~= d.function_paths());
    } else {
        assert(after.function_paths() =~= d.function_paths().push(path));
        if d.wf() {
            lemma_push_no_duplicates(d.function_paths(), path);
        }
        lemma_position_is(after.function_paths(), path, d.functions.len() as int);
    }
    assert(after.json_paths() =~= d.json_paths());
    assert(after.defined_paths() =~= d.defined_paths());
}

/// Commands that join the function at a path leave the datapack well formed.
pub proof fn lemma_extend_function_keeps(d: DatapackView, path: Seq<char>, commands: Seq<Seq<char>>)
    ensures
        d.wf() ==> d.extend_function(path, commands).wf(),
{
    let k = position(d.function_paths(), path);
    let after = d.extend_function(path, commands);
    lemma_position(d.function_paths(), path);
    if 0 <= k < d.functions.len() {
        assert(after.function_paths() =~= d.function_paths());
    } else {
        assert(after.function_paths() =~= d.function_paths().push(path));
        if d.wf() {
            lemma_push_no_duplicates(d.function_paths(), path);
        }
    }
    assert(after.json_paths() =~= d.json_paths());
    assert(after.defined_paths() =~= d.defined_paths());
}

/// A resource that is put at a path leaves the datapack well formed.
pub proof fn lemma_insert_json_keeps(d: DatapackView, path: Seq<char>, text: Seq<char>)
    ensures
        d.wf() ==> d.insert_json(path, text).wf(),
{
    let k = position(d.json_paths(), path);
    let after = d.insert_json(path, text);
    lemma_position(d.json_paths(), path);
    if 0 <= k < d.jsons.len() {
        assert(after.json_paths() =~= d.json_paths());
    } else {
        assert(after.json_paths() =~= d.json_paths().push(path));
        if d.wf() {
            lemma_push_no_duplicates(d.json_paths(), path);
        }
    }
    assert(after.function_paths() =~= d.function_paths());
    assert(after.defined_paths() =~= d.defined_paths());
}

/// A definition that goes on record leaves the datapack well formed.
pub proof fn lemma_record_keeps(d: DatapackView, place: DefinedPosView)
    ensures
        d.wf() ==> d.record(place).wf(),
{
    let k = position(d.defined_paths(), place.path);
    let after = d.record(place);
    lemma_position(d.defined_paths(), place.path);
    if 0 <= k < d.defined_file_pos.len() {
        assert(after.defined_paths() =~= d.defined_paths());
    } else {
        assert(after.defined_paths() =~= d.defined_paths().push(place.path));
        if d.wf() {
            lemma_push_no_duplicates(d.defined_paths(), place.path);
        }
    }
    assert(after.function_paths() =~= d.function_paths());
    assert(after.json_paths() =~= d.json_paths());
}

/// A function whose name and form were checked and whose body is still text.
#[derive(Debug)]
pub struct PreMcFunction {
    /// What stands between the curly brackets of the definition.
    pub func_content: String,
    /// The path of the source file.
    pub jmc_file_path: String,
    /// The line of the opening curly bracket.
    pub line: u32,
    /// The column of the opening curly bracket.
    pub col: u32,
    /// The path of the function in the datapack.
    pub func_path: String,
    /// The token that names the function.
    pub self_token: Token,
    /// The round bracket behind the name.
    pub params: Token,
    /// The text of the whole source file.
    pub file_string: String,
    /// The path of the class that the function is defined in, with its `/`;
    /// empty outside a class.
    pub prefix: String,
}

/// A function with its body as text, as a plain value.
pub struct PreMcFunctionView {
    pub func_content: Seq<char>,
    pub jmc_file_path: Seq<char>,
    pub line: u32,
    pub col: u32,
    pub func_path: Seq<char>,
    pub self_token: TokenView,
    pub params: TokenView,
    pub file_string: Seq<char>,
    pub prefix: Seq<char>,
}

impl View for PreMcFunction {
    type V = PreMcFunctionView;

    open spec fn view(&self) -> PreMcFunctionView {
        PreMcFunctionView {
            func_content: self.func_content@,
            jmc_file_path: self.jmc_file_path@,
            line: self.line,
            col: self.col,
            func_path: self.func_path@,
            self_token: self.self_token@,
            params: self.params@,
            file_string: self.file_string@,
            prefix: self.prefix@,
        }
    }
}

impl PreMcFunctionView {
    /// The tokenizer that reads the body: before its first character, at the
    /// place of the opening curly bracket in the file.
    pub open spec fn body_tokenizer(self, working_dir: Seq<char>) -> TokenizerView {
        TokenizerView::fresh_at(
            self.func_content,
            self.jmc_file_path,
            Some(self.file_string),
            working_dir,
            false,
            self.line,
            self.col,
        )
    }
}

impl PreMcFunction {
    pub fn new(
        func_content: String,
        jmc_file_path: String,
        line: u32,
        col: u32,
        func_path: String,
        self_token: Token,
        params: Token,
        file_string: String,
        prefix: String,
    ) -> (r: Self)
        ensures
            r@ == (PreMcFunctionView {
                func_content: func_content@,
                jmc_file_path: jmc_file_path@,
                line,
                col,
                func_path: func_path@,
                self_token: self_token@,
                params: params@,
                file_string: file_string@,
                prefix: prefix@,
            }),
    {
        PreMcFunction {
            func_content,
            jmc_file_path,
            line,
            col,
            func_path,
            self_token,
            params,
            file_string,
            prefix,
        }
    }

    /// Tokenizes the body, as statements that end with semicolons, from the
    /// place of the opening curly bracket on: the statements for the content
    /// parser, and the function's path.
    pub fn parse(self, header: &Header) -> (r: Result<(FuncContent, String), JMCError>)
        ensures
            match crate::forms::function_body(
                self@,
                header.inner.working_dir@,
                crate::header::macro_views(header.inner.macros@),
            ) {
                Ok(content) => r is Ok && r->Ok_0.0@ == content && r->Ok_0.1@ == self@.func_path,
                Err(e) => r is Err && r->Err_0@ == e,
            },
    {
        let tokenizer = crate::tokenizer::Tokenizer::parse_raw_string_col_line(
            header,
            self.func_content,
            self.jmc_file_path,
            Some(self.file_string),
            true,
            false,
            self.line,
            self.col,
        )?;
        let programs = crate::lexer_func_content::clone_statements(&tokenizer.programs);
        Ok((FuncContent::new(tokenizer, programs, false, self.prefix), self.func_path))
    }
}

} // verus!
