//! Executor-neutral actions produced by lowering a semantic build plan.

pub mod laws;
pub mod n2_adapter;
pub mod plan;

use vstd::prelude::*;

use crate::build_plan::artifact::PathKey;
use crate::path::{path_equal, path_key};
use crate::shell::{has_nul_word, join_native, shlex_join};
use crate::text::str_eq;

verus! {

/// The identities of a list of paths.
pub open spec fn path_keys(v: Seq<String>) -> Seq<PathKey> {
    Seq::new(v.len(), |i: int| path_key(v[i]@))
}

/// The characters of a list of strings.
pub open spec fn strings_view(v: Seq<String>) -> Seq<Seq<char>> {
    Seq::new(v.len(), |i: int| v[i]@)
}

/// The characters of a list of string pairs.
pub open spec fn pairs_view(v: Seq<(String, String)>) -> Seq<(Seq<char>, Seq<char>)> {
    Seq::new(v.len(), |i: int| (v[i].0@, v[i].1@))
}

/// Whether two lists of paths are equal path by path.
pub fn paths_equal(a: &Vec<String>, b: &Vec<String>) -> (r: bool)
    ensures
        r == (path_keys(a@) == path_keys(b@)),
{
    if a.len() != b.len() {
        assert(path_keys(a@).len() != path_keys(b@).len());
        return false;
    }
    let mut i: usize = 0;
    while i < a.len()
        invariant
            a.len() == b.len(),
            i <= a.len(),
            forall|j: int| 0 <= j < i ==> path_key(a@[j]@) == path_key(b@[j]@),
        decreases a.len() - i,
    {
        if !path_equal(a[i].as_str(), b[i].as_str()) {
            assert(path_keys(a@)[i as int] != path_keys(b@)[i as int]);
            return false;
        }
        i = i + 1;
    }
    assert(path_keys(a@) =~= path_keys(b@));
    true
}

/// Whether two lists of strings hold the same characters.
pub fn strings_equal(a: &Vec<String>, b: &Vec<String>) -> (r: bool)
    ensures
        r == (strings_view(a@) == strings_view(b@)),
{
    if a.len() != b.len() {
        assert(strings_view(a@).len() != strings_view(b@).len());
        return false;
    }
    let mut i: usize = 0;
    while i < a.len()
        invariant
            a.len() == b.len(),
            i <= a.len(),
            forall|j: int| 0 <= j < i ==> a@[j]@ == b@[j]@,
        decreases a.len() - i,
    {
        if !str_eq(a[i].as_str(), b[i].as_str()) {
            assert(strings_view(a@)[i as int] != strings_view(b@)[i as int]);
            return false;
        }
        i = i + 1;
    }
    assert(strings_view(a@) =~= strings_view(b@));
    true
}

/// Whether two lists of string pairs hold the same characters.
pub fn pairs_equal(a: &Vec<(String, String)>, b: &Vec<(String, String)>) -> (r: bool)
    ensures
        r == (pairs_view(a@) == pairs_view(b@)),
{
    if a.len() != b.len() {
        assert(pairs_view(a@).len() != pairs_view(b@).len());
        return false;
    }
    let mut i: usize = 0;
    while i < a.len()
        invariant
            a.len() == b.len(),
            i <= a.len(),
            forall|j: int| 0 <= j < i ==> a@[j].0@ == b@[j].0@ && a@[j].1@ == b@[j].1@,
        decreases a.len() - i,
    {
        if !str_eq(a[i].0.as_str(), b[i].0.as_str()) || !str_eq(a[i].1.as_str(), b[i].1.as_str()) {
            assert(pairs_view(a@)[i as int] != pairs_view(b@)[i as int]);
            return false;
        }
        i = i + 1;
    }
    assert(pairs_view(a@) =~= pairs_view(b@));
    true
}

/// A copy of a list of strings.
pub fn copy_strings(a: &Vec<String>) -> (r: Vec<String>)
    ensures
        r@ == a@,
{
    let mut r: Vec<String> = Vec::new();
    let mut i: usize = 0;
    while i < a.len()
        invariant
            i <= a.len(),
            r@ == a@.take(i as int),
        decreases a.len() - i,
    {
        r.push(a[i].clone());
        assert(a@.take(i + 1) =~= a@.take(i as int).push(a@[i as int]));
        i = i + 1;
    }
    assert(a@.take(a.len() as int) =~= a@);
    r
}

/// A copy of a list of string pairs.
pub fn copy_pairs(a: &Vec<(String, String)>) -> (r: Vec<(String, String)>)
    ensures
        r@ == a@,
{
    let mut r: Vec<(String, String)> = Vec::new();
    let mut i: usize = 0;
    while i < a.len()
        invariant
            i <= a.len(),
            r@ == a@.take(i as int),
        decreases a.len() - i,
    {
        r.push((a[i].0.clone(), a[i].1.clone()));
        assert(a@.take(i + 1) =~= a@.take(i as int).push(a@[i as int]));
        i = i + 1;
    }
    assert(a@.take(a.len() as int) =~= a@);
    r
}

/// Process-local identity of one concrete execution action: its position in
/// the owning [`plan::ExecutionPlan`].
#[derive(Clone, Copy, Debug, PartialEq, Eq, Structural, Hash, PartialOrd, Ord)]
pub struct ActionId(pub usize);

/// A concrete file observation that is not produced by an action in this plan.
#[derive(Debug, Clone, PartialEq, Eq, Hash, PartialOrd, Ord)]
pub enum ExternalInput {
    /// One regular file observed by the action.
    File(String),
    /// The recursive `.mi` tree observed through `moonc -std-path`.
    StandardLibraryInterfaces(String),
}

/// The value of an [`ExternalInput`].
pub enum ExternalInputView {
    File(PathKey),
    StandardLibraryInterfaces(PathKey),
}

impl View for ExternalInput {
    type V = ExternalInputView;

    open spec fn view(&self) -> ExternalInputView {
        match self {
            ExternalInput::File(p) => ExternalInputView::File(path_key(p@)),
            ExternalInput::StandardLibraryInterfaces(p) => ExternalInputView::StandardLibraryInterfaces(
                path_key(p@),
            ),
        }
    }
}

/// The path observed by an external input.
pub open spec fn external_input_path(e: ExternalInput) -> Seq<char> {
    match e {
        ExternalInput::File(p) => p@,
        ExternalInput::StandardLibraryInterfaces(p) => p@,
    }
}

impl ExternalInput {
    /// The observed path.
    pub fn path(&self) -> (r: &str)
        ensures
            r@ == external_input_path(*self),
    {
        match self {
            ExternalInput::File(p) => p.as_str(),
            ExternalInput::StandardLibraryInterfaces(p) => p.as_str(),
        }
    }

    /// The path the executor tracks as a file: regular files only; the
    /// standard-library interface tree is not a single file.
    pub fn n2_path(&self) -> (r: Option<&str>)
        ensures
            match self {
                ExternalInput::File(p) => r matches Some(s) && s@ == p@,
                ExternalInput::StandardLibraryInterfaces(_) => r is None,
            },
    {
        match self {
            ExternalInput::File(p) => Some(p.as_str()),
            ExternalInput::StandardLibraryInterfaces(_) => None,
        }
    }

    /// A copy of this input.
    pub fn duplicate(&self) -> (r: ExternalInput)
        ensures
            r == *self,
    {
        match self {
            ExternalInput::File(p) => ExternalInput::File(p.clone()),
            ExternalInput::StandardLibraryInterfaces(p) => ExternalInput::StandardLibraryInterfaces(
                p.clone(),
            ),
        }
    }

    /// Whether two inputs observe the same thing.
    pub fn same_as(&self, other: &ExternalInput) -> (r: bool)
        ensures
            r == (self@ == other@),
    {
        match (self, other) {
            (ExternalInput::File(a), ExternalInput::File(b)) => path_equal(a.as_str(), b.as_str()),
            (
                ExternalInput::StandardLibraryInterfaces(a),
                ExternalInput::StandardLibraryInterfaces(b),
            ) => path_equal(a.as_str(), b.as_str()),
            _ => false,
        }
    }
}

/// The values of a list of external inputs.
pub open spec fn external_inputs_view(v: Seq<ExternalInput>) -> Seq<ExternalInputView> {
    Seq::new(v.len(), |i: int| v[i]@)
}

fn external_inputs_equal(a: &Vec<ExternalInput>, b: &Vec<ExternalInput>) -> (r: bool)
    ensures
        r == (external_inputs_view(a@) == external_inputs_view(b@)),
{
    if a.len() != b.len() {
        assert(external_inputs_view(a@).len() != external_inputs_view(b@).len());
        return false;
    }
    let mut i: usize = 0;
    while i < a.len()
        invariant
            a.len() == b.len(),
            i <= a.len(),
            forall|j: int| 0 <= j < i ==> a@[j]@ == b@[j]@,
        decreases a.len() - i,
    {
        if !a[i].same_as(&b[i]) {
            assert(external_inputs_view(a@)[i as int] != external_inputs_view(b@)[i as int]);
            return false;
        }
        i = i + 1;
    }
    assert(external_inputs_view(a@) =~= external_inputs_view(b@));
    true
}

fn copy_external_inputs(a: &Vec<ExternalInput>) -> (r: Vec<ExternalInput>)
    ensures
        r@ == a@,
{
    let mut r: Vec<ExternalInput> = Vec::new();
    let mut i: usize = 0;
    while i < a.len()
        invariant
            i <= a.len(),
            r@ == a@.take(i as int),
        decreases a.len() - i,
    {
        r.push(a[i].duplicate());
        assert(a@.take(i + 1) =~= a@.take(i as int).push(a@[i as int]));
        i = i + 1;
    }
    assert(a@.take(a.len() as int) =~= a@);
    r
}

/// A response file selected while lowering a command.
#[derive(Debug, Clone, PartialEq, Eq)]
pub struct LoweredResponseFile {
    pub path: String,
    pub content: String,
}

/// How the process command is transported to an executor.
#[derive(Debug, Clone, PartialEq, Eq)]
pub enum LoweredCommandExecution {
    Inline(String),
    ResponseFile { command: String, file: LoweredResponseFile },
}

/// The value of a [`LoweredCommandExecution`].
pub enum ExecutionView {
    Inline(Seq<char>),
    ResponseFile { command: Seq<char>, path: PathKey, content: Seq<char> },
}

impl View for LoweredCommandExecution {
    type V = ExecutionView;

    open spec fn view(&self) -> ExecutionView {
        match self {
            LoweredCommandExecution::Inline(c) => ExecutionView::Inline(c@),
            LoweredCommandExecution::ResponseFile { command, file } => ExecutionView::ResponseFile {
                command: command@,
                path: path_key(file.path@),
                content: file.content@,
            },
        }
    }
}

impl LoweredCommandExecution {
    fn duplicate(&self) -> (r: LoweredCommandExecution)
        ensures
            r == *self,
    {
        match self {
            LoweredCommandExecution::Inline(c) => LoweredCommandExecution::Inline(c.clone()),
            LoweredCommandExecution::ResponseFile { command, file } => {
                LoweredCommandExecution::ResponseFile {
                    command: command.clone(),
                    file: LoweredResponseFile {
                        path: file.path.clone(),
                        content: file.content.clone(),
                    },
                }
            },
        }
    }

    fn same_as(&self, other: &LoweredCommandExecution) -> (r: bool)
        ensures
            r == (self@ == other@),
    {
        match (self, other) {
            (LoweredCommandExecution::Inline(a), LoweredCommandExecution::Inline(b)) => str_eq(
                a.as_str(),
                b.as_str(),
            ),
            (
                LoweredCommandExecution::ResponseFile { command: c1, file: f1 },
                LoweredCommandExecution::ResponseFile { command: c2, file: f2 },
            ) => str_eq(c1.as_str(), c2.as_str()) && path_equal(f1.path.as_str(), f2.path.as_str())
                && str_eq(f1.content.as_str(), f2.content.as_str()),
            _ => false,
        }
    }
}

/// A concrete process command and its selected process transport.
///
/// `args` retains the logical form for metadata consumers. `execution` records
/// whether the same command is sent inline or through a response file.
#[derive(Debug, Clone, PartialEq, Eq)]
pub struct LoweredCommand {
    pub args: Vec<String>,
    pub execution: LoweredCommandExecution,
    pub cwd: Option<String>,
    pub env: Vec<(String, String)>,
}

/// The value of a [`LoweredCommand`].
pub struct LoweredCommandView {
    pub args: Seq<Seq<char>>,
    pub execution: ExecutionView,
    pub cwd: Option<PathKey>,
    pub env: Seq<(Seq<char>, Seq<char>)>,
}

impl View for LoweredCommand {
    type V = LoweredCommandView;

    open spec fn view(&self) -> LoweredCommandView {
        LoweredCommandView {
            args: strings_view(self.args@),
            execution: self.execution@,
            cwd: match self.cwd {
                Some(c) => Some(path_key(c@)),
                None => None,
            },
            env: pairs_view(self.env@),
        }
    }
}

/// The program a command runs: its first argument, if any.
pub open spec fn command_program(c: LoweredCommand) -> Option<Seq<char>> {
    if c.args@.len() > 0 {
        Some(c.args@[0]@)
    } else {
        None
    }
}

/// A command built from an argument list keeps the list as its arguments,
/// is sent inline as the list's shell rendering, has no working directory
/// and no extra environment, and runs the list's first word.
pub proof fn law_command_from_args(args: Vec<String>, c: LoweredCommand)
    requires
        !has_nul_word(args.deep_view()),
        call_ensures(LoweredCommand::from_args, (args,), c),
    ensures
        c.args@ == args@,
        c.execution == LoweredCommandExecution::Inline(c.execution->Inline_0),
        c.execution->Inline_0@ == shlex_join(args.deep_view()),
        c.cwd is None,
        c.env@.len() == 0,
        command_program(c) == (if args@.len() > 0 {
            Some(args@[0]@)
        } else {
            None::<Seq<char>>
        }),
{
}

impl LoweredCommand {
    /// A command sent inline as the shell rendering of `args`.
    pub fn from_args(args: Vec<String>) -> (r: LoweredCommand)
        requires
            !has_nul_word(args.deep_view()),
        ensures
            r.args@ == args@,
            r.execution == LoweredCommandExecution::Inline(r.execution->Inline_0),
            r.execution->Inline_0@ == shlex_join(args.deep_view()),
            r.cwd is None,
            r.env@.len() == 0,
    {
        let command = match join_native(&args) {
            Some(c) => c,
            None => {
                proof {
                    assert(false);
                }
                String::new()
            },
        };
        LoweredCommand {
            args,
            execution: LoweredCommandExecution::Inline(command),
            cwd: None,
            env: Vec::new(),
        }
    }

    /// The inline command line.
    pub fn inline_command(&self) -> (r: &str)
        requires
            self.execution is Inline,
        ensures
            r@ == self.execution->Inline_0@,
    {
        match &self.execution {
            LoweredCommandExecution::Inline(c) => c.as_str(),
            LoweredCommandExecution::ResponseFile { command, .. } => {
                proof {
                    assert(false);
                }
                command.as_str()
            },
        }
    }

    /// This command, sent as `command` with its arguments in `file`.
    pub fn with_response_file(self, command: String, file: LoweredResponseFile) -> (r:
        LoweredCommand)
        ensures
            r == (LoweredCommand {
                execution: LoweredCommandExecution::ResponseFile { command, file },
                ..self
            }),
    {
        LoweredCommand { execution: LoweredCommandExecution::ResponseFile { command, file }, ..self }
    }

    /// The program run by this command: its first argument, if any.
    pub fn executable(&self) -> (r: Option<&str>)
        ensures
            self.args@.len() == 0 ==> r is None,
            self.args@.len() > 0 ==> (r matches Some(s) && s@ == self.args@[0]@),
            match r {
                Some(s) => command_program(*self) == Some(s@),
                None => command_program(*self) is None,
            },
    {
        if self.args.len() == 0 {
            None
        } else {
            Some(self.args[0].as_str())
        }
    }

    /// The logical arguments.
    pub fn args(&self) -> (r: &Vec<String>)
        ensures
            r == &self.args,
    {
        &self.args
    }

    /// The selected transport.
    pub fn execution(&self) -> (r: &LoweredCommandExecution)
        ensures
            r == &self.execution,
    {
        &self.execution
    }

    /// The working directory, if one is set.
    pub fn cwd(&self) -> (r: Option<&str>)
        ensures
            match self.cwd {
                Some(c) => r matches Some(s) && s@ == c@,
                None => r is None,
            },
    {
        match &self.cwd {
            Some(c) => Some(c.as_str()),
            None => None,
        }
    }

    /// The extra environment variables.
    pub fn env(&self) -> (r: &Vec<(String, String)>)
        ensures
            r == &self.env,
    {
        &self.env
    }

    /// This command, run in `cwd`.
    pub fn with_cwd(self, cwd: String) -> (r: LoweredCommand)
        ensures
            r == (LoweredCommand { cwd: Some(cwd), ..self }),
    {
        LoweredCommand { cwd: Some(cwd), ..self }
    }

    /// This command with `env` appended to its environment.
    pub fn with_env(self, env: Vec<(String, String)>) -> (r: LoweredCommand)
        ensures
            r.args == self.args,
            r.execution == self.execution,
            r.cwd == self.cwd,
            r.env@ == self.env@ + env@,
    {
        let mut s = self;
        let mut extra = env;
        s.env.append(&mut extra);
        s
    }

    /// A copy of this command.
    pub fn duplicate(&self) -> (r: LoweredCommand)
        ensures
            r.args@ == self.args@,
            r.execution == self.execution,
            r.cwd == self.cwd,
            r.env@ == self.env@,
    {
        LoweredCommand {
            args: copy_strings(&self.args),
            execution: self.execution.duplicate(),
            cwd: match &self.cwd {
                Some(c) => Some(c.clone()),
                None => None,
            },
            env: copy_pairs(&self.env),
        }
    }

    /// Whether two commands behave the same.
    pub fn same_as(&self, other: &LoweredCommand) -> (r: bool)
        ensures
            r == (self@ == other@),
    {
        let cwd_same = match (&self.cwd, &other.cwd) {
            (Some(a), Some(b)) => path_equal(a.as_str(), b.as_str()),
            (None, None) => true,
            _ => false,
        };
        strings_equal(&self.args, &other.args) && self.execution.same_as(&other.execution)
            && cwd_same && pairs_equal(&self.env, &other.env)
    }
}

/// Why an execution plan could not be adapted to the executor.
#[derive(Debug)]
pub enum N2AdapterError {
    /// The executor rejected an action; `message` is its report.
    N2 { package: Option<String>, action: ActionId, message: String },
}

} // verus!
