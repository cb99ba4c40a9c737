//! One test case: the command to run and what is expected of it.

use crate::args::Args;
use crate::bin::{bin_view, Bin, BinView};
use crate::env::{Env, EnvView};
use crate::file::{file_view, File, FileView};
use crate::fs::{opt_text, Filesystem, FilesystemView};
use crate::status::CommandStatus;
use crate::text::{clone_strings, views};
use crate::vars::EnvVars;
use vstd::prelude::*;
use vstd::std_specs::convert::FromSpecImpl;
use vstd::string::StringExecFns;

verus! {

/// How long a command may run: whole seconds and the nanoseconds beyond them.
#[derive(Copy, Clone, Debug, PartialEq, Eq, Structural)]
pub struct Timeout {
    pub secs: u64,
    pub nanos: u32,
}

/// The command of a test case and what is expected of it.
#[derive(Clone, Debug, PartialEq, Eq)]
pub struct Run {
    pub bin: Option<Bin>,
    pub args: Vec<String>,
    pub env: Env,
    pub stdin: Option<File>,
    pub stderr_to_stdout: bool,
    pub status: Option<CommandStatus>,
    pub expected_stdout: Option<File>,
    pub expected_stderr: Option<File>,
    pub binary: bool,
    pub timeout: Option<Timeout>,
}

/// A `Run` as mathematical values.
pub struct RunView {
    pub bin: Option<BinView>,
    pub args: Seq<Seq<char>>,
    pub env: EnvView,
    pub stdin: Option<FileView>,
    pub stderr_to_stdout: bool,
    pub status: Option<CommandStatus>,
    pub expected_stdout: Option<FileView>,
    pub expected_stderr: Option<FileView>,
    pub binary: bool,
    pub timeout: Option<Timeout>,
}

impl View for Run {
    type V = RunView;

    open spec fn view(&self) -> RunView {
        RunView {
            bin: bin_view(self.bin),
            args: views(self.args@),
            env: self.env@,
            stdin: file_view(self.stdin),
            stderr_to_stdout: self.stderr_to_stdout,
            status: self.status,
            expected_stdout: file_view(self.expected_stdout),
            expected_stderr: file_view(self.expected_stderr),
            binary: self.binary,
            timeout: self.timeout,
        }
    }
}

/// What a process is started with.
#[derive(Clone, Debug, PartialEq, Eq)]
pub struct Invocation {
    pub program: String,
    pub args: Vec<String>,
    pub cwd: Option<String>,
    pub env: EnvVars,
}

/// An `Invocation` as mathematical values.
pub struct InvocationView {
    pub program: Seq<char>,
    pub args: Seq<Seq<char>>,
    pub cwd: Option<Seq<char>>,
    pub env: Map<Seq<char>, Seq<char>>,
}

impl View for Invocation {
    type V = InvocationView;

    open spec fn view(&self) -> InvocationView {
        InvocationView {
            program: self.program@,
            args: views(self.args@),
            cwd: opt_text(self.cwd),
            env: self.env@,
        }
    }
}

/// The view of an `Invocation` or of the error in its place.
pub open spec fn invocation_result(r: Result<Invocation, String>) -> Result<
    InvocationView,
    Seq<char>,
> {
    match r {
        Ok(i) => Ok(i@),
        Err(e) => Err(e@),
    }
}

impl RunView {
    /// A run with nothing set.
    pub open spec fn empty() -> RunView {
        RunView {
            bin: None,
            args: Seq::empty(),
            env: EnvView::empty(),
            stdin: None,
            stderr_to_stdout: false,
            status: None,
            expected_stdout: None,
            expected_stderr: None,
            binary: false,
            timeout: None,
        }
    }

    /// The expected status; unset means success.
    pub open spec fn expected_status(self) -> CommandStatus {
        match self.status {
            Some(s) => s,
            None => CommandStatus::Success,
        }
    }

    /// The program to start, or why there is none: only a resolved path is
    /// ever started.
    pub open spec fn bin_path(self) -> Result<Seq<char>, Seq<char>> {
        match self.bin {
            Some(BinView::Path(p)) => Ok(p),
            Some(BinView::Name(n)) => Err("Unknown bin.name = "@ + n),
            Some(BinView::Error(e)) => Err(e),
            None => Err("No bin specified"@),
        }
    }

    /// What the process is started with, where `bin_exists` says whether the
    /// program's file exists and `parent` is the surrounding environment.
    pub open spec fn command(
        self,
        cwd: Option<Seq<char>>,
        bin_exists: bool,
        parent: Map<Seq<char>, Seq<char>>,
    ) -> Result<InvocationView, Seq<char>> {
        match self.bin_path() {
            Err(e) => Err(e),
            Ok(p) => if bin_exists {
                Ok(
                    InvocationView {
                        program: p,
                        args: self.args,
                        cwd,
                        env: self.env.applied(parent),
                    },
                )
            } else {
                Err("Bin doesn't exist: "@ + p)
            },
        }
    }
}

impl Default for Run {
    fn default() -> (r: Self)
        ensures
            r@ == RunView::empty(),
    {
        let r = Run {
            bin: None,
            args: Vec::new(),
            env: Env::default(),
            stdin: None,
            stderr_to_stdout: false,
            status: None,
            expected_stdout: None,
            expected_stderr: None,
            binary: false,
            timeout: None,
        };
        assert(views(r.args@) =~= Seq::<Seq<char>>::empty());
        r
    }
}

impl Run {
    /// The expected status; unset means success.
    pub fn status(&self) -> (r: CommandStatus)
        ensures
            r == self@.expected_status(),
    {
        match self.status {
            Some(s) => s,
            None => CommandStatus::Success,
        }
    }

    /// The bytes that the command reads, if any are given.
    pub fn stdin(&self) -> (r: Option<&[u8]>)
        ensures
            match r {
                Some(bytes) => self@.stdin is Some && bytes@ == self@.stdin->Some_0.bytes(),
                None => self@.stdin is None,
            },
    {
        match &self.stdin {
            Some(f) => Some(f.as_bytes()),
            None => None,
        }
    }

    /// The path of the program to start. A name that was not resolved and an
    /// error kept from resolution are reported here; nothing is looked up.
    pub fn bin_path(&self) -> (r: Result<String, String>)
        ensures
            crate::fs::text_result(r) == self@.bin_path(),
    {
        match &self.bin {
            Some(Bin::Path(path)) => Ok(path.clone()),
            Some(Bin::Name(name)) => Err(
                String::from_str("Unknown bin.name = ").concat(name.as_str()),
            ),
            Some(Bin::Error(err)) => Err(err.clone()),
            None => Err(String::from_str("No bin specified")),
        }
    }

    /// What to start the process with. `bin_exists` says whether the file at
    /// `bin_path()` exists; `vars` is the surrounding environment.
    pub fn to_command(&self, cwd: Option<&str>, bin_exists: bool, vars: EnvVars) -> (r: Result<
        Invocation,
        String,
    >)
        ensures
            invocation_result(r) == self@.command(
                match cwd {
                    Some(c) => Some(c@),
                    None => None,
                },
                bin_exists,
                vars@,
            ),
    {
        let program = match self.bin_path() {
            Ok(p) => p,
            Err(e) => {
                return Err(e);
            },
        };
        if !bin_exists {
            return Err(String::from_str("Bin doesn't exist: ").concat(program.as_str()));
        }
        let mut env = vars;
        self.env.apply(&mut env);
        let cwd = match cwd {
            Some(c) => Some(String::from_str(c)),
            None => None,
        };
        Ok(Invocation { program, args: clone_strings(&self.args), cwd, env })
    }
}

/// The top-level data of a fixture in the structured syntax.
#[derive(Clone, Debug, PartialEq, Eq)]
pub struct OneShot {
    pub bin: Option<Bin>,
    pub args: Args,
    pub env: Env,
    pub stderr_to_stdout: bool,
    pub status: Option<CommandStatus>,
    pub binary: bool,
    pub timeout: Option<Timeout>,
    pub fs: Filesystem,
}

impl Default for OneShot {
    fn default() -> (r: Self)
        ensures
            r.into_case()@ == TryCmdView::empty(),
    {
        OneShot {
            bin: None,
            args: Args::new(),
            env: Env::default(),
            stderr_to_stdout: false,
            status: None,
            binary: false,
            timeout: None,
            fs: Filesystem::default(),
        }
    }
}

impl OneShot {
    /// The test case that the fixture describes: its fields one for one, no
    /// payload yet.
    pub open spec fn into_case(self) -> TryCmd {
        TryCmd {
            run: Run {
                bin: self.bin,
                args: self.args.stored(),
                env: self.env,
                stdin: None,
                stderr_to_stdout: self.stderr_to_stdout,
                status: self.status,
                expected_stdout: None,
                expected_stderr: None,
                binary: self.binary,
                timeout: self.timeout,
            },
            fs: self.fs,
        }
    }
}

/// One test case.
#[derive(Clone, Debug, PartialEq, Eq)]
pub struct TryCmd {
    pub run: Run,
    pub fs: Filesystem,
}

/// A `TryCmd` as mathematical values.
pub struct TryCmdView {
    pub run: RunView,
    pub fs: FilesystemView,
}

impl TryCmdView {
    /// A test case with nothing set.
    pub open spec fn empty() -> TryCmdView {
        TryCmdView { run: RunView::empty(), fs: FilesystemView::empty() }
    }
}

impl View for TryCmd {
    type V = TryCmdView;

    open spec fn view(&self) -> TryCmdView {
        TryCmdView { run: self.run@, fs: self.fs@ }
    }
}

/// The view of a `TryCmd` or of the error in its place.
pub open spec fn case_result(r: Result<TryCmd, String>) -> Result<TryCmdView, Seq<char>> {
    match r {
        Ok(c) => Ok(c@),
        Err(e) => Err(e@),
    }
}

impl Default for TryCmd {
    fn default() -> (r: Self)
        ensures
            r@ == TryCmdView::empty(),
    {
        TryCmd { run: Run::default(), fs: Filesystem::default() }
    }
}

impl From<OneShot> for TryCmd {
    fn from(other: OneShot) -> (r: Self) {
        let OneShot { bin, args, env, stderr_to_stdout, status, binary, timeout, fs } = other;
        TryCmd {
            run: Run {
                bin,
                args: args.into_vec(),
                env,
                stdin: None,
                stderr_to_stdout,
                status,
                expected_stdout: None,
                expected_stderr: None,
                binary,
                timeout,
            },
            fs,
        }
    }
}

impl FromSpecImpl<OneShot> for TryCmd {
    open spec fn obeys_from_spec() -> bool {
        true
    }

    open spec fn from_spec(other: OneShot) -> TryCmd {
        other.into_case()
    }
}

impl TryCmd {
    /// Sets the payloads that stand beside the fixture: what the command
    /// reads and what it is expected to write.
    pub fn set_payloads(&mut self, stdin: Option<File>, stdout: Option<File>, stderr: Option<File>)
        ensures
            final(self)@ == (TryCmdView {
                run: RunView {
                    stdin: file_view(stdin),
                    expected_stdout: file_view(stdout),
                    expected_stderr: file_view(stderr),
                    ..old(self)@.run
                },
                fs: old(self)@.fs,
            }),
    {
        self.run.stdin = stdin;
        self.run.expected_stdout = stdout;
        self.run.expected_stderr = stderr;
    }
}

/// A program that is known by name only is never started: whatever the
/// working directory, the environment and the files on disk, the name is
/// reported as unknown.
pub proof fn unresolved_name_never_starts(
    run: RunView,
    name: Seq<char>,
    cwd: Option<Seq<char>>,
    bin_exists: bool,
    parent: Map<Seq<char>, Seq<char>>,
)
    requires
        run.bin == Some(BinView::Name(name)),
    ensures
        run.command(cwd, bin_exists, parent) == Err::<InvocationView, Seq<char>>(
            "Unknown bin.name = "@ + name,
        ),
{
}

/// An error kept from resolution is reported as it is, and nothing is started.
pub proof fn deferred_error_never_starts(
    run: RunView,
    error: Seq<char>,
    cwd: Option<Seq<char>>,
    bin_exists: bool,
    parent: Map<Seq<char>, Seq<char>>,
)
    requires
        run.bin == Some(BinView::Error(error)),
    ensures
        run.command(cwd, bin_exists, parent) == Err::<InvocationView, Seq<char>>(error),
{
}

/// A resolved path whose file does not exist is reported as missing, and
/// nothing is started.
pub proof fn missing_program_never_starts(
    run: RunView,
    path: Seq<char>,
    cwd: Option<Seq<char>>,
    parent: Map<Seq<char>, Seq<char>>,
)
    requires
        run.bin == Some(BinView::Path(path)),
    ensures
        run.command(cwd, false, parent) == Err::<InvocationView, Seq<char>>(
            "Bin doesn't exist: "@ + path,
        ),
{
}

/// A process is started only for a resolved path whose file exists, and then
/// with that path, the arguments as given and the environment that the
/// case's `Env` makes of the surrounding one.
pub proof fn started_only_for_existing_path(
    run: RunView,
    cwd: Option<Seq<char>>,
    bin_exists: bool,
    parent: Map<Seq<char>, Seq<char>>,
)
    ensures
        run.command(cwd, bin_exists, parent) is Ok <==> bin_exists && run.bin is Some
            && run.bin->Some_0 is Path,
        run.command(cwd, bin_exists, parent) matches Ok(inv) ==> run.bin == Some(
            BinView::Path(inv.program),
        ) && inv.args == run.args && inv.cwd == cwd && inv.env == run.env.applied(parent),
{
}

} // verus!
