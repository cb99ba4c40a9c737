//! Where a command runs: its working directory and its sandbox.
//!
//! Paths are held as text. What the path rules of the platform make of them
//! is asked of `std::path`; the results are named here, and each rule of this
//! module is stated over those names. A path made from text is text, so the
//! results come back as strings without loss.

use vstd::prelude::*;
use vstd::string::StringExecFns;

verus! {

/// `std::path::Path::join`: `rel` under `base`, or `rel` alone where it is absolute.
pub uninterp spec fn path_joined(base: Seq<char>, rel: Seq<char>) -> Seq<char>;

/// `std::path::Path::strip_prefix`: what is left of `path` below `base`, if
/// `path` starts with the components of `base`.
pub uninterp spec fn path_stripped(path: Seq<char>, base: Seq<char>) -> Option<Seq<char>>;

/// `std::path::Path::parent`: `path` without its last component, if it has one.
pub uninterp spec fn path_parent(path: Seq<char>) -> Option<Seq<char>>;

/// `std::path::Path::extension`: what follows the last dot of the file name.
pub uninterp spec fn path_extension(path: Seq<char>) -> Option<Seq<char>>;

/// `std::path::Path::with_extension`: `path` with `ext` in place of its extension.
pub uninterp spec fn path_with_extension(path: Seq<char>, ext: Seq<char>) -> Seq<char>;

/// No character of `ext` separates path components on any platform.
pub open spec fn plain_extension(ext: Seq<char>) -> bool {
    forall|i: int| 0 <= i < ext.len() ==> #[trigger] ext[i] != '/' && ext[i] != '\\'
}

/// The view of an optional string.
pub open spec fn opt_text(s: Option<String>) -> Option<Seq<char>> {
    match s {
        Some(s) => Some(s@),
        None => None,
    }
}

/// The view of a result whose two sides are strings.
pub open spec fn text_result(r: Result<String, String>) -> Result<Seq<char>, Seq<char>> {
    match r {
        Ok(s) => Ok(s@),
        Err(e) => Err(e@),
    }
}

/// Calls `Path::join`. Both arguments are text, so the result is text too.
#[verifier::external_body]
fn join_path(base: &str, rel: &str) -> (r: String)
    ensures
        r@ == path_joined(base@, rel@),
{
    std::path::Path::new(base).join(rel).to_string_lossy().into_owned()
}

/// Calls `Path::strip_prefix`; its error, which carries nothing, becomes `None`.
#[verifier::external_body]
fn strip_path_prefix(path: &str, base: &str) -> (r: Option<String>)
    ensures
        opt_text(r) == path_stripped(path@, base@),
{
    std::path::Path::new(path).strip_prefix(base).ok().map(|p| p.to_string_lossy().into_owned())
}

/// Calls `Path::parent`.
#[verifier::external_body]
fn parent_path(path: &str) -> (r: Option<String>)
    ensures
        opt_text(r) == path_parent(path@),
{
    std::path::Path::new(path).parent().map(|p| p.to_string_lossy().into_owned())
}

/// Calls `Path::extension`.
#[verifier::external_body]
fn extension_of(path: &str) -> (r: Option<String>)
    ensures
        opt_text(r) == path_extension(path@),
{
    std::path::Path::new(path).extension().map(|e| e.to_string_lossy().into_owned())
}

/// Calls `Path::with_extension`, which does not take an extension that holds
/// a path separator.
#[verifier::external_body]
fn with_extension(path: &str, ext: &str) -> (r: String)
    requires
        plain_extension(ext@),
    ensures
        r@ == path_with_extension(path@, ext@),
{
    std::path::Path::new(path).with_extension(ext).to_string_lossy().into_owned()
}

/// The two syntaxes in which a fixture is written.
#[derive(Copy, Clone, Debug, PartialEq, Eq, Structural)]
pub enum FixtureKind {
    /// Key and value pairs.
    Structured,
    /// The compact script.
    Script,
}

/// The syntax that a file's extension stands for, or what is reported for it.
pub open spec fn kind_of(ext: Option<Seq<char>>) -> Result<FixtureKind, Seq<char>> {
    match ext {
        Some(e) => if e == "toml"@ {
            Ok(FixtureKind::Structured)
        } else if e == "trycmd"@ {
            Ok(FixtureKind::Script)
        } else {
            Err("Unsupported extension: "@ + e)
        },
        None => Err("No extension"@),
    }
}

/// The view of a `FixtureKind` or of the error in its place.
pub open spec fn kind_result(r: Result<FixtureKind, String>) -> Result<FixtureKind, Seq<char>> {
    match r {
        Ok(k) => Ok(k),
        Err(e) => Err(e@),
    }
}

impl FixtureKind {
    /// The syntax for a file with the extension `ext`.
    pub fn from_extension(ext: Option<&str>) -> (r: Result<FixtureKind, String>)
        ensures
            kind_result(r) == kind_of(
                match ext {
                    Some(e) => Some(e@),
                    None => None,
                },
            ),
    {
        match ext {
            Some(e) => {
                if crate::text::same_text(e, "toml") {
                    Ok(FixtureKind::Structured)
                } else if crate::text::same_text(e, "trycmd") {
                    Ok(FixtureKind::Script)
                } else {
                    Err(String::from_str("Unsupported extension: ").concat(e))
                }
            },
            None => Err(String::from_str("No extension")),
        }
    }

    /// The syntax of the fixture at `path`, by its extension.
    pub fn of_path(path: &str) -> (r: Result<FixtureKind, String>)
        ensures
            kind_result(r) == kind_of(path_extension(path@)),
    {
        match extension_of(path) {
            Some(e) => FixtureKind::from_extension(Some(e.as_str())),
            None => FixtureKind::from_extension(None),
        }
    }
}

/// The files and directories that may stand beside a fixture, under its name
/// with another extension.
#[derive(Copy, Clone, Debug, PartialEq, Eq, Structural)]
pub enum Sibling {
    /// What the command reads.
    Stdin,
    /// What the command is expected to write.
    Stdout,
    /// What the command is expected to write as errors.
    Stderr,
    /// The directory that seeds the sandbox.
    SandboxIn,
    /// What the sandbox is expected to hold afterwards.
    SandboxOut,
}

impl Sibling {
    /// The extension under which the sibling stands.
    pub open spec fn extension(self) -> Seq<char> {
        match self {
            Sibling::Stdin => "stdin"@,
            Sibling::Stdout => "stdout"@,
            Sibling::Stderr => "stderr"@,
            Sibling::SandboxIn => "in"@,
            Sibling::SandboxOut => "out"@,
        }
    }

    /// The sibling's path beside the fixture at `fixture`.
    pub fn path(self, fixture: &str) -> (r: String)
        ensures
            r@ == path_with_extension(fixture@, self.extension()),
    {
        proof {
            reveal_strlit("stdin");
            reveal_strlit("stdout");
            reveal_strlit("stderr");
            reveal_strlit("in");
            reveal_strlit("out");
        }
        match self {
            Sibling::Stdin => with_extension(fixture, "stdin"),
            Sibling::Stdout => with_extension(fixture, "stdout"),
            Sibling::Stderr => with_extension(fixture, "stderr"),
            Sibling::SandboxIn => with_extension(fixture, "in"),
            Sibling::SandboxOut => with_extension(fixture, "out"),
        }
    }
}

/// Describes a command's filesystem context.
#[derive(Clone, Debug, PartialEq, Eq)]
pub struct Filesystem {
    /// The working directory.
    pub cwd: Option<String>,
    /// The sandbox base.
    pub base: Option<String>,
    /// Whether the sandbox is compared after the run.
    pub sandbox: Option<bool>,
}

/// A `Filesystem` with its paths as character sequences.
pub struct FilesystemView {
    pub cwd: Option<Seq<char>>,
    pub base: Option<Seq<char>>,
    pub sandbox: Option<bool>,
}

impl View for Filesystem {
    type V = FilesystemView;

    open spec fn view(&self) -> FilesystemView {
        FilesystemView {
            cwd: opt_text(self.cwd),
            base: opt_text(self.base),
            sandbox: self.sandbox,
        }
    }
}

/// What is reported for a working directory outside the sandbox base.
pub open spec fn outside_base(cwd: Seq<char>, base: Seq<char>) -> Seq<char> {
    "fs.cwd ("@ + cwd + ") must be within fs.base ("@ + base + ")"@
}

impl FilesystemView {
    /// Nothing set.
    pub open spec fn empty() -> FilesystemView {
        FilesystemView { cwd: None, base: None, sandbox: None }
    }

    /// The defaults filled in, given the working directory already placed in
    /// the fixture's directory, the seed directory if it exists, and whether
    /// the expected sandbox exists.
    pub open spec fn filled(
        self,
        cwd: Option<Seq<char>>,
        seed: Option<Seq<char>>,
        expected_exists: bool,
    ) -> FilesystemView {
        let base = if self.base is Some {
            self.base
        } else if seed is Some {
            seed
        } else {
            cwd
        };
        FilesystemView {
            cwd: if cwd is Some {
                cwd
            } else {
                base
            },
            base,
            sandbox: if self.sandbox is Some {
                self.sandbox
            } else {
                Some(expected_exists)
            },
        }
    }

    /// The working directory, placed in the directory of the fixture at `fixture`.
    pub open spec fn placed_cwd(self, fixture: Seq<char>) -> Option<Seq<char>> {
        match self.cwd {
            Some(c) => Some(
                path_joined(
                    match path_parent(fixture) {
                        Some(dir) => dir,
                        None => "."@,
                    },
                    c,
                ),
            ),
            None => None,
        }
    }

    /// The context resolved for the fixture at `fixture`.
    pub open spec fn resolved(
        self,
        fixture: Seq<char>,
        seed_exists: bool,
        expected_exists: bool,
    ) -> FilesystemView {
        self.filled(
            self.placed_cwd(fixture),
            if seed_exists {
                Some(path_with_extension(fixture, Sibling::SandboxIn.extension()))
            } else {
                None
            },
            expected_exists,
        )
    }

    /// The working directory relative to the base, given what stripping the
    /// base off it left.
    pub open spec fn rel_cwd_from(self, stripped: Option<Seq<char>>) -> Result<
        Seq<char>,
        Seq<char>,
    > {
        match (self.cwd, self.base) {
            (Some(cwd), Some(base)) => match stripped {
                Some(rel) => Ok(rel),
                None => Err(outside_base(cwd, base)),
            },
            _ => Ok(Seq::empty()),
        }
    }

    /// The working directory relative to the base.
    pub open spec fn rel_cwd(self) -> Result<Seq<char>, Seq<char>> {
        match (self.cwd, self.base) {
            (Some(cwd), Some(base)) => self.rel_cwd_from(path_stripped(cwd, base)),
            _ => Ok(Seq::empty()),
        }
    }
}

impl Default for Filesystem {
    fn default() -> (r: Self)
        ensures
            r@ == FilesystemView::empty(),
    {
        Filesystem { cwd: None, base: None, sandbox: None }
    }
}

impl Filesystem {
    /// Whether the sandbox is compared after the run; unset means that it is not.
    pub fn sandbox(&self) -> (b: bool)
        ensures
            b == (self.sandbox == Some(true)),
    {
        match self.sandbox {
            Some(b) => b,
            None => false,
        }
    }

    /// The working directory relative to the base, where `stripped` is what
    /// stripping the base off the working directory left.
    pub fn rel_cwd_from(&self, stripped: Option<String>) -> (r: Result<String, String>)
        ensures
            text_result(r) == self@.rel_cwd_from(opt_text(stripped)),
    {
        match (&self.cwd, &self.base) {
            (Some(cwd), Some(base)) => match stripped {
                Some(rel) => Ok(rel),
                None => {
                    let msg = String::from_str("fs.cwd (").concat(cwd.as_str()).concat(
                        ") must be within fs.base (",
                    ).concat(base.as_str()).concat(")");
                    Err(msg)
                },
            },
            _ => Ok(String::new()),
        }
    }

    /// The working directory relative to the base: empty where one of the two
    /// is unset, an error where the working directory is not below the base.
    pub fn rel_cwd(&self) -> (r: Result<String, String>)
        ensures
            text_result(r) == self@.rel_cwd(),
    {
        match (&self.cwd, &self.base) {
            (Some(cwd), Some(base)) => {
                let stripped = strip_path_prefix(cwd.as_str(), base.as_str());
                self.rel_cwd_from(stripped)
            },
            _ => Ok(String::new()),
        }
    }

    /// Fills in the defaults, given the working directory already placed in
    /// the fixture's directory, the seed directory if it exists, and whether
    /// the expected sandbox exists.
    pub fn fill(&mut self, cwd: Option<String>, seed: Option<String>, expected_exists: bool)
        ensures
            final(self)@ == old(self)@.filled(opt_text(cwd), opt_text(seed), expected_exists),
    {
        if self.base.is_none() {
            if seed.is_some() {
                self.base = seed;
            } else {
                self.base = cwd.clone();
            }
        }
        if cwd.is_some() {
            self.cwd = cwd;
        } else {
            self.cwd = self.base.clone();
        }
        if self.sandbox.is_none() {
            self.sandbox = Some(expected_exists);
        }
    }

    /// Resolves the context for the fixture at `fixture`: the working
    /// directory is placed in the fixture's directory, and what is unset is
    /// filled in from the fixture's siblings.
    pub fn resolve(&mut self, fixture: &str, seed_exists: bool, expected_exists: bool)
        ensures
            final(self)@ == old(self)@.resolved(fixture@, seed_exists, expected_exists),
    {
        let cwd = match &self.cwd {
            Some(c) => {
                let dir = match parent_path(fixture) {
                    Some(dir) => dir,
                    None => String::from_str("."),
                };
                Some(join_path(dir.as_str(), c.as_str()))
            },
            None => None,
        };
        let seed = if seed_exists {
            Some(Sibling::SandboxIn.path(fixture))
        } else {
            None
        };
        self.fill(cwd, seed, expected_exists);
    }
}

/// After the defaults are filled in, the sandbox flag is set, and the working
/// directory is set exactly when the base is. Where both are set and no
/// working directory was given, they are the same path.
pub proof fn filled_is_settled(
    fs: FilesystemView,
    cwd: Option<Seq<char>>,
    seed: Option<Seq<char>>,
    expected_exists: bool,
)
    ensures
        fs.filled(cwd, seed, expected_exists).sandbox is Some,
        fs.filled(cwd, seed, expected_exists).cwd is Some <==> fs.filled(
            cwd,
            seed,
            expected_exists,
        ).base is Some,
        cwd is None ==> fs.filled(cwd, seed, expected_exists).cwd == fs.filled(
            cwd,
            seed,
            expected_exists,
        ).base,
{
}

/// What the fixture sets is kept: a base and a sandbox flag that are set are
/// not replaced, the seed directory is the base only where none is set, and
/// the sandbox is compared by default exactly when its expected content exists.
pub proof fn filled_keeps_settings(
    fs: FilesystemView,
    cwd: Option<Seq<char>>,
    seed: Option<Seq<char>>,
    expected_exists: bool,
)
    ensures
        fs.base is Some ==> fs.filled(cwd, seed, expected_exists).base == fs.base,
        fs.base is None && seed is Some ==> fs.filled(cwd, seed, expected_exists).base == seed,
        fs.sandbox is Some ==> fs.filled(cwd, seed, expected_exists).sandbox == fs.sandbox,
        fs.sandbox is None ==> fs.filled(cwd, seed, expected_exists).sandbox == Some(
            expected_exists,
        ),
{
}

/// Where the working directory or the base is unset, the relative working
/// directory is empty and no error is reported.
pub proof fn rel_cwd_of_unset(fs: FilesystemView)
    requires
        fs.cwd is None || fs.base is None,
    ensures
        fs.rel_cwd() == Ok::<Seq<char>, Seq<char>>(Seq::empty()),
{
}

} // verus!
