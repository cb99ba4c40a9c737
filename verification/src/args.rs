//! The arguments of a command, given as a list or as one shell-quoted line.

use crate::text::views;
use vstd::prelude::*;

verus! {

/// The words that `shlex::Shlex` reads from `s`, in order. Reading stops at
/// the end of `s`, or before a word that a quotation or a backslash leaves
/// open.
pub uninterp spec fn shlex_words(s: Seq<char>) -> Seq<Seq<char>>;

/// The line that `shlex::join` writes for `words`: each word quoted where a
/// shell would need it, one space between two words.
pub uninterp spec fn shlex_joined(words: Seq<Seq<char>>) -> Seq<char>;

/// Collects what `shlex::Shlex::new(s)` yields. The contract names the
/// result; it says nothing of how the words are cut.
#[verifier::external_body]
pub(crate) fn split_words(s: &str) -> (words: Vec<String>)
    ensures
        views(words@) == shlex_words(s@),
{
    shlex::Shlex::new(s).collect()
}

/// Calls `shlex::join` on the words. The contract names the result; `join`
/// lets nul bytes pass and so has no input on which it fails.
#[allow(deprecated)]
#[verifier::external_body]
pub(crate) fn join_words(words: &Vec<String>) -> (line: String)
    ensures
        line@ == shlex_joined(views(words@)),
{
    shlex::join(words.iter().map(|w| w.as_str()))
}

/// Arguments that were written as one shell-quoted line.
#[derive(Clone, Debug, PartialEq, Eq)]
pub struct JoinedArgs {
    inner: Vec<String>,
}

impl View for JoinedArgs {
    type V = Seq<Seq<char>>;

    closed spec fn view(&self) -> Seq<Seq<char>> {
        views(self.inner@)
    }
}

impl Default for JoinedArgs {
    fn default() -> (r: Self)
        ensures
            r@ == Seq::<Seq<char>>::empty(),
    {
        let r = JoinedArgs { inner: Vec::new() };
        assert(r@ =~= Seq::<Seq<char>>::empty());
        r
    }
}

impl JoinedArgs {
    /// The arguments `inner`, as if they had been read from one line.
    pub fn from_vec(inner: Vec<String>) -> (r: Self)
        ensures
            r@ == views(inner@),
    {
        JoinedArgs { inner }
    }

    /// The words of the shell-quoted line `s`. Every line has words, if
    /// only none: there is no line for which this fails.
    pub fn from_str(s: &str) -> (r: Result<Self, std::convert::Infallible>)
        ensures
            r is Ok,
            r->Ok_0@ == shlex_words(s@),
    {
        Ok(JoinedArgs { inner: split_words(s) })
    }

    /// The arguments as one shell-quoted line.
    pub fn to_string(&self) -> (line: String)
        ensures
            line@ == shlex_joined(self@),
    {
        join_words(&self.inner)
    }

    /// The arguments, one by one.
    pub fn as_slice(&self) -> (r: &[String])
        ensures
            views(r@) == self@,
    {
        self.inner.as_slice()
    }

    /// The arguments as they are stored.
    pub closed spec fn stored(self) -> Vec<String> {
        self.inner
    }

    /// The arguments, one by one.
    pub fn into_vec(self) -> (r: Vec<String>)
        ensures
            r == self.stored(),
            views(r@) == self@,
    {
        self.inner
    }
}

impl std::str::FromStr for JoinedArgs {
    type Err = std::convert::Infallible;

    /// The words of the shell-quoted line `s`; never an error.
    fn from_str(s: &str) -> (r: Result<Self, std::convert::Infallible>)
        ensures
            r is Ok,
            r->Ok_0@ == shlex_words(s@),
    {
        JoinedArgs::from_str(s)
    }
}

/// The arguments of a command.
#[derive(Clone, Debug, PartialEq, Eq)]
pub enum Args {
    Joined(JoinedArgs),
    Split(Vec<String>),
}

/// `Args` as sequences of words.
pub enum ArgsView {
    Joined(Seq<Seq<char>>),
    Split(Seq<Seq<char>>),
}

impl ArgsView {
    /// The arguments, however they were written.
    pub open spec fn words(self) -> Seq<Seq<char>> {
        match self {
            ArgsView::Joined(w) => w,
            ArgsView::Split(w) => w,
        }
    }
}

impl View for Args {
    type V = ArgsView;

    open spec fn view(&self) -> ArgsView {
        match self {
            Args::Joined(j) => ArgsView::Joined(j@),
            Args::Split(v) => ArgsView::Split(views(v@)),
        }
    }
}

impl Default for Args {
    fn default() -> (r: Self)
        ensures
            r@ == ArgsView::Split(Seq::<Seq<char>>::empty()),
    {
        Args::new()
    }
}

impl std::ops::Deref for Args {
    type Target = [String];

    fn deref(&self) -> (r: &[String])
        ensures
            views(r@) == self@.words(),
    {
        self.as_slice()
    }
}

impl Args {
    /// No arguments.
    pub fn new() -> (r: Self)
        ensures
            r@ == ArgsView::Split(Seq::<Seq<char>>::empty()),
    {
        let v: Vec<String> = Vec::new();
        assert(views(v@) =~= Seq::<Seq<char>>::empty());
        Args::Split(v)
    }

    /// The arguments, one by one.
    pub fn as_slice(&self) -> (r: &[String])
        ensures
            views(r@) == self@.words(),
    {
        match self {
            Args::Joined(j) => j.as_slice(),
            Args::Split(v) => v.as_slice(),
        }
    }

    /// The arguments as they are stored.
    pub open spec fn stored(self) -> Vec<String> {
        match self {
            Args::Joined(j) => j.stored(),
            Args::Split(v) => v,
        }
    }

    /// The arguments, one by one.
    pub fn into_vec(self) -> (r: Vec<String>)
        ensures
            r == self.stored(),
            views(r@) == self@.words(),
    {
        match self {
            Args::Joined(j) => j.into_vec(),
            Args::Split(v) => v,
        }
    }
}

} // verus!
