//! The program that a fixture runs.

use vstd::prelude::*;
use vstd::std_specs::convert::FromSpecImpl;

verus! {

/// Target under test: a path that was resolved, a name that was not, or the
/// error that resolving it gave. The error is kept until the command is run.
#[derive(Clone, Debug, PartialEq, Eq)]
pub enum Bin {
    Path(String),
    Name(String),
    Error(String),
}

/// A `Bin` with its strings as character sequences.
pub enum BinView {
    Path(Seq<char>),
    Name(Seq<char>),
    Error(Seq<char>),
}

impl View for Bin {
    type V = BinView;

    open spec fn view(&self) -> BinView {
        match self {
            Bin::Path(p) => BinView::Path(p@),
            Bin::Name(n) => BinView::Name(n@),
            Bin::Error(e) => BinView::Error(e@),
        }
    }
}

/// The views of an optional `Bin`.
pub open spec fn bin_view(b: Option<Bin>) -> Option<BinView> {
    match b {
        Some(b) => Some(b@),
        None => None,
    }
}

impl From<String> for Bin {
    fn from(path: String) -> (r: Bin) {
        Bin::Path(path)
    }
}

impl FromSpecImpl<String> for Bin {
    open spec fn obeys_from_spec() -> bool {
        true
    }

    open spec fn from_spec(path: String) -> Bin {
        Bin::Path(path)
    }
}

impl From<Result<String, String>> for Bin {
    fn from(found: Result<String, String>) -> (r: Bin) {
        match found {
            Ok(path) => Bin::Path(path),
            Err(err) => Bin::Error(err),
        }
    }
}

impl FromSpecImpl<Result<String, String>> for Bin {
    open spec fn obeys_from_spec() -> bool {
        true
    }

    open spec fn from_spec(found: Result<String, String>) -> Bin {
        match found {
            Ok(path) => Bin::Path(path),
            Err(err) => Bin::Error(err),
        }
    }
}

impl Bin {
    /// A resolved path.
    pub fn from_path(path: String) -> (r: Bin)
        ensures
            r@ == BinView::Path(path@),
    {
        Bin::Path(path)
    }

    /// The outcome of a resolution: the path, or the error's text.
    pub fn from_result(found: Result<String, String>) -> (r: Bin)
        ensures
            r@ == match found {
                Ok(path) => BinView::Path(path@),
                Err(err) => BinView::Error(err@),
            },
    {
        match found {
            Ok(path) => Bin::Path(path),
            Err(err) => Bin::Error(err),
        }
    }
}

} // verus!
