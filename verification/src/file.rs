//! Payloads that stand beside a fixture: the text fed to the command and the
//! output expected of it.

use vstd::prelude::*;
use vstd::string::StringSliceAdditionalSpecFns;

verus! {

/// A payload, raw or as text.
#[derive(Clone, Debug, PartialEq, Eq)]
pub enum File {
    Binary(Vec<u8>),
    Text(String),
}

/// A `File` with its content as sequences.
pub enum FileView {
    Binary(Seq<u8>),
    Text(Seq<char>),
}

impl View for File {
    type V = FileView;

    open spec fn view(&self) -> FileView {
        match self {
            File::Binary(b) => FileView::Binary(b@),
            File::Text(t) => FileView::Text(t@),
        }
    }
}

/// The view of an optional `File`.
pub open spec fn file_view(f: Option<File>) -> Option<FileView> {
    match f {
        Some(f) => Some(f@),
        None => None,
    }
}

impl FileView {
    /// The bytes of the payload; text is taken in UTF-8.
    pub open spec fn bytes(self) -> Seq<u8> {
        match self {
            FileView::Binary(b) => b,
            FileView::Text(t) => vstd::utf8::encode_utf8(t),
        }
    }
}

impl File {
    /// The bytes of the payload.
    pub fn as_bytes(&self) -> (r: &[u8])
        ensures
            r@ == self@.bytes(),
    {
        match self {
            File::Binary(b) => b.as_slice(),
            File::Text(t) => t.as_str().as_bytes(),
        }
    }
}

} // verus!
