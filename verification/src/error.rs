use vstd::prelude::*;
use vstd::string::StringExecFns;
use crate::text::{decimal, digits};

verus! {

/// What can go wrong in the library.
#[derive(Debug)]
pub enum DocsError {
    /// The index of the crate holds no version that is not yanked.
    NoStableVersion(String),
    /// The document has a format version below the lowest that is read.
    UnsupportedFormat(u32),
    /// Anything else, in words.
    Other(String),
}

impl DocsError {
    /// The message of the error.
    pub open spec fn text(self) -> Seq<char> {
        match self {
            DocsError::NoStableVersion(name) => "No stable version found for "@ + name@,
            DocsError::UnsupportedFormat(v) => "Unsupported rustdoc JSON format version: "@
                + decimal(v as u64) + ". Expected >= 33."@,
            DocsError::Other(m) => m@,
        }
    }

    /// The message of the error.
    pub fn message(&self) -> (r: String)
        ensures
            r@ == self.text(),
    {
        match self {
            DocsError::NoStableVersion(name) => {
                let mut m = String::from_str("No stable version found for ");
                m.append(name.as_str());
                m
            },
            DocsError::UnsupportedFormat(v) => {
                let mut m = String::from_str("Unsupported rustdoc JSON format version: ");
                m.append(digits(*v as u64).as_str());
                m.append(". Expected >= 33.");
                m
            },
            DocsError::Other(m) => m.clone(),
        }
    }
}

} // verus!
