//! The ways in which reading or completing a manifest fails.

use vstd::prelude::*;
use vstd::string::StringExecFns;

verus! {

broadcast use vstd::string::group_string_axioms;

/// Why a text could not be read as a manifest.
#[derive(Debug, Clone, PartialEq, Eq)]
pub struct ParseError {
    /// What the parser says.
    pub message: String,
    /// Where in the text, from one byte up to another, where the parser knows it.
    pub span: Option<(usize, usize)>,
}

/// The kinds of failure to read a file that this library tells apart.
#[derive(Debug, Clone, Copy, PartialEq, Eq, Structural)]
pub enum IoErrorKind {
    /// There is no such file or directory.
    NotFound,
    /// The way of reading does not offer this.
    Unsupported,
    /// Any other failure.
    Other,
}

/// Why a file or directory could not be read.
#[derive(Debug, Clone, PartialEq, Eq)]
pub struct IoError {
    pub kind: IoErrorKind,
    /// What the system says.
    pub message: String,
}

/// What went wrong.
#[derive(Debug, PartialEq, Eq)]
pub enum Error {
    /// The text is not a manifest.
    Parse(Box<ParseError>),
    /// A file could not be read.
    Io(IoError),
    /// The workspace that a manifest inherits from could not be loaded. With the error
    /// and the path that was tried, where there is one.
    Workspace(Box<(Error, Option<String>)>),
    /// A value is asked for that the workspace has yet to supply.
    InheritedUnknownValue,
    /// The workspace lacks what a manifest inherits from it.
    WorkspaceIntegrity(String),
    /// Another failure, by its message.
    Other(&'static str),
}

impl Clone for Error {
    fn clone(&self) -> (r: Self)
        ensures
            r == *self,
    {
        self.duplicate()
    }
}

impl Error {
    /// A copy of the error.
    pub fn duplicate(&self) -> (r: Error)
        ensures
            r == *self,
        decreases self,
    {
        match self {
            Error::Parse(e) => Error::Parse(
                Box::new(ParseError { message: e.message.clone(), span: e.span }),
            ),
            Error::Io(e) => Error::Io(IoError { kind: e.kind, message: e.message.clone() }),
            Error::Other(msg) => Error::Other(msg),
            Error::WorkspaceIntegrity(msg) => Error::WorkspaceIntegrity(msg.clone()),
            Error::Workspace(b) => {
                let inner = b.0.duplicate();
                let path = match &b.1 {
                    Some(p) => Some(p.clone()),
                    None => None,
                };
                Error::Workspace(Box::new((inner, path)))
            },
            Error::InheritedUnknownValue => Error::InheritedUnknownValue,
        }
    }

    /// What the error says, for people to read.
    pub open spec fn text(self) -> Seq<char>
        decreases self,
    {
        match self {
            Error::Parse(e) => e.message@,
            Error::Io(e) => e.message@,
            Error::Other(msg) => msg@,
            Error::WorkspaceIntegrity(s) => s@,
            Error::Workspace(b) => "can't load root workspace"@ + (match b.1 {
                Some(p) => " at "@ + p@,
                None => Seq::empty(),
            }) + ": "@ + b.0.text(),
            Error::InheritedUnknownValue => "value from workspace hasn't been set"@,
        }
    }

    /// What the error says, for people to read.
    pub fn message(&self) -> (s: String)
        ensures
            s@ == self.text(),
        decreases self,
    {
        match self {
            Error::Parse(e) => e.message.clone(),
            Error::Io(e) => e.message.clone(),
            Error::Other(msg) => String::from_str(msg),
            Error::WorkspaceIntegrity(s) => s.clone(),
            Error::Workspace(b) => {
                let mut s = String::from_str("can't load root workspace");
                match &b.1 {
                    Some(p) => {
                        s.append(" at ");
                        s.append(p.as_str());
                    },
                    None => {
                        assert(s@ + Seq::<char>::empty() =~= s@);
                    },
                }
                s.append(": ");
                let inner = b.0.message();
                s.append(inner.as_str());
                proof {
                    if b.1 is Some {
                        let p = b.1->0;
                        assert("can't load root workspace"@ + " at "@ + p@
                            =~= "can't load root workspace"@ + (" at "@ + p@));
                    }
                }
                s
            },
            Error::InheritedUnknownValue => String::from_str("value from workspace hasn't been set"),
        }
    }
}

} // verus!
