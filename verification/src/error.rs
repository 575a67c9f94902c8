//! Structured errors: a kind from a closed set, a message, and where it arose.

use vstd::prelude::*;

verus! {

/// What went wrong, for callers that decide by it.
#[derive(Clone, Copy, Debug, PartialEq, Eq, Hash, Structural)]
pub enum ErrorKind {
    /// Nothing more specific is known.
    Unexpected,
    /// The backend or the layer cannot do this.
    Unsupported,
    /// The path does not exist.
    NotFound,
    /// The path exists already.
    AlreadyExists,
    /// A directory was needed and the path is none.
    NotADirectory,
    /// A file was needed and the path is a directory.
    IsADirectory,
    /// Source and target are one file.
    IsSameFile,
    /// The caller may not do this.
    PermissionDenied,
    /// More data arrived than was declared.
    ContentTruncated,
    /// Less data arrived than was declared.
    ContentIncomplete,
    /// A condition given with the request did not hold.
    ConditionNotMatch,
    /// The backend asks to slow down.
    RateLimited,
}

impl ErrorKind {
    /// The kind's name.
    pub open spec fn name(self) -> Seq<char> {
        match self {
            ErrorKind::Unexpected => "Unexpected"@,
            ErrorKind::Unsupported => "Unsupported"@,
            ErrorKind::NotFound => "NotFound"@,
            ErrorKind::AlreadyExists => "AlreadyExists"@,
            ErrorKind::NotADirectory => "NotADirectory"@,
            ErrorKind::IsADirectory => "IsADirectory"@,
            ErrorKind::IsSameFile => "IsSameFile"@,
            ErrorKind::PermissionDenied => "PermissionDenied"@,
            ErrorKind::ContentTruncated => "ContentTruncated"@,
            ErrorKind::ContentIncomplete => "ContentIncomplete"@,
            ErrorKind::ConditionNotMatch => "ConditionNotMatch"@,
            ErrorKind::RateLimited => "RateLimited"@,
        }
    }

    /// The kind's name, as used in log records and labels.
    pub fn into_static(self) -> (r: &'static str)
        ensures
            r@ == self.name(),
    {
        match self {
            ErrorKind::Unexpected => "Unexpected",
            ErrorKind::Unsupported => "Unsupported",
            ErrorKind::NotFound => "NotFound",
            ErrorKind::AlreadyExists => "AlreadyExists",
            ErrorKind::NotADirectory => "NotADirectory",
            ErrorKind::IsADirectory => "IsADirectory",
            ErrorKind::IsSameFile => "IsSameFile",
            ErrorKind::PermissionDenied => "PermissionDenied",
            ErrorKind::ContentTruncated => "ContentTruncated",
            ErrorKind::ContentIncomplete => "ContentIncomplete",
            ErrorKind::ConditionNotMatch => "ConditionNotMatch",
            ErrorKind::RateLimited => "RateLimited",
        }
    }
}

/// An error as contracts see it.
pub struct ErrorView {
    pub kind: ErrorKind,
    pub message: Seq<char>,
    /// The operation that failed; empty when none was recorded.
    pub operation: Seq<char>,
    /// Key and value pairs, oldest first.
    pub context: Seq<(Seq<char>, Seq<char>)>,
}

/// The pairs of a context list as sequences of characters.
pub open spec fn pairs_view(pairs: Seq<(String, String)>) -> Seq<(Seq<char>, Seq<char>)> {
    pairs.map_values(|p: (String, String)| (p.0@, p.1@))
}

/// An error with nothing but a kind and a message.
pub open spec fn plain_error(kind: ErrorKind, message: Seq<char>) -> ErrorView {
    ErrorView { kind, message, operation: Seq::empty(), context: Seq::empty() }
}

/// The error of every operation in this crate.
#[derive(Debug)]
pub struct Error {
    kind: ErrorKind,
    message: String,
    operation: String,
    context: Vec<(String, String)>,
}

impl View for Error {
    type V = ErrorView;

    closed spec fn view(&self) -> ErrorView {
        ErrorView {
            kind: self.kind,
            message: self.message@,
            operation: self.operation@,
            context: pairs_view(self.context@),
        }
    }
}

impl Error {
    /// An error of the given kind with a message for people.
    pub fn new(kind: ErrorKind, message: &str) -> (r: Error)
        ensures
            r@ == plain_error(kind, message@),
    {
        let r = Error {
            kind,
            message: message.to_owned(),
            operation: String::new(),
            context: Vec::new(),
        };
        proof {
            assert(pairs_view(r.context@) =~= Seq::empty());
        }
        r
    }

    /// Records the operation that failed. An operation recorded before moves
    /// into the context under the key `called`.
    pub fn with_operation(self, operation: &str) -> (r: Error)
        ensures
            r@ == (ErrorView {
                operation: operation@,
                context: if self@.operation.len() == 0 {
                    self@.context
                } else {
                    self@.context.push(("called"@, self@.operation))
                },
                ..self@
            }),
    {
        let mut e = self;
        if !e.operation.as_str().is_empty() {
            let ghost before = e.context@;
            let called = "called".to_owned();
            let previous = e.operation.clone();
            e.context.push((called, previous));
            proof {
                assert(pairs_view(e.context@) =~= pairs_view(before).push(
                    ("called"@, self@.operation),
                ));
            }
        }
        e.operation = operation.to_owned();
        e
    }

    /// Adds a key and value pair to the context.
    pub fn with_context(self, key: &str, value: &str) -> (r: Error)
        ensures
            r@ == (ErrorView { context: self@.context.push((key@, value@)), ..self@ }),
    {
        let mut e = self;
        let ghost before = e.context@;
        e.context.push((key.to_owned(), value.to_owned()));
        proof {
            assert(pairs_view(e.context@) =~= pairs_view(before).push((key@, value@)));
        }
        e
    }

    /// The error's kind.
    pub fn kind(&self) -> (k: ErrorKind)
        ensures
            k == self@.kind,
    {
        self.kind
    }

    /// The message for people.
    pub fn message(&self) -> (m: &str)
        ensures
            m@ == self@.message,
    {
        self.message.as_str()
    }

    /// The operation that failed; empty when none was recorded.
    pub fn operation(&self) -> (o: &str)
        ensures
            o@ == self@.operation,
    {
        self.operation.as_str()
    }

    /// The context pairs, oldest first.
    pub fn context(&self) -> (c: &Vec<(String, String)>)
        ensures
            pairs_view(c@) == self@.context,
    {
        &self.context
    }
}

} // verus!
