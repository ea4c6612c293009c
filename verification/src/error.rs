//! The error type of the library.

use vstd::prelude::*;
use vstd::std_specs::convert::FromSpecImpl;

verus! {

/// An input/output error of the standard library, carried through unread.
#[verifier::external_type_specification]
#[verifier::external_body]
pub struct ExIoError(std::io::Error);

/// Everything that can go wrong while a release is prepared. Each variant
/// carries the text that describes the failure.
#[derive(Debug)]
pub enum GitPublishError {
    Git(String),
    Config(String),
    Version(String),
    Tag(String),
    Hook(String),
    Remote(String),
    Branch(String),
    Io(String),
    InvalidArgument(String),
}

/// Convenience alias for results of this library.
pub type Result<T> = std::result::Result<T, GitPublishError>;

/// The mathematical value of a [`GitPublishError`].
pub enum ErrorModel {
    Git(Seq<char>),
    Config(Seq<char>),
    Version(Seq<char>),
    Tag(Seq<char>),
    Hook(Seq<char>),
    Remote(Seq<char>),
    Branch(Seq<char>),
    Io(Seq<char>),
    InvalidArgument(Seq<char>),
}

impl ErrorModel {
    /// The words that open the message of each kind of error.
    pub open spec fn prefix(self) -> Seq<char> {
        match self {
            ErrorModel::Git(_) => "Git operation failed: "@,
            ErrorModel::Config(_) => "Configuration error: "@,
            ErrorModel::Version(_) => "Version parsing error: "@,
            ErrorModel::Tag(_) => "Tag error: "@,
            ErrorModel::Hook(_) => "Hook execution failed: "@,
            ErrorModel::Remote(_) => "Remote operation failed: "@,
            ErrorModel::Branch(_) => "Branch error: "@,
            ErrorModel::Io(_) => "I/O error: "@,
            ErrorModel::InvalidArgument(_) => "Invalid argument: "@,
        }
    }

    /// The text that the error carries.
    pub open spec fn detail(self) -> Seq<char> {
        match self {
            ErrorModel::Git(m) => m,
            ErrorModel::Config(m) => m,
            ErrorModel::Version(m) => m,
            ErrorModel::Tag(m) => m,
            ErrorModel::Hook(m) => m,
            ErrorModel::Remote(m) => m,
            ErrorModel::Branch(m) => m,
            ErrorModel::Io(m) => m,
            ErrorModel::InvalidArgument(m) => m,
        }
    }

    /// The message shown for the error.
    pub open spec fn message(self) -> Seq<char> {
        self.prefix() + self.detail()
    }
}

impl View for GitPublishError {
    type V = ErrorModel;

    open spec fn view(&self) -> ErrorModel {
        match self {
            GitPublishError::Git(m) => ErrorModel::Git(m@),
            GitPublishError::Config(m) => ErrorModel::Config(m@),
            GitPublishError::Version(m) => ErrorModel::Version(m@),
            GitPublishError::Tag(m) => ErrorModel::Tag(m@),
            GitPublishError::Hook(m) => ErrorModel::Hook(m@),
            GitPublishError::Remote(m) => ErrorModel::Remote(m@),
            GitPublishError::Branch(m) => ErrorModel::Branch(m@),
            GitPublishError::Io(m) => ErrorModel::Io(m@),
            GitPublishError::InvalidArgument(m) => ErrorModel::InvalidArgument(m@),
        }
    }
}

/// The mathematical value of a result of this library.
pub open spec fn model_of<T: View>(r: core::result::Result<T, GitPublishError>)
    -> core::result::Result<T::V, ErrorModel> {
    match r {
        Ok(v) => Ok(v@),
        Err(e) => Err(e@),
    }
}

/// `std::io::Error`'s `to_string`: the text that the error displays. Nothing
/// is claimed of it.
#[verifier::external_body]
fn io_error_text(e: &std::io::Error) -> String {
    e.to_string()
}

impl GitPublishError {
    /// A configuration error.
    pub fn config(msg: &str) -> (e: Self)
        ensures
            e@ == ErrorModel::Config(msg@),
    {
        GitPublishError::Config(msg.to_string())
    }

    /// A version error.
    pub fn version(msg: &str) -> (e: Self)
        ensures
            e@ == ErrorModel::Version(msg@),
    {
        GitPublishError::Version(msg.to_string())
    }

    /// A tag error.
    pub fn tag(msg: &str) -> (e: Self)
        ensures
            e@ == ErrorModel::Tag(msg@),
    {
        GitPublishError::Tag(msg.to_string())
    }

    /// A hook error.
    pub fn hook(msg: &str) -> (e: Self)
        ensures
            e@ == ErrorModel::Hook(msg@),
    {
        GitPublishError::Hook(msg.to_string())
    }

    /// A branch error.
    pub fn branch(msg: &str) -> (e: Self)
        ensures
            e@ == ErrorModel::Branch(msg@),
    {
        GitPublishError::Branch(msg.to_string())
    }

    /// A remote error.
    pub fn remote(msg: &str) -> (e: Self)
        ensures
            e@ == ErrorModel::Remote(msg@),
    {
        GitPublishError::Remote(msg.to_string())
    }

    /// An invalid-argument error.
    pub fn invalid_arg(msg: &str) -> (e: Self)
        ensures
            e@ == ErrorModel::InvalidArgument(msg@),
    {
        GitPublishError::InvalidArgument(msg.to_string())
    }

    /// The message shown for the error: what kind it is, then its text.
    pub fn to_string(&self) -> (out: String)
        ensures
            out@ == self@.message(),
    {
        let (prefix, detail) = match self {
            GitPublishError::Git(m) => ("Git operation failed: ", m),
            GitPublishError::Config(m) => ("Configuration error: ", m),
            GitPublishError::Version(m) => ("Version parsing error: ", m),
            GitPublishError::Tag(m) => ("Tag error: ", m),
            GitPublishError::Hook(m) => ("Hook execution failed: ", m),
            GitPublishError::Remote(m) => ("Remote operation failed: ", m),
            GitPublishError::Branch(m) => ("Branch error: ", m),
            GitPublishError::Io(m) => ("I/O error: ", m),
            GitPublishError::InvalidArgument(m) => ("Invalid argument: ", m),
        };
        let mut out = prefix.to_string();
        out.append(detail.as_str());
        out
    }
}

impl From<std::io::Error> for GitPublishError {
    /// An input/output error becomes an `Io` error that carries its text.
    fn from(e: std::io::Error) -> (out: Self)
        ensures
            out is Io,
    {
        GitPublishError::Io(io_error_text(&e))
    }
}

impl FromSpecImpl<std::io::Error> for GitPublishError {
    open spec fn obeys_from_spec() -> bool {
        false
    }

    open spec fn from_spec(e: std::io::Error) -> Self {
        arbitrary()
    }
}

} // verus!
