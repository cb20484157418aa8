//! The ways in which resolving a schema graph can fail.

use vstd::prelude::*;

verus! {

/// Why a schema could not be assembled.
#[derive(Debug)]
pub enum Error {
    /// The compiler exited with a failure; holds what it wrote to its error
    /// stream.
    Compile(String),
    /// The bytes are no descriptor set; holds the decoder's description.
    Decode(String),
    /// A source file could not be read; holds the reason.
    Io(String),
    /// A source file does not hold valid text; holds the reason.
    Encoding(String),
    /// A file descriptor carries no name, so its source cannot be looked for.
    MissingName,
    /// No search root holds a source file of this name.
    SourceNotFound(String),
    /// No file descriptor of the set goes by this dependency name.
    DependencyNotFound(String),
    /// The named file declares no top-level message type to take a subject
    /// from.
    NoMessageType(String),
    /// No source text was loaded for the named file.
    MissingText(String),
    /// The imports lead from the named file back to itself.
    CyclicDependency(String),
    /// The descriptor set holds no file at all.
    EmptyDescriptorSet,
    /// The root descriptor goes by another name than the root file.
    RootMismatch { file_name: String, descriptor_name: Option<String> },
    /// Schemas of this type cannot be posted.
    NotSupported(String),
    /// The word names no schema type.
    UnknownSchemaType(String),
    /// Neither a topic nor a record was given to name the subject by.
    MissingSubject,
}

/// An [`Error`] with its texts as character sequences.
pub enum ErrorView {
    Compile(Seq<char>),
    Decode(Seq<char>),
    Io(Seq<char>),
    Encoding(Seq<char>),
    MissingName,
    SourceNotFound(Seq<char>),
    DependencyNotFound(Seq<char>),
    NoMessageType(Seq<char>),
    MissingText(Seq<char>),
    CyclicDependency(Seq<char>),
    EmptyDescriptorSet,
    RootMismatch { file_name: Seq<char>, descriptor_name: Option<Seq<char>> },
    NotSupported(Seq<char>),
    UnknownSchemaType(Seq<char>),
    MissingSubject,
}

impl View for Error {
    type V = ErrorView;

    open spec fn view(&self) -> ErrorView {
        match *self {
            Error::Compile(s) => ErrorView::Compile(s@),
            Error::Decode(s) => ErrorView::Decode(s@),
            Error::Io(s) => ErrorView::Io(s@),
            Error::Encoding(s) => ErrorView::Encoding(s@),
            Error::MissingName => ErrorView::MissingName,
            Error::SourceNotFound(s) => ErrorView::SourceNotFound(s@),
            Error::DependencyNotFound(s) => ErrorView::DependencyNotFound(s@),
            Error::NoMessageType(s) => ErrorView::NoMessageType(s@),
            Error::MissingText(s) => ErrorView::MissingText(s@),
            Error::CyclicDependency(s) => ErrorView::CyclicDependency(s@),
            Error::EmptyDescriptorSet => ErrorView::EmptyDescriptorSet,
            Error::RootMismatch { file_name, descriptor_name } => ErrorView::RootMismatch {
                file_name: file_name@,
                descriptor_name: match descriptor_name {
                    Some(n) => Some(n@),
                    None => None,
                },
            },
            Error::NotSupported(s) => ErrorView::NotSupported(s@),
            Error::UnknownSchemaType(s) => ErrorView::UnknownSchemaType(s@),
            Error::MissingSubject => ErrorView::MissingSubject,
        }
    }
}

/// The text of an error, for a reader.
pub open spec fn message_of(e: ErrorView) -> Seq<char> {
    match e {
        ErrorView::Compile(stderr) => "protoc failed: "@ + stderr,
        ErrorView::Decode(text) => text,
        ErrorView::Io(text) => text,
        ErrorView::Encoding(text) => text,
        ErrorView::MissingName => "missing name in file descriptor"@,
        ErrorView::SourceNotFound(name) => "failed to locate file for: "@ + name,
        ErrorView::DependencyNotFound(name) => "failed to locate file for dependency: "@ + name,
        ErrorView::NoMessageType(name) => "failed to locate a top-level message type in: "@
            + name,
        ErrorView::MissingText(name) => "failed to locate schema for: "@ + name,
        ErrorView::CyclicDependency(name) => "imports run in a circle through: "@ + name,
        ErrorView::EmptyDescriptorSet => "no file descriptor in the set"@,
        ErrorView::RootMismatch { file_name, descriptor_name } => match descriptor_name {
            Some(found) => "root file descriptor is named "@ + found + ", not "@ + file_name,
            None => "root file descriptor has no name, expected "@ + file_name,
        },
        ErrorView::NotSupported(kind) => kind + " schema not yet supported"@,
        ErrorView::UnknownSchemaType(_) => "unsupported schema type"@,
        ErrorView::MissingSubject => "either `--topic' or `--record' are required"@,
    }
}

/// `head` followed by `tail`.
fn joined(head: &str, tail: &str) -> (s: String)
    ensures
        s@ == head@ + tail@,
{
    let mut s = head.to_owned();
    s.append(tail);
    s
}

impl Error {
    /// The text of this error, for a reader.
    pub fn message(&self) -> (text: String)
        ensures
            text@ == message_of(self@),
    {
        match self {
            Error::Compile(stderr) => joined("protoc failed: ", stderr.as_str()),
            Error::Decode(text) => text.clone(),
            Error::Io(text) => text.clone(),
            Error::Encoding(text) => text.clone(),
            Error::MissingName => "missing name in file descriptor".to_owned(),
            Error::SourceNotFound(name) => joined("failed to locate file for: ", name.as_str()),
            Error::DependencyNotFound(name) => joined(
                "failed to locate file for dependency: ",
                name.as_str(),
            ),
            Error::NoMessageType(name) => joined(
                "failed to locate a top-level message type in: ",
                name.as_str(),
            ),
            Error::MissingText(name) => joined("failed to locate schema for: ", name.as_str()),
            Error::CyclicDependency(name) => joined(
                "imports run in a circle through: ",
                name.as_str(),
            ),
            Error::EmptyDescriptorSet => "no file descriptor in the set".to_owned(),
            Error::RootMismatch { file_name, descriptor_name } => match descriptor_name {
                Some(found) => {
                    let mut text = joined("root file descriptor is named ", found.as_str());
                    text.append(", not ");
                    text.append(file_name.as_str());
                    text
                },
                None => joined("root file descriptor has no name, expected ", file_name.as_str()),
            },
            Error::NotSupported(kind) => joined(kind.as_str(), " schema not yet supported"),
            Error::UnknownSchemaType(_) => "unsupported schema type".to_owned(),
            Error::MissingSubject => "either `--topic' or `--record' are required".to_owned(),
        }
    }
}

} // verus!
