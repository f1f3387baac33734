//! Errors occurring while parsing or writing class files.
use vstd::prelude::*;

verus! {

/// The kind of a [`ParseError`].
#[derive(Debug, PartialEq, Eq, Structural, Clone, Copy)]
pub enum ParsingErrorKind {
    /// The input ended before the element being read did.
    IO,
    /// The input is not a well-formed class file.
    Malformed,
}

/// An error that occurs during parsing of a class file.
#[derive(Debug)]
pub struct ParseError {
    kind: ParsingErrorKind,
    message: String,
}

impl ParseError {
    /// The kind of the error.
    pub closed spec fn kind_of(self) -> ParsingErrorKind {
        self.kind
    }

    /// The message of the error.
    pub closed spec fn message_of(self) -> Seq<char> {
        self.message@
    }

    /// Creates an error for malformed input with the given message.
    pub fn malform(message: String) -> (r: Self)
        ensures
            r.kind_of() == ParsingErrorKind::Malformed,
            r.message_of() == message@,
    {
        ParseError { kind: ParsingErrorKind::Malformed, message }
    }

    /// Creates an error for input that ends too early, with the given message.
    pub fn io(message: String) -> (r: Self)
        ensures
            r.kind_of() == ParsingErrorKind::IO,
            r.message_of() == message@,
    {
        ParseError { kind: ParsingErrorKind::IO, message }
    }

    /// Returns the kind of error.
    pub fn kind(&self) -> (r: ParsingErrorKind)
        ensures
            r == self.kind_of(),
    {
        self.kind
    }

    /// Returns the message of the error.
    pub fn message(&self) -> (r: &str)
        ensures
            r@ == self.message_of(),
    {
        self.message.as_str()
    }
}

/// The kind of a [`GenerationError`].
#[derive(Debug, Clone, Copy, PartialEq, Eq, Structural)]
pub enum GenerationErrorKind {
    /// Due to an IO error in the underlying writer.
    IO,
    /// The length of a list is beyond the max value of the data type to store it. For
    /// instance an instruction list containing more than 65535 instructions.
    OutOfRange,
    /// An error when operating the constant pool.
    ConstantPool,
    /// Other errors.
    Other,
}

/// An error that occurs while writing a class file.
#[derive(Debug)]
pub struct GenerationError {
    kind: GenerationErrorKind,
    message: String,
}

impl GenerationError {
    /// The kind of the error.
    pub closed spec fn kind_of(self) -> GenerationErrorKind {
        self.kind
    }

    /// The message of the error.
    pub closed spec fn message_of(self) -> Seq<char> {
        self.message@
    }

    /// Creates a new `GenerationError` with the given message and kind.
    pub fn new(message: String, kind: GenerationErrorKind) -> (r: Self)
        ensures
            r.kind_of() == kind,
            r.message_of() == message@,
    {
        GenerationError { kind, message }
    }

    /// Creates a new `GenerationError` of the kind [`GenerationErrorKind::Other`] with the
    /// given message.
    pub fn other(message: String) -> (r: Self)
        ensures
            r.kind_of() == GenerationErrorKind::Other,
            r.message_of() == message@,
    {
        Self::new(message, GenerationErrorKind::Other)
    }

    /// Returns the kind of error.
    pub fn kind(&self) -> (r: GenerationErrorKind)
        ensures
            r == self.kind_of(),
    {
        self.kind
    }

    /// Returns the message of the error.
    pub fn message(&self) -> (r: &str)
        ensures
            r@ == self.message_of(),
    {
        self.message.as_str()
    }
}

} // verus!
