//! The failures that the library reports.

use vstd::prelude::*;
use vstd::string::*;

verus! {

/// One numeric component of a version text.
#[derive(Debug, Clone, Copy, PartialEq, Eq, Structural)]
pub enum VersionPart {
    Major,
    Minor,
    Patch,
    Build,
}

/// One field of a document.
#[derive(Debug, Clone, Copy, PartialEq, Eq, Structural)]
pub enum Field {
    Name,
    Version,
    Kind,
    ExtraJavaArgs,
    ExtraServerArgs,
    Jars,
}

/// Why an operation failed.
#[derive(Debug, Clone, Copy, PartialEq, Eq, Structural)]
pub enum ErrorKind {
    /// A version text whose named component is missing or is not a number.
    Parse(VersionPart),
    /// A server kind tag that names no known kind.
    InvalidKind,
    /// A document that is not TOML.
    Syntax,
    /// A document in which the named field is missing or has the wrong type.
    Field(Field),
    /// A cache key without `@` between kind and version.
    CacheKey,
    /// A cache entry whose build is not a number of 32 bits.
    BuildNumber,
    /// A document that could not be written.
    Encode,
    /// The registry, or the local store, does not know what was asked for.
    NotFound,
    /// The registry could not be reached or its answer could not be decoded.
    Network,
    /// The registry lists no version at all.
    NoVersions,
    /// The file system refused a read or a write.
    Io,
    /// No cached artifact matches the configured Minecraft version.
    VersionMismatch,
}

/// A failure that is told in words only. The words are kept as they were
/// given.
#[derive(Debug)]
pub struct ServoError {
    details: String,
}

impl View for ServoError {
    type V = Seq<char>;

    /// The words of the failure.
    closed spec fn view(&self) -> Seq<char> {
        self.details@
    }
}

impl ServoError {
    /// The failure that `msg` tells.
    pub fn new(msg: &str) -> (r: ServoError)
        ensures
            r@ == msg@,
    {
        ServoError { details: String::from_str(msg) }
    }

    /// The failure that `msg` tells, on the heap.
    pub fn boxnew(msg: &str) -> (r: Box<ServoError>)
        ensures
            (*r)@ == msg@,
    {
        Box::new(ServoError::new(msg))
    }

    /// The words of the failure.
    pub fn description(&self) -> (r: &str)
        ensures
            r@ == self@,
    {
        self.details.as_str()
    }

    /// The words of the failure, as a text of its own.
    pub fn to_string(&self) -> (r: String)
        ensures
            r@ == self@,
    {
        self.details.clone()
    }
}

/// The text that describes a failure.
pub open spec fn message_of(e: ErrorKind) -> Seq<char> {
    match e {
        ErrorKind::Parse(VersionPart::Major) => "invalid version: the major number is missing or not a number"@,
        ErrorKind::Parse(VersionPart::Minor) => "invalid version: the minor number is missing or not a number"@,
        ErrorKind::Parse(VersionPart::Patch) => "invalid version: the patch number is not a number"@,
        ErrorKind::Parse(VersionPart::Build) => "invalid version: the build number is not a number"@,
        ErrorKind::InvalidKind => "not a valid server type"@,
        ErrorKind::Syntax => "the document is not valid TOML"@,
        ErrorKind::Field(Field::Name) => "invalid server configuration: 'name' is missing or not a string"@,
        ErrorKind::Field(Field::Version) => "invalid server configuration: 'version' is missing or not a string"@,
        ErrorKind::Field(Field::Kind) => "invalid server configuration: 'kind' is not a string"@,
        ErrorKind::Field(Field::ExtraJavaArgs) => "invalid server configuration: 'extra_java_args' is not a list of strings"@,
        ErrorKind::Field(Field::ExtraServerArgs) => "invalid server configuration: 'extra_server_args' is not a list of strings"@,
        ErrorKind::Field(Field::Jars) => "failed to parse cache metadata: 'jars' is missing or not a table"@,
        ErrorKind::CacheKey => "failed to parse cache metadata: cache key must contain a '@'"@,
        ErrorKind::BuildNumber => "failed to parse cache metadata: a build is not a 32-bit number"@,
        ErrorKind::Encode => "failed to write the document"@,
        ErrorKind::NotFound => "not found"@,
        ErrorKind::Network => "the registry could not be reached or understood"@,
        ErrorKind::NoVersions => "no versions available"@,
        ErrorKind::Io => "a file could not be read or written"@,
        ErrorKind::VersionMismatch => "no cached artifact matches the server's Minecraft version"@,
    }
}

impl ErrorKind {
    /// The text that describes the failure.
    pub fn message(&self) -> (r: String)
        ensures
            r@ == message_of(*self),
    {
        let text = match self {
            ErrorKind::Parse(VersionPart::Major) => "invalid version: the major number is missing or not a number",
            ErrorKind::Parse(VersionPart::Minor) => "invalid version: the minor number is missing or not a number",
            ErrorKind::Parse(VersionPart::Patch) => "invalid version: the patch number is not a number",
            ErrorKind::Parse(VersionPart::Build) => "invalid version: the build number is not a number",
            ErrorKind::InvalidKind => "not a valid server type",
            ErrorKind::Syntax => "the document is not valid TOML",
            ErrorKind::Field(Field::Name) => "invalid server configuration: 'name' is missing or not a string",
            ErrorKind::Field(Field::Version) => "invalid server configuration: 'version' is missing or not a string",
            ErrorKind::Field(Field::Kind) => "invalid server configuration: 'kind' is not a string",
            ErrorKind::Field(Field::ExtraJavaArgs) => "invalid server configuration: 'extra_java_args' is not a list of strings",
            ErrorKind::Field(Field::ExtraServerArgs) => "invalid server configuration: 'extra_server_args' is not a list of strings",
            ErrorKind::Field(Field::Jars) => "failed to parse cache metadata: 'jars' is missing or not a table",
            ErrorKind::CacheKey => "failed to parse cache metadata: cache key must contain a '@'",
            ErrorKind::BuildNumber => "failed to parse cache metadata: a build is not a 32-bit number",
            ErrorKind::Encode => "failed to write the document",
            ErrorKind::NotFound => "not found",
            ErrorKind::Network => "the registry could not be reached or understood",
            ErrorKind::NoVersions => "no versions available",
            ErrorKind::Io => "a file could not be read or written",
            ErrorKind::VersionMismatch => "no cached artifact matches the server's Minecraft version",
        };
        String::from_str(text)
    }
}

} // verus!
