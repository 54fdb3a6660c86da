use vstd::prelude::*;

verus! {

/// The failures this library reports. Each variant carries enough context to
/// identify the offending input: a command string that would not parse, the
/// path of a missing listing target, or the path of a walked entry that does
/// not lie under its source root.
#[derive(Debug)]
pub enum UtilError {
    /// The command string could not be split into arguments.
    BadCommandString(String),
    /// A command was configured with an empty argument vector.
    EmptyCommand,
    /// Captured standard output held bytes that are not valid UTF-8.
    NonUtf8Stdout,
    /// Captured standard error held bytes that are not valid UTF-8.
    NonUtf8Stderr,
    /// A listing target does not exist.
    MissingEntry(String),
    /// A selected entry's path is not prefixed by its source root.
    PrefixMismatch(String),
}

/// The mathematical shape of a `UtilError`: payloads as character sequences.
pub enum UtilErrorV {
    BadCommandString(Seq<char>),
    EmptyCommand,
    NonUtf8Stdout,
    NonUtf8Stderr,
    MissingEntry(Seq<char>),
    PrefixMismatch(Seq<char>),
}

impl View for UtilError {
    type V = UtilErrorV;

    open spec fn view(&self) -> UtilErrorV {
        match self {
            UtilError::BadCommandString(s) => UtilErrorV::BadCommandString(s@),
            UtilError::EmptyCommand => UtilErrorV::EmptyCommand,
            UtilError::NonUtf8Stdout => UtilErrorV::NonUtf8Stdout,
            UtilError::NonUtf8Stderr => UtilErrorV::NonUtf8Stderr,
            UtilError::MissingEntry(s) => UtilErrorV::MissingEntry(s@),
            UtilError::PrefixMismatch(s) => UtilErrorV::PrefixMismatch(s@),
        }
    }
}

/// The human-readable description of an error, as a character sequence.
pub open spec fn describe_spec(e: UtilErrorV) -> Seq<char> {
    match e {
        UtilErrorV::BadCommandString(s) => "invalid command string: "@ + s,
        UtilErrorV::EmptyCommand => "command is empty"@,
        UtilErrorV::NonUtf8Stdout => "stdout contains invalid utf-8 bytes"@,
        UtilErrorV::NonUtf8Stderr => "stderr contains invalid utf-8 bytes"@,
        UtilErrorV::MissingEntry(s) => "ls item does not exist: "@ + s,
        UtilErrorV::PrefixMismatch(s) => "entry does not lie under its source root: "@ + s,
    }
}

impl UtilError {
    /// A human-readable description of the failure, naming the offending input.
    pub fn describe(&self) -> (r: String)
        ensures
            r@ == describe_spec(self@),
    {
        match self {
            UtilError::BadCommandString(s) => {
                String::from_str("invalid command string: ").concat(s.as_str())
            },
            UtilError::EmptyCommand => String::from_str("command is empty"),
            UtilError::NonUtf8Stdout => String::from_str("stdout contains invalid utf-8 bytes"),
            UtilError::NonUtf8Stderr => String::from_str("stderr contains invalid utf-8 bytes"),
            UtilError::MissingEntry(s) => {
                String::from_str("ls item does not exist: ").concat(s.as_str())
            },
            UtilError::PrefixMismatch(s) => {
                String::from_str("entry does not lie under its source root: ").concat(s.as_str())
            },
        }
    }
}

} // verus!
