//! A client library for acquiring and interpreting a Debian-style package
//! archive: it locates index files from a release descriptor, verifies every
//! byte against declared checksums, and parses the RFC822-like package
//! records into a typed package and dependency model.

use vstd::prelude::*;

pub mod arch;
pub mod bin;
pub mod checksum;
pub mod deps;
pub mod fetch;
pub mod ident;
pub mod lists;
pub mod pkg;
pub mod release;
pub mod rfc822;
pub mod source;
pub mod text;
pub mod vcs;
pub mod version;

verus! {

/// The pair of digests a release document declares for a file: a weak legacy
/// digest and a strong digest that serves as the file's identity.
#[derive(Clone, Copy, Debug)]
pub struct Hashes {
    pub md5: [u8; 16],
    pub sha256: [u8; 32],
}

/// Why a record failed to parse. Every variant carries the text it choked
/// on, so a caller can attribute the failure to a package and field.
#[derive(Debug)]
pub enum ParseError {
    /// A required field is absent from the record.
    MissingField { key: String },
    /// A field that must hold exactly one line holds none or several.
    WrongLineCount { key: String },
    /// An architecture token outside the closed vocabulary.
    UnknownArch { token: String },
    /// A priority token outside the closed vocabulary.
    UnknownPriority { token: String },
    /// A source format marker outside the closed vocabulary.
    UnknownFormat { token: String },
    /// A boolean field whose value is neither yes nor no.
    UnknownYesNo { token: String },
    /// A number field that is not a decimal within range.
    BadNumber { text: String },
    /// A record line that neither names a field nor continues one.
    BadFieldLine { line: String },
    /// A dependency expression that does not follow the grammar.
    BadDependency { text: String },
    /// An identity whose bracketed address does not close.
    BadIdentity { text: String },
    /// A columned line (checksums or package list) missing a required
    /// column.
    BadFileLine { line: String },
    /// A failure attributed to the record it struck, by package name.
    InPackage { name: String, cause: Box<ParseError> },
}

} // verus!
