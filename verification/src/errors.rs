//! The crate's error type. Messages are assembled as plain strings; the
//! kinds mirror the failure taxonomy of the pipeline: validation failures,
//! template keys with no match, coercion failures, missing registry
//! entries, and migration-engine conditions.

use vstd::prelude::*;
use vstd::string::*;

verus! {

#[derive(Debug, Clone, PartialEq, Eq)]
pub enum Error {
    /// A template key had no matching variable or response; carries the key.
    NoMatch(String),
    /// An expanded field did not parse as its declared scalar type; carries
    /// the expanded text.
    Coerce(String),
    /// A package was not present in the registry; carries name and version.
    NotFound(String, String),
    /// A loaded package's title does not match the path it was loaded from.
    TitleMismatch(String, String),
    /// No host-wide variables exist for the package name carried here.
    MissingGlobals(String),
    /// No prompt responses exist for the package name carried here.
    MissingResponses(String),
    /// A VM volume used one of the reserved names; carries the name.
    ReservedVolumeName(String),
    /// A container command was requested for a package that is not a
    /// container (or the converse).
    WrongSourceKind,
    /// The installed marker for this title already exists.
    AlreadyInstalled(String, String),
    /// The installed marker for this title does not exist.
    NotInstalled(String, String),
    /// The migration cursor is already past the end of the migration list.
    NoMoreMigrations,
    /// A state string from the service manager was not recognized; carries
    /// the string.
    UnknownState(String),
    /// A journal entry lacked one of the required fields; carries the field
    /// name.
    MissingLogField(String),
}

impl Error {
    /// A human-readable description of the error.
    pub fn message(&self) -> (r: String)
        ensures
            (self matches Error::NoMatch(k) ==> r@ == "no response matches prompt '"@ + k@
                + "'"@),
            (self matches Error::Coerce(t) ==> r@ == "expanded value '"@ + t@
                + "' does not parse as its declared type"@),
            (self matches Error::NotFound(n, v) ==> r@ == "package "@ + n@ + "/"@ + v@
                + " is not in the registry"@),
            (self matches Error::TitleMismatch(n, v) ==> r@ == "invalid name or version: "@ + n@
                + "/"@ + v@),
            (self matches Error::MissingGlobals(n) ==> r@ == "no variables exist for package "@
                + n@),
            (self matches Error::MissingResponses(n) ==> r@ == "no responses exist for package "@
                + n@),
            (self matches Error::ReservedVolumeName(n) ==> r@ == "VM volumes cannot be named '"@
                + n@ + "'"@),
            (self is WrongSourceKind ==> r@ == "package source kind does not fit this launcher"@),
            (self matches Error::AlreadyInstalled(n, v) ==> r@ == "package "@ + n@ + "/"@ + v@
                + " is already installed"@),
            (self matches Error::NotInstalled(n, v) ==> r@ == "package "@ + n@ + "/"@ + v@
                + " is not installed"@),
            (self is NoMoreMigrations ==> r@
                == "current state is greater than migrations length"@),
            (self matches Error::UnknownState(s) ==> r@ == "invalid state '"@ + s@ + "'"@),
            (self matches Error::MissingLogField(f) ==> r@
                == "journal entry lacks required field "@ + f@),
    {
        match self {
            Error::NoMatch(k) => {
                let mut out = String::new();
                out.append("no response matches prompt '");
                out.append(k.as_str());
                out.append("'");
                proof {
                    assert(out@ =~= "no response matches prompt '"@ + k@ + "'"@);
                }
                out
            },
            Error::Coerce(t) => {
                let mut out = String::new();
                out.append("expanded value '");
                out.append(t.as_str());
                out.append("' does not parse as its declared type");
                proof {
                    assert(out@ =~= "expanded value '"@ + t@
                        + "' does not parse as its declared type"@);
                }
                out
            },
            Error::NotFound(n, v) => {
                let mut out = String::new();
                out.append("package ");
                out.append(n.as_str());
                out.append("/");
                out.append(v.as_str());
                out.append(" is not in the registry");
                proof {
                    assert(out@ =~= "package "@ + n@ + "/"@ + v@ + " is not in the registry"@);
                }
                out
            },
            Error::TitleMismatch(n, v) => {
                let mut out = String::new();
                out.append("invalid name or version: ");
                out.append(n.as_str());
                out.append("/");
                out.append(v.as_str());
                proof {
                    assert(out@ =~= "invalid name or version: "@ + n@ + "/"@ + v@);
                }
                out
            },
            Error::MissingGlobals(n) => {
                let mut out = String::new();
                out.append("no variables exist for package ");
                out.append(n.as_str());
                proof {
                    assert(out@ =~= "no variables exist for package "@ + n@);
                }
                out
            },
            Error::MissingResponses(n) => {
                let mut out = String::new();
                out.append("no responses exist for package ");
                out.append(n.as_str());
                proof {
                    assert(out@ =~= "no responses exist for package "@ + n@);
                }
                out
            },
            Error::ReservedVolumeName(n) => {
                let mut out = String::new();
                out.append("VM volumes cannot be named '");
                out.append(n.as_str());
                out.append("'");
                proof {
                    assert(out@ =~= "VM volumes cannot be named '"@ + n@ + "'"@);
                }
                out
            },
            Error::WrongSourceKind => {
                let mut out = String::new();
                out.append("package source kind does not fit this launcher");
                proof {
                    assert(out@ =~= "package source kind does not fit this launcher"@);
                }
                out
            },
            Error::AlreadyInstalled(n, v) => {
                let mut out = String::new();
                out.append("package ");
                out.append(n.as_str());
                out.append("/");
                out.append(v.as_str());
                out.append(" is already installed");
                proof {
                    assert(out@ =~= "package "@ + n@ + "/"@ + v@ + " is already installed"@);
                }
                out
            },
            Error::NotInstalled(n, v) => {
                let mut out = String::new();
                out.append("package ");
                out.append(n.as_str());
                out.append("/");
                out.append(v.as_str());
                out.append(" is not installed");
                proof {
                    assert(out@ =~= "package "@ + n@ + "/"@ + v@ + " is not installed"@);
                }
                out
            },
            Error::NoMoreMigrations => {
                let mut out = String::new();
                out.append("current state is greater than migrations length");
                proof {
                    assert(out@ =~= "current state is greater than migrations length"@);
                }
                out
            },
            Error::UnknownState(s) => {
                let mut out = String::new();
                out.append("invalid state '");
                out.append(s.as_str());
                out.append("'");
                proof {
                    assert(out@ =~= "invalid state '"@ + s@ + "'"@);
                }
                out
            },
            Error::MissingLogField(f) => {
                let mut out = String::new();
                out.append("journal entry lacks required field ");
                out.append(f.as_str());
                proof {
                    assert(out@ =~= "journal entry lacks required field "@ + f@);
                }
                out
            },
        }
    }
}

} // verus!
