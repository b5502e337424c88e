//! Python versions and version specifiers, as the `pep440_rs` crate parses
//! and matches them.

use vstd::prelude::*;

use pep440_rs::{Version, VersionSpecifier, VersionSpecifiers};

verus! {

/// `pep440_rs::Version`, opaque.
#[verifier::external_type_specification]
#[verifier::external_body]
pub struct ExVersion(Version);

/// `pep440_rs::VersionSpecifiers`, opaque.
#[verifier::external_type_specification]
#[verifier::external_body]
pub struct ExVersionSpecifiers(VersionSpecifiers);

/// `pep440_rs::VersionSpecifier`, opaque; declared because
/// `VersionSpecifiers` dereferences to a slice of them.
#[verifier::external_type_specification]
#[verifier::external_body]
pub struct ExVersionSpecifier(VersionSpecifier);

/// Python version specifiers (such as `>=3.11,<3.13`), with the text they
/// were parsed from.
pub struct PythonSpecifiers {
    specifiers: VersionSpecifiers,
    text: Ghost<Seq<char>>,
}

impl View for PythonSpecifiers {
    type V = Seq<char>;

    closed spec fn view(&self) -> Seq<char> {
        self.text@
    }
}

/// A python version (such as `3.12.4`), with the text it was parsed from.
pub struct PythonVersion {
    version: Version,
    text: Ghost<Seq<char>>,
}

impl View for PythonVersion {
    type V = Seq<char>;

    closed spec fn view(&self) -> Seq<char> {
        self.text@
    }
}

/// The message with which `VersionSpecifiers::from_str` refuses `text` (its
/// error's `Display`); `None` when it accepts `text`.
pub uninterp spec fn pep440_specifiers_error(text: Seq<char>) -> Option<Seq<char>>;

/// The message with which `Version::from_str` refuses `text` (its error's
/// `Display`); `None` when it accepts `text`.
pub uninterp spec fn pep440_version_error(text: Seq<char>) -> Option<Seq<char>>;

/// Whether the specifiers parsed from `specifiers` contain the version
/// parsed from `version`, as `VersionSpecifiers::contains` decides.
pub uninterp spec fn pep440_contains(specifiers: Seq<char>, version: Seq<char>) -> bool;

/// `pep440_rs::VersionSpecifiers::from_str`. Claimed: whether it accepts a
/// text, and the message of its error when it does not, depend on the text
/// alone.
#[verifier::external_body]
pub fn parse_python_specifiers(text: &str) -> (r: Result<PythonSpecifiers, String>)
    ensures
        match r {
            Ok(s) => pep440_specifiers_error(text@) is None && s@ == text@,
            Err(message) => pep440_specifiers_error(text@) == Some(message@),
        },
{
    match text.parse::<VersionSpecifiers>() {
        Ok(specifiers) => Ok(PythonSpecifiers { specifiers, text: Ghost(text@) }),
        Err(error) => Err(error.to_string()),
    }
}

/// `pep440_rs::Version::from_str`. Claimed: whether it accepts a text, and
/// the message of its error when it does not, depend on the text alone.
#[verifier::external_body]
pub fn parse_python_version_number(text: &str) -> (r: Result<PythonVersion, String>)
    ensures
        match r {
            Ok(v) => pep440_version_error(text@) is None && v@ == text@,
            Err(message) => pep440_version_error(text@) == Some(message@),
        },
{
    match text.parse::<Version>() {
        Ok(version) => Ok(PythonVersion { version, text: Ghost(text@) }),
        Err(error) => Err(error.to_string()),
    }
}

/// `pep440_rs::VersionSpecifiers::contains`. Claimed: its answer depends on
/// the texts the specifiers and the version were parsed from alone.
#[verifier::external_body]
pub fn specifiers_contain(specifiers: &PythonSpecifiers, version: &PythonVersion) -> (b: bool)
    ensures
        b == pep440_contains(specifiers@, version@),
{
    specifiers.specifiers.contains(&version.version)
}

} // verus!
