//! Whether the python version used in development lies outside the range a
//! project supports.

use vstd::prelude::*;
use vstd::string::StringExecFns;

use crate::model::{
    find_declaration, first_with, lemma_first_with_append, lemma_first_with_other, Declaration,
    Role, Runtime,
};
use crate::pep440::{
    parse_python_specifiers, parse_python_version_number, pep440_contains,
    pep440_specifiers_error, pep440_version_error, specifiers_contain,
};

verus! {

/// The verdict on the python declarations of `ds`: nothing to report
/// (`false`) unless `ds` holds both a python support range and a python
/// development version (the first of each counts); an error naming the file
/// when the range does not parse as version specifiers, or else the version
/// not as a version; otherwise whether the specifiers leave the version out.
pub open spec fn python_verdict(ds: Seq<Declaration>) -> Result<bool, Seq<char>> {
    match (
        first_with(ds, Runtime::Python, Role::Support),
        first_with(ds, Runtime::Python, Role::Development),
    ) {
        (Some(s), Some(d)) => match pep440_specifiers_error(s.constraint@) {
            Some(m) => Err("Invalid Python support range in "@ + s.source@ + ": "@ + m),
            None => match pep440_version_error(d.constraint@) {
                Some(m) => Err("Invalid Python development version in "@ + d.source@ + ": "@ + m),
                None => Ok(!pep440_contains(s.constraint@, d.constraint@)),
            },
        },
        _ => Ok(false),
    }
}

/// Whether the python version used in development lies outside the range
/// that the project supports, as `python_verdict` says.
pub fn python_development_outside_support(declarations: &[Declaration]) -> (r: Result<
    bool,
    String,
>)
    ensures
        match r {
            Ok(b) => python_verdict(declarations@) == Ok::<bool, Seq<char>>(b),
            Err(m) => python_verdict(declarations@) == Err::<bool, Seq<char>>(m@),
        },
{
    let support = find_declaration(declarations, Runtime::Python, Role::Support);
    let development = find_declaration(declarations, Runtime::Python, Role::Development);
    let (support, development) = match (support, development) {
        (Some(s), Some(d)) => (s, d),
        _ => return Ok(false),
    };
    let specifiers = match parse_python_specifiers(support.constraint.as_str()) {
        Ok(s) => s,
        Err(error) => {
            let mut message = "Invalid Python support range in ".to_owned();
            message.append(support.source.as_str());
            message.append(": ");
            message.append(error.as_str());
            return Err(message);
        },
    };
    let version = match parse_python_version_number(development.constraint.as_str()) {
        Ok(v) => v,
        Err(error) => {
            let mut message = "Invalid Python development version in ".to_owned();
            message.append(development.source.as_str());
            message.append(": ");
            message.append(error.as_str());
            return Err(message);
        },
    };
    Ok(!specifiers_contain(&specifiers, &version))
}

/// The python development version counts as inside only when the whole
/// support range, every one of its specifiers, contains it: once both parse,
/// the verdict is `false` exactly when the specifiers parsed from the whole
/// support text contain the version. A text that does not parse is an error
/// naming its file.
pub proof fn lemma_python_outside_means_not_contained(
    ds: Seq<Declaration>,
    s: Declaration,
    d: Declaration,
)
    requires
        first_with(ds, Runtime::Python, Role::Support) == Some(s),
        first_with(ds, Runtime::Python, Role::Development) == Some(d),
    ensures
        python_verdict(ds) == Ok::<bool, Seq<char>>(false) <==> (pep440_specifiers_error(
            s.constraint@,
        ) is None && pep440_version_error(d.constraint@) is None && pep440_contains(
            s.constraint@,
            d.constraint@,
        )),
        python_verdict(ds) == Ok::<bool, Seq<char>>(true) <==> (pep440_specifiers_error(
            s.constraint@,
        ) is None && pep440_version_error(d.constraint@) is None && !pep440_contains(
            s.constraint@,
            d.constraint@,
        )),
        pep440_specifiers_error(s.constraint@) matches Some(m) ==> python_verdict(ds) == Err::<
            bool,
            Seq<char>,
        >("Invalid Python support range in "@ + s.source@ + ": "@ + m),
{
}

/// Nothing is reported unless there is both a python support range and a python
/// development version.
pub proof fn lemma_python_verdict_needs_both(ds: Seq<Declaration>)
    requires
        first_with(ds, Runtime::Python, Role::Support) is None || first_with(
            ds,
            Runtime::Python,
            Role::Development,
        ) is None,
    ensures
        python_verdict(ds) == Ok::<bool, Seq<char>>(false),
{
}

/// Only python declarations count: a declaration of another runtime, wherever
/// it stands, leaves the verdict as it is.
pub proof fn lemma_python_verdict_ignores_other_runtimes(
    before: Seq<Declaration>,
    d: Declaration,
    after: Seq<Declaration>,
)
    requires
        d.runtime != Runtime::Python,
    ensures
        python_verdict(before + seq![d] + after) == python_verdict(before + after),
{
    lemma_first_with_other(before, d, after, Runtime::Python, Role::Support);
    lemma_first_with_other(before, d, after, Runtime::Python, Role::Development);
}

/// Only the first python support range and the first python development version
/// count: once both are there, later declarations leave the verdict as it is.
pub proof fn lemma_python_verdict_first_counts(ds: Seq<Declaration>, extra: Seq<Declaration>)
    requires
        first_with(ds, Runtime::Python, Role::Support) is Some,
        first_with(ds, Runtime::Python, Role::Development) is Some,
    ensures
        python_verdict(ds + extra) == python_verdict(ds),
{
    lemma_first_with_append(ds, extra, Runtime::Python, Role::Support);
    lemma_first_with_append(ds, extra, Runtime::Python, Role::Development);
}

} // verus!
