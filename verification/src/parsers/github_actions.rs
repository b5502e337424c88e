//! The node versions that a GitHub Actions workflow tests with.

use vstd::prelude::*;

use crate::data::{
    is_key, lemma_lookup_ignores_other_key, lookup, mapping_get, mapping_of, member, sequence_of,
    text_of_value, DataValue,
};
use crate::formats::{parse_yaml_document, yaml_document};
use crate::model::{all_describe, Declaration, Role, Runtime};
use crate::text::starts_with;

verus! {

/// A scalar written as text: a string as it is, a number as its parser
/// writes it; nothing for other values (a tagged string included).
pub open spec fn scalar_text(v: DataValue) -> Option<Seq<char>> {
    match v {
        DataValue::Text(s) => Some(s@),
        DataValue::Number(n) => Some(n@),
        _ => None,
    }
}

/// The node version that a workflow step sets up: for a step that `uses`
/// an `actions/setup-node@...` action `with` a `node-version` scalar, that
/// scalar as text.
pub open spec fn step_node_version(step: DataValue) -> Option<Seq<char>> {
    match mapping_of(step) {
        Some(s) => match lookup(s, "uses"@) {
            Some(u) => match text_of_value(u) {
                Some(uses) => if starts_with(uses, "actions/setup-node@"@) {
                    match lookup(s, "with"@) {
                        Some(w) => match mapping_of(w) {
                            Some(with) => match lookup(with, "node-version"@) {
                                Some(v) => scalar_text(v),
                                None => None,
                            },
                            None => None,
                        },
                        None => None,
                    }
                } else {
                    None
                },
                None => None,
            },
            None => None,
        },
        None => None,
    }
}

/// A setup-node step's version depends on its `uses` and on the
/// `node-version` of its `with` alone: two steps with the same `uses`, whose
/// `with` mappings differ by one entry under another key (a second input
/// such as `cache`, wherever it stands), set up the same version.
pub proof fn lemma_step_version_ignores_other_inputs(
    step: DataValue,
    other: DataValue,
    i: int,
    extra: (DataValue, DataValue),
)
    requires
        mapping_of(step) is Some,
        mapping_of(other) is Some,
        lookup(mapping_of(step).unwrap(), "uses"@) == lookup(mapping_of(other).unwrap(), "uses"@),
        lookup(mapping_of(step).unwrap(), "with"@) is Some,
        lookup(mapping_of(other).unwrap(), "with"@) is Some,
        mapping_of(lookup(mapping_of(step).unwrap(), "with"@).unwrap()) is Some,
        0 <= i <= mapping_of(lookup(mapping_of(step).unwrap(), "with"@).unwrap()).unwrap().len(),
        mapping_of(lookup(mapping_of(other).unwrap(), "with"@).unwrap()) == Some(
            mapping_of(lookup(mapping_of(step).unwrap(), "with"@).unwrap()).unwrap().insert(i, extra),
        ),
        !is_key(extra.0, "node-version"@),
    ensures
        step_node_version(step) == step_node_version(other),
{
    let w = mapping_of(lookup(mapping_of(step).unwrap(), "with"@).unwrap()).unwrap();
    lemma_lookup_ignores_other_key(w, i, extra, "node-version"@);
}

/// The node versions that `steps` set up, in order.
pub open spec fn steps_node_versions(steps: Seq<DataValue>) -> Seq<Seq<char>>
    decreases steps.len(),
{
    if steps.len() == 0 {
        Seq::empty()
    } else {
        let vs = steps_node_versions(steps.drop_last());
        match step_node_version(steps.last()) {
            Some(v) => vs.push(v),
            None => vs,
        }
    }
}

/// The node versions that a job's `steps` set up.
pub open spec fn job_node_versions(job: DataValue) -> Seq<Seq<char>> {
    match member(job, "steps"@) {
        Some(steps) => match sequence_of(steps) {
            Some(s) => steps_node_versions(s),
            None => Seq::empty(),
        },
        None => Seq::empty(),
    }
}

/// The node versions that the jobs (the values of `jobs`) set up, job after job.
pub open spec fn jobs_node_versions(jobs: Seq<(DataValue, DataValue)>) -> Seq<Seq<char>>
    decreases jobs.len(),
{
    if jobs.len() == 0 {
        Seq::empty()
    } else {
        jobs_node_versions(jobs.drop_last()) + job_node_versions(jobs.last().1)
    }
}

/// The node versions that a workflow document's `jobs` set up.
pub open spec fn workflow_node_versions(document: DataValue) -> Seq<Seq<char>> {
    match member(document, "jobs"@) {
        Some(jobs) => match mapping_of(jobs) {
            Some(j) => jobs_node_versions(j),
            None => Seq::empty(),
        },
        None => Seq::empty(),
    }
}

/// Node versions that a project tests with.
pub open spec fn test_entries(versions: Seq<Seq<char>>) -> Seq<(Runtime, Seq<char>, Role)> {
    versions.map_values(|v: Seq<char>| (Runtime::Node, v, Role::Test))
}

/// A scalar written as text, as `scalar_text` says.
pub fn scalar_to_string(v: &DataValue) -> (r: Option<String>)
    ensures
        match r {
            Some(s) => scalar_text(*v) == Some(s@),
            None => scalar_text(*v) is None,
        },
{
    match v {
        DataValue::Text(s) => Some(s.clone()),
        DataValue::Number(n) => Some(n.clone()),
        _ => None,
    }
}

/// The node version that a workflow step sets up.
fn step_version(step: &DataValue) -> (r: Option<String>)
    ensures
        match r {
            Some(s) => step_node_version(*step) == Some(s@),
            None => step_node_version(*step) is None,
        },
{
    let s = match step.as_mapping() {
        Some(s) => s,
        None => return None,
    };
    let uses = match mapping_get(s, "uses") {
        Some(u) => match u.as_str() {
            Some(t) => t,
            None => return None,
        },
        None => return None,
    };
    let uses_chars = crate::text::chars_of(uses);
    assert(uses_chars@.subrange(0, uses_chars@.len() as int) =~= uses_chars@);
    if !crate::text::starts_with_at(&uses_chars, 0, uses_chars.len(), "actions/setup-node@") {
        return None;
    }
    let with = match mapping_get(s, "with") {
        Some(w) => match w.as_mapping() {
            Some(m) => m,
            None => return None,
        },
        None => return None,
    };
    match mapping_get(with, "node-version") {
        Some(v) => scalar_to_string(v),
        None => None,
    }
}

/// The node versions that a parsed workflow tests with: for each job in
/// order, for each of its steps in order, the `node-version` of a step that
/// uses `actions/setup-node`.
pub fn workflow_declarations(document: &DataValue, source: &str) -> (ds: Vec<Declaration>)
    ensures
        all_describe(ds@, test_entries(workflow_node_versions(*document)), source@),
{
    let mut ds: Vec<Declaration> = Vec::new();
    let jobs = match document.get("jobs") {
        Some(j) => match j.as_mapping() {
            Some(m) => m,
            None => return ds,
        },
        None => return ds,
    };
    let ghost jv = jobs@;
    let mut k: usize = 0;
    while k < jobs.len()
        invariant
            k <= jv.len(),
            jv == jobs@,
            all_describe(ds@, test_entries(jobs_node_versions(jv.take(k as int))), source@),
        decreases jobs.len() - k,
    {
        proof {
            assert(jv.take(k + 1).drop_last() =~= jv.take(k as int));
            assert(jv.take(k + 1).last() == jv[k as int]);
        }
        let ghost done = jobs_node_versions(jv.take(k as int));
        let job = &jobs[k].1;
        let steps: Option<&Vec<DataValue>> = match job.get("steps") {
            Some(s) => s.as_sequence(),
            None => None,
        };
        match steps {
            Some(steps) => {
                let ghost sv = steps@;
                let mut i: usize = 0;
                while i < steps.len()
                    invariant
                        i <= sv.len(),
                        sv == steps@,
                        all_describe(
                            ds@,
                            test_entries(done + steps_node_versions(sv.take(i as int))),
                            source@,
                        ),
                    decreases steps.len() - i,
                {
                    proof {
                        assert(sv.take(i + 1).drop_last() =~= sv.take(i as int));
                        assert(sv.take(i + 1).last() == sv[i as int]);
                    }
                    let ghost before = done + steps_node_versions(sv.take(i as int));
                    match step_version(&steps[i]) {
                        Some(v) => {
                            ds.push(
                                Declaration {
                                    runtime: Runtime::Node,
                                    constraint: v,
                                    role: Role::Test,
                                    source: source.to_owned(),
                                },
                            );
                            proof {
                                let after = done + steps_node_versions(sv.take(i + 1));
                                assert(after =~= before.push(v@));
                                let e = test_entries(after);
                                assert forall|j: int| 0 <= j < ds@.len() implies (
                                #[trigger] ds@[j]).describes(e[j].0, e[j].1, e[j].2, source@) by {
                                    if j < ds@.len() - 1 {
                                        assert(ds@[j] == ds@.drop_last()[j]);
                                        assert(e[j] == test_entries(before)[j]);
                                    }
                                }
                            }
                        },
                        None => {
                            proof {
                                let after = done + steps_node_versions(sv.take(i + 1));
                                assert(after =~= before);
                            }
                        },
                    }
                    i = i + 1;
                }
                proof {
                    assert(sv.take(sv.len() as int) =~= sv);
                    assert(jobs_node_versions(jv.take(k + 1)) =~= done + steps_node_versions(sv));
                }
            },
            None => {
                proof {
                    assert(jobs_node_versions(jv.take(k + 1)) =~= done);
                }
            },
        }
        k = k + 1;
    }
    assert(jv.take(jv.len() as int) =~= jv);
    ds
}

/// The node versions that a workflow text tests with, as
/// `workflow_declarations` finds them in its document; the YAML parser's
/// message when the text is no YAML document.
pub fn parse_github_actions(contents: &str, source: &str) -> (r: Result<Vec<Declaration>, String>)
    ensures
        match r {
            Ok(ds) => yaml_document(contents@) matches Ok(doc) && all_describe(
                ds@,
                test_entries(workflow_node_versions(doc)),
                source@,
            ),
            Err(m) => yaml_document(contents@) == Err::<DataValue, Seq<char>>(m@),
        },
{
    match parse_yaml_document(contents) {
        Ok(document) => Ok(workflow_declarations(&document, source)),
        Err(message) => Err(message),
    }
}

} // verus!
