//! Selecting pods and samples by their labels.

use crate::apis::externalpodautoscaler::{
    LabelSelector, LabelSelectorOperator, LabelSelectorRequirement, TargetRef,
};
use crate::k8s;
use crate::labels::Labels;
use crate::text::{join, joined, list_contains, same, text_result, views};
use vstd::prelude::*;
use vstd::string::StringExecFns;

verus! {

// ---------------------------------------------------------------------------
// Selectors of workloads
// ---------------------------------------------------------------------------

/// A label and its value as a selector writes them.
pub open spec fn equality(key: Seq<char>, value: Seq<char>) -> Seq<char> {
    key + "="@ + value
}

/// Labels and their values as a selector writes them.
pub open spec fn equalities(pairs: Seq<(Seq<char>, Seq<char>)>) -> Seq<Seq<char>> {
    pairs.map_values(|p: (Seq<char>, Seq<char>)| equality(p.0, p.1))
}

/// What a requirement is written as: `In` with one value as an equality. Other
/// requirements cannot be written, for that would widen the selector.
pub open spec fn requirement_part(
    requirement: k8s::LabelSelectorRequirement,
) -> Result<Seq<char>, Seq<char>> {
    if requirement.operator@ == "In"@ {
        match requirement.values {
            Some(values) => if values@.len() == 1 {
                Ok(equality(requirement.key@, values@[0]@))
            } else {
                Err(one_value_needed(requirement.key@))
            },
            None => Err(one_value_needed(requirement.key@)),
        }
    } else {
        Err(
            "matchExpressions operator '"@ + requirement.operator@ + "' on key '"@
                + requirement.key@ + "' is not supported"@,
        )
    }
}

/// The report of an `In` without exactly one value.
pub open spec fn one_value_needed(key: Seq<char>) -> Seq<char> {
    "matchExpressions 'In' on key '"@ + key + "' requires exactly one value"@
}

/// What requirements are written as, or the report of the first that cannot be.
pub open spec fn requirement_parts(requirements: Seq<k8s::LabelSelectorRequirement>) -> Result<
    Seq<Seq<char>>,
    Seq<char>,
>
    decreases requirements.len(),
{
    if requirements.len() == 0 {
        Ok(seq![])
    } else {
        match requirement_parts(requirements.drop_last()) {
            Ok(parts) => match requirement_part(requirements.last()) {
                Ok(part) => Ok(parts.push(part)),
                Err(m) => Err(m),
            },
            Err(m) => Err(m),
        }
    }
}

/// The equalities that a workload's selector asks for, its labels first, in the order
/// of their keys, or the report of a requirement that cannot be written.
pub open spec fn selector_parts(selector: k8s::LabelSelector) -> Result<
    Seq<Seq<char>>,
    Seq<char>,
> {
    let labels = match selector.match_labels {
        Some(labels) => equalities(labels.pairs()),
        None => seq![],
    };
    match selector.match_expressions {
        Some(requirements) => match requirement_parts(requirements@) {
            Ok(parts) => Ok(labels + parts),
            Err(m) => Err(m),
        },
        None => Ok(labels),
    }
}

/// A workload's selector as text, or the report of why it cannot be written.
pub open spec fn selector_text(selector: k8s::LabelSelector) -> Result<Seq<char>, Seq<char>> {
    match selector_parts(selector) {
        Ok(parts) => if parts.len() == 0 {
            Err("Selector has no usable label constraints"@)
        } else {
            Ok(joined(parts, ","@))
        },
        Err(m) => Err(m),
    }
}

fn write_equality(key: &str, value: &str) -> (r: String)
    ensures
        r@ == equality(key@, value@),
{
    let mut r = key.to_owned();
    r.append("=");
    r.append(value);
    r
}

fn write_requirement(requirement: &k8s::LabelSelectorRequirement) -> (r: Result<String, String>)
    ensures
        text_result(r) == requirement_part(*requirement),
{
    if same(requirement.operator.as_str(), "In") {
        if let Some(values) = &requirement.values {
            if values.len() == 1 {
                return Ok(write_equality(requirement.key.as_str(), values[0].as_str()));
            }
        }
        let mut m = "matchExpressions 'In' on key '".to_owned();
        m.append(requirement.key.as_str());
        m.append("' requires exactly one value");
        Err(m)
    } else {
        let mut m = "matchExpressions operator '".to_owned();
        m.append(requirement.operator.as_str());
        m.append("' on key '");
        m.append(requirement.key.as_str());
        m.append("' is not supported");
        Err(m)
    }
}

proof fn lemma_fault_stays(requirements: Seq<k8s::LabelSelectorRequirement>, i: int)
    requires
        0 <= i <= requirements.len(),
        requirement_parts(requirements.take(i)) is Err,
    ensures
        requirement_parts(requirements) == requirement_parts(requirements.take(i)),
    decreases requirements.len() - i,
{
    if i < requirements.len() {
        assert(requirements.take(i + 1).drop_last() =~= requirements.take(i));
        lemma_fault_stays(requirements, i + 1);
    } else {
        assert(requirements.take(i) =~= requirements);
    }
}

/// Build a label selector string from a LabelSelector.
///
/// Labels and `In` requirements with one value become equalities. There is an error
/// for any other requirement, and where there is no equality at all.
pub fn build_label_selector_string(selector: &k8s::LabelSelector) -> (r: Result<String, String>)
    ensures
        text_result(r) == selector_text(*selector),
{
    let mut parts: Vec<String> = Vec::new();
    let ghost mut base: Seq<Seq<char>> = seq![];
    if let Some(labels) = &selector.match_labels {
        let n: usize = labels.len();
        let mut i: usize = 0;
        assert(views(parts@) =~= equalities(labels.pairs()).take(0));
        while i < n
            invariant
                n == labels.pairs().len(),
                i <= n,
                views(parts@) == equalities(labels.pairs()).take(i as int),
            decreases n - i,
        {
            let ghost before = views(parts@);
            let (key, value) = labels.at(i);
            parts.push(write_equality(key.as_str(), value.as_str()));
            proof {
                let p = labels.pairs()[i as int];
                assert(views(parts@) =~= before.push(equality(p.0, p.1)));
                assert(equalities(labels.pairs()).take(i + 1) =~= before.push(
                    equality(p.0, p.1),
                ));
            }
            i += 1;
        }
        proof {
            base = equalities(labels.pairs());
            assert(base.take(i as int) =~= base);
        }
    }
    assert(views(parts@) =~= base);
    if let Some(requirements) = &selector.match_expressions {
        let mut i: usize = 0;
        assert(requirements@.take(0) =~= seq![]);
        while i < requirements.len()
            invariant
                i <= requirements@.len(),
                requirement_parts(requirements@.take(i as int)) is Ok,
                views(parts@) == base + requirement_parts(requirements@.take(i as int))->Ok_0,
                selector.match_expressions == Some(*requirements),
                selector.match_labels matches Some(labels) ==> base == equalities(labels.pairs()),
                selector.match_labels is None ==> base == Seq::<Seq<char>>::empty(),
            decreases requirements.len() - i,
        {
            proof {
                assert(requirements@.take(i + 1).drop_last() =~= requirements@.take(i as int));
                assert(requirements@.take(i + 1).last() == requirements@[i as int]);
            }
            match write_requirement(&requirements[i]) {
                Ok(part) => {
                    let ghost before = views(parts@);
                    parts.push(part);
                    assert(views(parts@) =~= before.push(part@));
                    assert(views(parts@) =~= base + requirement_parts(
                        requirements@.take(i + 1),
                    )->Ok_0);
                },
                Err(m) => {
                    proof {
                        lemma_fault_stays(requirements@, i + 1);
                    }
                    return Err(m);
                },
            }
            i += 1;
        }
        assert(requirements@.take(i as int) =~= requirements@);
    }
    assert(views(parts@).len() == parts@.len());
    if parts.len() == 0 {
        return Err("Selector has no usable label constraints".to_owned());
    }
    Ok(join(&parts, ","))
}

/// The kinds of workloads whose pods can be scraped
#[derive(Debug, Clone, Copy, PartialEq, Eq, Structural)]
pub enum WorkloadKind {
    Deployment,
    StatefulSet,
    DaemonSet,
}

impl WorkloadKind {
    /// The name of the kind.
    pub open spec fn named(self) -> Seq<char> {
        match self {
            WorkloadKind::Deployment => "Deployment"@,
            WorkloadKind::StatefulSet => "StatefulSet"@,
            WorkloadKind::DaemonSet => "DaemonSet"@,
        }
    }

    /// The name of the kind.
    pub fn name(self) -> (r: &'static str)
        ensures
            r@ == self.named(),
    {
        match self {
            WorkloadKind::Deployment => "Deployment",
            WorkloadKind::StatefulSet => "StatefulSet",
            WorkloadKind::DaemonSet => "DaemonSet",
        }
    }
}

/// The kind of workload that a reference names.
pub fn target_kind(target_ref: &TargetRef) -> (r: Result<WorkloadKind, String>)
    ensures
        match r {
            Ok(kind) => target_ref.kind@ == kind.named(),
            Err(m) => target_ref.kind@ != "Deployment"@ && target_ref.kind@ != "StatefulSet"@
                && target_ref.kind@ != "DaemonSet"@ && m@ == "Unsupported target kind: "@
                + target_ref.kind@,
        },
{
    let kind = target_ref.kind.as_str();
    if same(kind, "Deployment") {
        Ok(WorkloadKind::Deployment)
    } else if same(kind, "StatefulSet") {
        Ok(WorkloadKind::StatefulSet)
    } else if same(kind, "DaemonSet") {
        Ok(WorkloadKind::DaemonSet)
    } else {
        let mut m = "Unsupported target kind: ".to_owned();
        m.append(kind);
        Err(m)
    }
}

/// The selector text of a workload, given the selector that its spec holds.
pub fn get_pod_selector(kind: WorkloadKind, selector: &Option<k8s::LabelSelector>) -> (r: Result<
    String,
    String,
>)
    ensures
        text_result(r) == (match selector {
            Some(s) => selector_text(*s),
            None => Err(kind.named() + " has no spec"@),
        }),
{
    match selector {
        Some(s) => build_label_selector_string(s),
        None => {
            let mut m = kind.name().to_owned();
            m.append(" has no spec");
            Err(m)
        },
    }
}

// ---------------------------------------------------------------------------
// Selectors of samples
// ---------------------------------------------------------------------------

/// Whether labels meet a requirement. `In` and `NotIn` without values ask for nothing.
pub open spec fn meets(
    labels: Map<Seq<char>, Seq<char>>,
    requirement: LabelSelectorRequirement,
) -> bool {
    let key = requirement.key@;
    match requirement.operator {
        LabelSelectorOperator::In => match requirement.values {
            Some(values) => labels.contains_key(key) && views(values@).contains(labels[key]),
            None => true,
        },
        LabelSelectorOperator::NotIn => match requirement.values {
            Some(values) => !(labels.contains_key(key) && views(values@).contains(labels[key])),
            None => true,
        },
        LabelSelectorOperator::Exists => labels.contains_key(key),
        LabelSelectorOperator::DoesNotExist => !labels.contains_key(key),
    }
}

/// Whether labels have all the values that `wanted` gives.
pub open spec fn has_all(
    labels: Map<Seq<char>, Seq<char>>,
    wanted: Map<Seq<char>, Seq<char>>,
) -> bool {
    forall|k: Seq<char>| #[trigger]
        wanted.contains_key(k) ==> labels.contains_key(k) && labels[k] == wanted[k]
}

/// Whether a selector admits labels: all its labels have their values, and all its
/// requirements are met.
pub open spec fn admits(selector: LabelSelector, labels: Map<Seq<char>, Seq<char>>) -> bool {
    &&& selector.match_labels matches Some(wanted) ==> has_all(labels, wanted@)
    &&& selector.match_expressions matches Some(requirements) ==> forall|i: int|
        0 <= i < requirements@.len() ==> meets(labels, #[trigger] requirements@[i])
}

fn meets_requirement(labels: &Labels, requirement: &LabelSelectorRequirement) -> (r: bool)
    ensures
        r == meets(labels@, *requirement),
{
    let value = labels.get(requirement.key.as_str());
    match requirement.operator {
        LabelSelectorOperator::In => match &requirement.values {
            Some(values) => match value {
                Some(v) => list_contains(values, v.as_str()),
                None => false,
            },
            None => true,
        },
        LabelSelectorOperator::NotIn => match &requirement.values {
            Some(values) => match value {
                Some(v) => !list_contains(values, v.as_str()),
                None => true,
            },
            None => true,
        },
        LabelSelectorOperator::Exists => value.is_some(),
        LabelSelectorOperator::DoesNotExist => value.is_none(),
    }
}

/// Check if metric labels match a label selector.
pub fn matches_label_selector(labels: &Labels, selector: &LabelSelector) -> (r: bool)
    ensures
        r == admits(*selector, labels@),
{
    if let Some(wanted) = &selector.match_labels {
        if !has_labels(labels, wanted) {
            return false;
        }
    }
    match &selector.match_expressions {
        Some(requirements) => meets_all(labels, requirements),
        None => true,
    }
}

fn meets_all(labels: &Labels, requirements: &Vec<LabelSelectorRequirement>) -> (r: bool)
    ensures
        r == (forall|i: int|
            0 <= i < requirements@.len() ==> meets(labels@, #[trigger] requirements@[i])),
{
    let mut i: usize = 0;
    while i < requirements.len()
        invariant
            i <= requirements@.len(),
            forall|k: int| 0 <= k < i ==> meets(labels@, #[trigger] requirements@[k]),
        decreases requirements.len() - i,
    {
        if !meets_requirement(labels, &requirements[i]) {
            assert(!meets(labels@, requirements@[i as int]));
            return false;
        }
        i += 1;
    }
    true
}

/// Whether labels have all the values that `wanted` gives.
pub fn has_labels(labels: &Labels, wanted: &Labels) -> (r: bool)
    ensures
        r == has_all(labels@, wanted@),
{
    let n: usize = wanted.len();
    let mut i: usize = 0;
    while i < n
        invariant
            n == wanted.pairs().len(),
            i <= n,
            forall|k: int|
                0 <= k < i ==> labels@.contains_key((#[trigger] wanted.pairs()[k]).0)
                    && labels@[wanted.pairs()[k].0] == wanted.pairs()[k].1,
        decreases n - i,
    {
        let (key, value) = wanted.at(i);
        if !labels.has(key.as_str(), value.as_str()) {
            return false;
        }
        i += 1;
    }
    true
}

} // verus!
