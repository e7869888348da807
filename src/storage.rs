use vstd::prelude::*;

use crate::error::QueryError;
use crate::felt::Felt;
use crate::hex::{format_scalar, scalar_text};

verus! {

/// Seconds allowed to the first, most likely, probe.
pub const FIRST_PROBE_TIMEOUT_SECS: u64 = 5;

/// Seconds allowed to each later probe.
pub const LATER_PROBE_TIMEOUT_SECS: u64 = 3;

/// What one bounded-time storage read gave.
#[derive(Clone, Copy, Debug)]
pub enum ProbeOutcome {
    Value(Felt),
    Failed,
    TimedOut,
}

/// What the resolver does next.
#[derive(Debug)]
pub enum ProbeStep {
    /// Read candidate `index` within `timeout_secs`.
    Probe { index: usize, timeout_secs: u64 },
    /// A candidate held this nonzero value: stop.
    Found(Felt),
    /// Every candidate read zero, failed or timed out.
    Exhausted,
}

pub open spec fn probe_timeout(index: nat) -> u64 {
    if index == 0 {
        FIRST_PROBE_TIMEOUT_SECS
    } else {
        LATER_PROBE_TIMEOUT_SECS
    }
}

/// The outcome counts as success: a nonzero value.
pub open spec fn outcome_found(o: ProbeOutcome) -> bool {
    o matches ProbeOutcome::Value(v) && v.value() != 0
}

pub open spec fn probe_from(n: nat, index: nat) -> ProbeStep {
    if index < n {
        ProbeStep::Probe { index: index as usize, timeout_secs: probe_timeout(index) }
    } else {
        ProbeStep::Exhausted
    }
}

/// The step after candidate `index` of `n` answered `o`.
pub open spec fn step_after(n: nat, index: nat, o: ProbeOutcome) -> ProbeStep {
    match o {
        ProbeOutcome::Value(v) => if v.value() != 0 {
            ProbeStep::Found(v)
        } else {
            probe_from(n, index + 1)
        },
        _ => probe_from(n, index + 1),
    }
}

/// The first step over `n` candidates.
pub fn start_probes(n: usize) -> (r: ProbeStep)
    ensures
        r == probe_from(n as nat, 0),
{
    if n == 0 {
        ProbeStep::Exhausted
    } else {
        ProbeStep::Probe { index: 0, timeout_secs: FIRST_PROBE_TIMEOUT_SECS }
    }
}

/// The step after candidate `index` of `n` answered `outcome`: a nonzero
/// value ends the search, anything else moves to the next candidate.
pub fn after_probe(n: usize, index: usize, outcome: &ProbeOutcome) -> (r: ProbeStep)
    requires
        index < n,
    ensures
        r == step_after(n as nat, index as nat, *outcome),
        outcome_found(*outcome) ==> r == ProbeStep::Found(outcome->Value_0),
        !outcome_found(*outcome) ==> r == probe_from(n as nat, (index + 1) as nat),
{
    match outcome {
        ProbeOutcome::Value(v) => {
            if !v.is_zero() {
                return ProbeStep::Found(*v);
            }
        },
        _ => {},
    }
    if index + 1 < n {
        ProbeStep::Probe { index: index + 1, timeout_secs: LATER_PROBE_TIMEOUT_SECS }
    } else {
        ProbeStep::Exhausted
    }
}

/// The candidates read, in order, when the probe of candidate `i` answers
/// `outcomes[i]`, starting at candidate `from`.
pub open spec fn probes_issued(outcomes: Seq<ProbeOutcome>, from: nat) -> Seq<nat>
    decreases outcomes.len() - from,
{
    if from >= outcomes.len() {
        Seq::empty()
    } else if outcome_found(outcomes[from as int]) {
        seq![from]
    } else {
        seq![from] + probes_issued(outcomes, from + 1)
    }
}

/// The last step of that run.
pub open spec fn probe_result(outcomes: Seq<ProbeOutcome>, from: nat) -> ProbeStep
    decreases outcomes.len() - from,
{
    if from >= outcomes.len() {
        ProbeStep::Exhausted
    } else {
        match step_after(outcomes.len(), from, outcomes[from as int]) {
            ProbeStep::Probe { .. } => probe_result(outcomes, from + 1),
            s => s,
        }
    }
}

/// A candidate that reads nonzero ends the search: no later candidate is read.
pub proof fn lemma_short_circuit(outcomes: Seq<ProbeOutcome>, i: nat)
    requires
        i < outcomes.len(),
        outcome_found(outcomes[i as int]),
    ensures
        probes_issued(outcomes, i) == seq![i],
        probe_result(outcomes, i) == ProbeStep::Found(outcomes[i as int]->Value_0),
{
}

/// When every candidate reads zero, fails or times out, each is read once, in
/// order, and the search ends exhausted.
pub proof fn lemma_exhaustion(outcomes: Seq<ProbeOutcome>, from: nat)
    requires
        from <= outcomes.len(),
        forall|i: int| 0 <= i < outcomes.len() ==> !outcome_found(#[trigger] outcomes[i]),
    ensures
        probes_issued(outcomes, from) == Seq::new(
            (outcomes.len() - from) as nat,
            |k: int| (from + k) as nat,
        ),
        probe_result(outcomes, from) == ProbeStep::Exhausted,
    decreases outcomes.len() - from,
{
    if from < outcomes.len() {
        lemma_exhaustion(outcomes, from + 1);
        assert(probes_issued(outcomes, from) =~= Seq::new(
            (outcomes.len() - from) as nat,
            |k: int| (from + k) as nat,
        ));
    } else {
        assert(probes_issued(outcomes, from) =~= Seq::new(
            (outcomes.len() - from) as nat,
            |k: int| (from + k) as nat,
        ));
    }
}

/// The failure that reports every candidate address, in its display form.
pub fn exhausted_error(candidates: &Vec<Felt>) -> (r: QueryError)
    requires
        forall|i: int| 0 <= i < candidates@.len() ==> candidates@[i].wf(),
    ensures
        r matches QueryError::AllCandidatesExhausted(v) && v@.len() == candidates@.len() && (
        forall|i: int| 0 <= i < v@.len() ==> v@[i]@ == scalar_text(candidates@[i])),
{
    let mut texts: Vec<String> = Vec::new();
    let mut i: usize = 0;
    while i < candidates.len()
        invariant
            i <= candidates@.len(),
            texts@.len() == i,
            forall|j: int| 0 <= j < candidates@.len() ==> candidates@[j].wf(),
            forall|j: int| 0 <= j < i ==> texts@[j]@ == scalar_text(candidates@[j]),
        decreases candidates@.len() - i,
    {
        texts.push(format_scalar(&candidates[i]));
        i += 1;
    }
    QueryError::AllCandidatesExhausted(texts)
}

} // verus!
