use vstd::prelude::*;

use crate::committee::{AuthorityName, Committee, StakeUnit};
use crate::messages::SuiError;

verus! {

/// What a reducer asks for after folding one response.
pub enum ReduceOutput<S> {
    /// Keep waiting for responses, with the same timeout.
    Continue(S),
    /// Keep waiting, with a new timeout in milliseconds.
    ContinueWithTimeout(S, u64),
    /// Stop and return the state.
    End(S),
}

/// Folds one authority's response into the state; specified over the state's view.
pub trait Reducer<S: View, V> {
    /// What `reduce` makes of the state and the response, or `None` where it fails.
    spec fn reduce_spec(
        &self,
        state: S::V,
        name: AuthorityName,
        weight: StakeUnit,
        result: Result<V, SuiError>,
    ) -> Option<ReduceOutput<S::V>>;

    /// Where `reduce_spec` is `None`: whether `err` is the error `reduce` fails with.
    spec fn fails_with(
        &self,
        state: S::V,
        name: AuthorityName,
        weight: StakeUnit,
        result: Result<V, SuiError>,
        err: SuiError,
    ) -> bool;

    /// A condition on the state that every fold step keeps.
    spec fn state_inv(&self, state: S) -> bool;

    fn reduce(
        &self,
        state: S,
        name: AuthorityName,
        weight: StakeUnit,
        result: Result<V, SuiError>,
    ) -> (r: Result<ReduceOutput<S>, SuiError>)
        requires
            self.state_inv(state),
        ensures
            match r {
                Ok(out) => self.reduce_spec(state@, name, weight, result) == Some(output_view(out))
                    && self.state_inv(output_state(out)),
                Err(e) => self.reduce_spec(state@, name, weight, result) is None
                    && self.fails_with(state@, name, weight, result, e),
            },
    ;
}

pub open spec fn output_state<S>(out: ReduceOutput<S>) -> S {
    match out {
        ReduceOutput::Continue(s) => s,
        ReduceOutput::ContinueWithTimeout(s, _) => s,
        ReduceOutput::End(s) => s,
    }
}

pub open spec fn output_view<S: View>(out: ReduceOutput<S>) -> ReduceOutput<S::V> {
    match out {
        ReduceOutput::Continue(s) => ReduceOutput::Continue(s@),
        ReduceOutput::ContinueWithTimeout(s, t) => ReduceOutput::ContinueWithTimeout(s@, t),
        ReduceOutput::End(s) => ReduceOutput::End(s@),
    }
}

/// Where the fold stands after one response.
pub enum FoldStep<S> {
    /// Wait for the next response, this many milliseconds at most.
    Wait(S, u64),
    /// The reducer is done.
    Done(S),
}

/// Folds one response from `authority`, weighted by its stake, into `state`, waiting
/// `current_timeout` milliseconds for the next unless the reducer sets another wait or stops.
pub fn reduce_step<S: View, V, R: Reducer<S, V>>(
    committee: &Committee,
    reducer: &R,
    state: S,
    current_timeout: u64,
    authority: AuthorityName,
    result: Result<V, SuiError>,
) -> (r: Result<FoldStep<S>, SuiError>)
    requires
        committee.wf(),
        reducer.state_inv(state),
    ensures
        match reducer.reduce_spec(state@, authority, committee.weight_spec(authority), result) {
            None => r matches Err(e) && reducer.fails_with(state@, authority, committee.weight_spec(authority), result, e),
            Some(ReduceOutput::Continue(s)) => r matches Ok(FoldStep::Wait(s1, t)) && s1@ == s && t
                == current_timeout && reducer.state_inv(s1),
            Some(ReduceOutput::ContinueWithTimeout(s, t)) => r matches Ok(FoldStep::Wait(s1, t1)) && s1@ == s
                && t1 == t && reducer.state_inv(s1),
            Some(ReduceOutput::End(s)) => r matches Ok(FoldStep::Done(s1)) && s1@ == s && reducer.state_inv(s1),
        },
{
    let weight = committee.weight(authority);
    match reducer.reduce(state, authority, weight, result)? {
        ReduceOutput::Continue(s) => Ok(FoldStep::Wait(s, current_timeout)),
        ReduceOutput::ContinueWithTimeout(s, t) => Ok(FoldStep::Wait(s, t)),
        ReduceOutput::End(s) => Ok(FoldStep::Done(s)),
    }
}

/// One authority's response, and how long after the previous response (or after the start)
/// it came.
pub struct Arrival<V> {
    pub authority: AuthorityName,
    pub delay_ms: u64,
    pub result: Result<V, SuiError>,
}

/// Each authority answers at most once: one request goes to each.
pub open spec fn authorities_distinct<V>(arrivals: Seq<Arrival<V>>) -> bool {
    forall|i: int, j: int| 0 <= i < j < arrivals.len() ==> arrivals[i].authority != arrivals[j].authority
}

/// The view of what folding `arrivals` in order returns: a response that comes later than the
/// current timeout ends the fold with the state so far; `End` ends it with the reducer's state;
/// `None` where the reducer fails.
pub open spec fn fold_spec<S: View, V, R: Reducer<S, V>>(
    committee: Committee,
    reducer: R,
    state: S::V,
    timeout: u64,
    arrivals: Seq<Arrival<V>>,
) -> Option<S::V>
    decreases arrivals.len(),
{
    if arrivals.len() == 0 {
        Some(state)
    } else if arrivals[0].delay_ms > timeout {
        Some(state)
    } else {
        let a = arrivals[0];
        match reducer.reduce_spec(state, a.authority, committee.weight_spec(a.authority), a.result) {
            None => None,
            Some(ReduceOutput::Continue(s)) => fold_spec(committee, reducer, s, timeout, arrivals.skip(1)),
            Some(ReduceOutput::ContinueWithTimeout(s, t)) => fold_spec(committee, reducer, s, t, arrivals.skip(1)),
            Some(ReduceOutput::End(s)) => Some(s),
        }
    }
}

/// Where the fold fails: whether `err` is the error it fails with.
pub open spec fn fold_fails_with<S: View, V, R: Reducer<S, V>>(
    committee: Committee,
    reducer: R,
    state: S::V,
    timeout: u64,
    arrivals: Seq<Arrival<V>>,
    err: SuiError,
) -> bool
    decreases arrivals.len(),
{
    if arrivals.len() == 0 || arrivals[0].delay_ms > timeout {
        false
    } else {
        let a = arrivals[0];
        let w = committee.weight_spec(a.authority);
        match reducer.reduce_spec(state, a.authority, w, a.result) {
            None => reducer.fails_with(state, a.authority, w, a.result, err),
            Some(ReduceOutput::Continue(s)) => fold_fails_with(committee, reducer, s, timeout, arrivals.skip(1), err),
            Some(ReduceOutput::ContinueWithTimeout(s, t)) => fold_fails_with(committee, reducer, s, t, arrivals.skip(1), err),
            Some(ReduceOutput::End(_)) => false,
        }
    }
}

/// The fold over `arrivals` reaches their last one, and the reducer answers `End` to it.
pub open spec fn fold_ends_at_last<S: View, V, R: Reducer<S, V>>(
    committee: Committee,
    reducer: R,
    state: S::V,
    timeout: u64,
    arrivals: Seq<Arrival<V>>,
) -> bool
    decreases arrivals.len(),
{
    if arrivals.len() == 0 || arrivals[0].delay_ms > timeout {
        false
    } else {
        let a = arrivals[0];
        match reducer.reduce_spec(state, a.authority, committee.weight_spec(a.authority), a.result) {
            None => false,
            Some(ReduceOutput::Continue(s)) => fold_ends_at_last(committee, reducer, s, timeout, arrivals.skip(1)),
            Some(ReduceOutput::ContinueWithTimeout(s, t)) => fold_ends_at_last(committee, reducer, s, t, arrivals.skip(1)),
            Some(ReduceOutput::End(_)) => arrivals.len() == 1,
        }
    }
}

/// Once the reducer has answered `End` to a response, no later response, from any authority
/// and at any time, changes what the fold returns.
pub proof fn lemma_end_is_final<S: View, V, R: Reducer<S, V>>(
    committee: Committee,
    reducer: R,
    state: S::V,
    timeout: u64,
    arrivals: Seq<Arrival<V>>,
    later: Seq<Arrival<V>>,
)
    requires
        fold_ends_at_last(committee, reducer, state, timeout, arrivals),
    ensures
        fold_spec(committee, reducer, state, timeout, arrivals + later)
            == fold_spec(committee, reducer, state, timeout, arrivals),
    decreases arrivals.len(),
{
    let all = arrivals + later;
    assert(all[0] == arrivals[0]);
    assert(all.skip(1) == arrivals.skip(1) + later);
    let a = arrivals[0];
    match reducer.reduce_spec(state, a.authority, committee.weight_spec(a.authority), a.result) {
        Some(ReduceOutput::Continue(s)) => {
            lemma_end_is_final(committee, reducer, s, timeout, arrivals.skip(1), later);
        },
        Some(ReduceOutput::ContinueWithTimeout(s, t)) => {
            lemma_end_is_final(committee, reducer, s, t, arrivals.skip(1), later);
        },
        _ => {},
    }
}

/// Folds the responses of the committee's authorities, in the order they arrived, into
/// `initial_state`. Waits `initial_timeout` milliseconds for each next response, or what the
/// reducer set last; a later response ends the fold with the state so far, which may be short
/// of a quorum.
pub fn quorum_map_then_reduce_with_timeout<S: View, V, R: Reducer<S, V>>(
    committee: &Committee,
    reducer: &R,
    initial_state: S,
    arrivals: Vec<Arrival<V>>,
    initial_timeout: u64,
) -> (r: Result<S, SuiError>)
    requires
        committee.wf(),
        reducer.state_inv(initial_state),
        authorities_distinct(arrivals@),
    ensures
        r is Ok <==> fold_spec(*committee, *reducer, initial_state@, initial_timeout, arrivals@) is Some,
        r matches Ok(s) ==> reducer.state_inv(s)
            && fold_spec(*committee, *reducer, initial_state@, initial_timeout, arrivals@) == Some(s@),
        r matches Err(e) ==> fold_fails_with(*committee, *reducer, initial_state@, initial_timeout, arrivals@, e),
{
    let mut pending = arrivals;
    let mut state = initial_state;
    let mut current_timeout = initial_timeout;
    let ghost goal: Option<S::V> = fold_spec(*committee, *reducer, initial_state@, initial_timeout, pending@);
    assert(goal == fold_spec(*committee, *reducer, initial_state@, initial_timeout, arrivals@));
    while pending.len() > 0
        invariant
            committee.wf(),
            reducer.state_inv(state),
            goal == fold_spec(*committee, *reducer, state@, current_timeout, pending@),
            goal == fold_spec(*committee, *reducer, initial_state@, initial_timeout, arrivals@),
            forall|e: SuiError| fold_fails_with(*committee, *reducer, state@, current_timeout, pending@, e)
                ==> fold_fails_with(*committee, *reducer, initial_state@, initial_timeout, arrivals@, e),
        decreases pending.len(),
    {
        let ghost rest = pending@;
        let a = pending.remove(0);
        assert(pending@ == rest.skip(1));
        assert(a == rest[0]);
        assert(goal == fold_spec(*committee, *reducer, state@, current_timeout, rest));
        if a.delay_ms > current_timeout {
            return Ok(state);
        }
        match reduce_step(committee, reducer, state, current_timeout, a.authority, a.result)? {
            FoldStep::Wait(s, t) => {
                state = s;
                current_timeout = t;
            },
            FoldStep::Done(s) => {
                return Ok(s);
            },
        }
    }
    Ok(state)
}

} // verus!
