use std::collections::BTreeMap;

use vstd::prelude::*;

use crate::committee::{vec_contains, AuthorityName};
use crate::messages::SuiError;

verus! {

/// The wait before the second round of requests, in milliseconds.
pub const INITIAL_ROUND_DELAY_MS: u64 = 1000;

/// The longest wait between rounds, in milliseconds (five minutes).
pub const MAX_ROUND_DELAY_MS: u64 = 300_000;

/// What happened while asking for a single answer.
pub enum QuorumOnceEvent<S> {
    /// The interval between starting requests elapsed.
    StartNext,
    /// A request finished: `None` where it timed out.
    Response(AuthorityName, Option<Result<S, SuiError>>),
}

/// What to do next.
pub enum QuorumOnceAction<S> {
    /// Send the request to this authority.
    Start(AuthorityName),
    /// An authority answered.
    Success(S),
    /// Requests are still running and no candidate is left to start: keep waiting for them.
    Wait,
    /// Every candidate of the round was tried and none is still running: wait this long, then
    /// start a new round.
    Backoff(u64),
}

/// One round of asking the candidates in turn, and the errors of every round so far.
pub struct QuorumOnceState {
    pub candidates: Vec<AuthorityName>,
    pub next_index: usize,
    /// Requests of this round started and not yet finished.
    pub in_flight: usize,
    pub delay_ms: u64,
    /// The last error of each authority.
    pub authority_errors: BTreeMap<AuthorityName, SuiError>,
}

/// Requests still running after an event: one fewer when the event is a finished request.
pub open spec fn running_after(in_flight: usize, finished: bool) -> int {
    if finished && in_flight > 0 {
        in_flight - 1
    } else {
        in_flight as int
    }
}

/// The wait after the round that waited `delay` before it: twice as long, at most five minutes.
pub open spec fn next_delay(delay: u64) -> u64 {
    if 2 * delay > MAX_ROUND_DELAY_MS {
        MAX_ROUND_DELAY_MS
    } else {
        (2 * delay) as u64
    }
}

impl QuorumOnceState {
    pub open spec fn wf(&self) -> bool {
        &&& self.next_index <= self.candidates.len()
        &&& self.in_flight <= self.next_index
    }

    /// The state before the first round.
    pub fn new() -> (r: QuorumOnceState)
        ensures
            r.wf(),
            r.candidates@.len() == 0,
            r.delay_ms == INITIAL_ROUND_DELAY_MS,
            r.authority_errors@ == Map::<AuthorityName, SuiError>::empty(),
    {
        QuorumOnceState {
            candidates: Vec::new(),
            next_index: 0,
            in_flight: 0,
            delay_ms: INITIAL_ROUND_DELAY_MS,
            authority_errors: BTreeMap::new(),
        }
    }

    /// Starts a round over `candidates` (the authorities in the order to try them): the first
    /// is asked at once. An empty list is an error.
    pub fn begin_round(&mut self, candidates: Vec<AuthorityName>) -> (r: Result<AuthorityName, SuiError>)
        requires
            old(self).wf(),
        ensures
            final(self).wf(),
            final(self).candidates@ == candidates@,
            final(self).delay_ms == old(self).delay_ms,
            final(self).authority_errors@ == old(self).authority_errors@,
            candidates@.len() == 0 ==> r matches Err(SuiError::EmptyAuthorityList),
            candidates@.len() > 0 ==> r == Ok::<AuthorityName, SuiError>(candidates@[0]) && final(self).next_index == 1
                && final(self).in_flight == 1,
    {
        self.candidates = candidates;
        if self.candidates.len() == 0 {
            self.next_index = 0;
            self.in_flight = 0;
            return Err(SuiError::EmptyAuthorityList);
        }
        self.next_index = 1;
        self.in_flight = 1;
        Ok(self.candidates[0])
    }

    fn record_error(&mut self, name: AuthorityName, e: SuiError)
        requires
            old(self).wf(),
        ensures
            final(self).wf(),
            final(self).authority_errors@ == old(self).authority_errors@.insert(name, e),
            final(self).candidates == old(self).candidates,
            final(self).next_index == old(self).next_index,
            final(self).in_flight == old(self).in_flight,
            final(self).delay_ms == old(self).delay_ms,
    {
        broadcast use vstd::std_specs::btree::group_btree_axioms, vstd::laws_cmp::group_laws_cmp;

        self.authority_errors.insert(name, e);
    }

    /// Folds one event into the round. A success ends the whole request. A failure or a timeout
    /// is recorded against its authority, and its request no longer counts as running; the other
    /// requests keep running. Then, as after the interval elapses, the next candidate is started;
    /// with none left, the round keeps waiting while requests are running, and only when none is
    /// left ends with a backoff, doubling the next one up to five minutes. Nothing here gives up:
    /// only the total timeout does.
    pub fn on_event<S>(&mut self, event: QuorumOnceEvent<S>) -> (r: QuorumOnceAction<S>)
        requires
            old(self).wf(),
        ensures
            final(self).wf(),
            final(self).candidates@ == old(self).candidates@,
            match event {
                QuorumOnceEvent::Response(_, Some(Ok(s))) => r == QuorumOnceAction::Success(s)
                    && final(self).authority_errors@ == old(self).authority_errors@,
                QuorumOnceEvent::Response(name, Some(Err(e))) => final(self).authority_errors@
                    == old(self).authority_errors@.insert(name, e),
                QuorumOnceEvent::Response(name, None) => final(self).authority_errors@
                    == old(self).authority_errors@.insert(name, SuiError::TimeoutError),
                QuorumOnceEvent::StartNext => final(self).authority_errors@ == old(self).authority_errors@,
            },
            !(event matches QuorumOnceEvent::Response(_, Some(Ok(_)))) ==> {
                let running = running_after(old(self).in_flight, event is Response);
                if old(self).next_index < old(self).candidates@.len() {
                    r == QuorumOnceAction::<S>::Start(old(self).candidates@[old(self).next_index as int])
                        && final(self).next_index == old(self).next_index + 1 && final(self).in_flight == running + 1
                        && final(self).delay_ms == old(self).delay_ms
                } else if running > 0 {
                    r == QuorumOnceAction::<S>::Wait && final(self).in_flight == running && final(self).delay_ms
                        == old(self).delay_ms
                } else {
                    r == QuorumOnceAction::<S>::Backoff(old(self).delay_ms) && final(self).in_flight == 0
                        && final(self).delay_ms == next_delay(old(self).delay_ms)
                }
            },
    {
        match event {
            QuorumOnceEvent::StartNext => {},
            QuorumOnceEvent::Response(name, outcome) => {
                match outcome {
                    Some(Ok(s)) => {
                        return QuorumOnceAction::Success(s);
                    },
                    Some(Err(e)) => {
                        self.record_error(name, e);
                    },
                    None => {
                        self.record_error(name, SuiError::TimeoutError);
                    },
                }
                if self.in_flight > 0 {
                    self.in_flight = self.in_flight - 1;
                }
            },
        }
        if self.next_index < self.candidates.len() {
            let name = self.candidates[self.next_index];
            self.next_index = self.next_index + 1;
            self.in_flight = self.in_flight + 1;
            QuorumOnceAction::Start(name)
        } else if self.in_flight > 0 {
            QuorumOnceAction::Wait
        } else {
            let d = self.delay_ms;
            self.delay_ms = if d > MAX_ROUND_DELAY_MS / 2 {
                MAX_ROUND_DELAY_MS
            } else {
                d * 2
            };
            QuorumOnceAction::Backoff(d)
        }
    }

    /// The error once the total timeout has elapsed: a plain timeout when no authority failed,
    /// else every authority's last error, by authority, with what was asked.
    pub fn timed_out(self, description: String) -> (r: SuiError)
        ensures
            self.authority_errors@.len() == 0 ==> r is TimeoutError,
            self.authority_errors@.len() > 0 ==> match r {
                SuiError::TooManyIncorrectAuthorities { errors, action } => errors_listing(errors@, self.authority_errors@)
                    && action@ == description@,
                _ => false,
            },
    {
        broadcast use vstd::std_specs::btree::group_btree_axioms, vstd::laws_cmp::group_laws_cmp;

        if self.authority_errors.len() == 0 {
            return SuiError::TimeoutError;
        }
        let mut m = self.authority_errors;
        let ghost m0 = m@;
        let mut names: Vec<AuthorityName> = Vec::new();
        for kv in it: m.iter()
            invariant
                m@ == m0,
                forall|j: int| 0 <= j < names@.len() ==> m0.contains_key(#[trigger] names@[j]),
                names@.no_duplicates(),
                forall|k: AuthorityName| #[trigger] m0.contains_key(k) ==> names@.contains(k) || exists|j: int|
                    it.index() <= j < it.seq().len() && *it.seq()[j].0 == k,
        {
            let k = *kv.0;
            proof {
                assert(kv == it.seq()[it.index() as int]);
                assert(m0.contains_key(k));
            }
            let ghost old_names = names@;
            let ghost idx = it.index();
            if !vec_contains(&names, k) {
                names.push(k);
                assert(names@[names@.len() - 1] == k);
                assert(names@.no_duplicates()) by {
                    assert forall|a: int, b: int| 0 <= a < b < names@.len() implies names@[a] != names@[b] by {
                        if b == names@.len() - 1 {
                            assert(names@[a] == old_names[a]);
                        }
                    }
                }
            }
            proof {
                assert(names@.contains(k));
                assert forall|k2: AuthorityName| #[trigger] m0.contains_key(k2) && !names@.contains(k2) implies exists|j: int|
                    idx + 1 <= j < it.seq().len() && *it.seq()[j].0 == k2 by {
                    if !old_names.contains(k2) {
                        let j = choose|j: int| idx <= j < it.seq().len() && *it.seq()[j].0 == k2;
                        assert(j != idx);
                    } else {
                        let j = choose|j: int| 0 <= j < old_names.len() && old_names[j] == k2;
                        assert(names@[j] == k2);
                    }
                }
            }
        }
        assert forall|k: AuthorityName| m0.contains_key(k) <==> names@.contains(k) by {
            if names@.contains(k) {
                let j = choose|j: int| 0 <= j < names@.len() && names@[j] == k;
                assert(m0.contains_key(names@[j]));
            }
        }
        let mut errors: Vec<(AuthorityName, SuiError)> = Vec::new();
        let mut i: usize = 0;
        while i < names.len()
            invariant
                0 <= i <= names.len(),
                names@.no_duplicates(),
                forall|k: AuthorityName| m0.contains_key(k) <==> names@.contains(k),
                forall|k: AuthorityName| #[trigger] m@.contains_key(k) <==> (m0.contains_key(k) && !names@.take(i as int).contains(k)),
                forall|k: AuthorityName| #[trigger] m@.contains_key(k) ==> m@[k] == m0[k],
                errors@.len() == i,
                forall|j: int| 0 <= j < i ==> (#[trigger] errors@[j]).0 == names@[j] && errors@[j].1 == m0[names@[j]],
            decreases names.len() - i,
        {
            let k = names[i];
            assert(!names@.take(i as int).contains(k)) by {
                if names@.take(i as int).contains(k) {
                    let j = choose|j: int| 0 <= j < i && names@.take(i as int)[j] == k;
                    assert(names@[j] == names@[i as int]);
                }
            }
            assert(names@.contains(k));
            let ghost before = m@;
            let e = m.remove(&k).unwrap();
            assert(m@ == before.remove(k));
            errors.push((k, e));
            assert(names@.take(i as int + 1) == names@.take(i as int).push(k));
            assert forall|k2: AuthorityName| #[trigger] m@.contains_key(k2) <==> (m0.contains_key(k2)
                && !names@.take(i as int + 1).contains(k2)) by {
                let t = names@.take(i as int);
                let t1 = names@.take(i as int + 1);
                if k2 == k {
                    assert(t1[i as int] == k);
                }
                if t.contains(k2) {
                    let j = choose|j: int| 0 <= j < t.len() && t[j] == k2;
                    assert(t1[j] == k2);
                }
                if t1.contains(k2) && k2 != k {
                    let j = choose|j: int| 0 <= j < t1.len() && t1[j] == k2;
                    assert(t[j] == k2);
                }
            }
            i = i + 1;
        }
        assert(names@.take(i as int) == names@);
        proof {
            names@.unique_seq_to_set();
            assert(names@.to_set() =~= m0.dom());
        }
        SuiError::TooManyIncorrectAuthorities { errors, action: description }
    }
}

/// `errors` lists `m`: every authority of `m` once, each with its error.
pub open spec fn errors_listing(errors: Seq<(AuthorityName, SuiError)>, m: Map<AuthorityName, SuiError>) -> bool {
    &&& errors.len() == m.dom().len()
    &&& forall|j: int| 0 <= j < errors.len() ==> m.contains_key(#[trigger] errors[j].0) && m[errors[j].0] == errors[j].1
    &&& forall|i: int, j: int| 0 <= i < j < errors.len() ==> errors[i].0 != errors[j].0
}

/// Waits between rounds never shrink and never pass five minutes; below the cap each is twice
/// the one before.
pub proof fn lemma_round_delays(delay: u64)
    requires
        0 < delay <= MAX_ROUND_DELAY_MS,
    ensures
        delay <= next_delay(delay) <= MAX_ROUND_DELAY_MS,
        2 * delay <= MAX_ROUND_DELAY_MS ==> next_delay(delay) == 2 * delay,
{
}

} // verus!
