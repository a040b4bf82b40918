use std::collections::BTreeMap;

use vstd::prelude::*;

use crate::aggregation::{
    authorities_distinct, fold_fails_with, fold_spec, quorum_map_then_reduce_with_timeout, Arrival, ReduceOutput,
    Reducer,
};
use crate::authority_aggregator::{add_stake, stake_inc, AuthorityAggregator};
use crate::committee::{quorum_of, sat_add, validity_of, AuthorityName, Committee, EpochId, StakeUnit};
use crate::messages::SuiError;

verus! {

/// The committee of an epoch, as authorities report it.
#[derive(Clone, Debug)]
pub struct CommitteeInfo {
    pub epoch: EpochId,
    pub committee_info: Vec<(AuthorityName, StakeUnit)>,
}

/// An authority's answer to a committee request; `digest` identifies its content.
#[derive(Clone, Debug)]
pub struct CommitteeInfoResponse {
    pub epoch: EpochId,
    pub committee_info: Option<Vec<(AuthorityName, StakeUnit)>>,
    pub digest: u64,
}

/// The state of a committee request, as plain values.
pub struct CommitteeRequestModel {
    pub bad_weight: StakeUnit,
    pub responses: Map<u64, StakeUnit>,
    pub errors: Seq<(AuthorityName, SuiError)>,
    pub committee_info: Option<(EpochId, Seq<(AuthorityName, StakeUnit)>)>,
}

/// What a committee request has gathered so far.
pub struct GetCommitteeRequestState {
    pub bad_weight: StakeUnit,
    /// Stake per distinct answer.
    pub responses: BTreeMap<u64, StakeUnit>,
    pub errors: Vec<(AuthorityName, SuiError)>,
    pub committee_info: Option<CommitteeInfo>,
}

pub open spec fn info_model(c: Option<CommitteeInfo>) -> Option<(EpochId, Seq<(AuthorityName, StakeUnit)>)> {
    match c {
        Some(c) => Some((c.epoch, c.committee_info@)),
        None => None,
    }
}

impl View for GetCommitteeRequestState {
    type V = CommitteeRequestModel;

    open spec fn view(&self) -> CommitteeRequestModel {
        CommitteeRequestModel {
            bad_weight: self.bad_weight,
            responses: self.responses@,
            errors: self.errors@,
            committee_info: info_model(self.committee_info),
        }
    }
}

pub open spec fn committee_request_initial() -> CommitteeRequestModel {
    CommitteeRequestModel { bad_weight: 0, responses: Map::empty(), errors: Seq::empty(), committee_info: None }
}

/// Whether `e` is the failure of a committee request with these errors.
pub open spec fn committee_failure(e: SuiError, errors: Seq<(AuthorityName, SuiError)>) -> bool {
    match e {
        SuiError::TooManyIncorrectAuthorities { errors: es, action } => es@ == errors && action@ == "get_committee_info"@,
        _ => false,
    }
}

impl GetCommitteeRequestState {
    pub fn new() -> (r: GetCommitteeRequestState)
        ensures
            r@ == committee_request_initial(),
    {
        GetCommitteeRequestState { bad_weight: 0, responses: BTreeMap::new(), errors: Vec::new(), committee_info: None }
    }

    /// The committee that a quorum of stake reported, else every error.
    pub fn into_committee_info(self) -> (r: Result<CommitteeInfo, SuiError>)
        ensures
            match r {
                Ok(c) => self@.committee_info == info_model(Some(c)),
                Err(e) => self@.committee_info is None && committee_failure(e, self@.errors),
            },
    {
        match self.committee_info {
            Some(c) => Ok(c),
            None => {
                proof {
                    reveal_strlit("get_committee_info");
                }
                Err(SuiError::TooManyIncorrectAuthorities { errors: self.errors, action: "get_committee_info".to_owned() })
            },
        }
    }
}

/// Folds committee answers until one answer holds a quorum of stake; fails as soon as more
/// than a validity threshold of stake has answered badly, since no quorum can form then.
pub struct CommitteeInfoReducer {
    pub quorum_threshold: StakeUnit,
    pub validity_threshold: StakeUnit,
}

impl CommitteeInfoReducer {
    /// The state after an answer that does not finish the request.
    pub open spec fn absorb_model(
        &self,
        st: CommitteeRequestModel,
        name: AuthorityName,
        weight: StakeUnit,
        result: Result<CommitteeInfoResponse, SuiError>,
    ) -> CommitteeRequestModel {
        match result {
            Ok(resp) => match resp.committee_info {
                Some(_) => CommitteeRequestModel { responses: stake_inc(st.responses, resp.digest, weight), ..st },
                None => CommitteeRequestModel {
                    bad_weight: sat_add(st.bad_weight, weight),
                    errors: st.errors.push((name, SuiError::EmptyCommitteeInfo)),
                    ..st
                },
            },
            Err(e) => CommitteeRequestModel {
                bad_weight: sat_add(st.bad_weight, weight),
                errors: st.errors.push((name, e)),
                ..st
            },
        }
    }

    /// Whether the answer brings its content to a quorum of stake.
    pub open spec fn reaches_quorum(
        &self,
        st: CommitteeRequestModel,
        weight: StakeUnit,
        result: Result<CommitteeInfoResponse, SuiError>,
    ) -> bool {
        match result {
            Ok(resp) => resp.committee_info is Some && stake_inc(st.responses, resp.digest, weight)[resp.digest]
                >= self.quorum_threshold,
            Err(_) => false,
        }
    }
}

impl Reducer<GetCommitteeRequestState, CommitteeInfoResponse> for CommitteeInfoReducer {
    open spec fn reduce_spec(
        &self,
        st: CommitteeRequestModel,
        name: AuthorityName,
        weight: StakeUnit,
        result: Result<CommitteeInfoResponse, SuiError>,
    ) -> Option<ReduceOutput<CommitteeRequestModel>> {
        let st1 = self.absorb_model(st, name, weight, result);
        if self.reaches_quorum(st, weight, result) {
            Some(
                ReduceOutput::End(
                    CommitteeRequestModel {
                        committee_info: Some((result.unwrap().epoch, result.unwrap().committee_info.unwrap()@)),
                        ..st1
                    },
                ),
            )
        } else if st1.bad_weight > self.validity_threshold {
            None
        } else {
            Some(ReduceOutput::Continue(st1))
        }
    }

    open spec fn fails_with(
        &self,
        st: CommitteeRequestModel,
        name: AuthorityName,
        weight: StakeUnit,
        result: Result<CommitteeInfoResponse, SuiError>,
        err: SuiError,
    ) -> bool {
        committee_failure(err, self.absorb_model(st, name, weight, result).errors)
    }

    open spec fn state_inv(&self, state: GetCommitteeRequestState) -> bool {
        true
    }

    fn reduce(
        &self,
        state: GetCommitteeRequestState,
        name: AuthorityName,
        weight: StakeUnit,
        result: Result<CommitteeInfoResponse, SuiError>,
    ) -> (r: Result<ReduceOutput<GetCommitteeRequestState>, SuiError>) {
        let mut state = state;
        match result {
            Ok(resp) => {
                let CommitteeInfoResponse { epoch, committee_info, digest } = resp;
                match committee_info {
                    Some(info) => {
                        let stake = add_stake(&mut state.responses, digest, weight);
                        if stake >= self.quorum_threshold {
                            state.committee_info = Some(CommitteeInfo { epoch, committee_info: info });
                            return Ok(ReduceOutput::End(state));
                        }
                    },
                    None => {
                        state.bad_weight = state.bad_weight.saturating_add(weight);
                        state.errors.push((name, SuiError::EmptyCommitteeInfo));
                    },
                }
            },
            Err(err) => {
                state.bad_weight = state.bad_weight.saturating_add(weight);
                state.errors.push((name, err));
            },
        }
        if state.bad_weight > self.validity_threshold {
            proof {
                reveal_strlit("get_committee_info");
            }
            return Err(SuiError::TooManyIncorrectAuthorities { errors: state.errors, action: "get_committee_info".to_owned() });
        }
        Ok(ReduceOutput::Continue(state))
    }
}

impl AuthorityAggregator {
    pub open spec fn committee_info_reducer(&self) -> CommitteeInfoReducer {
        CommitteeInfoReducer {
            quorum_threshold: quorum_of(self.committee.total() as int) as u64,
            validity_threshold: validity_of(self.committee.total() as int) as u64,
        }
    }

    /// The reducer that learns the committee from a quorum of answers.
    pub fn committee_reducer(&self) -> (r: CommitteeInfoReducer)
        ensures
            r == self.committee_info_reducer(),
    {
        CommitteeInfoReducer {
            quorum_threshold: self.committee.quorum_threshold(),
            validity_threshold: self.committee.validity_threshold(),
        }
    }

    /// Learns the committee of an epoch from the authorities' answers, taken in the order they
    /// arrived: the first answer that a quorum of stake gives, or every error once that can no
    /// longer happen or the answers stop.
    pub fn get_committee_info(&self, arrivals: Vec<Arrival<CommitteeInfoResponse>>) -> (r: Result<CommitteeInfo, SuiError>)
        requires
            self.committee.wf(),
            authorities_distinct(arrivals@),
        ensures
            match fold_spec(self.committee, self.committee_info_reducer(), committee_request_initial(), self.timeouts.pre_quorum_timeout, arrivals@) {
                Some(m) => match r {
                    Ok(c) => m.committee_info == info_model(Some(c)),
                    Err(e) => m.committee_info is None && committee_failure(e, m.errors),
                },
                None => r matches Err(e) && fold_fails_with(
                    self.committee,
                    self.committee_info_reducer(),
                    committee_request_initial(),
                    self.timeouts.pre_quorum_timeout,
                    arrivals@,
                    e,
                ),
            },
    {
        let reducer = self.committee_reducer();
        let state = quorum_map_then_reduce_with_timeout(&self.committee, &reducer, GetCommitteeRequestState::new(), arrivals, self.timeouts.pre_quorum_timeout)?;
        state.into_committee_info()
    }
}

} // verus!
