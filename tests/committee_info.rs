use quorum_core::aggregation::Arrival;
use quorum_core::authority_aggregator::AuthorityAggregator;
use quorum_core::committee::Committee;
use quorum_core::committee_info::CommitteeInfoResponse;
use quorum_core::messages::SuiError;

fn aggregator() -> AuthorityAggregator {
    AuthorityAggregator::new(Committee::new(5, vec![(1, 1), (2, 1), (3, 1), (4, 1)]).unwrap())
}

fn answer(epoch: u64, digest: u64) -> CommitteeInfoResponse {
    CommitteeInfoResponse { epoch, committee_info: Some(vec![(1, 10), (2, 20)]), digest }
}

fn arrival(authority: u64, result: Result<CommitteeInfoResponse, SuiError>) -> Arrival<CommitteeInfoResponse> {
    Arrival { authority, delay_ms: 1, result }
}

#[test]
fn committee_from_a_quorum_of_answers() {
    let agg = aggregator();
    let arrivals = vec![
        arrival(1, Ok(answer(6, 0xa))),
        arrival(2, Ok(answer(6, 0xb))),
        arrival(3, Ok(answer(6, 0xa))),
        arrival(4, Ok(answer(6, 0xa))),
    ];
    let info = agg.get_committee_info(arrivals).unwrap();
    assert_eq!(info.epoch, 6);
    assert_eq!(info.committee_info, vec![(1, 10), (2, 20)]);
}

#[test]
fn committee_request_aborts_on_bad_stake() {
    let agg = aggregator();
    let arrivals = vec![
        arrival(1, Err(SuiError::TimeoutError)),
        arrival(2, Ok(CommitteeInfoResponse { epoch: 6, committee_info: None, digest: 0 })),
        arrival(3, Err(SuiError::TimeoutError)),
        arrival(4, Ok(answer(6, 0xa))),
    ];
    match agg.get_committee_info(arrivals) {
        Err(SuiError::TooManyIncorrectAuthorities { errors, action }) => {
            assert_eq!(action, "get_committee_info");
            assert_eq!(errors.len(), 3);
            assert!(matches!(errors[1], (2, SuiError::EmptyCommitteeInfo)));
        }
        other => panic!("unexpected {:?}", other),
    }
}

#[test]
fn committee_request_without_quorum_fails() {
    let agg = aggregator();
    let arrivals = vec![
        arrival(1, Ok(answer(6, 0xa))),
        arrival(2, Ok(answer(6, 0xb))),
        arrival(3, Err(SuiError::TimeoutError)),
    ];
    match agg.get_committee_info(arrivals) {
        Err(SuiError::TooManyIncorrectAuthorities { errors, .. }) => assert_eq!(errors.len(), 1),
        other => panic!("unexpected {:?}", other),
    }
}
