use evm_governance::gateway::send_outcome;
use evm_governance::governance::{execution_summary, yes_percentage_of, GovernanceError, ProposalStore};
use evm_governance::interface::{
    EthSepoliaService, MultiSendRawTransactionResult, RpcService, SendRawTransactionResult,
    SendRawTransactionStatus,
};
use evm_governance::natural::BigNat;

const SECOND: u64 = 1_000_000_000;

fn submit(store: &mut ProposalStore, now: u64, duration_seconds: u64) -> u64 {
    store.submit_proposal(
        "Title".to_string(),
        "Description".to_string(),
        "Kind".to_string(),
        "caller".to_string(),
        "0xabc".to_string(),
        now,
        duration_seconds,
        "0x10".to_string(),
    )
}

#[test]
fn submit_assigns_sequential_ids_and_open_state() {
    let mut store = ProposalStore::new();
    assert_eq!(submit(&mut store, 1000, 60), 1);
    assert_eq!(submit(&mut store, 2000, 60), 2);
    let ps = store.get_proposals();
    assert_eq!(ps.len(), 2);
    assert_eq!(ps[0].id, 1);
    assert_eq!(ps[1].id, 2);
    assert!(ps[0].is_open && !ps[0].is_executed);
    assert_eq!(ps[0].proposal_start_timestamp, 1000);
    assert_eq!(ps[0].proposal_end_timestamp, 1000 + 60 * SECOND);
    assert_eq!(ps[0].block_height, "0x10");
    assert!(ps[0].yes_votes.is_zero() && ps[0].no_votes.is_zero());
    assert_eq!(ps[0].eth_transaction_hash, None);
}

#[test]
fn zero_duration_proposal_refuses_votes() {
    let mut store = ProposalStore::new();
    let id = submit(&mut store, 5000, 0);
    assert_eq!(store.check_vote_open(id, 5001), Err(GovernanceError::Closed));
}

#[test]
fn yes_vote_with_balance_100_is_tallied() {
    let mut store = ProposalStore::new();
    let id = submit(&mut store, 5000, 3600);
    let now = 5000 + 10 * SECOND;
    assert_eq!(store.check_vote_open(id, now), Ok("0x10".to_string()));
    let voter = "0x00000000000000000000000000000000000000aa".to_string();
    assert_eq!(store.record_vote(id, voter.clone(), true), Ok(()));
    assert!(store.add_vote_weight(id, &voter, BigNat::from_u128(100)));
    let ps = store.get_proposals();
    assert_eq!(ps[0].yes_votes.to_decimal(), "100");
    assert_eq!(ps[0].no_votes.to_decimal(), "0");
}

#[test]
fn second_vote_from_same_address_is_refused() {
    let mut store = ProposalStore::new();
    let id = submit(&mut store, 0, 3600);
    let voter = "0xA".to_string();
    assert_eq!(store.record_vote(id, voter.clone(), true), Ok(()));
    assert_eq!(store.record_vote(id, voter.clone(), false), Err(GovernanceError::AlreadyVoted));
    assert!(store.add_vote_weight(id, &voter, BigNat::from_u128(7)));
    assert_eq!(store.record_vote(id, voter.clone(), true), Err(GovernanceError::AlreadyVoted));
    // the weight is counted once only
    assert!(!store.add_vote_weight(id, &voter, BigNat::from_u128(7)));
    assert_eq!(store.get_proposals()[0].yes_votes.to_decimal(), "7");
    assert!(store.has_voted(id, &voter));
    assert!(!store.has_voted(id, &"0xB".to_string()));
}

#[test]
fn tallies_sum_the_counted_votes() {
    let mut store = ProposalStore::new();
    let id = submit(&mut store, 0, 3600);
    for (voter, vote, weight) in [("a", true, 30u128), ("b", false, 20), ("c", true, 5)] {
        assert_eq!(store.record_vote(id, voter.to_string(), vote), Ok(()));
        assert!(store.add_vote_weight(id, &voter.to_string(), BigNat::from_u128(weight)));
    }
    let ps = store.get_proposals();
    assert_eq!(ps[0].yes_votes.to_decimal(), "35");
    assert_eq!(ps[0].no_votes.to_decimal(), "20");
}

#[test]
fn votes_on_missing_proposals_are_refused() {
    let mut store = ProposalStore::new();
    assert_eq!(store.check_vote_open(9, 0), Err(GovernanceError::NotFound));
    assert_eq!(store.record_vote(9, "a".to_string(), true), Err(GovernanceError::NotFound));
}

#[test]
fn expired_open_proposal_refuses_votes_before_sweep() {
    let mut store = ProposalStore::new();
    let id = submit(&mut store, 0, 1);
    assert!(store.get_proposals()[0].is_open);
    assert_eq!(store.check_vote_open(id, SECOND), Ok("0x10".to_string()));
    assert_eq!(store.check_vote_open(id, SECOND + 1), Err(GovernanceError::Closed));
}

#[test]
fn execute_with_zero_weight_reports_zero_percent() {
    let mut store = ProposalStore::new();
    let id = submit(&mut store, 0, 0);
    let summary = store.claim_execution(id, "aaaaa-aa").unwrap();
    assert_eq!(summary, "aaaaa-aa: Proposal 1: 0% yes");
    let ps = store.get_proposals();
    assert!(ps[0].is_executed);
    assert!(!ps[0].is_open);
}

#[test]
fn second_execution_is_refused() {
    let mut store = ProposalStore::new();
    let id = submit(&mut store, 0, 60);
    assert!(store.claim_execution(id, "c").is_ok());
    assert_eq!(store.claim_execution(id, "c"), Err(GovernanceError::AlreadyExecuted));
    assert_eq!(store.claim_execution(42, "c"), Err(GovernanceError::NotFound));
}

#[test]
fn execution_summary_rounds_percentage_down() {
    let yes = BigNat::from_u128(2);
    let no = BigNat::from_u128(1);
    assert_eq!(yes_percentage_of(&yes, &no).to_decimal(), "66");
    assert_eq!(execution_summary("x", 12, &yes, &no), "x: Proposal 12: 66% yes");
    assert_eq!(yes_percentage_of(&BigNat::zero(), &BigNat::zero()).to_decimal(), "0");
}

#[test]
fn inconsistent_broadcast_records_no_transaction() {
    let mut store = ProposalStore::new();
    let id = submit(&mut store, 0, 60);
    assert!(store.claim_execution(id, "c").is_ok());
    let outcome = MultiSendRawTransactionResult::Inconsistent(vec![
        (
            RpcService::EthSepolia(EthSepoliaService::Ankr),
            SendRawTransactionResult::Status(SendRawTransactionStatus::Accepted(None)),
        ),
        (
            RpcService::EthSepolia(EthSepoliaService::BlockPi),
            SendRawTransactionResult::Status(SendRawTransactionStatus::NonceTooLow),
        ),
    ]);
    let result = send_outcome("0x02ab", &outcome);
    let message = result.unwrap_err();
    assert!(message.starts_with("call: 0x02ab, error: Inconsistent"));
    let ps = store.get_proposals();
    assert!(ps[0].is_executed);
    assert_eq!(ps[0].eth_transaction_hash, None);
}

#[test]
fn transaction_hash_is_recorded() {
    let mut store = ProposalStore::new();
    let id = submit(&mut store, 0, 60);
    // not executed yet: refused
    assert!(!store.record_transaction_hash(id, "0xfeed".to_string()));
    assert_eq!(store.get_proposals()[0].eth_transaction_hash, None);
    assert!(store.claim_execution(id, "c").is_ok());
    assert!(store.record_transaction_hash(id, "0xfeed".to_string()));
    assert!(!store.record_transaction_hash(7, "0xfeed".to_string()));
    // set once only
    assert!(!store.record_transaction_hash(id, "0xbeef".to_string()));
    assert_eq!(store.get_proposals()[0].eth_transaction_hash, Some("0xfeed".to_string()));
}

#[test]
fn sweep_closes_expired_open_proposals() {
    let mut store = ProposalStore::new();
    submit(&mut store, 0, 1);
    submit(&mut store, 0, 100);
    submit(&mut store, 0, 2);
    let ids = store.close_expired_proposals(3 * SECOND);
    assert_eq!(ids, vec![1, 3]);
    let ps = store.get_proposals();
    assert!(!ps[0].is_open && ps[1].is_open && !ps[2].is_open);
    assert!(!ps[0].is_executed);
    assert_eq!(store.close_expired_proposals(3 * SECOND), Vec::<u64>::new());
}

#[test]
fn clear_closed_removes_non_open_proposals() {
    let mut store = ProposalStore::new();
    submit(&mut store, 0, 1);
    submit(&mut store, 0, 100);
    submit(&mut store, 0, 2);
    store.close_expired_proposals(3 * SECOND);
    assert_eq!(store.clear_closed_proposals(), 2);
    let ps = store.get_proposals();
    assert_eq!(ps.len(), 1);
    assert_eq!(ps[0].id, 2);
    // ids are not handed out again
    assert_eq!(submit(&mut store, 0, 1), 4);
}

#[test]
fn clear_by_id_reports_outcome() {
    let mut store = ProposalStore::new();
    submit(&mut store, 0, 1);
    submit(&mut store, 0, 1);
    assert_eq!(
        store.clear_proposal_by_id(1),
        Ok("Proposal 1 has been successfully cleared.".to_string())
    );
    assert_eq!(
        store.clear_proposal_by_id(1),
        Err("No proposal found with ID 1 or it was not cleared.".to_string())
    );
    assert_eq!(store.get_proposals().len(), 1);
}

#[test]
fn error_texts() {
    assert_eq!(GovernanceError::NotFound.vote_message(), "Proposal not found");
    assert_eq!(GovernanceError::Closed.vote_message(), "Proposal is already closed");
    assert_eq!(
        GovernanceError::AlreadyVoted.vote_message(),
        "You have already voted on this proposal"
    );
    assert_eq!(GovernanceError::NotFound.execute_message(3), "Proposal 3 not found.");
    assert_eq!(GovernanceError::AlreadyExecuted.execute_message(3), "Proposal 3 already executed");
}
