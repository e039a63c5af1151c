use treasury_governance::governance::TreasuryGovernance;
use treasury_governance::params::{
    ExecutionDelay, GovernanceParameters, ProposalType, QuorumThreshold, VotingPeriod,
};
use treasury_governance::types::{ActorId, Error, ProposalStatus, VotingOptions};

const ALICE: ActorId = ActorId([1u8; 20]);
const NOW: u32 = 0;

fn default_params() -> GovernanceParameters {
    GovernanceParameters {
        voting_period: VotingPeriod::SevenDays,
        quorum_threshold: QuorumThreshold::Ten,
        execution_delay: ExecutionDelay::OneDay,
    }
}

fn yes_no() -> VotingOptions {
    VotingOptions { options: vec![String::from("Yes"), String::from("No")] }
}

#[test]
fn test_constructor() {
    let contract = TreasuryGovernance::new(ALICE);
    assert_eq!(contract.next_proposal_id, 1);
    assert_eq!(contract.total_voters, 0);
    assert_eq!(contract.proposal_ids.len(), 0);
}

#[test]
fn test_voter_registration() {
    let mut contract = TreasuryGovernance::new(ALICE);
    assert!(contract.register_voter(ALICE).is_ok());
    assert_eq!(contract.get_total_voters(), 1);
    assert!(contract.register_voter(ALICE).is_ok());
    assert_eq!(contract.get_total_voters(), 1);
}

#[test]
fn test_create_proposal_success() {
    let mut contract = TreasuryGovernance::new(ALICE);
    let result = contract.create_proposal(
        String::from("Test Proposal"),
        String::from("A test proposal for governance"),
        ProposalType::Treasury,
        default_params(),
        yes_no(),
        ALICE,
        NOW,
    );
    assert!(result.is_ok());
    let proposal_id = result.unwrap();
    assert_eq!(proposal_id, 1);
    assert_eq!(contract.next_proposal_id, 2);
    assert_eq!(contract.proposal_ids.len(), 1);
    let proposal = contract.get_proposal(proposal_id).unwrap();
    assert_eq!(proposal.title, "Test Proposal");
    assert_eq!(proposal.status, ProposalStatus::Active);
    assert_eq!(proposal.vote_counts.len(), 2);
}

#[test]
fn test_voting_success() {
    let mut contract = TreasuryGovernance::new(ALICE);
    contract.register_voter(ALICE).unwrap();
    let proposal_id = contract
        .create_proposal(
            String::from("Test Proposal"),
            String::from("A test proposal"),
            ProposalType::Treasury,
            default_params(),
            yes_no(),
            ALICE,
            NOW,
        )
        .unwrap();
    let result = contract.vote(proposal_id, 0, ALICE, NOW);
    assert!(result.is_ok());
    let proposal = contract.get_proposal(proposal_id).unwrap();
    assert_eq!(proposal.vote_counts[0], 1);
    assert_eq!(proposal.vote_counts[1], 0);
    assert_eq!(proposal.total_voters, 1);
}

#[test]
fn test_create_proposal_no_voting_options() {
    let mut contract = TreasuryGovernance::new(ALICE);
    let result = contract.create_proposal(
        String::from("Test Proposal"),
        String::from("A test proposal"),
        ProposalType::Treasury,
        default_params(),
        VotingOptions { options: vec![] },
        ALICE,
        NOW,
    );
    assert!(result.is_err());
    assert_eq!(result.unwrap_err(), Error::NoVotingOptions);
}

#[test]
fn test_create_proposal_too_many_options() {
    let mut contract = TreasuryGovernance::new(ALICE);
    let mut options = Vec::new();
    for i in 0..11 {
        options.push(format!("Option {}", i));
    }
    let result = contract.create_proposal(
        String::from("Test Proposal"),
        String::from("A test proposal"),
        ProposalType::Treasury,
        default_params(),
        VotingOptions { options },
        ALICE,
        NOW,
    );
    assert!(result.is_err());
    assert_eq!(result.unwrap_err(), Error::TooManyVotingOptions);
}

#[test]
fn test_vote_unregistered_voter() {
    let mut contract = TreasuryGovernance::new(ALICE);
    let proposal_id = contract
        .create_proposal(
            String::from("Test Proposal"),
            String::from("A test proposal"),
            ProposalType::Treasury,
            default_params(),
            yes_no(),
            ALICE,
            NOW,
        )
        .unwrap();
    let result = contract.vote(proposal_id, 0, ALICE, NOW);
    assert!(result.is_err());
    assert_eq!(result.unwrap_err(), Error::NotRegisteredVoter);
}

#[test]
fn test_vote_nonexistent_proposal() {
    let mut contract = TreasuryGovernance::new(ALICE);
    contract.register_voter(ALICE).unwrap();
    let result = contract.vote(999, 0, ALICE, NOW);
    assert!(result.is_err());
    assert_eq!(result.unwrap_err(), Error::ProposalNotFound);
}

#[test]
fn test_vote_invalid_option_index() {
    let mut contract = TreasuryGovernance::new(ALICE);
    contract.register_voter(ALICE).unwrap();
    let proposal_id = contract
        .create_proposal(
            String::from("Test Proposal"),
            String::from("A test proposal"),
            ProposalType::Treasury,
            default_params(),
            yes_no(),
            ALICE,
            NOW,
        )
        .unwrap();
    let result = contract.vote(proposal_id, 2, ALICE, NOW);
    assert!(result.is_err());
    assert_eq!(result.unwrap_err(), Error::InvalidOptionIndex);
}

#[test]
fn test_double_voting_same_voter() {
    let mut contract = TreasuryGovernance::new(ALICE);
    contract.register_voter(ALICE).unwrap();
    let proposal_id = contract
        .create_proposal(
            String::from("Test Proposal"),
            String::from("A test proposal"),
            ProposalType::Treasury,
            default_params(),
            yes_no(),
            ALICE,
            NOW,
        )
        .unwrap();
    let result = contract.vote(proposal_id, 0, ALICE, NOW);
    assert!(result.is_ok());
    let result = contract.vote(proposal_id, 1, ALICE, NOW);
    assert!(result.is_err());
    assert_eq!(result.unwrap_err(), Error::AlreadyVoted);
}

#[test]
fn test_get_proposal_details() {
    let mut contract = TreasuryGovernance::new(ALICE);
    let governance_params = GovernanceParameters {
        voting_period: VotingPeriod::ThirtyDays,
        quorum_threshold: QuorumThreshold::TwentyFive,
        execution_delay: ExecutionDelay::SevenDays,
    };
    let voting_options = VotingOptions {
        options: vec![String::from("Approve"), String::from("Reject"), String::from("Abstain")],
    };
    let proposal_id = contract
        .create_proposal(
            String::from("Treasury Funding"),
            String::from("Fund development project"),
            ProposalType::Treasury,
            governance_params.clone(),
            voting_options.clone(),
            ALICE,
            NOW,
        )
        .unwrap();
    let proposal = contract.get_proposal(proposal_id).unwrap();
    assert_eq!(proposal.title, "Treasury Funding");
    assert_eq!(proposal.description, "Fund development project");
    assert_eq!(proposal.proposal_type, ProposalType::Treasury);
    assert_eq!(proposal.governance_params.voting_period, VotingPeriod::ThirtyDays);
    assert_eq!(proposal.governance_params.quorum_threshold, QuorumThreshold::TwentyFive);
    assert_eq!(proposal.governance_params.execution_delay, ExecutionDelay::SevenDays);
    assert_eq!(proposal.voting_options.options.len(), 3);
    assert_eq!(proposal.status, ProposalStatus::Active);
}

#[test]
fn test_get_nonexistent_proposal() {
    let contract = TreasuryGovernance::new(ALICE);
    let result = contract.get_proposal(999);
    assert!(result.is_none());
}

#[test]
fn test_multiple_proposal_types() {
    let mut contract = TreasuryGovernance::new(ALICE);
    let governance_params = default_params();
    let voting_options = yes_no();
    let treasury_id = contract
        .create_proposal(
            String::from("Treasury Proposal"),
            String::from("Treasury funding"),
            ProposalType::Treasury,
            governance_params.clone(),
            voting_options.clone(),
            ALICE,
            NOW,
        )
        .unwrap();
    let governance_id = contract
        .create_proposal(
            String::from("Governance Proposal"),
            String::from("Change governance rules"),
            ProposalType::Governance,
            governance_params.clone(),
            voting_options.clone(),
            ALICE,
            NOW,
        )
        .unwrap();
    let technical_id = contract
        .create_proposal(
            String::from("Technical Proposal"),
            String::from("Technical upgrade"),
            ProposalType::Technical,
            governance_params.clone(),
            voting_options.clone(),
            ALICE,
            NOW,
        )
        .unwrap();
    let other_id = contract
        .create_proposal(
            String::from("Other Proposal"),
            String::from("Other type"),
            ProposalType::Other,
            governance_params,
            voting_options,
            ALICE,
            NOW,
        )
        .unwrap();
    assert_eq!(contract.get_proposal(treasury_id).unwrap().proposal_type, ProposalType::Treasury);
    assert_eq!(
        contract.get_proposal(governance_id).unwrap().proposal_type,
        ProposalType::Governance
    );
    assert_eq!(
        contract.get_proposal(technical_id).unwrap().proposal_type,
        ProposalType::Technical
    );
    assert_eq!(contract.get_proposal(other_id).unwrap().proposal_type, ProposalType::Other);
    assert_eq!(contract.proposal_ids.len(), 4);
}

#[test]
fn test_get_all_proposal_ids() {
    let mut contract = TreasuryGovernance::new(ALICE);
    assert_eq!(contract.get_all_proposal_ids().len(), 0);
    for i in 1..=3 {
        contract
            .create_proposal(
                format!("Proposal {}", i),
                format!("Description {}", i),
                ProposalType::Treasury,
                default_params(),
                yes_no(),
                ALICE,
                NOW,
            )
            .unwrap();
    }
    let proposal_ids = contract.get_all_proposal_ids();
    assert_eq!(proposal_ids.len(), 3);
    assert_eq!(proposal_ids, vec![1, 2, 3]);
}

#[test]
fn test_contract_stats() {
    let mut contract = TreasuryGovernance::new(ALICE);
    let stats = contract.get_stats();
    assert_eq!(stats.total_proposals, 0);
    assert_eq!(stats.total_voters, 0);
    assert_eq!(stats.active_proposals, 0);
    assert_eq!(stats.executed_proposals, 0);
    contract.register_voter(ALICE).unwrap();
    contract
        .create_proposal(
            String::from("Proposal 1"),
            String::from("Description 1"),
            ProposalType::Treasury,
            default_params(),
            yes_no(),
            ALICE,
            NOW,
        )
        .unwrap();
    contract
        .create_proposal(
            String::from("Proposal 2"),
            String::from("Description 2"),
            ProposalType::Governance,
            default_params(),
            yes_no(),
            ALICE,
            NOW,
        )
        .unwrap();
    let stats = contract.get_stats();
    assert_eq!(stats.total_proposals, 2);
    assert_eq!(stats.total_voters, 1);
    assert_eq!(stats.active_proposals, 2);
    assert_eq!(stats.executed_proposals, 0);
}

#[test]
fn test_multi_option_voting() {
    let mut contract = TreasuryGovernance::new(ALICE);
    contract.register_voter(ALICE).unwrap();
    let voting_options = VotingOptions {
        options: vec![
            String::from("Option A"),
            String::from("Option B"),
            String::from("Option C"),
            String::from("Option D"),
        ],
    };
    let proposal_id = contract
        .create_proposal(
            String::from("Multi-Option Proposal"),
            String::from("Choose from multiple options"),
            ProposalType::Governance,
            default_params(),
            voting_options,
            ALICE,
            NOW,
        )
        .unwrap();
    let result = contract.vote(proposal_id, 2, ALICE, NOW);
    assert!(result.is_ok());
    let proposal = contract.get_proposal(proposal_id).unwrap();
    assert_eq!(proposal.vote_counts[0], 0);
    assert_eq!(proposal.vote_counts[1], 0);
    assert_eq!(proposal.vote_counts[2], 1);
    assert_eq!(proposal.vote_counts[3], 0);
    assert_eq!(proposal.total_voters, 1);
}

#[test]
fn test_different_governance_parameters() {
    let mut contract = TreasuryGovernance::new(ALICE);
    let short_params = GovernanceParameters {
        voting_period: VotingPeriod::ThreeDays,
        quorum_threshold: QuorumThreshold::Five,
        execution_delay: ExecutionDelay::Immediately,
    };
    let long_params = GovernanceParameters {
        voting_period: VotingPeriod::ThirtyDays,
        quorum_threshold: QuorumThreshold::TwentyFive,
        execution_delay: ExecutionDelay::SevenDays,
    };
    let voting_options = yes_no();
    let short_proposal = contract
        .create_proposal(
            String::from("Short Proposal"),
            String::from("Quick decision"),
            ProposalType::Technical,
            short_params,
            voting_options.clone(),
            ALICE,
            NOW,
        )
        .unwrap();
    let long_proposal = contract
        .create_proposal(
            String::from("Long Proposal"),
            String::from("Important decision"),
            ProposalType::Treasury,
            long_params,
            voting_options,
            ALICE,
            NOW,
        )
        .unwrap();
    let short_prop = contract.get_proposal(short_proposal).unwrap();
    assert_eq!(short_prop.governance_params.voting_period, VotingPeriod::ThreeDays);
    assert_eq!(short_prop.governance_params.quorum_threshold, QuorumThreshold::Five);
    assert_eq!(short_prop.governance_params.execution_delay, ExecutionDelay::Immediately);
    let long_prop = contract.get_proposal(long_proposal).unwrap();
    assert_eq!(long_prop.governance_params.voting_period, VotingPeriod::ThirtyDays);
    assert_eq!(long_prop.governance_params.quorum_threshold, QuorumThreshold::TwentyFive);
    assert_eq!(long_prop.governance_params.execution_delay, ExecutionDelay::SevenDays);
}
