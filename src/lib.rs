//! A governance ledger: registered voters, proposals with a fixed set of
//! options, single-choice voting inside a block window, quorum and winner
//! determination, and time-locked execution.

pub mod params;
pub mod tally;
pub mod types;
pub mod governance;
pub mod laws;

pub use governance::TreasuryGovernance;
pub use params::{ExecutionDelay, GovernanceParameters, ProposalType, QuorumThreshold, VotingPeriod};
pub use types::{
    ActorId, ContractStats, Error, Proposal, ProposalResults, ProposalStatus, Vote, VoteChoice,
    VotingOptions,
};
