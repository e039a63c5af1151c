//! Records of the ledger: actors, proposals, votes, and query results.

use vstd::prelude::*;

use crate::params::{GovernanceParameters, ProposalType};
use crate::tally::sum_counts;

verus! {

/// Most options a proposal may offer.
pub const MAX_VOTING_OPTIONS: usize = 10;

/// A 20-byte account address identifying a caller.
#[derive(Debug, Clone, Copy, PartialEq, Eq, Hash)]
pub struct ActorId(pub [u8; 20]);

impl ActorId {
    /// Whether two addresses are the same, byte for byte.
    pub fn same_as(&self, other: &ActorId) -> (r: bool)
        ensures
            r == (*self == *other),
    {
        let mut k: usize = 0;
        while k < 20
            invariant
                0 <= k <= 20,
                forall|j: int| 0 <= j < k ==> self.0@[j] == #[trigger] other.0@[j],
            decreases 20 - k,
        {
            if self.0[k] != other.0[k] {
                return false;
            }
            k = k + 1;
        }
        assert(self.0 =~= other.0);
        true
    }
}

/// The ordered display strings a proposal offers to vote on.
#[derive(Debug, Clone, PartialEq, Eq)]
pub struct VotingOptions {
    pub options: Vec<String>,
}

/// The option a vote was cast for, with its display text.
#[derive(Debug, Clone, PartialEq, Eq)]
pub struct VoteChoice {
    pub option_index: u32,
    pub option_text: String,
}

/// Lifecycle of a proposal: `Active` moves once to `Passed` or `Rejected`, and
/// `Passed` moves to `Executed`. No operation moves a proposal to `Expired`.
#[derive(Debug, Clone, Copy, PartialEq, Eq, Structural)]
pub enum ProposalStatus {
    Active,
    Passed,
    Rejected,
    Executed,
    Expired,
}

/// A stored proposal.
#[derive(Debug, Clone, PartialEq, Eq)]
pub struct Proposal {
    pub id: u32,
    pub title: String,
    pub description: String,
    pub proposal_type: ProposalType,
    pub governance_params: GovernanceParameters,
    pub voting_options: VotingOptions,
    pub proposer: ActorId,
    pub created_at: u32,
    pub voting_end: u32,
    pub execution_time: u32,
    pub status: ProposalStatus,
    pub vote_counts: Vec<u128>,
    pub total_voters: u32,
}

/// A proposal as a mathematical value.
#[verifier::ext_equal]
pub ghost struct ProposalView {
    pub id: u32,
    pub title: String,
    pub description: String,
    pub proposal_type: ProposalType,
    pub governance_params: GovernanceParameters,
    pub options: Seq<String>,
    pub proposer: ActorId,
    pub created_at: u32,
    pub voting_end: u32,
    pub execution_time: u32,
    pub status: ProposalStatus,
    pub vote_counts: Seq<u128>,
    pub total_voters: u32,
}

impl View for Proposal {
    type V = ProposalView;

    open spec fn view(&self) -> ProposalView {
        ProposalView {
            id: self.id,
            title: self.title,
            description: self.description,
            proposal_type: self.proposal_type,
            governance_params: self.governance_params,
            options: self.voting_options.options@,
            proposer: self.proposer,
            created_at: self.created_at,
            voting_end: self.voting_end,
            execution_time: self.execution_time,
            status: self.status,
            vote_counts: self.vote_counts@,
            total_voters: self.total_voters,
        }
    }
}

impl ProposalView {
    /// One counter per option, between one and ten options, the votes counted
    /// equal to the voters, and the deadlines derived from the parameters.
    pub open spec fn wf(self) -> bool {
        &&& 1 <= self.options.len() <= MAX_VOTING_OPTIONS
        &&& self.vote_counts.len() == self.options.len()
        &&& sum_counts(self.vote_counts) == self.total_voters
        &&& self.voting_end == self.created_at
            + self.governance_params.voting_period.spec_blocks()
        &&& self.execution_time == self.voting_end
            + self.governance_params.execution_delay.spec_blocks()
    }
}

/// A recorded vote. Its weight is always one.
#[derive(Debug, Clone, PartialEq, Eq)]
pub struct Vote {
    pub voter: ActorId,
    pub choice: VoteChoice,
    pub timestamp: u32,
    pub weight: u128,
}

/// Counts over all proposals and voters.
#[derive(Debug, Clone, Copy, PartialEq, Eq, Structural)]
pub struct ContractStats {
    pub total_proposals: u32,
    pub active_proposals: u32,
    pub executed_proposals: u32,
    pub total_voters: u32,
}

/// Tally of one proposal with its option names.
#[derive(Debug, Clone, PartialEq, Eq)]
pub struct ProposalResults {
    pub proposal_id: u32,
    pub vote_counts: Vec<u128>,
    pub option_names: Vec<String>,
    pub total_votes: u128,
    pub quorum_reached: bool,
    pub winning_option: Option<(u32, String, u128)>,
}

/// Why an operation was refused. A refused operation changes nothing.
#[derive(Debug, Clone, Copy, PartialEq, Eq, Structural)]
pub enum Error {
    ProposalNotFound,
    ProposalNotActive,
    VotingPeriodEnded,
    AlreadyVoted,
    NotAuthorized,
    ProposalNotReadyForExecution,
    InvalidProposal,
    InvalidOptionIndex,
    NoVotingOptions,
    TooManyVotingOptions,
    ArithmeticOverflow,
    NotRegisteredVoter,
}

/// A copy of a sequence of strings.
pub fn copy_strings(v: &Vec<String>) -> (r: Vec<String>)
    ensures
        r@ == v@,
{
    let mut r: Vec<String> = Vec::new();
    let mut k: usize = 0;
    while k < v.len()
        invariant
            0 <= k <= v.len(),
            r@ == v@.take(k as int),
        decreases v.len() - k,
    {
        r.push(v[k].clone());
        k = k + 1;
        assert(r@ =~= v@.take(k as int));
    }
    assert(v@.take(k as int) =~= v@);
    r
}

/// A copy of a sequence of counts.
pub fn copy_counts(v: &Vec<u128>) -> (r: Vec<u128>)
    ensures
        r@ == v@,
{
    let mut r: Vec<u128> = Vec::new();
    let mut k: usize = 0;
    while k < v.len()
        invariant
            0 <= k <= v.len(),
            r@ == v@.take(k as int),
        decreases v.len() - k,
    {
        r.push(v[k]);
        k = k + 1;
        assert(r@ =~= v@.take(k as int));
    }
    assert(v@.take(k as int) =~= v@);
    r
}

impl VoteChoice {
    /// A copy of this choice.
    pub fn duplicate(&self) -> (r: VoteChoice)
        ensures
            r == *self,
    {
        VoteChoice { option_index: self.option_index, option_text: self.option_text.clone() }
    }
}

impl Vote {
    /// A copy of this vote.
    pub fn duplicate(&self) -> (r: Vote)
        ensures
            r == *self,
    {
        Vote {
            voter: self.voter,
            choice: self.choice.duplicate(),
            timestamp: self.timestamp,
            weight: self.weight,
        }
    }
}

impl Proposal {
    /// A copy of this proposal.
    pub fn duplicate(&self) -> (r: Proposal)
        ensures
            r@ == self@,
    {
        Proposal {
            id: self.id,
            title: self.title.clone(),
            description: self.description.clone(),
            proposal_type: self.proposal_type,
            governance_params: self.governance_params,
            voting_options: VotingOptions { options: copy_strings(&self.voting_options.options) },
            proposer: self.proposer,
            created_at: self.created_at,
            voting_end: self.voting_end,
            execution_time: self.execution_time,
            status: self.status,
            vote_counts: copy_counts(&self.vote_counts),
            total_voters: self.total_voters,
        }
    }
}

} // verus!
