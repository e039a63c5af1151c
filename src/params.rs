//! Governance parameters fixed when a proposal is created.

use vstd::prelude::*;

verus! {

/// Blocks produced per minute on the host chain.
pub const BLOCKS_PER_MINUTE: u32 = 10;

/// Blocks in one day.
pub const BLOCKS_PER_DAY: u32 = 14400;

/// What a proposal is about; informational only.
#[derive(Debug, Clone, Copy, PartialEq, Eq, Structural)]
pub enum ProposalType {
    Treasury,
    Governance,
    Technical,
    Other,
}

/// How long a proposal accepts votes.
#[derive(Debug, Clone, Copy, PartialEq, Eq, Structural)]
pub enum VotingPeriod {
    ThreeDays,
    SevenDays,
    FourteenDays,
    ThirtyDays,
}

impl VotingPeriod {
    /// Length of the period in days.
    pub open spec fn days(&self) -> nat {
        match self {
            VotingPeriod::ThreeDays => 3,
            VotingPeriod::SevenDays => 7,
            VotingPeriod::FourteenDays => 14,
            VotingPeriod::ThirtyDays => 30,
        }
    }

    pub open spec fn spec_blocks(&self) -> nat {
        self.days() * 24 * 60 * (BLOCKS_PER_MINUTE as nat)
    }

    /// Length of the period in blocks, at ten blocks a minute.
    pub fn to_blocks(&self) -> (r: u32)
        ensures
            r as nat == self.spec_blocks(),
    {
        match self {
            VotingPeriod::ThreeDays => 3 * BLOCKS_PER_DAY,
            VotingPeriod::SevenDays => 7 * BLOCKS_PER_DAY,
            VotingPeriod::FourteenDays => 14 * BLOCKS_PER_DAY,
            VotingPeriod::ThirtyDays => 30 * BLOCKS_PER_DAY,
        }
    }
}

/// Share of all registered voters that must take part for a proposal to pass.
#[derive(Debug, Clone, Copy, PartialEq, Eq, Structural)]
pub enum QuorumThreshold {
    Five,
    Ten,
    Twenty,
    TwentyFive,
}

impl QuorumThreshold {
    pub open spec fn spec_percentage(&self) -> nat {
        match self {
            QuorumThreshold::Five => 5,
            QuorumThreshold::Ten => 10,
            QuorumThreshold::Twenty => 20,
            QuorumThreshold::TwentyFive => 25,
        }
    }

    /// The threshold as a percentage.
    pub fn to_percentage(&self) -> (r: u32)
        ensures
            r as nat == self.spec_percentage(),
    {
        match self {
            QuorumThreshold::Five => 5,
            QuorumThreshold::Ten => 10,
            QuorumThreshold::Twenty => 20,
            QuorumThreshold::TwentyFive => 25,
        }
    }
}

/// How long a passed proposal waits after its voting period before it may be
/// executed.
#[derive(Debug, Clone, Copy, PartialEq, Eq, Structural)]
pub enum ExecutionDelay {
    Immediately,
    OneDay,
    TwoDays,
    SevenDays,
}

impl ExecutionDelay {
    /// Length of the delay in days.
    pub open spec fn days(&self) -> nat {
        match self {
            ExecutionDelay::Immediately => 0,
            ExecutionDelay::OneDay => 1,
            ExecutionDelay::TwoDays => 2,
            ExecutionDelay::SevenDays => 7,
        }
    }

    pub open spec fn spec_blocks(&self) -> nat {
        self.days() * 24 * 60 * (BLOCKS_PER_MINUTE as nat)
    }

    /// Length of the delay in blocks, at ten blocks a minute.
    pub fn to_blocks(&self) -> (r: u32)
        ensures
            r as nat == self.spec_blocks(),
    {
        match self {
            ExecutionDelay::Immediately => 0,
            ExecutionDelay::OneDay => BLOCKS_PER_DAY,
            ExecutionDelay::TwoDays => 2 * BLOCKS_PER_DAY,
            ExecutionDelay::SevenDays => 7 * BLOCKS_PER_DAY,
        }
    }
}

/// The rules a proposal is voted and executed under.
#[derive(Debug, Clone, Copy, PartialEq, Eq, Structural)]
pub struct GovernanceParameters {
    pub voting_period: VotingPeriod,
    pub quorum_threshold: QuorumThreshold,
    pub execution_delay: ExecutionDelay,
}

} // verus!
