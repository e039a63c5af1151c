//! The ledger: voter registration, the proposal registry, the voting engine,
//! the lifecycle controller, and read-only queries.
//!
//! Every operation takes the calling actor and the current block height as
//! arguments. A refused operation leaves the ledger unchanged.

use vstd::prelude::*;

use crate::params::{GovernanceParameters, ProposalType};
use crate::tally::{
    first_maximum, has_unique_leader, is_first_maximum, is_unique_leader, lemma_sum_counts_increment,
    lemma_sum_counts_zeros, quorum_met, quorum_reached, sum_counts, unique_leader,
};
use crate::types::{
    copy_counts, copy_strings, ActorId, ContractStats, Error, Proposal, ProposalResults,
    ProposalStatus, ProposalView, Vote, VoteChoice, VotingOptions, MAX_VOTING_OPTIONS,
};

verus! {

/// The ledger's whole state.
///
/// The proposal with id `k` is stored at index `k - 1` of `proposals`; each
/// entry of `votes` pairs a proposal id with a vote cast on it.
pub struct TreasuryGovernance {
    pub next_proposal_id: u32,
    pub proposals: Vec<Proposal>,
    pub votes: Vec<(u32, Vote)>,
    pub proposal_ids: Vec<u32>,
    pub total_voters: u32,
    pub owner: ActorId,
    pub registered_voters: Vec<ActorId>,
}

/// The ledger as a mathematical value.
#[verifier::ext_equal]
pub ghost struct GovernanceView {
    pub next_proposal_id: u32,
    pub proposals: Seq<ProposalView>,
    pub votes: Seq<(u32, Vote)>,
    pub proposal_ids: Seq<u32>,
    pub total_voters: u32,
    pub owner: ActorId,
    pub registered_voters: Seq<ActorId>,
}

impl View for TreasuryGovernance {
    type V = GovernanceView;

    open spec fn view(&self) -> GovernanceView {
        GovernanceView {
            next_proposal_id: self.next_proposal_id,
            proposals: self.proposals@.map_values(|p: Proposal| p@),
            votes: self.votes@,
            proposal_ids: self.proposal_ids@,
            total_voters: self.total_voters,
            owner: self.owner,
            registered_voters: self.registered_voters@,
        }
    }
}

/// Number of vote records on proposal `pid`.
pub open spec fn votes_on(votes: Seq<(u32, Vote)>, pid: u32) -> nat
    decreases votes.len(),
{
    if votes.len() == 0 {
        0
    } else {
        votes_on(votes.drop_last(), pid) + if votes.last().0 == pid {
            1nat
        } else {
            0nat
        }
    }
}

/// Number of vote records on proposal `pid` that chose option `option`.
pub open spec fn votes_for(votes: Seq<(u32, Vote)>, pid: u32, option: int) -> nat
    decreases votes.len(),
{
    if votes.len() == 0 {
        0
    } else {
        votes_for(votes.drop_last(), pid, option) + if votes.last().0 == pid
            && votes.last().1.choice.option_index == option {
            1nat
        } else {
            0nat
        }
    }
}

/// Number of proposals in the given status.
pub open spec fn count_status(ps: Seq<ProposalView>, status: ProposalStatus) -> nat
    decreases ps.len(),
{
    if ps.len() == 0 {
        0
    } else {
        count_status(ps.drop_last(), status) + if ps.last().status == status {
            1nat
        } else {
            0nat
        }
    }
}

/// The status an active proposal takes once its voting window has closed:
/// it passes only with quorum and a single option strictly ahead of the rest.
pub open spec fn decided_status(registered: u32, p: ProposalView) -> ProposalStatus {
    if quorum_reached(
        registered as nat,
        p.governance_params.quorum_threshold.spec_percentage(),
        p.vote_counts,
    ) && has_unique_leader(p.vote_counts) {
        ProposalStatus::Passed
    } else {
        ProposalStatus::Rejected
    }
}

impl GovernanceView {
    /// Proposal `pid` has been created.
    pub open spec fn has_proposal(self, pid: u32) -> bool {
        1 <= pid <= self.proposals.len()
    }

    /// The stored record of proposal `pid`.
    pub open spec fn proposal(self, pid: u32) -> ProposalView {
        self.proposals[pid - 1]
    }

    /// Actor `a` may vote.
    pub open spec fn is_registered(self, a: ActorId) -> bool {
        self.registered_voters.contains(a)
    }

    /// A vote by `a` on proposal `pid` is on record.
    pub open spec fn has_voted(self, pid: u32, a: ActorId) -> bool {
        exists|k: int|
            0 <= k < self.votes.len() && (#[trigger] self.votes[k]).0 == pid && self.votes[k].1.voter
                == a
    }

    /// A vote record names a stored proposal, one of its options with that
    /// option's text, and a registered voter, with weight one.
    pub open spec fn vote_record_ok(self, r: (u32, Vote)) -> bool {
        &&& self.has_proposal(r.0)
        &&& r.1.choice.option_index < self.proposal(r.0).options.len()
        &&& r.1.choice.option_text == self.proposal(r.0).options[r.1.choice.option_index as int]
        &&& r.1.weight == 1
        &&& self.is_registered(r.1.voter)
    }

    /// The ledger's invariant, kept by every operation.
    pub open spec fn wf(self) -> bool {
        &&& self.next_proposal_id == self.proposals.len() + 1
        &&& self.proposal_ids.len() == self.proposals.len()
        &&& forall|i: int| 0 <= i < self.proposals.len() ==> (#[trigger] self.proposals[i]).id == i + 1
        &&& forall|i: int| 0 <= i < self.proposal_ids.len() ==> #[trigger] self.proposal_ids[i] == i + 1
        &&& forall|i: int| 0 <= i < self.proposals.len() ==> (#[trigger] self.proposals[i]).wf()
        &&& self.total_voters == self.registered_voters.len()
        &&& self.registered_voters.no_duplicates()
        &&& forall|k: int| 0 <= k < self.votes.len() ==> self.vote_record_ok(#[trigger] self.votes[k])
        &&& forall|k: int, l: int|
            0 <= k < l < self.votes.len() && (#[trigger] self.votes[k]).0 == (#[trigger] self.votes[l]).0
                ==> self.votes[k].1.voter != self.votes[l].1.voter
        &&& forall|i: int|
            0 <= i < self.proposals.len() ==> (#[trigger] self.proposals[i]).total_voters == votes_on(
                self.votes,
                (i + 1) as u32,
            )
        &&& forall|i: int, j: int|
            0 <= i < self.proposals.len() && 0 <= j < self.proposals[i].vote_counts.len()
                ==> #[trigger] self.proposals[i].vote_counts[j] == votes_for(self.votes, (i + 1) as u32, j)
    }

    /// The ledger right after construction.
    pub open spec fn initial(owner: ActorId) -> GovernanceView {
        GovernanceView {
            next_proposal_id: 1,
            proposals: Seq::empty(),
            votes: Seq::empty(),
            proposal_ids: Seq::empty(),
            total_voters: 0,
            owner,
            registered_voters: Seq::empty(),
        }
    }

    /// Outcome of registering `caller`.
    pub open spec fn register_outcome(self, caller: ActorId) -> Result<(), Error> {
        if self.is_registered(caller) {
            Ok(())
        } else if self.total_voters == u32::MAX {
            Err(Error::ArithmeticOverflow)
        } else {
            Ok(())
        }
    }

    /// The ledger after registering `caller`: a new voter is added and counted once.
    pub open spec fn after_register(self, caller: ActorId) -> GovernanceView {
        if self.is_registered(caller) || self.total_voters == u32::MAX {
            self
        } else {
            GovernanceView {
                registered_voters: self.registered_voters.push(caller),
                total_voters: (self.total_voters + 1) as u32,
                ..self
            }
        }
    }

    /// Outcome of creating a proposal with `n_options` options at block `now`.
    /// Overflow of either deadline or of the id counter refuses the call.
    pub open spec fn create_outcome(self, params: GovernanceParameters, n_options: nat, now: u32) -> Result<u32, Error> {
        if n_options == 0 {
            Err(Error::NoVotingOptions)
        } else if n_options > MAX_VOTING_OPTIONS {
            Err(Error::TooManyVotingOptions)
        } else if now + params.voting_period.spec_blocks() > u32::MAX {
            Err(Error::ArithmeticOverflow)
        } else if now + params.voting_period.spec_blocks() + params.execution_delay.spec_blocks()
            > u32::MAX {
            Err(Error::ArithmeticOverflow)
        } else if self.next_proposal_id == u32::MAX {
            Err(Error::ArithmeticOverflow)
        } else {
            Ok(self.next_proposal_id)
        }
    }

    /// The record a successful creation stores: the next id, active, no votes.
    pub open spec fn created_proposal(
        self,
        title: String,
        description: String,
        proposal_type: ProposalType,
        params: GovernanceParameters,
        options: Seq<String>,
        caller: ActorId,
        now: u32,
    ) -> ProposalView {
        ProposalView {
            id: self.next_proposal_id,
            title,
            description,
            proposal_type,
            governance_params: params,
            options,
            proposer: caller,
            created_at: now,
            voting_end: (now + params.voting_period.spec_blocks()) as u32,
            execution_time: (now + params.voting_period.spec_blocks()
                + params.execution_delay.spec_blocks()) as u32,
            status: ProposalStatus::Active,
            vote_counts: Seq::new(options.len(), |j: int| 0u128),
            total_voters: 0,
        }
    }

    /// The ledger after creating a proposal: on success the record is appended,
    /// its id is appended to the id list, and the id counter advances.
    pub open spec fn after_create(
        self,
        title: String,
        description: String,
        proposal_type: ProposalType,
        params: GovernanceParameters,
        options: Seq<String>,
        caller: ActorId,
        now: u32,
    ) -> GovernanceView {
        if self.create_outcome(params, options.len(), now) is Ok {
            GovernanceView {
                next_proposal_id: (self.next_proposal_id + 1) as u32,
                proposals: self.proposals.push(
                    self.created_proposal(title, description, proposal_type, params, options, caller, now),
                ),
                proposal_ids: self.proposal_ids.push(self.next_proposal_id),
                ..self
            }
        } else {
            self
        }
    }

    /// Outcome of a vote by `caller` on proposal `pid` for `option` at block
    /// `now`. The checks run in this order and the first that fails decides.
    pub open spec fn vote_outcome(self, pid: u32, option: u32, caller: ActorId, now: u32) -> Result<(), Error> {
        if !self.is_registered(caller) {
            Err(Error::NotRegisteredVoter)
        } else if !self.has_proposal(pid) {
            Err(Error::ProposalNotFound)
        } else if self.proposal(pid).status != ProposalStatus::Active {
            Err(Error::ProposalNotActive)
        } else if now > self.proposal(pid).voting_end {
            Err(Error::VotingPeriodEnded)
        } else if self.has_voted(pid, caller) {
            Err(Error::AlreadyVoted)
        } else if option >= self.proposal(pid).options.len() {
            Err(Error::InvalidOptionIndex)
        } else if self.proposal(pid).vote_counts[option as int] == u128::MAX
            || self.proposal(pid).total_voters == u32::MAX {
            Err(Error::ArithmeticOverflow)
        } else {
            Ok(())
        }
    }

    /// The record a successful vote stores.
    pub open spec fn cast_record(self, pid: u32, option: u32, caller: ActorId, now: u32) -> (u32, Vote) {
        (
            pid,
            Vote {
                voter: caller,
                choice: VoteChoice {
                    option_index: option,
                    option_text: self.proposal(pid).options[option as int],
                },
                timestamp: now,
                weight: 1,
            },
        )
    }

    /// The ledger after a vote: on success the chosen count and the
    /// proposal's voter count each rise by one and the vote is recorded.
    pub open spec fn after_vote(self, pid: u32, option: u32, caller: ActorId, now: u32) -> GovernanceView {
        if self.vote_outcome(pid, option, caller, now) is Ok {
            let p = self.proposal(pid);
            GovernanceView {
                proposals: self.proposals.update(
                    pid - 1,
                    ProposalView {
                        vote_counts: p.vote_counts.update(
                            option as int,
                            (p.vote_counts[option as int] + 1) as u128,
                        ),
                        total_voters: (p.total_voters + 1) as u32,
                        ..p
                    },
                ),
                votes: self.votes.push(self.cast_record(pid, option, caller, now)),
                ..self
            }
        } else {
            self
        }
    }

    /// The ledger with proposal `pid` moved to `status`.
    pub open spec fn with_status(self, pid: u32, status: ProposalStatus) -> GovernanceView {
        GovernanceView {
            proposals: self.proposals.update(pid - 1, ProposalView { status, ..self.proposal(pid) }),
            ..self
        }
    }

    /// Outcome of refreshing a proposal's status: only an unknown id is refused.
    pub open spec fn update_status_outcome(self, pid: u32) -> Result<(), Error> {
        if self.has_proposal(pid) {
            Ok(())
        } else {
            Err(Error::ProposalNotFound)
        }
    }

    /// The ledger after refreshing a proposal's status: an active proposal
    /// whose window closed before `now` is decided; anything else is unchanged.
    pub open spec fn after_update_status(self, pid: u32, now: u32) -> GovernanceView {
        if self.has_proposal(pid) && self.proposal(pid).status == ProposalStatus::Active && now
            > self.proposal(pid).voting_end {
            self.with_status(pid, decided_status(self.total_voters, self.proposal(pid)))
        } else {
            self
        }
    }

    /// Outcome of executing proposal `pid` at block `now`.
    pub open spec fn execute_outcome(self, pid: u32, now: u32) -> Result<(), Error> {
        if !self.has_proposal(pid) {
            Err(Error::ProposalNotFound)
        } else if self.proposal(pid).status != ProposalStatus::Passed {
            Err(Error::ProposalNotReadyForExecution)
        } else if now < self.proposal(pid).execution_time {
            Err(Error::ProposalNotReadyForExecution)
        } else {
            Ok(())
        }
    }

    /// The ledger after executing: on success the proposal is `Executed`.
    pub open spec fn after_execute(self, pid: u32, now: u32) -> GovernanceView {
        if self.execute_outcome(pid, now) is Ok {
            self.with_status(pid, ProposalStatus::Executed)
        } else {
            self
        }
    }

    /// Whether proposal `pid` has reached quorum against the registered voters.
    pub open spec fn quorum_of(self, pid: u32) -> bool {
        quorum_reached(
            self.total_voters as nat,
            self.proposal(pid).governance_params.quorum_threshold.spec_percentage(),
            self.proposal(pid).vote_counts,
        )
    }
}

/// Changing a proposal's status keeps the invariant.
pub proof fn lemma_with_status_wf(g: GovernanceView, pid: u32, status: ProposalStatus)
    requires
        g.wf(),
        g.has_proposal(pid),
    ensures
        g.with_status(pid, status).wf(),
{
    let h = g.with_status(pid, status);
    assert forall|k: int| 0 <= k < h.votes.len() implies h.vote_record_ok(#[trigger] h.votes[k]) by {
        assert(g.vote_record_ok(g.votes[k]));
    }
    assert forall|i: int| 0 <= i < h.proposals.len() implies (#[trigger] h.proposals[i]).wf() by {
        assert(g.proposals[i].wf());
    }
    assert forall|i: int| 0 <= i < h.proposals.len() implies (#[trigger] h.proposals[i]).total_voters
        == votes_on(h.votes, (i + 1) as u32) by {
        assert(g.proposals[i].total_voters == votes_on(g.votes, (i + 1) as u32));
    }
    assert forall|i: int, j: int|
        0 <= i < h.proposals.len() && 0 <= j < h.proposals[i].vote_counts.len()
            implies #[trigger] h.proposals[i].vote_counts[j] == votes_for(h.votes, (i + 1) as u32, j) by {
        assert(g.proposals[i].vote_counts[j] == votes_for(g.votes, (i + 1) as u32, j));
    }
    assert forall|i: int| 0 <= i < h.proposals.len() implies (#[trigger] h.proposals[i]).id == i + 1 by {
        assert(g.proposals[i].id == i + 1);
    }
}

/// The actors with a vote on record for proposal `pid`.
pub open spec fn voters_of(votes: Seq<(u32, Vote)>, pid: u32) -> Set<ActorId>
    decreases votes.len(),
{
    if votes.len() == 0 {
        Set::empty()
    } else if votes.last().0 == pid {
        voters_of(votes.drop_last(), pid).insert(votes.last().1.voter)
    } else {
        voters_of(votes.drop_last(), pid)
    }
}

/// With one vote per actor and proposal, the voters of a proposal are as many
/// as its vote records, and they are exactly the actors named by those records.
pub proof fn lemma_voters_of(votes: Seq<(u32, Vote)>, pid: u32)
    requires
        forall|k: int, l: int|
            0 <= k < l < votes.len() && (#[trigger] votes[k]).0 == (#[trigger] votes[l]).0
                ==> votes[k].1.voter != votes[l].1.voter,
    ensures
        voters_of(votes, pid).finite(),
        voters_of(votes, pid).len() == votes_on(votes, pid),
        forall|a: ActorId|
            #[trigger] voters_of(votes, pid).contains(a) <==> exists|k: int|
                0 <= k < votes.len() && (#[trigger] votes[k]).0 == pid && votes[k].1.voter == a,
    decreases votes.len(),
{
    if votes.len() > 0 {
        let s = votes.drop_last();
        let n = s.len() as int;
        assert forall|k: int, l: int|
            0 <= k < l < s.len() && (#[trigger] s[k]).0 == (#[trigger] s[l]).0
                implies s[k].1.voter != s[l].1.voter by {
            assert(s[k] == votes[k] && s[l] == votes[l]);
        }
        lemma_voters_of(s, pid);
        if votes.last().0 == pid {
            if voters_of(s, pid).contains(votes.last().1.voter) {
                let k = choose|k: int|
                    0 <= k < s.len() && (#[trigger] s[k]).0 == pid && s[k].1.voter
                        == votes.last().1.voter;
                assert(votes[k] == s[k]);
                assert(votes[n] == votes.last());
            }
        }
        assert forall|a: ActorId|
            #[trigger] voters_of(votes, pid).contains(a) <==> exists|k: int|
                0 <= k < votes.len() && (#[trigger] votes[k]).0 == pid && votes[k].1.voter == a by {
            if voters_of(votes, pid).contains(a) {
                if voters_of(s, pid).contains(a) {
                    let k = choose|k: int| 0 <= k < s.len() && (#[trigger] s[k]).0 == pid && s[k].1.voter == a;
                    assert(votes[k] == s[k]);
                } else {
                    assert(votes[n] == votes.last());
                }
            }
            if exists|k: int| 0 <= k < votes.len() && (#[trigger] votes[k]).0 == pid && votes[k].1.voter == a {
                let k = choose|k: int| 0 <= k < votes.len() && (#[trigger] votes[k]).0 == pid && votes[k].1.voter == a;
                if k < n {
                    assert(s[k] == votes[k]);
                }
            }
        }
    }
}

/// While a registered actor has not voted on a proposal, the proposal's voter
/// count stays below the number of registered voters.
pub proof fn lemma_open_voter_bound(g: GovernanceView, pid: u32, caller: ActorId)
    requires
        g.wf(),
        g.has_proposal(pid),
        g.is_registered(caller),
        !g.has_voted(pid, caller),
    ensures
        g.proposal(pid).total_voters < g.total_voters,
{
    let v = voters_of(g.votes, pid);
    let r = g.registered_voters.to_set();
    lemma_voters_of(g.votes, pid);
    g.registered_voters.unique_seq_to_set();
    assert(g.proposals[pid - 1].total_voters == votes_on(g.votes, (pid - 1 + 1) as u32));
    assert forall|a: ActorId| v.contains(a) implies r.remove(caller).contains(a) by {
        let k = choose|k: int| 0 <= k < g.votes.len() && (#[trigger] g.votes[k]).0 == pid && g.votes[k].1.voter == a;
        assert(g.vote_record_ok(g.votes[k]));
    }
    assert(r.contains(caller));
    vstd::set_lib::lemma_len_subset(v, r.remove(caller));
}

/// Appending a record counts it for its own proposal and option only.
pub proof fn lemma_votes_push(votes: Seq<(u32, Vote)>, r: (u32, Vote))
    ensures
        forall|pid: u32|
            #[trigger] votes_on(votes.push(r), pid) == votes_on(votes, pid) + if r.0 == pid {
                1nat
            } else {
                0nat
            },
        forall|pid: u32, option: int|
            #[trigger] votes_for(votes.push(r), pid, option) == votes_for(votes, pid, option)
                + if r.0 == pid && r.1.choice.option_index == option {
                1nat
            } else {
                0nat
            },
{
    assert(votes.push(r).drop_last() =~= votes);
}

/// No record names proposal `pid`, so none is counted for it.
pub proof fn lemma_votes_absent(votes: Seq<(u32, Vote)>, pid: u32)
    requires
        forall|k: int| 0 <= k < votes.len() ==> (#[trigger] votes[k]).0 != pid,
    ensures
        votes_on(votes, pid) == 0,
        forall|option: int| #[trigger] votes_for(votes, pid, option) == 0,
    decreases votes.len(),
{
    if votes.len() > 0 {
        lemma_votes_absent(votes.drop_last(), pid);
        assert(votes.last().0 != pid);
        assert forall|option: int| #[trigger] votes_for(votes, pid, option) == 0 by {
            assert(votes_for(votes.drop_last(), pid, option) == 0);
        }
    }
}

/// At most as many proposals are in one status as there are proposals.
pub proof fn lemma_count_status_bound(ps: Seq<ProposalView>, status: ProposalStatus)
    ensures
        count_status(ps, status) <= ps.len(),
    decreases ps.len(),
{
    if ps.len() > 0 {
        lemma_count_status_bound(ps.drop_last(), status);
    }
}

impl TreasuryGovernance {
    /// An empty ledger owned by `owner`: no proposals, no voters, next id one.
    pub fn new(owner: ActorId) -> (r: TreasuryGovernance)
        ensures
            r@ == GovernanceView::initial(owner),
            r@.wf(),
    {
        let r = TreasuryGovernance {
            next_proposal_id: 1,
            proposals: Vec::new(),
            votes: Vec::new(),
            proposal_ids: Vec::new(),
            total_voters: 0,
            owner,
            registered_voters: Vec::new(),
        };
        assert(r@ =~= GovernanceView::initial(owner));
        r
    }

    /// Whether `actor` may vote.
    pub fn is_registered(&self, actor: &ActorId) -> (r: bool)
        ensures
            r == self@.is_registered(*actor),
    {
        let mut k: usize = 0;
        while k < self.registered_voters.len()
            invariant
                0 <= k <= self.registered_voters.len(),
                forall|j: int| 0 <= j < k ==> self.registered_voters@[j] != *actor,
            decreases self.registered_voters.len() - k,
        {
            if self.registered_voters[k].same_as(actor) {
                return true;
            }
            k = k + 1;
        }
        false
    }

    /// Registers `caller` as a voter. Registering twice is accepted and
    /// changes nothing; the voter count is checked, never wrapped.
    pub fn register_voter(&mut self, caller: ActorId) -> (r: Result<(), Error>)
        requires
            old(self)@.wf(),
        ensures
            r == old(self)@.register_outcome(caller),
            final(self)@ == old(self)@.after_register(caller),
            final(self)@.wf(),
    {
        if self.is_registered(&caller) {
            return Ok(());
        }
        if self.total_voters == u32::MAX {
            return Err(Error::ArithmeticOverflow);
        }
        let ghost before = self@;
        self.registered_voters.push(caller);
        self.total_voters = self.total_voters + 1;
        proof {
            let after = self@;
            assert(after =~= before.after_register(caller));
            assert forall|k: int| 0 <= k < after.votes.len() implies after.vote_record_ok(
                #[trigger] after.votes[k],
            ) by {
                assert(before.vote_record_ok(before.votes[k]));
                let v = after.votes[k].1.voter;
                let w = choose|j: int| 0 <= j < before.registered_voters.len() && before.registered_voters[j] == v;
                assert(after.registered_voters[w] == v);
            }
            assert forall|i: int, j: int|
                0 <= i < j < after.registered_voters.len() implies after.registered_voters[i]
                != after.registered_voters[j] by {
                if j == before.registered_voters.len() {
                    assert(before.registered_voters[i] == after.registered_voters[i]);
                }
            }
        }
        Ok(())
    }

    /// Creates a proposal from `caller` at block `now` and returns its id.
    pub fn create_proposal(
        &mut self,
        title: String,
        description: String,
        proposal_type: ProposalType,
        governance_params: GovernanceParameters,
        voting_options: VotingOptions,
        caller: ActorId,
        now: u32,
    ) -> (r: Result<u32, Error>)
        requires
            old(self)@.wf(),
        ensures
            r == old(self)@.create_outcome(governance_params, voting_options.options@.len(), now),
            final(self)@ == old(self)@.after_create(
                title,
                description,
                proposal_type,
                governance_params,
                voting_options.options@,
                caller,
                now,
            ),
            final(self)@.wf(),
    {
        let n = voting_options.options.len();
        if n == 0 {
            return Err(Error::NoVotingOptions);
        }
        if n > MAX_VOTING_OPTIONS {
            return Err(Error::TooManyVotingOptions);
        }
        let voting_end = match now.checked_add(governance_params.voting_period.to_blocks()) {
            Some(t) => t,
            None => {
                return Err(Error::ArithmeticOverflow);
            },
        };
        let execution_time = match voting_end.checked_add(
            governance_params.execution_delay.to_blocks(),
        ) {
            Some(t) => t,
            None => {
                return Err(Error::ArithmeticOverflow);
            },
        };
        if self.next_proposal_id == u32::MAX {
            return Err(Error::ArithmeticOverflow);
        }
        let mut vote_counts: Vec<u128> = Vec::new();
        let mut k: usize = 0;
        while k < n
            invariant
                0 <= k <= n,
                vote_counts@.len() == k,
                forall|j: int| 0 <= j < k ==> #[trigger] vote_counts@[j] == 0,
            decreases n - k,
        {
            vote_counts.push(0);
            k = k + 1;
        }
        let ghost before = self@;
        let ghost options = voting_options.options@;
        let proposal_id = self.next_proposal_id;
        let proposal = Proposal {
            id: proposal_id,
            title,
            description,
            proposal_type,
            governance_params,
            voting_options,
            proposer: caller,
            created_at: now,
            voting_end,
            execution_time,
            status: ProposalStatus::Active,
            vote_counts,
            total_voters: 0,
        };
        proof {
            lemma_sum_counts_zeros(proposal.vote_counts@);
            assert(proposal@ =~= before.created_proposal(
                proposal.title,
                proposal.description,
                proposal_type,
                governance_params,
                options,
                caller,
                now,
            ));
        }
        self.proposals.push(proposal);
        self.proposal_ids.push(proposal_id);
        self.next_proposal_id = proposal_id + 1;
        proof {
            let after = self@;
            assert(after.proposals =~= before.proposals.push(proposal@));
            assert(after =~= before.after_create(
                proposal.title,
                proposal.description,
                proposal_type,
                governance_params,
                options,
                caller,
                now,
            ));
            assert forall|k: int| 0 <= k < before.votes.len() implies (#[trigger] before.votes[k]).0
                != proposal_id by {
                assert(before.vote_record_ok(before.votes[k]));
            }
            lemma_votes_absent(before.votes, proposal_id);
            assert forall|k: int| 0 <= k < after.votes.len() implies after.vote_record_ok(
                #[trigger] after.votes[k],
            ) by {
                assert(before.vote_record_ok(before.votes[k]));
                assert(after.proposals[before.votes[k].0 - 1] == before.proposals[before.votes[k].0 - 1]);
            }
            assert forall|i: int| 0 <= i < after.proposals.len() implies (#[trigger] after.proposals[i]).total_voters
                == votes_on(after.votes, (i + 1) as u32) by {
                if i < before.proposals.len() {
                    assert(after.proposals[i] == before.proposals[i]);
                }
            }
            assert forall|i: int, j: int|
                0 <= i < after.proposals.len() && 0 <= j < after.proposals[i].vote_counts.len()
                    implies #[trigger] after.proposals[i].vote_counts[j] == votes_for(after.votes, (i + 1) as u32, j) by {
                if i < before.proposals.len() {
                    assert(after.proposals[i] == before.proposals[i]);
                } else {
                    assert(votes_for(before.votes, proposal_id, j) == 0);
                }
            }
        }
        Ok(proposal_id)
    }

    /// Position of the vote by `voter` on proposal `pid`, if one is on record.
    pub fn find_vote(&self, pid: u32, voter: &ActorId) -> (r: Option<usize>)
        ensures
            match r {
                Some(k) => k < self.votes@.len() && self.votes@[k as int].0 == pid
                    && self.votes@[k as int].1.voter == *voter,
                None => !self@.has_voted(pid, *voter),
            },
    {
        let mut k: usize = 0;
        while k < self.votes.len()
            invariant
                0 <= k <= self.votes.len(),
                forall|j: int|
                    0 <= j < k ==> !((#[trigger] self.votes@[j]).0 == pid && self.votes@[j].1.voter
                        == *voter),
            decreases self.votes.len() - k,
        {
            if self.votes[k].0 == pid && self.votes[k].1.voter.same_as(voter) {
                return Some(k);
            }
            k = k + 1;
        }
        None
    }

    /// Casts `caller`'s vote on proposal `pid` for `option_index` at block `now`.
    pub fn vote(&mut self, proposal_id: u32, option_index: u32, caller: ActorId, now: u32) -> (r: Result<(), Error>)
        requires
            old(self)@.wf(),
        ensures
            r == old(self)@.vote_outcome(proposal_id, option_index, caller, now),
            final(self)@ == old(self)@.after_vote(proposal_id, option_index, caller, now),
            final(self)@.wf(),
    {
        if !self.is_registered(&caller) {
            return Err(Error::NotRegisteredVoter);
        }
        if proposal_id == 0 || proposal_id as usize > self.proposals.len() {
            return Err(Error::ProposalNotFound);
        }
        let idx = (proposal_id - 1) as usize;
        if self.proposals[idx].status != ProposalStatus::Active {
            return Err(Error::ProposalNotActive);
        }
        if now > self.proposals[idx].voting_end {
            return Err(Error::VotingPeriodEnded);
        }
        if self.find_vote(proposal_id, &caller).is_some() {
            return Err(Error::AlreadyVoted);
        }
        let opt = option_index as usize;
        if opt >= self.proposals[idx].voting_options.options.len() {
            return Err(Error::InvalidOptionIndex);
        }
        let count = self.proposals[idx].vote_counts[opt];
        if count == u128::MAX {
            return Err(Error::ArithmeticOverflow);
        }
        let voters = self.proposals[idx].total_voters;
        if voters == u32::MAX {
            return Err(Error::ArithmeticOverflow);
        }
        let ghost before = self@;
        let option_text = self.proposals[idx].voting_options.options[opt].clone();
        let record = (
            proposal_id,
            Vote {
                voter: caller,
                choice: VoteChoice { option_index, option_text },
                timestamp: now,
                weight: 1,
            },
        );
        self.proposals[idx].vote_counts[opt] = count + 1;
        self.proposals[idx].total_voters = voters + 1;
        self.votes.push(record);
        proof {
            let after = self@;
            let p = before.proposal(proposal_id);
            assert(record == before.cast_record(proposal_id, option_index, caller, now));
            assert(after.proposals[idx as int] =~= ProposalView {
                vote_counts: p.vote_counts.update(opt as int, (count + 1) as u128),
                total_voters: (voters + 1) as u32,
                ..p
            });
            assert(after.proposals =~= before.proposals.update(idx as int, after.proposals[idx as int]));
            assert(after =~= before.after_vote(proposal_id, option_index, caller, now));
            lemma_votes_push(before.votes, record);
            lemma_sum_counts_increment(p.vote_counts, opt as int);
            assert forall|k: int| 0 <= k < after.votes.len() implies after.vote_record_ok(
                #[trigger] after.votes[k],
            ) by {
                if k < before.votes.len() {
                    assert(before.vote_record_ok(before.votes[k]));
                }
            }
            assert forall|k: int, l: int|
                0 <= k < l < after.votes.len() && (#[trigger] after.votes[k]).0 == (#[trigger] after.votes[l]).0
                    implies after.votes[k].1.voter != after.votes[l].1.voter by {
                if l == before.votes.len() {
                    assert(before.votes[k] == after.votes[k]);
                    if after.votes[k].1.voter == caller {
                        assert(before.has_voted(proposal_id, caller));
                    }
                }
            }
            assert forall|i: int| 0 <= i < after.proposals.len() implies (#[trigger] after.proposals[i]).wf() by {
                if i != idx {
                    assert(after.proposals[i] == before.proposals[i]);
                }
            }
            assert forall|i: int| 0 <= i < after.proposals.len() implies (#[trigger] after.proposals[i]).total_voters
                == votes_on(after.votes, (i + 1) as u32) by {
                if i != idx {
                    assert(after.proposals[i] == before.proposals[i]);
                }
            }
            assert forall|i: int, j: int|
                0 <= i < after.proposals.len() && 0 <= j < after.proposals[i].vote_counts.len()
                    implies #[trigger] after.proposals[i].vote_counts[j] == votes_for(after.votes, (i + 1) as u32, j) by {
                if i != idx {
                    assert(after.proposals[i] == before.proposals[i]);
                }
                assert(votes_for(after.votes, (i + 1) as u32, j) == votes_for(before.votes, (i + 1) as u32, j)
                    + if record.0 == (i + 1) as u32 && record.1.choice.option_index == j { 1nat } else { 0nat });
            }
        }
        Ok(())
    }

    /// Whether `proposal` reaches quorum against the registered voters.
    fn has_reached_quorum_internal(&self, proposal: &Proposal) -> (r: bool)
        ensures
            r == quorum_reached(
                self.total_voters as nat,
                proposal.governance_params.quorum_threshold.spec_percentage(),
                proposal.vote_counts@,
            ),
    {
        quorum_met(
            self.total_voters,
            proposal.governance_params.quorum_threshold.to_percentage(),
            &proposal.vote_counts,
        )
    }

    /// Decides proposal `proposal_id` once its voting window has closed at
    /// block `now`: `Passed` with quorum and a single leading option,
    /// `Rejected` otherwise. Before that, or once decided, nothing changes.
    pub fn update_proposal_status(&mut self, proposal_id: u32, now: u32) -> (r: Result<(), Error>)
        requires
            old(self)@.wf(),
        ensures
            r == old(self)@.update_status_outcome(proposal_id),
            final(self)@ == old(self)@.after_update_status(proposal_id, now),
            final(self)@.wf(),
    {
        if proposal_id == 0 || proposal_id as usize > self.proposals.len() {
            return Err(Error::ProposalNotFound);
        }
        let idx = (proposal_id - 1) as usize;
        if self.proposals[idx].status != ProposalStatus::Active || now <= self.proposals[idx].voting_end {
            return Ok(());
        }
        let quorum = self.has_reached_quorum_internal(&self.proposals[idx]);
        let status = if quorum && unique_leader(&self.proposals[idx].vote_counts).is_some() {
            ProposalStatus::Passed
        } else {
            ProposalStatus::Rejected
        };
        let ghost before = self@;
        proof {
            assert(status == decided_status(before.total_voters, before.proposal(proposal_id)));
        }
        self.proposals[idx].status = status;
        proof {
            assert(self@.proposals =~= before.with_status(proposal_id, status).proposals);
            assert(self@ =~= before.with_status(proposal_id, status));
            lemma_with_status_wf(before, proposal_id, status);
        }
        Ok(())
    }

    /// Marks a passed proposal executed once block `now` reaches its
    /// execution time. Executing performs no transfer of its own.
    pub fn execute_proposal(&mut self, proposal_id: u32, now: u32) -> (r: Result<(), Error>)
        requires
            old(self)@.wf(),
        ensures
            r == old(self)@.execute_outcome(proposal_id, now),
            final(self)@ == old(self)@.after_execute(proposal_id, now),
            final(self)@.wf(),
    {
        if proposal_id == 0 || proposal_id as usize > self.proposals.len() {
            return Err(Error::ProposalNotFound);
        }
        let idx = (proposal_id - 1) as usize;
        if self.proposals[idx].status != ProposalStatus::Passed {
            return Err(Error::ProposalNotReadyForExecution);
        }
        if now < self.proposals[idx].execution_time {
            return Err(Error::ProposalNotReadyForExecution);
        }
        let ghost before = self@;
        self.proposals[idx].status = ProposalStatus::Executed;
        proof {
            assert(self@.proposals =~= before.with_status(proposal_id, ProposalStatus::Executed).proposals);
            assert(self@ =~= before.with_status(proposal_id, ProposalStatus::Executed));
            lemma_with_status_wf(before, proposal_id, ProposalStatus::Executed);
        }
        Ok(())
    }

    /// Index of proposal `pid` in `proposals`, if it exists.
    fn index_of(&self, pid: u32) -> (r: Option<usize>)
        ensures
            match r {
                Some(i) => self@.has_proposal(pid) && i == pid - 1,
                None => !self@.has_proposal(pid),
            },
    {
        if pid == 0 || pid as usize > self.proposals.len() {
            None
        } else {
            Some((pid - 1) as usize)
        }
    }

    /// A copy of proposal `proposal_id`, if it exists.
    pub fn get_proposal(&self, proposal_id: u32) -> (r: Option<Proposal>)
        ensures
            match r {
                Some(p) => self@.has_proposal(proposal_id) && p@ == self@.proposal(proposal_id),
                None => !self@.has_proposal(proposal_id),
            },
    {
        match self.index_of(proposal_id) {
            Some(i) => Some(self.proposals[i].duplicate()),
            None => None,
        }
    }

    /// All proposal ids, in creation order.
    pub fn get_all_proposal_ids(&self) -> (r: Vec<u32>)
        ensures
            r@ == self@.proposal_ids,
    {
        let mut r: Vec<u32> = Vec::new();
        let mut k: usize = 0;
        while k < self.proposal_ids.len()
            invariant
                0 <= k <= self.proposal_ids.len(),
                r@ == self.proposal_ids@.take(k as int),
            decreases self.proposal_ids.len() - k,
        {
            r.push(self.proposal_ids[k]);
            k = k + 1;
            assert(r@ =~= self.proposal_ids@.take(k as int));
        }
        assert(self.proposal_ids@.take(k as int) =~= self.proposal_ids@);
        r
    }

    /// The vote `user` cast on proposal `proposal_id`, if any.
    pub fn get_user_vote(&self, proposal_id: u32, user: ActorId) -> (r: Option<Vote>)
        ensures
            match r {
                Some(v) => self@.votes.contains((proposal_id, v)) && v.voter == user,
                None => !self@.has_voted(proposal_id, user),
            },
    {
        match self.find_vote(proposal_id, &user) {
            Some(k) => {
                let v = self.votes[k].1.duplicate();
                assert(self@.votes[k as int] == (proposal_id, v));
                Some(v)
            },
            None => None,
        }
    }

    /// Counts of proposals, of active and of executed proposals, and of voters.
    pub fn get_stats(&self) -> (r: ContractStats)
        requires
            self@.wf(),
        ensures
            r.total_proposals == self@.proposals.len(),
            r.active_proposals == count_status(self@.proposals, ProposalStatus::Active),
            r.executed_proposals == count_status(self@.proposals, ProposalStatus::Executed),
            r.total_voters == self@.total_voters,
    {
        let ghost ps = self@.proposals;
        let mut active_proposals: u32 = 0;
        let mut executed_proposals: u32 = 0;
        let mut k: usize = 0;
        while k < self.proposals.len()
            invariant
                0 <= k <= self.proposals.len(),
                ps == self@.proposals,
                self@.wf(),
                active_proposals == count_status(ps.take(k as int), ProposalStatus::Active),
                executed_proposals == count_status(ps.take(k as int), ProposalStatus::Executed),
            decreases self.proposals.len() - k,
        {
            proof {
                assert(ps.take(k + 1).drop_last() =~= ps.take(k as int));
                lemma_count_status_bound(ps.take(k + 1), ProposalStatus::Active);
                lemma_count_status_bound(ps.take(k + 1), ProposalStatus::Executed);
            }
            match self.proposals[k].status {
                ProposalStatus::Active => {
                    active_proposals = active_proposals + 1;
                },
                ProposalStatus::Executed => {
                    executed_proposals = executed_proposals + 1;
                },
                _ => {},
            }
            k = k + 1;
        }
        proof {
            assert(ps.take(k as int) =~= ps);
        }
        ContractStats {
            total_proposals: self.proposals.len() as u32,
            active_proposals,
            executed_proposals,
            total_voters: self.total_voters,
        }
    }

    /// Number of registered voters.
    pub fn get_total_voters(&self) -> (r: u32)
        ensures
            r == self@.total_voters,
    {
        self.total_voters
    }

    /// Whether proposal `proposal_id` has reached quorum; does not change its status.
    pub fn has_reached_quorum(&self, proposal_id: u32) -> (r: Result<bool, Error>)
        ensures
            match r {
                Ok(q) => self@.has_proposal(proposal_id) && q == self@.quorum_of(proposal_id),
                Err(e) => !self@.has_proposal(proposal_id) && e == Error::ProposalNotFound,
            },
    {
        match self.index_of(proposal_id) {
            Some(i) => Ok(self.has_reached_quorum_internal(&self.proposals[i])),
            None => Err(Error::ProposalNotFound),
        }
    }

    /// The vote counts of proposal `proposal_id` and whether it has reached quorum.
    pub fn get_proposal_results(&self, proposal_id: u32) -> (r: Result<(Vec<u128>, bool), Error>)
        ensures
            match r {
                Ok((counts, q)) => self@.has_proposal(proposal_id) && counts@ == self@.proposal(
                    proposal_id,
                ).vote_counts && q == self@.quorum_of(proposal_id),
                Err(e) => !self@.has_proposal(proposal_id) && e == Error::ProposalNotFound,
            },
    {
        match self.index_of(proposal_id) {
            Some(i) => {
                let q = self.has_reached_quorum_internal(&self.proposals[i]);
                Ok((copy_counts(&self.proposals[i].vote_counts), q))
            },
            None => Err(Error::ProposalNotFound),
        }
    }

    /// The options of proposal `proposal_id`, in order.
    pub fn get_voting_options(&self, proposal_id: u32) -> (r: Result<Vec<String>, Error>)
        ensures
            match r {
                Ok(options) => self@.has_proposal(proposal_id) && options@ == self@.proposal(
                    proposal_id,
                ).options,
                Err(e) => !self@.has_proposal(proposal_id) && e == Error::ProposalNotFound,
            },
    {
        match self.index_of(proposal_id) {
            Some(i) => Ok(copy_strings(&self.proposals[i].voting_options.options)),
            None => Err(Error::ProposalNotFound),
        }
    }

    /// Counts, option names, total, quorum, and the first option to reach the
    /// highest nonzero count (ties are not detected here).
    pub fn get_detailed_results(&self, proposal_id: u32) -> (r: Result<ProposalResults, Error>)
        requires
            self@.wf(),
        ensures
            match r {
                Ok(res) => {
                    let p = self@.proposal(proposal_id);
                    &&& self@.has_proposal(proposal_id)
                    &&& res.proposal_id == proposal_id
                    &&& res.vote_counts@ == p.vote_counts
                    &&& res.option_names@ == p.options
                    &&& res.total_votes == sum_counts(p.vote_counts)
                    &&& res.quorum_reached == self@.quorum_of(proposal_id)
                    &&& match res.winning_option {
                        Some((i, text, count)) => is_first_maximum(p.vote_counts, i as int)
                            && text == p.options[i as int] && count == p.vote_counts[i as int],
                        None => forall|j: int|
                            0 <= j < p.vote_counts.len() ==> #[trigger] p.vote_counts[j] == 0,
                    }
                },
                Err(e) => !self@.has_proposal(proposal_id) && e == Error::ProposalNotFound,
            },
    {
        let i = match self.index_of(proposal_id) {
            Some(i) => i,
            None => {
                return Err(Error::ProposalNotFound);
            },
        };
        let p = &self.proposals[i];
        assert(p@.wf());
        let quorum_reached = self.has_reached_quorum_internal(p);
        let winning_option = match first_maximum(&p.vote_counts) {
            Some(w) => Some((w as u32, p.voting_options.options[w].clone(), p.vote_counts[w])),
            None => None,
        };
        Ok(ProposalResults {
            proposal_id,
            vote_counts: copy_counts(&p.vote_counts),
            option_names: copy_strings(&p.voting_options.options),
            total_votes: p.total_voters as u128,
            quorum_reached,
            winning_option,
        })
    }

    /// The option that strictly leads all others with a nonzero count, if any;
    /// a tie at the top, or no votes, gives none. Quorum plays no part.
    pub fn get_winning_option(&self, proposal_id: u32) -> (r: Result<Option<(u32, String, u128)>, Error>)
        requires
            self@.wf(),
        ensures
            match r {
                Ok(w) => {
                    let p = self@.proposal(proposal_id);
                    &&& self@.has_proposal(proposal_id)
                    &&& match w {
                        Some((i, text, count)) => is_unique_leader(p.vote_counts, i as int)
                            && text == p.options[i as int] && count == p.vote_counts[i as int],
                        None => !has_unique_leader(p.vote_counts),
                    }
                },
                Err(e) => !self@.has_proposal(proposal_id) && e == Error::ProposalNotFound,
            },
    {
        let i = match self.index_of(proposal_id) {
            Some(i) => i,
            None => {
                return Err(Error::ProposalNotFound);
            },
        };
        let p = &self.proposals[i];
        assert(p@.wf());
        match unique_leader(&p.vote_counts) {
            Some(w) => Ok(Some((w as u32, p.voting_options.options[w].clone(), p.vote_counts[w]))),
            None => Ok(None),
        }
    }
}

} // verus!
