//! Properties that hold of the ledger across operations.

use vstd::prelude::*;

use crate::governance::{votes_on, GovernanceView};
use crate::params::GovernanceParameters;
use crate::tally::{quorum_reached, sum_counts};
use crate::types::{ActorId, Error, ProposalStatus};

verus! {

/// Every stored proposal has exactly one vote counter per voting option.
pub proof fn lemma_counts_match_options(g: GovernanceView)
    requires
        g.wf(),
    ensures
        forall|i: int|
            0 <= i < g.proposals.len() ==> (#[trigger] g.proposals[i]).vote_counts.len()
                == g.proposals[i].options.len(),
{
    assert forall|i: int| 0 <= i < g.proposals.len() implies (#[trigger] g.proposals[i]).vote_counts.len()
        == g.proposals[i].options.len() by {
        assert(g.proposals[i].wf());
    }
}

/// Each proposal's counts add up to its voter count, which is the number of
/// votes recorded on it; no two of those votes come from the same actor.
pub proof fn lemma_tally_matches_records(g: GovernanceView)
    requires
        g.wf(),
    ensures
        forall|i: int|
            0 <= i < g.proposals.len() ==> sum_counts((#[trigger] g.proposals[i]).vote_counts)
                == g.proposals[i].total_voters && g.proposals[i].total_voters == votes_on(
                g.votes,
                (i + 1) as u32,
            ),
        forall|k: int, l: int|
            0 <= k < l < g.votes.len() && (#[trigger] g.votes[k]).0 == (#[trigger] g.votes[l]).0
                ==> g.votes[k].1.voter != g.votes[l].1.voter,
{
    assert forall|i: int| 0 <= i < g.proposals.len() implies sum_counts(
        (#[trigger] g.proposals[i]).vote_counts,
    ) == g.proposals[i].total_voters by {
        assert(g.proposals[i].wf());
    }
}

/// Once an actor's vote on a proposal is on record, no further vote by that
/// actor on that proposal is accepted.
pub proof fn lemma_recorded_voter_is_refused(
    g: GovernanceView,
    pid: u32,
    option: u32,
    caller: ActorId,
    now: u32,
)
    requires
        g.has_voted(pid, caller),
    ensures
        g.vote_outcome(pid, option, caller, now) is Err,
        g.after_vote(pid, option, caller, now) == g,
{
}

/// After a successful vote, a second vote by the same actor on the same
/// proposal is refused with `AlreadyVoted`, whatever option it names, as long
/// as the voting window is still open; after the window it is refused too.
pub proof fn lemma_second_vote_refused(
    g: GovernanceView,
    pid: u32,
    first: u32,
    second: u32,
    caller: ActorId,
    t1: u32,
    t2: u32,
)
    requires
        g.wf(),
        g.vote_outcome(pid, first, caller, t1) is Ok,
    ensures
        g.after_vote(pid, first, caller, t1).vote_outcome(pid, second, caller, t2) is Err,
        t2 <= g.proposal(pid).voting_end ==> g.after_vote(pid, first, caller, t1).vote_outcome(
            pid,
            second,
            caller,
            t2,
        ) == Err::<(), Error>(Error::AlreadyVoted),
{
    let h = g.after_vote(pid, first, caller, t1);
    let k = g.votes.len() as int;
    assert(h.votes[k] == g.cast_record(pid, first, caller, t1));
    assert(h.has_voted(pid, caller));
    assert(h.proposal(pid).status == ProposalStatus::Active);
    assert(h.proposal(pid).voting_end == g.proposal(pid).voting_end);
}

/// Creation with no options fails with `NoVotingOptions`, with more than ten
/// with `TooManyVotingOptions`, and with one to ten succeeds whenever the
/// deadlines and the id counter fit in their integers.
pub proof fn lemma_option_count_limits(
    g: GovernanceView,
    params: GovernanceParameters,
    n_options: nat,
    now: u32,
)
    ensures
        n_options == 0 ==> g.create_outcome(params, n_options, now) == Err::<u32, Error>(
            Error::NoVotingOptions,
        ),
        n_options > 10 ==> g.create_outcome(params, n_options, now) == Err::<u32, Error>(
            Error::TooManyVotingOptions,
        ),
        1 <= n_options <= 10 && now + params.voting_period.spec_blocks()
            + params.execution_delay.spec_blocks() <= u32::MAX && g.next_proposal_id < u32::MAX
            ==> g.create_outcome(params, n_options, now) == Ok::<u32, Error>(g.next_proposal_id),
{
}

/// An actor that is not registered cannot vote, whatever proposal and option
/// it names, and the attempt changes nothing.
pub proof fn lemma_unregistered_cannot_vote(
    g: GovernanceView,
    pid: u32,
    option: u32,
    caller: ActorId,
    now: u32,
)
    requires
        !g.is_registered(caller),
    ensures
        g.vote_outcome(pid, option, caller, now) == Err::<(), Error>(Error::NotRegisteredVoter),
        g.after_vote(pid, option, caller, now) == g,
{
}

/// One count never exceeds the sum of all counts.
pub proof fn lemma_count_at_most_sum(s: Seq<u128>, i: int)
    requires
        0 <= i < s.len(),
    ensures
        s[i] <= sum_counts(s),
    decreases s.len(),
{
    crate::tally::lemma_sum_counts_nonneg(s.drop_last());
    if i < s.len() - 1 {
        lemma_count_at_most_sum(s.drop_last(), i);
    }
}

/// The voting window includes its last block: a vote that is otherwise valid
/// succeeds at `voting_end` and fails with `VotingPeriodEnded` one block later.
pub proof fn lemma_voting_window_is_inclusive(
    g: GovernanceView,
    pid: u32,
    option: u32,
    caller: ActorId,
)
    requires
        g.wf(),
        g.is_registered(caller),
        g.has_proposal(pid),
        g.proposal(pid).status == ProposalStatus::Active,
        !g.has_voted(pid, caller),
        option < g.proposal(pid).options.len(),
    ensures
        g.vote_outcome(pid, option, caller, g.proposal(pid).voting_end) is Ok,
        g.proposal(pid).voting_end < u32::MAX ==> g.vote_outcome(
            pid,
            option,
            caller,
            (g.proposal(pid).voting_end + 1) as u32,
        ) == Err::<(), Error>(Error::VotingPeriodEnded),
{
    lemma_vote_never_overflows(g, pid, option, caller, g.proposal(pid).voting_end);
}

/// Under the invariant a vote never fails for overflow: a proposal's counts
/// add up to its voters, who are fewer than the registered voters while
/// someone registered has yet to vote.
pub proof fn lemma_vote_never_overflows(
    g: GovernanceView,
    pid: u32,
    option: u32,
    caller: ActorId,
    now: u32,
)
    requires
        g.wf(),
    ensures
        g.vote_outcome(pid, option, caller, now) != Err::<(), Error>(Error::ArithmeticOverflow),
{
    if g.is_registered(caller) && g.has_proposal(pid) && !g.has_voted(pid, caller) && option
        < g.proposal(pid).options.len() {
        let p = g.proposal(pid);
        assert(g.proposals[pid - 1].wf());
        lemma_count_at_most_sum(p.vote_counts, option as int);
        crate::governance::lemma_open_voter_bound(g, pid, caller);
    }
}

/// With no registered voters quorum is never reached, whatever the counts.
pub proof fn lemma_no_quorum_without_voters(percent: nat, counts: Seq<u128>)
    ensures
        !quorum_reached(0, percent, counts),
{
}

/// A passed proposal cannot be executed before its execution time; from that
/// block on it can, and it is then `Executed`.
pub proof fn lemma_execution_waits_for_time_lock(g: GovernanceView, pid: u32, now: u32)
    requires
        g.has_proposal(pid),
        g.proposal(pid).status == ProposalStatus::Passed,
    ensures
        now < g.proposal(pid).execution_time ==> g.execute_outcome(pid, now) == Err::<(), Error>(
            Error::ProposalNotReadyForExecution,
        ) && g.after_execute(pid, now) == g,
        now >= g.proposal(pid).execution_time ==> g.execute_outcome(pid, now) is Ok
            && g.after_execute(pid, now).proposal(pid).status == ProposalStatus::Executed,
{
}

/// Registering the same actor again succeeds and changes nothing, so the
/// voter count stays where the first call left it.
pub proof fn lemma_register_idempotent(g: GovernanceView, caller: ActorId)
    ensures
        g.after_register(caller).after_register(caller) == g.after_register(caller),
        g.after_register(caller).after_register(caller).total_voters == g.after_register(
            caller,
        ).total_voters,
        g.register_outcome(caller) is Ok ==> g.after_register(caller).register_outcome(caller) is Ok,
{
    let h = g.after_register(caller);
    if !g.is_registered(caller) && g.total_voters != u32::MAX {
        assert(h.registered_voters[g.registered_voters.len() as int] == caller);
        assert(h.is_registered(caller));
    }
}

/// Proposal ids are the positions 1, 2, 3, ... in creation order: a
/// successful creation takes the next one and appends it to the id list, and
/// a refused creation consumes none.
pub proof fn lemma_ids_sequential(
    g: GovernanceView,
    title: String,
    description: String,
    proposal_type: crate::params::ProposalType,
    params: GovernanceParameters,
    options: Seq<String>,
    caller: ActorId,
    now: u32,
)
    requires
        g.wf(),
    ensures
        forall|i: int| 0 <= i < g.proposal_ids.len() ==> #[trigger] g.proposal_ids[i] == i + 1,
        match g.create_outcome(params, options.len(), now) {
            Ok(id) => {
                let h = g.after_create(title, description, proposal_type, params, options, caller, now);
                &&& id == g.proposal_ids.len() + 1
                &&& h.proposal_ids == g.proposal_ids.push(id)
                &&& h.next_proposal_id == id + 1
            },
            Err(_) => g.after_create(title, description, proposal_type, params, options, caller, now)
                == g,
        },
{
}

/// The allowed moves of a proposal's status: staying, `Active` to `Passed` or
/// `Rejected`, and `Passed` to `Executed`.
pub open spec fn status_step(from: ProposalStatus, to: ProposalStatus) -> bool {
    ||| from == to
    ||| from == ProposalStatus::Active && (to == ProposalStatus::Passed || to
        == ProposalStatus::Rejected)
    ||| from == ProposalStatus::Passed && to == ProposalStatus::Executed
}

/// Deciding and executing only move statuses forward along the lifecycle; no
/// proposal is added or removed.
pub proof fn lemma_status_moves_forward(g: GovernanceView, pid: u32, now: u32)
    ensures
        g.after_update_status(pid, now).proposals.len() == g.proposals.len(),
        g.after_execute(pid, now).proposals.len() == g.proposals.len(),
        forall|i: int|
            0 <= i < g.proposals.len() ==> status_step(
                g.proposals[i].status,
                #[trigger] g.after_update_status(pid, now).proposals[i].status,
            ),
        forall|i: int|
            0 <= i < g.proposals.len() ==> status_step(
                g.proposals[i].status,
                #[trigger] g.after_execute(pid, now).proposals[i].status,
            ),
{
}

} // verus!
