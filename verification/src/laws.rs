use crate::error::CustomError;
use crate::model::{
    lemma_cast_vote_wf, lemma_create_campaign_wf, lemma_total_votes_fresh, lemma_total_votes_with_vote,
    LedgerView, Request,
};
use crate::pubkey::Pubkey;
use crate::seeds::{campaign_address, receipt_address};
use crate::state::{total_votes, ProposalView, VoteReceipt};
use crate::validation::checked_campaign;
use vstd::prelude::*;

verus! {

/// A campaign that was opened ends exactly `duration` seconds after it was
/// created, and is what a read of its address gives.
pub proof fn created_campaign_runs_for_its_duration(
    ledger: LedgerView,
    creator: Pubkey,
    description: Seq<char>,
    proposals: Seq<Seq<char>>,
    duration: int,
    now: int,
)
    ensures
        ({
            let (after, answer) = ledger.create_campaign(creator, description, proposals, duration, now);
            answer matches Ok(at) ==> {
                &&& after.campaigns.contains_key(at)
                &&& after.campaigns[at].created_at == now
                &&& after.campaigns[at].ends_at - after.campaigns[at].created_at == duration
            }
        }),
{
}

/// A request to open a campaign that is granted stores one record more and
/// changes nothing else: the new campaign is stored under the address of its
/// creator and description, where nothing was stored; it is as the request
/// described it, with its proposals in their order; and it has no votes and
/// no receipts. A request that is turned down changes nothing.
pub proof fn granted_creation_stores_a_campaign_without_votes(
    ledger: LedgerView,
    creator: Pubkey,
    description: Seq<char>,
    proposals: Seq<Seq<char>>,
    duration: int,
    now: int,
)
    requires
        ledger.wf(),
    ensures
        ({
            let (after, answer) = ledger.create_campaign(creator, description, proposals, duration, now);
            &&& answer is Err ==> after == ledger
            &&& answer matches Ok(at) ==> {
                let new = after.campaigns[at];
                &&& campaign_address(ledger.program_id, creator, description) == Some(at)
                &&& !ledger.campaigns.contains_key(at)
                &&& after.campaigns == ledger.campaigns.insert(at, new)
                &&& after.receipts == ledger.receipts
                &&& after.program_id == ledger.program_id
                &&& new.description == description
                &&& new.creator == creator
                &&& new.created_at == now
                &&& new.ends_at == now + duration
                &&& new.polls.len() == proposals.len()
                &&& forall|i: int|
                    0 <= i < proposals.len() ==> #[trigger] new.polls[i] == (ProposalView {
                        votes: 0,
                        description: proposals[i],
                    })
                &&& total_votes(new.polls) == 0
                &&& after.receipts_of(at).len() == 0
            }
        }),
{
    let (after, answer) = ledger.create_campaign(creator, description, proposals, duration, now);
    if answer is Ok {
        lemma_create_campaign_wf(ledger, creator, description, proposals, duration, now);
        lemma_total_votes_fresh(proposals);
        assert(after.campaign_wf(answer->Ok_0));
    }
}

/// While a campaign is stored, no request to open one of its creator and
/// description is granted: with inputs that pass the checks it is turned
/// down as [`CustomError::AlreadyExists`], whatever the proposals, the
/// duration and the time, and the ledger stays as it is.
pub proof fn stored_campaign_is_not_opened_again(
    ledger: LedgerView,
    at: Pubkey,
    proposals: Seq<Seq<char>>,
    duration: int,
    now: int,
)
    requires
        ledger.wf(),
        ledger.campaigns.contains_key(at),
    ensures
        ({
            let stored = ledger.campaigns[at];
            let (after, answer) = ledger.create_campaign(
                stored.creator,
                stored.description,
                proposals,
                duration,
                now,
            );
            &&& answer is Err
            &&& after == ledger
            &&& checked_campaign(stored.description, proposals, duration) is Ok ==> answer == Err::<
                Pubkey,
                CustomError,
            >(CustomError::AlreadyExists)
        }),
{
    assert(ledger.campaign_wf(at));
}

/// A ledger with nothing stored is well formed, and both requests keep a
/// ledger well formed, whatever they ask and however they are answered.
pub proof fn requests_keep_the_ledger_well_formed(
    ledger: LedgerView,
    creator: Pubkey,
    description: Seq<char>,
    proposals: Seq<Seq<char>>,
    duration: int,
    campaign: Pubkey,
    voter: Pubkey,
    poll_index: u8,
    now: int,
)
    requires
        ledger.wf(),
    ensures
        LedgerView::empty(ledger.program_id).wf(),
        ledger.create_campaign(creator, description, proposals, duration, now).0.wf(),
        ledger.cast_vote(campaign, voter, poll_index, now).0.wf(),
{
    lemma_create_campaign_wf(ledger, creator, description, proposals, duration, now);
    lemma_cast_vote_wf(ledger, campaign, voter, poll_index, now);
}

/// In a well-formed ledger the votes of a campaign, summed over its polls,
/// are as many as the receipts given out in it; and each poll counts as many
/// votes as receipts name it.
pub proof fn votes_equal_receipts(ledger: LedgerView, campaign: Pubkey, poll_index: int)
    requires
        ledger.wf(),
        ledger.campaigns.contains_key(campaign),
    ensures
        total_votes(ledger.campaigns[campaign].polls) == ledger.receipts_of(campaign).len(),
        0 <= poll_index < ledger.campaigns[campaign].polls.len() ==> ledger.campaigns[campaign].polls[poll_index].votes
            == ledger.receipts_for(campaign, poll_index).len(),
{
    assert(ledger.campaign_wf(campaign));
    if 0 <= poll_index < ledger.campaigns[campaign].polls.len() {
        assert(ledger.poll_audited(campaign, poll_index));
    }
}

/// After any requests to a ledger that started with nothing stored, the
/// ledger is well formed: in every campaign the votes, summed over its polls,
/// are as many as the receipts given out in it.
pub proof fn votes_equal_receipts_after_any_requests(program_id: Pubkey, requests: Seq<Request>, campaign: Pubkey)
    ensures
        LedgerView::empty(program_id).after_all(requests).wf(),
        ({
            let ledger = LedgerView::empty(program_id).after_all(requests);
            ledger.campaigns.contains_key(campaign) ==> total_votes(ledger.campaigns[campaign].polls)
                == ledger.receipts_of(campaign).len()
        }),
    decreases requests.len(),
{
    let start = LedgerView::empty(program_id);
    if requests.len() > 0 {
        let front = requests.drop_last();
        votes_equal_receipts_after_any_requests(program_id, front, campaign);
        let before = start.after_all(front);
        assert(requests.last() == requests[requests.len() - 1]);
        match requests.last() {
            Request::Create { creator, description, proposals, duration, now } => {
                lemma_create_campaign_wf(before, creator, description, proposals, duration, now);
            },
            Request::Vote { campaign, voter, poll_index, now } => {
                lemma_cast_vote_wf(before, campaign, voter, poll_index, now);
            },
        }
    }
    let ledger = start.after_all(requests);
    if ledger.campaigns.contains_key(campaign) {
        assert(ledger.campaign_wf(campaign));
    }
}

/// A request that is turned down changes nothing.
pub proof fn rejection_changes_nothing(
    ledger: LedgerView,
    creator: Pubkey,
    description: Seq<char>,
    proposals: Seq<Seq<char>>,
    duration: int,
    campaign: Pubkey,
    voter: Pubkey,
    poll_index: u8,
    now: int,
)
    ensures
        ({
            let (after, answer) = ledger.create_campaign(creator, description, proposals, duration, now);
            answer is Err ==> after == ledger
        }),
        ({
            let (after, answer) = ledger.cast_vote(campaign, voter, poll_index, now);
            answer is Err ==> after == ledger
        }),
{
}

/// No request takes a record away. A campaign that is stored keeps its
/// description, its creator, its times and its proposals in their order; all
/// that changes is that a poll may count more votes. A receipt that is stored
/// stays as it is.
pub proof fn records_stay(
    ledger: LedgerView,
    creator: Pubkey,
    description: Seq<char>,
    proposals: Seq<Seq<char>>,
    duration: int,
    campaign: Pubkey,
    voter: Pubkey,
    poll_index: u8,
    now: int,
    at: Pubkey,
)
    ensures
        ({
            let after = ledger.create_campaign(creator, description, proposals, duration, now).0;
            &&& ledger.campaigns.contains_key(at) ==> after.campaigns.contains_key(at) && after.campaigns[at]
                == ledger.campaigns[at]
            &&& after.receipts == ledger.receipts
        }),
        ({
            let after = ledger.cast_vote(campaign, voter, poll_index, now).0;
            &&& ledger.campaigns.contains_key(at) ==> {
                let was = ledger.campaigns[at];
                let is = after.campaigns[at];
                &&& after.campaigns.contains_key(at)
                &&& is.description == was.description
                &&& is.creator == was.creator
                &&& is.created_at == was.created_at
                &&& is.ends_at == was.ends_at
                &&& is.polls.len() == was.polls.len()
                &&& forall|i: int|
                    0 <= i < was.polls.len() ==> (#[trigger] is.polls[i]).description == was.polls[i].description
                        && is.polls[i].votes >= was.polls[i].votes
            }
            &&& ledger.receipts.contains_key(at) ==> after.receipts.contains_key(at) && after.receipts[at]
                == ledger.receipts[at]
        }),
{
}

/// In a well-formed ledger no two campaigns have one creator and one
/// description, and no two receipts have one campaign and one voter.
pub proof fn stored_once(ledger: LedgerView, first: Pubkey, second: Pubkey)
    requires
        ledger.wf(),
    ensures
        ledger.campaigns.contains_key(first) && ledger.campaigns.contains_key(second)
            && ledger.campaigns[first].creator == ledger.campaigns[second].creator
            && ledger.campaigns[first].description == ledger.campaigns[second].description ==> first == second,
        ledger.receipts.contains_key(first) && ledger.receipts.contains_key(second)
            && ledger.receipts[first].campaign == ledger.receipts[second].campaign
            && ledger.receipts[first].voter == ledger.receipts[second].voter ==> first == second,
{
    if ledger.campaigns.contains_key(first) && ledger.campaigns.contains_key(second) {
        assert(ledger.campaign_wf(first));
        assert(ledger.campaign_wf(second));
    }
    if ledger.receipts.contains_key(first) && ledger.receipts.contains_key(second) {
        assert(ledger.receipt_wf(first));
        assert(ledger.receipt_wf(second));
    }
}

/// Of two requests to open a campaign of one creator and one description,
/// made one after the other in either order, at most one is granted; and
/// exactly one is, if either would be granted when made alone. Where the
/// first is granted and the second passes the checks on its inputs, the
/// second is turned down as [`CustomError::AlreadyExists`].
pub proof fn one_campaign_per_creator_and_description(
    ledger: LedgerView,
    creator: Pubkey,
    description: Seq<char>,
    proposals_1: Seq<Seq<char>>,
    duration_1: int,
    now_1: int,
    proposals_2: Seq<Seq<char>>,
    duration_2: int,
    now_2: int,
)
    ensures
        ({
            let alone_1 = ledger.create_campaign(creator, description, proposals_1, duration_1, now_1).1;
            let alone_2 = ledger.create_campaign(creator, description, proposals_2, duration_2, now_2).1;
            let (between, first) = ledger.create_campaign(creator, description, proposals_1, duration_1, now_1);
            let (after, second) = between.create_campaign(creator, description, proposals_2, duration_2, now_2);
            &&& !(first is Ok && second is Ok)
            &&& (alone_1 is Ok || alone_2 is Ok) ==> (first is Ok || second is Ok)
            &&& first is Ok && checked_campaign(description, proposals_2, duration_2) is Ok
                ==> second == Err::<Pubkey, CustomError>(CustomError::AlreadyExists)
            &&& first is Ok ==> after == between
        }),
{
}

/// What comes of the requests `calls` of one voter in one campaign, made one
/// after the other: the ledger after them, how many were granted, and how
/// many were turned down as [`CustomError::AlreadyVoted`]. Each call gives
/// the poll voted for and the time of the vote.
pub open spec fn votes_in_turn(ledger: LedgerView, campaign: Pubkey, voter: Pubkey, calls: Seq<(u8, int)>) -> (
    LedgerView,
    nat,
    nat,
)
    decreases calls.len(),
{
    if calls.len() == 0 {
        (ledger, 0, 0)
    } else {
        let (before, granted, repeated) = votes_in_turn(ledger, campaign, voter, calls.drop_last());
        let (after, answer) = before.cast_vote(campaign, voter, calls.last().0, calls.last().1);
        (
            after,
            if answer is Ok {
                granted + 1
            } else {
                granted
            },
            if answer == Err::<VoteReceipt, CustomError>(CustomError::AlreadyVoted) {
                repeated + 1
            } else {
                repeated
            },
        )
    }
}

/// Of any number of votes of one voter in one campaign, exactly one is
/// granted, the first, and every other is turned down as
/// [`CustomError::AlreadyVoted`]. This holds where each vote is in time and
/// names a poll of the campaign, and where the address of the voter's
/// receipt is found and nothing is stored under it. Afterwards the ledger is
/// as after the first vote alone: the voter has one receipt, which names the
/// poll of the first vote, and the campaign counts one vote more, on that
/// poll.
pub proof fn one_vote_per_voter(ledger: LedgerView, campaign: Pubkey, voter: Pubkey, calls: Seq<(u8, int)>)
    requires
        ledger.wf(),
        ledger.campaigns.contains_key(campaign),
        calls.len() > 0,
        forall|i: int|
            0 <= i < calls.len() ==> (#[trigger] calls[i]).0 < ledger.campaigns[campaign].polls.len() && calls[i].1
                <= ledger.campaigns[campaign].ends_at,
        receipt_address(ledger.program_id, campaign, voter) is Some,
        !ledger.receipts.contains_key(receipt_address(ledger.program_id, campaign, voter)->0),
    ensures
        votes_in_turn(ledger, campaign, voter, calls).1 == 1,
        votes_in_turn(ledger, campaign, voter, calls).2 == calls.len() - 1,
        ({
            let after = votes_in_turn(ledger, campaign, voter, calls).0;
            let at = receipt_address(ledger.program_id, campaign, voter)->0;
            let poll = calls[0].0 as int;
            &&& after == ledger.cast_vote(campaign, voter, calls[0].0, calls[0].1).0
            &&& after.receipts == ledger.receipts.insert(at, VoteReceipt { campaign, voter, poll_index: calls[0].0 })
            &&& forall|other: Pubkey|
                after.receipts.contains_key(other) && after.receipts[other].campaign == campaign
                    && after.receipts[other].voter == voter ==> other == at
            &&& after.receipts_of(campaign).len() == ledger.receipts_of(campaign).len() + 1
            &&& total_votes(after.campaigns[campaign].polls) == total_votes(ledger.campaigns[campaign].polls) + 1
            &&& after.campaigns[campaign].polls[poll].votes == ledger.campaigns[campaign].polls[poll].votes + 1
        }),
    decreases calls.len(),
{
    let first = ledger.cast_vote(campaign, voter, calls[0].0, calls[0].1);
    assert(first.1 is Ok);
    if calls.len() == 1 {
        assert(calls.drop_last().len() == 0);
        assert(votes_in_turn(ledger, campaign, voter, calls.drop_last()) == (ledger, 0nat, 0nat));
    } else {
        let front = calls.drop_last();
        assert forall|i: int| 0 <= i < front.len() implies (#[trigger] front[i]).0
            < ledger.campaigns[campaign].polls.len() && front[i].1 <= ledger.campaigns[campaign].ends_at by {
            assert(front[i] == calls[i]);
        }
        one_vote_per_voter(ledger, campaign, voter, front);
        assert(front[0] == calls[0]);
        let last = calls[calls.len() - 1];
        assert(last.0 < ledger.campaigns[campaign].polls.len() && last.1 <= ledger.campaigns[campaign].ends_at);
    }
    let after = first.0;
    let at = receipt_address(ledger.program_id, campaign, voter)->0;
    lemma_cast_vote_wf(ledger, campaign, voter, calls[0].0, calls[0].1);
    lemma_total_votes_with_vote(ledger.campaigns[campaign].polls, calls[0].0 as int);
    assert(ledger.campaign_wf(campaign));
    assert(after.campaign_wf(campaign));
    assert forall|other: Pubkey|
        after.receipts.contains_key(other) && after.receipts[other].campaign == campaign
            && after.receipts[other].voter == voter implies other == at by {
        assert(after.receipt_wf(other));
    }
}

/// The votes of two voters whose receipts have different addresses, each of
/// which would be granted if it were made alone, are both granted when made
/// one after the other, and the campaign counts two votes more: no vote is
/// lost, also where both name one poll.
pub proof fn votes_of_two_voters_both_count(
    ledger: LedgerView,
    campaign: Pubkey,
    first: Pubkey,
    first_poll: u8,
    first_now: int,
    second: Pubkey,
    second_poll: u8,
    second_now: int,
)
    requires
        ledger.cast_vote(campaign, first, first_poll, first_now).1 is Ok,
        ledger.cast_vote(campaign, second, second_poll, second_now).1 is Ok,
        receipt_address(ledger.program_id, campaign, first) != receipt_address(ledger.program_id, campaign, second),
    ensures
        ({
            let (between, first_answer) = ledger.cast_vote(campaign, first, first_poll, first_now);
            let (after, second_answer) = between.cast_vote(campaign, second, second_poll, second_now);
            &&& first_answer is Ok
            &&& second_answer is Ok
            &&& total_votes(after.campaigns[campaign].polls) == total_votes(ledger.campaigns[campaign].polls) + 2
        }),
{
    let between = ledger.cast_vote(campaign, first, first_poll, first_now).0;
    lemma_total_votes_with_vote(ledger.campaigns[campaign].polls, first_poll as int);
    lemma_total_votes_with_vote(between.campaigns[campaign].polls, second_poll as int);
}

/// A vote that comes after the campaign's end is turned down as
/// [`CustomError::CampaignExpired`], whoever casts it and whatever poll it
/// names; one that comes at the campaign's last second is not.
pub proof fn late_votes_are_turned_down(ledger: LedgerView, campaign: Pubkey, voter: Pubkey, poll_index: u8, now: int)
    requires
        ledger.campaigns.contains_key(campaign),
    ensures
        now > ledger.campaigns[campaign].ends_at ==> ledger.cast_vote(campaign, voter, poll_index, now).1 == Err::<VoteReceipt, CustomError>(
            CustomError::CampaignExpired,
        ),
        now <= ledger.campaigns[campaign].ends_at ==> ledger.cast_vote(campaign, voter, poll_index, now).1 != Err::<VoteReceipt, CustomError>(
            CustomError::CampaignExpired,
        ),
{
}

} // verus!
