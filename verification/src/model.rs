use crate::error::CustomError;
use crate::pubkey::Pubkey;
use crate::seeds::{campaign_address, receipt_address};
use crate::state::{fresh_polls, opened, total_votes, CampaignView, ProposalView, VoteReceipt};
use crate::validation::{checked_campaign, checked_vote, lemma_opened_wf};
use vstd::prelude::*;
use vstd::set_lib::lemma_set_subset_finite;

verus! {

/// What a ledger holds: the campaigns and the receipts of one program, each
/// under its address.
pub struct LedgerView {
    pub program_id: Pubkey,
    pub campaigns: Map<Pubkey, CampaignView>,
    pub receipts: Map<Pubkey, VoteReceipt>,
}

impl LedgerView {
    /// The ledger of `program_id` before anything is stored in it.
    pub open spec fn empty(program_id: Pubkey) -> LedgerView {
        LedgerView { program_id, campaigns: Map::empty(), receipts: Map::empty() }
    }

    /// The addresses of the receipts given out in `campaign`.
    pub open spec fn receipts_of(self, campaign: Pubkey) -> Set<Pubkey> {
        Set::new(|at: Pubkey| self.receipts.contains_key(at) && self.receipts[at].campaign == campaign)
    }

    /// The addresses of the receipts given out in `campaign` for the poll at
    /// `poll_index`.
    pub open spec fn receipts_for(self, campaign: Pubkey, poll_index: int) -> Set<Pubkey> {
        Set::new(
            |at: Pubkey|
                self.receipts.contains_key(at) && self.receipts[at].campaign == campaign
                    && self.receipts[at].poll_index == poll_index,
        )
    }

    /// Whether the poll at `poll_index` of `campaign` counts as many votes as
    /// receipts were given out for it.
    pub open spec fn poll_audited(self, campaign: Pubkey, poll_index: int) -> bool {
        self.campaigns[campaign].polls[poll_index].votes == self.receipts_for(campaign, poll_index).len()
    }

    /// What holds of the campaign stored under `at`: it is well formed, `at`
    /// is the address of its creator and description, and its votes, in all
    /// and poll by poll, are as many as the receipts given out in it.
    pub open spec fn campaign_wf(self, at: Pubkey) -> bool {
        let campaign = self.campaigns[at];
        &&& campaign.wf()
        &&& campaign_address(self.program_id, campaign.creator, campaign.description) == Some(at)
        &&& total_votes(campaign.polls) == self.receipts_of(at).len()
        &&& forall|i: int| 0 <= i < campaign.polls.len() ==> #[trigger] self.poll_audited(at, i)
    }

    /// What holds of the receipt stored under `at`: its campaign is stored,
    /// it names one of the campaign's polls, and `at` is the address of its
    /// campaign and voter.
    pub open spec fn receipt_wf(self, at: Pubkey) -> bool {
        let receipt = self.receipts[at];
        &&& self.campaigns.contains_key(receipt.campaign)
        &&& receipt.poll_index < self.campaigns[receipt.campaign].polls.len()
        &&& receipt_address(self.program_id, receipt.campaign, receipt.voter) == Some(at)
    }

    /// What holds of a ledger after any requests.
    pub open spec fn wf(self) -> bool {
        &&& self.campaigns.dom().finite()
        &&& self.receipts.dom().finite()
        &&& forall|at: Pubkey| self.campaigns.contains_key(at) ==> #[trigger] self.campaign_wf(at)
        &&& forall|at: Pubkey| self.receipts.contains_key(at) ==> #[trigger] self.receipt_wf(at)
    }

    /// The ledger after the request of `creator` to open a campaign at `now`,
    /// and the answer to it.
    ///
    /// The inputs are checked first. Then the campaign's address is derived
    /// from the creator and the description; a campaign that is stored there
    /// already stays as it is. Else the campaign must end no later than the
    /// last second that can be told; then it is stored, and its address is
    /// the answer.
    pub open spec fn create_campaign(
        self,
        creator: Pubkey,
        description: Seq<char>,
        proposals: Seq<Seq<char>>,
        duration: int,
        now: int,
    ) -> (LedgerView, Result<Pubkey, CustomError>) {
        match checked_campaign(description, proposals, duration) {
            Err(fault) => (self, Err(fault)),
            Ok(_) => match campaign_address(self.program_id, creator, description) {
                None => (self, Err(CustomError::AddressUnavailable)),
                Some(at) => if self.campaigns.contains_key(at) {
                    (self, Err(CustomError::AlreadyExists))
                } else if now + duration > i64::MAX {
                    (self, Err(CustomError::ClockUnavailable))
                } else {
                    (
                        LedgerView {
                            campaigns: self.campaigns.insert(
                                at,
                                opened(creator, description, proposals, now, duration),
                            ),
                            ..self
                        },
                        Ok(at),
                    )
                },
            },
        }
    }

    /// The ledger after the request of `voter` to vote at `now` for the poll
    /// at `poll_index` of `campaign`, and the answer to it.
    ///
    /// The campaign must be stored, and the vote must pass the checks. Then
    /// the receipt's address is derived from the campaign and the voter; if a
    /// receipt is stored there already, the voter has voted, and nothing
    /// changes. Else the receipt is stored and the poll counts one vote more.
    pub open spec fn cast_vote(self, campaign: Pubkey, voter: Pubkey, poll_index: u8, now: int) -> (
        LedgerView,
        Result<VoteReceipt, CustomError>,
    ) {
        if !self.campaigns.contains_key(campaign) {
            (self, Err(CustomError::CampaignNotFound))
        } else {
            match checked_vote(self.campaigns[campaign], poll_index as int, now) {
                Err(fault) => (self, Err(fault)),
                Ok(_) => match receipt_address(self.program_id, campaign, voter) {
                    None => (self, Err(CustomError::AddressUnavailable)),
                    Some(at) => if self.receipts.contains_key(at) {
                        (self, Err(CustomError::AlreadyVoted))
                    } else {
                        let receipt = VoteReceipt { campaign, voter, poll_index };
                        (
                            LedgerView {
                                campaigns: self.campaigns.insert(
                                    campaign,
                                    self.campaigns[campaign].with_vote(poll_index as int),
                                ),
                                receipts: self.receipts.insert(at, receipt),
                                ..self
                            },
                            Ok(receipt),
                        )
                    },
                },
            }
        }
    }
}

/// A request to a ledger, with the time at which it is made.
pub enum Request {
    /// `creator` asks to open a campaign.
    Create { creator: Pubkey, description: Seq<char>, proposals: Seq<Seq<char>>, duration: int, now: int },
    /// `voter` asks to vote for the poll at `poll_index` of `campaign`.
    Vote { campaign: Pubkey, voter: Pubkey, poll_index: u8, now: int },
}

impl LedgerView {
    /// The ledger after `request`, granted or not.
    pub open spec fn after(self, request: Request) -> LedgerView {
        match request {
            Request::Create { creator, description, proposals, duration, now } => self.create_campaign(
                creator,
                description,
                proposals,
                duration,
                now,
            ).0,
            Request::Vote { campaign, voter, poll_index, now } => self.cast_vote(
                campaign,
                voter,
                poll_index,
                now,
            ).0,
        }
    }

    /// The ledger after `requests`, made one after the other.
    pub open spec fn after_all(self, requests: Seq<Request>) -> LedgerView
        decreases requests.len(),
    {
        if requests.len() == 0 {
            self
        } else {
            self.after_all(requests.drop_last()).after(requests.last())
        }
    }
}

/// One more vote for a poll is one more vote in all.
pub proof fn lemma_total_votes_with_vote(polls: Seq<ProposalView>, i: int)
    requires
        0 <= i < polls.len(),
    ensures
        total_votes(polls.update(i, ProposalView { votes: polls[i].votes + 1, ..polls[i] })) == total_votes(
            polls,
        ) + 1,
    decreases polls.len(),
{
    let voted = polls.update(i, ProposalView { votes: polls[i].votes + 1, ..polls[i] });
    if i == polls.len() - 1 {
        assert(voted.drop_last() =~= polls.drop_last());
    } else {
        lemma_total_votes_with_vote(polls.drop_last(), i);
        assert(voted.drop_last() =~= polls.drop_last().update(
            i,
            ProposalView { votes: polls[i].votes + 1, ..polls[i] },
        ));
    }
}

/// Fresh polls hold no votes.
pub proof fn lemma_total_votes_fresh(proposals: Seq<Seq<char>>)
    ensures
        total_votes(fresh_polls(proposals)) == 0,
    decreases proposals.len(),
{
    if proposals.len() > 0 {
        lemma_total_votes_fresh(proposals.drop_last());
        assert(fresh_polls(proposals).drop_last() =~= fresh_polls(proposals.drop_last()));
    }
}

/// Opening a campaign keeps the ledger well formed.
pub proof fn lemma_create_campaign_wf(
    ledger: LedgerView,
    creator: Pubkey,
    description: Seq<char>,
    proposals: Seq<Seq<char>>,
    duration: int,
    now: int,
)
    requires
        ledger.wf(),
    ensures
        ledger.create_campaign(creator, description, proposals, duration, now).0.wf(),
{
    let (after, answer) = ledger.create_campaign(creator, description, proposals, duration, now);
    if answer is Ok {
        let new = answer->Ok_0;
        let campaign = opened(creator, description, proposals, now, duration);
        lemma_opened_wf(creator, description, proposals, now, duration);
        lemma_total_votes_fresh(proposals);
        assert forall|at: Pubkey| after.receipts.contains_key(at) implies #[trigger] after.receipt_wf(at) by {
            assert(ledger.receipt_wf(at));
        }
        assert forall|at: Pubkey| after.campaigns.contains_key(at) implies #[trigger] after.campaign_wf(
            at,
        ) by {
            if at == new {
                assert(after.receipts_of(at) =~= Set::empty()) by {
                    assert forall|r: Pubkey| !after.receipts_of(at).contains(r) by {
                        if ledger.receipts.contains_key(r) {
                            assert(ledger.receipt_wf(r));
                        }
                    }
                }
                assert forall|i: int| 0 <= i < campaign.polls.len() implies #[trigger] after.poll_audited(
                    at,
                    i,
                ) by {
                    assert(after.receipts_for(at, i) =~= Set::empty()) by {
                        assert forall|r: Pubkey| !after.receipts_for(at, i).contains(r) by {
                            if ledger.receipts.contains_key(r) {
                                assert(ledger.receipt_wf(r));
                            }
                        }
                    }
                }
            } else {
                assert(ledger.campaign_wf(at));
                assert(after.receipts_of(at) =~= ledger.receipts_of(at));
                assert forall|i: int| 0 <= i < after.campaigns[at].polls.len() implies #[trigger] after.poll_audited(
                    at,
                    i,
                ) by {
                    assert(ledger.poll_audited(at, i));
                    assert(after.receipts_for(at, i) =~= ledger.receipts_for(at, i));
                }
            }
        }
    }
}

/// Casting a vote keeps the ledger well formed.
pub proof fn lemma_cast_vote_wf(ledger: LedgerView, campaign: Pubkey, voter: Pubkey, poll_index: u8, now: int)
    requires
        ledger.wf(),
    ensures
        ledger.cast_vote(campaign, voter, poll_index, now).0.wf(),
{
    let (after, answer) = ledger.cast_vote(campaign, voter, poll_index, now);
    if answer is Ok {
        let new = receipt_address(ledger.program_id, campaign, voter)->Some_0;
        let before = ledger.campaigns[campaign];
        assert(ledger.campaign_wf(campaign));
        assert forall|at: Pubkey| after.receipts.contains_key(at) implies #[trigger] after.receipt_wf(at) by {
            if at != new {
                assert(ledger.receipt_wf(at));
            }
        }
        assert forall|at: Pubkey| after.campaigns.contains_key(at) implies #[trigger] after.campaign_wf(
            at,
        ) by {
            assert(ledger.campaign_wf(at));
            if at == campaign {
                lemma_total_votes_with_vote(before.polls, poll_index as int);
                lemma_set_subset_finite(ledger.receipts.dom(), ledger.receipts_of(at));
                assert(after.receipts_of(at) =~= ledger.receipts_of(at).insert(new));
                assert forall|i: int| 0 <= i < before.polls.len() implies (#[trigger] after.campaigns[at].polls[i]).wf() by {
                    assert(before.polls[i].wf());
                }
                assert forall|i: int| 0 <= i < after.campaigns[at].polls.len() implies #[trigger] after.poll_audited(
                    at,
                    i,
                ) by {
                    assert(ledger.poll_audited(at, i));
                    lemma_set_subset_finite(ledger.receipts.dom(), ledger.receipts_for(at, i));
                    if i == poll_index {
                        assert(after.receipts_for(at, i) =~= ledger.receipts_for(at, i).insert(new));
                    } else {
                        assert(after.receipts_for(at, i) =~= ledger.receipts_for(at, i));
                    }
                }
            } else {
                assert(after.receipts_of(at) =~= ledger.receipts_of(at));
                assert forall|i: int| 0 <= i < after.campaigns[at].polls.len() implies #[trigger] after.poll_audited(
                    at,
                    i,
                ) by {
                    assert(ledger.poll_audited(at, i));
                    assert(after.receipts_for(at, i) =~= ledger.receipts_for(at, i));
                }
            }
        }
    }
}

} // verus!
