use crate::pubkey::Pubkey;
use crate::text::{byte_len, is_blank, text_views};
use crate::validation::{MAX_CAMPAIGN_DURATION_SECS, MAX_PROPOSALS, MIN_CAMPAIGN_DURATION_SECS};
use vstd::prelude::*;

verus! {

/// The most bytes that a campaign's description can take.
pub const MAX_DESCRIPTION_LEN: usize = 100;

/// The most bytes that a proposal's description can take.
pub const MAX_PROPOSAL_LEN: usize = 80;

/// One option of a campaign, with the votes it has gathered.
#[derive(Debug, Clone, Default, PartialEq, Eq)]
pub struct ProposalEntry {
    pub votes: u64,
    pub description: String,
}

/// What a [`ProposalEntry`] stands for.
pub struct ProposalView {
    pub votes: nat,
    pub description: Seq<char>,
}

impl View for ProposalEntry {
    type V = ProposalView;

    open spec fn view(&self) -> ProposalView {
        ProposalView { votes: self.votes as nat, description: self.description@ }
    }
}

/// A time-bounded vote among the proposals in `polls`.
#[derive(Debug, Clone, Default, PartialEq, Eq)]
pub struct Campaign {
    pub description: String,
    pub creator: Pubkey,
    pub polls: Vec<ProposalEntry>,
    pub created_at: i64,
    pub ends_at: i64,
}

/// What a [`Campaign`] stands for.
pub struct CampaignView {
    pub description: Seq<char>,
    pub creator: Pubkey,
    pub polls: Seq<ProposalView>,
    pub created_at: int,
    pub ends_at: int,
}

impl View for Campaign {
    type V = CampaignView;

    open spec fn view(&self) -> CampaignView {
        CampaignView {
            description: self.description@,
            creator: self.creator,
            polls: self.polls@.map_values(|p: ProposalEntry| p@),
            created_at: self.created_at as int,
            ends_at: self.ends_at as int,
        }
    }
}

/// The mark that a voter leaves in a campaign: it exists exactly if the vote
/// was cast.
#[derive(Debug, Clone, Copy, Default, PartialEq, Eq)]
pub struct VoteReceipt {
    pub campaign: Pubkey,
    pub voter: Pubkey,
    pub poll_index: u8,
}

impl View for VoteReceipt {
    type V = VoteReceipt;

    open spec fn view(&self) -> VoteReceipt {
        *self
    }
}

/// The sum of the votes of `polls`.
pub open spec fn total_votes(polls: Seq<ProposalView>) -> nat
    decreases polls.len(),
{
    if polls.len() == 0 {
        0
    } else {
        total_votes(polls.drop_last()) + polls.last().votes
    }
}

/// Polls for `proposals`, in their order, none of them voted for yet.
pub open spec fn fresh_polls(proposals: Seq<Seq<char>>) -> Seq<ProposalView> {
    proposals.map_values(|description: Seq<char>| ProposalView { votes: 0, description })
}

/// The campaign that `creator` opens at `created_at` for `duration` seconds.
pub open spec fn opened(
    creator: Pubkey,
    description: Seq<char>,
    proposals: Seq<Seq<char>>,
    created_at: int,
    duration: int,
) -> CampaignView {
    CampaignView {
        description,
        creator,
        polls: fresh_polls(proposals),
        created_at,
        ends_at: created_at + duration,
    }
}

impl ProposalView {
    /// A proposal says something, in at most [`MAX_PROPOSAL_LEN`] bytes.
    pub open spec fn wf(self) -> bool {
        &&& !is_blank(self.description)
        &&& byte_len(self.description) <= MAX_PROPOSAL_LEN
    }
}

impl CampaignView {
    /// What holds of every stored campaign: it says what it is about, in at
    /// most [`MAX_DESCRIPTION_LEN`] bytes; it offers between one and
    /// [`MAX_PROPOSALS`] proposals, each well formed; and it runs for no less
    /// than [`MIN_CAMPAIGN_DURATION_SECS`] and no more than
    /// [`MAX_CAMPAIGN_DURATION_SECS`] seconds.
    pub open spec fn wf(self) -> bool {
        &&& !is_blank(self.description)
        &&& byte_len(self.description) <= MAX_DESCRIPTION_LEN
        &&& 1 <= self.polls.len() <= MAX_PROPOSALS
        &&& forall|i: int| 0 <= i < self.polls.len() ==> (#[trigger] self.polls[i]).wf()
        &&& MIN_CAMPAIGN_DURATION_SECS <= self.ends_at - self.created_at <= MAX_CAMPAIGN_DURATION_SECS
    }

    /// The campaign after one more vote for the poll at `poll_index`.
    pub open spec fn with_vote(self, poll_index: int) -> CampaignView {
        CampaignView {
            polls: self.polls.update(
                poll_index,
                ProposalView { votes: self.polls[poll_index].votes + 1, ..self.polls[poll_index] },
            ),
            ..self
        }
    }
}

impl Campaign {
    /// The campaign that `creator` opens at `created_at` for
    /// `duration_in_seconds` seconds, with one poll for each of
    /// `poll_descriptions`.
    pub fn new(
        creator: Pubkey,
        description: String,
        poll_descriptions: Vec<String>,
        created_at: i64,
        duration_in_seconds: i64,
    ) -> (campaign: Campaign)
        requires
            i64::MIN <= created_at + duration_in_seconds <= i64::MAX,
        ensures
            campaign@ == opened(
                creator,
                description@,
                text_views(poll_descriptions@),
                created_at as int,
                duration_in_seconds as int,
            ),
    {
        let ghost proposals = text_views(poll_descriptions@);
        let mut polls: Vec<ProposalEntry> = Vec::new();
        for desc in it: poll_descriptions
            invariant
                text_views(it.seq()) == proposals,
                polls@.len() == it.index(),
                forall|j: int|
                    0 <= j < polls@.len() ==> (#[trigger] polls@[j])@ == (ProposalView {
                        votes: 0,
                        description: proposals[j],
                    }),
        {
            polls.push(ProposalEntry { votes: 0, description: desc });
        }
        let campaign = Campaign {
            description,
            creator,
            polls,
            created_at,
            ends_at: created_at + duration_in_seconds,
        };
        assert(campaign@.polls =~= fresh_polls(proposals));
        campaign
    }

    /// Counts one more vote for the poll at `poll_index`.
    pub fn record_vote(&mut self, poll_index: u8)
        requires
            poll_index < old(self).polls.len(),
            old(self).polls[poll_index as int].votes < u64::MAX,
        ensures
            final(self)@ == old(self)@.with_vote(poll_index as int),
    {
        let poll = &mut self.polls[poll_index as usize];
        poll.votes += 1;
        assert(self@.polls =~= old(self)@.with_vote(poll_index as int).polls);
    }
}

} // verus!
