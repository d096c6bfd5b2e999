use crate::error::CustomError;
use crate::pubkey::Pubkey;
use crate::state::{opened, Campaign, CampaignView, MAX_DESCRIPTION_LEN, MAX_PROPOSAL_LEN};
use crate::text::{byte_len, is_blank, str_is_blank, text_views};
use vstd::prelude::*;
use vstd::string::StringSliceAdditionalSpecFns;

verus! {

/// The most proposals that a campaign can offer.
pub const MAX_PROPOSALS: usize = 10;

/// The shortest time that a campaign can run, in seconds: one hour.
pub const MIN_CAMPAIGN_DURATION_SECS: i64 = 60 * 60;

/// The longest time that a campaign can run, in seconds: 365 days.
pub const MAX_CAMPAIGN_DURATION_SECS: i64 = 60 * 60 * 24 * 365;

/// A description passes unless it is blank.
pub open spec fn checked_description(description: Seq<char>) -> Result<(), CustomError> {
    if is_blank(description) {
        Err(CustomError::EmptyDescription)
    } else {
        Ok(())
    }
}

/// A campaign offers between one and [`MAX_PROPOSALS`] proposals.
pub open spec fn checked_proposal_count(count: nat) -> Result<(), CustomError> {
    if count == 0 {
        Err(CustomError::NoProposals)
    } else if count > MAX_PROPOSALS {
        Err(CustomError::TooManyProposals)
    } else {
        Ok(())
    }
}

/// A campaign runs between [`MIN_CAMPAIGN_DURATION_SECS`] and
/// [`MAX_CAMPAIGN_DURATION_SECS`] seconds.
pub open spec fn checked_duration(duration: int) -> Result<(), CustomError> {
    if duration < MIN_CAMPAIGN_DURATION_SECS {
        Err(CustomError::CampaignDurationTooShort)
    } else if duration > MAX_CAMPAIGN_DURATION_SECS {
        Err(CustomError::CampaignDurationTooLong)
    } else {
        Ok(())
    }
}

/// A vote names one of the `poll_count` polls of its campaign.
pub open spec fn checked_poll_index(poll_index: int, poll_count: nat) -> Result<(), CustomError> {
    if poll_index < poll_count {
        Ok(())
    } else {
        Err(CustomError::InvalidPollIndex)
    }
}

/// A campaign takes votes up to and including the second `ends_at`.
pub open spec fn checked_open(now: int, ends_at: int) -> Result<(), CustomError> {
    if now <= ends_at {
        Ok(())
    } else {
        Err(CustomError::CampaignExpired)
    }
}

/// Whether one of `proposals` is blank.
pub open spec fn has_blank(proposals: Seq<Seq<char>>) -> bool {
    exists|i: int| 0 <= i < proposals.len() && is_blank(#[trigger] proposals[i])
}

/// Whether the texts of a new campaign fit the space of its record.
pub open spec fn texts_fit(description: Seq<char>, proposals: Seq<Seq<char>>) -> bool {
    &&& byte_len(description) <= MAX_DESCRIPTION_LEN
    &&& forall|i: int| 0 <= i < proposals.len() ==> byte_len(#[trigger] proposals[i]) <= MAX_PROPOSAL_LEN
}

/// The texts of a campaign pass if they fit the space of its record.
pub open spec fn checked_texts(description: Seq<char>, proposals: Seq<Seq<char>>) -> Result<(), CustomError> {
    if texts_fit(description, proposals) {
        Ok(())
    } else {
        Err(CustomError::TextTooLong)
    }
}

/// What is found of the inputs to a new campaign. They are looked at in this
/// order, and the first fault is the one reported: the description, the number
/// of proposals, each proposal's description, the duration, and last the
/// room that the texts take.
pub open spec fn checked_campaign(description: Seq<char>, proposals: Seq<Seq<char>>, duration: int) -> Result<
    (),
    CustomError,
> {
    if checked_description(description) is Err {
        checked_description(description)
    } else if checked_proposal_count(proposals.len()) is Err {
        checked_proposal_count(proposals.len())
    } else if has_blank(proposals) {
        Err(CustomError::EmptyDescription)
    } else if checked_duration(duration) is Err {
        checked_duration(duration)
    } else {
        checked_texts(description, proposals)
    }
}

/// What is found of a vote for the poll at `poll_index` of `campaign`, cast
/// at `now`. A vote that comes too late is reported as such, whatever it
/// names; one in time must name a poll of the campaign.
pub open spec fn checked_vote(campaign: CampaignView, poll_index: int, now: int) -> Result<(), CustomError> {
    if checked_open(now, campaign.ends_at) is Err {
        checked_open(now, campaign.ends_at)
    } else {
        checked_poll_index(poll_index, campaign.polls.len())
    }
}

/// Inputs that pass the checks make a well-formed campaign.
pub proof fn lemma_opened_wf(
    creator: Pubkey,
    description: Seq<char>,
    proposals: Seq<Seq<char>>,
    created_at: int,
    duration: int,
)
    requires
        checked_campaign(description, proposals, duration) is Ok,
    ensures
        opened(creator, description, proposals, created_at, duration).wf(),
{
    let campaign = opened(creator, description, proposals, created_at, duration);
    assert forall|i: int| 0 <= i < campaign.polls.len() implies (#[trigger] campaign.polls[i]).wf() by {
        assert(!is_blank(proposals[i]));
    }
}

/// Checks that a description says something.
pub fn validate_description(description: &str) -> (checked: Result<(), CustomError>)
    ensures
        checked == checked_description(description@),
{
    if str_is_blank(description) {
        Err(CustomError::EmptyDescription)
    } else {
        Ok(())
    }
}

/// Checks the number of proposals of a new campaign.
pub fn validate_proposal_count(count: usize) -> (checked: Result<(), CustomError>)
    ensures
        checked == checked_proposal_count(count as nat),
{
    if count == 0 {
        Err(CustomError::NoProposals)
    } else if count > MAX_PROPOSALS {
        Err(CustomError::TooManyProposals)
    } else {
        Ok(())
    }
}

/// Checks the time that a new campaign is to run.
pub fn validate_duration(duration: i64) -> (checked: Result<(), CustomError>)
    ensures
        checked == checked_duration(duration as int),
{
    if duration < MIN_CAMPAIGN_DURATION_SECS {
        Err(CustomError::CampaignDurationTooShort)
    } else if duration > MAX_CAMPAIGN_DURATION_SECS {
        Err(CustomError::CampaignDurationTooLong)
    } else {
        Ok(())
    }
}

/// Checks that a vote names one of the `poll_count` polls of its campaign.
pub fn validate_poll_index(poll_index: u8, poll_count: usize) -> (checked: Result<(), CustomError>)
    ensures
        checked == checked_poll_index(poll_index as int, poll_count as nat),
{
    if (poll_index as usize) < poll_count {
        Ok(())
    } else {
        Err(CustomError::InvalidPollIndex)
    }
}

/// Checks that a vote cast at `now` is in time for a campaign that ends at
/// `ends_at`.
pub fn validate_open(now: i64, ends_at: i64) -> (checked: Result<(), CustomError>)
    ensures
        checked == checked_open(now as int, ends_at as int),
{
    if now <= ends_at {
        Ok(())
    } else {
        Err(CustomError::CampaignExpired)
    }
}

/// Decides [`texts_fit`].
pub fn texts_have_room(description: &str, poll_descriptions: &Vec<String>) -> (fits: bool)
    ensures
        fits == texts_fit(description@, text_views(poll_descriptions@)),
{
    if description.as_bytes().len() > MAX_DESCRIPTION_LEN {
        return false;
    }
    let ghost proposals = text_views(poll_descriptions@);
    let mut i: usize = 0;
    while i < poll_descriptions.len()
        invariant
            i <= poll_descriptions.len(),
            proposals == text_views(poll_descriptions@),
            forall|j: int| 0 <= j < i ==> byte_len(#[trigger] proposals[j]) <= MAX_PROPOSAL_LEN,
        decreases poll_descriptions.len() - i,
    {
        if poll_descriptions[i].as_str().as_bytes().len() > MAX_PROPOSAL_LEN {
            assert(byte_len(proposals[i as int]) > MAX_PROPOSAL_LEN);
            return false;
        }
        i = i + 1;
    }
    true
}

/// Checks that the texts of a new campaign fit the space of its record.
pub fn validate_texts(description: &str, poll_descriptions: &Vec<String>) -> (checked: Result<(), CustomError>)
    ensures
        checked == checked_texts(description@, text_views(poll_descriptions@)),
{
    if texts_have_room(description, poll_descriptions) {
        Ok(())
    } else {
        Err(CustomError::TextTooLong)
    }
}

/// Checks the inputs to a new campaign.
pub fn validate_campaign(description: &str, poll_descriptions: &Vec<String>, duration_in_seconds: i64) -> (checked:
    Result<(), CustomError>)
    ensures
        checked == checked_campaign(description@, text_views(poll_descriptions@), duration_in_seconds as int),
{
    validate_description(description)?;
    validate_proposal_count(poll_descriptions.len())?;
    let ghost proposals = text_views(poll_descriptions@);
    let mut i: usize = 0;
    while i < poll_descriptions.len()
        invariant
            i <= poll_descriptions.len(),
            proposals == text_views(poll_descriptions@),
            checked_description(description@) is Ok,
            checked_proposal_count(proposals.len()) is Ok,
            forall|j: int| 0 <= j < i ==> !is_blank(#[trigger] proposals[j]),
        decreases poll_descriptions.len() - i,
    {
        if str_is_blank(poll_descriptions[i].as_str()) {
            assert(is_blank(proposals[i as int]));
            return Err(CustomError::EmptyDescription);
        }
        i = i + 1;
    }
    validate_duration(duration_in_seconds)?;
    validate_texts(description, poll_descriptions)
}

/// Checks a vote for the poll at `poll_index` of `campaign`, cast at `now`.
pub fn validate_vote(campaign: &Campaign, poll_index: u8, now: i64) -> (checked: Result<(), CustomError>)
    ensures
        checked == checked_vote(campaign@, poll_index as int, now as int),
{
    validate_open(now, campaign.ends_at)?;
    validate_poll_index(poll_index, campaign.polls.len())
}

} // verus!
