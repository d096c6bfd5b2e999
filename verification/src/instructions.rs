use crate::clock::unix_timestamp;
use crate::error::CustomError;
use crate::pubkey::Pubkey;
use crate::state::{opened, Campaign, VoteReceipt};
use crate::store::Account;
use crate::text::text_views;
use crate::validation::{checked_campaign, checked_vote, lemma_opened_wf, validate_campaign, validate_vote};
use vstd::prelude::*;

verus! {

/// The accounts of [`create_campaign`]: who signs, and the record, new and
/// still blank, that the campaign is written to.
#[derive(Debug, Clone, Default, PartialEq, Eq)]
pub struct CreateCampaign {
    pub signer: Pubkey,
    pub campaign: Account<Campaign>,
}

/// The accounts of [`cast_vote`]: who votes, the campaign voted in, and the
/// record, new and still blank, that the receipt is written to.
#[derive(Debug, Clone, Default, PartialEq, Eq)]
pub struct CastVote {
    pub voter: Pubkey,
    pub campaign: Account<Campaign>,
    pub vote_receipt: Account<VoteReceipt>,
}

/// The answer to a request to open a campaign when the clock reads
/// `reading`. The inputs are checked first. With inputs that pass, the
/// request needs a reading, and one from which the campaign's end is no later
/// than the last second that can be told.
pub open spec fn checked_creation(
    description: Seq<char>,
    proposals: Seq<Seq<char>>,
    duration: int,
    reading: Option<i64>,
) -> Result<(), CustomError> {
    if checked_campaign(description, proposals, duration) is Err {
        checked_campaign(description, proposals, duration)
    } else {
        match reading {
            Some(now) if now + duration <= i64::MAX => Ok(()),
            _ => Err(CustomError::ClockUnavailable),
        }
    }
}

/// Whether one more vote for the poll at `poll_index` can be counted: the
/// poll, if the campaign has it, is not at the last number its counter holds.
pub open spec fn countable(ctx: CastVote, poll_index: u8) -> bool {
    poll_index < ctx.campaign.data.polls.len() ==> ctx.campaign.data.polls[poll_index as int].votes < u64::MAX
}

/// Decides [`countable`].
pub fn can_count(ctx: &CastVote, poll_index: u8) -> (r: bool)
    ensures
        r == countable(*ctx, poll_index),
{
    if (poll_index as usize) < ctx.campaign.data.polls.len() {
        ctx.campaign.data.polls[poll_index as usize].votes < u64::MAX
    } else {
        true
    }
}

/// Opens a campaign at the time `now`.
///
/// The answer is what [`checked_creation`] gives for the reading `now`. If
/// it is `Ok`, the record of `ctx` becomes the campaign that the signer opens
/// at `now`, with no votes; if it is not, nothing is written.
pub fn create_campaign_at(
    ctx: &mut CreateCampaign,
    description: String,
    poll_descriptions: Vec<String>,
    duration_in_seconds: i64,
    now: i64,
) -> (result: Result<(), CustomError>)
    ensures
        result == checked_creation(
            description@,
            text_views(poll_descriptions@),
            duration_in_seconds as int,
            Some(now),
        ),
        result is Err ==> *final(ctx) == *old(ctx),
        result is Ok ==> {
            &&& final(ctx).signer == old(ctx).signer
            &&& final(ctx).campaign.key == old(ctx).campaign.key
            &&& final(ctx).campaign.data@ == opened(
                old(ctx).signer,
                description@,
                text_views(poll_descriptions@),
                now as int,
                duration_in_seconds as int,
            )
            &&& final(ctx).campaign.data@.wf()
        },
{
    validate_campaign(description.as_str(), &poll_descriptions, duration_in_seconds)?;
    if now.checked_add(duration_in_seconds).is_none() {
        return Err(CustomError::ClockUnavailable);
    }
    proof {
        lemma_opened_wf(
            ctx.signer,
            description@,
            text_views(poll_descriptions@),
            now as int,
            duration_in_seconds as int,
        );
    }
    ctx.campaign.data = Campaign::new(ctx.signer, description, poll_descriptions, now, duration_in_seconds);
    Ok(())
}

/// Opens a campaign at the time that the runtime's clock shows.
///
/// The clock is read, and its reading decides as [`checked_creation`] says:
/// with a reading, the request is answered as [`create_campaign_at`] answers
/// it for that time; without one, inputs that pass are turned down as
/// [`CustomError::ClockUnavailable`].
pub fn create_campaign(
    ctx: &mut CreateCampaign,
    description: String,
    poll_descriptions: Vec<String>,
    duration_in_seconds: i64,
) -> (result: Result<(), CustomError>)
    ensures
        result is Err ==> *final(ctx) == *old(ctx),
        exists|reading: Option<i64>|
            {
                &&& result == #[trigger] checked_creation(
                    description@,
                    text_views(poll_descriptions@),
                    duration_in_seconds as int,
                    reading,
                )
                &&& result is Ok ==> final(ctx).campaign.data@ == opened(
                    old(ctx).signer,
                    description@,
                    text_views(poll_descriptions@),
                    reading->0 as int,
                    duration_in_seconds as int,
                )
            },
        result is Ok ==> {
            &&& final(ctx).signer == old(ctx).signer
            &&& final(ctx).campaign.key == old(ctx).campaign.key
            &&& final(ctx).campaign.data@.wf()
        },
{
    match unix_timestamp() {
        Some(now) => {
            let result = create_campaign_at(ctx, description, poll_descriptions, duration_in_seconds, now);
            assert(result == checked_creation(
                description@,
                text_views(poll_descriptions@),
                duration_in_seconds as int,
                Some(now),
            ));
            result
        },
        None => {
            validate_campaign(description.as_str(), &poll_descriptions, duration_in_seconds)?;
            assert(checked_creation(
                description@,
                text_views(poll_descriptions@),
                duration_in_seconds as int,
                None,
            ) == Err::<(), CustomError>(CustomError::ClockUnavailable));
            Err(CustomError::ClockUnavailable)
        },
    }
}

/// Casts a vote at the time `now`.
///
/// The vote is checked as [`checked_vote`] says. If it passes, the poll at
/// `poll_index` counts one vote more and the receipt of `ctx` is filled in;
/// if it does not, nothing is written.
pub fn cast_vote_at(ctx: &mut CastVote, poll_index: u8, now: i64) -> (result: Result<(), CustomError>)
    requires
        countable(*old(ctx), poll_index),
    ensures
        result == checked_vote(old(ctx).campaign.data@, poll_index as int, now as int),
        result is Err ==> *final(ctx) == *old(ctx),
        result is Ok ==> {
            &&& final(ctx).voter == old(ctx).voter
            &&& final(ctx).campaign.key == old(ctx).campaign.key
            &&& final(ctx).campaign.data@ == old(ctx).campaign.data@.with_vote(poll_index as int)
            &&& final(ctx).vote_receipt.key == old(ctx).vote_receipt.key
            &&& final(ctx).vote_receipt.data == (VoteReceipt {
                campaign: old(ctx).campaign.key,
                voter: old(ctx).voter,
                poll_index,
            })
        },
{
    validate_vote(&ctx.campaign.data, poll_index, now)?;
    ctx.campaign.data.record_vote(poll_index);
    ctx.vote_receipt.data = VoteReceipt { campaign: ctx.campaign.key, voter: ctx.voter, poll_index };
    Ok(())
}

/// Casts a vote at the time that the runtime's clock shows, as
/// [`cast_vote_at`] does. Without a reading the request fails with
/// [`CustomError::ClockUnavailable`].
pub fn cast_vote(ctx: &mut CastVote, poll_index: u8) -> (result: Result<(), CustomError>)
    requires
        countable(*old(ctx), poll_index),
    ensures
        result is Err ==> *final(ctx) == *old(ctx),
        result == Err::<(), CustomError>(CustomError::ClockUnavailable) || exists|now: i64|
            result == #[trigger] checked_vote(old(ctx).campaign.data@, poll_index as int, now as int),
        result is Ok ==> {
            &&& final(ctx).voter == old(ctx).voter
            &&& final(ctx).campaign.key == old(ctx).campaign.key
            &&& final(ctx).campaign.data@ == old(ctx).campaign.data@.with_vote(poll_index as int)
            &&& final(ctx).vote_receipt.key == old(ctx).vote_receipt.key
            &&& final(ctx).vote_receipt.data == (VoteReceipt {
                campaign: old(ctx).campaign.key,
                voter: old(ctx).voter,
                poll_index,
            })
        },
{
    match unix_timestamp() {
        Some(now) => {
            let result = cast_vote_at(ctx, poll_index, now);
            assert(result == checked_vote(old(ctx).campaign.data@, poll_index as int, now as int));
            result
        },
        None => Err(CustomError::ClockUnavailable),
    }
}

} // verus!
