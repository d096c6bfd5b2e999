use vstd::prelude::*;

verus! {

/// Every way in which creating a campaign or casting a vote can be turned down.
#[derive(Clone, Copy, Debug, PartialEq, Eq, Structural)]
pub enum CustomError {
    /// More than ten proposals were offered.
    TooManyProposals,
    /// The chosen poll does not exist in the campaign.
    InvalidPollIndex,
    /// A description is empty once surrounding whitespace is taken away.
    EmptyDescription,
    /// No proposal was offered.
    NoProposals,
    /// The vote arrived after the campaign's end.
    CampaignExpired,
    /// The campaign would run for less than an hour.
    CampaignDurationTooShort,
    /// The campaign would run for more than a year.
    CampaignDurationTooLong,
    /// A campaign of the same creator and description is already stored.
    AlreadyExists,
    /// The voter already holds a receipt for the campaign.
    AlreadyVoted,
    /// No campaign is stored under the given address.
    CampaignNotFound,
    /// No time is at hand by which the request can be dated: the clock gave
    /// none, or the time is so late that the campaign's end is past the last
    /// second that can be told.
    ClockUnavailable,
    /// No address can be derived for the record.
    AddressUnavailable,
    /// A description takes more bytes than its record has room for.
    TextTooLong,
}

} // verus!
