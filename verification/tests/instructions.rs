use solana_voting::instructions::can_count;
use solana_voting::{
    cast_vote, cast_vote_at, create_campaign, create_campaign_at, Account, Campaign, CastVote, CreateCampaign,
    CustomError, ProposalEntry, Pubkey, VoteReceipt,
};

fn key(byte: u8) -> Pubkey {
    Pubkey::new_from_array([byte; 32])
}

fn texts(items: &[&str]) -> Vec<String> {
    items.iter().map(|item| item.to_string()).collect()
}

fn blank_campaign(creator: Pubkey, at: Pubkey) -> CreateCampaign {
    CreateCampaign { signer: creator, campaign: Account { key: at, data: Campaign::default() } }
}

fn running(ends_at: i64) -> Campaign {
    Campaign {
        description: "Best Language".to_string(),
        creator: key(1),
        polls: vec![
            ProposalEntry { votes: 0, description: "Rust".to_string() },
            ProposalEntry { votes: 7, description: "Go".to_string() },
        ],
        created_at: ends_at - 3600,
        ends_at,
    }
}

fn vote_in(campaign: Campaign, voter: Pubkey) -> CastVote {
    CastVote {
        voter,
        campaign: Account { key: key(9), data: campaign },
        vote_receipt: Account { key: key(10), data: VoteReceipt::default() },
    }
}

#[test]
fn create_campaign_at_fills_the_record() {
    let mut ctx = blank_campaign(key(1), key(2));
    let result = create_campaign_at(&mut ctx, "Best Language".to_string(), texts(&["Rust", "Go"]), 3600, 1_700_000_000);
    assert_eq!(result, Ok(()));
    assert_eq!(ctx.signer, key(1));
    assert_eq!(ctx.campaign.key, key(2));
    let campaign = &ctx.campaign.data;
    assert_eq!(campaign.description, "Best Language");
    assert_eq!(campaign.creator, key(1));
    assert_eq!(campaign.created_at, 1_700_000_000);
    assert_eq!(campaign.ends_at, 1_700_003_600);
    assert_eq!(
        campaign.polls,
        vec![
            ProposalEntry { votes: 0, description: "Rust".to_string() },
            ProposalEntry { votes: 0, description: "Go".to_string() },
        ]
    );
}

#[test]
fn campaign_ends_exactly_its_duration_after_creation() {
    for (now, duration) in [
        (0i64, 3600i64),
        (1_700_000_000, 3601),
        (-5, 86_400),
        (i64::MAX - 31_536_000, 31_536_000),
        (i64::MAX - 3600, 3600),
        (i64::MIN, 3600),
    ] {
        let mut ctx = blank_campaign(key(3), key(4));
        let result = create_campaign_at(&mut ctx, "d".to_string(), texts(&["a"]), duration, now);
        assert_eq!(result, Ok(()));
        assert_eq!(ctx.campaign.data.created_at, now);
        assert_eq!(ctx.campaign.data.ends_at - ctx.campaign.data.created_at, duration);
    }
}

#[test]
fn duration_boundaries_on_create() {
    let mut ctx = blank_campaign(key(1), key(2));
    assert_eq!(
        create_campaign_at(&mut ctx, "d".to_string(), texts(&["a"]), 3599, 10),
        Err(CustomError::CampaignDurationTooShort)
    );
    assert_eq!(create_campaign_at(&mut ctx, "d".to_string(), texts(&["a"]), 3600, 10), Ok(()));
    let mut ctx = blank_campaign(key(1), key(2));
    assert_eq!(
        create_campaign_at(&mut ctx, "d".to_string(), texts(&["a"]), 31_536_001, 10),
        Err(CustomError::CampaignDurationTooLong)
    );
    assert_eq!(create_campaign_at(&mut ctx, "d".to_string(), texts(&["a"]), 31_536_000, 10), Ok(()));
    assert_eq!(ctx.campaign.data.ends_at, 31_536_010);
}

#[test]
fn proposal_count_boundaries_on_create() {
    let ten = texts(&["a", "b", "c", "d", "e", "f", "g", "h", "i", "j"]);
    let eleven = texts(&["a", "b", "c", "d", "e", "f", "g", "h", "i", "j", "k"]);
    let mut ctx = blank_campaign(key(1), key(2));
    assert_eq!(
        create_campaign_at(&mut ctx, "d".to_string(), eleven, 3600, 10),
        Err(CustomError::TooManyProposals)
    );
    assert_eq!(create_campaign_at(&mut ctx, "d".to_string(), texts(&[]), 3600, 10), Err(CustomError::NoProposals));
    assert_eq!(create_campaign_at(&mut ctx, "d".to_string(), ten, 3600, 10), Ok(()));
    assert_eq!(ctx.campaign.data.polls.len(), 10);
    assert_eq!(ctx.campaign.data.polls[9].description, "j");
    assert!(ctx.campaign.data.polls.iter().all(|poll| poll.votes == 0));
}

#[test]
fn rejected_campaign_writes_nothing() {
    let cases: Vec<(&str, Vec<String>, i64, CustomError)> = vec![
        ("  ", texts(&["a"]), 3600, CustomError::EmptyDescription),
        ("d", texts(&[]), 3600, CustomError::NoProposals),
        ("d", texts(&["a", " "]), 3600, CustomError::EmptyDescription),
        ("d", texts(&["a"]), 1, CustomError::CampaignDurationTooShort),
        ("d", texts(&["a"]), 40_000_000, CustomError::CampaignDurationTooLong),
    ];
    for (description, proposals, duration, fault) in cases {
        let mut ctx = blank_campaign(key(1), key(2));
        let before = ctx.clone();
        assert_eq!(create_campaign_at(&mut ctx, description.to_string(), proposals, duration, 10), Err(fault));
        assert_eq!(ctx, before);
    }
}

#[test]
fn texts_of_full_length_are_stored() {
    let description = "d".repeat(100);
    let proposal = "é".repeat(40);
    assert_eq!(proposal.len(), 80);
    let mut ctx = blank_campaign(key(1), key(2));
    assert_eq!(create_campaign_at(&mut ctx, description.clone(), vec![proposal.clone()], 3600, 0), Ok(()));
    assert_eq!(ctx.campaign.data.description, description);
    assert_eq!(ctx.campaign.data.polls[0].description, proposal);
}

#[test]
fn cast_vote_at_counts_and_fills_the_receipt() {
    let mut ctx = vote_in(running(5000), key(20));
    assert_eq!(cast_vote_at(&mut ctx, 1, 5000), Ok(()));
    assert_eq!(ctx.campaign.data.polls[0].votes, 0);
    assert_eq!(ctx.campaign.data.polls[1].votes, 8);
    assert_eq!(ctx.campaign.data.polls[1].description, "Go");
    assert_eq!(ctx.campaign.data.ends_at, 5000);
    assert_eq!(ctx.campaign.key, key(9));
    assert_eq!(ctx.voter, key(20));
    assert_eq!(ctx.vote_receipt.key, key(10));
    assert_eq!(ctx.vote_receipt.data, VoteReceipt { campaign: key(9), voter: key(20), poll_index: 1 });
}

#[test]
fn cast_vote_at_rejects_a_poll_that_is_not_there() {
    let mut ctx = vote_in(running(5000), key(20));
    let before = ctx.clone();
    assert_eq!(cast_vote_at(&mut ctx, 2, 10), Err(CustomError::InvalidPollIndex));
    assert_eq!(ctx, before);
    assert_eq!(cast_vote_at(&mut ctx, 5, 10), Err(CustomError::InvalidPollIndex));
    assert_eq!(cast_vote_at(&mut ctx, 255, 10), Err(CustomError::InvalidPollIndex));
    assert_eq!(ctx, before);
}

#[test]
fn cast_vote_at_rejects_late_votes_whatever_they_name() {
    let mut ctx = vote_in(running(5000), key(20));
    let before = ctx.clone();
    assert_eq!(cast_vote_at(&mut ctx, 0, 5001), Err(CustomError::CampaignExpired));
    assert_eq!(cast_vote_at(&mut ctx, 1, i64::MAX), Err(CustomError::CampaignExpired));
    assert_eq!(cast_vote_at(&mut ctx, 5, 5001), Err(CustomError::CampaignExpired));
    assert_eq!(ctx, before);
    assert_eq!(cast_vote_at(&mut ctx, 0, 5000), Ok(()));
    assert_eq!(ctx.campaign.data.polls[0].votes, 1);
}

#[test]
fn without_a_runtime_clock_nothing_is_dated() {
    let mut ctx = blank_campaign(key(1), key(2));
    let before = ctx.clone();
    assert_eq!(
        create_campaign(&mut ctx, "Best Language".to_string(), texts(&["Rust", "Go"]), 3600),
        Err(CustomError::ClockUnavailable)
    );
    assert_eq!(ctx, before);
    let mut vote = vote_in(running(5000), key(20));
    let before = vote.clone();
    assert_eq!(cast_vote(&mut vote, 0), Err(CustomError::ClockUnavailable));
    assert_eq!(vote, before);
}

#[test]
fn inputs_are_checked_before_the_clock_is_read() {
    let mut ctx = blank_campaign(key(1), key(2));
    assert_eq!(create_campaign(&mut ctx, " ".to_string(), texts(&["a"]), 3600), Err(CustomError::EmptyDescription));
    assert_eq!(create_campaign(&mut ctx, "d".to_string(), texts(&[]), 3600), Err(CustomError::NoProposals));
    assert_eq!(
        create_campaign(&mut ctx, "d".to_string(), texts(&["a"]), 3599),
        Err(CustomError::CampaignDurationTooShort)
    );
    assert_eq!(
        create_campaign(&mut ctx, "d".to_string(), texts(&["a"]), 31_536_001),
        Err(CustomError::CampaignDurationTooLong)
    );
    assert_eq!(ctx, blank_campaign(key(1), key(2)));
}

#[test]
fn record_vote_adds_one() {
    let mut campaign = running(100);
    campaign.record_vote(0);
    campaign.record_vote(0);
    campaign.record_vote(1);
    assert_eq!(campaign.polls[0].votes, 2);
    assert_eq!(campaign.polls[1].votes, 8);
    assert_eq!(campaign.description, "Best Language");
}

#[test]
fn new_campaign_keeps_the_order_of_proposals() {
    let campaign = Campaign::new(key(7), "Colours".to_string(), texts(&["red", "green", "blue"]), -10, 7200);
    assert_eq!(campaign.creator, key(7));
    assert_eq!(campaign.created_at, -10);
    assert_eq!(campaign.ends_at, 7190);
    let names: Vec<&str> = campaign.polls.iter().map(|poll| poll.description.as_str()).collect();
    assert_eq!(names, vec!["red", "green", "blue"]);
    assert!(campaign.polls.iter().all(|poll| poll.votes == 0));
}

#[test]
fn campaign_that_would_end_past_the_last_second_is_turned_down() {
    let cases = [(i64::MAX, 3600i64), (i64::MAX - 3599, 3600), (i64::MAX - 31_535_999, 31_536_000)];
    for (now, duration) in cases {
        let mut ctx = blank_campaign(key(1), key(2));
        let before = ctx.clone();
        assert_eq!(
            create_campaign_at(&mut ctx, "d".to_string(), texts(&["a"]), duration, now),
            Err(CustomError::ClockUnavailable)
        );
        assert_eq!(ctx, before);
    }
    // A fault in the inputs is reported first.
    let mut ctx = blank_campaign(key(1), key(2));
    assert_eq!(
        create_campaign_at(&mut ctx, "d".to_string(), texts(&["a"]), 3599, i64::MAX),
        Err(CustomError::CampaignDurationTooShort)
    );
    assert_eq!(
        create_campaign_at(&mut ctx, "d".repeat(101), texts(&["a"]), 3600, i64::MAX),
        Err(CustomError::TextTooLong)
    );
}

#[test]
fn texts_too_long_are_turned_down() {
    let mut ctx = blank_campaign(key(1), key(2));
    let before = ctx.clone();
    assert_eq!(
        create_campaign_at(&mut ctx, "d".repeat(101), texts(&["a"]), 3600, 0),
        Err(CustomError::TextTooLong)
    );
    assert_eq!(
        create_campaign_at(&mut ctx, "d".to_string(), vec!["a".to_string(), "é".repeat(40) + "x"], 3600, 0),
        Err(CustomError::TextTooLong)
    );
    assert_eq!(
        create_campaign(&mut ctx, "d".repeat(101), texts(&["a"]), 3600),
        Err(CustomError::TextTooLong)
    );
    assert_eq!(ctx, before);
}

#[test]
fn a_full_counter_cannot_count() {
    let mut campaign = running(5000);
    campaign.polls[1].votes = u64::MAX;
    let ctx = vote_in(campaign, key(20));
    assert!(can_count(&ctx, 0));
    assert!(!can_count(&ctx, 1));
    // A poll that is not there is not counted anyway.
    assert!(can_count(&ctx, 2));
    assert!(can_count(&ctx, 255));
    let mut last = running(5000);
    last.polls[1].votes = u64::MAX - 1;
    let mut ctx = vote_in(last, key(20));
    assert!(can_count(&ctx, 1));
    assert_eq!(cast_vote_at(&mut ctx, 1, 0), Ok(()));
    assert_eq!(ctx.campaign.data.polls[1].votes, u64::MAX);
    assert!(!can_count(&ctx, 1));
}
