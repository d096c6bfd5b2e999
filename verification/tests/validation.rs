use solana_voting::state::{MAX_DESCRIPTION_LEN, MAX_PROPOSAL_LEN};
use solana_voting::validation::{
    texts_have_room, validate_campaign, validate_description, validate_duration, validate_open,
    validate_poll_index, validate_proposal_count, validate_texts, validate_vote, MAX_CAMPAIGN_DURATION_SECS,
    MAX_PROPOSALS, MIN_CAMPAIGN_DURATION_SECS,
};
use solana_voting::{Campaign, CustomError, ProposalEntry, Pubkey};

fn texts(items: &[&str]) -> Vec<String> {
    items.iter().map(|item| item.to_string()).collect()
}

#[test]
fn limits_have_their_values() {
    assert_eq!(MIN_CAMPAIGN_DURATION_SECS, 3600);
    assert_eq!(MAX_CAMPAIGN_DURATION_SECS, 31_536_000);
    assert_eq!(MAX_PROPOSALS, 10);
    assert_eq!(MAX_DESCRIPTION_LEN, 100);
    assert_eq!(MAX_PROPOSAL_LEN, 80);
}

#[test]
fn description_must_say_something() {
    assert_eq!(validate_description("Best Language"), Ok(()));
    assert_eq!(validate_description("x"), Ok(()));
    assert_eq!(validate_description(""), Err(CustomError::EmptyDescription));
    assert_eq!(validate_description("   "), Err(CustomError::EmptyDescription));
    assert_eq!(validate_description("\t\n"), Err(CustomError::EmptyDescription));
}

#[test]
fn proposal_count_bounds() {
    assert_eq!(validate_proposal_count(0), Err(CustomError::NoProposals));
    assert_eq!(validate_proposal_count(1), Ok(()));
    assert_eq!(validate_proposal_count(10), Ok(()));
    assert_eq!(validate_proposal_count(11), Err(CustomError::TooManyProposals));
    assert_eq!(validate_proposal_count(usize::MAX), Err(CustomError::TooManyProposals));
}

#[test]
fn duration_bounds() {
    assert_eq!(validate_duration(3599), Err(CustomError::CampaignDurationTooShort));
    assert_eq!(validate_duration(3600), Ok(()));
    assert_eq!(validate_duration(31_536_000), Ok(()));
    assert_eq!(validate_duration(31_536_001), Err(CustomError::CampaignDurationTooLong));
    assert_eq!(validate_duration(0), Err(CustomError::CampaignDurationTooShort));
    assert_eq!(validate_duration(-1), Err(CustomError::CampaignDurationTooShort));
    assert_eq!(validate_duration(i64::MIN), Err(CustomError::CampaignDurationTooShort));
    assert_eq!(validate_duration(i64::MAX), Err(CustomError::CampaignDurationTooLong));
}

#[test]
fn poll_index_bounds() {
    assert_eq!(validate_poll_index(0, 2), Ok(()));
    assert_eq!(validate_poll_index(1, 2), Ok(()));
    assert_eq!(validate_poll_index(2, 2), Err(CustomError::InvalidPollIndex));
    assert_eq!(validate_poll_index(5, 2), Err(CustomError::InvalidPollIndex));
    assert_eq!(validate_poll_index(0, 0), Err(CustomError::InvalidPollIndex));
    assert_eq!(validate_poll_index(255, 256), Ok(()));
}

#[test]
fn expiry_boundary() {
    assert_eq!(validate_open(100, 100), Ok(()));
    assert_eq!(validate_open(99, 100), Ok(()));
    assert_eq!(validate_open(101, 100), Err(CustomError::CampaignExpired));
    assert_eq!(validate_open(i64::MIN, i64::MIN), Ok(()));
    assert_eq!(validate_open(i64::MAX, i64::MAX - 1), Err(CustomError::CampaignExpired));
}

#[test]
fn campaign_checks_report_the_first_fault() {
    let two = texts(&["Rust", "Go"]);
    assert_eq!(validate_campaign("Best Language", &two, 3600), Ok(()));
    // The description comes before everything else.
    assert_eq!(validate_campaign(" ", &texts(&[]), 1), Err(CustomError::EmptyDescription));
    // The number of proposals comes before their texts and the duration.
    assert_eq!(validate_campaign("d", &texts(&[]), 1), Err(CustomError::NoProposals));
    let eleven = texts(&["a", "b", "c", "d", "e", "f", "g", "h", "i", "j", " "]);
    assert_eq!(validate_campaign("d", &eleven, 1), Err(CustomError::TooManyProposals));
    // The proposals' texts come before the duration.
    assert_eq!(validate_campaign("d", &texts(&["Rust", "  "]), 1), Err(CustomError::EmptyDescription));
    assert_eq!(validate_campaign("d", &texts(&["", "Go"]), 40_000_000), Err(CustomError::EmptyDescription));
    assert_eq!(validate_campaign("d", &two, 3599), Err(CustomError::CampaignDurationTooShort));
    assert_eq!(validate_campaign("d", &two, 31_536_001), Err(CustomError::CampaignDurationTooLong));
}

#[test]
fn proposal_count_boundary_on_a_campaign() {
    let ten = texts(&["a", "b", "c", "d", "e", "f", "g", "h", "i", "j"]);
    let eleven = texts(&["a", "b", "c", "d", "e", "f", "g", "h", "i", "j", "k"]);
    assert_eq!(validate_campaign("d", &ten, 3600), Ok(()));
    assert_eq!(validate_campaign("d", &eleven, 3600), Err(CustomError::TooManyProposals));
    assert_eq!(validate_campaign("d", &texts(&[]), 3600), Err(CustomError::NoProposals));
    assert_eq!(validate_campaign("d", &texts(&["only"]), 3600), Ok(()));
}

#[test]
fn vote_checks_report_lateness_first() {
    let campaign = Campaign {
        description: "d".to_string(),
        creator: Pubkey::default(),
        polls: vec![ProposalEntry { votes: 3, description: "a".to_string() }],
        created_at: 0,
        ends_at: 3600,
    };
    assert_eq!(validate_vote(&campaign, 0, 3600), Ok(()));
    assert_eq!(validate_vote(&campaign, 1, 3600), Err(CustomError::InvalidPollIndex));
    assert_eq!(validate_vote(&campaign, 0, 3601), Err(CustomError::CampaignExpired));
    assert_eq!(validate_vote(&campaign, 1, 3601), Err(CustomError::CampaignExpired));
}

#[test]
fn texts_have_room_up_to_their_limits() {
    assert!(texts_have_room("", &texts(&[])));
    assert!(texts_have_room(&"d".repeat(100), &vec!["a".repeat(80), "b".to_string()]));
    assert!(!texts_have_room(&"d".repeat(101), &texts(&["a"])));
    assert!(!texts_have_room("d", &vec!["a".to_string(), "b".repeat(81)]));
    // Room is counted in bytes, not in characters.
    assert!(texts_have_room(&"é".repeat(50), &vec!["é".repeat(40)]));
    assert!(!texts_have_room(&("é".repeat(50) + "x"), &texts(&["a"])));
    assert!(!texts_have_room("d", &vec!["é".repeat(40) + "x"]));
    assert_eq!(validate_texts(&"d".repeat(100), &vec!["a".repeat(80)]), Ok(()));
    assert_eq!(validate_texts(&"d".repeat(101), &vec!["a".repeat(80)]), Err(CustomError::TextTooLong));
    assert_eq!(validate_texts("d", &vec!["a".repeat(81)]), Err(CustomError::TextTooLong));
}

#[test]
fn room_is_the_last_thing_looked_at() {
    let long = "d".repeat(101);
    assert_eq!(validate_campaign(&long, &texts(&["a"]), 3600), Err(CustomError::TextTooLong));
    assert_eq!(validate_campaign("d", &vec!["a".repeat(81)], 31_536_000), Err(CustomError::TextTooLong));
    assert_eq!(validate_campaign(&long, &texts(&["a"]), 3599), Err(CustomError::CampaignDurationTooShort));
    assert_eq!(validate_campaign(&long, &texts(&["a"]), 31_536_001), Err(CustomError::CampaignDurationTooLong));
    assert_eq!(validate_campaign(&long, &texts(&[]), 3600), Err(CustomError::NoProposals));
    assert_eq!(validate_campaign(&long, &texts(&["a", " "]), 3600), Err(CustomError::EmptyDescription));
    assert_eq!(validate_campaign(&" ".repeat(101), &texts(&["a"]), 3600), Err(CustomError::EmptyDescription));
}
