pub mod clock;
pub mod error;
pub mod instructions;
pub mod laws;
pub mod ledger;
pub mod model;
pub mod pubkey;
pub mod seeds;
pub mod state;
pub mod store;
pub mod text;
pub mod validation;

pub use error::CustomError;
pub use instructions::{cast_vote, cast_vote_at, create_campaign, create_campaign_at, CastVote, CreateCampaign};
pub use ledger::Ledger;
pub use pubkey::Pubkey;
pub use state::{Campaign, ProposalEntry, VoteReceipt};
pub use store::Account;
