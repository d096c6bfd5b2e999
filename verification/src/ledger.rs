use crate::error::CustomError;
use crate::model::{lemma_cast_vote_wf, lemma_create_campaign_wf, LedgerView};
use crate::pubkey::Pubkey;
use crate::seeds::{find_campaign_address, find_receipt_address};
use crate::state::{Campaign, VoteReceipt};
use crate::store::{
    distinct_keys, find_account, has_key, lemma_records_keys, lemma_records_len, lemma_records_push,
    lemma_records_update, lemma_records_value, records, Account,
};
use crate::text::text_views;
use crate::validation::{validate_campaign, validate_vote};
use vstd::prelude::*;
use vstd::set_lib::lemma_len_subset;

verus! {

/// The campaigns and receipts of one program, held in memory.
///
/// A ledger does for the two requests what the runtime does for the program:
/// it finds the records that a request speaks of, lets nothing be stored
/// twice under one address, and keeps what was written.
pub struct Ledger {
    program_id: Pubkey,
    campaigns: Vec<Account<Campaign>>,
    receipts: Vec<Account<VoteReceipt>>,
}

/// The addresses of those among the first `n` of `receipts` that were given
/// out in `campaign`.
spec fn given_out(receipts: Seq<Account<VoteReceipt>>, campaign: Pubkey, n: int) -> Set<Pubkey> {
    Set::new(
        |at: Pubkey|
            exists|j: int|
                0 <= j < n && (#[trigger] receipts[j]).key == at && receipts[j].data.campaign == campaign,
    )
}

impl View for Ledger {
    type V = LedgerView;

    closed spec fn view(&self) -> LedgerView {
        LedgerView {
            program_id: self.program_id,
            campaigns: records(self.campaigns@),
            receipts: records(self.receipts@),
        }
    }
}

impl Ledger {
    /// Whether no address is used for two records.
    pub closed spec fn stored_once(&self) -> bool {
        &&& distinct_keys(self.campaigns@)
        &&& distinct_keys(self.receipts@)
    }

    /// What holds of a ledger between requests: no address is used twice, and
    /// what it holds is well formed.
    pub open spec fn wf(&self) -> bool {
        &&& self.stored_once()
        &&& self@.wf()
    }

    /// The ledger of the program `program_id`, with nothing stored.
    pub fn new(program_id: Pubkey) -> (ledger: Ledger)
        ensures
            ledger.wf(),
            ledger@ == LedgerView::empty(program_id),
    {
        let ledger = Ledger { program_id, campaigns: Vec::new(), receipts: Vec::new() };
        assert(ledger@.campaigns =~= Map::empty());
        assert(ledger@.receipts =~= Map::empty());
        ledger
    }

    /// The program whose records the ledger holds.
    pub fn program_id(&self) -> (program_id: Pubkey)
        ensures
            program_id == self@.program_id,
    {
        self.program_id
    }

    /// The campaign stored under `at`, if there is one.
    pub fn campaign(&self, at: &Pubkey) -> (found: Option<&Campaign>)
        requires
            self.wf(),
        ensures
            match found {
                Some(campaign) => self@.campaigns.contains_key(*at) && campaign@ == self@.campaigns[*at],
                None => !self@.campaigns.contains_key(*at),
            },
    {
        proof {
            lemma_records_keys(self.campaigns@);
        }
        match find_account(&self.campaigns, at) {
            Some(i) => {
                proof {
                    lemma_records_value(self.campaigns@, i as int);
                }
                Some(&self.campaigns[i].data)
            },
            None => None,
        }
    }

    /// The receipt stored under `at`, if there is one.
    pub fn receipt(&self, at: &Pubkey) -> (found: Option<&VoteReceipt>)
        requires
            self.wf(),
        ensures
            match found {
                Some(receipt) => self@.receipts.contains_key(*at) && *receipt == self@.receipts[*at],
                None => !self@.receipts.contains_key(*at),
            },
    {
        proof {
            lemma_records_keys(self.receipts@);
        }
        match find_account(&self.receipts, at) {
            Some(i) => {
                proof {
                    lemma_records_value(self.receipts@, i as int);
                }
                Some(&self.receipts[i].data)
            },
            None => None,
        }
    }

    /// The number of receipts given out in `campaign`.
    pub fn receipt_count(&self, campaign: &Pubkey) -> (count: usize)
        requires
            self.wf(),
        ensures
            count == self@.receipts_of(*campaign).len(),
    {
        let mut count: usize = 0;
        let mut i: usize = 0;
        assert(given_out(self.receipts@, *campaign, 0) =~= Set::empty());
        while i < self.receipts.len()
            invariant
                i <= self.receipts.len(),
                distinct_keys(self.receipts@),
                given_out(self.receipts@, *campaign, i as int).finite(),
                count == given_out(self.receipts@, *campaign, i as int).len(),
                count <= i,
            decreases self.receipts.len() - i,
        {
            let ghost before = given_out(self.receipts@, *campaign, i as int);
            if self.receipts[i].data.campaign == *campaign {
                assert(given_out(self.receipts@, *campaign, i + 1) =~= before.insert(self.receipts@[i as int].key));
                assert(!before.contains(self.receipts@[i as int].key));
                count = count + 1;
            } else {
                assert(given_out(self.receipts@, *campaign, i + 1) =~= before);
            }
            i = i + 1;
        }
        proof {
            lemma_records_keys(self.receipts@);
            assert(given_out(self.receipts@, *campaign, i as int) =~= self@.receipts_of(*campaign)) by {
                assert forall|at: Pubkey|
                    given_out(self.receipts@, *campaign, i as int).contains(at) <==> self@.receipts_of(
                        *campaign,
                    ).contains(at) by {
                    if given_out(self.receipts@, *campaign, i as int).contains(at) {
                        let j = choose|j: int|
                            0 <= j < i && (#[trigger] self.receipts@[j]).key == at && self.receipts@[j].data.campaign
                                == *campaign;
                        lemma_records_value(self.receipts@, j);
                    }
                    if self@.receipts_of(*campaign).contains(at) {
                        assert(has_key(self.receipts@, at));
                        let j = choose|j: int| 0 <= j < self.receipts@.len() && (#[trigger] self.receipts@[j]).key == at;
                        lemma_records_value(self.receipts@, j);
                    }
                }
            }
        }
        count
    }

    /// Opens the campaign of `creator` at the time `now`, as
    /// [`LedgerView::create_campaign`] says, and answers with its address.
    pub fn create_campaign(
        &mut self,
        creator: Pubkey,
        description: String,
        poll_descriptions: Vec<String>,
        duration_in_seconds: i64,
        now: i64,
    ) -> (answer: Result<Pubkey, CustomError>)
        requires
            old(self).wf(),
        ensures
            final(self).wf(),
            (final(self)@, answer) == old(self)@.create_campaign(
                creator,
                description@,
                text_views(poll_descriptions@),
                duration_in_seconds as int,
                now as int,
            ),
    {
        proof {
            lemma_create_campaign_wf(
                self@,
                creator,
                description@,
                text_views(poll_descriptions@),
                duration_in_seconds as int,
                now as int,
            );
            lemma_records_keys(self.campaigns@);
        }
        match validate_campaign(description.as_str(), &poll_descriptions, duration_in_seconds) {
            Err(fault) => {
                return Err(fault);
            },
            Ok(_) => {},
        }
        let at = match find_campaign_address(&self.program_id, &creator, description.as_str()) {
            Some(at) => at,
            None => {
                return Err(CustomError::AddressUnavailable);
            },
        };
        if find_account(&self.campaigns, &at).is_some() {
            return Err(CustomError::AlreadyExists);
        }
        if now.checked_add(duration_in_seconds).is_none() {
            return Err(CustomError::ClockUnavailable);
        }
        let campaign = Campaign::new(creator, description, poll_descriptions, now, duration_in_seconds);
        let account = Account { key: at, data: campaign };
        proof {
            lemma_records_push(self.campaigns@, account);
        }
        self.campaigns.push(account);
        Ok(at)
    }

    /// Casts the vote of `voter` at the time `now`, as
    /// [`LedgerView::cast_vote`] says, and answers with the receipt.
    ///
    /// The receipt is stored before the vote is counted.
    pub fn cast_vote(&mut self, campaign: Pubkey, voter: Pubkey, poll_index: u8, now: i64) -> (answer: Result<
        VoteReceipt,
        CustomError,
    >)
        requires
            old(self).wf(),
        ensures
            final(self).wf(),
            (final(self)@, answer) == old(self)@.cast_vote(campaign, voter, poll_index, now as int),
    {
        proof {
            lemma_cast_vote_wf(self@, campaign, voter, poll_index, now as int);
            lemma_records_keys(self.campaigns@);
            lemma_records_keys(self.receipts@);
        }
        let i = match find_account(&self.campaigns, &campaign) {
            Some(i) => i,
            None => {
                return Err(CustomError::CampaignNotFound);
            },
        };
        proof {
            lemma_records_value(self.campaigns@, i as int);
        }
        match validate_vote(&self.campaigns[i].data, poll_index, now) {
            Err(fault) => {
                return Err(fault);
            },
            Ok(_) => {},
        }
        let at = match find_receipt_address(&self.program_id, &campaign, &voter) {
            Some(at) => at,
            None => {
                return Err(CustomError::AddressUnavailable);
            },
        };
        if find_account(&self.receipts, &at).is_some() {
            return Err(CustomError::AlreadyVoted);
        }
        let receipt = VoteReceipt { campaign, voter, poll_index };
        let account = Account { key: at, data: receipt };
        proof {
            let polls = old(self)@.campaigns[campaign].polls;
            assert(old(self)@.campaign_wf(campaign));
            assert(old(self)@.poll_audited(campaign, poll_index as int));
            lemma_records_len(self.receipts@);
            lemma_len_subset(old(self)@.receipts_for(campaign, poll_index as int), old(self)@.receipts.dom());
            lemma_records_push(self.receipts@, account);
        }
        self.receipts.push(account);
        assert(self.campaigns@[i as int].data.polls@[poll_index as int].votes < u64::MAX) by {
            let counted = old(self)@.campaigns[campaign].polls[poll_index as int];
            assert(counted == self.campaigns@[i as int].data.polls@[poll_index as int]@);
            assert(counted.votes <= old(self).receipts@.len());
            assert(self.receipts.len() == old(self).receipts@.len() + 1);
        }
        let stored = &mut self.campaigns[i];
        stored.data.record_vote(poll_index);
        proof {
            lemma_records_update(old(self).campaigns@, i as int, self.campaigns@[i as int]);
            assert(self.campaigns@ =~= old(self).campaigns@.update(i as int, self.campaigns@[i as int]));
        }
        Ok(receipt)
    }
}

} // verus!
