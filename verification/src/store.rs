use crate::pubkey::Pubkey;
use vstd::prelude::*;

verus! {

/// A record together with the address under which it is stored.
#[derive(Debug, Clone, Default, PartialEq, Eq)]
pub struct Account<T> {
    pub key: Pubkey,
    pub data: T,
}

/// Whether no two of `accounts` share an address.
pub open spec fn distinct_keys<T>(accounts: Seq<Account<T>>) -> bool {
    forall|i: int, j: int|
        0 <= i < j < accounts.len() ==> (#[trigger] accounts[i]).key != (#[trigger] accounts[j]).key
}

/// Whether one of `accounts` is stored under `key`.
pub open spec fn has_key<T>(accounts: Seq<Account<T>>, key: Pubkey) -> bool {
    exists|i: int| 0 <= i < accounts.len() && (#[trigger] accounts[i]).key == key
}

/// The records that `accounts` hold, each under its address. Of two accounts
/// with one address the later one counts.
pub open spec fn records<T: View>(accounts: Seq<Account<T>>) -> Map<Pubkey, T::V>
    decreases accounts.len(),
{
    if accounts.len() == 0 {
        Map::empty()
    } else {
        records(accounts.drop_last()).insert(accounts.last().key, accounts.last().data@)
    }
}

/// The addresses of the records are those of the accounts, and there are
/// finitely many.
pub proof fn lemma_records_keys<T: View>(accounts: Seq<Account<T>>)
    ensures
        records(accounts).dom().finite(),
        forall|key: Pubkey| #[trigger] records(accounts).contains_key(key) <==> has_key(accounts, key),
    decreases accounts.len(),
{
    if accounts.len() > 0 {
        let front = accounts.drop_last();
        lemma_records_keys(front);
        assert forall|key: Pubkey| #[trigger] records(accounts).contains_key(key) <==> has_key(
            accounts,
            key,
        ) by {
            if has_key(accounts, key) {
                let i = choose|i: int| 0 <= i < accounts.len() && (#[trigger] accounts[i]).key == key;
                if i < front.len() {
                    assert(front[i].key == key);
                    assert(has_key(front, key));
                }
            }
            if records(accounts).contains_key(key) && key != accounts.last().key {
                assert(has_key(front, key));
                let i = choose|i: int| 0 <= i < front.len() && (#[trigger] front[i]).key == key;
                assert(accounts[i].key == key);
            }
            if key == accounts.last().key {
                assert(accounts[accounts.len() - 1].key == key);
            }
        }
    }
}

/// Under distinct addresses each account's record is found under its own.
pub proof fn lemma_records_value<T: View>(accounts: Seq<Account<T>>, i: int)
    requires
        distinct_keys(accounts),
        0 <= i < accounts.len(),
    ensures
        records(accounts).contains_key(accounts[i].key),
        records(accounts)[accounts[i].key] == accounts[i].data@,
    decreases accounts.len(),
{
    let front = accounts.drop_last();
    if i < accounts.len() - 1 {
        assert(distinct_keys(front)) by {
            assert forall|a: int, b: int| 0 <= a < b < front.len() implies (#[trigger] front[a]).key != (
            #[trigger] front[b]).key by {
                assert(accounts[a].key != accounts[b].key);
            }
        }
        lemma_records_value(front, i);
        assert(accounts[i].key != accounts[accounts.len() - 1].key);
    }
}

/// Under distinct addresses there are as many records as accounts.
pub proof fn lemma_records_len<T: View>(accounts: Seq<Account<T>>)
    requires
        distinct_keys(accounts),
    ensures
        records(accounts).dom().finite(),
        records(accounts).dom().len() == accounts.len(),
    decreases accounts.len(),
{
    lemma_records_keys(accounts);
    if accounts.len() > 0 {
        let front = accounts.drop_last();
        assert(distinct_keys(front)) by {
            assert forall|a: int, b: int| 0 <= a < b < front.len() implies (#[trigger] front[a]).key != (
            #[trigger] front[b]).key by {
                assert(accounts[a].key != accounts[b].key);
            }
        }
        lemma_records_len(front);
        lemma_records_keys(front);
        if has_key(front, accounts.last().key) {
            let i = choose|i: int| 0 <= i < front.len() && (#[trigger] front[i]).key == accounts.last().key;
            assert(accounts[i].key != accounts[accounts.len() - 1].key);
        }
        assert(records(accounts).dom() =~= records(front).dom().insert(accounts.last().key));
    }
}

/// A new account adds its record.
pub proof fn lemma_records_push<T: View>(accounts: Seq<Account<T>>, account: Account<T>)
    ensures
        records(accounts.push(account)) == records(accounts).insert(account.key, account.data@),
        distinct_keys(accounts) && !has_key(accounts, account.key) ==> distinct_keys(accounts.push(account)),
{
    assert(accounts.push(account).drop_last() =~= accounts);
    if distinct_keys(accounts) && !has_key(accounts, account.key) {
        let pushed = accounts.push(account);
        assert forall|a: int, b: int| 0 <= a < b < pushed.len() implies (#[trigger] pushed[a]).key != (
        #[trigger] pushed[b]).key by {
            if b < accounts.len() {
                assert(accounts[a].key != accounts[b].key);
            } else {
                assert(accounts[a].key != account.key);
            }
        }
    }
}

/// An account rewritten in place replaces its record and no other.
pub proof fn lemma_records_update<T: View>(accounts: Seq<Account<T>>, i: int, account: Account<T>)
    requires
        distinct_keys(accounts),
        0 <= i < accounts.len(),
        account.key == accounts[i].key,
    ensures
        distinct_keys(accounts.update(i, account)),
        records(accounts.update(i, account)) == records(accounts).insert(account.key, account.data@),
    decreases accounts.len(),
{
    let updated = accounts.update(i, account);
    assert forall|a: int, b: int| 0 <= a < b < updated.len() implies (#[trigger] updated[a]).key != (
    #[trigger] updated[b]).key by {
        assert(accounts[a].key != accounts[b].key);
    }
    let front = accounts.drop_last();
    if i == accounts.len() - 1 {
        assert(updated.drop_last() =~= front);
        assert(records(updated) =~= records(accounts).insert(account.key, account.data@));
    } else {
        assert(distinct_keys(front)) by {
            assert forall|a: int, b: int| 0 <= a < b < front.len() implies (#[trigger] front[a]).key != (
            #[trigger] front[b]).key by {
                assert(accounts[a].key != accounts[b].key);
            }
        }
        lemma_records_update(front, i, account);
        assert(updated.drop_last() =~= front.update(i, account));
        assert(accounts[i].key != accounts[accounts.len() - 1].key);
        assert(records(updated) =~= records(accounts).insert(account.key, account.data@));
    }
}

/// Looks for the account stored under `key`.
pub fn find_account<T>(accounts: &Vec<Account<T>>, key: &Pubkey) -> (found: Option<usize>)
    ensures
        match found {
            Some(i) => i < accounts.len() && accounts[i as int].key == *key,
            None => !has_key(accounts@, *key),
        },
{
    let mut i: usize = 0;
    while i < accounts.len()
        invariant
            i <= accounts.len(),
            forall|j: int| 0 <= j < i ==> (#[trigger] accounts[j]).key != *key,
        decreases accounts.len() - i,
    {
        if accounts[i].key == *key {
            return Some(i);
        }
        i = i + 1;
    }
    None
}

} // verus!
