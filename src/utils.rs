use crate::types::texts_view;
use vstd::prelude::*;

verus! {

/// Whether `account` occurs in `accounts`.
pub fn contains_account(accounts: &Vec<String>, account: &String) -> (r: bool)
    ensures
        r == texts_view(accounts@).contains(account@),
{
    let mut i: usize = 0;
    while i < accounts.len()
        invariant
            i <= accounts.len(),
            forall|j: int| 0 <= j < i ==> (#[trigger] accounts@[j])@ != account@,
        decreases accounts.len() - i,
    {
        if accounts[i] == *account {
            assert(texts_view(accounts@)[i as int] == account@);
            return true;
        }
        i = i + 1;
    }
    assert forall|j: int| 0 <= j < accounts.len() implies #[trigger] texts_view(accounts@)[j] != account@ by {
        assert(texts_view(accounts@)[j] == accounts@[j]@);
    }
    false
}

/// The distinct accounts of `account_vec`, each once, in order of first occurrence.
pub fn account_vec_to_set(account_vec: Vec<String>) -> (r: Vec<String>)
    ensures
        texts_view(r@).no_duplicates(),
        texts_view(r@).to_set() == texts_view(account_vec@).to_set(),
{
    let ghost accounts = texts_view(account_vec@);
    let mut set: Vec<String> = Vec::new();
    let mut i: usize = 0;
    while i < account_vec.len()
        invariant
            i <= account_vec.len(),
            accounts == texts_view(account_vec@),
            texts_view(set@).no_duplicates(),
            texts_view(set@).to_set() == accounts.subrange(0, i as int).to_set(),
        decreases account_vec.len() - i,
    {
        let ghost before = texts_view(set@);
        assert(accounts.subrange(0, i + 1) =~= accounts.subrange(0, i as int).push(accounts[i as int]));
        proof {
            accounts.subrange(0, i as int).lemma_push_to_set_commute(accounts[i as int]);
        }
        if !contains_account(&set, &account_vec[i]) {
            set.push(account_vec[i].clone());
            assert(texts_view(set@) =~= before.push(accounts[i as int]));
            proof {
                before.lemma_push_to_set_commute(accounts[i as int]);
            }
        } else {
            assert(before.to_set().contains(accounts[i as int]));
            assert(before.to_set().insert(accounts[i as int]) =~= before.to_set());
        }
        i = i + 1;
    }
    assert(accounts.subrange(0, account_vec.len() as int) =~= accounts);
    set
}

} // verus!
