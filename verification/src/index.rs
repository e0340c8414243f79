//! The account index: for each account, the ordered, capacity-bounded list of
//! certificate ids it owns, kept as an association list with unique accounts.

use vstd::prelude::*;

verus! {

/// One account's entry in the index: the ids of the certificates issued to it,
/// in issuance order.
#[derive(Debug)]
pub struct AccountRecord {
    pub account: u64,
    pub ids: Vec<u64>,
}

impl Clone for AccountRecord {
    fn clone(&self) -> (r: Self)
        ensures
            r.account == self.account,
            r.ids@ == self.ids@,
    {
        let r = AccountRecord { account: self.account, ids: self.ids.clone() };
        proof {
            assert(r.ids@ =~= self.ids@);
        }
        r
    }
}

/// No two entries speak of the same account.
pub open spec fn unique_accounts(entries: Seq<AccountRecord>) -> bool {
    forall|j1: int, j2: int|
        0 <= j1 < j2 < entries.len() ==> (#[trigger] entries[j1]).account != (
        #[trigger] entries[j2]).account
}

/// The ids recorded for `account`: the ids of the first entry for it, or the
/// empty sequence when no entry exists.
pub open spec fn ids_in(entries: Seq<AccountRecord>, account: u64) -> Seq<u64>
    decreases entries.len(),
{
    if entries.len() == 0 {
        Seq::empty()
    } else if entries[0].account == account {
        entries[0].ids@
    } else {
        ids_in(entries.drop_first(), account)
    }
}

/// When no entry names `account`, nothing is recorded for it.
pub proof fn lemma_ids_in_absent(entries: Seq<AccountRecord>, account: u64)
    requires
        forall|j: int| 0 <= j < entries.len() ==> (#[trigger] entries[j]).account != account,
    ensures
        ids_in(entries, account) == Seq::<u64>::empty(),
    decreases entries.len(),
{
    if entries.len() > 0 {
        assert(forall|j: int|
            0 <= j < entries.drop_first().len() ==> #[trigger] entries.drop_first()[j]
                == entries[j + 1]);
        lemma_ids_in_absent(entries.drop_first(), account);
    }
}

/// The ids recorded for `account` are exactly those of the first entry that
/// names it.
pub proof fn lemma_ids_in_at(entries: Seq<AccountRecord>, account: u64, i: int)
    requires
        0 <= i < entries.len(),
        entries[i].account == account,
        forall|j: int| 0 <= j < i ==> (#[trigger] entries[j]).account != account,
    ensures
        ids_in(entries, account) == entries[i].ids@,
    decreases entries.len(),
{
    if i == 0 {
    } else {
        assert(entries[0].account != account);
        assert(forall|j: int|
            0 <= j < entries.drop_first().len() ==> #[trigger] entries.drop_first()[j]
                == entries[j + 1]);
        lemma_ids_in_at(entries.drop_first(), account, i - 1);
    }
}

/// Replacing entry `i` by a record for the same account changes nothing that
/// is recorded for any other account.
pub proof fn lemma_ids_in_update_other(
    entries: Seq<AccountRecord>,
    i: int,
    rec: AccountRecord,
    account: u64,
)
    requires
        0 <= i < entries.len(),
        rec.account == entries[i].account,
        account != rec.account,
    ensures
        ids_in(entries.update(i, rec), account) == ids_in(entries, account),
    decreases entries.len(),
{
    let updated = entries.update(i, rec);
    if i == 0 {
        assert(updated.drop_first() =~= entries.drop_first());
    } else {
        assert(updated[0] == entries[0]);
        assert(updated.drop_first() =~= entries.drop_first().update(i - 1, rec));
        lemma_ids_in_update_other(entries.drop_first(), i - 1, rec, account);
    }
}

/// Appending an entry for a fresh account changes nothing that is recorded
/// for any other account.
pub proof fn lemma_ids_in_push_other(entries: Seq<AccountRecord>, rec: AccountRecord, account: u64)
    requires
        account != rec.account,
    ensures
        ids_in(entries.push(rec), account) == ids_in(entries, account),
    decreases entries.len(),
{
    let pushed = entries.push(rec);
    if entries.len() == 0 {
        assert(pushed[0] == rec);
        assert(pushed.drop_first() =~= entries);
        assert(ids_in(pushed, account) == ids_in(entries, account));
    } else {
        assert(pushed[0] == entries[0]);
        assert(pushed.drop_first() =~= entries.drop_first().push(rec));
        lemma_ids_in_push_other(entries.drop_first(), rec, account);
    }
}

/// What is recorded for an account depends only on the accounts and id
/// sequences of the entries, not on the entry values themselves.
pub proof fn lemma_ids_in_congruent(e1: Seq<AccountRecord>, e2: Seq<AccountRecord>, account: u64)
    requires
        e1.len() == e2.len(),
        forall|j: int|
            0 <= j < e1.len() ==> (#[trigger] e1[j]).account == (#[trigger] e2[j]).account
                && e1[j].ids@ == e2[j].ids@,
    ensures
        ids_in(e1, account) == ids_in(e2, account),
    decreases e1.len(),
{
    if e1.len() > 0 {
        assert(e1[0].account == e2[0].account);
        if e1[0].account != account {
            assert(forall|j: int|
                0 <= j < e1.drop_first().len() ==> #[trigger] e1.drop_first()[j] == e1[j + 1]
                    && #[trigger] e2.drop_first()[j] == e2[j + 1]);
            lemma_ids_in_congruent(e1.drop_first(), e2.drop_first(), account);
        }
    }
}

/// What is recorded for an account is either nothing, or the ids of an entry
/// that names the account.
pub proof fn lemma_ids_in_entry(entries: Seq<AccountRecord>, account: u64)
    ensures
        ids_in(entries, account) == Seq::<u64>::empty() || exists|j: int|
            0 <= j < entries.len() && (#[trigger] entries[j]).account == account && ids_in(
                entries,
                account,
            ) == entries[j].ids@,
    decreases entries.len(),
{
    if entries.len() == 0 {
    } else if entries[0].account == account {
        assert(entries[0].account == account && ids_in(entries, account) == entries[0].ids@);
    } else {
        let rest = entries.drop_first();
        lemma_ids_in_entry(rest, account);
        if ids_in(rest, account) != Seq::<u64>::empty() {
            let j = choose|j: int|
                0 <= j < rest.len() && (#[trigger] rest[j]).account == account && ids_in(
                    rest,
                    account,
                ) == rest[j].ids@;
            assert(entries[j + 1].account == account && ids_in(entries, account) == entries[j
                + 1].ids@);
        }
    }
}

/// Appending an entry for an account with no earlier entry records exactly
/// that entry's ids for it.
pub proof fn lemma_ids_in_push_new(entries: Seq<AccountRecord>, rec: AccountRecord)
    requires
        forall|j: int| 0 <= j < entries.len() ==> (#[trigger] entries[j]).account != rec.account,
    ensures
        ids_in(entries.push(rec), rec.account) == rec.ids@,
    decreases entries.len(),
{
    let pushed = entries.push(rec);
    if entries.len() == 0 {
        assert(pushed[0] == rec);
    } else {
        assert(pushed[0] == entries[0]);
        assert(pushed.drop_first() =~= entries.drop_first().push(rec));
        assert(forall|j: int|
            0 <= j < entries.drop_first().len() ==> #[trigger] entries.drop_first()[j]
                == entries[j + 1]);
        lemma_ids_in_push_new(entries.drop_first(), rec);
    }
}

} // verus!
