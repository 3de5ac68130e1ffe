//! The processor: fans a sequence of transactions out to per-client
//! accounts.
//!
//! Each transaction goes to its client's account, created on first sight.
//! A failed transaction is reported and never aborts the run or touches any
//! other account. The result is every `(client, account)` pair together with
//! the errors, in the order they occurred.

use vstd::prelude::*;

use crate::account::{apply_spec, Account, AccountView, TransactionError};
use crate::transaction::{ClientId, Transaction};

verus! {

/// The client map a ledger sequence stands for, later entries overriding
/// earlier ones with the same client id.
pub open spec fn ledger_view(s: Seq<(ClientId, Account)>) -> Map<ClientId, AccountView>
    decreases s.len(),
{
    if s.len() == 0 {
        Map::empty()
    } else {
        ledger_view(s.drop_last()).insert(s.last().0, s.last().1@)
    }
}

/// No client id occurs twice in the ledger sequence.
pub open spec fn unique_clients(s: Seq<(ClientId, Account)>) -> bool {
    forall|i: int, j: int| 0 <= i < j < s.len() ==> (#[trigger] s[i]).0 != (#[trigger] s[j]).0
}

/// Every account of the ledger sequence is well-formed.
pub open spec fn wf_accounts(s: Seq<(ClientId, Account)>) -> bool {
    forall|i: int| 0 <= i < s.len() ==> (#[trigger] s[i]).1@.wf()
}

/// The functional model of the processor: fold every transaction, in
/// order, into the account of its client (a fresh account on first sight),
/// collecting the errors as they occur.
pub open spec fn process_spec(txs: Seq<Transaction>) -> (Map<ClientId, AccountView>, Seq<
    TransactionError,
>)
    decreases txs.len(),
{
    if txs.len() == 0 {
        (Map::empty(), Seq::empty())
    } else {
        let (ledger, errors) = process_spec(txs.drop_last());
        let tx = txs.last();
        let account = if ledger.contains_key(tx.client_id) {
            ledger[tx.client_id]
        } else {
            AccountView::init()
        };
        let (account2, r) = apply_spec(account, tx);
        let errors2 = match r {
            Ok(()) => errors,
            Err(e) => errors.push(e),
        };
        (ledger.insert(tx.client_id, account2), errors2)
    }
}

proof fn lemma_ledger_view_index(s: Seq<(ClientId, Account)>, k: int)
    requires
        unique_clients(s),
        0 <= k < s.len(),
    ensures
        ledger_view(s).contains_key(s[k].0),
        ledger_view(s)[s[k].0] == s[k].1@,
    decreases s.len(),
{
    if k < s.len() - 1 {
        lemma_ledger_view_index(s.drop_last(), k);
    }
}

proof fn lemma_ledger_view_contains(s: Seq<(ClientId, Account)>, c: ClientId)
    ensures
        ledger_view(s).contains_key(c) <==> exists|i: int|
            0 <= i < s.len() && (#[trigger] s[i]).0 == c,
    decreases s.len(),
{
    if s.len() > 0 {
        lemma_ledger_view_contains(s.drop_last(), c);
        if s.last().0 == c {
            assert((s[s.len() - 1]).0 == c);
        } else {
            if ledger_view(s).contains_key(c) {
                let i = choose|i: int|
                    0 <= i < s.drop_last().len() && (#[trigger] s.drop_last()[i]).0 == c;
                assert((s[i]).0 == c);
            }
            if exists|i: int| 0 <= i < s.len() && (#[trigger] s[i]).0 == c {
                let i = choose|i: int| 0 <= i < s.len() && (#[trigger] s[i]).0 == c;
                assert(i < s.len() - 1);
                assert((s.drop_last()[i]).0 == c);
            }
        }
    }
}

proof fn lemma_ledger_view_update(s: Seq<(ClientId, Account)>, k: int, acc: Account)
    requires
        unique_clients(s),
        0 <= k < s.len(),
    ensures
        ledger_view(s.update(k, (s[k].0, acc))) == ledger_view(s).insert(s[k].0, acc@),
    decreases s.len(),
{
    let c = s[k].0;
    let s2 = s.update(k, (c, acc));
    if k == s.len() - 1 {
        assert(s2.drop_last() =~= s.drop_last());
        assert(ledger_view(s.drop_last()).insert(c, s.last().1@).insert(c, acc@)
            =~= ledger_view(s.drop_last()).insert(c, acc@));
    } else {
        lemma_ledger_view_update(s.drop_last(), k, acc);
        assert(s2.drop_last() =~= s.drop_last().update(k, (c, acc)));
        assert(s2.last() == s.last());
        assert(ledger_view(s.drop_last()).insert(c, acc@).insert(s.last().0, s.last().1@)
            =~= ledger_view(s.drop_last()).insert(s.last().0, s.last().1@).insert(c, acc@));
    }
}

/// The position of `client` in the ledger sequence, if it has one.
fn find_client(accounts: &Vec<(ClientId, Account)>, client: ClientId) -> (r: Option<usize>)
    ensures
        match r {
            Some(k) => k < accounts@.len() && accounts@[k as int].0 == client,
            None => forall|i: int| 0 <= i < accounts@.len() ==> (#[trigger] accounts@[i]).0 != client,
        },
{
    let mut i: usize = 0;
    while i < accounts.len()
        invariant
            i <= accounts@.len(),
            forall|j: int| 0 <= j < i ==> (#[trigger] accounts@[j]).0 != client,
        decreases accounts@.len() - i,
    {
        if accounts[i].0 == client {
            return Some(i);
        }
        i = i + 1;
    }
    None
}

/// Routes every transaction, in order, to its client's account, creating
/// the account on first sight. Returns every `(client, account)` pair, each
/// client exactly once, together with every per-transaction error in the
/// order the failures occurred: exactly the fold of [`process_spec`].
pub fn process(transactions: Vec<Transaction>) -> (r: (Vec<(ClientId, Account)>, Vec<
    TransactionError,
>))
    ensures
        unique_clients(r.0@),
        wf_accounts(r.0@),
        ledger_view(r.0@) == process_spec(transactions@).0,
        r.1@ == process_spec(transactions@).1,
{
    let mut accounts: Vec<(ClientId, Account)> = Vec::new();
    let mut errors: Vec<TransactionError> = Vec::new();
    proof {
        assert(transactions@.take(0) =~= Seq::<Transaction>::empty());
    }
    let mut i: usize = 0;
    while i < transactions.len()
        invariant
            i <= transactions@.len(),
            unique_clients(accounts@),
            wf_accounts(accounts@),
            (ledger_view(accounts@), errors@) == process_spec(transactions@.take(i as int)),
        decreases transactions@.len() - i,
    {
        let tx = transactions[i];
        let client = tx.client_id;
        proof {
            assert(transactions@.take(i + 1).drop_last() =~= transactions@.take(i as int));
            assert(transactions@.take(i + 1).last() == transactions@[i as int]);
            lemma_ledger_view_contains(accounts@, client);
        }
        let result = match find_client(&accounts, client) {
            Some(k) => {
                proof {
                    lemma_ledger_view_index(accounts@, k as int);
                }
                let ghost accounts_before = accounts@;
                let entry = &mut accounts[k];
                let result = entry.1.apply(&tx);
                proof {
                    lemma_ledger_view_update(accounts_before, k as int, accounts@[k as int].1);
                }
                result
            },
            None => {
                let mut account = Account::new();
                let result = account.apply(&tx);
                proof {
                    assert(accounts@.push((client, account)).drop_last() =~= accounts@);
                }
                accounts.push((client, account));
                result
            },
        };
        match result {
            Ok(()) => {},
            Err(e) => errors.push(e),
        }
        i = i + 1;
    }
    proof {
        assert(transactions@.take(transactions@.len() as int) =~= transactions@);
    }
    (accounts, errors)
}

} // verus!
