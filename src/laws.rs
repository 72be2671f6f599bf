//! Properties of the ledger that relate its operations, proved over the
//! values that their contracts speak of.

use vstd::prelude::*;
use crate::ledger::{create_wallet_error, new_transaction, new_wallet, wallet_valid, LedgerModel};
use crate::owners::{
    dedup, lemma_dedup_contains, lemma_dedup_len, lemma_dedup_no_duplicates, lemma_dedup_order,
    seen_before,
};
use crate::types::{AccountId, Balance, BlockNumber, Error, Moment, MAX_NOTES_LEN};

verus! {

/// A wallet with between two and fifteen owners listed, and a threshold no
/// larger than the number of distinct owners, is accepted; the wallet stored
/// holds each listed owner exactly once, in the order first seen.
pub proof fn create_wallet_accepts_valid_owners(
    creator: AccountId,
    owners: Seq<AccountId>,
    confirms_required: u16,
    wallet_id: AccountId,
    block: BlockNumber,
    time: Moment,
)
    requires
        2 <= owners.len() <= 15,
        confirms_required <= dedup(owners).len(),
    ensures
        create_wallet_error(owners, confirms_required) is None,
        ({
            let w = new_wallet(creator, owners, confirms_required, wallet_id, block, time);
            &&& wallet_valid(w)
            &&& w.owners.no_duplicates()
            &&& forall|a: AccountId| w.owners.contains(a) <==> owners.contains(a)
            &&& forall|i: int, j: int|
                0 <= i < j < w.owners.len() ==> seen_before(owners, w.owners[i], w.owners[j])
        }),
{
    lemma_dedup_no_duplicates(owners);
    lemma_dedup_len(owners);
    assert forall|a: AccountId| dedup(owners).contains(a) <==> owners.contains(a) by {
        lemma_dedup_contains(owners, a);
    }
    assert forall|i: int, j: int| 0 <= i < j < dedup(owners).len() implies seen_before(
        owners,
        dedup(owners)[i],
        dedup(owners)[j],
    ) by {
        lemma_dedup_order(owners, i, j);
    }
}

/// Fewer than two owners listed is rejected with `NotEnoughOwners`, more than
/// fifteen with `TooManyOwners`, and otherwise a threshold above the number of
/// distinct owners with `ThresholdExceedsOwners`.
pub proof fn create_wallet_rejections(owners: Seq<AccountId>, confirms_required: u16)
    ensures
        owners.len() < 2 ==> create_wallet_error(owners, confirms_required) == Some(
            Error::NotEnoughOwners,
        ),
        owners.len() > 15 ==> create_wallet_error(owners, confirms_required) == Some(
            Error::TooManyOwners,
        ),
        2 <= owners.len() <= 15 && confirms_required > dedup(owners).len() ==> create_wallet_error(
            owners,
            confirms_required,
        ) == Some(Error::ThresholdExceedsOwners),
{
}

/// Notes longer than the limit are rejected with `NotesTooLong`, whatever the
/// wallet and the caller.
pub proof fn notes_too_long_rejected(
    m: LedgerModel,
    caller: AccountId,
    wallet_id: AccountId,
    notes: Seq<u8>,
)
    requires
        notes.len() > MAX_NOTES_LEN,
    ensures
        m.create_transaction_error(caller, wallet_id, notes.len()) == Some(Error::NotesTooLong),
{
}

/// An account that does not own an existing wallet is rejected with
/// `NotAnOwner` when it proposes a transaction with notes of allowed length.
pub proof fn non_owner_rejected(
    m: LedgerModel,
    caller: AccountId,
    wallet_id: AccountId,
    notes: Seq<u8>,
)
    requires
        notes.len() <= MAX_NOTES_LEN,
        m.wallets.contains_key(wallet_id),
        !m.wallets[wallet_id].owners.contains(caller),
    ensures
        m.create_transaction_error(caller, wallet_id, notes.len()) == Some(Error::NotAnOwner),
{
}

/// An owner's proposal with notes of allowed length, on a wallet whose counter
/// is below its largest value, is accepted: the appended transaction is
/// confirmed by the caller alone and not executed, and the counter rises by one.
pub proof fn owner_proposal_accepted(
    m: LedgerModel,
    caller: AccountId,
    wallet_id: AccountId,
    destination: AccountId,
    value: Balance,
    notes: Seq<u8>,
    block: BlockNumber,
    time: Moment,
)
    requires
        m.wf(),
        notes.len() <= MAX_NOTES_LEN,
        m.wallets.contains_key(wallet_id),
        m.wallets[wallet_id].owners.contains(caller),
        m.counts[wallet_id] < u32::MAX,
    ensures
        m.create_transaction_error(caller, wallet_id, notes.len()) is None,
        ({
            let post = m.append_transaction(
                wallet_id,
                new_transaction(caller, destination, value, notes, block, time),
            );
            &&& post.wf()
            &&& post.transactions[wallet_id].last().confirmed_by == seq![caller]
            &&& !post.transactions[wallet_id].last().executed
            &&& post.counts[wallet_id] == m.counts[wallet_id] + 1
        }),
{
    let post = m.append_transaction(
        wallet_id,
        new_transaction(caller, destination, value, notes, block, time),
    );
    assert(post.transactions.dom() =~= m.transactions.dom());
    assert(post.counts.dom() =~= m.counts.dom());
    assert forall|w: AccountId| #[trigger] post.wallets.contains_key(w) implies {
        &&& post.wallets[w].id == w
        &&& wallet_valid(post.wallets[w])
        &&& post.counts[w] == post.transactions[w].len()
    } by {
        assert(m.wallets.contains_key(w));
    }
}

/// With the counter at its largest value, a proposal that passes the other
/// checks is rejected with `TransactionCountOverflow`.
pub proof fn counter_overflow_rejected(
    m: LedgerModel,
    caller: AccountId,
    wallet_id: AccountId,
    notes: Seq<u8>,
)
    requires
        notes.len() <= MAX_NOTES_LEN,
        m.wallets.contains_key(wallet_id),
        m.wallets[wallet_id].owners.contains(caller),
        m.counts[wallet_id] == u32::MAX,
    ensures
        m.create_transaction_error(caller, wallet_id, notes.len()) == Some(
            Error::TransactionCountOverflow,
        ),
{
}

/// One accepted proposal as `create_transaction` states it: `post` is `pre`
/// with the transaction of these arguments appended to the wallet.
pub open spec fn accepted_proposal(
    pre: LedgerModel,
    post: LedgerModel,
    wallet_id: AccountId,
    caller: AccountId,
    destination: AccountId,
    value: Balance,
    notes: Seq<u8>,
    block: BlockNumber,
    time: Moment,
) -> bool {
    &&& pre.create_transaction_error(caller, wallet_id, notes.len()) is None
    &&& post == pre.append_transaction(
        wallet_id,
        new_transaction(caller, destination, value, notes, block, time),
    )
}

/// After a wallet is created, `n` accepted proposals on it leave its counter at
/// `n` and its list holding their `n` transactions in the order proposed.
/// `states[k]` is the storage before proposal `k`; `calls[k]` holds its caller,
/// destination, value, notes, block and time.
pub proof fn successive_proposals(
    states: Seq<LedgerModel>,
    wallet_id: AccountId,
    calls: Seq<(AccountId, AccountId, Balance, Seq<u8>, BlockNumber, Moment)>,
)
    requires
        states.len() == calls.len() + 1,
        states[0].wf(),
        states[0].wallets.contains_key(wallet_id),
        states[0].counts[wallet_id] == 0,
        forall|k: int|
            0 <= k < calls.len() ==> #[trigger] accepted_proposal(
                states[k],
                states[k + 1],
                wallet_id,
                calls[k].0,
                calls[k].1,
                calls[k].2,
                calls[k].3,
                calls[k].4,
                calls[k].5,
            ),
    ensures
        states.last().wf(),
        states.last().counts[wallet_id] == calls.len(),
        states.last().transactions[wallet_id].len() == calls.len(),
        forall|k: int|
            0 <= k < calls.len() ==> #[trigger] states.last().transactions[wallet_id][k]
                == new_transaction(
                calls[k].0,
                calls[k].1,
                calls[k].2,
                calls[k].3,
                calls[k].4,
                calls[k].5,
            ),
    decreases calls.len(),
{
    let n = calls.len() as int;
    if n == 0 {
        assert(states[0].transactions[wallet_id].len() == 0);
    } else {
        let ps = states.drop_last();
        let pc = calls.drop_last();
        assert forall|k: int| 0 <= k < pc.len() implies #[trigger] accepted_proposal(
            ps[k],
            ps[k + 1],
            wallet_id,
            pc[k].0,
            pc[k].1,
            pc[k].2,
            pc[k].3,
            pc[k].4,
            pc[k].5,
        ) by {
            assert(accepted_proposal(
                states[k],
                states[k + 1],
                wallet_id,
                calls[k].0,
                calls[k].1,
                calls[k].2,
                calls[k].3,
                calls[k].4,
                calls[k].5,
            ));
        }
        successive_proposals(ps, wallet_id, pc);
        let c = calls[n - 1];
        assert(accepted_proposal(
            states[n - 1],
            states[n],
            wallet_id,
            c.0,
            c.1,
            c.2,
            c.3,
            c.4,
            c.5,
        ));
        let pre = states[n - 1];
        let t = new_transaction(c.0, c.1, c.2, c.3, c.4, c.5);
        assert(ps.last() == pre);
        owner_proposal_accepted(pre, c.0, wallet_id, c.1, c.2, c.3, c.4, c.5);
        assert forall|k: int| 0 <= k < n implies #[trigger] states.last().transactions[wallet_id][k]
            == new_transaction(
            calls[k].0,
            calls[k].1,
            calls[k].2,
            calls[k].3,
            calls[k].4,
            calls[k].5,
        ) by {
            if k < n - 1 {
                assert(states.last().transactions[wallet_id][k] == pre.transactions[wallet_id][k]);
                assert(pc[k] == calls[k]);
            }
        }
    }
}

} // verus!
