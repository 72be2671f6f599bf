use vstd::prelude::*;
use std::collections::HashMap;
use crate::owners::{dedup, dedup_owners, lemma_dedup_len, lemma_dedup_no_duplicates};
use crate::types::{
    AccountId, Balance, BlockNumber, Change, Error, Event, Moment, Transaction, TransactionView,
    Wallet, WalletView, MAX_MULTISIG_WALLET_OWNERS, MAX_NOTES_LEN, MIN_MULTISIG_WALLET_OWNERS,
};

verus! {

broadcast use vstd::std_specs::hash::group_hash_axioms;

/// The mathematical value of a [`Module`]: what its storage holds.
pub struct LedgerModel {
    /// Each wallet, by its id.
    pub wallets: Map<AccountId, WalletView>,
    /// The ids of the wallets that each account created, oldest first.
    pub wallet_ids: Map<AccountId, Seq<AccountId>>,
    /// The transactions of each wallet, oldest first.
    pub transactions: Map<AccountId, Seq<TransactionView>>,
    /// The transaction counter of each wallet.
    pub counts: Map<AccountId, u32>,
    /// Every event published so far, oldest first.
    pub events: Seq<Event>,
}

/// A wallet as it may be stored: at most the largest number of owners, at
/// least one, none twice, and no more confirmations required than owners.
pub open spec fn wallet_valid(w: WalletView) -> bool {
    &&& 0 < w.owners.len() <= MAX_MULTISIG_WALLET_OWNERS
    &&& w.owners.no_duplicates()
    &&& w.confirms_required <= w.owners.len()
}

/// A transaction as it may be stored in `wallet`: notes within the limit,
/// confirmed by at least one owner, by none twice and by no one else, and
/// executed only once enough owners have confirmed it.
pub open spec fn transaction_valid(wallet: WalletView, t: TransactionView) -> bool {
    &&& t.notes.len() <= MAX_NOTES_LEN
    &&& 0 < t.confirmed_by.len()
    &&& t.confirmed_by.no_duplicates()
    &&& forall|a: AccountId| t.confirmed_by.contains(a) ==> wallet.owners.contains(a)
    &&& t.executed ==> t.confirmed_by.len() >= wallet.confirms_required
}

/// The wallet that `create_wallet` stores for these arguments.
pub open spec fn new_wallet(
    creator: AccountId,
    owners: Seq<AccountId>,
    confirms_required: u16,
    wallet_id: AccountId,
    block: BlockNumber,
    time: Moment,
) -> WalletView {
    WalletView {
        created: Change { account: creator, block, time },
        id: wallet_id,
        owners: dedup(owners),
        confirms_required,
    }
}

/// The transaction that `create_transaction` appends for these arguments:
/// confirmed by its creator alone, and not executed.
pub open spec fn new_transaction(
    caller: AccountId,
    destination: AccountId,
    value: Balance,
    notes: Seq<u8>,
    block: BlockNumber,
    time: Moment,
) -> TransactionView {
    TransactionView {
        created: Change { account: caller, block, time },
        destination,
        value,
        notes,
        confirmed_by: seq![caller],
        executed: false,
    }
}

/// Why `create_wallet` rejects these arguments, checked in this order; `None`
/// where it accepts them.
pub open spec fn create_wallet_error(owners: Seq<AccountId>, confirms_required: u16) -> Option<
    Error,
> {
    if owners.len() < MIN_MULTISIG_WALLET_OWNERS {
        Some(Error::NotEnoughOwners)
    } else if owners.len() > MAX_MULTISIG_WALLET_OWNERS {
        Some(Error::TooManyOwners)
    } else if confirms_required > dedup(owners).len() {
        Some(Error::ThresholdExceedsOwners)
    } else {
        None
    }
}

impl LedgerModel {
    /// Every stored wallet is valid and sits under its own id, and each has a
    /// transaction list and a counter that equals the list's length.
    pub open spec fn wf(self) -> bool {
        &&& self.transactions.dom() == self.wallets.dom()
        &&& self.counts.dom() == self.wallets.dom()
        &&& forall|w: AccountId| #[trigger]
            self.wallets.contains_key(w) ==> {
                &&& self.wallets[w].id == w
                &&& wallet_valid(self.wallets[w])
                &&& self.counts[w] == self.transactions[w].len()
            }
        &&& forall|w: AccountId, k: int|
            self.wallets.contains_key(w) && 0 <= k < self.transactions[w].len()
                ==> transaction_valid(self.wallets[w], #[trigger] self.transactions[w][k])
    }

    /// The ids of the wallets that `account` created; none where it created none.
    pub open spec fn ids_of(self, account: AccountId) -> Seq<AccountId> {
        if self.wallet_ids.contains_key(account) {
            self.wallet_ids[account]
        } else {
            Seq::empty()
        }
    }

    /// The storage after `creator` adds `wallet`: the wallet under its id, its id
    /// after the creator's earlier ones, an empty transaction list, a counter of
    /// zero, and the event.
    pub open spec fn add_wallet(self, creator: AccountId, wallet: WalletView) -> LedgerModel {
        LedgerModel {
            wallets: self.wallets.insert(wallet.id, wallet),
            wallet_ids: self.wallet_ids.insert(creator, self.ids_of(creator).push(wallet.id)),
            transactions: self.transactions.insert(wallet.id, Seq::empty()),
            counts: self.counts.insert(wallet.id, 0),
            events: self.events.push(Event::WalletCreated(creator, wallet.id)),
        }
    }

    /// Why `create_transaction` rejects these arguments, checked in this order;
    /// `None` where it accepts them.
    pub open spec fn create_transaction_error(
        self,
        caller: AccountId,
        wallet_id: AccountId,
        notes_len: nat,
    ) -> Option<Error> {
        if notes_len > MAX_NOTES_LEN {
            Some(Error::NotesTooLong)
        } else if !self.wallets.contains_key(wallet_id) {
            Some(Error::WalletNotFound)
        } else if !self.wallets[wallet_id].owners.contains(caller) {
            Some(Error::NotAnOwner)
        } else if self.counts[wallet_id] == u32::MAX {
            Some(Error::TransactionCountOverflow)
        } else {
            None
        }
    }

    /// The storage after `tx` is appended to the wallet's list: the counter one
    /// higher, and the event published. Everything else is as before.
    pub open spec fn append_transaction(
        self,
        wallet_id: AccountId,
        tx: TransactionView,
    ) -> LedgerModel {
        LedgerModel {
            wallets: self.wallets,
            wallet_ids: self.wallet_ids,
            transactions: self.transactions.insert(
                wallet_id,
                self.transactions[wallet_id].push(tx),
            ),
            counts: self.counts.insert(wallet_id, (self.counts[wallet_id] + 1) as u32),
            events: self.events.push(
                Event::TransactionCreated(tx.created.account, wallet_id, tx.destination, tx.value),
            ),
        }
    }
}

/// The storage of the multi-signature wallet ledger.
pub struct Module {
    wallets: HashMap<AccountId, Wallet>,
    wallet_ids: HashMap<AccountId, Vec<AccountId>>,
    transactions: HashMap<AccountId, Vec<Transaction>>,
    counts: HashMap<AccountId, u32>,
    events: Vec<Event>,
}

impl View for Module {
    type V = LedgerModel;

    closed spec fn view(&self) -> LedgerModel {
        LedgerModel {
            wallets: self.wallets@.map_values(|w: Wallet| w@),
            wallet_ids: self.wallet_ids@.map_values(|v: Vec<AccountId>| v@),
            transactions: self.transactions@.map_values(
                |v: Vec<Transaction>| v@.map_values(|t: Transaction| t@),
            ),
            counts: self.counts@,
            events: self.events@,
        }
    }
}

impl Module {
    /// The storage is well formed.
    pub open spec fn wf(&self) -> bool {
        self@.wf()
    }

    /// Empty storage: no wallets, no transactions, no events.
    pub fn new() -> (r: Module)
        ensures
            r.wf(),
            r@.wallets == Map::<AccountId, WalletView>::empty(),
            r@.wallet_ids == Map::<AccountId, Seq<AccountId>>::empty(),
            r@.transactions == Map::<AccountId, Seq<TransactionView>>::empty(),
            r@.counts == Map::<AccountId, u32>::empty(),
            r@.events == Seq::<Event>::empty(),
    {
        let r = Module {
            wallets: HashMap::new(),
            wallet_ids: HashMap::new(),
            transactions: HashMap::new(),
            counts: HashMap::new(),
            events: Vec::new(),
        };
        assert(r@.wallets =~= Map::empty());
        assert(r@.wallet_ids =~= Map::empty());
        assert(r@.transactions =~= Map::empty());
        r
    }

    /// The audit stamp of a change that `account` makes at `block` and `time`.
    pub fn new_change(account: AccountId, block: BlockNumber, time: Moment) -> (r: Change)
        ensures
            r == (Change { account, block, time }),
    {
        Change { account, block, time }
    }

    /// Creates a wallet under the fresh id `wallet_id`, on behalf of `creator`,
    /// with `owners` in the order given (each kept at its first occurrence).
    /// The owner count is checked before repeats are removed, the threshold
    /// after. A rejected call changes nothing.
    pub fn create_wallet(
        &mut self,
        creator: AccountId,
        owners: Vec<AccountId>,
        confirms_required: u16,
        wallet_id: AccountId,
        block: BlockNumber,
        time: Moment,
    ) -> (r: Result<AccountId, Error>)
        requires
            old(self).wf(),
            !old(self)@.wallets.contains_key(wallet_id),
        ensures
            final(self).wf(),
            r == match create_wallet_error(owners@, confirms_required) {
                Some(e) => Err::<AccountId, Error>(e),
                None => Ok(wallet_id),
            },
            r is Err ==> final(self)@ == old(self)@,
            r is Ok ==> final(self)@ == old(self)@.add_wallet(
                creator,
                new_wallet(creator, owners@, confirms_required, wallet_id, block, time),
            ),
    {
        if owners.len() < MIN_MULTISIG_WALLET_OWNERS as usize {
            return Err(Error::NotEnoughOwners);
        }
        if owners.len() > MAX_MULTISIG_WALLET_OWNERS as usize {
            return Err(Error::TooManyOwners);
        }
        let wallet_owners = dedup_owners(&owners);
        if confirms_required as usize > wallet_owners.len() {
            return Err(Error::ThresholdExceedsOwners);
        }
        proof {
            lemma_dedup_len(owners@);
            lemma_dedup_no_duplicates(owners@);
        }
        let ghost pre = self@;
        let wallet = Wallet {
            created: Self::new_change(creator, block, time),
            id: wallet_id,
            owners: wallet_owners,
            confirms_required,
        };
        self.wallets.insert(wallet_id, wallet);
        let mut ids = match self.wallet_ids.remove(&creator) {
            Some(v) => v,
            None => Vec::new(),
        };
        ids.push(wallet_id);
        self.wallet_ids.insert(creator, ids);
        self.transactions.insert(wallet_id, Vec::new());
        self.counts.insert(wallet_id, 0);
        self.events.push(Event::WalletCreated(creator, wallet_id));
        proof {
            let post = pre.add_wallet(
                creator,
                new_wallet(creator, owners@, confirms_required, wallet_id, block, time),
            );
            assert(self@.wallets =~= post.wallets);
            assert(self@.wallet_ids =~= post.wallet_ids);
            assert(self@.transactions[wallet_id] =~= Seq::<TransactionView>::empty());
            assert(self@.transactions =~= post.transactions);
            assert(self@.counts =~= post.counts);
        }
        Ok(wallet_id)
    }

    /// Appends a transaction of `value` to `destination` to the wallet
    /// `wallet_id`, proposed and confirmed by `caller`, and returns its index.
    /// A rejected call changes nothing.
    pub fn create_transaction(
        &mut self,
        caller: AccountId,
        wallet_id: AccountId,
        destination: AccountId,
        value: Balance,
        notes: Vec<u8>,
        block: BlockNumber,
        time: Moment,
    ) -> (r: Result<u32, Error>)
        requires
            old(self).wf(),
        ensures
            final(self).wf(),
            r == match old(self)@.create_transaction_error(caller, wallet_id, notes@.len()) {
                Some(e) => Err::<u32, Error>(e),
                None => Ok(old(self)@.counts[wallet_id]),
            },
            r is Err ==> final(self)@ == old(self)@,
            r is Ok ==> final(self)@ == old(self)@.append_transaction(
                wallet_id,
                new_transaction(caller, destination, value, notes@, block, time),
            ),
    {
        if notes.len() > MAX_NOTES_LEN as usize {
            return Err(Error::NotesTooLong);
        }
        let wallet = match self.wallets.get(&wallet_id) {
            Some(w) => w,
            None => return Err(Error::WalletNotFound),
        };
        if !is_owner(&wallet.owners, caller) {
            return Err(Error::NotAnOwner);
        }
        let count: u32 = match self.counts.get(&wallet_id) {
            Some(c) => *c,
            None => 0,
        };
        let new_count: u32 = match count.checked_add(1) {
            Some(c) => c,
            None => return Err(Error::TransactionCountOverflow),
        };
        let ghost pre = self@;
        let mut confirmed_by: Vec<AccountId> = Vec::new();
        confirmed_by.push(caller);
        let tx = Transaction {
            created: Self::new_change(caller, block, time),
            destination,
            value,
            notes,
            confirmed_by,
            executed: false,
        };
        let mut txs = match self.transactions.remove(&wallet_id) {
            Some(v) => v,
            None => Vec::new(),
        };
        txs.push(tx);
        self.transactions.insert(wallet_id, txs);
        self.counts.insert(wallet_id, new_count);
        self.events.push(Event::TransactionCreated(caller, wallet_id, destination, value));
        proof {
            let t = new_transaction(caller, destination, value, notes@, block, time);
            let post = pre.append_transaction(wallet_id, t);
            assert(self@.transactions[wallet_id] =~= pre.transactions[wallet_id].push(t));
            assert(self@.transactions =~= post.transactions);
            assert(self@.counts =~= post.counts);
            assert(self@.wallets =~= post.wallets);
            assert(self@.wallet_ids =~= post.wallet_ids);
        }
        Ok(count)
    }

    /// The wallet stored under `id`, if any.
    pub fn wallet_by_id(&self, id: AccountId) -> (r: Option<&Wallet>)
        ensures
            match r {
                Some(w) => self@.wallets.contains_key(id) && w@ == self@.wallets[id],
                None => !self@.wallets.contains_key(id),
            },
    {
        self.wallets.get(&id)
    }

    /// The ids of the wallets that `account` created, oldest first.
    pub fn wallet_ids_by_account_id(&self, account: AccountId) -> (r: Vec<AccountId>)
        ensures
            r@ == self@.ids_of(account),
    {
        let mut r: Vec<AccountId> = Vec::new();
        match self.wallet_ids.get(&account) {
            Some(ids) => {
                let mut i: usize = 0;
                while i < ids.len()
                    invariant
                        i <= ids.len(),
                        r@ == ids@.take(i as int),
                    decreases ids.len() - i,
                {
                    r.push(ids[i]);
                    i = i + 1;
                    assert(r@ =~= ids@.take(i as int));
                }
                assert(ids@.take(i as int) =~= ids@);
            },
            None => {
                assert(r@ =~= Seq::<AccountId>::empty());
            },
        }
        r
    }

    /// The transactions of the wallet `id`, oldest first; `None` where no such
    /// wallet exists.
    pub fn transactions_by_wallet_id(&self, id: AccountId) -> (r: Option<&Vec<Transaction>>)
        ensures
            match r {
                Some(v) => self@.transactions.contains_key(id) && v@.map_values(
                    |t: Transaction| t@,
                ) == self@.transactions[id],
                None => !self@.transactions.contains_key(id),
            },
    {
        self.transactions.get(&id)
    }

    /// The transaction counter of the wallet `id`; zero where no such wallet
    /// exists.
    pub fn transaction_count_by_wallet_id(&self, id: AccountId) -> (r: u32)
        ensures
            r == (if self@.counts.contains_key(id) {
                self@.counts[id]
            } else {
                0
            }),
    {
        match self.counts.get(&id) {
            Some(c) => *c,
            None => 0,
        }
    }

    /// Every event published so far, oldest first.
    pub fn events(&self) -> (r: &Vec<Event>)
        ensures
            r@ == self@.events,
    {
        &self.events
    }

    /// The fewest owners a wallet may be created with.
    pub fn min_multisig_wallet_owners(&self) -> (r: u16)
        ensures
            r == MIN_MULTISIG_WALLET_OWNERS,
    {
        MIN_MULTISIG_WALLET_OWNERS
    }

    /// The most owners a wallet may be created with.
    pub fn max_multisig_wallet_owners(&self) -> (r: u16)
        ensures
            r == MAX_MULTISIG_WALLET_OWNERS,
    {
        MAX_MULTISIG_WALLET_OWNERS
    }
}

/// Whether `account` is among `owners`.
fn is_owner(owners: &Vec<AccountId>, account: AccountId) -> (r: bool)
    ensures
        r == owners@.contains(account),
{
    let mut i: usize = 0;
    while i < owners.len()
        invariant
            i <= owners.len(),
            forall|k: int| 0 <= k < i ==> owners@[k] != account,
        decreases owners.len() - i,
    {
        if owners[i] == account {
            return true;
        }
        i = i + 1;
    }
    false
}

} // verus!
