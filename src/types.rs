use vstd::prelude::*;

verus! {

/// An account of the host ledger.
pub type AccountId = u64;

/// A transferable amount of the host ledger.
pub type Balance = u64;

/// A block height of the host ledger.
pub type BlockNumber = u64;

/// A point in time of the host ledger.
pub type Moment = u64;

/// The fewest owners a wallet may be created with.
pub const MIN_MULTISIG_WALLET_OWNERS: u16 = 2;

/// The most owners a wallet may be created with.
pub const MAX_MULTISIG_WALLET_OWNERS: u16 = 15;

/// The longest notes a transaction may carry, in bytes.
pub const MAX_NOTES_LEN: u16 = 128;

/// An audit stamp: who made a change, at which block and when.
#[derive(Clone, Copy, Debug, PartialEq, Eq, Structural)]
pub struct Change {
    pub account: AccountId,
    pub block: BlockNumber,
    pub time: Moment,
}

/// A wallet controlled jointly by its owners.
#[derive(Debug)]
pub struct Wallet {
    pub created: Change,
    pub id: AccountId,
    pub owners: Vec<AccountId>,
    pub confirms_required: u16,
}

/// The mathematical value of a [`Wallet`].
pub struct WalletView {
    pub created: Change,
    pub id: AccountId,
    pub owners: Seq<AccountId>,
    pub confirms_required: u16,
}

impl View for Wallet {
    type V = WalletView;

    open spec fn view(&self) -> WalletView {
        WalletView {
            created: self.created,
            id: self.id,
            owners: self.owners@,
            confirms_required: self.confirms_required,
        }
    }
}

/// A transfer proposed against a wallet.
#[derive(Debug)]
pub struct Transaction {
    pub created: Change,
    pub destination: AccountId,
    pub value: Balance,
    pub notes: Vec<u8>,
    pub confirmed_by: Vec<AccountId>,
    pub executed: bool,
}

/// The mathematical value of a [`Transaction`].
pub struct TransactionView {
    pub created: Change,
    pub destination: AccountId,
    pub value: Balance,
    pub notes: Seq<u8>,
    pub confirmed_by: Seq<AccountId>,
    pub executed: bool,
}

impl View for Transaction {
    type V = TransactionView;

    open spec fn view(&self) -> TransactionView {
        TransactionView {
            created: self.created,
            destination: self.destination,
            value: self.value,
            notes: self.notes@,
            confirmed_by: self.confirmed_by@,
            executed: self.executed,
        }
    }
}

/// What the ledger publishes after a successful operation.
#[derive(Clone, Copy, Debug, PartialEq, Eq, Structural)]
pub enum Event {
    /// The creator and the new wallet's id.
    WalletCreated(AccountId, AccountId),
    /// The creator, the wallet's id, the destination and the value.
    TransactionCreated(AccountId, AccountId, AccountId, Balance),
}

/// Why an operation was rejected. A rejected operation changes nothing.
#[derive(Clone, Copy, Debug, PartialEq, Eq, Structural)]
pub enum Error {
    NotEnoughOwners,
    TooManyOwners,
    ThresholdExceedsOwners,
    NotesTooLong,
    WalletNotFound,
    NotAnOwner,
    TransactionCountOverflow,
}

impl Error {
    /// A sentence that describes the error.
    pub fn message(&self) -> &'static str {
        match self {
            Error::NotEnoughOwners => "There can not be less owners than allowed",
            Error::TooManyOwners => "There can not be more owners than allowed",
            Error::ThresholdExceedsOwners =>
                "The required confirmation count can not be greater than owners count",
            Error::NotesTooLong => "Transaction notes are too long",
            Error::WalletNotFound => "Multi-signature wallet not found by id",
            Error::NotAnOwner => "Account is not a wallet owner",
            Error::TransactionCountOverflow => "Transactions count overflow creating new transaction",
        }
    }
}

} // verus!
