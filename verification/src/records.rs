//! The snapshot data model: one record per account of the legacy ledger.
//!
//! An external loader parses the on-disk snapshot and hands this core a
//! fully resident sequence of [`AccountRecord`] values; nothing here reads
//! or parses files.

use vstd::prelude::*;

verus! {

/// A fixed-size account identifier, carried as a plain integer id.
/// The classifier only ever compares addresses for equality.
#[derive(Clone, Copy, PartialEq, Eq, Structural, Debug)]
pub struct AccountAddress {
    pub value: u64,
}

/// The time-based unlock state of a slow wallet: how much of the balance
/// has become spendable so far.
#[derive(Clone, Copy, PartialEq, Eq, Structural, Debug)]
pub struct SlowWalletInfo {
    pub unlocked_amount: u64,
}

/// One entry of the snapshot.
///
/// `balance_amount` is optional; absence means a zero balance.
/// `community_wallet_list` is present on exactly one designated registry
/// record and carries the donor-directed address list.
#[derive(Clone, Debug)]
pub struct AccountRecord {
    pub address: AccountAddress,
    pub balance_amount: Option<u64>,
    pub slow_wallet_info: Option<SlowWalletInfo>,
    pub validator_config_present: bool,
    pub community_wallet_list: Option<Vec<AccountAddress>>,
}

/// The mathematical abstraction of an [`AccountRecord`]: the same fields,
/// with the address list as a `Seq`. All supply specifications are stated
/// over sequences of these.
pub ghost struct RecordView {
    pub address: AccountAddress,
    pub balance_amount: Option<u64>,
    pub slow_unlocked: Option<u64>,
    pub validator_config_present: bool,
    pub community_wallet_list: Option<Seq<AccountAddress>>,
}

impl View for AccountRecord {
    type V = RecordView;

    open spec fn view(&self) -> RecordView {
        RecordView {
            address: self.address,
            balance_amount: self.balance_amount,
            slow_unlocked: match self.slow_wallet_info {
                Some(s) => Some(s.unlocked_amount),
                None => None,
            },
            validator_config_present: self.validator_config_present,
            community_wallet_list: match self.community_wallet_list {
                Some(l) => Some(l@),
                None => None,
            },
        }
    }
}

impl DeepView for AccountRecord {
    type V = RecordView;

    open spec fn deep_view(&self) -> RecordView {
        self.view()
    }
}

} // verus!
