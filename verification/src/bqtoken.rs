//! The BQ governance token: the ledger whose balances weigh votes.

use candid::{Nat, Principal};
use vstd::prelude::*;

pub use crate::bqbtc::{TokenMetadata, TxError, TxReceipt};

use crate::assoc::AssocMap;
use crate::ledger;
use crate::ledger::LedgerModel;
use crate::model::Model;
use crate::natural::val;

verus! {

/// The BQ token ledger.
#[derive(Debug)]
pub struct BQToken {
    /// What each identity holds.
    pub balances: AssocMap<Principal, Nat>,
    pub metadata: TokenMetadata,
}

impl Model for BQToken {
    type M = LedgerModel;

    open spec fn model(&self) -> LedgerModel {
        LedgerModel { balances: self.balances.model(), metadata: self.metadata.model() }
    }

    fn duplicate(&self) -> (r: Self) {
        BQToken { balances: self.balances.duplicate(), metadata: self.metadata.duplicate() }
    }
}

impl Default for BQToken {
    /// A ledger on which nobody holds anything, for a token without name or
    /// supply, owned by the anonymous identity.
    fn default() -> (r: Self)
        ensures
            r.model().balances == Map::<Principal, nat>::empty(),
            r.model().metadata.logo == Seq::<char>::empty(),
            r.model().metadata.name == Seq::<char>::empty(),
            r.model().metadata.symbol == Seq::<char>::empty(),
            r.model().metadata.decimals == 0,
            r.model().metadata.total_supply == 0,
            r.model().metadata.pool_address is None,
            r.model().metadata.cover_address is None,
    {
        BQToken { balances: AssocMap::new(), metadata: TokenMetadata::default() }
    }
}

/// Starts the ledger anew: `owner` holds the whole `initial_supply`.
pub fn init(
    token: &mut BQToken,
    logo: String,
    name: String,
    symbol: String,
    decimals: u8,
    initial_supply: Nat,
    owner: Principal,
)
    ensures
        final(token).model() == LedgerModel::started(
            logo@,
            name@,
            symbol@,
            decimals as nat,
            val(&initial_supply),
            owner,
        ),
{
    ledger::init(
        &mut token.balances,
        &mut token.metadata,
        logo,
        name,
        symbol,
        decimals,
        initial_supply,
        owner,
    );
}

/// Moves `amount` from the caller to `to`.
pub fn transfer(token: &mut BQToken, caller: Principal, to: Principal, amount: Nat) -> (r:
    TxReceipt)
    ensures
        (final(token).model(), r.model()) == old(token).model().transfer(caller, to, val(&amount)),
{
    ledger::transfer(&mut token.balances, caller, to, amount)
}

/// Creates `amount` for `account`. Only the owner may.
pub fn mint(token: &mut BQToken, caller: Principal, account: Principal, amount: Nat) -> (r:
    TxReceipt)
    ensures
        (final(token).model(), r.model()) == old(token).model().mint(caller, account, val(&amount)),
{
    ledger::mint(&mut token.balances, &mut token.metadata, caller, account, amount)
}

/// Destroys `amount` of what `account` holds. Only the owner may.
pub fn burn(token: &mut BQToken, caller: Principal, account: Principal, amount: Nat) -> (r:
    TxReceipt)
    ensures
        (final(token).model(), r.model()) == old(token).model().burn(caller, account, val(&amount)),
{
    ledger::burn(&mut token.balances, &mut token.metadata, caller, account, amount)
}

/// What `account` holds; nothing, if the ledger does not know it. This is
/// the weight of the account's vote.
pub fn balance_of(token: &BQToken, account: Principal) -> (r: Nat)
    ensures
        val(&r) == token.model().balance_of(account),
{
    ledger::balance_of(&token.balances, account)
}

/// What the token says of itself.
pub fn get_metadata(token: &BQToken) -> (r: TokenMetadata)
    ensures
        r.model() == token.model().metadata,
{
    token.metadata.clone()
}

} // verus!
