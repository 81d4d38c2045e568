//! The bqBTC ledger: the token in which deposits, premiums and payouts are
//! made.

use candid::{Nat, Principal};
use vstd::prelude::*;

use crate::assoc::AssocMap;
use crate::error::Error;
use crate::ledger;
use crate::ledger::LedgerModel;
use crate::model::Model;
use crate::natural::{nat_from_u64, val};
use crate::principal::anonymous;

verus! {

/// Why a ledger operation was refused.
#[derive(Debug, PartialEq, Eq, Structural, Clone, Copy)]
pub enum TxError {
    InsufficientBalance,
    InsufficientAllowance,
    Unauthorized,
    LedgerTrap,
    AmountTooSmall,
    BlockUsed,
    ErrorOperationStyle,
    ErrorTo,
    Other,
}

impl Model for TxError {
    type M = TxError;

    open spec fn model(&self) -> TxError {
        *self
    }

    fn duplicate(&self) -> (r: Self) {
        *self
    }
}

/// What a ledger operation returns: the amount moved, or why none was.
pub type TxReceipt = Result<Nat, TxError>;

/// What a token says of itself.
#[derive(Debug)]
pub struct TokenMetadata {
    pub logo: String,
    pub name: String,
    pub symbol: String,
    pub decimals: u8,
    /// All tokens in being.
    pub total_supply: Nat,
    /// Who may mint and burn.
    pub owner: Principal,
    pub pool_address: Option<Principal>,
    pub cover_address: Option<Principal>,
}

/// What a [`TokenMetadata`] stands for.
pub struct TokenMetadataModel {
    pub logo: Seq<char>,
    pub name: Seq<char>,
    pub symbol: Seq<char>,
    pub decimals: nat,
    pub total_supply: nat,
    pub owner: Principal,
    pub pool_address: Option<Principal>,
    pub cover_address: Option<Principal>,
}

impl Model for TokenMetadata {
    type M = TokenMetadataModel;

    open spec fn model(&self) -> TokenMetadataModel {
        TokenMetadataModel {
            logo: self.logo.model(),
            name: self.name.model(),
            symbol: self.symbol.model(),
            decimals: self.decimals.model(),
            total_supply: self.total_supply.model(),
            owner: self.owner.model(),
            pool_address: self.pool_address.model(),
            cover_address: self.cover_address.model(),
        }
    }

    fn duplicate(&self) -> (r: Self) {
        TokenMetadata {
            logo: self.logo.duplicate(),
            name: self.name.duplicate(),
            symbol: self.symbol.duplicate(),
            decimals: self.decimals,
            total_supply: self.total_supply.duplicate(),
            owner: self.owner,
            pool_address: self.pool_address.duplicate(),
            cover_address: self.cover_address.duplicate(),
        }
    }
}

impl Clone for TokenMetadata {
    fn clone(&self) -> (r: Self)
        ensures
            r.model() == self.model(),
    {
        self.duplicate()
    }
}

impl Default for TokenMetadata {
    /// A token without name or supply, owned by the anonymous identity.
    fn default() -> (r: Self)
        ensures
            r.model().logo == Seq::<char>::empty(),
            r.model().name == Seq::<char>::empty(),
            r.model().symbol == Seq::<char>::empty(),
            r.model().decimals == 0,
            r.model().total_supply == 0,
            r.model().pool_address is None,
            r.model().cover_address is None,
    {
        TokenMetadata {
            logo: String::new(),
            name: String::new(),
            symbol: String::new(),
            decimals: 0,
            total_supply: nat_from_u64(0),
            owner: anonymous(),
            pool_address: None,
            cover_address: None,
        }
    }
}

/// The bqBTC ledger.
#[derive(Debug)]
pub struct BqBTC {
    /// What each identity holds.
    pub balances: AssocMap<Principal, Nat>,
    pub metadata: TokenMetadata,
}

impl Model for BqBTC {
    type M = LedgerModel;

    open spec fn model(&self) -> LedgerModel {
        LedgerModel { balances: self.balances.model(), metadata: self.metadata.model() }
    }

    fn duplicate(&self) -> (r: Self) {
        BqBTC { balances: self.balances.duplicate(), metadata: self.metadata.duplicate() }
    }
}

impl Default for BqBTC {
    /// A ledger on which nobody holds anything, for a token without name or
    /// supply, owned by the anonymous identity.
    fn default() -> (r: Self)
        ensures
            r.model().balances == Map::<Principal, nat>::empty(),
            r.model().metadata.logo == Seq::<char>::empty(),
            r.model().metadata.name == Seq::<char>::empty(),
            r.model().metadata.symbol == Seq::<char>::empty(),
            r.model().metadata.decimals == 0,
            r.model().metadata.total_supply == 0,
            r.model().metadata.pool_address is None,
            r.model().metadata.cover_address is None,
    {
        BqBTC { balances: AssocMap::new(), metadata: TokenMetadata::default() }
    }
}

/// Starts the ledger anew: `owner` holds the whole `initial_supply`.
pub fn init(
    token: &mut BqBTC,
    logo: String,
    name: String,
    symbol: String,
    decimals: u8,
    initial_supply: Nat,
    owner: Principal,
)
    ensures
        final(token).model() == LedgerModel::started(
            logo@,
            name@,
            symbol@,
            decimals as nat,
            val(&initial_supply),
            owner,
        ),
{
    ledger::init(
        &mut token.balances,
        &mut token.metadata,
        logo,
        name,
        symbol,
        decimals,
        initial_supply,
        owner,
    );
}

/// Moves `amount` from the caller to `to`.
pub fn transfer(token: &mut BqBTC, caller: Principal, to: Principal, amount: Nat) -> (r: TxReceipt)
    ensures
        (final(token).model(), r.model()) == old(token).model().transfer(caller, to, val(&amount)),
{
    ledger::transfer(&mut token.balances, caller, to, amount)
}

/// Creates `amount` for `account`. Only the owner may.
pub fn mint(token: &mut BqBTC, caller: Principal, account: Principal, amount: Nat) -> (r:
    TxReceipt)
    ensures
        (final(token).model(), r.model()) == old(token).model().mint(caller, account, val(&amount)),
{
    ledger::mint(&mut token.balances, &mut token.metadata, caller, account, amount)
}

/// Destroys `amount` of what `account` holds. Only the owner may.
pub fn burn(token: &mut BqBTC, caller: Principal, account: Principal, amount: Nat) -> (r:
    TxReceipt)
    ensures
        (final(token).model(), r.model()) == old(token).model().burn(caller, account, val(&amount)),
{
    ledger::burn(&mut token.balances, &mut token.metadata, caller, account, amount)
}

/// What `account` holds; nothing, if the ledger does not know it.
pub fn balance_of(token: &BqBTC, account: Principal) -> (r: Nat)
    ensures
        val(&r) == token.model().balance_of(account),
{
    ledger::balance_of(&token.balances, account)
}

/// Tells the ledger the pool and cover actors. Only the owner may, and only
/// once.
pub fn set_pool_and_cover(token: &mut BqBTC, caller: Principal, pool: Principal, cover: Principal) -> (r:
    Result<(), Error>)
    ensures
        (final(token).model(), r) == old(token).model().set_pool_and_cover(caller, pool, cover),
{
    ledger::set_pool_and_cover(&mut token.metadata, caller, pool, cover)
}

/// What the token says of itself.
pub fn get_metadata(token: &BqBTC) -> (r: TokenMetadata)
    ensures
        r.model() == token.model().metadata,
{
    token.metadata.clone()
}

} // verus!
