//! What the two token ledgers have in common: balances by identity, a total
//! supply, and an owner who alone may mint and burn.

use candid::{Nat, Principal};
use vstd::prelude::*;

use crate::assoc::{lemma_insert_same, AssocMap};
use crate::bqbtc::{TokenMetadata, TokenMetadataModel, TxError, TxReceipt};
use crate::error::Error;
use crate::model::Model;
use crate::natural::{nat_add, nat_from_u64, nat_lt, nat_sub, val};
use crate::principal::principal_eq;

verus! {

/// What `account` holds; nothing, if the ledger does not know it.
pub open spec fn holding(balances: Map<Principal, nat>, account: Principal) -> nat {
    if balances.contains_key(account) {
        balances[account]
    } else {
        0
    }
}

/// The balances after `account` got `amount`.
pub open spec fn credited(balances: Map<Principal, nat>, account: Principal, amount: nat) -> Map<
    Principal,
    nat,
> {
    balances.insert(account, holding(balances, account) + amount)
}

/// The balances after `account` gave `amount`.
pub open spec fn debited(balances: Map<Principal, nat>, account: Principal, amount: nat) -> Map<
    Principal,
    nat,
> {
    balances.insert(account, (holding(balances, account) - amount) as nat)
}

/// A transfer takes the amount from the sender, then gives it to the
/// receiver. A sender the ledger does not know, or who holds less, cannot
/// send.
pub open spec fn transferred(
    balances: Map<Principal, nat>,
    from: Principal,
    to: Principal,
    amount: nat,
) -> (Map<Principal, nat>, Result<nat, TxError>) {
    if !balances.contains_key(from) || balances[from] < amount {
        (balances, Err(TxError::InsufficientBalance))
    } else {
        (credited(debited(balances, from, amount), to, amount), Ok(amount))
    }
}

/// Setting the pool and cover actors: for the owner only, and only while
/// neither is set.
pub open spec fn addressed(
    metadata: TokenMetadataModel,
    caller: Principal,
    pool: Principal,
    cover: Principal,
) -> (TokenMetadataModel, Result<(), Error>) {
    if caller != metadata.owner {
        (metadata, Err(Error::NotOwner))
    } else if metadata.pool_address is Some || metadata.cover_address is Some {
        (metadata, Err(Error::AddressesAlreadySet))
    } else {
        (
            TokenMetadataModel { pool_address: Some(pool), cover_address: Some(cover), ..metadata },
            Ok(()),
        )
    }
}

/// What a ledger stands for.
pub struct LedgerModel {
    pub balances: Map<Principal, nat>,
    pub metadata: TokenMetadataModel,
}

impl LedgerModel {
    /// A ledger as it starts: the owner holds the whole supply.
    pub open spec fn started(
        logo: Seq<char>,
        name: Seq<char>,
        symbol: Seq<char>,
        decimals: nat,
        initial_supply: nat,
        owner: Principal,
    ) -> LedgerModel {
        LedgerModel {
            balances: Map::<Principal, nat>::empty().insert(owner, initial_supply),
            metadata: TokenMetadataModel {
                logo,
                name,
                symbol,
                decimals,
                total_supply: initial_supply,
                owner,
                pool_address: None,
                cover_address: None,
            },
        }
    }

    /// What `account` holds; nothing, if the ledger does not know it.
    pub open spec fn balance_of(self, account: Principal) -> nat {
        holding(self.balances, account)
    }

    /// The state after [`transfer`], and what it returns. A call that is
    /// refused leaves the state as it was.
    pub open spec fn transfer(self, from: Principal, to: Principal, amount: nat) -> (
        LedgerModel,
        Result<nat, TxError>,
    ) {
        (
            LedgerModel { balances: transferred(self.balances, from, to, amount).0, ..self },
            transferred(self.balances, from, to, amount).1,
        )
    }

    /// A mint gives the account the amount and adds it to the supply.
    pub open spec fn mint(self, caller: Principal, account: Principal, amount: nat) -> (
        LedgerModel,
        Result<nat, TxError>,
    ) {
        if caller != self.metadata.owner {
            (self, Err(TxError::Unauthorized))
        } else {
            (
                LedgerModel {
                    balances: credited(self.balances, account, amount),
                    metadata: TokenMetadataModel {
                        total_supply: self.metadata.total_supply + amount,
                        ..self.metadata
                    },
                },
                Ok(amount),
            )
        }
    }

    /// A burn takes the amount from the account and from the supply. It
    /// needs an account that holds that much, and a supply of that much.
    pub open spec fn burn(self, caller: Principal, account: Principal, amount: nat) -> (
        LedgerModel,
        Result<nat, TxError>,
    ) {
        if caller != self.metadata.owner {
            (self, Err(TxError::Unauthorized))
        } else if !self.balances.contains_key(account) || self.balances[account] < amount
            || self.metadata.total_supply < amount {
            (self, Err(TxError::InsufficientBalance))
        } else {
            (
                LedgerModel {
                    balances: debited(self.balances, account, amount),
                    metadata: TokenMetadataModel {
                        total_supply: (self.metadata.total_supply - amount) as nat,
                        ..self.metadata
                    },
                },
                Ok(amount),
            )
        }
    }

    /// The state after [`set_pool_and_cover`], and what it returns. A call that is
    /// refused leaves the state as it was.
    pub open spec fn set_pool_and_cover(self, caller: Principal, pool: Principal, cover: Principal) -> (
        LedgerModel,
        Result<(), Error>,
    ) {
        (
            LedgerModel { metadata: addressed(self.metadata, caller, pool, cover).0, ..self },
            addressed(self.metadata, caller, pool, cover).1,
        )
    }
}

/// The ledger that `balances` and `metadata` make up.
pub open spec fn ledger_of(balances: &AssocMap<Principal, Nat>, metadata: &TokenMetadata) -> LedgerModel {
    LedgerModel { balances: balances.model(), metadata: metadata.model() }
}

/// Starts a ledger anew.
pub fn init(
    balances: &mut AssocMap<Principal, Nat>,
    metadata: &mut TokenMetadata,
    logo: String,
    name: String,
    symbol: String,
    decimals: u8,
    initial_supply: Nat,
    owner: Principal,
)
    ensures
        ledger_of(final(balances), final(metadata)) == LedgerModel::started(
            logo@,
            name@,
            symbol@,
            decimals as nat,
            val(&initial_supply),
            owner,
        ),
{
    let mut fresh: AssocMap<Principal, Nat> = AssocMap::new();
    fresh.insert(owner, initial_supply.clone());
    *balances = fresh;
    *metadata = TokenMetadata {
        logo,
        name,
        symbol,
        decimals,
        total_supply: initial_supply,
        owner,
        pool_address: None,
        cover_address: None,
    };
}

/// What `account` holds.
pub fn balance_of(balances: &AssocMap<Principal, Nat>, account: Principal) -> (r: Nat)
    ensures
        val(&r) == holding(balances.model(), account),
{
    match balances.get(&account) {
        Some(balance) => balance.clone(),
        None => nat_from_u64(0),
    }
}

/// Gives `account` the `amount`.
pub fn credit(balances: &mut AssocMap<Principal, Nat>, account: Principal, amount: Nat)
    ensures
        final(balances).model() == credited(old(balances).model(), account, val(&amount)),
{
    match balances.get_mut(&account) {
        Some(balance) => {
            *balance = nat_add(balance.clone(), amount);
        },
        None => {
            balances.insert(account, nat_add(nat_from_u64(0), amount));
        },
    }
}

/// Moves `amount` from `from` to `to`.
pub fn transfer(balances: &mut AssocMap<Principal, Nat>, from: Principal, to: Principal, amount: Nat) -> (r:
    TxReceipt)
    ensures
        (final(balances).model(), r.model()) == transferred(
            old(balances).model(),
            from,
            to,
            val(&amount),
        ),
{
    match balances.get_mut(&from) {
        None => { return Err(TxError::InsufficientBalance); },
        Some(balance) => {
            proof {
                lemma_insert_same(old(balances).model(), from);
            }
            if nat_lt(balance, &amount) {
                return Err(TxError::InsufficientBalance);
            }
            *balance = nat_sub(balance.clone(), amount.clone());
        },
    }
    credit(balances, to, amount.clone());
    Ok(amount)
}

/// Creates `amount` for `account`, if the caller owns the ledger.
pub fn mint(
    balances: &mut AssocMap<Principal, Nat>,
    metadata: &mut TokenMetadata,
    caller: Principal,
    account: Principal,
    amount: Nat,
) -> (r: TxReceipt)
    ensures
        (ledger_of(final(balances), final(metadata)), r.model()) == ledger_of(
            old(balances),
            old(metadata),
        ).mint(caller, account, val(&amount)),
{
    if !principal_eq(&caller, &metadata.owner) {
        return Err(TxError::Unauthorized);
    }
    credit(balances, account, amount.clone());
    metadata.total_supply = nat_add(metadata.total_supply.clone(), amount.clone());
    Ok(amount)
}

/// Destroys `amount` of what `account` holds, if the caller owns the ledger.
pub fn burn(
    balances: &mut AssocMap<Principal, Nat>,
    metadata: &mut TokenMetadata,
    caller: Principal,
    account: Principal,
    amount: Nat,
) -> (r: TxReceipt)
    ensures
        (ledger_of(final(balances), final(metadata)), r.model()) == ledger_of(
            old(balances),
            old(metadata),
        ).burn(caller, account, val(&amount)),
{
    if !principal_eq(&caller, &metadata.owner) {
        return Err(TxError::Unauthorized);
    }
    match balances.get_mut(&account) {
        None => { return Err(TxError::InsufficientBalance); },
        Some(balance) => {
            proof {
                lemma_insert_same(old(balances).model(), account);
            }
            if nat_lt(balance, &amount) {
                return Err(TxError::InsufficientBalance);
            }
            if nat_lt(&metadata.total_supply, &amount) {
                return Err(TxError::InsufficientBalance);
            }
            *balance = nat_sub(balance.clone(), amount.clone());
        },
    }
    metadata.total_supply = nat_sub(metadata.total_supply.clone(), amount.clone());
    Ok(amount)
}

/// Sets the pool and cover actors, if the caller owns the ledger and
/// neither is set.
pub fn set_pool_and_cover(metadata: &mut TokenMetadata, caller: Principal, pool: Principal, cover: Principal) -> (r:
    Result<(), Error>)
    ensures
        (final(metadata).model(), r) == addressed(old(metadata).model(), caller, pool, cover),
{
    if !principal_eq(&caller, &metadata.owner) {
        return Err(Error::NotOwner);
    }
    if metadata.pool_address.is_some() || metadata.cover_address.is_some() {
        return Err(Error::AddressesAlreadySet);
    }
    metadata.pool_address = Some(pool);
    metadata.cover_address = Some(cover);
    Ok(())
}

/// A transfer between two accounts takes the amount from the one, gives it
/// to the other, and leaves every other account as it was.
pub proof fn lemma_transfer_moves(
    balances: Map<Principal, nat>,
    from: Principal,
    to: Principal,
    amount: nat,
)
    requires
        from != to,
        transferred(balances, from, to, amount).1 is Ok,
    ensures
        ({
            let after = transferred(balances, from, to, amount).0;
            &&& holding(after, from) + amount == holding(balances, from)
            &&& holding(after, to) == holding(balances, to) + amount
            &&& forall|other: Principal|
                other != from && other != to ==> holding(after, other) == #[trigger] holding(
                    balances,
                    other,
                )
        }),
{
}

/// A transfer to oneself leaves every account with what it held.
pub proof fn lemma_transfer_to_self(balances: Map<Principal, nat>, who: Principal, amount: nat)
    ensures
        forall|account: Principal|
            holding(transferred(balances, who, who, amount).0, account) == #[trigger] holding(
                balances,
                account,
            ),
{
}

/// A ledger operation that is refused changes nothing.
pub proof fn lemma_refusals_change_nothing(
    s: LedgerModel,
    caller: Principal,
    account: Principal,
    amount: nat,
)
    ensures
        s.transfer(caller, account, amount).1 is Err ==> s.transfer(caller, account, amount).0 == s,
        s.mint(caller, account, amount).1 is Err ==> s.mint(caller, account, amount).0 == s,
        s.burn(caller, account, amount).1 is Err ==> s.burn(caller, account, amount).0 == s,
{
}

/// A burn takes back exactly what a mint of the same amount gave: the
/// account holds what it held and the supply is what it was.
pub proof fn lemma_burn_undoes_mint(s: LedgerModel, account: Principal, amount: nat)
    ensures
        ({
            let owner = s.metadata.owner;
            let minted = s.mint(owner, account, amount).0;
            let burned = minted.burn(owner, account, amount);
            &&& burned.1 == Ok::<nat, TxError>(amount)
            &&& burned.0.balance_of(account) == s.balance_of(account)
            &&& burned.0.metadata.total_supply == s.metadata.total_supply
        }),
{
}

} // verus!
