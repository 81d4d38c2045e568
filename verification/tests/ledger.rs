use bq_protocol::bqbtc;
use bq_protocol::bqbtc::{BqBTC, TokenMetadata, TxError};
use bq_protocol::bqtoken;
use bq_protocol::bqtoken::BQToken;
use bq_protocol::error::Error;
use candid::{Nat, Principal};

fn acct(x: u8) -> Principal {
    Principal::from_slice(&[x])
}

fn units(v: u64) -> Nat {
    Nat::from(v)
}

fn ledger() -> BqBTC {
    let mut token = BqBTC::default();
    bqbtc::init(&mut token, "logo".to_string(), "bqBTC".to_string(), "BQ".to_string(), 8, units(1_000), acct(1));
    token
}

#[test]
fn default_metadata_is_blank_and_anonymous() {
    let m = TokenMetadata::default();
    assert_eq!(m.logo, "");
    assert_eq!(m.name, "");
    assert_eq!(m.symbol, "");
    assert_eq!(m.decimals, 0);
    assert_eq!(m.total_supply, units(0));
    assert_eq!(m.owner, Principal::anonymous());
    assert_eq!(m.pool_address, None);
    assert_eq!(m.cover_address, None);
}

#[test]
fn default_ledgers_are_blank() {
    let token = BqBTC::default();
    assert_eq!(token.balances.len(), 0);
    let m = bqbtc::get_metadata(&token);
    assert_eq!(m.logo, "");
    assert_eq!(m.name, "");
    assert_eq!(m.symbol, "");
    assert_eq!(m.decimals, 0);
    assert_eq!(m.total_supply, units(0));
    assert_eq!(m.pool_address, None);
    assert_eq!(m.cover_address, None);
    let token = BQToken::default();
    assert_eq!(token.balances.len(), 0);
    let m = bqtoken::get_metadata(&token);
    assert_eq!(m.name, "");
    assert_eq!(m.decimals, 0);
    assert_eq!(m.total_supply, units(0));
    assert_eq!(m.pool_address, None);
    assert_eq!(m.cover_address, None);
}

#[test]
fn init_gives_the_owner_the_whole_supply() {
    let token = ledger();
    let m = bqbtc::get_metadata(&token);
    assert_eq!(m.logo, "logo");
    assert_eq!(m.name, "bqBTC");
    assert_eq!(m.symbol, "BQ");
    assert_eq!(m.decimals, 8);
    assert_eq!(m.total_supply, units(1_000));
    assert_eq!(m.owner, acct(1));
    assert_eq!(bqbtc::balance_of(&token, acct(1)), units(1_000));
    assert_eq!(bqbtc::balance_of(&token, acct(2)), units(0));
    assert_eq!(token.balances.len(), 1);
}

#[test]
fn init_forgets_what_was_there() {
    let mut token = ledger();
    bqbtc::transfer(&mut token, acct(1), acct(2), units(10)).unwrap();
    bqbtc::init(&mut token, "l".to_string(), "n".to_string(), "s".to_string(), 2, units(5), acct(3));
    assert_eq!(bqbtc::balance_of(&token, acct(1)), units(0));
    assert_eq!(bqbtc::balance_of(&token, acct(2)), units(0));
    assert_eq!(bqbtc::balance_of(&token, acct(3)), units(5));
    assert_eq!(bqbtc::get_metadata(&token).total_supply, units(5));
}

#[test]
fn transfer_moves_tokens() {
    let mut token = ledger();
    assert_eq!(bqbtc::transfer(&mut token, acct(1), acct(2), units(300)), Ok(units(300)));
    assert_eq!(bqbtc::balance_of(&token, acct(1)), units(700));
    assert_eq!(bqbtc::balance_of(&token, acct(2)), units(300));
    assert_eq!(bqbtc::transfer(&mut token, acct(2), acct(1), units(300)), Ok(units(300)));
    assert_eq!(bqbtc::balance_of(&token, acct(1)), units(1_000));
    assert_eq!(bqbtc::balance_of(&token, acct(2)), units(0));
    assert_eq!(bqbtc::get_metadata(&token).total_supply, units(1_000));
}

#[test]
fn transfer_needs_the_balance() {
    let mut token = ledger();
    assert_eq!(bqbtc::transfer(&mut token, acct(1), acct(2), units(1_001)), Err(TxError::InsufficientBalance));
    assert_eq!(bqbtc::transfer(&mut token, acct(3), acct(2), units(1)), Err(TxError::InsufficientBalance));
    assert_eq!(bqbtc::transfer(&mut token, acct(3), acct(2), units(0)), Err(TxError::InsufficientBalance));
    assert_eq!(bqbtc::balance_of(&token, acct(1)), units(1_000));
    assert_eq!(bqbtc::balance_of(&token, acct(2)), units(0));
    assert_eq!(token.balances.len(), 1);
}

#[test]
fn transfer_to_oneself_changes_no_balance() {
    let mut token = ledger();
    assert_eq!(bqbtc::transfer(&mut token, acct(1), acct(1), units(400)), Ok(units(400)));
    assert_eq!(bqbtc::balance_of(&token, acct(1)), units(1_000));
}

#[test]
fn mint_credits_the_account_and_the_supply() {
    let mut token = ledger();
    assert_eq!(bqbtc::mint(&mut token, acct(1), acct(2), units(50)), Ok(units(50)));
    assert_eq!(bqbtc::mint(&mut token, acct(1), acct(2), units(5)), Ok(units(5)));
    assert_eq!(bqbtc::balance_of(&token, acct(2)), units(55));
    assert_eq!(bqbtc::get_metadata(&token).total_supply, units(1_055));
    assert_eq!(bqbtc::mint(&mut token, acct(2), acct(2), units(50)), Err(TxError::Unauthorized));
    assert_eq!(bqbtc::balance_of(&token, acct(2)), units(55));
    assert_eq!(bqbtc::get_metadata(&token).total_supply, units(1_055));
}

#[test]
fn burn_debits_the_account_and_the_supply() {
    let mut token = ledger();
    bqbtc::transfer(&mut token, acct(1), acct(2), units(300)).unwrap();
    assert_eq!(bqbtc::burn(&mut token, acct(1), acct(2), units(100)), Ok(units(100)));
    assert_eq!(bqbtc::balance_of(&token, acct(2)), units(200));
    assert_eq!(bqbtc::get_metadata(&token).total_supply, units(900));
    assert_eq!(bqbtc::burn(&mut token, acct(1), acct(2), units(201)), Err(TxError::InsufficientBalance));
    assert_eq!(bqbtc::burn(&mut token, acct(1), acct(3), units(1)), Err(TxError::InsufficientBalance));
    assert_eq!(bqbtc::burn(&mut token, acct(2), acct(2), units(1)), Err(TxError::Unauthorized));
    assert_eq!(bqbtc::balance_of(&token, acct(2)), units(200));
    assert_eq!(bqbtc::get_metadata(&token).total_supply, units(900));
    assert_eq!(bqbtc::burn(&mut token, acct(1), acct(2), units(200)), Ok(units(200)));
    assert_eq!(bqbtc::balance_of(&token, acct(2)), units(0));
}

#[test]
fn burn_never_takes_more_than_the_supply() {
    let mut token = ledger();
    token.metadata.total_supply = units(10);
    assert_eq!(bqbtc::burn(&mut token, acct(1), acct(1), units(11)), Err(TxError::InsufficientBalance));
    assert_eq!(bqbtc::balance_of(&token, acct(1)), units(1_000));
    assert_eq!(bqbtc::burn(&mut token, acct(1), acct(1), units(10)), Ok(units(10)));
    assert_eq!(bqbtc::get_metadata(&token).total_supply, units(0));
}

#[test]
fn pool_and_cover_are_set_once_by_the_owner() {
    let mut token = ledger();
    assert_eq!(bqbtc::set_pool_and_cover(&mut token, acct(2), acct(5), acct(6)), Err(Error::NotOwner));
    assert_eq!(bqbtc::get_metadata(&token).pool_address, None);
    assert_eq!(bqbtc::set_pool_and_cover(&mut token, acct(1), acct(5), acct(6)), Ok(()));
    let m = bqbtc::get_metadata(&token);
    assert_eq!(m.pool_address, Some(acct(5)));
    assert_eq!(m.cover_address, Some(acct(6)));
    assert_eq!(
        bqbtc::set_pool_and_cover(&mut token, acct(1), acct(7), acct(8)),
        Err(Error::AddressesAlreadySet)
    );
    assert_eq!(bqbtc::get_metadata(&token).pool_address, Some(acct(5)));
}

#[test]
fn pool_and_cover_cannot_be_set_when_one_is_there() {
    let mut token = ledger();
    token.metadata.cover_address = Some(acct(6));
    assert_eq!(
        bqbtc::set_pool_and_cover(&mut token, acct(1), acct(7), acct(8)),
        Err(Error::AddressesAlreadySet)
    );
    assert_eq!(bqbtc::get_metadata(&token).pool_address, None);
}

#[test]
fn the_governance_token_keeps_balances_the_same_way() {
    let mut token = BQToken::default();
    assert_eq!(bqtoken::balance_of(&token, acct(1)), units(0));
    bqtoken::init(&mut token, "logo".to_string(), "BQ".to_string(), "BQ".to_string(), 18, units(100), acct(1));
    assert_eq!(bqtoken::transfer(&mut token, acct(1), acct(2), units(5)), Ok(units(5)));
    assert_eq!(bqtoken::balance_of(&token, acct(2)), units(5));
    assert_eq!(bqtoken::balance_of(&token, acct(1)), units(95));
    assert_eq!(bqtoken::mint(&mut token, acct(1), acct(3), units(7)), Ok(units(7)));
    assert_eq!(bqtoken::burn(&mut token, acct(1), acct(2), units(2)), Ok(units(2)));
    assert_eq!(bqtoken::burn(&mut token, acct(3), acct(2), units(2)), Err(TxError::Unauthorized));
    assert_eq!(bqtoken::transfer(&mut token, acct(4), acct(2), units(1)), Err(TxError::InsufficientBalance));
    assert_eq!(bqtoken::balance_of(&token, acct(2)), units(3));
    assert_eq!(bqtoken::balance_of(&token, acct(3)), units(7));
    let m = bqtoken::get_metadata(&token);
    assert_eq!(m.total_supply, units(105));
    assert_eq!(m.decimals, 18);
    assert_eq!(m.owner, acct(1));
}
