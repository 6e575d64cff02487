use erc20::Erc20;
use erc20::Error;

const ALICE: u64 = 1;
const BOB: u64 = 2;
const EVE: u64 = 3;

#[test]
fn it_constructor_works() {
    let erc20 = Erc20::new(ALICE, 1000, "Polkadot".to_string(), "DOT".to_string());
    assert_eq!(erc20.name(), "Polkadot");
    assert_eq!(erc20.symbol(), "DOT");
    assert_eq!(erc20.total_supply(), 1000);
}

#[test]
fn it_transfer_works() {
    let mut erc20 = Erc20::new(ALICE, 1000, "Polkadot".to_string(), "DOT".to_string());

    let bob_balance = erc20.balance_of(BOB);

    assert_eq!(bob_balance, 0);

    assert_eq!(erc20.transfer(ALICE, BOB, 1), Ok(true));

    assert_eq!(erc20.balance_of(BOB), 1);

    assert_eq!(erc20.events().len(), 2);
}

#[test]
fn it_mint_works() {
    let mut erc20 = Erc20::new(ALICE, 1000, "Polkadot".to_string(), "DOT".to_string());

    let alice_balance = erc20.balance_of(ALICE);

    assert_eq!(erc20.mint(ALICE, 10), Ok(true));

    assert_eq!(erc20.balance_of(ALICE), alice_balance + 10);

    assert_eq!(erc20.events().len(), 2);
}

#[test]
fn it_burn_works() {
    let mut erc20 = Erc20::new(ALICE, 1000, "Polkadot".to_string(), "DOT".to_string());

    let alice_balance = erc20.balance_of(ALICE);

    assert_eq!(erc20.burn(ALICE, 10), Ok(true));

    assert_eq!(erc20.balance_of(ALICE), alice_balance - 10);

    assert_eq!(erc20.events().len(), 2);
}

#[test]
fn constructor_assigns_supply_and_emits_mint_event() {
    let erc20 = Erc20::new(ALICE, 1000, "Polkadot".to_string(), "DOT".to_string());
    assert_eq!(erc20.balance_of(ALICE), 1000);
    assert_eq!(erc20.events().len(), 1);
    let ev = erc20.events()[0];
    assert_eq!(ev.from, None);
    assert_eq!(ev.to, Some(ALICE));
    assert_eq!(ev.value, 1000);
}

#[test]
fn transfer_appends_matching_event() {
    let mut erc20 = Erc20::new(ALICE, 1000, "Polkadot".to_string(), "DOT".to_string());
    assert_eq!(erc20.transfer(ALICE, BOB, 1), Ok(true));
    assert_eq!(erc20.balance_of(ALICE), 999);
    assert_eq!(erc20.balance_of(BOB), 1);
    assert_eq!(erc20.total_supply(), 1000);
    assert_eq!(erc20.events().len(), 2);
    let ev = erc20.events()[1];
    assert_eq!(ev.from, Some(ALICE));
    assert_eq!(ev.to, Some(BOB));
    assert_eq!(ev.value, 1);
}

#[test]
fn mint_increases_supply_and_caller_balance() {
    let mut erc20 = Erc20::new(ALICE, 1000, "Polkadot".to_string(), "DOT".to_string());
    assert_eq!(erc20.mint(ALICE, 10), Ok(true));
    assert_eq!(erc20.total_supply(), 1010);
    assert_eq!(erc20.balance_of(ALICE), 1010);
    let ev = erc20.events()[1];
    assert_eq!(ev.from, None);
    assert_eq!(ev.to, Some(ALICE));
    assert_eq!(ev.value, 10);
}

#[test]
fn burn_decreases_supply_and_caller_balance() {
    let mut erc20 = Erc20::new(ALICE, 1000, "Polkadot".to_string(), "DOT".to_string());
    assert_eq!(erc20.burn(ALICE, 10), Ok(true));
    assert_eq!(erc20.total_supply(), 990);
    assert_eq!(erc20.balance_of(ALICE), 990);
    let ev = erc20.events()[1];
    assert_eq!(ev.from, Some(ALICE));
    assert_eq!(ev.to, None);
    assert_eq!(ev.value, 10);
}

#[test]
fn mint_by_non_owner_is_refused() {
    let mut erc20 = Erc20::new(ALICE, 1000, "Polkadot".to_string(), "DOT".to_string());
    assert_eq!(erc20.mint(BOB, 5), Err(Error::NotAuthorized));
    assert_eq!(erc20.total_supply(), 1000);
    assert_eq!(erc20.balance_of(BOB), 0);
    assert_eq!(erc20.events().len(), 1);
}

#[test]
fn burn_by_non_owner_is_refused() {
    let mut erc20 = Erc20::new(ALICE, 1000, "Polkadot".to_string(), "DOT".to_string());
    assert_eq!(erc20.burn(BOB, 5), Err(Error::NotAuthorized));
    assert_eq!(erc20.total_supply(), 1000);
    assert_eq!(erc20.balance_of(ALICE), 1000);
    assert_eq!(erc20.events().len(), 1);
}

#[test]
fn transfer_beyond_balance_is_refused_without_change() {
    let mut erc20 = Erc20::new(ALICE, 1000, "Polkadot".to_string(), "DOT".to_string());
    assert_eq!(erc20.transfer(ALICE, BOB, 5000), Err(Error::InsufficientBalance));
    assert_eq!(erc20.balance_of(ALICE), 1000);
    assert_eq!(erc20.balance_of(BOB), 0);
    assert_eq!(erc20.events().len(), 1);
}

#[test]
fn burn_beyond_balance_is_refused_without_change() {
    let mut erc20 = Erc20::new(ALICE, 1000, "Polkadot".to_string(), "DOT".to_string());
    assert_eq!(erc20.burn(ALICE, 1001), Err(Error::InsufficientBalance));
    assert_eq!(erc20.total_supply(), 1000);
    assert_eq!(erc20.balance_of(ALICE), 1000);
    assert_eq!(erc20.events().len(), 1);
}

#[test]
fn mint_overflowing_supply_is_refused_without_change() {
    let mut erc20 = Erc20::new(ALICE, u128::MAX, "Polkadot".to_string(), "DOT".to_string());
    assert_eq!(erc20.mint(ALICE, 1), Err(Error::Overflow));
    assert_eq!(erc20.total_supply(), u128::MAX);
    assert_eq!(erc20.balance_of(ALICE), u128::MAX);
    assert_eq!(erc20.events().len(), 1);
}

#[test]
fn self_transfer_keeps_balance_and_emits_event() {
    let mut erc20 = Erc20::new(ALICE, 1000, "Polkadot".to_string(), "DOT".to_string());
    assert_eq!(erc20.transfer(ALICE, ALICE, 40), Ok(true));
    assert_eq!(erc20.balance_of(ALICE), 1000);
    assert_eq!(erc20.total_supply(), 1000);
    assert_eq!(erc20.events().len(), 2);
    let ev = erc20.events()[1];
    assert_eq!(ev.from, Some(ALICE));
    assert_eq!(ev.to, Some(ALICE));
    assert_eq!(ev.value, 40);
}

#[test]
fn zero_transfer_succeeds_and_emits_event() {
    let mut erc20 = Erc20::new(ALICE, 1000, "Polkadot".to_string(), "DOT".to_string());
    assert_eq!(erc20.transfer(ALICE, BOB, 0), Ok(true));
    assert_eq!(erc20.balance_of(ALICE), 1000);
    assert_eq!(erc20.balance_of(BOB), 0);
    assert_eq!(erc20.events().len(), 2);
}

#[test]
fn transfers_conserve_the_sum_of_balances() {
    let mut erc20 = Erc20::new(ALICE, 1000, "Polkadot".to_string(), "DOT".to_string());
    assert_eq!(erc20.transfer(ALICE, BOB, 300), Ok(true));
    assert_eq!(erc20.transfer(BOB, EVE, 120), Ok(true));
    assert_eq!(erc20.transfer(EVE, ALICE, 20), Ok(true));
    assert_eq!(erc20.transfer(BOB, BOB, 50), Ok(true));
    let total =
        erc20.balance_of(ALICE) + erc20.balance_of(BOB) + erc20.balance_of(EVE);
    assert_eq!(total, 1000);
    assert_eq!(erc20.total_supply(), 1000);
}

#[test]
fn events_record_operations_in_call_order() {
    let mut erc20 = Erc20::new(ALICE, 1000, "Polkadot".to_string(), "DOT".to_string());
    assert_eq!(erc20.transfer(ALICE, BOB, 7), Ok(true));
    assert_eq!(erc20.mint(ALICE, 3), Ok(true));
    assert_eq!(erc20.transfer(ALICE, EVE, 9000), Err(Error::InsufficientBalance));
    assert_eq!(erc20.burn(ALICE, 5), Ok(true));
    let events = erc20.events();
    assert_eq!(events.len(), 4);
    assert_eq!((events[0].from, events[0].to, events[0].value), (None, Some(ALICE), 1000));
    assert_eq!((events[1].from, events[1].to, events[1].value), (Some(ALICE), Some(BOB), 7));
    assert_eq!((events[2].from, events[2].to, events[2].value), (None, Some(ALICE), 3));
    assert_eq!((events[3].from, events[3].to, events[3].value), (Some(ALICE), None, 5));
}
