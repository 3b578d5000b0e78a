use erc20::{AccountId, Approval, Erc20, Error, Event, Transfer};

fn alice() -> AccountId {
    AccountId::new([1u8; 32])
}

fn bob() -> AccountId {
    AccountId::new([2u8; 32])
}

fn charlie() -> AccountId {
    AccountId::new([3u8; 32])
}

fn transfer_of(e: &Event) -> Transfer {
    match e {
        Event::Transfer(t) => *t,
        _ => panic!("expect Transfer event"),
    }
}

fn approval_of(e: &Event) -> Approval {
    match e {
        Event::Approval(a) => *a,
        _ => panic!("expect Approval event"),
    }
}

fn sum_of(l: &Erc20, accounts: &[AccountId]) -> u128 {
    accounts.iter().map(|a| l.balance_of(*a)).sum()
}

#[test]
fn constructor_works() {
    let erc20 = Erc20::new(alice(), 10000);

    assert_eq!(erc20.total_supply(), 10000);
    assert_eq!(erc20.balance_of(alice()), 10000);

    let emit_events = erc20.recorded_events();
    let Transfer { from, to, value } = transfer_of(&emit_events[0]);
    assert_eq!(from, None);
    assert_eq!(to, Some(alice()));
    assert_eq!(value, 10000);
}

#[test]
fn transfer_should_work() {
    let mut erc20 = Erc20::new(alice(), 10000);

    assert_eq!(erc20.balance_of(bob()), 0);
    assert_eq!(erc20.balance_of(alice()), 10000);

    assert_eq!(erc20.transfer(alice(), bob(), 100), Ok(()));
    assert_eq!(erc20.balance_of(bob()), 100);
    assert_eq!(erc20.balance_of(alice()), 10000 - 100);
}

#[test]
fn transfer_should_fail() {
    let mut erc20 = Erc20::new(alice(), 10000);

    let res = erc20.transfer(bob(), charlie(), 100);
    assert!(res.is_err());
    assert_eq!(res, Err(Error::BalanceTooLow));
}

#[test]
fn e2e_transfer() {
    let total_suply = 123;
    let mut erc20 = Erc20::new(alice(), total_suply);
    let ret = erc20.transfer(alice(), bob(), 2);
    assert!(ret.is_ok());
    assert!(erc20.balance_of(alice()) == 123 - 2);
}

#[test]
fn construction_records_one_minting_event() {
    let erc20 = Erc20::new(bob(), 77);
    assert_eq!(erc20.total_supply(), 77);
    assert_eq!(erc20.balance_of(bob()), 77);
    assert_eq!(erc20.balance_of(alice()), 0);
    assert_eq!(erc20.allowance(bob(), alice()), 0);
    let events = erc20.recorded_events();
    assert_eq!(events.len(), 1);
    let t = transfer_of(&events[0]);
    assert_eq!(t.from, None);
    assert_eq!(t.to, Some(bob()));
    assert_eq!(t.value, 77);
}

#[test]
fn zero_supply_is_accepted() {
    let mut erc20 = Erc20::new(alice(), 0);
    assert_eq!(erc20.total_supply(), 0);
    assert_eq!(erc20.balance_of(alice()), 0);
    assert_eq!(erc20.transfer(alice(), bob(), 0), Ok(()));
    assert_eq!(erc20.transfer(alice(), bob(), 1), Err(Error::BalanceTooLow));
    assert_eq!(erc20.recorded_events().len(), 2);
}

#[test]
fn largest_supply_moves_without_overflow() {
    let mut erc20 = Erc20::new(alice(), u128::MAX);
    assert_eq!(erc20.transfer(alice(), bob(), u128::MAX - 1), Ok(()));
    assert_eq!(erc20.transfer(alice(), bob(), 1), Ok(()));
    assert_eq!(erc20.balance_of(bob()), u128::MAX);
    assert_eq!(erc20.balance_of(alice()), 0);
    assert_eq!(erc20.transfer(bob(), alice(), u128::MAX), Ok(()));
    assert_eq!(erc20.balance_of(alice()), u128::MAX);
}

#[test]
fn transfer_records_event() {
    let mut erc20 = Erc20::new(alice(), 10000);
    assert_eq!(erc20.transfer(alice(), bob(), 100), Ok(()));
    assert_eq!(erc20.balance_of(alice()), 9900);
    assert_eq!(erc20.balance_of(bob()), 100);
    let events = erc20.recorded_events();
    assert_eq!(events.len(), 2);
    let t = transfer_of(&events[1]);
    assert_eq!(t.from, Some(alice()));
    assert_eq!(t.to, Some(bob()));
    assert_eq!(t.value, 100);
}

#[test]
fn failed_transfer_changes_nothing() {
    let mut erc20 = Erc20::new(alice(), 10000);
    assert_eq!(erc20.balance_of(charlie()), 0);
    assert_eq!(erc20.transfer(charlie(), alice(), 100), Err(Error::BalanceTooLow));
    assert_eq!(erc20.transfer(charlie(), bob(), 100), Err(Error::BalanceTooLow));
    assert_eq!(erc20.balance_of(charlie()), 0);
    assert_eq!(erc20.balance_of(alice()), 10000);
    assert_eq!(erc20.recorded_events().len(), 1);
}

#[test]
fn transfer_of_whole_balance_then_one_more_fails() {
    let mut erc20 = Erc20::new(alice(), 500);
    assert_eq!(erc20.transfer(alice(), bob(), 500), Ok(()));
    assert_eq!(erc20.transfer(alice(), bob(), 1), Err(Error::BalanceTooLow));
    assert_eq!(erc20.balance_of(bob()), 500);
}

#[test]
fn approve_overwrites() {
    let mut erc20 = Erc20::new(alice(), 1000);
    assert_eq!(erc20.approve(alice(), bob(), 50), Ok(()));
    assert_eq!(erc20.approve(alice(), bob(), 20), Ok(()));
    assert_eq!(erc20.allowance(alice(), bob()), 20);
    assert_eq!(erc20.allowance(bob(), alice()), 0);
    assert_eq!(erc20.balance_of(alice()), 1000);
    let events = erc20.recorded_events();
    assert_eq!(events.len(), 3);
    let a = approval_of(&events[2]);
    assert_eq!(a.from, Some(alice()));
    assert_eq!(a.to, Some(bob()));
    assert_eq!(a.value, 20);
}

#[test]
fn delegated_transfer_respects_both_limits() {
    let mut erc20 = Erc20::new(alice(), 1000);
    assert_eq!(erc20.approve(alice(), bob(), 500), Ok(()));

    assert_eq!(erc20.transfer_from(bob(), alice(), charlie(), 600), Err(Error::AllowanceTooLow));
    assert_eq!(erc20.allowance(alice(), bob()), 500);
    assert_eq!(erc20.balance_of(alice()), 1000);
    assert_eq!(erc20.balance_of(charlie()), 0);
    assert_eq!(erc20.recorded_events().len(), 2);

    assert_eq!(erc20.transfer_from(bob(), alice(), charlie(), 400), Ok(()));
    assert_eq!(erc20.allowance(alice(), bob()), 100);
    assert_eq!(erc20.balance_of(alice()), 600);
    assert_eq!(erc20.balance_of(charlie()), 400);
    let events = erc20.recorded_events();
    assert_eq!(events.len(), 3);
    let t = transfer_of(&events[2]);
    assert_eq!(t.from, Some(alice()));
    assert_eq!(t.to, Some(charlie()));
    assert_eq!(t.value, 400);
}

#[test]
fn delegated_transfer_without_approval_fails() {
    let mut erc20 = Erc20::new(alice(), 1000);
    assert_eq!(erc20.transfer_from(bob(), alice(), bob(), 1), Err(Error::AllowanceTooLow));
    assert_eq!(erc20.balance_of(bob()), 0);
}

#[test]
fn delegated_transfer_on_low_balance_still_lowers_allowance() {
    let mut erc20 = Erc20::new(alice(), 100);
    assert_eq!(erc20.approve(alice(), bob(), 500), Ok(()));
    assert_eq!(erc20.transfer_from(bob(), alice(), charlie(), 300), Err(Error::BalanceTooLow));
    assert_eq!(erc20.allowance(alice(), bob()), 200);
    assert_eq!(erc20.balance_of(alice()), 100);
    assert_eq!(erc20.balance_of(charlie()), 0);
    assert_eq!(erc20.recorded_events().len(), 2);
}

#[test]
fn self_transfer_keeps_balance_and_records_event() {
    let mut erc20 = Erc20::new(alice(), 50);
    assert_eq!(erc20.transfer(alice(), alice(), 50), Ok(()));
    assert_eq!(erc20.balance_of(alice()), 50);
    assert_eq!(erc20.total_supply(), 50);
    let events = erc20.recorded_events();
    assert_eq!(events.len(), 2);
    let t = transfer_of(&events[1]);
    assert_eq!(t.from, Some(alice()));
    assert_eq!(t.to, Some(alice()));
    assert_eq!(t.value, 50);
    assert_eq!(erc20.transfer(alice(), alice(), 51), Err(Error::BalanceTooLow));
    assert_eq!(erc20.recorded_events().len(), 2);
}

#[test]
fn reads_are_repeatable() {
    let mut erc20 = Erc20::new(alice(), 300);
    assert_eq!(erc20.approve(alice(), bob(), 7), Ok(()));
    let events_before = erc20.recorded_events().len();
    for _ in 0..3 {
        assert_eq!(erc20.balance_of(alice()), 300);
        assert_eq!(erc20.balance_of(bob()), 0);
        assert_eq!(erc20.total_supply(), 300);
        assert_eq!(erc20.allowance(alice(), bob()), 7);
    }
    assert_eq!(erc20.recorded_events().len(), events_before);
}

#[test]
fn balances_add_up_to_supply() {
    let accounts = [alice(), bob(), charlie()];
    let mut erc20 = Erc20::new(alice(), 9000);
    assert_eq!(erc20.transfer(alice(), bob(), 4000), Ok(()));
    assert_eq!(erc20.approve(bob(), charlie(), 3000), Ok(()));
    assert_eq!(erc20.transfer_from(charlie(), bob(), charlie(), 2500), Ok(()));
    assert_eq!(erc20.transfer(charlie(), alice(), 2600), Err(Error::BalanceTooLow));
    assert_eq!(erc20.transfer(charlie(), alice(), 500), Ok(()));
    assert_eq!(sum_of(&erc20, &accounts), erc20.total_supply());
    assert_eq!(erc20.balance_of(alice()), 5500);
    assert_eq!(erc20.balance_of(bob()), 1500);
    assert_eq!(erc20.balance_of(charlie()), 2000);
}

#[test]
fn account_ids_compare_by_bytes() {
    let mut bytes = [1u8; 32];
    assert!(AccountId::new(bytes) == alice());
    assert!(AccountId::new(bytes).same(&alice()));
    bytes[31] = 9;
    assert!(AccountId::new(bytes) != alice());
    assert!(!AccountId::new(bytes).same(&alice()));
    assert_eq!(AccountId::new(bytes).to_bytes(), bytes);
}
