use kitties::ledger::BasicLedger;
use kitties::registry::{Error, Event, Pallet};

// A fixed seed for operations whose exact genome does not matter; varying it
// per call keeps the minted genomes distinct, as a host's entropy would.
fn seed(n: u8) -> [u8; 32] {
    let mut s = [0u8; 32];
    s[0] = n;
    s
}

#[test]
fn create_kitty_works() {
    let mut p = Pallet::new(4, 100);
    let mut l = BasicLedger::new();
    l.deposit(1, 1000).unwrap();
    let r = p.create(&mut l, 1, &seed(0), 0);
    assert!(r.is_ok());
    // kitty_id = 0, owner = 1, count = 1
    assert!(p.kitties(0).is_some());
    assert_eq!(p.kitty_owner(0), Some(1));
    assert_eq!(p.kitties_by_owner(1).len(), 1usize);
    let kitty = p.kitties(0).unwrap();
    assert_eq!(r.unwrap(), Event::KittyCreated(1, 0, kitty));
}

#[test]
fn create_kitty_failed_with_not_enough_balance() {
    let mut p = Pallet::new(4, 100);
    let mut l = BasicLedger::new();
    let r = p.create(&mut l, 3, &seed(0), 0);
    assert_eq!(r, Err(Error::NotEnoughBalance));
    // nothing happened
    assert_eq!(p.get_next_id(), 0);
    assert!(p.kitties(0).is_none());
}

#[test]
fn create_kitty_failed_with_too_much_kitties() {
    let mut p = Pallet::new(4, 100);
    let mut l = BasicLedger::new();
    l.deposit(1, 10_000).unwrap();
    assert!(p.create(&mut l, 1, &seed(0), 0).is_ok());
    assert!(p.create(&mut l, 1, &seed(1), 1).is_ok());
    assert!(p.create(&mut l, 1, &seed(2), 2).is_ok());
    assert!(p.create(&mut l, 1, &seed(3), 3).is_ok());
    assert_eq!(p.create(&mut l, 1, &seed(4), 4), Err(Error::TooMuchKitties));
}

#[test]
fn transfer_kitty_works() {
    let mut p = Pallet::new(4, 100);
    let mut l = BasicLedger::new();
    l.deposit(1, 1000).unwrap();
    assert!(p.create(&mut l, 1, &seed(0), 0).is_ok());
    let r = p.transfer(&mut l, 1, 0, 2);
    assert!(r.is_ok());

    assert!(p.kitties(0).is_some());
    assert_eq!(p.kitty_owner(0), Some(2));
    assert_eq!(p.kitties_by_owner(1).len(), 0usize);
    assert_eq!(p.kitties_by_owner(2).len(), 1usize);

    assert_eq!(r.unwrap(), Event::KittyTransferred(1, 2, 0));
}

#[test]
fn failed_to_transfer_kitty_with_not_owner() {
    let mut p = Pallet::new(4, 100);
    let mut l = BasicLedger::new();
    l.deposit(1, 1000).unwrap();
    assert!(p.create(&mut l, 1, &seed(0), 0).is_ok());
    assert_eq!(p.transfer(&mut l, 2, 0, 1), Err(Error::NotOwner));
    // nothing moved
    assert_eq!(p.kitty_owner(0), Some(1));
    assert_eq!(p.kitties_by_owner(1), vec![0]);
    assert_eq!(p.kitties_by_owner(2).len(), 0usize);
}

#[test]
fn failed_to_transfer_kitty_with_not_enough_balance() {
    let mut p = Pallet::new(4, 100);
    let mut l = BasicLedger::new();
    // enough for the mint's deposit, but not for the transfer's
    l.deposit(1, 150).unwrap();
    assert!(p.create(&mut l, 1, &seed(0), 0).is_ok());
    assert_eq!(p.transfer(&mut l, 1, 0, 3), Err(Error::NotEnoughBalance));
    assert_eq!(p.kitty_owner(0), Some(1));
}

#[test]
fn failed_to_transfer_kitty_with_too_much_kitties() {
    let mut p = Pallet::new(4, 100);
    let mut l = BasicLedger::new();
    l.deposit(1, 1000).unwrap();
    l.deposit(2, 1000).unwrap();
    assert!(p.create(&mut l, 2, &seed(0), 0).is_ok());
    assert!(p.create(&mut l, 1, &seed(1), 1).is_ok());
    assert!(p.create(&mut l, 1, &seed(2), 2).is_ok());
    assert!(p.create(&mut l, 1, &seed(3), 3).is_ok());
    assert!(p.create(&mut l, 1, &seed(4), 4).is_ok());
    // owner 1 already has too many kitties
    assert_eq!(p.transfer(&mut l, 2, 0, 1), Err(Error::TooMuchKitties));
    assert_eq!(p.kitty_owner(0), Some(2));
}

#[test]
fn breed_kitty_works() {
    let mut p = Pallet::new(4, 100);
    let mut l = BasicLedger::new();
    l.deposit(1, 1000).unwrap();
    assert!(p.create(&mut l, 1, &seed(0), 0).is_ok());
    assert!(p.create(&mut l, 1, &seed(1), 1).is_ok());
    let r = p.breed(&mut l, 1, 0, 1, &seed(2), 2);
    assert!(r.is_ok());

    // kitty ids 0, 1, 2 all exist and belong to account 1
    assert!(p.kitties(2).is_some());
    assert_eq!(p.kitty_owner(0), Some(1));
    assert_eq!(p.kitty_owner(1), Some(1));
    assert_eq!(p.kitty_owner(2), Some(1));
    let kitty = p.kitties(2).unwrap();
    assert_eq!(r.unwrap(), Event::KittyBred(1, 2, kitty));
}

#[test]
fn failed_breed_kitty_with_invalid_kitty_id() {
    let mut p = Pallet::new(4, 100);
    let mut l = BasicLedger::new();
    l.deposit(1, 1000).unwrap();
    assert!(p.create(&mut l, 1, &seed(0), 0).is_ok());
    assert!(p.create(&mut l, 1, &seed(1), 1).is_ok());
    assert_eq!(p.breed(&mut l, 1, 0, 2, &seed(2), 2), Err(Error::InvalidKittyId));
    assert_eq!(p.breed(&mut l, 1, 2, 1, &seed(3), 3), Err(Error::InvalidKittyId));
    // the counter never advanced on the failures
    assert_eq!(p.get_next_id(), 2);
}

#[test]
fn failed_breed_kitty_with_not_enough_balance() {
    let mut p = Pallet::new(4, 100);
    let mut l = BasicLedger::new();
    // three deposits' worth, so the breeding deposit is short
    l.deposit(2, 350).unwrap();
    assert!(p.create(&mut l, 2, &seed(0), 0).is_ok());
    assert!(p.create(&mut l, 2, &seed(1), 1).is_ok());
    assert!(p.create(&mut l, 2, &seed(2), 2).is_ok());
    assert_eq!(p.breed(&mut l, 2, 0, 1, &seed(3), 3), Err(Error::NotEnoughBalance));
    assert_eq!(p.get_next_id(), 3);
}
