use kitties::genome::{derive_genome, mix_genomes, payload_for, Kitty};
use kitties::ledger::BasicLedger;
use kitties::registry::{Error, Event, Pallet};

fn seed(n: u8) -> [u8; 32] {
    let mut s = [0u8; 32];
    s[0] = n;
    s
}

#[test]
fn mint_on_empty_state_takes_id_zero() {
    let mut p = Pallet::new(4, 100);
    let mut l = BasicLedger::new();
    l.deposit(7, 100).unwrap();
    let r = p.create(&mut l, 7, &seed(9), 3);
    assert!(r.is_ok());
    assert_eq!(p.kitty_owner(0), Some(7));
    assert_eq!(p.kitties_by_owner(7), vec![0]);
    assert_eq!(p.get_next_id(), 1);
}

#[test]
fn counter_advances_only_on_success() {
    let mut p = Pallet::new(4, 100);
    let mut l = BasicLedger::new();
    l.deposit(1, 10_000).unwrap();
    for n in 0..4u8 {
        assert!(p.create(&mut l, 1, &seed(n), n as u32).is_ok());
    }
    // the fifth mint by the same account fails and must not burn an id
    assert_eq!(p.create(&mut l, 1, &seed(4), 4), Err(Error::TooMuchKitties));
    assert_eq!(p.get_next_id(), 4);
    // ids handed out so far were 0, 1, 2, 3, in order
    assert_eq!(p.kitties_by_owner(1), vec![0, 1, 2, 3]);
    // a later success picks up right after the failure
    l.deposit(2, 100).unwrap();
    let r = p.create(&mut l, 2, &seed(5), 5);
    assert_eq!(r.unwrap(), Event::KittyCreated(2, 4, p.kitties(4).unwrap()));
}

#[test]
fn failed_breed_leaves_state_untouched() {
    let mut p = Pallet::new(4, 100);
    let mut l = BasicLedger::new();
    l.deposit(1, 1000).unwrap();
    assert!(p.create(&mut l, 1, &seed(0), 0).is_ok());
    let before_next = p.get_next_id();
    let before_owned = p.kitties_by_owner(1);
    assert_eq!(p.breed(&mut l, 1, 0, 9, &seed(1), 1), Err(Error::InvalidKittyId));
    assert_eq!(p.get_next_id(), before_next);
    assert_eq!(p.kitties_by_owner(1), before_owned);
}

#[test]
fn transfer_by_non_owner_changes_no_index() {
    let mut p = Pallet::new(4, 100);
    let mut l = BasicLedger::new();
    l.deposit(5, 1000).unwrap();
    assert!(p.create(&mut l, 5, &seed(0), 0).is_ok());
    l.deposit(6, 1000).unwrap();
    assert_eq!(p.transfer(&mut l, 6, 0, 6), Err(Error::NotOwner));
    assert_eq!(p.kitties_by_owner(5), vec![0]);
    assert_eq!(p.kitties_by_owner(6).len(), 0usize);
    assert_eq!(p.kitty_owner(0), Some(5));
}

#[test]
fn breeding_mask_selects_bits_from_each_parent() {
    let p1 = Kitty([0xFF; 16]);
    let p2 = Kitty([0x00; 16]);
    let child = mix_genomes(&p1, &p2, &[0xF0; 16]);
    assert_eq!(child.0, [0xF0; 16]);
    // bit-level, not byte-level: a mixed mask picks single bits
    let p3 = Kitty([0b1010_1010; 16]);
    let p4 = Kitty([0b0101_0101; 16]);
    let mixed = mix_genomes(&p3, &p4, &[0b1100_0011; 16]);
    assert_eq!(mixed.0, [0b1001_0110; 16]);
}

#[test]
fn genome_derivation_is_deterministic() {
    let a = derive_genome(&seed(1), 42, 7);
    let b = derive_genome(&seed(1), 42, 7);
    assert_eq!(a, b);
    // any input change gives another genome
    assert_ne!(derive_genome(&seed(2), 42, 7), a);
    assert_ne!(derive_genome(&seed(1), 43, 7), a);
    assert_ne!(derive_genome(&seed(1), 42, 8), a);
    // and the digest is a real digest, not a slice of its input
    assert_ne!(a, [0u8; 16]);
    let mut prefix = [0u8; 16];
    prefix.copy_from_slice(&seed(1)[..16]);
    assert_ne!(a, prefix);
}

#[test]
fn derivation_payload_is_seed_then_caller_then_sequence() {
    let mut s = [0u8; 32];
    for (i, b) in s.iter_mut().enumerate() {
        *b = i as u8;
    }
    let payload = payload_for(&s, 0x0102_0304_0506_0708, 0x0A0B_0C0D);
    let mut expected: Vec<u8> = s.to_vec();
    expected.extend_from_slice(&[0x08, 0x07, 0x06, 0x05, 0x04, 0x03, 0x02, 0x01]);
    expected.extend_from_slice(&[0x0D, 0x0C, 0x0B, 0x0A]);
    assert_eq!(payload, expected);
}

#[test]
fn bred_child_matches_the_mask_formula() {
    let mut p = Pallet::new(4, 100);
    let mut l = BasicLedger::new();
    l.deposit(1, 1000).unwrap();
    assert!(p.create(&mut l, 1, &seed(0), 0).is_ok());
    assert!(p.create(&mut l, 1, &seed(1), 1).is_ok());
    let parent1 = p.kitties(0).unwrap();
    let parent2 = p.kitties(1).unwrap();
    // the mask the breeding call will derive from the same seed and sequence
    let mask = derive_genome(&seed(2), 1, 2);
    assert!(p.breed(&mut l, 1, 0, 1, &seed(2), 2).is_ok());
    let child = p.kitties(2).unwrap();
    for i in 0..16 {
        assert_eq!(child.0[i], (parent1.0[i] & mask[i]) | (parent2.0[i] & !mask[i]));
    }
    assert_eq!(child, mix_genomes(&parent1, &parent2, &mask));
}

#[test]
fn breeding_needs_two_distinct_parents() {
    let mut p = Pallet::new(4, 100);
    let mut l = BasicLedger::new();
    l.deposit(1, 1000).unwrap();
    assert!(p.create(&mut l, 1, &seed(0), 0).is_ok());
    assert_eq!(p.breed(&mut l, 1, 0, 0, &seed(1), 1), Err(Error::SameKittyId));
    assert_eq!(p.get_next_id(), 1);
}

#[test]
fn exhausted_id_space_is_detected_first() {
    // a registry whose counter already sits at the sentinel
    let mut p = Pallet::new(4, 100);
    p.next_id = u32::MAX;
    let mut l = BasicLedger::new();
    l.deposit(1, 1000).unwrap();
    assert_eq!(p.create(&mut l, 1, &seed(0), 0), Err(Error::IdSpaceExhausted));
    assert_eq!(p.next_id, u32::MAX);
    // no deposit was reserved for the refused mint
    assert_eq!(l.get_balance(1).reserved, 0);
}

#[test]
fn broken_index_is_reported_not_assumed() {
    // an owner index that lost its list entry: the defensive check fires
    let mut p = Pallet::new(4, 100);
    p.next_id = 1;
    p.genomes.push(Kitty([0; 16]));
    p.owners.push(1);
    let mut l = BasicLedger::new();
    l.deposit(1, 1000).unwrap();
    assert_eq!(p.transfer(&mut l, 1, 0, 2), Err(Error::InvariantViolation));
    // even this defensive exit returns the reservation it took
    assert_eq!(l.get_balance(1).reserved, 0);
    assert_eq!(l.get_balance(1).free, 1000);
}

#[test]
fn balance_shortfall_outranks_a_full_list() {
    // when the deposit cannot be reserved AND the list is full, the ledger's
    // refusal is what the caller hears: the reservation comes first
    let mut p = Pallet::new(4, 100);
    let mut l = BasicLedger::new();
    l.deposit(1, 400).unwrap();
    for n in 0..4u8 {
        assert!(p.create(&mut l, 1, &seed(n), n as u32).is_ok());
    }
    assert_eq!(l.get_balance(1).free, 0);
    assert_eq!(p.create(&mut l, 1, &seed(4), 4), Err(Error::NotEnoughBalance));
    // the same outranking on a transfer into the full list
    l.deposit(2, 100).unwrap();
    assert!(p.create(&mut l, 2, &seed(5), 5).is_ok());
    assert_eq!(l.get_balance(2).free, 0);
    assert_eq!(p.transfer(&mut l, 2, 4, 1), Err(Error::NotEnoughBalance));
}

#[test]
fn failed_operation_returns_its_reservation() {
    // a reservation taken for an operation that then fails is released
    // again: the failed call leaves the ledger byte-identical
    let mut p = Pallet::new(4, 100);
    let mut l = BasicLedger::new();
    l.deposit(1, 1000).unwrap();
    for n in 0..4u8 {
        assert!(p.create(&mut l, 1, &seed(n), n as u32).is_ok());
    }
    assert_eq!(l.get_balance(1), kitties::ledger::Balance { free: 600, reserved: 400 });
    assert_eq!(p.create(&mut l, 1, &seed(4), 4), Err(Error::TooMuchKitties));
    assert_eq!(l.get_balance(1), kitties::ledger::Balance { free: 600, reserved: 400 });
    l.deposit(2, 200).unwrap();
    assert!(p.create(&mut l, 2, &seed(5), 5).is_ok());
    assert_eq!(p.transfer(&mut l, 2, 4, 1), Err(Error::TooMuchKitties));
    assert_eq!(l.get_balance(2), kitties::ledger::Balance { free: 100, reserved: 100 });
}

#[test]
fn transfer_to_self_moves_id_to_end_of_list() {
    let mut p = Pallet::new(4, 100);
    let mut l = BasicLedger::new();
    l.deposit(1, 1000).unwrap();
    assert!(p.create(&mut l, 1, &seed(0), 0).is_ok());
    assert!(p.create(&mut l, 1, &seed(1), 1).is_ok());
    assert_eq!(p.kitties_by_owner(1), vec![0, 1]);
    assert!(p.transfer(&mut l, 1, 0, 1).is_ok());
    assert_eq!(p.kitties_by_owner(1), vec![1, 0]);
    assert_eq!(p.kitty_owner(0), Some(1));
}

#[test]
fn transfer_charges_sender_and_credits_receiver() {
    // the documented deposit direction: the sender reserves one more unit,
    // the receiver has one released
    let mut p = Pallet::new(4, 100);
    let mut l = BasicLedger::new();
    l.deposit(1, 1000).unwrap();
    l.deposit(2, 1000).unwrap();
    assert!(p.create(&mut l, 2, &seed(0), 0).is_ok());
    assert_eq!(l.get_balance(2).reserved, 100);
    assert!(p.transfer(&mut l, 2, 0, 1).is_ok());
    // sender: the mint's deposit plus the transfer's fresh reservation
    assert_eq!(l.get_balance(2).reserved, 200);
    assert_eq!(l.get_balance(2).free, 800);
    // receiver: a release with nothing reserved moves nothing
    assert_eq!(l.get_balance(1).reserved, 0);
    assert_eq!(l.get_balance(1).free, 1000);
}

#[test]
fn ledger_reserve_and_release_round_trip() {
    let mut l = BasicLedger::new();
    l.deposit(9, 250).unwrap();
    assert!(l.reserve_balance(9, 100).is_ok());
    assert_eq!(l.get_balance(9).free, 150);
    assert_eq!(l.get_balance(9).reserved, 100);
    // more than the free balance is refused untouched
    assert!(l.reserve_balance(9, 151).is_err());
    assert_eq!(l.get_balance(9).free, 150);
    // a release never takes back more than is reserved
    l.release_balance(9, 1000);
    assert_eq!(l.get_balance(9).free, 250);
    assert_eq!(l.get_balance(9).reserved, 0);
}

#[test]
fn getters_agree_with_the_stores() {
    let mut p = Pallet::new(4, 100);
    assert_eq!(p.get_next_id(), 0);
    assert_eq!(p.next_kitty_id(), 0);
    assert_eq!(p.get_kitty(0), Err(()));
    assert!(p.kitties(0).is_none());
    assert!(p.kitty_owner(0).is_none());
    let mut l = BasicLedger::new();
    l.deposit(1, 1000).unwrap();
    assert!(p.create(&mut l, 1, &seed(0), 0).is_ok());
    assert_eq!(p.next_kitty_id(), 1);
    assert_eq!(p.get_kitty(0), Ok(p.kitties(0).unwrap()));
    assert_eq!(p.kitty_owner(0), Some(1));
}

#[test]
fn genomes_never_change_after_creation() {
    let mut p = Pallet::new(4, 100);
    let mut l = BasicLedger::new();
    l.deposit(1, 1000).unwrap();
    assert!(p.create(&mut l, 1, &seed(0), 0).is_ok());
    assert!(p.create(&mut l, 1, &seed(1), 1).is_ok());
    let g0 = p.kitties(0).unwrap();
    let g1 = p.kitties(1).unwrap();
    assert!(p.breed(&mut l, 1, 0, 1, &seed(2), 2).is_ok());
    assert!(p.transfer(&mut l, 1, 0, 2).is_ok());
    assert_eq!(p.kitties(0).unwrap(), g0);
    assert_eq!(p.kitties(1).unwrap(), g1);
}
