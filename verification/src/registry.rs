//! The registry itself: the asset store, both ownership indices, the
//! identifier counter, and the three operations that mutate them.

use vstd::prelude::*;
use vstd::hash_map::HashMapWithView;
use crate::genome::{Kitty, child_byte, derive_genome, derive_spec, mix_genomes};
use crate::ledger::{
    balances_unchanged, lemma_deposit_moved, lemma_reserve_undone, moved_deposit, reserved_once,
    CollateralLedger,
};

verus! {

/// Why an operation was refused. Every refusal leaves the registry unchanged.
#[derive(Clone, Copy, PartialEq, Eq, Structural, Debug)]
pub enum Error {
    /// an identifier that names no created creature
    InvalidKittyId,
    /// the caller does not own the creature
    NotOwner,
    /// breeding needs two distinct parents
    SameKittyId,
    /// the receiving account's list is at its capacity bound
    TooMuchKitties,
    /// the collateral ledger refused the reservation
    NotEnoughBalance,
    /// the identifier counter reached its reserved sentinel
    IdSpaceExhausted,
    /// a creature was missing from an index it must belong to; signals a bug,
    /// never reached from a well-formed registry
    InvariantViolation,
}

/// What a successful operation reports to observers.
#[derive(Clone, Copy, PartialEq, Eq, Debug)]
pub enum Event {
    /// minted by, new identifier, new genome
    KittyCreated(u64, u32, Kitty),
    /// bred by, child identifier, child genome
    KittyBred(u64, u32, Kitty),
    /// previous owner, new owner, identifier
    KittyTransferred(u64, u64, u32),
}

/// The registry's durable state. Creatures get the identifiers
/// `0, 1, 2, ...` in order, so the store and the owner index are kept as
/// vectors indexed by identifier.
pub struct Pallet {
    /// the identifier the next successful mint or breed will take;
    /// `u32::MAX` is the reserved sentinel and is never allocated
    pub next_id: u32,
    /// genome of each created creature, indexed by identifier
    pub genomes: Vec<Kitty>,
    /// owning account of each created creature, indexed by identifier
    pub owners: Vec<u64>,
    /// per-account list of owned identifiers, in insertion order
    pub owned: HashMapWithView<u64, Vec<u32>>,
    /// capacity bound on each account's list
    pub max_owned: u32,
    /// collateral units reserved for each owned creature
    pub price: u64,
}

impl Pallet {
    /// Whether an identifier names a created creature.
    pub open spec fn exists_id(self, id: u32) -> bool {
        id < self.next_id
    }

    /// The account owning a created creature.
    pub open spec fn owner_of(self, id: u32) -> u64 {
        self.owners@[id as int]
    }

    /// The genome of a created creature.
    pub open spec fn genome_of(self, id: u32) -> Kitty {
        self.genomes@[id as int]
    }

    /// The identifiers an account owns, oldest first.
    pub open spec fn owned_of(self, account: u64) -> Seq<u32> {
        if self.owned@.contains_key(account) {
            self.owned@[account]@
        } else {
            Seq::empty()
        }
    }

    /// Every created creature is listed under its owner.
    pub open spec fn listed_under_owner(self) -> bool {
        forall|id: u32|
            self.exists_id(id) ==> self.owned_of(#[trigger] self.owner_of(id)).contains(id)
    }

    /// List entries name created creatures owned by the listing account.
    pub open spec fn lists_are_owned(self) -> bool {
        forall|a: u64, i: int|
            0 <= i < self.owned_of(a).len() ==> (self.exists_id(#[trigger] self.owned_of(a)[i])
                && self.owner_of(self.owned_of(a)[i]) == a)
    }

    /// No identifier appears twice in one account's list.
    pub open spec fn lists_unique(self) -> bool {
        forall|a: u64, i: int, j: int|
            0 <= i < j < self.owned_of(a).len() ==> #[trigger] self.owned_of(a)[i]
                != #[trigger] self.owned_of(a)[j]
    }

    /// No account's list exceeds the capacity bound.
    pub open spec fn within_capacity(self) -> bool {
        forall|a: u64| #[trigger] self.owned_of(a).len() <= self.max_owned
    }

    /// Well-formedness: the stores cover exactly the allocated identifiers,
    /// and the two ownership indices agree. [`Self::new`] establishes it and
    /// every operation preserves it, so it holds of every reachable registry.
    pub open spec fn wf(self) -> bool {
        &&& self.genomes@.len() == self.next_id
        &&& self.owners@.len() == self.next_id
        &&& self.listed_under_owner()
        &&& self.lists_are_owned()
        &&& self.lists_unique()
        &&& self.within_capacity()
    }

    /// The configuration constants, which no operation changes.
    pub open spec fn same_config(self, other: Pallet) -> bool {
        self.max_owned == other.max_owned && self.price == other.price
    }

    /// An empty registry with the given capacity bound and deposit size.
    pub fn new(max_owned: u32, price: u64) -> (r: Pallet)
        ensures
            r.wf(),
            r.next_id == 0,
            r.max_owned == max_owned,
            r.price == price,
            forall|a: u64| r.owned_of(a) == Seq::<u32>::empty(),
    {
        Pallet {
            next_id: 0,
            genomes: Vec::new(),
            owners: Vec::new(),
            owned: HashMapWithView::new(),
            max_owned,
            price,
        }
    }

    /// The counter value the next successful mint or breed will take, zero
    /// on a fresh registry.
    pub fn get_next_id(&self) -> (r: u32)
        ensures
            r == self.next_id,
    {
        self.next_id
    }

    /// Alias of [`Self::get_next_id`] under the counter's own name.
    pub fn next_kitty_id(&self) -> (r: u32)
        ensures
            r == self.next_id,
    {
        self.next_id
    }

    /// The genome stored under an identifier.
    pub fn kitties(&self, kitty_id: u32) -> (r: Option<Kitty>)
        requires
            self.wf(),
        ensures
            r == if self.exists_id(kitty_id) {
                Some(self.genome_of(kitty_id))
            } else {
                None::<Kitty>
            },
    {
        if kitty_id < self.next_id {
            Some(self.genomes[kitty_id as usize])
        } else {
            None
        }
    }

    /// The genome stored under an identifier, an error when there is none.
    pub fn get_kitty(&self, kitty_id: u32) -> (r: Result<Kitty, ()>)
        requires
            self.wf(),
        ensures
            r == if self.exists_id(kitty_id) {
                Ok::<Kitty, ()>(self.genome_of(kitty_id))
            } else {
                Err::<Kitty, ()>(())
            },
    {
        match self.kitties(kitty_id) {
            Some(kitty) => Ok(kitty),
            None => Err(()),
        }
    }

    /// The account owning a creature.
    pub fn kitty_owner(&self, kitty_id: u32) -> (r: Option<u64>)
        requires
            self.wf(),
        ensures
            r == if self.exists_id(kitty_id) {
                Some(self.owner_of(kitty_id))
            } else {
                None::<u64>
            },
    {
        if kitty_id < self.next_id {
            Some(self.owners[kitty_id as usize])
        } else {
            None
        }
    }

    /// The identifiers an account owns, oldest first, as a fresh vector.
    pub fn kitties_by_owner(&self, account: u64) -> (r: Vec<u32>)
        ensures
            r@ == self.owned_of(account),
    {
        self.owned_list(account)
    }

    /// The list an account owns, as a fresh vector.
    fn owned_list(&self, account: u64) -> (r: Vec<u32>)
        ensures
            r@ == self.owned_of(account),
    {
        match self.owned.get(&account) {
            Some(v) => copy_ids(v),
            None => Vec::new(),
        }
    }

    /// How many creatures an account owns.
    fn owned_count(&self, account: u64) -> (r: usize)
        ensures
            r == self.owned_of(account).len(),
    {
        match self.owned.get(&account) {
            Some(v) => v.len(),
            None => 0,
        }
    }

    /// Stores a new creature under `who` and advances the identifier counter.
    /// Every fallible check has already passed when this runs.
    fn commit_new_kitty(&mut self, who: u64, kitty: Kitty) -> (id: u32)
        requires
            old(self).wf(),
            old(self).next_id != u32::MAX,
            old(self).owned_of(who).len() < old(self).max_owned,
        ensures
            final(self).wf(),
            old(self).same_config(*final(self)),
            id == old(self).next_id,
            final(self).next_id == id + 1,
            final(self).genome_of(id) == kitty,
            final(self).owner_of(id) == who,
            forall|j: u32|
                old(self).exists_id(j) ==> final(self).genome_of(j) == old(self).genome_of(j)
                    && final(self).owner_of(j) == old(self).owner_of(j),
            final(self).owned_of(who) == old(self).owned_of(who).push(id),
            forall|a: u64| a != who ==> final(self).owned_of(a) == old(self).owned_of(a),
    {
        let id = self.next_id;
        self.genomes.push(kitty);
        self.owners.push(who);
        let mut list = self.owned_list(who);
        list.push(id);
        self.owned.insert(who, list);
        self.next_id = id + 1;
        proof {
            let o = *old(self);
            let n = *self;
            assert forall|id2: u32| n.exists_id(id2) implies n.owned_of(
                n.owner_of(id2),
            ).contains(id2) by {
                if id2 < o.next_id {
                    let owner = o.owner_of(id2);
                    assert(n.owner_of(id2) == owner);
                    assert(o.owned_of(owner).contains(id2));
                    let k = choose|k: int|
                        0 <= k < o.owned_of(owner).len() && o.owned_of(owner)[k] == id2;
                    assert(n.owned_of(owner)[k] == id2);
                } else {
                    assert(id2 == id);
                    assert(n.owned_of(who)[o.owned_of(who).len() as int] == id);
                }
            }
            assert forall|a: u64, i: int| 0 <= i < n.owned_of(a).len() implies (n.exists_id(
                n.owned_of(a)[i],
            ) && n.owner_of(n.owned_of(a)[i]) == a) by {
                if a == who && i == o.owned_of(who).len() {
                    assert(n.owned_of(who)[i] == id);
                } else {
                    assert(n.owned_of(a)[i] == o.owned_of(a)[i]);
                    assert(o.exists_id(o.owned_of(a)[i]));
                }
            }
            assert forall|a: u64, i: int, j: int| 0 <= i < j < n.owned_of(a).len() implies n
                .owned_of(a)[i] != n.owned_of(a)[j] by {
                if a == who && j == o.owned_of(who).len() {
                    assert(n.owned_of(who)[j] == id);
                    assert(n.owned_of(who)[i] == o.owned_of(who)[i]);
                    assert(o.exists_id(o.owned_of(who)[i]));
                } else {
                    assert(n.owned_of(a)[i] == o.owned_of(a)[i]);
                    assert(n.owned_of(a)[j] == o.owned_of(a)[j]);
                    assert(o.owned_of(a)[i] != o.owned_of(a)[j]);
                }
            }
            assert forall|a: u64| n.owned_of(a).len() <= n.max_owned by {
                assert(o.owned_of(a).len() <= o.max_owned);
                if a == who {
                    assert(n.owned_of(who).len() == o.owned_of(who).len() + 1);
                } else {
                    assert(n.owned_of(a) == o.owned_of(a));
                }
            }
        }
        id
    }

    /// Mints a creature for `who`: checks the identifier space, reserves the
    /// deposit, derives a genome from the seed, stores it under a fresh
    /// identifier, and advances the counter. The capacity check follows the
    /// reservation — a shortfall outranks a full list — and a reservation
    /// taken for a mint that then fails is released again, so a refused call
    /// has no net effect anywhere.
    pub fn create<L: CollateralLedger>(
        &mut self,
        ledger: &mut L,
        who: u64,
        seed: &[u8; 32],
        sequence: u32,
    ) -> (r: Result<Event, Error>)
        requires
            old(self).wf(),
        ensures
            final(self).wf(),
            old(self).same_config(*final(self)),
            r is Err ==> *final(self) == *old(self),
            r is Err ==> balances_unchanged(*old(ledger), *final(ledger)),
            (r == Err::<Event, Error>(Error::IdSpaceExhausted)) <==> old(self).next_id
                == u32::MAX,
            (r == Err::<Event, Error>(Error::NotEnoughBalance)) <==> (old(self).next_id
                != u32::MAX && !old(ledger).consents(who, old(self).price)),
            (r == Err::<Event, Error>(Error::TooMuchKitties)) <==> (old(self).next_id != u32::MAX
                && old(ledger).consents(who, old(self).price) && old(self).owned_of(who).len()
                >= old(self).max_owned),
            (r is Ok) <==> (old(self).next_id != u32::MAX && old(ledger).consents(
                who,
                old(self).price,
            ) && old(self).owned_of(who).len() < old(self).max_owned),
            r is Ok ==> reserved_once(*old(ledger), *final(ledger), who, old(self).price),
            r is Ok ==> ({
                let id = old(self).next_id;
                &&& r == Ok::<Event, Error>(Event::KittyCreated(who, id, final(self).genome_of(id)))
                &&& final(self).next_id == id + 1
                &&& final(self).genome_of(id).0@ == derive_spec(seed@, who, sequence)
                &&& final(self).owner_of(id) == who
                &&& forall|j: u32|
                    old(self).exists_id(j) ==> final(self).genome_of(j) == old(self).genome_of(j)
                        && final(self).owner_of(j) == old(self).owner_of(j)
                &&& final(self).owned_of(who) == old(self).owned_of(who).push(id)
                &&& forall|a: u64| a != who ==> final(self).owned_of(a) == old(self).owned_of(a)
            }),
    {
        let kitty_id = self.next_id;
        if kitty_id == u32::MAX {
            return Err(Error::IdSpaceExhausted);
        }
        if ledger.reserve(who, self.price).is_err() {
            return Err(Error::NotEnoughBalance);
        }
        let ghost mid = *ledger;
        if self.owned_count(who) >= self.max_owned as usize {
            ledger.release(who, self.price);
            proof {
                lemma_reserve_undone(*old(ledger), mid, *ledger, who, self.price);
            }
            return Err(Error::TooMuchKitties);
        }
        let kitty = Kitty(derive_genome(seed, who, sequence));
        let id = self.commit_new_kitty(who, kitty);
        Ok(Event::KittyCreated(who, id, kitty))
    }

    /// Breeds a child from two distinct existing creatures: reserves the
    /// deposit from the caller, derives a selection mask from the seed, and
    /// stores the mixed child genome under a fresh identifier. The caller
    /// need not own either parent. The identifier-space and capacity checks
    /// follow the reservation — a shortfall outranks both — and a
    /// reservation taken for a breeding that then fails is released again,
    /// so a refused call has no net effect anywhere.
    pub fn breed<L: CollateralLedger>(
        &mut self,
        ledger: &mut L,
        who: u64,
        kitty_id_1: u32,
        kitty_id_2: u32,
        seed: &[u8; 32],
        sequence: u32,
    ) -> (r: Result<Event, Error>)
        requires
            old(self).wf(),
        ensures
            final(self).wf(),
            old(self).same_config(*final(self)),
            r is Err ==> *final(self) == *old(self),
            r is Err ==> balances_unchanged(*old(ledger), *final(ledger)),
            (r == Err::<Event, Error>(Error::SameKittyId)) <==> kitty_id_1 == kitty_id_2,
            (r == Err::<Event, Error>(Error::InvalidKittyId)) <==> (kitty_id_1 != kitty_id_2 && (
            !old(self).exists_id(kitty_id_1) || !old(self).exists_id(kitty_id_2))),
            (r == Err::<Event, Error>(Error::NotEnoughBalance)) <==> (kitty_id_1 != kitty_id_2
                && old(self).exists_id(kitty_id_1) && old(self).exists_id(kitty_id_2) && !old(
                ledger,
            ).consents(who, old(self).price)),
            (r == Err::<Event, Error>(Error::IdSpaceExhausted)) <==> (kitty_id_1 != kitty_id_2
                && old(self).exists_id(kitty_id_1) && old(self).exists_id(kitty_id_2) && old(
                ledger,
            ).consents(who, old(self).price) && old(self).next_id == u32::MAX),
            (r == Err::<Event, Error>(Error::TooMuchKitties)) <==> (kitty_id_1 != kitty_id_2
                && old(self).exists_id(kitty_id_1) && old(self).exists_id(kitty_id_2) && old(
                ledger,
            ).consents(who, old(self).price) && old(self).next_id != u32::MAX && old(
                self,
            ).owned_of(who).len() >= old(self).max_owned),
            (r is Ok) <==> (kitty_id_1 != kitty_id_2 && old(self).exists_id(kitty_id_1) && old(
                self,
            ).exists_id(kitty_id_2) && old(ledger).consents(who, old(self).price) && old(
                self,
            ).next_id != u32::MAX && old(self).owned_of(who).len() < old(self).max_owned),
            r is Ok ==> reserved_once(*old(ledger), *final(ledger), who, old(self).price),
            r is Ok ==> ({
                let id = old(self).next_id;
                let mask = derive_spec(seed@, who, sequence);
                &&& r == Ok::<Event, Error>(Event::KittyBred(who, id, final(self).genome_of(id)))
                &&& final(self).next_id == id + 1
                &&& forall|i: int|
                    0 <= i < 16 ==> final(self).genome_of(id).0@[i] == child_byte(
                        old(self).genome_of(kitty_id_1).0@[i],
                        old(self).genome_of(kitty_id_2).0@[i],
                        mask[i],
                    )
                &&& final(self).owner_of(id) == who
                &&& forall|j: u32|
                    old(self).exists_id(j) ==> final(self).genome_of(j) == old(self).genome_of(j)
                        && final(self).owner_of(j) == old(self).owner_of(j)
                &&& final(self).owned_of(who) == old(self).owned_of(who).push(id)
                &&& forall|a: u64| a != who ==> final(self).owned_of(a) == old(self).owned_of(a)
            }),
    {
        if kitty_id_1 == kitty_id_2 {
            return Err(Error::SameKittyId);
        }
        if kitty_id_1 >= self.next_id || kitty_id_2 >= self.next_id {
            return Err(Error::InvalidKittyId);
        }
        if ledger.reserve(who, self.price).is_err() {
            return Err(Error::NotEnoughBalance);
        }
        let ghost mid = *ledger;
        if self.next_id == u32::MAX {
            ledger.release(who, self.price);
            proof {
                lemma_reserve_undone(*old(ledger), mid, *ledger, who, self.price);
            }
            return Err(Error::IdSpaceExhausted);
        }
        if self.owned_count(who) >= self.max_owned as usize {
            ledger.release(who, self.price);
            proof {
                lemma_reserve_undone(*old(ledger), mid, *ledger, who, self.price);
            }
            return Err(Error::TooMuchKitties);
        }
        let parent1 = self.genomes[kitty_id_1 as usize];
        let parent2 = self.genomes[kitty_id_2 as usize];
        let mask = derive_genome(seed, who, sequence);
        let child = mix_genomes(&parent1, &parent2, &mask);
        let id = self.commit_new_kitty(who, child);
        Ok(Event::KittyBred(who, id, child))
    }

    /// Moves a creature the caller owns to `new_owner`. On the ledger it
    /// reserves a deposit from the sender and releases one to the receiver —
    /// deliberately that way round, however counter-intuitive; hosts wanting
    /// the receiver to post the deposit must swap the accounts themselves.
    /// The identifier leaves the sender's list and is appended to the
    /// receiver's. A transfer to oneself moves the identifier to the end of
    /// the list. The capacity check follows the reservation — a shortfall
    /// outranks a full list — and the receiver's release waits until the
    /// transfer is sure to commit, so a refusal needs only the sender's
    /// reservation undone and has no net effect anywhere.
    pub fn transfer<L: CollateralLedger>(
        &mut self,
        ledger: &mut L,
        who: u64,
        kitty_id: u32,
        new_owner: u64,
    ) -> (r: Result<Event, Error>)
        requires
            old(self).wf(),
        ensures
            final(self).wf(),
            old(self).same_config(*final(self)),
            r is Err ==> *final(self) == *old(self),
            r is Err ==> balances_unchanged(*old(ledger), *final(ledger)),
            (r == Err::<Event, Error>(Error::InvalidKittyId)) <==> !old(self).exists_id(kitty_id),
            (r == Err::<Event, Error>(Error::NotOwner)) <==> (old(self).exists_id(kitty_id) && old(
                self,
            ).owner_of(kitty_id) != who),
            (r == Err::<Event, Error>(Error::NotEnoughBalance)) <==> (old(self).exists_id(kitty_id)
                && old(self).owner_of(kitty_id) == who && !old(ledger).consents(
                who,
                old(self).price,
            )),
            (r == Err::<Event, Error>(Error::TooMuchKitties)) <==> (old(self).exists_id(kitty_id)
                && old(self).owner_of(kitty_id) == who && old(ledger).consents(
                who,
                old(self).price,
            ) && new_owner != who && old(self).owned_of(new_owner).len() >= old(self).max_owned),
            (r is Ok) <==> (old(self).exists_id(kitty_id) && old(self).owner_of(kitty_id) == who
                && old(ledger).consents(who, old(self).price) && (new_owner == who || old(
                self,
            ).owned_of(new_owner).len() < old(self).max_owned)),
            r is Ok ==> (if new_owner == who {
                balances_unchanged(*old(ledger), *final(ledger))
            } else {
                moved_deposit(*old(ledger), *final(ledger), who, new_owner, old(self).price)
            }),
            r is Ok ==> ({
                let moved_out = old(self).owned_of(who).remove_value(kitty_id);
                &&& r == Ok::<Event, Error>(Event::KittyTransferred(who, new_owner, kitty_id))
                &&& final(self).next_id == old(self).next_id
                &&& final(self).genomes@ == old(self).genomes@
                &&& final(self).owner_of(kitty_id) == new_owner
                &&& forall|j: u32|
                    old(self).exists_id(j) && j != kitty_id ==> final(self).owner_of(j) == old(
                        self,
                    ).owner_of(j)
                &&& new_owner != who ==> final(self).owned_of(who) == moved_out
                &&& final(self).owned_of(new_owner) == (if new_owner == who {
                    moved_out
                } else {
                    old(self).owned_of(new_owner)
                }).push(kitty_id)
                &&& forall|a: u64|
                    a != who && a != new_owner ==> final(self).owned_of(a) == old(self).owned_of(a)
            }),
    {
        if kitty_id >= self.next_id {
            return Err(Error::InvalidKittyId);
        }
        let owner = self.owners[kitty_id as usize];
        if owner != who {
            return Err(Error::NotOwner);
        }
        if ledger.reserve(who, self.price).is_err() {
            return Err(Error::NotEnoughBalance);
        }
        let ghost mid = *ledger;
        let mut from_list = self.owned_list(who);
        let pos = match find_id(&from_list, kitty_id) {
            Some(p) => p,
            None => {
                ledger.release(who, self.price);
                proof {
                    assert(old(self).owned_of(old(self).owner_of(kitty_id)).contains(kitty_id));
                }
                return Err(Error::InvariantViolation);
            },
        };
        if new_owner != who && self.owned_count(new_owner) >= self.max_owned as usize {
            ledger.release(who, self.price);
            proof {
                lemma_reserve_undone(*old(ledger), mid, *ledger, who, self.price);
            }
            return Err(Error::TooMuchKitties);
        }
        ledger.release(new_owner, self.price);
        proof {
            if new_owner == who {
                lemma_reserve_undone(*old(ledger), mid, *ledger, who, self.price);
            } else {
                lemma_deposit_moved(*old(ledger), mid, *ledger, who, new_owner, self.price);
            }
        }
        proof {
            old(self).owned_of(who).index_of_first_ensures(kitty_id);
            assert(old(self).owned_of(who).index_of_first(kitty_id) == Some(pos as int)) by {
                let fst = old(self).owned_of(who).index_of_first(kitty_id).unwrap();
                assert(old(self).owned_of(who).contains(kitty_id)) by {
                    assert(old(self).owned_of(who)[pos as int] == kitty_id);
                }
                if fst < pos as int {
                    assert(old(self).owned_of(who)[fst] != kitty_id);
                }
                if pos < fst {
                    assert(old(self).owned_of(who)[pos as int] != kitty_id);
                }
            }
        }
        from_list.remove(pos);
        if new_owner == who {
            from_list.push(kitty_id);
            self.owned.insert(who, from_list);
        } else {
            self.owned.insert(who, from_list);
            let mut to_list = self.owned_list(new_owner);
            to_list.push(kitty_id);
            self.owned.insert(new_owner, to_list);
        }
        self.owners[kitty_id as usize] = new_owner;
        proof {
            self.lemma_transfer_wf(*old(self), who, kitty_id, new_owner, pos as int);
        }
        Ok(Event::KittyTransferred(who, new_owner, kitty_id))
    }

    /// The re-indexing step of a transfer preserves well-formedness. `o` is
    /// the registry before the step, `self` after it; `pos` is where the
    /// moved identifier stood in the sender's list.
    proof fn lemma_transfer_wf(self, o: Pallet, who: u64, kitty_id: u32, new_owner: u64, pos: int)
        requires
            o.wf(),
            o.exists_id(kitty_id),
            o.owner_of(kitty_id) == who,
            0 <= pos < o.owned_of(who).len(),
            o.owned_of(who)[pos] == kitty_id,
            new_owner != who ==> o.owned_of(new_owner).len() < o.max_owned,
            self.next_id == o.next_id,
            self.max_owned == o.max_owned,
            self.genomes@ == o.genomes@,
            self.owners@ == o.owners@.update(kitty_id as int, new_owner),
            new_owner != who ==> self.owned_of(who) == o.owned_of(who).remove(pos),
            self.owned_of(new_owner) == (if new_owner == who {
                o.owned_of(who).remove(pos)
            } else {
                o.owned_of(new_owner)
            }).push(kitty_id),
            forall|a: u64| a != who && a != new_owner ==> self.owned_of(a) == o.owned_of(a),
        ensures
            self.wf(),
    {
        let n = self;
        o.owned_of(who).remove_ensures(pos);
        assert forall|id2: u32| n.exists_id(id2) implies n.owned_of(
            n.owner_of(id2),
        ).contains(id2) by {
            if id2 == kitty_id {
                assert(n.owner_of(id2) == new_owner);
                let tail = n.owned_of(new_owner).len() - 1;
                assert(n.owned_of(new_owner)[tail] == kitty_id);
            } else {
                let owner = o.owner_of(id2);
                assert(n.owner_of(id2) == owner);
                assert(o.owned_of(owner).contains(id2));
                let k = choose|k: int|
                    0 <= k < o.owned_of(owner).len() && o.owned_of(owner)[k] == id2;
                if owner == who {
                    // the sender's list lost only `kitty_id`
                    assert(o.lists_unique());
                    assert(o.owned_of(who)[k] == id2);
                    assert(k != pos);
                    let k2 = if k < pos {
                        k
                    } else {
                        k - 1
                    };
                    assert(o.owned_of(who).remove(pos)[k2] == id2);
                    assert(n.owned_of(who)[k2] == id2);
                } else if owner == new_owner {
                    assert(n.owned_of(new_owner)[k] == id2);
                } else {
                    assert(n.owned_of(owner)[k] == id2);
                }
            }
        }
        assert forall|a: u64, i: int| 0 <= i < n.owned_of(a).len() implies (n.exists_id(
            n.owned_of(a)[i],
        ) && n.owner_of(n.owned_of(a)[i]) == a) by {
            if a == new_owner && i == n.owned_of(new_owner).len() - 1 {
                assert(n.owned_of(a)[i] == kitty_id);
            } else if a == who || a == new_owner {
                // an entry kept from the old list of `a`
                let base = if a == who || new_owner == who {
                    o.owned_of(who).remove(pos)
                } else {
                    o.owned_of(new_owner)
                };
                assert(n.owned_of(a)[i] == base[i]);
                if a == who || new_owner == who {
                    let k = if i < pos {
                        i
                    } else {
                        i + 1
                    };
                    assert(o.owned_of(who).remove(pos)[i] == o.owned_of(who)[k]);
                    assert(o.exists_id(o.owned_of(who)[k]));
                    assert(o.owner_of(o.owned_of(who)[k]) == who);
                    assert(o.lists_unique());
                    assert(k != pos);
                    assert(o.owned_of(who)[k] != kitty_id);
                } else {
                    assert(o.exists_id(o.owned_of(a)[i]));
                    assert(o.owner_of(o.owned_of(a)[i]) == a);
                    assert(o.owned_of(a)[i] != kitty_id);
                }
            } else {
                assert(n.owned_of(a) == o.owned_of(a));
                assert(o.exists_id(o.owned_of(a)[i]));
                assert(o.owner_of(o.owned_of(a)[i]) == a);
                assert(o.owned_of(a)[i] != kitty_id) by {
                    if o.owned_of(a)[i] == kitty_id {
                        assert(o.owner_of(kitty_id) == a);
                    }
                }
            }
        }
        assert forall|a: u64, i: int, j: int| 0 <= i < j < n.owned_of(a).len() implies n.owned_of(
            a,
        )[i] != n.owned_of(a)[j] by {
            let removed = o.owned_of(who).remove(pos);
            if a == new_owner && j == n.owned_of(a).len() - 1 {
                // the appended entry is owned by `who` in `o`; earlier
                // entries of the receiving list are not `kitty_id`
                assert(n.owned_of(a)[j] == kitty_id);
                let base = if new_owner == who {
                    removed
                } else {
                    o.owned_of(new_owner)
                };
                assert(n.owned_of(a)[i] == base[i]);
                if new_owner == who {
                    let k = if i < pos {
                        i
                    } else {
                        i + 1
                    };
                    assert(removed[i] == o.owned_of(who)[k]);
                    assert(o.lists_unique());
                    assert(k != pos);
                    assert(o.owned_of(who)[k] != o.owned_of(who)[pos]);
                } else {
                    assert(o.exists_id(o.owned_of(a)[i]));
                    assert(o.owner_of(o.owned_of(a)[i]) == a);
                    if o.owned_of(a)[i] == kitty_id {
                        assert(o.owner_of(kitty_id) == a);
                    }
                }
            } else if a == who || a == new_owner {
                let base = if a == who || new_owner == who {
                    removed
                } else {
                    o.owned_of(new_owner)
                };
                assert(n.owned_of(a)[i] == base[i]);
                assert(n.owned_of(a)[j] == base[j]);
                if a == who || new_owner == who {
                    let ki = if i < pos {
                        i
                    } else {
                        i + 1
                    };
                    let kj = if j < pos {
                        j
                    } else {
                        j + 1
                    };
                    assert(removed[i] == o.owned_of(who)[ki]);
                    assert(removed[j] == o.owned_of(who)[kj]);
                    assert(o.owned_of(who)[ki] != o.owned_of(who)[kj]);
                } else {
                    assert(o.owned_of(a)[i] != o.owned_of(a)[j]);
                }
            } else {
                assert(n.owned_of(a) == o.owned_of(a));
                assert(o.owned_of(a)[i] != o.owned_of(a)[j]);
            }
        }
        assert forall|a: u64| n.owned_of(a).len() <= n.max_owned by {
            assert(o.owned_of(a).len() <= o.max_owned);
            if a == new_owner {
                if new_owner == who {
                    assert(n.owned_of(a).len() == o.owned_of(who).len());
                } else {
                    assert(n.owned_of(a).len() == o.owned_of(new_owner).len() + 1);
                }
            } else if a == who {
                assert(n.owned_of(a).len() == o.owned_of(who).len() - 1);
            } else {
                assert(n.owned_of(a) == o.owned_of(a));
            }
        }
    }
}

/// One successful mint or breed, as the contracts of `create` and `breed`
/// pin it: the identifier handed out is the counter's value, and the counter
/// moves one past it.
pub open spec fn allocates(pre: Pallet, post: Pallet, id: u32) -> bool {
    id == pre.next_id && post.next_id == id + 1
}

/// Identifiers from successive successful mints or breeds are strictly
/// increasing and never reused. Failed calls in between do not disturb this:
/// they leave the counter unchanged, while further successes only advance it,
/// so any interleaving satisfies `mid.next_id >= s1.next_id` below.
pub proof fn lemma_monotonic_ids(
    s0: Pallet,
    s1: Pallet,
    id1: u32,
    mid: Pallet,
    s2: Pallet,
    id2: u32,
)
    requires
        allocates(s0, s1, id1),
        mid.next_id >= s1.next_id,
        allocates(mid, s2, id2),
    ensures
        id2 > id1,
{
}

/// Ownership is one-to-one: every created creature is listed under its
/// owner, and no identifier stands in two accounts' lists.
pub proof fn lemma_ownership_bijection(p: Pallet)
    requires
        p.wf(),
    ensures
        forall|id: u32| p.exists_id(id) ==> p.owned_of(#[trigger] p.owner_of(id)).contains(id),
        forall|a1: u64, a2: u64, id: u32|
            #![trigger p.owned_of(a1).contains(id), p.owned_of(a2).contains(id)]
            a1 != a2 ==> !(p.owned_of(a1).contains(id) && p.owned_of(a2).contains(id)),
{
    assert forall|a1: u64, a2: u64, id: u32| a1 != a2 implies !(p.owned_of(a1).contains(id)
        && p.owned_of(a2).contains(id)) by {
        if p.owned_of(a1).contains(id) && p.owned_of(a2).contains(id) {
            let i = choose|i: int| 0 <= i < p.owned_of(a1).len() && p.owned_of(a1)[i] == id;
            let j = choose|j: int| 0 <= j < p.owned_of(a2).len() && p.owned_of(a2)[j] == id;
            assert(p.owner_of(p.owned_of(a1)[i]) == a1);
            assert(p.owner_of(p.owned_of(a2)[j]) == a2);
        }
    }
}

/// No account's list ever exceeds the capacity bound.
pub proof fn lemma_capacity_bound(p: Pallet, account: u64)
    requires
        p.wf(),
    ensures
        p.owned_of(account).len() <= p.max_owned,
{
}

/// Finds the position of the first occurrence of an identifier in a list.
fn find_id(v: &Vec<u32>, id: u32) -> (r: Option<usize>)
    ensures
        match r {
            Some(p) => p < v@.len() && v@[p as int] == id && (forall|k: int|
                0 <= k < p ==> v@[k] != id),
            None => !v@.contains(id),
        },
{
    let mut i: usize = 0;
    while i < v.len()
        invariant
            i <= v.len(),
            forall|k: int| 0 <= k < i ==> v@[k] != id,
        decreases v.len() - i,
    {
        if v[i] == id {
            return Some(i);
        }
        i = i + 1;
    }
    proof {
        if v@.contains(id) {
            let k = choose|k: int| 0 <= k < v@.len() && v@[k] == id;
            assert(v@[k] != id);
        }
    }
    None
}

/// Copies a vector of identifiers.
fn copy_ids(v: &Vec<u32>) -> (r: Vec<u32>)
    ensures
        r@ == v@,
{
    let mut r: Vec<u32> = Vec::new();
    let mut i: usize = 0;
    while i < v.len()
        invariant
            i <= v.len(),
            r@ == v@.take(i as int),
        decreases v.len() - i,
    {
        r.push(v[i]);
        assert(r@ =~= v@.take(i + 1 as int));
        i = i + 1;
    }
    assert(r@ =~= v@);
    r
}

} // verus!
