//! The breedable-asset registry.
//!
//! A kitty is a 16-byte DNA record with a single owner. Identifiers are
//! assigned sequentially, so the registry stores the records and their
//! owners positionally. The runtime draws the randomness a new DNA is
//! derived from (a hash over its randomness source, the sender and the
//! transaction index) and hands the bytes in; every operation here is
//! verified for every possible value of them.

use vstd::prelude::*;

verus! {

/// A kitty's DNA.
pub struct Kitty(pub [u8; 16]);

/// Why a registry operation was rejected. A rejected operation leaves the
/// registry untouched and appends no event.
#[derive(Clone, Copy, Debug, PartialEq, Eq)]
pub enum KittyError {
    /// The identifier space is exhausted.
    KittiesCountOverflow,
    /// The named kitty has never been created.
    InvalidKittyId,
    /// Breeding needs two different parents.
    RequireDifferentParent,
}

/// A record of one successful operation, appended to the registry's event
/// log in operation order.
#[derive(Clone, Copy, Debug, PartialEq, Eq)]
pub enum KittyEvent {
    /// `Created(owner, kitty_id)`: a new kitty was registered.
    Created(u64, u32),
    /// `Transfered(sender, receiver, kitty_id)`: ownership changed hands.
    Transfered(u64, u64, u32),
}

/// One byte of a child's DNA: each bit comes from the first parent where the
/// selector bit is set and from the second parent where it is clear.
pub open spec fn spec_combine_dna(dna1: u8, dna2: u8, selector: u8) -> u8 {
    (selector & dna1) | (!selector & dna2)
}

/// Combine one byte of two parents' DNA under a selector byte.
pub fn combine_dna(dna1: u8, dna2: u8, selector: u8) -> (r: u8)
    ensures
        r == spec_combine_dna(dna1, dna2, selector),
{
    (selector & dna1) | (!selector & dna2)
}

/// The kitty records, their owners, and the event log. The kitty with
/// identifier `i` is the `i`-th record; its owner is the `i`-th owner.
pub struct KittyRegistry {
    pub kitties: Vec<Kitty>,
    pub owners: Vec<u64>,
    pub events: Vec<KittyEvent>,
}

impl KittyRegistry {
    /// Well-formedness: one owner per kitty, and identifiers fit their
    /// 32-bit representation.
    pub open spec fn wf(&self) -> bool {
        &&& self.owners@.len() == self.kitties@.len()
        &&& self.kitties@.len() <= u32::MAX as int
    }

    /// An empty registry.
    pub fn new() -> (r: KittyRegistry)
        ensures
            r.wf(),
            r.kitties@.len() == 0,
            r.owners@.len() == 0,
            r.events@.len() == 0,
    {
        KittyRegistry { kitties: Vec::new(), owners: Vec::new(), events: Vec::new() }
    }

    /// How many kitties have been created; also the next identifier.
    pub fn kitties_count(&self) -> (r: u32)
        requires
            self.wf(),
        ensures
            r as int == self.kitties@.len(),
    {
        self.kitties.len() as u32
    }

    /// The owner of kitty `kitty_id`, or `None` when it was never created.
    pub fn kitty_owner(&self, kitty_id: u32) -> (r: Option<u64>)
        requires
            self.wf(),
        ensures
            r == if (kitty_id as int) < self.owners@.len() {
                Some(self.owners@[kitty_id as int])
            } else {
                None::<u64>
            },
    {
        if (kitty_id as usize) < self.owners.len() {
            Some(self.owners[kitty_id as usize])
        } else {
            None
        }
    }

    /// The next free identifier, or an error once the space is exhausted.
    pub fn next_kitty_id(&self) -> (r: Result<u32, KittyError>)
        requires
            self.wf(),
        ensures
            r is Ok <==> self.kitties@.len() < u32::MAX as int,
            r is Ok ==> r == Ok::<u32, KittyError>(self.kitties@.len() as u32),
            r is Err ==> r == Err::<u32, KittyError>(KittyError::KittiesCountOverflow),
    {
        let kitty_id = self.kitties_count();
        if kitty_id == u32::MAX {
            return Err(KittyError::KittiesCountOverflow);
        }
        Ok(kitty_id)
    }

    /// Record a kitty and its owner under the next identifier. Identifiers
    /// are positional, so `kitty_id` must be the one `next_kitty_id` hands
    /// out; every caller obtains it there.
    pub fn insert_kitty(&mut self, owner: u64, kitty_id: u32, kitty: Kitty)
        requires
            old(self).wf(),
            kitty_id as int == old(self).kitties@.len(),
            old(self).kitties@.len() < u32::MAX as int,
        ensures
            final(self).wf(),
            final(self).kitties@ == old(self).kitties@.push(kitty),
            final(self).owners@ == old(self).owners@.push(owner),
            final(self).events@ == old(self).events@,
    {
        self.kitties.push(kitty);
        self.owners.push(owner);
    }

    /// Register a newborn kitty for `sender` with the DNA the runtime drew.
    pub fn create(&mut self, sender: u64, dna: [u8; 16]) -> (r: Result<(), KittyError>)
        requires
            old(self).wf(),
        ensures
            final(self).wf(),
            r is Ok <==> old(self).kitties@.len() < u32::MAX as int,
            r is Err ==> r == Err::<(), KittyError>(KittyError::KittiesCountOverflow),
            r is Err ==> *final(self) == *old(self),
            r is Ok ==> {
                &&& final(self).kitties@ == old(self).kitties@.push(Kitty(dna))
                &&& final(self).owners@ == old(self).owners@.push(sender)
                &&& final(self).events@ == old(self).events@.push(
                    KittyEvent::Created(sender, old(self).kitties@.len() as u32),
                )
            },
    {
        let kitty_id = match self.next_kitty_id() {
            Ok(id) => id,
            Err(e) => {
                return Err(e);
            },
        };
        let kitty = Kitty(dna);
        self.insert_kitty(sender, kitty_id, kitty);
        self.events.push(KittyEvent::Created(sender, kitty_id));
        Ok(())
    }

    /// Hand ownership of kitty `kitty_id` to `to`. An identifier never
    /// created is rejected: recording an owner for it would create an entry
    /// nothing else could ever read.
    pub fn transfer(&mut self, sender: u64, to: u64, kitty_id: u32) -> (r: Result<
        (),
        KittyError,
    >)
        requires
            old(self).wf(),
        ensures
            final(self).wf(),
            r is Ok <==> (kitty_id as int) < old(self).kitties@.len(),
            r is Err ==> r == Err::<(), KittyError>(KittyError::InvalidKittyId),
            r is Err ==> *final(self) == *old(self),
            r is Ok ==> {
                &&& final(self).owners@ == old(self).owners@.update(kitty_id as int, to)
                &&& final(self).kitties@ == old(self).kitties@
                &&& final(self).events@ == old(self).events@.push(
                    KittyEvent::Transfered(sender, to, kitty_id),
                )
            },
    {
        if (kitty_id as usize) >= self.kitties.len() {
            return Err(KittyError::InvalidKittyId);
        }
        self.owners[kitty_id as usize] = to;
        self.events.push(KittyEvent::Transfered(sender, to, kitty_id));
        Ok(())
    }

    /// Breed a new kitty from two existing, different parents. The child's
    /// DNA combines the parents' bytes bit-by-bit under the selector bytes
    /// the runtime drew. The parent checks come first, in the order the
    /// errors are listed; nothing is written unless every check passes.
    pub fn do_bread(&mut self, sender: u64, kitty_id_1: u32, kitty_id_2: u32, selector: [u8; 16])
        -> (r: Result<u32, KittyError>)
        requires
            old(self).wf(),
        ensures
            final(self).wf(),
            r is Err ==> *final(self) == *old(self),
            r == Err::<u32, KittyError>(KittyError::InvalidKittyId) <==> ((kitty_id_1 as int)
                >= old(self).kitties@.len() || (kitty_id_2 as int) >= old(self).kitties@.len()),
            r == Err::<u32, KittyError>(KittyError::RequireDifferentParent) <==> ((
            kitty_id_1 as int) < old(self).kitties@.len() && (kitty_id_2 as int) < old(
                self,
            ).kitties@.len() && kitty_id_1 == kitty_id_2),
            r == Err::<u32, KittyError>(KittyError::KittiesCountOverflow) <==> ((
            kitty_id_1 as int) < old(self).kitties@.len() && (kitty_id_2 as int) < old(
                self,
            ).kitties@.len() && kitty_id_1 != kitty_id_2 && old(self).kitties@.len() == u32::MAX
                as int),
            r is Ok <==> ((kitty_id_1 as int) < old(self).kitties@.len() && (kitty_id_2 as int)
                < old(self).kitties@.len() && kitty_id_1 != kitty_id_2 && old(self).kitties@.len()
                < u32::MAX as int),
            r is Ok ==> {
                &&& r == Ok::<u32, KittyError>(old(self).kitties@.len() as u32)
                &&& final(self).owners@ == old(self).owners@.push(sender)
                &&& final(self).kitties@.len() == old(self).kitties@.len() + 1
                &&& forall|i: int|
                    0 <= i < old(self).kitties@.len() ==> final(self).kitties@[i] == old(
                        self,
                    ).kitties@[i]
                &&& forall|i: int|
                    0 <= i < 16 ==> final(self).kitties@.last().0@[i] == spec_combine_dna(
                        old(self).kitties@[kitty_id_1 as int].0@[i],
                        old(self).kitties@[kitty_id_2 as int].0@[i],
                        selector@[i],
                    )
                &&& final(self).events@ == old(self).events@
            },
    {
        let n = self.kitties.len();
        if (kitty_id_1 as usize) >= n || (kitty_id_2 as usize) >= n {
            return Err(KittyError::InvalidKittyId);
        }
        if kitty_id_1 == kitty_id_2 {
            return Err(KittyError::RequireDifferentParent);
        }
        let kitty_id = match self.next_kitty_id() {
            Ok(id) => id,
            Err(e) => {
                return Err(e);
            },
        };
        let kitty1_dna = self.kitties[kitty_id_1 as usize].0;
        let kitty2_dna = self.kitties[kitty_id_2 as usize].0;
        let mut new_dna: [u8; 16] = [0u8; 16];
        let mut i: usize = 0;
        while i < 16
            invariant
                i <= 16,
                forall|j: int|
                    0 <= j < i ==> new_dna@[j] == spec_combine_dna(
                        kitty1_dna@[j],
                        kitty2_dna@[j],
                        selector@[j],
                    ),
            decreases 16 - i,
        {
            new_dna[i] = combine_dna(kitty1_dna[i], kitty2_dna[i], selector[i]);
            i = i + 1;
        }
        self.insert_kitty(sender, kitty_id, Kitty(new_dna));
        Ok(kitty_id)
    }

    /// Breed a new kitty and record its creation in the event log.
    pub fn bread(&mut self, sender: u64, kitty_id_1: u32, kitty_id_2: u32, selector: [u8; 16])
        -> (r: Result<(), KittyError>)
        requires
            old(self).wf(),
        ensures
            final(self).wf(),
            r is Err ==> *final(self) == *old(self),
            r == Err::<(), KittyError>(KittyError::InvalidKittyId) <==> ((kitty_id_1 as int)
                >= old(self).kitties@.len() || (kitty_id_2 as int) >= old(self).kitties@.len()),
            r == Err::<(), KittyError>(KittyError::RequireDifferentParent) <==> ((
            kitty_id_1 as int) < old(self).kitties@.len() && (kitty_id_2 as int) < old(
                self,
            ).kitties@.len() && kitty_id_1 == kitty_id_2),
            r == Err::<(), KittyError>(KittyError::KittiesCountOverflow) <==> ((kitty_id_1 as int)
                < old(self).kitties@.len() && (kitty_id_2 as int) < old(self).kitties@.len()
                && kitty_id_1 != kitty_id_2 && old(self).kitties@.len() == u32::MAX as int),
            r is Ok <==> ((kitty_id_1 as int) < old(self).kitties@.len() && (kitty_id_2 as int)
                < old(self).kitties@.len() && kitty_id_1 != kitty_id_2 && old(self).kitties@.len()
                < u32::MAX as int),
            r is Ok ==> {
                &&& final(self).owners@ == old(self).owners@.push(sender)
                &&& final(self).kitties@.len() == old(self).kitties@.len() + 1
                &&& forall|i: int|
                    0 <= i < old(self).kitties@.len() ==> final(self).kitties@[i] == old(
                        self,
                    ).kitties@[i]
                &&& forall|i: int|
                    0 <= i < 16 ==> final(self).kitties@.last().0@[i] == spec_combine_dna(
                        old(self).kitties@[kitty_id_1 as int].0@[i],
                        old(self).kitties@[kitty_id_2 as int].0@[i],
                        selector@[i],
                    )
                &&& final(self).events@ == old(self).events@.push(
                    KittyEvent::Created(sender, old(self).kitties@.len() as u32),
                )
            },
    {
        let new_kitty_id = match self.do_bread(sender, kitty_id_1, kitty_id_2, selector) {
            Ok(id) => id,
            Err(e) => {
                return Err(e);
            },
        };
        self.events.push(KittyEvent::Created(sender, new_kitty_id));
        Ok(())
    }
}

} // verus!
