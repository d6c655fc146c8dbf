//! The proof-of-existence claim registry.
//!
//! A claim is an arbitrary byte string recorded for exactly one owner
//! together with the block number at which it was recorded. The runtime
//! authenticates callers and supplies the current block number; the registry
//! holds the records and the single-owner rule. A claim without an entry is
//! unclaimed, and a rejected operation mutates nothing.

use vstd::prelude::*;

verus! {

/// Why a claim operation was rejected.
#[derive(Clone, Copy, Debug, PartialEq, Eq)]
pub enum PoeError {
    /// The claim is already recorded for some owner.
    ProofAlreadyClaimed,
    /// The claim to revoke was never recorded.
    NoSuchProof,
    /// Only the recorded owner may revoke a claim.
    NotProofOwner,
    /// Only the recorded owner may hand a claim on.
    NotClaimOwner,
    /// The claim to hand on was never recorded.
    ClaimNotExist,
}

/// A record of one successful operation, appended in operation order.
#[derive(Clone, Debug, PartialEq, Eq)]
pub enum PoeEvent {
    /// `ClaimCreated(owner, claim)`: the claim was recorded for `owner`.
    ClaimCreated(u64, Vec<u8>),
    /// `ClaimRevoked(owner, claim)`: the owner withdrew the claim.
    ClaimRevoked(u64, Vec<u8>),
    /// `ClaimTransfer(receiver, claim)`: the claim now belongs to `receiver`.
    ClaimTransfer(u64, Vec<u8>),
}

/// What the registry records for claim `claim` in table `s`: the owner and
/// block number of the first entry whose bytes match, or `None` when the
/// claim is unrecorded.
pub open spec fn claim_find(s: Seq<(Vec<u8>, u64, u64)>, claim: Seq<u8>) -> Option<(u64, u64)>
    decreases s.len(),
{
    if s.len() == 0 {
        None
    } else if s[0].0@ == claim {
        Some((s[0].1, s[0].2))
    } else {
        claim_find(s.drop_first(), claim)
    }
}

/// Each claim has at most one entry.
pub open spec fn claim_distinct(s: Seq<(Vec<u8>, u64, u64)>) -> bool {
    forall|i: int, j: int| 0 <= i < j < s.len() ==> s[i].0@ != s[j].0@
}

pub proof fn lemma_claim_find_absent(s: Seq<(Vec<u8>, u64, u64)>, claim: Seq<u8>)
    requires
        forall|i: int| 0 <= i < s.len() ==> s[i].0@ != claim,
    ensures
        claim_find(s, claim) is None,
    decreases s.len(),
{
    if s.len() != 0 {
        lemma_claim_find_absent(s.drop_first(), claim);
    }
}

/// When no earlier entry shares its bytes, entry `i` is the one a lookup
/// finds.
pub proof fn lemma_claim_find_at(s: Seq<(Vec<u8>, u64, u64)>, i: int)
    requires
        0 <= i < s.len(),
        forall|j: int| 0 <= j < i ==> s[j].0@ != s[i].0@,
    ensures
        claim_find(s, s[i].0@) == Some((s[i].1, s[i].2)),
    decreases i,
{
    if i > 0 {
        lemma_claim_find_at(s.drop_first(), i - 1);
    }
}

/// Appending an entry for unrecorded bytes records exactly that claim.
pub proof fn lemma_claim_find_push(
    s: Seq<(Vec<u8>, u64, u64)>,
    entry: (Vec<u8>, u64, u64),
    claim: Seq<u8>,
)
    requires
        forall|i: int| 0 <= i < s.len() ==> s[i].0@ != entry.0@,
    ensures
        claim_find(s.push(entry), claim) == if claim == entry.0@ {
            Some((entry.1, entry.2))
        } else {
            claim_find(s, claim)
        },
    decreases s.len(),
{
    if s.len() == 0 {
        assert(s.push(entry)[0] == entry);
        assert(s.push(entry).drop_first() =~= s);
    } else {
        assert(s.push(entry)[0] == s[0]);
        assert(s.push(entry).drop_first() =~= s.drop_first().push(entry));
        lemma_claim_find_push(s.drop_first(), entry, claim);
    }
}

/// Removing entry `i` unrecords exactly that claim.
pub proof fn lemma_claim_find_remove(s: Seq<(Vec<u8>, u64, u64)>, i: int, claim: Seq<u8>)
    requires
        0 <= i < s.len(),
        claim_distinct(s),
    ensures
        claim_find(s.remove(i), claim) == if claim == s[i].0@ {
            None::<(u64, u64)>
        } else {
            claim_find(s, claim)
        },
    decreases i,
{
    let t = s.remove(i);
    if i == 0 {
        assert(t =~= s.drop_first());
        if claim == s[0].0@ {
            assert forall|j: int|
                0 <= j < s.drop_first().len() implies s.drop_first()[j].0@ != claim by {
                assert(s.drop_first()[j] == s[j + 1]);
            }
            lemma_claim_find_absent(s.drop_first(), claim);
        }
    } else {
        assert(t[0] == s[0]);
        assert(t.drop_first() =~= s.drop_first().remove(i - 1));
        assert(claim_distinct(s.drop_first()));
        assert(s.drop_first()[i - 1] == s[i]);
        lemma_claim_find_remove(s.drop_first(), i - 1, claim);
    }
}

/// Copy a byte string. The registry stores one copy of a created claim and
/// records another in the event log.
fn clone_bytes(v: &Vec<u8>) -> (r: Vec<u8>)
    ensures
        r@ == v@,
{
    let n: usize = v.len();
    let mut r: Vec<u8> = Vec::new();
    let mut i: usize = 0;
    while i < n
        invariant
            n == v@.len(),
            i <= n,
            r@.len() == i,
            forall|j: int| 0 <= j < i ==> r@[j] == v@[j],
        decreases n - i,
    {
        r.push(v[i]);
        i = i + 1;
    }
    proof {
        assert(r@ =~= v@);
    }
    r
}

/// Compare two byte strings by contents.
fn eq_bytes(a: &Vec<u8>, b: &Vec<u8>) -> (r: bool)
    ensures
        r <==> a@ == b@,
{
    let n: usize = a.len();
    if n != b.len() {
        return false;
    }
    let mut i: usize = 0;
    while i < n
        invariant
            n == a@.len(),
            n == b@.len(),
            i <= n,
            forall|j: int| 0 <= j < i ==> a@[j] == b@[j],
        decreases n - i,
    {
        if a[i] != b[i] {
            return false;
        }
        i = i + 1;
    }
    proof {
        assert(a@ =~= b@);
    }
    true
}

/// The claim table and the event log.
pub struct ClaimRegistry {
    /// One `(claim, owner, block)` entry per recorded claim.
    pub claims: Vec<(Vec<u8>, u64, u64)>,
    /// Events appended by successful operations, oldest first.
    pub events: Vec<PoeEvent>,
}

impl ClaimRegistry {
    /// The record for `claim`: its owner and recording block, or `None`.
    pub open spec fn spec_claim(&self, claim: Seq<u8>) -> Option<(u64, u64)> {
        claim_find(self.claims@, claim)
    }

    /// Well-formedness: one entry per claim.
    pub open spec fn wf(&self) -> bool {
        claim_distinct(self.claims@)
    }

    /// An empty registry.
    pub fn new() -> (r: ClaimRegistry)
        ensures
            r.wf(),
            forall|k: Seq<u8>| r.spec_claim(k) is None,
            r.events@.len() == 0,
    {
        ClaimRegistry { claims: Vec::new(), events: Vec::new() }
    }

    /// The position of `claim`'s entry, if it has one.
    fn index_of(&self, claim: &Vec<u8>) -> (r: Option<usize>)
        ensures
            match r {
                Some(i) => {
                    &&& i < self.claims@.len()
                    &&& self.claims@[i as int].0@ == claim@
                    &&& forall|j: int| 0 <= j < i ==> self.claims@[j].0@ != claim@
                },
                None => forall|j: int| 0 <= j < self.claims@.len() ==> self.claims@[j].0@ != claim@,
            },
    {
        let n: usize = self.claims.len();
        let mut i: usize = 0;
        while i < n
            invariant
                n == self.claims@.len(),
                i <= n,
                forall|j: int| 0 <= j < i ==> self.claims@[j].0@ != claim@,
            decreases n - i,
        {
            if eq_bytes(&self.claims[i].0, claim) {
                return Some(i);
            }
            i = i + 1;
        }
        None
    }

    /// The owner and recording block of `claim`, or `None` when unrecorded.
    pub fn get_claim(&self, claim: &Vec<u8>) -> (r: Option<(u64, u64)>)
        requires
            self.wf(),
        ensures
            r == self.spec_claim(claim@),
    {
        match self.index_of(claim) {
            Some(i) => {
                proof {
                    lemma_claim_find_at(self.claims@, i as int);
                }
                Some((self.claims[i].1, self.claims[i].2))
            },
            None => {
                proof {
                    lemma_claim_find_absent(self.claims@, claim@);
                }
                None
            },
        }
    }

    /// Record `claim` for the authenticated `sender` at `current_block`.
    /// Rejected when the claim is already recorded, for whomever.
    pub fn create_claim(&mut self, sender: u64, claim: Vec<u8>, current_block: u64) -> (r: Result<
        (),
        PoeError,
    >)
        requires
            old(self).wf(),
        ensures
            final(self).wf(),
            r is Ok <==> old(self).spec_claim(claim@) is None,
            r is Err ==> r == Err::<(), PoeError>(PoeError::ProofAlreadyClaimed),
            r is Err ==> *final(self) == *old(self),
            r is Ok ==> {
                &&& final(self).spec_claim(claim@) == Some((sender, current_block))
                &&& forall|k: Seq<u8>|
                    k != claim@ ==> final(self).spec_claim(k) == old(self).spec_claim(k)
                &&& final(self).events@.len() == old(self).events@.len() + 1
                &&& forall|i: int|
                    0 <= i < old(self).events@.len() ==> final(self).events@[i] == old(
                        self,
                    ).events@[i]
                &&& final(self).events@.last() matches PoeEvent::ClaimCreated(s2, c2) && s2
                    == sender && c2@ == claim@
            },
    {
        match self.index_of(&claim) {
            Some(i) => {
                proof {
                    lemma_claim_find_at(self.claims@, i as int);
                }
                Err(PoeError::ProofAlreadyClaimed)
            },
            None => {
                proof {
                    lemma_claim_find_absent(self.claims@, claim@);
                }
                let ghost s0 = self.claims@;
                let stored = clone_bytes(&claim);
                self.claims.push((stored, sender, current_block));
                proof {
                    assert forall|k: Seq<u8>|
                        claim_find(self.claims@, k) == (if k == claim@ {
                            Some((sender, current_block))
                        } else {
                            claim_find(s0, k)
                        }) by {
                        lemma_claim_find_push(s0, (stored, sender, current_block), k);
                    }
                    assert forall|a: int, b: int|
                        0 <= a < b < self.claims@.len() implies self.claims@[a].0@
                        != self.claims@[b].0@ by {
                        if b < s0.len() {
                            assert(self.claims@[a] == s0[a]);
                            assert(self.claims@[b] == s0[b]);
                        } else {
                            assert(self.claims@[a] == s0[a]);
                            assert(self.claims@[b].0@ == claim@);
                        }
                    }
                }
                self.events.push(PoeEvent::ClaimCreated(sender, claim));
                Ok(())
            },
        }
    }

    /// Withdraw `claim`. Only its recorded owner may; the record disappears
    /// and the claim can be recorded anew.
    pub fn revoke_claim(&mut self, sender: u64, claim: Vec<u8>) -> (r: Result<(), PoeError>)
        requires
            old(self).wf(),
        ensures
            final(self).wf(),
            r == Err::<(), PoeError>(PoeError::NoSuchProof) <==> old(self).spec_claim(claim@)
                is None,
            r == Err::<(), PoeError>(PoeError::NotProofOwner) <==> (old(self).spec_claim(claim@)
                matches Some(e) && e.0 != sender),
            r is Ok <==> (old(self).spec_claim(claim@) matches Some(e) && e.0 == sender),
            r is Err ==> *final(self) == *old(self),
            r is Ok ==> {
                &&& final(self).spec_claim(claim@) is None
                &&& forall|k: Seq<u8>|
                    k != claim@ ==> final(self).spec_claim(k) == old(self).spec_claim(k)
                &&& final(self).events@.len() == old(self).events@.len() + 1
                &&& forall|i: int|
                    0 <= i < old(self).events@.len() ==> final(self).events@[i] == old(
                        self,
                    ).events@[i]
                &&& final(self).events@.last() matches PoeEvent::ClaimRevoked(s2, c2) && s2
                    == sender && c2@ == claim@
            },
    {
        let i = match self.index_of(&claim) {
            Some(i) => i,
            None => {
                proof {
                    lemma_claim_find_absent(self.claims@, claim@);
                }
                return Err(PoeError::NoSuchProof);
            },
        };
        proof {
            lemma_claim_find_at(self.claims@, i as int);
        }
        let owner = self.claims[i].1;
        if owner != sender {
            return Err(PoeError::NotProofOwner);
        }
        let ghost s0 = self.claims@;
        let _removed = self.claims.remove(i);
        proof {
            assert forall|k: Seq<u8>|
                claim_find(self.claims@, k) == (if k == claim@ {
                    None::<(u64, u64)>
                } else {
                    claim_find(s0, k)
                }) by {
                lemma_claim_find_remove(s0, i as int, k);
            }
            s0.remove_ensures(i as int);
            assert forall|a: int, b: int|
                0 <= a < b < self.claims@.len() implies self.claims@[a].0@
                != self.claims@[b].0@ by {
                assert(self.claims@ == s0.remove(i as int));
            }
        }
        self.events.push(PoeEvent::ClaimRevoked(sender, claim));
        Ok(())
    }

    /// Hand `claim` on to `receiver`. Only its recorded owner may; the
    /// record keeps the block number at which it was first recorded.
    pub fn transfer_claim(&mut self, sender: u64, claim: Vec<u8>, receiver: u64) -> (r: Result<
        (),
        PoeError,
    >)
        requires
            old(self).wf(),
        ensures
            final(self).wf(),
            r == Err::<(), PoeError>(PoeError::ClaimNotExist) <==> old(self).spec_claim(claim@)
                is None,
            r == Err::<(), PoeError>(PoeError::NotClaimOwner) <==> (old(self).spec_claim(claim@)
                matches Some(e) && e.0 != sender),
            r is Ok <==> (old(self).spec_claim(claim@) matches Some(e) && e.0 == sender),
            r is Err ==> *final(self) == *old(self),
            r is Ok ==> {
                &&& old(self).spec_claim(claim@) matches Some(e) ==> final(self).spec_claim(claim@)
                    == Some((receiver, e.1))
                &&& forall|k: Seq<u8>|
                    k != claim@ ==> final(self).spec_claim(k) == old(self).spec_claim(k)
                &&& final(self).events@.len() == old(self).events@.len() + 1
                &&& forall|i: int|
                    0 <= i < old(self).events@.len() ==> final(self).events@[i] == old(
                        self,
                    ).events@[i]
                &&& final(self).events@.last() matches PoeEvent::ClaimTransfer(r2, c2) && r2
                    == receiver && c2@ == claim@
            },
    {
        let i = match self.index_of(&claim) {
            Some(i) => i,
            None => {
                proof {
                    lemma_claim_find_absent(self.claims@, claim@);
                }
                return Err(PoeError::ClaimNotExist);
            },
        };
        proof {
            lemma_claim_find_at(self.claims@, i as int);
        }
        let owner = self.claims[i].1;
        if owner != sender {
            return Err(PoeError::NotClaimOwner);
        }
        let ghost s0 = self.claims@;
        // Remove the record and re-insert it for the receiver with the
        // preserved block number.
        let entry = self.claims.remove(i);
        let ghost entry0 = entry.0;
        proof {
            assert forall|k: Seq<u8>|
                claim_find(self.claims@, k) == (if k == claim@ {
                    None::<(u64, u64)>
                } else {
                    claim_find(s0, k)
                }) by {
                lemma_claim_find_remove(s0, i as int, k);
            }
            s0.remove_ensures(i as int);
            assert forall|a: int, b: int|
                0 <= a < b < self.claims@.len() implies self.claims@[a].0@
                != self.claims@[b].0@ by {
                assert(self.claims@ == s0.remove(i as int));
            }
            assert forall|j: int|
                0 <= j < self.claims@.len() implies self.claims@[j].0@ != entry0@ by {
                if j < i {
                    assert(self.claims@[j] == s0[j]);
                } else {
                    assert(self.claims@[j] == s0[j + 1]);
                }
            }
        }
        let ghost s1 = self.claims@;
        let block = entry.2;
        self.claims.push((entry.0, receiver, block));
        proof {
            assert(self.claims@ == s1.push((entry0, receiver, block)));
            assert forall|k: Seq<u8>|
                claim_find(self.claims@, k) == (if k == claim@ {
                    Some((receiver, block))
                } else {
                    claim_find(s1, k)
                }) by {
                lemma_claim_find_push(s1, (entry0, receiver, block), k);
            }
            assert forall|a: int, b: int|
                0 <= a < b < self.claims@.len() implies self.claims@[a].0@
                != self.claims@[b].0@ by {
                if b < s1.len() {
                    assert(self.claims@[a] == s1[a]);
                    assert(self.claims@[b] == s1[b]);
                } else {
                    assert(self.claims@[a] == s1[a]);
                    assert(self.claims@[b].0@ == claim@);
                }
            }
        }
        self.events.push(PoeEvent::ClaimTransfer(receiver, claim));
        Ok(())
    }
}

} // verus!
