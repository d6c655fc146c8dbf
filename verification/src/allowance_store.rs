//! The allowance table.
//!
//! An allowance is the amount a spender may still move out of an owner's
//! balance by delegated transfer. The table holds one
//! `(owner, spender, amount)` entry per ordered pair; a pair without an entry
//! reads as zero, the same explicit default-zero contract as the balance
//! table.

use vstd::prelude::*;

verus! {

/// The allowance pair `(owner, spender)` holds in table `s`: the value of the
/// first entry whose pair matches, or zero when no entry matches.
pub open spec fn alw_lookup(s: Seq<(u64, u64, u64)>, owner: u64, spender: u64) -> u64
    decreases s.len(),
{
    if s.len() == 0 {
        0u64
    } else if s[0].0 == owner && s[0].1 == spender {
        s[0].2
    } else {
        alw_lookup(s.drop_first(), owner, spender)
    }
}

/// Each ordered pair has at most one entry.
pub open spec fn alw_distinct(s: Seq<(u64, u64, u64)>) -> bool {
    forall|i: int, j: int|
        0 <= i < j < s.len() ==> !(s[i].0 == s[j].0 && s[i].1 == s[j].1)
}

pub proof fn lemma_alw_lookup_absent(s: Seq<(u64, u64, u64)>, owner: u64, spender: u64)
    requires
        forall|i: int| 0 <= i < s.len() ==> !(s[i].0 == owner && s[i].1 == spender),
    ensures
        alw_lookup(s, owner, spender) == 0,
    decreases s.len(),
{
    if s.len() != 0 {
        lemma_alw_lookup_absent(s.drop_first(), owner, spender);
    }
}

/// When no earlier entry shares its pair, entry `i` is the one a lookup finds.
pub proof fn lemma_alw_lookup_at(s: Seq<(u64, u64, u64)>, i: int)
    requires
        0 <= i < s.len(),
        forall|j: int| 0 <= j < i ==> !(s[j].0 == s[i].0 && s[j].1 == s[i].1),
    ensures
        alw_lookup(s, s[i].0, s[i].1) == s[i].2,
    decreases i,
{
    if i > 0 {
        lemma_alw_lookup_at(s.drop_first(), i - 1);
    }
}

/// Overwriting entry `i` in place changes exactly that pair's allowance.
pub proof fn lemma_alw_lookup_update(
    s: Seq<(u64, u64, u64)>,
    i: int,
    value: u64,
    owner: u64,
    spender: u64,
)
    requires
        0 <= i < s.len(),
        alw_distinct(s),
    ensures
        alw_lookup(s.update(i, (s[i].0, s[i].1, value)), owner, spender) == if owner == s[i].0
            && spender == s[i].1 {
            value
        } else {
            alw_lookup(s, owner, spender)
        },
    decreases i,
{
    let t = s.update(i, (s[i].0, s[i].1, value));
    if i == 0 {
        assert(t.drop_first() =~= s.drop_first());
    } else {
        assert(t.drop_first() =~= s.drop_first().update(i - 1, (s[i].0, s[i].1, value)));
        assert(s.drop_first()[i - 1] == s[i]);
        assert(alw_distinct(s.drop_first()));
        lemma_alw_lookup_update(s.drop_first(), i - 1, value, owner, spender);
    }
}

/// Appending an entry for a fresh pair changes exactly that pair's allowance.
pub proof fn lemma_alw_lookup_push(
    s: Seq<(u64, u64, u64)>,
    entry: (u64, u64, u64),
    owner: u64,
    spender: u64,
)
    requires
        forall|i: int| 0 <= i < s.len() ==> !(s[i].0 == entry.0 && s[i].1 == entry.1),
    ensures
        alw_lookup(s.push(entry), owner, spender) == if owner == entry.0 && spender == entry.1 {
            entry.2
        } else {
            alw_lookup(s, owner, spender)
        },
    decreases s.len(),
{
    if s.len() == 0 {
        assert(s.push(entry)[0] == entry);
        assert(s.push(entry).drop_first() =~= s);
    } else {
        assert(s.push(entry)[0] == s[0]);
        assert(s.push(entry).drop_first() =~= s.drop_first().push(entry));
        lemma_alw_lookup_push(s.drop_first(), entry, owner, spender);
    }
}

/// Read a pair's allowance; a pair with no entry reads as zero.
pub fn alw_get(table: &Vec<(u64, u64, u64)>, owner: u64, spender: u64) -> (r: u64)
    ensures
        r == alw_lookup(table@, owner, spender),
{
    let n: usize = table.len();
    proof {
        assert(table@.subrange(0, n as int) =~= table@);
    }
    let mut i: usize = 0;
    while i < n
        invariant
            n == table@.len(),
            i <= n,
            alw_lookup(table@, owner, spender) == alw_lookup(
                table@.subrange(i as int, n as int),
                owner,
                spender,
            ),
        decreases n - i,
    {
        if table[i].0 == owner && table[i].1 == spender {
            proof {
                assert(table@.subrange(i as int, n as int)[0] == table@[i as int]);
            }
            return table[i].2;
        }
        proof {
            assert(table@.subrange(i as int, n as int).drop_first() =~= table@.subrange(
                i as int + 1,
                n as int,
            ));
        }
        i = i + 1;
    }
    0
}

/// Overwrite a pair's allowance, appending a fresh entry when none exists.
pub fn alw_set(table: &mut Vec<(u64, u64, u64)>, owner: u64, spender: u64, value: u64)
    requires
        alw_distinct(old(table)@),
    ensures
        alw_distinct(final(table)@),
        alw_lookup(final(table)@, owner, spender) == value,
        forall|o: u64, p: u64|
            !(o == owner && p == spender) ==> alw_lookup(final(table)@, o, p) == alw_lookup(
                old(table)@,
                o,
                p,
            ),
{
    let n: usize = table.len();
    let mut i: usize = 0;
    while i < n
        invariant
            n == table@.len(),
            i <= n,
            table@ == old(table)@,
            alw_distinct(table@),
            forall|j: int| 0 <= j < i ==> !(table@[j].0 == owner && table@[j].1 == spender),
        decreases n - i,
    {
        if table[i].0 == owner && table[i].1 == spender {
            let ghost s0 = table@;
            table[i] = (owner, spender, value);
            proof {
                assert(table@ == s0.update(i as int, (owner, spender, value)));
                assert(s0[i as int].0 == owner && s0[i as int].1 == spender);
                lemma_alw_lookup_update(s0, i as int, value, owner, spender);
                assert forall|o: u64, p: u64|
                    !(o == owner && p == spender) implies alw_lookup(table@, o, p) == alw_lookup(
                    s0,
                    o,
                    p,
                ) by {
                    lemma_alw_lookup_update(s0, i as int, value, o, p);
                }
                assert forall|a: int, b: int|
                    0 <= a < b < table@.len() implies !(table@[a].0 == table@[b].0 && table@[a].1
                    == table@[b].1) by {
                    assert(table@[a].0 == s0[a].0 && table@[a].1 == s0[a].1);
                    assert(table@[b].0 == s0[b].0 && table@[b].1 == s0[b].1);
                }
            }
            return;
        }
        i = i + 1;
    }
    let ghost s0 = table@;
    proof {
        lemma_alw_lookup_absent(s0, owner, spender);
    }
    table.push((owner, spender, value));
    proof {
        assert(table@ == s0.push((owner, spender, value)));
        lemma_alw_lookup_push(s0, (owner, spender, value), owner, spender);
        assert forall|o: u64, p: u64|
            !(o == owner && p == spender) implies alw_lookup(table@, o, p) == alw_lookup(
            s0,
            o,
            p,
        ) by {
            lemma_alw_lookup_push(s0, (owner, spender, value), o, p);
        }
        assert forall|a: int, b: int|
            0 <= a < b < table@.len() implies !(table@[a].0 == table@[b].0 && table@[a].1
            == table@[b].1) by {
            if b < s0.len() {
                assert(table@[a] == s0[a]);
                assert(table@[b] == s0[b]);
            } else {
                assert(table@[b] == (owner, spender, value));
                assert(table@[a] == s0[a]);
            }
        }
    }
}

} // verus!
