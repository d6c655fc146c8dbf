//! The account balance table.
//!
//! Balances live in a flat table of `(account, balance)` entries with at most
//! one entry per account. An account without an entry holds a zero balance,
//! which makes "missing key reads as zero" an explicit part of the read
//! contract rather than a hidden default. The table also carries the one
//! quantity the conservation invariant speaks of: the sum of every balance.

use vstd::prelude::*;

verus! {

/// The balance an account holds in table `s`: the value of the first entry
/// whose key matches, or zero when no entry matches.
pub open spec fn bal_lookup(s: Seq<(u64, u64)>, key: u64) -> u64
    decreases s.len(),
{
    if s.len() == 0 {
        0u64
    } else if s[0].0 == key {
        s[0].1
    } else {
        bal_lookup(s.drop_first(), key)
    }
}

/// The sum of every balance in the table, as a mathematical integer.
pub open spec fn bal_sum(s: Seq<(u64, u64)>) -> int
    decreases s.len(),
{
    if s.len() == 0 {
        0int
    } else {
        s[0].1 + bal_sum(s.drop_first())
    }
}

/// Each account has at most one entry.
pub open spec fn bal_distinct(s: Seq<(u64, u64)>) -> bool {
    forall|i: int, j: int| 0 <= i < j < s.len() ==> s[i].0 != s[j].0
}

pub proof fn lemma_bal_sum_nonneg(s: Seq<(u64, u64)>)
    ensures
        bal_sum(s) >= 0,
    decreases s.len(),
{
    if s.len() != 0 {
        lemma_bal_sum_nonneg(s.drop_first());
    }
}

/// A single balance never exceeds the sum of the whole table.
pub proof fn lemma_bal_lookup_le_sum(s: Seq<(u64, u64)>, key: u64)
    ensures
        bal_lookup(s, key) <= bal_sum(s),
    decreases s.len(),
{
    if s.len() == 0 {
    } else if s[0].0 == key {
        lemma_bal_sum_nonneg(s.drop_first());
    } else {
        lemma_bal_lookup_le_sum(s.drop_first(), key);
    }
}

/// Two different accounts' balances never exceed the table's sum together.
pub proof fn lemma_bal_two_lookups_le_sum(s: Seq<(u64, u64)>, k1: u64, k2: u64)
    requires
        k1 != k2,
    ensures
        bal_lookup(s, k1) + bal_lookup(s, k2) <= bal_sum(s),
    decreases s.len(),
{
    if s.len() == 0 {
    } else if s[0].0 == k1 {
        lemma_bal_lookup_le_sum(s.drop_first(), k2);
    } else if s[0].0 == k2 {
        lemma_bal_lookup_le_sum(s.drop_first(), k1);
    } else {
        lemma_bal_two_lookups_le_sum(s.drop_first(), k1, k2);
    }
}

pub proof fn lemma_bal_lookup_absent(s: Seq<(u64, u64)>, key: u64)
    requires
        forall|i: int| 0 <= i < s.len() ==> s[i].0 != key,
    ensures
        bal_lookup(s, key) == 0,
    decreases s.len(),
{
    if s.len() != 0 {
        lemma_bal_lookup_absent(s.drop_first(), key);
    }
}

/// When no earlier entry shares its key, entry `i` is the one a lookup finds.
pub proof fn lemma_bal_lookup_at(s: Seq<(u64, u64)>, i: int)
    requires
        0 <= i < s.len(),
        forall|j: int| 0 <= j < i ==> s[j].0 != s[i].0,
    ensures
        bal_lookup(s, s[i].0) == s[i].1,
    decreases i,
{
    if i > 0 {
        lemma_bal_lookup_at(s.drop_first(), i - 1);
    }
}

/// Overwriting entry `i` in place changes exactly that account's balance.
pub proof fn lemma_bal_lookup_update(s: Seq<(u64, u64)>, i: int, value: u64, key: u64)
    requires
        0 <= i < s.len(),
        bal_distinct(s),
    ensures
        bal_lookup(s.update(i, (s[i].0, value)), key) == if key == s[i].0 {
            value
        } else {
            bal_lookup(s, key)
        },
    decreases i,
{
    let t = s.update(i, (s[i].0, value));
    if i == 0 {
        assert(t.drop_first() =~= s.drop_first());
    } else {
        assert(t.drop_first() =~= s.drop_first().update(i - 1, (s[i].0, value)));
        assert(s.drop_first()[i - 1] == s[i]);
        assert(bal_distinct(s.drop_first()));
        lemma_bal_lookup_update(s.drop_first(), i - 1, value, key);
    }
}

/// Overwriting entry `i` moves the sum by the difference of the two values.
pub proof fn lemma_bal_sum_update(s: Seq<(u64, u64)>, i: int, entry: (u64, u64))
    ensures
        0 <= i < s.len() ==> bal_sum(s.update(i, entry)) == bal_sum(s) - s[i].1 + entry.1,
    decreases i,
{
    if 0 <= i < s.len() {
        let t = s.update(i, entry);
        if i == 0 {
            assert(t.drop_first() =~= s.drop_first());
        } else {
            assert(t.drop_first() =~= s.drop_first().update(i - 1, entry));
            lemma_bal_sum_update(s.drop_first(), i - 1, entry);
        }
    }
}

/// Appending an entry for a fresh key changes exactly that account's balance.
pub proof fn lemma_bal_lookup_push(s: Seq<(u64, u64)>, entry: (u64, u64), key: u64)
    requires
        forall|i: int| 0 <= i < s.len() ==> s[i].0 != entry.0,
    ensures
        bal_lookup(s.push(entry), key) == if key == entry.0 {
            entry.1
        } else {
            bal_lookup(s, key)
        },
    decreases s.len(),
{
    if s.len() == 0 {
        assert(s.push(entry)[0] == entry);
        assert(s.push(entry).drop_first() =~= s);
    } else {
        assert(s.push(entry)[0] == s[0]);
        assert(s.push(entry).drop_first() =~= s.drop_first().push(entry));
        lemma_bal_lookup_push(s.drop_first(), entry, key);
    }
}

pub proof fn lemma_bal_sum_push(s: Seq<(u64, u64)>, entry: (u64, u64))
    ensures
        bal_sum(s.push(entry)) == bal_sum(s) + entry.1,
    decreases s.len(),
{
    if s.len() == 0 {
        assert(s.push(entry).drop_first() =~= s);
    } else {
        assert(s.push(entry)[0] == s[0]);
        assert(s.push(entry).drop_first() =~= s.drop_first().push(entry));
        lemma_bal_sum_push(s.drop_first(), entry);
    }
}

/// Read an account's balance; an account with no entry reads as zero.
pub fn bal_get(table: &Vec<(u64, u64)>, key: u64) -> (r: u64)
    ensures
        r == bal_lookup(table@, key),
{
    let n: usize = table.len();
    proof {
        assert(table@.subrange(0, n as int) =~= table@);
    }
    let mut i: usize = 0;
    while i < n
        invariant
            n == table@.len(),
            i <= n,
            bal_lookup(table@, key) == bal_lookup(table@.subrange(i as int, n as int), key),
        decreases n - i,
    {
        if table[i].0 == key {
            proof {
                assert(table@.subrange(i as int, n as int)[0] == table@[i as int]);
            }
            return table[i].1;
        }
        proof {
            assert(table@.subrange(i as int, n as int).drop_first() =~= table@.subrange(
                i as int + 1,
                n as int,
            ));
        }
        i = i + 1;
    }
    0
}

/// Overwrite an account's balance, appending a fresh entry when none exists.
pub fn bal_set(table: &mut Vec<(u64, u64)>, key: u64, value: u64)
    requires
        bal_distinct(old(table)@),
    ensures
        bal_distinct(final(table)@),
        bal_lookup(final(table)@, key) == value,
        forall|q: u64| q != key ==> bal_lookup(final(table)@, q) == bal_lookup(old(table)@, q),
        bal_sum(final(table)@) == bal_sum(old(table)@) - bal_lookup(old(table)@, key) + value,
{
    let n: usize = table.len();
    let mut i: usize = 0;
    while i < n
        invariant
            n == table@.len(),
            i <= n,
            table@ == old(table)@,
            bal_distinct(table@),
            forall|j: int| 0 <= j < i ==> table@[j].0 != key,
        decreases n - i,
    {
        if table[i].0 == key {
            let ghost s0 = table@;
            table[i] = (key, value);
            proof {
                assert(table@ == s0.update(i as int, (key, value)));
                assert(s0[i as int].0 == key);
                lemma_bal_lookup_at(s0, i as int);
                lemma_bal_lookup_update(s0, i as int, value, key);
                assert forall|q: u64| q != key implies bal_lookup(table@, q) == bal_lookup(
                    s0,
                    q,
                ) by {
                    lemma_bal_lookup_update(s0, i as int, value, q);
                }
                lemma_bal_sum_update(s0, i as int, (key, value));
                assert forall|a: int, b: int|
                    0 <= a < b < table@.len() implies table@[a].0 != table@[b].0 by {
                    assert(table@[a].0 == s0[a].0);
                    assert(table@[b].0 == s0[b].0);
                }
            }
            return;
        }
        i = i + 1;
    }
    let ghost s0 = table@;
    proof {
        lemma_bal_lookup_absent(s0, key);
    }
    table.push((key, value));
    proof {
        assert(table@ == s0.push((key, value)));
        lemma_bal_lookup_push(s0, (key, value), key);
        assert forall|q: u64| q != key implies bal_lookup(table@, q) == bal_lookup(s0, q) by {
            lemma_bal_lookup_push(s0, (key, value), q);
        }
        lemma_bal_sum_push(s0, (key, value));
        assert forall|a: int, b: int|
            0 <= a < b < table@.len() implies table@[a].0 != table@[b].0 by {
            if b < s0.len() {
                assert(table@[a].0 == s0[a].0);
                assert(table@[b].0 == s0[b].0);
            } else {
                assert(table@[b] == (key, value));
                assert(table@[a].0 == s0[a].0);
            }
        }
    }
}

} // verus!
