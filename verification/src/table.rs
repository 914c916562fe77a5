//! Association tables backing the ledger's two persistent mappings.
//!
//! The balance table maps an account to its balance; the allowance table maps
//! an (owner, spender) pair to the spender's remaining allowance. Both follow
//! the same lookup discipline: a key that is not present is defined to hold
//! zero, entries are created implicitly on first write, and keys are kept
//! unique so that a write to one key is invisible at every other key.

use vstd::prelude::*;

use crate::address::Address;

verus! {

/// The balance recorded for `a`: the value of the first entry keyed by `a`,
/// or zero when no entry carries that key.
pub open spec fn bal_lookup(s: Seq<(Address, u128)>, a: Address) -> u128
    decreases s.len(),
{
    if s.len() == 0 {
        0u128
    } else if s[0].0 == a {
        s[0].1
    } else {
        bal_lookup(s.drop_first(), a)
    }
}

/// The sum of every balance entry, as an unbounded integer.
pub open spec fn bal_sum(s: Seq<(Address, u128)>) -> int
    decreases s.len(),
{
    if s.len() == 0 {
        0int
    } else {
        s[0].1 + bal_sum(s.drop_first())
    }
}

/// No two balance entries share a key.
pub open spec fn bal_keys_unique(s: Seq<(Address, u128)>) -> bool {
    forall|i: int, j: int| 0 <= i < j < s.len() ==> s[i].0 != s[j].0
}

/// A lookup resolves to the first entry that carries the key.
pub proof fn lemma_bal_lookup_first(s: Seq<(Address, u128)>, a: Address, i: int)
    requires
        0 <= i < s.len(),
        s[i].0 == a,
        forall|k: int| 0 <= k < i ==> s[k].0 != a,
    ensures
        bal_lookup(s, a) == s[i].1,
    decreases i,
{
    if i > 0 {
        assert forall|k: int| 0 <= k < i - 1 implies s.drop_first()[k].0 != a by {
            assert(s.drop_first()[k] == s[k + 1]);
        }
        assert(s.drop_first()[i - 1] == s[i]);
        lemma_bal_lookup_first(s.drop_first(), a, i - 1);
    }
}

/// A key that occurs in no entry is read as zero.
pub proof fn lemma_bal_lookup_absent(s: Seq<(Address, u128)>, a: Address)
    requires
        forall|k: int| 0 <= k < s.len() ==> s[k].0 != a,
    ensures
        bal_lookup(s, a) == 0,
    decreases s.len(),
{
    if s.len() > 0 {
        assert forall|k: int| 0 <= k < s.drop_first().len() implies s.drop_first()[k].0 != a by {
            assert(s.drop_first()[k] == s[k + 1]);
        }
        lemma_bal_lookup_absent(s.drop_first(), a);
    }
}

/// The sum of balances is never negative.
pub proof fn lemma_bal_sum_nonneg(s: Seq<(Address, u128)>)
    ensures
        bal_sum(s) >= 0,
    decreases s.len(),
{
    if s.len() > 0 {
        lemma_bal_sum_nonneg(s.drop_first());
    }
}

/// One account's balance never exceeds the sum of all balances.
pub proof fn lemma_bal_sum_one(s: Seq<(Address, u128)>, a: Address)
    ensures
        bal_sum(s) >= bal_lookup(s, a),
    decreases s.len(),
{
    if s.len() > 0 {
        if s[0].0 == a {
            lemma_bal_sum_nonneg(s.drop_first());
        } else {
            lemma_bal_sum_one(s.drop_first(), a);
        }
    }
}

/// Two distinct accounts' balances together never exceed the sum of all
/// balances.
pub proof fn lemma_bal_sum_two(s: Seq<(Address, u128)>, a: Address, b: Address)
    requires
        a != b,
    ensures
        bal_sum(s) >= bal_lookup(s, a) + bal_lookup(s, b),
    decreases s.len(),
{
    if s.len() > 0 {
        if s[0].0 == a {
            lemma_bal_sum_one(s.drop_first(), b);
        } else if s[0].0 == b {
            lemma_bal_sum_one(s.drop_first(), a);
        } else {
            lemma_bal_sum_two(s.drop_first(), a, b);
        }
    }
}

/// Overwriting the value of the first entry keyed by `s[i].0` changes that
/// key's lookup to the new value, leaves every other key's lookup alone, and
/// moves the sum by exactly the difference.
pub proof fn lemma_bal_update(s: Seq<(Address, u128)>, i: int, v: u128)
    requires
        0 <= i < s.len(),
        forall|k: int| 0 <= k < i ==> s[k].0 != s[i].0,
    ensures
        bal_lookup(s.update(i, (s[i].0, v)), s[i].0) == v,
        forall|x: Address|
            x != s[i].0 ==> bal_lookup(s.update(i, (s[i].0, v)), x) == bal_lookup(s, x),
        bal_sum(s.update(i, (s[i].0, v))) == bal_sum(s) - s[i].1 + v,
    decreases i,
{
    let t = s.update(i, (s[i].0, v));
    if i == 0 {
        assert(t.drop_first() =~= s.drop_first());
        assert forall|x: Address| x != s[0].0 implies bal_lookup(t, x) == bal_lookup(s, x) by {
            assert(bal_lookup(t, x) == bal_lookup(t.drop_first(), x));
        }
    } else {
        lemma_bal_update(s.drop_first(), i - 1, v);
        assert(s.drop_first()[i - 1] == s[i]);
        assert(t.drop_first() =~= s.drop_first().update(i - 1, (s[i].0, v)));
        assert(bal_lookup(t, s[i].0) == bal_lookup(t.drop_first(), s[i].0));
        assert forall|x: Address| x != s[i].0 implies bal_lookup(t, x) == bal_lookup(s, x) by {
            if x != s[0].0 {
                assert(bal_lookup(t, x) == bal_lookup(t.drop_first(), x));
                assert(bal_lookup(s, x) == bal_lookup(s.drop_first(), x));
            }
        }
    }
}

/// Appending an entry under a fresh key sets that key's lookup to the new
/// value, leaves every other key's lookup alone, and adds the value to the
/// sum.
pub proof fn lemma_bal_push(s: Seq<(Address, u128)>, a: Address, v: u128)
    requires
        forall|k: int| 0 <= k < s.len() ==> s[k].0 != a,
    ensures
        bal_lookup(s.push((a, v)), a) == v,
        forall|x: Address| x != a ==> bal_lookup(s.push((a, v)), x) == bal_lookup(s, x),
        bal_sum(s.push((a, v))) == bal_sum(s) + v,
    decreases s.len(),
{
    let t = s.push((a, v));
    assert(t.len() == s.len() + 1);
    assert(bal_sum(t) == t[0].1 + bal_sum(t.drop_first()));
    if s.len() == 0 {
        assert(t.drop_first() =~= Seq::<(Address, u128)>::empty());
        assert(bal_sum(t.drop_first()) == 0);
        assert forall|x: Address| x != a implies bal_lookup(t, x) == bal_lookup(s, x) by {
            assert(bal_lookup(t, x) == bal_lookup(t.drop_first(), x));
        }
    } else {
        assert forall|k: int| 0 <= k < s.drop_first().len() implies s.drop_first()[k].0 != a by {
            assert(s.drop_first()[k] == s[k + 1]);
        }
        lemma_bal_push(s.drop_first(), a, v);
        assert(t.drop_first() =~= s.drop_first().push((a, v)));
        assert(t[0] == s[0]);
        assert(bal_sum(s) == s[0].1 + bal_sum(s.drop_first()));
        assert(bal_lookup(t, a) == bal_lookup(t.drop_first(), a));
        assert forall|x: Address| x != a implies bal_lookup(t, x) == bal_lookup(s, x) by {
            if x != s[0].0 {
                assert(bal_lookup(t, x) == bal_lookup(t.drop_first(), x));
                assert(bal_lookup(s, x) == bal_lookup(s.drop_first(), x));
            }
        }
    }
}

/// Reads the balance recorded for `a`; zero when `a` has no entry.
pub fn bal_get(v: &Vec<(Address, u128)>, a: Address) -> (r: u128)
    ensures
        r == bal_lookup(v@, a),
{
    let n: usize = v.len();
    let mut i: usize = 0;
    while i < n
        invariant
            n == v@.len(),
            i <= n,
            forall|k: int| 0 <= k < i ==> v@[k].0 != a,
        decreases n - i,
    {
        let e = v[i];
        if e.0 == a {
            proof {
                lemma_bal_lookup_first(v@, a, i as int);
            }
            return e.1;
        }
        i = i + 1;
    }
    proof {
        lemma_bal_lookup_absent(v@, a);
    }
    0
}

/// Records `value` as the balance of `a`, overwriting the entry for `a` or
/// creating it. Every other account's balance is untouched, and the sum of
/// balances moves by exactly the difference between the new value and the
/// old.
pub fn bal_set(v: &mut Vec<(Address, u128)>, a: Address, value: u128)
    requires
        bal_keys_unique(old(v)@),
    ensures
        bal_keys_unique(final(v)@),
        bal_lookup(final(v)@, a) == value,
        forall|x: Address| x != a ==> bal_lookup(final(v)@, x) == bal_lookup(old(v)@, x),
        bal_sum(final(v)@) == bal_sum(old(v)@) - bal_lookup(old(v)@, a) + value,
{
    let n: usize = v.len();
    let mut i: usize = 0;
    while i < n
        invariant
            v@ == old(v)@,
            n == v@.len(),
            i <= n,
            bal_keys_unique(v@),
            forall|k: int| 0 <= k < i ==> v@[k].0 != a,
        decreases n - i,
    {
        let e = v[i];
        if e.0 == a {
            proof {
                lemma_bal_lookup_first(old(v)@, a, i as int);
                lemma_bal_update(old(v)@, i as int, value);
            }
            v[i] = (a, value);
            proof {
                assert(v@ =~= old(v)@.update(i as int, (old(v)@[i as int].0, value)));
                assert forall|p: int, q: int| 0 <= p < q < v@.len() implies v@[p].0 != v@[q].0 by {
                    assert(v@[p].0 == old(v)@[p].0);
                    assert(v@[q].0 == old(v)@[q].0);
                }
            }
            return;
        }
        i = i + 1;
    }
    proof {
        lemma_bal_lookup_absent(v@, a);
        lemma_bal_push(v@, a, value);
    }
    v.push((a, value));
    proof {
        assert forall|p: int, q: int| 0 <= p < q < v@.len() implies v@[p].0 != v@[q].0 by {
            if q < v@.len() - 1 {
                assert(v@[p].0 == old(v)@[p].0);
                assert(v@[q].0 == old(v)@[q].0);
            } else {
                assert(v@[p].0 == old(v)@[p].0);
                assert(v@[q].0 == a);
            }
        }
    }
}

/// The allowance recorded for the pair `(o, p)`: the value of the first entry
/// keyed by that pair, or zero when no entry carries it.
pub open spec fn allow_lookup(s: Seq<(Address, Address, u128)>, o: Address, p: Address) -> u128
    decreases s.len(),
{
    if s.len() == 0 {
        0u128
    } else if s[0].0 == o && s[0].1 == p {
        s[0].2
    } else {
        allow_lookup(s.drop_first(), o, p)
    }
}

/// No two allowance entries share an (owner, spender) pair.
pub open spec fn allow_keys_unique(s: Seq<(Address, Address, u128)>) -> bool {
    forall|i: int, j: int|
        0 <= i < j < s.len() ==> !(s[i].0 == s[j].0 && s[i].1 == s[j].1)
}

/// A lookup resolves to the first entry that carries the pair.
pub proof fn lemma_allow_lookup_first(s: Seq<(Address, Address, u128)>, o: Address, p: Address, i: int)
    requires
        0 <= i < s.len(),
        s[i].0 == o && s[i].1 == p,
        forall|k: int| 0 <= k < i ==> !(s[k].0 == o && s[k].1 == p),
    ensures
        allow_lookup(s, o, p) == s[i].2,
    decreases i,
{
    if i > 0 {
        assert forall|k: int|
            0 <= k < i - 1 implies !(s.drop_first()[k].0 == o && s.drop_first()[k].1 == p) by {
            assert(s.drop_first()[k] == s[k + 1]);
        }
        assert(s.drop_first()[i - 1] == s[i]);
        lemma_allow_lookup_first(s.drop_first(), o, p, i - 1);
    }
}

/// A pair that occurs in no entry is read as zero.
pub proof fn lemma_allow_lookup_absent(s: Seq<(Address, Address, u128)>, o: Address, p: Address)
    requires
        forall|k: int| 0 <= k < s.len() ==> !(s[k].0 == o && s[k].1 == p),
    ensures
        allow_lookup(s, o, p) == 0,
    decreases s.len(),
{
    if s.len() > 0 {
        assert forall|k: int|
            0 <= k < s.drop_first().len() implies !(s.drop_first()[k].0 == o
            && s.drop_first()[k].1 == p) by {
            assert(s.drop_first()[k] == s[k + 1]);
        }
        lemma_allow_lookup_absent(s.drop_first(), o, p);
    }
}

/// Overwriting the value of the first entry keyed by a pair changes that
/// pair's lookup to the new value and leaves every other pair's lookup alone.
pub proof fn lemma_allow_update(s: Seq<(Address, Address, u128)>, i: int, v: u128)
    requires
        0 <= i < s.len(),
        forall|k: int| 0 <= k < i ==> !(s[k].0 == s[i].0 && s[k].1 == s[i].1),
    ensures
        allow_lookup(s.update(i, (s[i].0, s[i].1, v)), s[i].0, s[i].1) == v,
        forall|x: Address, y: Address|
            !(x == s[i].0 && y == s[i].1) ==> allow_lookup(
                s.update(i, (s[i].0, s[i].1, v)),
                x,
                y,
            ) == allow_lookup(s, x, y),
    decreases i,
{
    let t = s.update(i, (s[i].0, s[i].1, v));
    if i == 0 {
        assert(t.drop_first() =~= s.drop_first());
        assert forall|x: Address, y: Address|
            !(x == s[0].0 && y == s[0].1) implies allow_lookup(t, x, y) == allow_lookup(
            s,
            x,
            y,
        ) by {
            assert(allow_lookup(t, x, y) == allow_lookup(t.drop_first(), x, y));
        }
    } else {
        lemma_allow_update(s.drop_first(), i - 1, v);
        assert(s.drop_first()[i - 1] == s[i]);
        assert(t.drop_first() =~= s.drop_first().update(i - 1, (s[i].0, s[i].1, v)));
        assert(allow_lookup(t, s[i].0, s[i].1) == allow_lookup(t.drop_first(), s[i].0, s[i].1));
        assert forall|x: Address, y: Address|
            !(x == s[i].0 && y == s[i].1) implies allow_lookup(t, x, y) == allow_lookup(
            s,
            x,
            y,
        ) by {
            if !(x == s[0].0 && y == s[0].1) {
                assert(allow_lookup(t, x, y) == allow_lookup(t.drop_first(), x, y));
                assert(allow_lookup(s, x, y) == allow_lookup(s.drop_first(), x, y));
            }
        }
    }
}

/// Appending an entry under a fresh pair sets that pair's lookup to the new
/// value and leaves every other pair's lookup alone.
pub proof fn lemma_allow_push(s: Seq<(Address, Address, u128)>, o: Address, p: Address, v: u128)
    requires
        forall|k: int| 0 <= k < s.len() ==> !(s[k].0 == o && s[k].1 == p),
    ensures
        allow_lookup(s.push((o, p, v)), o, p) == v,
        forall|x: Address, y: Address|
            !(x == o && y == p) ==> allow_lookup(s.push((o, p, v)), x, y) == allow_lookup(s, x, y),
    decreases s.len(),
{
    let t = s.push((o, p, v));
    if s.len() == 0 {
        assert(t.drop_first() =~= Seq::<(Address, Address, u128)>::empty());
        assert forall|x: Address, y: Address|
            !(x == o && y == p) implies allow_lookup(t, x, y) == allow_lookup(s, x, y) by {
            assert(allow_lookup(t, x, y) == allow_lookup(t.drop_first(), x, y));
        }
    } else {
        assert forall|k: int|
            0 <= k < s.drop_first().len() implies !(s.drop_first()[k].0 == o
            && s.drop_first()[k].1 == p) by {
            assert(s.drop_first()[k] == s[k + 1]);
        }
        lemma_allow_push(s.drop_first(), o, p, v);
        assert(t.drop_first() =~= s.drop_first().push((o, p, v)));
        assert(t[0] == s[0]);
        assert(allow_lookup(t, o, p) == allow_lookup(t.drop_first(), o, p));
        assert forall|x: Address, y: Address|
            !(x == o && y == p) implies allow_lookup(t, x, y) == allow_lookup(s, x, y) by {
            if !(x == s[0].0 && y == s[0].1) {
                assert(allow_lookup(t, x, y) == allow_lookup(t.drop_first(), x, y));
                assert(allow_lookup(s, x, y) == allow_lookup(s.drop_first(), x, y));
            }
        }
    }
}

/// Reads the allowance recorded for `(o, p)`; zero when the pair has no
/// entry.
pub fn allow_get(v: &Vec<(Address, Address, u128)>, o: Address, p: Address) -> (r: u128)
    ensures
        r == allow_lookup(v@, o, p),
{
    let n: usize = v.len();
    let mut i: usize = 0;
    while i < n
        invariant
            n == v@.len(),
            i <= n,
            forall|k: int| 0 <= k < i ==> !(v@[k].0 == o && v@[k].1 == p),
        decreases n - i,
    {
        let e = v[i];
        if e.0 == o && e.1 == p {
            proof {
                lemma_allow_lookup_first(v@, o, p, i as int);
            }
            return e.2;
        }
        i = i + 1;
    }
    proof {
        lemma_allow_lookup_absent(v@, o, p);
    }
    0
}

/// Records `value` as the allowance for `(o, p)`, overwriting the entry for
/// that pair or creating it. Every other pair's allowance is untouched.
pub fn allow_set(v: &mut Vec<(Address, Address, u128)>, o: Address, p: Address, value: u128)
    requires
        allow_keys_unique(old(v)@),
    ensures
        allow_keys_unique(final(v)@),
        allow_lookup(final(v)@, o, p) == value,
        forall|x: Address, y: Address|
            !(x == o && y == p) ==> allow_lookup(final(v)@, x, y) == allow_lookup(old(v)@, x, y),
{
    let n: usize = v.len();
    let mut i: usize = 0;
    while i < n
        invariant
            v@ == old(v)@,
            n == v@.len(),
            i <= n,
            allow_keys_unique(v@),
            forall|k: int| 0 <= k < i ==> !(v@[k].0 == o && v@[k].1 == p),
        decreases n - i,
    {
        let e = v[i];
        if e.0 == o && e.1 == p {
            proof {
                lemma_allow_update(old(v)@, i as int, value);
            }
            v[i] = (o, p, value);
            proof {
                assert(v@ =~= old(v)@.update(
                    i as int,
                    (old(v)@[i as int].0, old(v)@[i as int].1, value),
                ));
                assert forall|q: int, r: int|
                    0 <= q < r < v@.len() implies !(v@[q].0 == v@[r].0 && v@[q].1 == v@[r].1) by {
                    assert(v@[q].0 == old(v)@[q].0 && v@[q].1 == old(v)@[q].1);
                    assert(v@[r].0 == old(v)@[r].0 && v@[r].1 == old(v)@[r].1);
                }
            }
            return;
        }
        i = i + 1;
    }
    proof {
        lemma_allow_push(v@, o, p, value);
    }
    v.push((o, p, value));
    proof {
        assert forall|q: int, r: int|
            0 <= q < r < v@.len() implies !(v@[q].0 == v@[r].0 && v@[q].1 == v@[r].1) by {
            if r < v@.len() - 1 {
                assert(v@[q].0 == old(v)@[q].0 && v@[q].1 == old(v)@[q].1);
                assert(v@[r].0 == old(v)@[r].0 && v@[r].1 == old(v)@[r].1);
            } else {
                assert(v@[q].0 == old(v)@[q].0 && v@[q].1 == old(v)@[q].1);
                assert(v@[r].0 == o && v@[r].1 == p);
            }
        }
    }
}

} // verus!
