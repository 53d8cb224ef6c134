use vstd::prelude::*;

use crate::events::{AccountId, Balance};

verus! {

/// True when no account appears twice as a key.
pub open spec fn distinct_keys<V>(s: Seq<(AccountId, V)>) -> bool {
    forall|i: int, j: int|
        0 <= i < j < s.len() ==> (#[trigger] s[i]).0 != (#[trigger] s[j]).0
}

pub proof fn lemma_distinct_drop_last<V>(s: Seq<(AccountId, V)>)
    requires
        distinct_keys(s),
        s.len() > 0,
    ensures
        distinct_keys(s.drop_last()),
{
    assert forall|i: int, j: int|
        0 <= i < j < s.drop_last().len() implies (#[trigger] s.drop_last()[i]).0
        != (#[trigger] s.drop_last()[j]).0 by {
        assert(s.drop_last()[i] == s[i]);
        assert(s.drop_last()[j] == s[j]);
    }
}

/// The balance recorded for `a`: the value of its entry, or zero when it has
/// none.
pub open spec fn bal_in(s: Seq<(AccountId, u32)>, a: AccountId) -> u32
    decreases s.len(),
{
    if s.len() == 0 {
        0
    } else if s.last().0 == a {
        s.last().1
    } else {
        bal_in(s.drop_last(), a)
    }
}

/// The sum of every recorded balance.
pub open spec fn sum_of(s: Seq<(AccountId, u32)>) -> int
    decreases s.len(),
{
    if s.len() == 0 {
        0
    } else {
        sum_of(s.drop_last()) + s.last().1
    }
}

pub proof fn lemma_bal_found(s: Seq<(AccountId, u32)>, a: AccountId, k: int)
    requires
        distinct_keys(s),
        0 <= k < s.len(),
        s[k].0 == a,
    ensures
        bal_in(s, a) == s[k].1,
    decreases s.len(),
{
    if k < s.len() - 1 {
        assert(s.last().0 != a);
        lemma_distinct_drop_last(s);
        assert(s.drop_last()[k] == s[k]);
        lemma_bal_found(s.drop_last(), a, k);
    }
}

pub proof fn lemma_bal_absent(s: Seq<(AccountId, u32)>, a: AccountId)
    requires
        forall|k: int| 0 <= k < s.len() ==> (#[trigger] s[k]).0 != a,
    ensures
        bal_in(s, a) == 0,
    decreases s.len(),
{
    if s.len() > 0 {
        assert forall|k: int| 0 <= k < s.drop_last().len() implies (#[trigger] s.drop_last()[k]).0
            != a by {
            assert(s.drop_last()[k] == s[k]);
        }
        lemma_bal_absent(s.drop_last(), a);
    }
}

pub proof fn lemma_bal_update(s: Seq<(AccountId, u32)>, k: int, a: AccountId, v: u32)
    requires
        distinct_keys(s),
        0 <= k < s.len(),
        s[k].0 == a,
    ensures
        distinct_keys(s.update(k, (a, v))),
        bal_in(s.update(k, (a, v)), a) == v,
        forall|b: AccountId| b != a ==> bal_in(s.update(k, (a, v)), b) == bal_in(s, b),
        sum_of(s.update(k, (a, v))) == sum_of(s) - s[k].1 + v,
    decreases s.len(),
{
    let t = s.update(k, (a, v));
    assert forall|i: int, j: int| 0 <= i < j < t.len() implies (#[trigger] t[i]).0
        != (#[trigger] t[j]).0 by {
        assert(t[i].0 == s[i].0);
        assert(t[j].0 == s[j].0);
    }
    if k == s.len() - 1 {
        assert(t.drop_last() =~= s.drop_last());
        assert(s.last().0 == a);
        assert forall|b: AccountId| b != a implies bal_in(t, b) == bal_in(s, b) by {
            assert(bal_in(t, b) == bal_in(t.drop_last(), b));
            assert(bal_in(s, b) == bal_in(s.drop_last(), b));
        }
    } else {
        assert(t.drop_last() =~= s.drop_last().update(k, (a, v)));
        lemma_distinct_drop_last(s);
        assert(s.drop_last()[k] == s[k]);
        lemma_bal_update(s.drop_last(), k, a, v);
        assert(s.last().0 != a);
        assert(t.last() == s.last());
        assert forall|b: AccountId| b != a implies bal_in(t, b) == bal_in(s, b) by {
            if s.last().0 == b {
                assert(bal_in(t, b) == t.last().1);
                assert(bal_in(s, b) == s.last().1);
            } else {
                assert(bal_in(t, b) == bal_in(t.drop_last(), b));
                assert(bal_in(s, b) == bal_in(s.drop_last(), b));
                assert(bal_in(s.drop_last().update(k, (a, v)), b) == bal_in(s.drop_last(), b));
            }
        }
    }
}

/// Per-account asset counts, held as an association list with distinct keys.
/// An account with no entry holds zero.
pub struct BalanceTable {
    pub entries: Vec<(AccountId, u32)>,
}

impl BalanceTable {
    pub open spec fn wf(self) -> bool {
        distinct_keys(self.entries@)
    }

    /// The balance recorded for `a`.
    pub open spec fn bal(self, a: AccountId) -> u32 {
        bal_in(self.entries@, a)
    }

    pub fn new() -> (t: BalanceTable)
        ensures
            t.wf(),
            forall|a: AccountId| #[trigger] t.bal(a) == 0,
            t.entries@.len() == 0,
    {
        BalanceTable { entries: Vec::new() }
    }

    pub fn get(&self, a: AccountId) -> (r: u32)
        requires
            self.wf(),
        ensures
            r == self.bal(a),
    {
        let n = self.entries.len();
        let mut i: usize = 0;
        while i < n
            invariant
                n == self.entries@.len(),
                i <= n,
                self.wf(),
                forall|j: int| 0 <= j < i ==> (#[trigger] self.entries@[j]).0 != a,
            decreases n - i,
        {
            if self.entries[i].0 == a {
                proof {
                    lemma_bal_found(self.entries@, a, i as int);
                }
                return self.entries[i].1;
            }
            i = i + 1;
        }
        proof {
            lemma_bal_absent(self.entries@, a);
        }
        0
    }

    pub fn set(&mut self, a: AccountId, v: u32)
        requires
            old(self).wf(),
        ensures
            final(self).wf(),
            final(self).bal(a) == v,
            forall|b: AccountId| b != a ==> final(self).bal(b) == old(self).bal(b),
            sum_of(final(self).entries@) == sum_of(old(self).entries@) - old(self).bal(a) + v,
    {
        let n = self.entries.len();
        let mut i: usize = 0;
        while i < n
            invariant
                n == self.entries@.len(),
                i <= n,
                self.wf(),
                *self == *old(self),
                forall|j: int| 0 <= j < i ==> (#[trigger] self.entries@[j]).0 != a,
            decreases n - i,
        {
            if self.entries[i].0 == a {
                proof {
                    lemma_bal_found(self.entries@, a, i as int);
                    lemma_bal_update(self.entries@, i as int, a, v);
                }
                self.entries[i] = (a, v);
                return;
            }
            i = i + 1;
        }
        proof {
            lemma_bal_absent(self.entries@, a);
        }
        self.entries.push((a, v));
        proof {
            let s0 = old(self).entries@;
            let t = self.entries@;
            assert(t.drop_last() =~= s0);
            assert(t.last() == (a, v));
            assert forall|i: int, j: int| 0 <= i < j < t.len() implies (#[trigger] t[i]).0
                != (#[trigger] t[j]).0 by {
                if j < s0.len() {
                    assert(t[i] == s0[i]);
                    assert(t[j] == s0[j]);
                } else {
                    assert(t[i] == s0[i]);
                    assert(t[j] == (a, v));
                }
            }
        }
    }
}

/// The escrow amount recorded for `a`, or `None` when `a` has never been
/// credited. An entry that was withdrawn stays present with value zero.
pub open spec fn pend_in(s: Seq<(AccountId, Balance)>, a: AccountId) -> Option<Balance>
    decreases s.len(),
{
    if s.len() == 0 {
        None
    } else if s.last().0 == a {
        Some(s.last().1)
    } else {
        pend_in(s.drop_last(), a)
    }
}

pub proof fn lemma_pend_found(s: Seq<(AccountId, Balance)>, a: AccountId, k: int)
    requires
        distinct_keys(s),
        0 <= k < s.len(),
        s[k].0 == a,
    ensures
        pend_in(s, a) == Some(s[k].1),
    decreases s.len(),
{
    if k < s.len() - 1 {
        assert(s.last().0 != a);
        lemma_distinct_drop_last(s);
        assert(s.drop_last()[k] == s[k]);
        lemma_pend_found(s.drop_last(), a, k);
    }
}

pub proof fn lemma_pend_absent(s: Seq<(AccountId, Balance)>, a: AccountId)
    requires
        forall|k: int| 0 <= k < s.len() ==> (#[trigger] s[k]).0 != a,
    ensures
        pend_in(s, a) is None,
    decreases s.len(),
{
    if s.len() > 0 {
        assert forall|k: int| 0 <= k < s.drop_last().len() implies (#[trigger] s.drop_last()[k]).0
            != a by {
            assert(s.drop_last()[k] == s[k]);
        }
        lemma_pend_absent(s.drop_last(), a);
    }
}

pub proof fn lemma_pend_update(s: Seq<(AccountId, Balance)>, k: int, a: AccountId, v: Balance)
    requires
        distinct_keys(s),
        0 <= k < s.len(),
        s[k].0 == a,
    ensures
        distinct_keys(s.update(k, (a, v))),
        pend_in(s.update(k, (a, v)), a) == Some(v),
        forall|b: AccountId| b != a ==> pend_in(s.update(k, (a, v)), b) == pend_in(s, b),
    decreases s.len(),
{
    let t = s.update(k, (a, v));
    assert forall|i: int, j: int| 0 <= i < j < t.len() implies (#[trigger] t[i]).0
        != (#[trigger] t[j]).0 by {
        assert(t[i].0 == s[i].0);
        assert(t[j].0 == s[j].0);
    }
    if k == s.len() - 1 {
        assert(t.drop_last() =~= s.drop_last());
        assert(s.last().0 == a);
        assert forall|b: AccountId| b != a implies pend_in(t, b) == pend_in(s, b) by {
            assert(pend_in(t, b) == pend_in(t.drop_last(), b));
            assert(pend_in(s, b) == pend_in(s.drop_last(), b));
        }
    } else {
        assert(t.drop_last() =~= s.drop_last().update(k, (a, v)));
        lemma_distinct_drop_last(s);
        assert(s.drop_last()[k] == s[k]);
        lemma_pend_update(s.drop_last(), k, a, v);
        assert(s.last().0 != a);
        assert(t.last() == s.last());
        assert forall|b: AccountId| b != a implies pend_in(t, b) == pend_in(s, b) by {
            if s.last().0 == b {
                assert(pend_in(t, b) == Some(t.last().1));
                assert(pend_in(s, b) == Some(s.last().1));
            } else {
                assert(pend_in(t, b) == pend_in(t.drop_last(), b));
                assert(pend_in(s, b) == pend_in(s.drop_last(), b));
                assert(pend_in(s.drop_last().update(k, (a, v)), b) == pend_in(s.drop_last(), b));
            }
        }
    }
}

/// Per-account escrowed proceeds, held as an association list with distinct
/// keys. Absence of an entry is distinct from a zero entry.
pub struct PendingTable {
    pub entries: Vec<(AccountId, Balance)>,
}

impl PendingTable {
    pub open spec fn wf(self) -> bool {
        distinct_keys(self.entries@)
    }

    /// The escrow entry recorded for `a`, if any.
    pub open spec fn pend(self, a: AccountId) -> Option<Balance> {
        pend_in(self.entries@, a)
    }

    pub fn new() -> (t: PendingTable)
        ensures
            t.wf(),
            forall|a: AccountId| #[trigger] t.pend(a) is None,
            t.entries@.len() == 0,
    {
        PendingTable { entries: Vec::new() }
    }

    pub fn get(&self, a: AccountId) -> (r: Option<Balance>)
        requires
            self.wf(),
        ensures
            r == self.pend(a),
    {
        let n = self.entries.len();
        let mut i: usize = 0;
        while i < n
            invariant
                n == self.entries@.len(),
                i <= n,
                self.wf(),
                forall|j: int| 0 <= j < i ==> (#[trigger] self.entries@[j]).0 != a,
            decreases n - i,
        {
            if self.entries[i].0 == a {
                proof {
                    lemma_pend_found(self.entries@, a, i as int);
                }
                return Some(self.entries[i].1);
            }
            i = i + 1;
        }
        proof {
            lemma_pend_absent(self.entries@, a);
        }
        None
    }

    pub fn set(&mut self, a: AccountId, v: Balance)
        requires
            old(self).wf(),
        ensures
            final(self).wf(),
            final(self).pend(a) == Some(v),
            forall|b: AccountId| b != a ==> final(self).pend(b) == old(self).pend(b),
    {
        let n = self.entries.len();
        let mut i: usize = 0;
        while i < n
            invariant
                n == self.entries@.len(),
                i <= n,
                self.wf(),
                *self == *old(self),
                forall|j: int| 0 <= j < i ==> (#[trigger] self.entries@[j]).0 != a,
            decreases n - i,
        {
            if self.entries[i].0 == a {
                proof {
                    lemma_pend_update(self.entries@, i as int, a, v);
                }
                self.entries[i] = (a, v);
                return;
            }
            i = i + 1;
        }
        self.entries.push((a, v));
        proof {
            let s0 = old(self).entries@;
            let t = self.entries@;
            assert(t.drop_last() =~= s0);
            assert(t.last() == (a, v));
            assert forall|i: int, j: int| 0 <= i < j < t.len() implies (#[trigger] t[i]).0
                != (#[trigger] t[j]).0 by {
                if j < s0.len() {
                    assert(t[i] == s0[i]);
                    assert(t[j] == s0[j]);
                } else {
                    assert(t[i] == s0[i]);
                    assert(t[j] == (a, v));
                }
            }
        }
    }
}

} // verus!
