use vstd::prelude::*;

use crate::events::AccountId;

verus! {

/// 1 when the slot holds exactly account `a`, else 0.
pub open spec fn one_if(slot: Option<AccountId>, a: AccountId) -> int {
    if slot == Some(a) {
        1int
    } else {
        0int
    }
}

/// 1 when the slot holds any owner, else 0.
pub open spec fn one_if_some(slot: Option<AccountId>) -> int {
    if slot is Some {
        1int
    } else {
        0int
    }
}

/// How many assets in `s` are owned by `a`.
pub open spec fn count_owned(s: Seq<Option<AccountId>>, a: AccountId) -> int
    decreases s.len(),
{
    if s.len() == 0 {
        0int
    } else {
        count_owned(s.drop_last(), a) + one_if(s.last(), a)
    }
}

/// How many assets in `s` have any owner at all.
pub open spec fn assigned_count(s: Seq<Option<AccountId>>) -> int
    decreases s.len(),
{
    if s.len() == 0 {
        0int
    } else {
        assigned_count(s.drop_last()) + one_if_some(s.last())
    }
}

pub proof fn lemma_count_bounds(s: Seq<Option<AccountId>>, a: AccountId)
    ensures
        0 <= count_owned(s, a) <= s.len(),
    decreases s.len(),
{
    if s.len() > 0 {
        lemma_count_bounds(s.drop_last(), a);
    }
}

pub proof fn lemma_assigned_bounds(s: Seq<Option<AccountId>>)
    ensures
        0 <= assigned_count(s) <= s.len(),
    decreases s.len(),
{
    if s.len() > 0 {
        lemma_assigned_bounds(s.drop_last());
    }
}

/// A slot that does not hold `a` leaves room: `a` owns at most `len - 1`.
pub proof fn lemma_count_skip(s: Seq<Option<AccountId>>, a: AccountId, i: int)
    requires
        0 <= i < s.len(),
        s[i] != Some(a),
    ensures
        count_owned(s, a) <= s.len() - 1,
    decreases s.len(),
{
    if i == s.len() - 1 {
        lemma_count_bounds(s.drop_last(), a);
    } else {
        assert(s.drop_last()[i] == s[i]);
        lemma_count_skip(s.drop_last(), a, i);
    }
}

/// A slot without an owner leaves room: at most `len - 1` assets are assigned.
pub proof fn lemma_assigned_skip(s: Seq<Option<AccountId>>, i: int)
    requires
        0 <= i < s.len(),
        s[i] is None,
    ensures
        assigned_count(s) <= s.len() - 1,
    decreases s.len(),
{
    if i == s.len() - 1 {
        lemma_assigned_bounds(s.drop_last());
    } else {
        assert(s.drop_last()[i] == s[i]);
        lemma_assigned_skip(s.drop_last(), i);
    }
}

/// An account that owns some slot owns at least one asset.
pub proof fn lemma_count_present(s: Seq<Option<AccountId>>, a: AccountId, i: int)
    requires
        0 <= i < s.len(),
        s[i] == Some(a),
    ensures
        count_owned(s, a) >= 1,
    decreases s.len(),
{
    if i == s.len() - 1 {
        lemma_count_bounds(s.drop_last(), a);
    } else {
        assert(s.drop_last()[i] == s[i]);
        lemma_count_present(s.drop_last(), a, i);
        lemma_count_bounds(s, a);
    }
}

/// An account that owns no slot owns nothing.
pub proof fn lemma_count_absent(s: Seq<Option<AccountId>>, a: AccountId)
    requires
        forall|i: int| 0 <= i < s.len() ==> (#[trigger] s[i]) != Some(a),
    ensures
        count_owned(s, a) == 0,
    decreases s.len(),
{
    if s.len() > 0 {
        assert forall|i: int| 0 <= i < s.drop_last().len() implies (#[trigger] s.drop_last()[i])
            != Some(a) by {
            assert(s.drop_last()[i] == s[i]);
        }
        lemma_count_absent(s.drop_last(), a);
    }
}

/// When every slot is unowned, nothing is assigned.
pub proof fn lemma_assigned_absent(s: Seq<Option<AccountId>>)
    requires
        forall|i: int| 0 <= i < s.len() ==> (#[trigger] s[i]) is None,
    ensures
        assigned_count(s) == 0,
    decreases s.len(),
{
    if s.len() > 0 {
        assert forall|i: int| 0 <= i < s.drop_last().len() implies (#[trigger] s.drop_last()[i])
            is None by {
            assert(s.drop_last()[i] == s[i]);
        }
        lemma_assigned_absent(s.drop_last());
    }
}

/// How one slot update moves the per-account count.
pub proof fn lemma_count_update(
    s: Seq<Option<AccountId>>,
    i: int,
    x: Option<AccountId>,
    a: AccountId,
)
    requires
        0 <= i < s.len(),
    ensures
        count_owned(s.update(i, x), a) == count_owned(s, a) - one_if(s[i], a) + one_if(x, a),
    decreases s.len(),
{
    let t = s.update(i, x);
    if i == s.len() - 1 {
        assert(t.drop_last() =~= s.drop_last());
    } else {
        assert(t.drop_last() =~= s.drop_last().update(i, x));
        assert(s.drop_last()[i] == s[i]);
        lemma_count_update(s.drop_last(), i, x, a);
        assert(t.last() == s.last());
    }
}

/// How one slot update moves the assigned-slot count.
pub proof fn lemma_assigned_update(s: Seq<Option<AccountId>>, i: int, x: Option<AccountId>)
    requires
        0 <= i < s.len(),
    ensures
        assigned_count(s.update(i, x)) == assigned_count(s) - one_if_some(s[i]) + one_if_some(x),
    decreases s.len(),
{
    let t = s.update(i, x);
    if i == s.len() - 1 {
        assert(t.drop_last() =~= s.drop_last());
    } else {
        assert(t.drop_last() =~= s.drop_last().update(i, x));
        assert(s.drop_last()[i] == s[i]);
        lemma_assigned_update(s.drop_last(), i, x);
        assert(t.last() == s.last());
    }
}

} // verus!
