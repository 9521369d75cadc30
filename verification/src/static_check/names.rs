//! Sorted sets of names, as the type schemes keep their variables.

use vstd::prelude::*;

use crate::util::chars_of;
use crate::util::string_views;

verus! {

/// The order of names: lexicographic by code point, as `String` orders.
pub open spec fn name_lt(a: Seq<char>, b: Seq<char>) -> bool
    decreases a.len(),
{
    if a.len() == 0 {
        b.len() > 0
    } else if b.len() == 0 {
        false
    } else if a[0] == b[0] {
        name_lt(a.drop_first(), b.drop_first())
    } else {
        a[0] < b[0]
    }
}

pub proof fn lemma_name_lt_irreflexive(a: Seq<char>)
    ensures
        !name_lt(a, a),
    decreases a.len(),
{
    if a.len() > 0 {
        lemma_name_lt_irreflexive(a.drop_first());
    }
}

pub proof fn lemma_name_lt_total(a: Seq<char>, b: Seq<char>)
    ensures
        a == b || name_lt(a, b) || name_lt(b, a),
        !(name_lt(a, b) && name_lt(b, a)),
    decreases a.len(),
{
    if a.len() > 0 && b.len() > 0 {
        lemma_name_lt_total(a.drop_first(), b.drop_first());
        if a[0] == b[0] && a.drop_first() == b.drop_first() {
            assert forall|k: int| 0 <= k < a.len() implies a[k] == b[k] by {
                if k > 0 {
                    assert(a[k] == a.drop_first()[k - 1]);
                    assert(b[k] == b.drop_first()[k - 1]);
                }
            }
            assert(a =~= b);
        }
    } else if a.len() == 0 && b.len() == 0 {
        assert(a =~= b);
    }
}

pub proof fn lemma_name_lt_transitive(a: Seq<char>, b: Seq<char>, c: Seq<char>)
    requires
        name_lt(a, b),
        name_lt(b, c),
    ensures
        name_lt(a, c),
    decreases a.len(),
{
    if a.len() > 0 && b.len() > 0 && c.len() > 0 {
        if a[0] == b[0] && b[0] == c[0] {
            lemma_name_lt_transitive(a.drop_first(), b.drop_first(), c.drop_first());
        }
    }
}

/// Strictly increasing, hence without repetition.
pub open spec fn sorted_names(s: Seq<Seq<char>>) -> bool {
    forall|i: int, j: int| 0 <= i < j < s.len() ==> name_lt(#[trigger] s[i], #[trigger] s[j])
}

/// Two strictly increasing sequences with the same elements are equal.
pub proof fn lemma_sorted_names_unique(s1: Seq<Seq<char>>, s2: Seq<Seq<char>>)
    requires
        sorted_names(s1),
        sorted_names(s2),
        s1.to_set() == s2.to_set(),
    ensures
        s1 == s2,
    decreases s1.len() + s2.len(),
{
    if s1.len() == 0 {
        if s2.len() > 0 {
            assert(s2.to_set().contains(s2[0]));
        }
        assert(s1 =~= s2);
    } else if s2.len() == 0 {
        assert(s1.to_set().contains(s1[0]));
    } else {
        // the least elements agree
        assert(s1.to_set().contains(s1[0]));
        assert(s2.to_set().contains(s2[0]));
        let i = choose|i: int| 0 <= i < s2.len() && s2[i] == s1[0];
        let j = choose|j: int| 0 <= j < s1.len() && s1[j] == s2[0];
        if i > 0 && j > 0 {
            assert(name_lt(s2[0], s2[i]));
            assert(name_lt(s1[0], s1[j]));
            lemma_name_lt_total(s1[0], s2[0]);
        } else if i > 0 {
            assert(j == 0);
        } else if j > 0 {
            assert(i == 0);
        }
        assert(s1[0] == s2[0]);
        let t1 = s1.drop_first();
        let t2 = s2.drop_first();
        assert forall|x: Seq<char>| t1.to_set().contains(x) implies t2.to_set().contains(x) by {
            let k = choose|k: int| 0 <= k < t1.len() && t1[k] == x;
            assert(s1[k + 1] == x);
            assert(s1.to_set().contains(x));
            let m = choose|m: int| 0 <= m < s2.len() && s2[m] == x;
            assert(name_lt(s1[0], s1[k + 1]));
            if m == 0 {
                lemma_name_lt_irreflexive(x);
            }
            assert(t2[m - 1] == x);
        }
        assert forall|x: Seq<char>| t2.to_set().contains(x) implies t1.to_set().contains(x) by {
            let k = choose|k: int| 0 <= k < t2.len() && t2[k] == x;
            assert(s2[k + 1] == x);
            assert(s2.to_set().contains(x));
            let m = choose|m: int| 0 <= m < s1.len() && s1[m] == x;
            assert(name_lt(s2[0], s2[k + 1]));
            if m == 0 {
                lemma_name_lt_irreflexive(x);
            }
            assert(t1[m - 1] == x);
        }
        assert(t1.to_set() =~= t2.to_set());
        lemma_sorted_names_unique(t1, t2);
        assert forall|k: int| 0 <= k < s1.len() implies s1[k] == s2[k] by {
            if k > 0 {
                assert(s1[k] == t1[k - 1]);
                assert(s2[k] == t2[k - 1]);
            }
        }
        assert(s1 =~= s2);
    }
}

/// The names of a set in increasing order.
pub open spec fn sorted_of(names: Set<Seq<char>>) -> Seq<Seq<char>> {
    choose|s: Seq<Seq<char>>| sorted_names(s) && s.to_set() == names
}

/// A strictly increasing sequence is the sorted sequence of its elements.
pub proof fn lemma_sorted_of(s: Seq<Seq<char>>)
    requires
        sorted_names(s),
    ensures
        sorted_of(s.to_set()) == s,
{
    assert(sorted_names(s) && s.to_set() == s.to_set());
    let t = sorted_of(s.to_set());
    lemma_sorted_names_unique(t, s);
}

/// Whether `a` comes before `b` in the order of names.
pub fn name_less(a: &str, b: &str) -> (less: bool)
    ensures
        less == name_lt(a@, b@),
{
    let ca = chars_of(a);
    let cb = chars_of(b);
    let mut i: usize = 0;
    assert(a@.skip(0) =~= a@);
    assert(b@.skip(0) =~= b@);
    while i < ca.len() && i < cb.len()
        invariant
            ca@ == a@,
            cb@ == b@,
            i <= ca.len(),
            i <= cb.len(),
            name_lt(a@, b@) == name_lt(a@.skip(i as int), b@.skip(i as int)),
        decreases ca.len() - i,
    {
        assert(a@.skip(i as int).drop_first() =~= a@.skip(i + 1));
        assert(b@.skip(i as int).drop_first() =~= b@.skip(i + 1));
        if ca[i] != cb[i] {
            return ca[i] < cb[i];
        }
        i += 1;
    }
    i == ca.len() && i < cb.len()
}

/// Adds `name` to the strictly increasing `names`, unless it is there.
pub fn insert_name(names: &mut Vec<String>, name: &String)
    requires
        sorted_names(string_views(old(names)@)),
    ensures
        sorted_names(string_views(final(names)@)),
        string_views(final(names)@).to_set() == string_views(old(names)@).to_set().insert(name@),
{
    let ghost old_v = string_views(names@);
    let mut i: usize = 0;
    let mut done = false;
    while !done && i < names.len()
        invariant
            i <= names.len(),
            old_v == string_views(names@),
            forall|j: int| 0 <= j < i ==> name_lt(#[trigger] old_v[j], name@),
            done ==> i < names.len() && !name_lt(old_v[i as int], name@),
        decreases names.len() - i, if done { 0int } else { 1int },
    {
        if !name_less(names[i].as_str(), name.as_str()) {
            done = true;
        } else {
            i += 1;
        }
    }
    if i < names.len() && crate::static_check::types::str_eq(names[i].as_str(), name.as_str()) {
        assert(old_v.to_set().insert(name@) =~= old_v.to_set()) by {
            assert(old_v[i as int] == name@);
        }
        return;
    }
    proof {
        if i < names.len() {
            lemma_name_lt_total(old_v[i as int], name@);
            assert(name_lt(name@, old_v[i as int]));
        }
    }
    names.insert(i, name.clone());
    let ghost new_v = string_views(names@);
    assert(new_v =~= old_v.insert(i as int, name@));
    assert forall|a: int, b: int| 0 <= a < b < new_v.len() implies name_lt(
        #[trigger] new_v[a],
        #[trigger] new_v[b],
    ) by {
        if a < i && b < i {
            assert(new_v[a] == old_v[a]);
            assert(new_v[b] == old_v[b]);
        } else if a < i && b == i {
            assert(new_v[a] == old_v[a]);
        } else if a < i && b > i {
            assert(new_v[a] == old_v[a]);
            assert(new_v[b] == old_v[b - 1]);
        } else if a == i {
            assert(new_v[b] == old_v[b - 1]);
            if b - 1 > i {
                assert(name_lt(old_v[i as int], old_v[b - 1]));
                lemma_name_lt_transitive(name@, old_v[i as int], old_v[b - 1]);
            }
        } else {
            assert(old_v.insert(i as int, name@)[a] == old_v[a - 1]);
            assert(old_v.insert(i as int, name@)[b] == old_v[b - 1]);
        }
    }
    assert(new_v.to_set() =~= old_v.to_set().insert(name@)) by {
        assert forall|x: Seq<char>| new_v.to_set().contains(x) implies old_v.to_set().insert(name@).contains(x) by {
            let k = choose|k: int| 0 <= k < new_v.len() && new_v[k] == x;
            if k < i {
                assert(old_v[k] == x);
            } else if k > i {
                assert(old_v[k - 1] == x);
            }
        }
        assert forall|x: Seq<char>| old_v.to_set().insert(name@).contains(x) implies new_v.to_set().contains(x) by {
            if x == name@ {
                assert(new_v[i as int] == x);
            } else {
                let k = choose|k: int| 0 <= k < old_v.len() && old_v[k] == x;
                if k < i {
                    assert(new_v[k] == x);
                } else {
                    assert(new_v[k + 1] == x);
                }
            }
        }
    }
}

/// Adds every name of `more` to the strictly increasing `names`.
pub fn insert_names(names: &mut Vec<String>, more: &Vec<String>)
    requires
        sorted_names(string_views(old(names)@)),
    ensures
        sorted_names(string_views(final(names)@)),
        string_views(final(names)@).to_set() == string_views(old(names)@).to_set() + string_views(
            more@,
        ).to_set(),
{
    let ghost start = string_views(names@).to_set();
    let mut i: usize = 0;
    while i < more.len()
        invariant
            i <= more.len(),
            sorted_names(string_views(names@)),
            string_views(names@).to_set() == start + string_views(more@.take(i as int)).to_set(),
        decreases more.len() - i,
    {
        insert_name(names, &more[i]);
        proof {
            let prev = string_views(more@.take(i as int));
            let next = string_views(more@.take(i + 1));
            assert(next =~= prev.push(more@[i as int]@));
            prev.lemma_push_to_set_commute(more@[i as int]@);
            assert(start + next.to_set() =~= (start + prev.to_set()).insert(more@[i as int]@));
        }
        i += 1;
    }
    assert(more@.take(more.len() as int) =~= more@);
}

} // verus!
