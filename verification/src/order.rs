//! Texts in alphabetical order, by the code of each character.

use vstd::prelude::*;

use crate::text::{chars_of, same_text, views};

verus! {

/// Whether a text comes before another.
pub open spec fn before(a: Seq<char>, b: Seq<char>) -> bool
    decreases a.len(),
{
    if b.len() == 0 {
        false
    } else if a.len() == 0 {
        true
    } else if a[0] == b[0] {
        before(a.drop_first(), b.drop_first())
    } else {
        a[0] < b[0]
    }
}

/// Whether no text of a list comes before an earlier one.
pub open spec fn is_sorted(items: Seq<Seq<char>>) -> bool {
    forall|i: int, j: int|
        0 <= i < j < items.len() ==> !before(#[trigger] items[j], #[trigger] items[i])
}

/// Whether each text of a list comes before all later ones.
pub open spec fn is_ascending(items: Seq<Seq<char>>) -> bool {
    forall|i: int, j: int|
        0 <= i < j < items.len() ==> before(#[trigger] items[i], #[trigger] items[j])
}

/// Of two texts that differ, exactly one comes before the other; none comes before itself.
pub proof fn law_before_is_total(a: Seq<char>, b: Seq<char>)
    ensures
        a == b ==> !before(a, b),
        a != b ==> before(a, b) != before(b, a),
    decreases a.len(),
{
    if a.len() > 0 && b.len() > 0 && a[0] == b[0] {
        law_before_is_total(a.drop_first(), b.drop_first());
        assert(a =~= seq![a[0]] + a.drop_first());
        assert(b =~= seq![b[0]] + b.drop_first());
    } else if a.len() == 0 && b.len() == 0 {
        assert(a =~= b);
    }
}

/// What comes before a text comes before all that follow it.
pub proof fn law_before_is_transitive(a: Seq<char>, b: Seq<char>, c: Seq<char>)
    requires
        before(a, b),
        before(b, c),
    ensures
        before(a, c),
    decreases a.len(),
{
    if a.len() > 0 && b.len() > 0 && c.len() > 0 && a[0] == b[0] && b[0] == c[0] {
        law_before_is_transitive(a.drop_first(), b.drop_first(), c.drop_first());
    }
}

/// Whether a text comes before another.
pub fn comes_before(a: &str, b: &str) -> (r: bool)
    ensures
        r == before(a@, b@),
{
    let left = chars_of(a);
    let right = chars_of(b);
    let mut i: usize = 0;
    assert(left@.skip(0) =~= left@);
    assert(right@.skip(0) =~= right@);
    loop
        invariant
            i <= left@.len(),
            i <= right@.len(),
            left@ == a@,
            right@ == b@,
            before(a@, b@) == before(left@.skip(i as int), right@.skip(i as int)),
        decreases left@.len() - i,
    {
        if i >= right.len() {
            return false;
        }
        if i >= left.len() {
            return true;
        }
        assert(left@.skip(i as int)[0] == left@[i as int]);
        assert(right@.skip(i as int)[0] == right@[i as int]);
        if left[i] != right[i] {
            return left[i] < right[i];
        }
        assert(left@.skip(i as int).drop_first() =~= left@.skip(i + 1));
        assert(right@.skip(i as int).drop_first() =~= right@.skip(i + 1));
        i += 1;
    }
}

/// How many texts of a sorted list do not come after a text.
fn place_for(items: &Vec<String>, item: &str) -> (r: usize)
    requires
        is_sorted(views(items@)),
    ensures
        r <= items@.len(),
        forall|k: int| 0 <= k < r ==> !before(item@, #[trigger] items@[k]@),
        forall|k: int| r <= k < items@.len() ==> before(item@, #[trigger] items@[k]@),
{
    let mut n: usize = items.len();
    while n > 0
        invariant
            n <= items@.len(),
            is_sorted(views(items@)),
            forall|k: int| n <= k < items@.len() ==> before(item@, #[trigger] items@[k]@),
        decreases n,
    {
        if !comes_before(item, items[n - 1].as_str()) {
            assert forall|k: int| 0 <= k < n implies !before(item@, #[trigger] items@[k]@) by {
                let all = views(items@);
                assert(all[k] == items@[k]@);
                assert(all[n - 1] == items@[n - 1]@);
                if before(item@, all[k]) && k < n - 1 {
                    assert(!before(all[n - 1], all[k]));
                    law_before_is_total(all[n - 1], all[k]);
                    if all[k] != all[n - 1] {
                        law_before_is_transitive(item@, all[k], all[n - 1]);
                    }
                }
            }
            return n;
        }
        n -= 1;
    }
    n
}

/// A list in ascending order is sorted, and holds no text twice.
pub proof fn law_ascending_is_sorted(items: Seq<Seq<char>>)
    requires
        is_ascending(items),
    ensures
        is_sorted(items),
        items.no_duplicates(),
{
    assert forall|i: int, j: int| 0 <= i < j < items.len() implies !before(
        #[trigger] items[j],
        #[trigger] items[i],
    ) by {
        law_before_is_total(items[i], items[j]);
    }
    assert forall|i: int, j: int|
        0 <= i < items.len() && 0 <= j < items.len() && i != j implies items[i] != items[j] by {
        law_before_is_total(items[i], items[j]);
        if i < j {
            assert(before(items[i], items[j]));
        } else {
            assert(before(items[j], items[i]));
        }
    }
}

/// Enters a text into a list in ascending order, unless it is there already.
pub fn enter(items: &mut Vec<String>, item: &str)
    requires
        is_ascending(views(old(items)@)),
    ensures
        is_ascending(views(final(items)@)),
        forall|s: Seq<char>| #[trigger]
            views(final(items)@).contains(s) <==> s == item@ || views(old(items)@).contains(s),
{
    let ghost old_views = views(items@);
    proof {
        law_ascending_is_sorted(old_views);
    }
    let at: usize = place_for(items, item);
    if at > 0 && same_text(items[at - 1].as_str(), item) {
        assert(old_views[at - 1] == item@);
        return;
    }
    items.insert(at, item.to_string());
    let ghost new_views = views(items@);
    assert(new_views =~= old_views.insert(at as int, item@));
    proof {
        assert forall|p: int, q: int| 0 <= p < q < new_views.len() implies before(
            #[trigger] new_views[p],
            #[trigger] new_views[q],
        ) by {
            let op = if p < at {
                p
            } else {
                p - 1
            };
            let oq = if q < at {
                q
            } else {
                q - 1
            };
            if p == at {
                assert(new_views[q] == old_views[oq]);
            } else if q == at {
                assert(new_views[p] == old_views[op]);
                law_before_is_total(old_views[at - 1], item@);
                assert(before(old_views[at - 1], item@));
                if p < at - 1 {
                    law_before_is_transitive(old_views[p], old_views[at - 1], item@);
                }
            } else {
                assert(new_views[p] == old_views[op] && new_views[q] == old_views[oq]);
            }
        }
        assert forall|s: Seq<char>| #[trigger]
            new_views.contains(s) <==> s == item@ || old_views.contains(s) by {
            if old_views.contains(s) {
                let k = choose|k: int| 0 <= k < old_views.len() && old_views[k] == s;
                let nk = if k < at {
                    k
                } else {
                    k + 1
                };
                assert(new_views[nk] == s);
            }
            if s == item@ {
                assert(new_views[at as int] == s);
            }
            if new_views.contains(s) && s != item@ {
                let k = choose|k: int| 0 <= k < new_views.len() && new_views[k] == s;
                let ok = if k < at {
                    k
                } else {
                    k - 1
                };
                assert(old_views[ok] == s);
            }
        }
    }
}

/// Two lists in ascending order that hold the same texts are the same list.
pub proof fn law_ascending_is_unique(a: Seq<Seq<char>>, b: Seq<Seq<char>>)
    requires
        is_ascending(a),
        is_ascending(b),
        forall|s: Seq<char>|
            #![trigger a.contains(s)]
            #![trigger b.contains(s)]
            a.contains(s) <==> b.contains(s),
    ensures
        a == b,
    decreases a.len(),
{
    if a.len() == 0 || b.len() == 0 {
        if a.len() > 0 {
            assert(a.contains(a[0]));
        }
        if b.len() > 0 {
            assert(b.contains(b[0]));
        }
        assert(a =~= b);
    } else {
        let x = a.last();
        let y = b.last();
        assert(a.contains(x) && b.contains(y));
        assert(b.contains(x) && a.contains(y));
        law_before_is_total(x, y);
        let i = choose|i: int| 0 <= i < a.len() && a[i] == y;
        let j = choose|j: int| 0 <= j < b.len() && b[j] == x;
        assert(x == y) by {
            if i < a.len() - 1 && j < b.len() - 1 {
                assert(before(a[i], a[a.len() - 1]));
                assert(before(b[j], b[b.len() - 1]));
            }
        }
        let p = a.drop_last();
        let q = b.drop_last();
        assert forall|s: Seq<char>|
            #![trigger p.contains(s)]
            #![trigger q.contains(s)]
            p.contains(s) <==> q.contains(s) by {
            if p.contains(s) {
                let k = choose|k: int| 0 <= k < p.len() && p[k] == s;
                assert(before(a[k], a[a.len() - 1]));
                law_before_is_total(s, x);
                assert(a.contains(s));
                let m = choose|m: int| 0 <= m < b.len() && b[m] == s;
                assert(q[m] == s);
            }
            if q.contains(s) {
                let k = choose|k: int| 0 <= k < q.len() && q[k] == s;
                assert(before(b[k], b[b.len() - 1]));
                law_before_is_total(s, x);
                assert(b.contains(s));
                let m = choose|m: int| 0 <= m < a.len() && a[m] == s;
                assert(p[m] == s);
            }
        }
        law_ascending_is_unique(p, q);
        assert(a =~= p.push(x));
        assert(b =~= q.push(x));
    }
}

}
