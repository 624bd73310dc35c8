//! The lexicographic order of texts, and lists without repetition in that order.

use crate::text;
use vstd::prelude::*;

verus! {

/// `a` comes before `b`: by the first character in which they differ, or because it
/// is a proper prefix.
pub open spec fn precedes(a: Seq<char>, b: Seq<char>) -> bool
    decreases a.len(),
{
    if b.len() == 0 {
        false
    } else if a.len() == 0 {
        true
    } else if a[0] != b[0] {
        (a[0] as int) < (b[0] as int)
    } else {
        precedes(a.drop_first(), b.drop_first())
    }
}

/// Of two different texts exactly one comes before the other.
pub proof fn precedes_is_total(a: Seq<char>, b: Seq<char>)
    ensures
        a == b ==> !precedes(a, b),
        a != b ==> precedes(a, b) != precedes(b, a),
    decreases a.len(),
{
    if a.len() > 0 && b.len() > 0 && a[0] == b[0] {
        precedes_is_total(a.drop_first(), b.drop_first());
        if a.drop_first() == b.drop_first() {
            assert(a =~= seq![a[0]] + a.drop_first());
            assert(b =~= seq![b[0]] + b.drop_first());
        }
    } else if a.len() == 0 && b.len() == 0 {
        assert(a =~= b);
    }
}

/// What comes before something comes before all that follows it.
pub proof fn precedes_is_transitive(a: Seq<char>, b: Seq<char>, c: Seq<char>)
    requires
        precedes(a, b),
        precedes(b, c),
    ensures
        precedes(a, c),
    decreases a.len(),
{
    if a.len() > 0 && a[0] == b[0] && b[0] == c[0] {
        precedes_is_transitive(a.drop_first(), b.drop_first(), c.drop_first());
    }
}

fn scalar(c: char) -> (value: u32)
    ensures
        value as int == c as int,
{
    c as u32
}

/// Whether `left` comes before `right`.
pub fn before(left: &str, right: &str) -> (yes: bool)
    ensures
        yes == precedes(left@, right@),
{
    let a = text::chars_of(left);
    let b = text::chars_of(right);
    let mut i: usize = 0;
    assert(left@.skip(0) =~= left@);
    assert(right@.skip(0) =~= right@);
    while i < a.len() && i < b.len() && a[i] == b[i]
        invariant
            a@ == left@,
            b@ == right@,
            i <= a.len(),
            i <= b.len(),
            precedes(left@, right@) == precedes(left@.skip(i as int), right@.skip(i as int)),
        decreases a.len() - i,
    {
        assert(left@.skip(i as int).drop_first() =~= left@.skip(i + 1));
        assert(right@.skip(i as int).drop_first() =~= right@.skip(i + 1));
        i = i + 1;
    }
    if i >= b.len() {
        false
    } else if i >= a.len() {
        true
    } else {
        scalar(a[i]) < scalar(b[i])
    }
}

/// Each item comes before all that follow it.
pub open spec fn ascending(list: Seq<Seq<char>>) -> bool {
    forall|i: int, j: int| 0 <= i < j < list.len() ==> precedes(#[trigger] list[i], #[trigger] list[j])
}

/// The two lists hold the same items.
pub open spec fn same_items(a: Seq<Seq<char>>, b: Seq<Seq<char>>) -> bool {
    forall|x: Seq<char>| a.contains(x) <==> b.contains(x)
}

/// An ascending list is determined by what it holds.
pub proof fn ascending_lists_are_unique(a: Seq<Seq<char>>, b: Seq<Seq<char>>)
    requires
        ascending(a),
        ascending(b),
        same_items(a, b),
    ensures
        a == b,
    decreases a.len(),
{
    if a.len() == 0 {
        if b.len() > 0 {
            assert(b.contains(b[0]));
        }
        assert(a =~= b);
    } else {
        assert(a.contains(a.last()));
        assert(b.contains(a.last()));
        let last = a.last();
        let i = b.index_of(last);
        assert(b.contains(b.last()));
        assert(a.contains(b.last()));
        let j = a.index_of(b.last());
        precedes_is_total(last, b.last());
        if i < b.len() - 1 {
            assert(precedes(b[i], b[b.len() - 1]));
            if j < a.len() - 1 {
                assert(precedes(a[j], a[a.len() - 1]));
            }
            assert(false);
        }
        assert(b.last() == last);
        let a_rest = a.drop_last();
        let b_rest = b.drop_last();
        assert forall|x: Seq<char>| a_rest.contains(x) <==> b_rest.contains(x) by {
            precedes_is_total(x, last);
            if a_rest.contains(x) {
                let k = a_rest.index_of(x);
                assert(precedes(a[k], a[a.len() - 1]));
                assert(a.contains(a[k]));
                assert(b.contains(x));
                let m = b.index_of(x);
                assert(m < b.len() - 1);
                assert(b_rest[m] == x);
            }
            if b_rest.contains(x) {
                let k = b_rest.index_of(x);
                assert(precedes(b[k], b[b.len() - 1]));
                assert(b.contains(b[k]));
                assert(a.contains(x));
                let m = a.index_of(x);
                assert(m < a.len() - 1);
                assert(a_rest[m] == x);
            }
        }
        ascending_lists_are_unique(a_rest, b_rest);
        assert(a =~= a_rest.push(last));
        assert(b =~= b_rest.push(last));
    }
}

/// Puts `item` into its place in an ascending list, unless it is there already.
fn insert_sorted(list: &mut Vec<String>, item: &str)
    requires
        ascending(old(list).deep_view()),
    ensures
        ascending(final(list).deep_view()),
        forall|x: Seq<char>| #[trigger]
            final(list).deep_view().contains(x) <==> old(list).deep_view().contains(x) || x
                == item@,
{
    let ghost start = list.deep_view();
    let mut i: usize = 0;
    while i < list.len() && before(list[i].as_str(), item)
        invariant
            i <= list.len(),
            start == list.deep_view(),
            forall|j: int| 0 <= j < i ==> precedes(#[trigger] start[j], item@),
        decreases list.len() - i,
    {
        i = i + 1;
    }
    if i < list.len() && *list[i].as_str() == *item {
        assert(start[i as int] == item@);
        assert(start.contains(item@));
        return ;
    }
    list.insert(i, item.to_owned());
    proof {
        let all = list.deep_view();
        assert(all =~= start.insert(i as int, item@));
        assert forall|j: int| i <= j < start.len() implies precedes(
            item@,
            #[trigger] start[j],
        ) by {
            precedes_is_total(start[i as int], item@);
            if j > i {
                assert(precedes(start[i as int], start[j]));
                precedes_is_transitive(item@, start[i as int], start[j]);
            }
        }
        assert forall|a: int, b: int| 0 <= a < b < all.len() implies precedes(
            #[trigger] all[a],
            #[trigger] all[b],
        ) by {
            if b < i {
                assert(precedes(start[a], start[b]));
            } else if b == i {
                assert(precedes(start[a], item@));
            } else if a < i {
                assert(precedes(start[a], start[b - 1]));
            } else if a == i {
                assert(precedes(item@, start[b - 1]));
            } else {
                assert(precedes(start[a - 1], start[b - 1]));
            }
        }
        assert forall|x: Seq<char>| #[trigger]
            all.contains(x) <==> start.contains(x) || x == item@ by {
            if all.contains(x) {
                let k = all.index_of(x);
                if k < i {
                    assert(start[k] == x);
                } else if k > i {
                    assert(start[k - 1] == x);
                }
            }
            if start.contains(x) {
                let k = start.index_of(x);
                if k < i {
                    assert(all[k] == x);
                } else {
                    assert(all[k + 1] == x);
                }
            }
            assert(all[i as int] == item@);
        }
    }
}

/// The items of `list` in ascending order, each once.
pub fn sorted_distinct(list: &Vec<String>) -> (sorted: Vec<String>)
    ensures
        ascending(sorted.deep_view()),
        same_items(sorted.deep_view(), list.deep_view()),
{
    let mut sorted: Vec<String> = Vec::new();
    let ghost views = list.deep_view();
    let mut i: usize = 0;
    while i < list.len()
        invariant
            i <= list.len(),
            views == list.deep_view(),
            ascending(sorted.deep_view()),
            forall|x: Seq<char>| #[trigger]
                sorted.deep_view().contains(x) <==> views.take(i as int).contains(x),
        decreases list.len() - i,
    {
        insert_sorted(&mut sorted, list[i].as_str());
        proof {
            let here = views.take(i as int);
            let next = views.take(i + 1);
            assert forall|x: Seq<char>| #[trigger]
                sorted.deep_view().contains(x) <==> next.contains(x) by {
                assert(next[i as int] == views[i as int]);
                if next.contains(x) {
                    let k = next.index_of(x);
                    if k < i {
                        assert(here[k] == x);
                    }
                }
                if here.contains(x) {
                    let k = here.index_of(x);
                    assert(next[k] == x);
                }
            }
        }
        i = i + 1;
    }
    assert(views.take(views.len() as int) =~= views);
    sorted
}

/// Texts are ordered by the first character in which they differ, and a text comes before
/// every longer one that begins with it.
pub proof fn texts_are_ordered_by_their_first_difference(
    common: Seq<char>,
    a: Seq<char>,
    b: Seq<char>,
)
    ensures
        precedes(common + a, common + b) == precedes(a, b),
        a.len() > 0 && b.len() > 0 && (a[0] as int) < (b[0] as int) ==> precedes(a, b)
            && !precedes(b, a),
        b.len() > 0 ==> precedes(common, common + b),
        !precedes(a, a),
    decreases common.len() + a.len(),
{
    if common.len() > 0 {
        let rest = common.drop_first();
        texts_are_ordered_by_their_first_difference(rest, a, b);
        assert((common + a).drop_first() =~= rest + a);
        assert((common + b).drop_first() =~= rest + b);
        assert((common + a)[0] == common[0] && (common + b)[0] == common[0]);
        assert((common + b).drop_first() =~= rest + b);
    } else {
        assert(common + a =~= a);
        assert(common + b =~= b);
    }
    if a.len() > 0 && common.len() == 0 {
        texts_are_ordered_by_their_first_difference(common, a.drop_first(), a.drop_first());
    }
}

} // verus!
