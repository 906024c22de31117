//! Ordering of qualified names.

use crate::source::{NameView, QualifiedName};
use crate::text::{is_text_less, same_text, text_less};
use vstd::prelude::*;

verus! {

/// Names are ordered by schema, then by local name.
pub open spec fn name_less(a: NameView, b: NameView) -> bool {
    text_less(a.schema, b.schema) || (a.schema == b.schema && text_less(a.name, b.name))
}

/// No text stands before itself.
pub proof fn lemma_text_irreflexive(a: Seq<char>)
    ensures
        !text_less(a, a),
    decreases a.len(),
{
    if a.len() > 0 {
        lemma_text_irreflexive(a.drop_first());
    }
}

/// The order of texts is transitive.
pub proof fn lemma_text_transitive(a: Seq<char>, b: Seq<char>, c: Seq<char>)
    requires
        text_less(a, b),
        text_less(b, c),
    ensures
        text_less(a, c),
    decreases a.len(),
{
    if a.len() > 0 && b.len() > 0 && c.len() > 0 && a[0] == b[0] && b[0] == c[0] {
        lemma_text_transitive(a.drop_first(), b.drop_first(), c.drop_first());
    }
}

/// Of two different texts one stands before the other.
pub proof fn lemma_text_total(a: Seq<char>, b: Seq<char>)
    requires
        a != b,
    ensures
        text_less(a, b) || text_less(b, a),
    decreases a.len(),
{
    if a.len() > 0 && b.len() > 0 && a[0] == b[0] {
        if a.drop_first() == b.drop_first() {
            assert(a =~= seq![a[0]] + a.drop_first());
            assert(b =~= seq![b[0]] + b.drop_first());
        }
        lemma_text_total(a.drop_first(), b.drop_first());
    } else if a.len() == 0 && b.len() == 0 {
        assert(a =~= b);
    }
}

/// No name stands before itself.
pub proof fn lemma_name_irreflexive(a: NameView)
    ensures
        !name_less(a, a),
{
    lemma_text_irreflexive(a.schema);
    lemma_text_irreflexive(a.name);
}

/// The order of names is transitive.
pub proof fn lemma_name_transitive(a: NameView, b: NameView, c: NameView)
    requires
        name_less(a, b),
        name_less(b, c),
    ensures
        name_less(a, c),
{
    if text_less(a.schema, b.schema) && text_less(b.schema, c.schema) {
        lemma_text_transitive(a.schema, b.schema, c.schema);
    }
    if a.schema == b.schema && b.schema == c.schema && text_less(a.name, b.name) && text_less(
        b.name,
        c.name,
    ) {
        lemma_text_transitive(a.name, b.name, c.name);
    }
}

/// Of two different names one stands before the other.
pub proof fn lemma_name_total(a: NameView, b: NameView)
    requires
        a != b,
    ensures
        name_less(a, b) || name_less(b, a),
{
    if a.schema != b.schema {
        lemma_text_total(a.schema, b.schema);
    } else {
        lemma_text_total(a.name, b.name);
    }
}

/// Of two names not both stand before the other.
pub proof fn lemma_name_asymmetric(a: NameView, b: NameView)
    requires
        name_less(a, b),
    ensures
        !name_less(b, a),
{
    if name_less(b, a) {
        lemma_name_transitive(a, b, a);
        lemma_name_irreflexive(a);
    }
}

/// Whether `a` stands before `b`.
pub fn is_name_less(a: &QualifiedName, b: &QualifiedName) -> (r: bool)
    ensures
        r == name_less(a@, b@),
{
    if is_text_less(a.schema.as_str(), b.schema.as_str()) {
        return true;
    }
    same_text(a.schema.as_str(), b.schema.as_str()) && is_text_less(
        a.name.as_str(),
        b.name.as_str(),
    )
}

/// The names of a list of references.
pub open spec fn names_of(list: Seq<&QualifiedName>) -> Seq<NameView> {
    Seq::new(list.len(), |i: int| list[i]@)
}

/// No later name stands before an earlier one.
pub open spec fn never_descending(names: Seq<NameView>) -> bool {
    forall|i: int, j: int|
        0 <= i < j < names.len() ==> !name_less(#[trigger] names[j], #[trigger] names[i])
}

/// Each name stands before all later ones.
pub open spec fn ascending(names: Seq<NameView>) -> bool {
    forall|i: int, j: int|
        0 <= i < j < names.len() ==> name_less(#[trigger] names[i], #[trigger] names[j])
}

/// Every position below `count` occurs exactly once.
pub open spec fn is_arrangement(order: Seq<usize>, count: int) -> bool {
    &&& order.len() == count
    &&& order.no_duplicates()
    &&& forall|i: int| 0 <= i < order.len() ==> #[trigger] order[i] < count
}

/// The names at the given positions.
pub open spec fn arranged(names: Seq<NameView>, order: Seq<usize>) -> Seq<NameView> {
    Seq::new(order.len(), |i: int| names[order[i] as int])
}

/// Gives the positions of names in ascending order.
pub fn order_by_name(names: &Vec<&QualifiedName>) -> (r: Vec<usize>)
    ensures
        is_arrangement(r@, names@.len() as int),
        never_descending(arranged(names_of(names@), r@)),
{
    let ghost all = names_of(names@);
    let mut order: Vec<usize> = Vec::new();
    let mut i: usize = 0;
    while i < names.len()
        invariant
            i <= names.len(),
            all == names_of(names@),
            is_arrangement(order@, i as int),
            never_descending(arranged(all, order@)),
        decreases names.len() - i,
    {
        let ghost before = order@;
        let mut at: usize = order.len();
        while at > 0 && is_name_less(names[i], names[order[at - 1]])
            invariant
                at <= order.len(),
                i < names.len(),
                order@ == before,
                all == names_of(names@),
                is_arrangement(before, i as int),
                forall|k: int| at <= k < before.len() ==> name_less(all[i as int], #[trigger] all[before[k] as int]),
            decreases at,
        {
            at = at - 1;
        }
        order.insert(at, i);
        proof {
            let sorted = arranged(all, before);
            let after = order@;
            lemma_insertion_arranges(before, i as int, at as int);
            let result = arranged(all, after);
            assert forall|a: int, b: int| 0 <= a < b < result.len() implies !name_less(
                #[trigger] result[b],
                #[trigger] result[a],
            ) by {
                let x = if a < at { a } else { a - 1 };
                let y = if b < at { b } else { b - 1 };
                if a != at && b != at {
                    assert(result[a] == sorted[x]);
                    assert(result[b] == sorted[y]);
                } else if a == at {
                    assert(result[b] == all[before[y] as int]);
                    assert(name_less(all[i as int], all[before[y] as int]));
                    lemma_name_asymmetric(all[i as int], all[before[y] as int]);
                } else {
                    assert(at > 0);
                    let last = all[before[at - 1] as int];
                    assert(!name_less(all[i as int], last));
                    assert(result[a] == sorted[a]);
                    if name_less(all[i as int], sorted[a]) {
                        if a < at - 1 {
                            assert(!name_less(sorted[at - 1], sorted[a]));
                            assert(sorted[at - 1] == last);
                            if sorted[a] != last {
                                lemma_name_total(sorted[a], last);
                                lemma_name_transitive(all[i as int], sorted[a], last);
                            }
                        }
                    }
                }
            }
        }
        i = i + 1;
    }
    order
}

/// Each member stands before all later ones.
pub open spec fn sorted_by<A>(list: Seq<A>, less: spec_fn(A, A) -> bool) -> bool {
    forall|i: int, j: int|
        0 <= i < j < list.len() ==> less(#[trigger] list[i], #[trigger] list[j])
}

/// No two members stand before each other.
pub open spec fn one_way<A>(less: spec_fn(A, A) -> bool) -> bool {
    forall|x: A, y: A| #[trigger] less(x, y) ==> !less(y, x)
}

/// Two lists in strictly ascending order with the same members are the same.
pub proof fn law_sorted_order_is_unique<A>(a: Seq<A>, b: Seq<A>, less: spec_fn(A, A) -> bool)
    requires
        one_way(less),
        sorted_by(a, less),
        sorted_by(b, less),
        forall|n: A| #[trigger] a.contains(n) <==> b.contains(n),
    ensures
        a == b,
    decreases a.len(),
{
    if a.len() == 0 {
        if b.len() > 0 {
            assert(b.contains(b[0]));
            assert(a.contains(b[0]));
        }
        assert(a =~= b);
    } else {
        assert(a.contains(a.last()));
        assert(b.len() > 0);
        assert(b.contains(b.last()));
        assert(a.contains(b.last()));
        let i = choose|i: int| 0 <= i < b.len() && b[i] == a.last();
        let j = choose|j: int| 0 <= j < a.len() && a[j] == b.last();
        if a.last() != b.last() {
            assert(less(b[i], b[b.len() - 1]));
            assert(less(a[j], a[a.len() - 1]));
            assert(less(a.last(), b.last()));
            assert(less(b.last(), a.last()));
        }
        let x = a.drop_last();
        let y = b.drop_last();
        assert forall|n: A| #[trigger] x.contains(n) <==> y.contains(n) by {
            if x.contains(n) {
                let k = choose|k: int| 0 <= k < x.len() && x[k] == n;
                assert(a[k] == n);
                assert(less(a[k], a[a.len() - 1]));
                assert(a.contains(n));
                let m = choose|m: int| 0 <= m < b.len() && b[m] == n;
                if m == b.len() - 1 {
                    assert(less(n, n));
                }
                assert(y[m] == n);
            }
            if y.contains(n) {
                let k = choose|k: int| 0 <= k < y.len() && y[k] == n;
                assert(b[k] == n);
                assert(less(b[k], b[b.len() - 1]));
                assert(b.contains(n));
                assert(a.contains(n));
                let m = choose|m: int| 0 <= m < a.len() && a[m] == n;
                if m == a.len() - 1 {
                    assert(less(n, n));
                }
                assert(x[m] == n);
            }
        }
        assert forall|p: int, q: int| 0 <= p < q < x.len() implies less(
            #[trigger] x[p],
            #[trigger] x[q],
        ) by {
            assert(less(a[p], a[q]));
        }
        assert forall|p: int, q: int| 0 <= p < q < y.len() implies less(
            #[trigger] y[p],
            #[trigger] y[q],
        ) by {
            assert(less(b[p], b[q]));
        }
        law_sorted_order_is_unique(x, y, less);
        assert(a =~= x.push(a.last()));
        assert(b =~= y.push(b.last()));
    }
}

/// Two lists of names in strictly ascending order with the same members are the same.
pub proof fn law_ascending_order_is_unique(a: Seq<NameView>, b: Seq<NameView>)
    requires
        ascending(a),
        ascending(b),
        forall|n: NameView| #[trigger] a.contains(n) <==> b.contains(n),
    ensures
        a == b,
{
    let less = |x: NameView, y: NameView| name_less(x, y);
    assert forall|x: NameView, y: NameView| #[trigger] less(x, y) implies !less(y, x) by {
        lemma_name_asymmetric(x, y);
    }
    assert(sorted_by(a, less));
    assert(sorted_by(b, less));
    law_sorted_order_is_unique(a, b, less);
}

/// No later number is smaller than an earlier one.
pub open spec fn never_falling(numbers: Seq<i64>) -> bool {
    forall|i: int, j: int|
        0 <= i < j < numbers.len() ==> #[trigger] numbers[i] <= #[trigger] numbers[j]
}

/// The numbers at the given positions.
pub open spec fn numbers_at(numbers: Seq<i64>, order: Seq<usize>) -> Seq<i64> {
    Seq::new(order.len(), |i: int| numbers[order[i] as int])
}

/// Gives the positions of numbers in ascending order.
pub fn order_by_number(numbers: &Vec<i64>) -> (r: Vec<usize>)
    ensures
        is_arrangement(r@, numbers@.len() as int),
        never_falling(numbers_at(numbers@, r@)),
{
    let ghost all = numbers@;
    let mut order: Vec<usize> = Vec::new();
    let mut i: usize = 0;
    while i < numbers.len()
        invariant
            i <= numbers.len(),
            all == numbers@,
            is_arrangement(order@, i as int),
            never_falling(numbers_at(all, order@)),
        decreases numbers.len() - i,
    {
        let ghost before = order@;
        let mut at: usize = order.len();
        while at > 0 && numbers[i] < numbers[order[at - 1]]
            invariant
                at <= order.len(),
                i < numbers.len(),
                order@ == before,
                all == numbers@,
                is_arrangement(before, i as int),
                forall|k: int| at <= k < before.len() ==> all[i as int] < #[trigger] all[before[k] as int],
            decreases at,
        {
            at = at - 1;
        }
        order.insert(at, i);
        proof {
            let sorted = numbers_at(all, before);
            let after = order@;
            lemma_insertion_arranges(before, i as int, at as int);
            assert(after =~= before.insert(at as int, i));
            let result = numbers_at(all, after);
            assert forall|a: int, b: int| 0 <= a < b < result.len() implies #[trigger] result[a]
                <= #[trigger] result[b] by {
                let x = if a < at { a } else { a - 1 };
                let y = if b < at { b } else { b - 1 };
                if a != at && b != at {
                    assert(result[a] == sorted[x]);
                    assert(result[b] == sorted[y]);
                } else if a == at {
                    assert(result[b] == all[before[y] as int]);
                } else {
                    assert(at > 0);
                    let last = all[before[at - 1] as int];
                    assert(last <= all[i as int]);
                    assert(result[a] == sorted[a]);
                    assert(sorted[at - 1] == last);
                }
            }
        }
        i = i + 1;
    }
    order
}

proof fn lemma_insertion_arranges(before: Seq<usize>, count: int, at: int)
    requires
        is_arrangement(before, count),
        0 <= at <= count < usize::MAX,
    ensures
        is_arrangement(before.insert(at, count as usize), count + 1),
{
    let after = before.insert(at, count as usize);
    assert forall|k: int| 0 <= k < after.len() implies #[trigger] after[k] < count + 1 by {
        if k < at {
            assert(after[k] == before[k]);
        } else if k > at {
            assert(after[k] == before[k - 1]);
        }
    }
    assert(after.no_duplicates()) by {
        assert forall|a: int, b: int|
            0 <= a < after.len() && 0 <= b < after.len() && a != b implies after[a] != after[b] by {
            let x = if a < at { a } else { a - 1 };
            let y = if b < at { b } else { b - 1 };
            if a != at {
                assert(after[a] == before[x]);
            }
            if b != at {
                assert(after[b] == before[y]);
            }
            if a != at && b != at {
                assert(before[x] != before[y]);
            }
        }
    }
}

/// An arrangement reaches every position.
pub proof fn lemma_arrangement_covers(order: Seq<usize>, count: int, position: int)
    requires
        is_arrangement(order, count),
        0 <= position < count,
    ensures
        exists|i: int| 0 <= i < order.len() && #[trigger] order[i] == position,
{
    let range = vstd::set_lib::set_int_range(0, count);
    vstd::set_lib::lemma_int_range(0, count);
    let spots = Seq::new(order.len(), |i: int| order[i] as int);
    assert(spots.no_duplicates()) by {
        assert forall|a: int, b: int|
            0 <= a < spots.len() && 0 <= b < spots.len() && a != b implies spots[a]
            != spots[b] by {
            assert(order[a] != order[b]);
        }
    }
    spots.unique_seq_to_set();
    assert(spots.to_set().subset_of(range)) by {
        assert forall|p: int| spots.to_set().contains(p) implies range.contains(p) by {
            let k = choose|k: int| 0 <= k < spots.len() && spots[k] == p;
            assert(order[k] < count);
        }
    }
    vstd::set_lib::lemma_subset_equality(spots.to_set(), range);
    assert(range.contains(position));
    assert(spots.to_set().contains(position));
    assert(spots.contains(position));
    let k = choose|k: int| 0 <= k < spots.len() && spots[k] == position;
    assert(order[k] == position);
}

/// Names are in order by their schemas first, and by their own parts where the schemas are the same.
pub proof fn law_name_order(a: NameView, b: NameView)
    ensures
        a.schema == b.schema ==> (name_less(a, b) <==> text_less(a.name, b.name)),
        a.schema != b.schema ==> (name_less(a, b) <==> text_less(a.schema, b.schema)),
{
    crate::text::law_text_order(a.schema, a.schema, a.schema.len() as int);
}

} // verus!
