//! Ordering by name: the order that `str` has, stable sorting, and sorted lists in
//! which no name occurs twice.
use crate::text;
use crate::text::{chars_of, same};
use vstd::prelude::*;

verus! {

/// Lexicographic order by character, which is the order of `str`.
pub open spec fn text_le(a: Seq<char>, b: Seq<char>) -> bool
    decreases a.len(),
{
    if a.len() == 0 {
        true
    } else if b.len() == 0 {
        false
    } else if a[0] == b[0] {
        text_le(a.skip(1), b.skip(1))
    } else {
        a[0] < b[0]
    }
}

pub open spec fn text_lt(a: Seq<char>, b: Seq<char>) -> bool {
    text_le(a, b) && a != b
}

/// Any two texts are comparable.
pub proof fn text_le_total(a: Seq<char>, b: Seq<char>)
    ensures
        text_le(a, b) || text_le(b, a),
    decreases a.len(),
{
    if a.len() > 0 && b.len() > 0 && a[0] == b[0] {
        text_le_total(a.skip(1), b.skip(1));
    }
}

/// The order is transitive.
pub proof fn text_le_transitive(a: Seq<char>, b: Seq<char>, c: Seq<char>)
    requires
        text_le(a, b),
        text_le(b, c),
    ensures
        text_le(a, c),
    decreases a.len(),
{
    if a.len() > 0 && b.len() > 0 && c.len() > 0 && a[0] == b[0] && b[0] == c[0] {
        text_le_transitive(a.skip(1), b.skip(1), c.skip(1));
    }
}

/// Two texts each at most the other are equal.
pub proof fn text_le_antisymmetric(a: Seq<char>, b: Seq<char>)
    requires
        text_le(a, b),
        text_le(b, a),
    ensures
        a == b,
    decreases a.len(),
{
    if a.len() > 0 && b.len() > 0 {
        text_le_antisymmetric(a.skip(1), b.skip(1));
        assert(a =~= seq![a[0]] + a.skip(1));
        assert(b =~= seq![b[0]] + b.skip(1));
    } else {
        assert(a =~= b);
    }
}

/// Whether `a` is at most `b` in the order of `str`.
pub fn at_most(a: &str, b: &str) -> (result: bool)
    ensures
        result == text_le(a@, b@),
{
    let left = chars_of(a);
    let right = chars_of(b);
    let mut i: usize = 0;
    assert(a@.skip(0) =~= a@);
    assert(b@.skip(0) =~= b@);
    while i < left.len() && i < right.len()
        invariant
            left@ == a@,
            right@ == b@,
            i <= left@.len(),
            i <= right@.len(),
            text_le(a@, b@) == text_le(a@.skip(i as int), b@.skip(i as int)),
        decreases left@.len() - i,
    {
        if left[i] != right[i] {
            return left[i] < right[i];
        }
        assert(a@.skip(i as int).skip(1) =~= a@.skip(i + 1));
        assert(b@.skip(i as int).skip(1) =~= b@.skip(i + 1));
        i = i + 1;
    }
    i == left.len()
}

/// Something that has a name to be ordered by.
pub trait Named: Sized {
    spec fn name_view(&self) -> Seq<char>;

    fn name_text(&self) -> (name: &str)
        ensures
            name@ == self.name_view(),
    ;
}

/// The items of that name, in their order.
pub open spec fn named<T: Named>(items: Seq<T>, name: Seq<char>) -> Seq<T> {
    items.filter(|item: T| item.name_view() == name)
}

pub open spec fn sorted_by_name<T: Named>(items: Seq<T>) -> bool {
    forall|i: int, j: int|
        0 <= i <= j < items.len() ==> text_le(
            #[trigger] items[i].name_view(),
            #[trigger] items[j].name_view(),
        )
}

/// `output` holds the items of `input` ordered by name, and items of one name keep
/// the order that they had.
pub open spec fn is_stable_sort<T: Named>(input: Seq<T>, output: Seq<T>) -> bool {
    &&& sorted_by_name(output)
    &&& forall|name: Seq<char>| #[trigger] named(output, name) == named(input, name)
}

proof fn lemma_named_none<T: Named>(items: Seq<T>, name: Seq<char>)
    requires
        forall|i: int| 0 <= i < items.len() ==> (#[trigger] items[i]).name_view() != name,
    ensures
        named(items, name) == Seq::<T>::empty(),
    decreases items.len(),
{
    reveal(Seq::filter);
    if items.len() > 0 {
        assert forall|i: int| 0 <= i < items.drop_last().len() implies (
        #[trigger] items.drop_last()[i]).name_view() != name by {
            assert(items.drop_last()[i] == items[i]);
        }
        lemma_named_none(items.drop_last(), name);
        assert(items.last().name_view() != name);
    }
}

proof fn lemma_named_push<T: Named>(items: Seq<T>, item: T, name: Seq<char>)
    ensures
        named(items.push(item), name) == if item.name_view() == name {
            named(items, name).push(item)
        } else {
            named(items, name)
        },
{
    reveal(Seq::filter);
    assert(items.push(item).drop_last() =~= items);
}

proof fn lemma_named_insert<T: Named>(items: Seq<T>, at: int, item: T, name: Seq<char>)
    requires
        0 <= at <= items.len(),
        forall|i: int|
            at <= i < items.len() ==> (#[trigger] items[i]).name_view() != item.name_view(),
    ensures
        named(items.insert(at, item), name) == named(items.push(item), name),
{
    let head = items.take(at);
    let tail = items.skip(at);
    let pred = |t: T| t.name_view() == name;
    assert(items =~= head + tail);
    assert(items.insert(at, item) =~= head.push(item) + tail);
    Seq::filter_distributes_over_add(head, tail, pred);
    Seq::filter_distributes_over_add(head.push(item), tail, pred);
    lemma_named_push(items, item, name);
    lemma_named_push(head, item, name);
    if item.name_view() == name {
        assert forall|i: int| 0 <= i < tail.len() implies (#[trigger] tail[i]).name_view()
            != name by {
            assert(tail[i] == items[at + i]);
        }
        lemma_named_none(tail, name);
        assert(named(head, name) + named(tail, name) =~= named(head, name));
        assert(named(head.push(item), name) + named(tail, name) =~= named(head.push(item), name));
    }
}

/// Sorts by name; items of one name keep the order that they had.
pub fn sort_by_name<T: Named>(items: Vec<T>) -> (sorted: Vec<T>)
    ensures
        is_stable_sort(items@, sorted@),
{
    let ghost input = items@;
    let mut rest = items;
    let mut sorted: Vec<T> = Vec::new();
    let ghost mut taken: int = 0;
    assert(rest@ =~= input.skip(0));
    assert(sorted@ =~= input.take(0));
    while rest.len() > 0
        invariant
            0 <= taken <= input.len(),
            rest@ == input.skip(taken),
            is_stable_sort(input.take(taken), sorted@),
        decreases rest@.len(),
    {
        let item = rest.remove(0);
        let mut at: usize = sorted.len();
        while at > 0 && !at_most(sorted[at - 1].name_text(), item.name_text())
            invariant
                at <= sorted@.len(),
                sorted_by_name(sorted@),
                forall|i: int|
                    at <= i < sorted@.len() ==> !text_le(
                        (#[trigger] sorted@[i]).name_view(),
                        item.name_view(),
                    ),
            ensures
                at <= sorted@.len(),
                at == 0 || text_le(sorted@[at - 1].name_view(), item.name_view()),
                forall|i: int|
                    at <= i < sorted@.len() ==> !text_le(
                        (#[trigger] sorted@[i]).name_view(),
                        item.name_view(),
                    ),
            decreases at,
        {
            at = at - 1;
        }
        let ghost before = sorted@;
        sorted.insert(at, item);
        proof {
            lemma_insert_keeps_sorted(before, at as int, item);
            assert(input.take(taken + 1) =~= input.take(taken).push(item));
            assert forall|name: Seq<char>| #[trigger]
                named(sorted@, name) == named(input.take(taken + 1), name) by {
                text_le_reflexive(item.name_view());
                assert forall|i: int| at <= i < before.len() implies (
                #[trigger] before[i]).name_view() != item.name_view() by {}
                lemma_named_insert(before, at as int, item, name);
                lemma_named_push(before, item, name);
                lemma_named_push(input.take(taken), item, name);
                assert(named(before, name) == named(input.take(taken), name));
            }
            assert(rest@ =~= input.skip(taken + 1));
            taken = taken + 1;
        }
    }
    assert(input.take(taken) =~= input);
    sorted
}

/// Every text is at most itself.
pub proof fn text_le_reflexive(a: Seq<char>)
    ensures
        text_le(a, a),
    decreases a.len(),
{
    if a.len() > 0 {
        text_le_reflexive(a.skip(1));
    }
}

proof fn lemma_insert_keeps_sorted<T: Named>(items: Seq<T>, at: int, item: T)
    requires
        sorted_by_name(items),
        0 <= at <= items.len(),
        at == 0 || text_le(items[at - 1].name_view(), item.name_view()),
        forall|i: int|
            at <= i < items.len() ==> !text_le(
                (#[trigger] items[i]).name_view(),
                item.name_view(),
            ),
    ensures
        sorted_by_name(items.insert(at, item)),
{
    let grown = items.insert(at, item);
    assert forall|i: int, j: int| 0 <= i <= j < grown.len() implies text_le(
        #[trigger] grown[i].name_view(),
        #[trigger] grown[j].name_view(),
    ) by {
        text_le_reflexive(item.name_view());
        if i == at && j > at {
            text_le_total(items[j - 1].name_view(), item.name_view());
        } else if j == at && i < at {
            text_le_transitive(
                items[i].name_view(),
                items[at - 1].name_view(),
                item.name_view(),
            );
        } else if i != at && j != at {
            let a = if i < at { i } else { i - 1 };
            let b = if j < at { j } else { j - 1 };
            assert(grown[i] == items[a]);
            assert(grown[j] == items[b]);
        }
    }
}

/// A list of texts in strictly ascending order: sorted, and no text occurs twice.
pub open spec fn strictly_sorted(names: Seq<Seq<char>>) -> bool {
    forall|i: int, j: int|
        0 <= i < j < names.len() ==> text_lt(#[trigger] names[i], #[trigger] names[j])
}

/// The names of a list in ascending order, each of them once.
pub fn sorted_unique(names: &Vec<String>) -> (result: Vec<String>)
    ensures
        strictly_sorted(text::texts(result@)),
        forall|name: Seq<char>| #[trigger]
            text::texts(result@).contains(name) <==> text::texts(names@).contains(name),
{
    let mut result: Vec<String> = Vec::new();
    for k in 0..names.len()
        invariant
            strictly_sorted(text::texts(result@)),
            forall|name: Seq<char>| #[trigger]
                text::texts(result@).contains(name) <==> text::texts(names@).take(k as int).contains(name),
    {
        let mut at: usize = result.len();
        let name = names[k].clone();
        while at > 0 && !at_most(result[at - 1].as_str(), name.as_str())
            invariant
                at <= result@.len(),
                forall|i: int|
                    at <= i < result@.len() ==> !text_le(#[trigger] text::texts(result@)[i], name@),
            ensures
                at <= result@.len(),
                at == 0 || text_le(text::texts(result@)[at - 1], name@),
                forall|i: int|
                    at <= i < result@.len() ==> !text_le(#[trigger] text::texts(result@)[i], name@),
            decreases at,
        {
            at = at - 1;
        }
        let ghost before = text::texts(result@);
        let ghost earlier = text::texts(names@).take(k as int);
        proof {
            assert(text::texts(names@).take(k + 1) =~= earlier.push(name@));
            text::lemma_push_contains(earlier, name@);
        }
        if at > 0 && same(result[at - 1].as_str(), name.as_str()) {
            assert(before[at - 1] == name@);
            assert(before.contains(name@));
        } else {
            result.insert(at, name);
            proof {
                assert(text::texts(result@) =~= before.insert(at as int, name@));
                lemma_insert_keeps_strict(before, at as int, name@);
                lemma_contains_insert(before, at as int, name@);
            }
        }
    }
    assert(text::texts(names@).take(names@.len() as int) =~= text::texts(names@));
    result
}

proof fn lemma_contains_insert(names: Seq<Seq<char>>, at: int, name: Seq<char>)
    requires
        0 <= at <= names.len(),
    ensures
        forall|other: Seq<char>| #[trigger]
            names.insert(at, name).contains(other) <==> names.contains(other) || other == name,
{
    let grown = names.insert(at, name);
    assert forall|other: Seq<char>| #[trigger] grown.contains(other) <==> names.contains(other)
        || other == name by {
        if grown.contains(other) {
            let i = choose|i: int| 0 <= i < grown.len() && grown[i] == other;
            if i < at {
                assert(names[i] == other);
            } else if i > at {
                assert(names[i - 1] == other);
            }
        }
        if names.contains(other) {
            let i = choose|i: int| 0 <= i < names.len() && names[i] == other;
            assert(grown[if i < at { i } else { i + 1 }] == other);
        }
        if other == name {
            assert(grown[at] == other);
        }
    }
}

proof fn lemma_insert_keeps_strict(names: Seq<Seq<char>>, at: int, name: Seq<char>)
    requires
        strictly_sorted(names),
        0 <= at <= names.len(),
        at == 0 || text_lt(names[at - 1], name),
        forall|i: int| at <= i < names.len() ==> !text_le(#[trigger] names[i], name),
    ensures
        strictly_sorted(names.insert(at, name)),
{
    let grown = names.insert(at, name);
    assert forall|i: int, j: int| 0 <= i < j < grown.len() implies text_lt(
        #[trigger] grown[i],
        #[trigger] grown[j],
    ) by {
        text_le_reflexive(name);
        if i == at {
            text_le_total(names[j - 1], name);
        } else if j == at {
            if i < at - 1 {
                text_le_transitive(names[i], names[at - 1], name);
                if names[i] == name {
                    text_le_antisymmetric(names[at - 1], name);
                }
            }
        } else {
            let a = if i < at { i } else { i - 1 };
            let b = if j < at { j } else { j - 1 };
            assert(grown[i] == names[a]);
            assert(grown[j] == names[b]);
        }
    }
}

/// A strictly ascending list is determined by the names that it holds.
pub proof fn strictly_sorted_is_unique(a: Seq<Seq<char>>, b: Seq<Seq<char>>)
    requires
        strictly_sorted(a),
        strictly_sorted(b),
        forall|name: Seq<char>| #[trigger] a.contains(name) <==> b.contains(name),
    ensures
        a == b,
    decreases a.len(),
{
    if a.len() == 0 {
        if b.len() > 0 {
            assert(b.contains(b[0]) && !a.contains(b[0]));
        }
        assert(a =~= b);
    } else if b.len() == 0 {
        assert(a.contains(a[0]));
    } else {
        lemma_last_is_largest(a, b);
        lemma_last_is_largest(b, a);
        text_le_antisymmetric(a.last(), b.last());
        let short_a = a.drop_last();
        let short_b = b.drop_last();
        assert forall|name: Seq<char>| #[trigger] short_a.contains(name) <==> short_b.contains(
            name,
        ) by {
            text::lemma_push_contains(short_a, a.last());
            text::lemma_push_contains(short_b, b.last());
            assert(short_a.push(a.last()) =~= a);
            assert(short_b.push(b.last()) =~= b);
            assert(a.contains(name) <==> b.contains(name));
            if short_a.contains(name) {
                let i = choose|i: int| 0 <= i < short_a.len() && short_a[i] == name;
                assert(text_lt(a[i], a[a.len() - 1]));
            }
            if short_b.contains(name) {
                let i = choose|i: int| 0 <= i < short_b.len() && short_b[i] == name;
                assert(text_lt(b[i], b[b.len() - 1]));
            }
        }
        strictly_sorted_is_unique(short_a, short_b);
        assert(a =~= short_a.push(a.last()));
        assert(b =~= short_b.push(b.last()));
    }
}

proof fn lemma_last_is_largest(a: Seq<Seq<char>>, b: Seq<Seq<char>>)
    requires
        a.len() > 0,
        b.len() > 0,
        strictly_sorted(b),
        a.contains(a.last()) ==> b.contains(a.last()),
    ensures
        text_le(a.last(), b.last()),
{
    assert(a.contains(a[a.len() - 1]));
    let i = choose|i: int| 0 <= i < b.len() && b[i] == a.last();
    text_le_reflexive(b.last());
    if i < b.len() - 1 {
        assert(text_lt(b[i], b[b.len() - 1]));
    }
}

/// The items with that key, in their order.
pub open spec fn with_key<T>(
    items: Seq<T>,
    key: spec_fn(T) -> Seq<char>,
    name: Seq<char>,
) -> Seq<T> {
    items.filter(|item: T| key(item) == name)
}

pub open spec fn ascending_by<T>(items: Seq<T>, key: spec_fn(T) -> Seq<char>) -> bool {
    forall|i: int, j: int|
        0 <= i <= j < items.len() ==> text_le(key(#[trigger] items[i]), key(#[trigger] items[j]))
}

/// `output` holds the items of `input` ordered by key, and items of one key keep the
/// order that they had.
pub open spec fn sorts<T>(input: Seq<T>, output: Seq<T>, key: spec_fn(T) -> Seq<char>) -> bool {
    &&& ascending_by(output, key)
    &&& forall|name: Seq<char>| #[trigger]
        with_key(output, key, name) == with_key(input, key, name)
}

/// The items ordered by key; items of one key keep the order that they had.
pub open spec fn sorted_by_key<T>(items: Seq<T>, key: spec_fn(T) -> Seq<char>) -> Seq<T> {
    choose|output: Seq<T>| sorts(items, output, key)
}

proof fn lemma_with_key_push<T>(
    items: Seq<T>,
    item: T,
    key: spec_fn(T) -> Seq<char>,
    name: Seq<char>,
)
    ensures
        with_key(items.push(item), key, name) == if key(item) == name {
            with_key(items, key, name).push(item)
        } else {
            with_key(items, key, name)
        },
{
    reveal(Seq::filter);
    assert(items.push(item).drop_last() =~= items);
}

/// Where there is an item with a key, some item has that key.
proof fn lemma_with_key_found<T>(
    items: Seq<T>,
    key: spec_fn(T) -> Seq<char>,
    name: Seq<char>,
)
    ensures
        with_key(items, key, name).len() > 0 <==> exists|i: int|
            0 <= i < items.len() && key(#[trigger] items[i]) == name,
    decreases items.len(),
{
    if items.len() > 0 {
        let before = items.drop_last();
        lemma_with_key_found(before, key, name);
        assert(items =~= before.push(items.last()));
        lemma_with_key_push(before, items.last(), key, name);
        if exists|i: int| 0 <= i < before.len() && key(#[trigger] before[i]) == name {
            let i = choose|i: int| 0 <= i < before.len() && key(#[trigger] before[i]) == name;
            assert(key(items[i]) == name);
        }
        if key(items.last()) == name {
            assert(key(items[items.len() - 1]) == name);
        }
        if exists|i: int| 0 <= i < items.len() && key(#[trigger] items[i]) == name {
            let i = choose|i: int| 0 <= i < items.len() && key(#[trigger] items[i]) == name;
            if i < before.len() {
                assert(key(before[i]) == name);
            }
        }
    } else {
        reveal(Seq::filter);
    }
}

proof fn lemma_ascending_unique<T>(a: Seq<T>, b: Seq<T>, key: spec_fn(T) -> Seq<char>)
    requires
        ascending_by(a, key),
        ascending_by(b, key),
        forall|name: Seq<char>| #[trigger] with_key(a, key, name) == with_key(b, key, name),
    ensures
        a == b,
    decreases a.len(),
{
    if a.len() == 0 {
        if b.len() > 0 {
            lemma_with_key_found(b, key, key(b[0]));
            lemma_with_key_found(a, key, key(b[0]));
            assert(key(b[0]) == key(b[0]));
            assert(with_key(a, key, key(b[0])) == with_key(b, key, key(b[0])));
        }
        assert(a =~= b);
    } else {
        let top = key(a.last());
        lemma_with_key_found(a, key, top);
        lemma_with_key_found(b, key, top);
        assert(key(a[a.len() - 1]) == top);
        assert(with_key(a, key, top) == with_key(b, key, top));
        assert(b.len() > 0);
        let other = key(b.last());
        lemma_with_key_found(a, key, other);
        lemma_with_key_found(b, key, other);
        assert(key(b[b.len() - 1]) == other);
        assert(with_key(a, key, other) == with_key(b, key, other));
        let i = choose|i: int| 0 <= i < a.len() && key(#[trigger] a[i]) == other;
        let j = choose|j: int| 0 <= j < b.len() && key(#[trigger] b[j]) == top;
        assert(text_le(key(a[i]), key(a[a.len() - 1])));
        assert(text_le(key(b[j]), key(b[b.len() - 1])));
        text_le_antisymmetric(top, other);
        let fewer = a.drop_last();
        let others = b.drop_last();
        assert(a =~= fewer.push(a.last()));
        assert(b =~= others.push(b.last()));
        lemma_with_key_push(fewer, a.last(), key, top);
        lemma_with_key_push(others, b.last(), key, top);
        assert(a.last() == with_key(a, key, top).last());
        assert(b.last() == with_key(b, key, top).last());
        assert forall|name: Seq<char>| #[trigger]
            with_key(fewer, key, name) == with_key(others, key, name) by {
            lemma_with_key_push(fewer, a.last(), key, name);
            lemma_with_key_push(others, b.last(), key, name);
            assert(with_key(a, key, name) == with_key(b, key, name));
            if name == top {
                assert(with_key(a, key, name).drop_last() =~= with_key(fewer, key, name));
                assert(with_key(b, key, name).drop_last() =~= with_key(others, key, name));
            }
        }
        assert forall|i: int, j: int| 0 <= i <= j < fewer.len() implies text_le(
            key(#[trigger] fewer[i]),
            key(#[trigger] fewer[j]),
        ) by {
            assert(text_le(key(a[i]), key(a[j])));
        }
        assert forall|i: int, j: int| 0 <= i <= j < others.len() implies text_le(
            key(#[trigger] others[i]),
            key(#[trigger] others[j]),
        ) by {
            assert(text_le(key(b[i]), key(b[j])));
        }
        lemma_ascending_unique(fewer, others, key);
    }
}

/// There is one way to sort, so what sorts a list is the sorted list.
pub proof fn sorting_is_unique<T>(input: Seq<T>, output: Seq<T>, key: spec_fn(T) -> Seq<char>)
    requires
        sorts(input, output, key),
    ensures
        output == sorted_by_key(input, key),
{
    let chosen = sorted_by_key(input, key);
    assert(sorts(input, chosen, key));
    assert forall|name: Seq<char>| #[trigger]
        with_key(output, key, name) == with_key(chosen, key, name) by {
        assert(with_key(chosen, key, name) == with_key(input, key, name));
    }
    lemma_ascending_unique(output, chosen, key);
}

proof fn lemma_named_views<T: Named, U>(
    items: Seq<T>,
    view: spec_fn(T) -> U,
    key: spec_fn(U) -> Seq<char>,
    name: Seq<char>,
)
    requires
        forall|item: T| key(#[trigger] view(item)) == item.name_view(),
    ensures
        with_key(items.map_values(view), key, name) == named(items, name).map_values(view),
    decreases items.len(),
{
    if items.len() > 0 {
        let before = items.drop_last();
        let last = items.last();
        lemma_named_views(before, view, key, name);
        assert(items =~= before.push(last));
        assert(items.map_values(view) =~= before.map_values(view).push(view(last)));
        lemma_with_key_push(before.map_values(view), view(last), key, name);
        lemma_named_push(before, last, name);
        if last.name_view() == name {
            assert(named(items, name).map_values(view) =~= named(before, name).map_values(
                view,
            ).push(view(last)));
        }
    } else {
        reveal(Seq::filter);
        assert(with_key(items.map_values(view), key, name) =~= named(items, name).map_values(
            view,
        ));
    }
}

/// Items that were sorted by name look sorted by name, however they are looked at.
pub proof fn sorted_views<T: Named, U>(
    input: Seq<T>,
    output: Seq<T>,
    view: spec_fn(T) -> U,
    key: spec_fn(U) -> Seq<char>,
)
    requires
        is_stable_sort(input, output),
        forall|item: T| key(#[trigger] view(item)) == item.name_view(),
    ensures
        output.map_values(view) == sorted_by_key(input.map_values(view), key),
{
    let shown = output.map_values(view);
    assert forall|name: Seq<char>| #[trigger]
        with_key(shown, key, name) == with_key(input.map_values(view), key, name) by {
        lemma_named_views(output, view, key, name);
        lemma_named_views(input, view, key, name);
        assert(named(output, name) == named(input, name));
    }
    assert forall|i: int, j: int| 0 <= i <= j < shown.len() implies text_le(
        key(#[trigger] shown[i]),
        key(#[trigger] shown[j]),
    ) by {
        assert(key(view(output[i])) == output[i].name_view());
        assert(key(view(output[j])) == output[j].name_view());
        assert(text_le(output[i].name_view(), output[j].name_view()));
    }
    sorting_is_unique(input.map_values(view), shown, key);
}

/// Whether a list is strictly ascending and holds exactly the names of another.
pub open spec fn is_ascending_of(names: Seq<Seq<char>>, result: Seq<Seq<char>>) -> bool {
    strictly_sorted(result) && forall|name: Seq<char>| #[trigger]
        result.contains(name) <==> names.contains(name)
}

/// The names of a list in ascending order, each of them once.
pub open spec fn ascending(names: Seq<Seq<char>>) -> Seq<Seq<char>> {
    choose|result: Seq<Seq<char>>| is_ascending_of(names, result)
}

/// There is one way to order names strictly.
pub proof fn ascending_is_unique(names: Seq<Seq<char>>, result: Seq<Seq<char>>)
    requires
        is_ascending_of(names, result),
    ensures
        result == ascending(names),
{
    let chosen = ascending(names);
    assert(is_ascending_of(names, chosen));
    assert forall|name: Seq<char>| #[trigger] result.contains(name) <==> chosen.contains(name) by {}
    strictly_sorted_is_unique(result, chosen);
}

/// The position at which a name belongs in a strictly ascending list.
spec fn rank(names: Seq<Seq<char>>, name: Seq<char>) -> int
    decreases names.len(),
{
    if names.len() == 0 || text_le(names.last(), name) {
        names.len() as int
    } else {
        rank(names.drop_last(), name)
    }
}

proof fn lemma_rank(names: Seq<Seq<char>>, name: Seq<char>)
    ensures
        0 <= rank(names, name) <= names.len(),
        rank(names, name) == 0 || text_le(names[rank(names, name) - 1], name),
        forall|i: int|
            rank(names, name) <= i < names.len() ==> !text_le(#[trigger] names[i], name),
    decreases names.len(),
{
    if names.len() > 0 && !text_le(names.last(), name) {
        let before = names.drop_last();
        lemma_rank(before, name);
        assert forall|i: int| rank(names, name) <= i < names.len() implies !text_le(
            #[trigger] names[i],
            name,
        ) by {
            if i < before.len() {
                assert(before[i] == names[i]);
            }
        }
    }
}

/// Every list of names can be ordered strictly.
pub proof fn ascending_exists(names: Seq<Seq<char>>)
    ensures
        is_ascending_of(names, ascending(names)),
    decreases names.len(),
{
    if names.len() == 0 {
        assert(is_ascending_of(names, names));
    } else {
        let before = names.drop_last();
        let name = names.last();
        let sorted = ascending(before);
        ascending_exists(before);
        assert(names =~= before.push(name));
        text::lemma_push_contains(before, name);
        lemma_rank(sorted, name);
        let at = rank(sorted, name);
        if at > 0 && sorted[at - 1] == name {
            assert(sorted.contains(name));
            assert(is_ascending_of(names, sorted));
        } else {
            lemma_insert_keeps_strict(sorted, at, name);
            lemma_contains_insert(sorted, at, name);
            assert(is_ascending_of(names, sorted.insert(at, name)));
        }
    }
}

} // verus!
