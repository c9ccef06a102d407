//! Tables of text: rows with a key, and rows of whole numbers.

use crate::text::{parse_u64, texts, u64_of};
use vstd::prelude::*;

verus! {

/// The entries that the rows of a text give. A row may give none; of several
/// for one key the last one counts.
pub open spec fn gathered<W>(
    rows: Seq<Seq<char>>,
    entry: spec_fn(Seq<char>) -> Option<(Seq<char>, W)>,
) -> Map<Seq<char>, W>
    decreases rows.len(),
{
    if rows.len() == 0 {
        Map::empty()
    } else {
        match entry(rows.last()) {
            Some((k, w)) => gathered(rows.drop_last(), entry).insert(k, w),
            None => gathered(rows.drop_last(), entry),
        }
    }
}

/// What one more row adds.
pub proof fn lemma_gathered<W>(
    rows: Seq<Seq<char>>,
    i: int,
    entry: spec_fn(Seq<char>) -> Option<(Seq<char>, W)>,
)
    requires
        0 <= i < rows.len(),
    ensures
        gathered(rows.take(i + 1), entry) == (match entry(rows[i]) {
            Some((k, w)) => gathered(rows.take(i), entry).insert(k, w),
            None => gathered(rows.take(i), entry),
        }),
{
    assert(rows.take(i + 1).drop_last() =~= rows.take(i));
}

/// The lists that `f` gives for the elements of `s`, one behind the other.
pub open spec fn flat<A, B>(s: Seq<A>, f: spec_fn(A) -> Seq<B>) -> Seq<B>
    decreases s.len(),
{
    if s.len() == 0 {
        seq![]
    } else {
        flat(s.drop_last(), f) + f(s.last())
    }
}

/// What one more element adds.
pub proof fn lemma_flat<A, B>(s: Seq<A>, i: int, f: spec_fn(A) -> Seq<B>)
    requires
        0 <= i < s.len(),
    ensures
        flat(s.take(i + 1), f) == flat(s.take(i), f) + f(s[i]),
{
    assert(s.take(i + 1).drop_last() =~= s.take(i));
}

/// What holds of each element of each list holds of all of them together.
pub proof fn lemma_flat_all<A, B>(s: Seq<A>, f: spec_fn(A) -> Seq<B>, holds: spec_fn(B) -> bool)
    requires
        forall|a: A, i: int| 0 <= i < f(a).len() ==> holds(#[trigger] f(a)[i]),
    ensures
        forall|i: int| 0 <= i < flat(s, f).len() ==> holds(#[trigger] flat(s, f)[i]),
    decreases s.len(),
{
    if s.len() > 0 {
        lemma_flat_all(s.drop_last(), f, holds);
        let before = flat(s.drop_last(), f);
        let more = f(s.last());
        assert forall|i: int| 0 <= i < flat(s, f).len() implies holds(#[trigger] flat(s, f)[i]) by {
            if i < before.len() {
                assert(flat(s, f)[i] == before[i]);
            } else {
                assert(flat(s, f)[i] == more[i - before.len()]);
            }
        }
    }
}

/// What is left of a list behind its first `n` elements.
pub open spec fn behind<A>(s: Seq<A>, n: int) -> Seq<A> {
    if n <= s.len() {
        s.skip(n)
    } else {
        seq![]
    }
}

/// The numbers that the fields write, if each of them writes one.
pub open spec fn numbers_of(fields: Seq<Seq<char>>) -> Option<Seq<u64>> {
    if forall|i: int| 0 <= i < fields.len() ==> u64_of(#[trigger] fields[i]) is Some {
        Some(Seq::new(fields.len(), |i: int| u64_of(fields[i])->0))
    } else {
        None
    }
}

/// The content of an optional list of numbers.
pub open spec fn optional_list(v: Option<Vec<u64>>) -> Option<Seq<u64>> {
    match v {
        Some(x) => Some(x@),
        None => None,
    }
}

/// The numbers that the fields from the one at `from` on write.
pub fn numbers(fields: &Vec<String>, from: usize) -> (r: Option<Vec<u64>>)
    requires
        from <= fields@.len(),
    ensures
        optional_list(r) == numbers_of(texts(fields@).skip(from as int)),
{
    let ghost rest = texts(fields@).skip(from as int);
    let mut out: Vec<u64> = Vec::new();
    let mut i: usize = from;
    while i < fields.len()
        invariant
            from <= i <= fields@.len(),
            rest == texts(fields@).skip(from as int),
            out@.len() == i - from,
            forall|j: int|
                0 <= j < i - from ==> u64_of(#[trigger] rest[j]) == Some(out@[j]),
        decreases fields@.len() - i,
    {
        assert(rest[i - from] == fields@[i as int]@);
        match parse_u64(fields[i].as_str()) {
            Some(v) => {
                out.push(v);
            },
            None => {
                return None;
            },
        }
        i += 1;
    }
    assert(out@ =~= numbers_of(rest)->0);
    Some(out)
}

/// The sum of a list of numbers.
pub open spec fn sum_of(s: Seq<u64>) -> nat
    decreases s.len(),
{
    if s.len() == 0 {
        0
    } else {
        sum_of(s.drop_last()) + s.last() as nat
    }
}

/// A part of a list sums up to no more than the whole.
pub proof fn lemma_sum_of(s: Seq<u64>, i: int)
    requires
        0 <= i <= s.len(),
    ensures
        sum_of(s.take(i)) <= sum_of(s),
    decreases s.len() - i,
{
    if i < s.len() {
        lemma_sum_of(s, i + 1);
        assert(s.take(i + 1).drop_last() =~= s.take(i));
    } else {
        assert(s.take(i) =~= s);
    }
}

/// The sum of a list of numbers, if it is in range.
pub fn sum(s: &Vec<u64>) -> (r: Option<u64>)
    ensures
        r is Some == (sum_of(s@) <= u64::MAX),
        r matches Some(n) ==> n == sum_of(s@),
{
    let mut total: u64 = 0;
    let mut i: usize = 0;
    while i < s.len()
        invariant
            i <= s@.len(),
            total == sum_of(s@.take(i as int)),
        decreases s@.len() - i,
    {
        proof {
            assert(s@.take(i + 1).drop_last() =~= s@.take(i as int));
            lemma_sum_of(s@, i + 1);
        }
        match total.checked_add(s[i]) {
            Some(n) => {
                total = n;
            },
            None => {
                return None;
            },
        }
        i += 1;
    }
    assert(s@.take(i as int) =~= s@);
    Some(total)
}

/// Two parts of a list give what they give one after the other.
pub proof fn lemma_flat_joined<A, B>(s: Seq<A>, t: Seq<A>, f: spec_fn(A) -> Seq<B>)
    ensures
        flat(s + t, f) == flat(s, f) + flat(t, f),
    decreases t.len(),
{
    if t.len() == 0 {
        assert(s + t =~= s);
        assert(flat(s, f) + flat(t, f) =~= flat(s, f));
    } else {
        assert((s + t).drop_last() =~= s + t.drop_last());
        lemma_flat_joined(s, t.drop_last(), f);
        assert(flat(s + t, f) =~= flat(s, f) + flat(t, f));
    }
}

/// The elements of a list of lists do not depend on the order of the lists.
pub proof fn lemma_flat_reordered<A, B>(s: Seq<A>, t: Seq<A>, f: spec_fn(A) -> Seq<B>)
    requires
        s.to_multiset() == t.to_multiset(),
    ensures
        flat(s, f).to_multiset() == flat(t, f).to_multiset(),
    decreases s.len(),
{
    broadcast use vstd::seq_lib::group_to_multiset_ensures;

    vstd::seq_lib::to_multiset_len(s);
    vstd::seq_lib::to_multiset_len(t);
    if s.len() > 0 {
        let a = s.last();
        assert(s.contains(a));
        assert(t.to_multiset().count(a) > 0);
        let i = choose|i: int| 0 <= i < t.len() && t[i] == a;
        let u = t.take(i);
        let v = t.skip(i + 1);
        assert(s.remove(s.len() - 1) =~= s.drop_last());
        assert(t.remove(i) =~= u + v);
        lemma_flat_reordered(s.drop_last(), u + v, f);
        lemma_flat_joined(u, v, f);
        assert(t =~= u + seq![a] + v);
        lemma_flat_joined(u + seq![a], v, f);
        lemma_flat_joined(u, seq![a], f);
        assert(flat(seq![a], f) =~= f(a)) by {
            reveal_with_fuel(flat, 2);
        }
        vstd::seq_lib::lemma_multiset_commutative(flat(s.drop_last(), f), f(a));
        vstd::seq_lib::lemma_multiset_commutative(flat(u, f) + f(a), flat(v, f));
        vstd::seq_lib::lemma_multiset_commutative(flat(u, f), f(a));
        vstd::seq_lib::lemma_multiset_commutative(flat(u, f), flat(v, f));
        assert(flat(s, f).to_multiset() =~= flat(t, f).to_multiset());
    } else {
        assert(s =~= t);
    }
}

/// The images of elements do not depend on the order of the elements.
pub proof fn lemma_mapped_reordered<A, B>(s: Seq<A>, t: Seq<A>, f: spec_fn(A) -> B)
    requires
        s.to_multiset() == t.to_multiset(),
    ensures
        s.map_values(f).to_multiset() == t.map_values(f).to_multiset(),
{
    let g = |a: A| seq![f(a)];
    lemma_flat_reordered(s, t, g);
    lemma_flat_of_ones(s, f, g);
    lemma_flat_of_ones(t, f, g);
}

proof fn lemma_flat_of_ones<A, B>(s: Seq<A>, f: spec_fn(A) -> B, g: spec_fn(A) -> Seq<B>)
    requires
        forall|a: A| #[trigger] g(a) == seq![f(a)],
    ensures
        flat(s, g) == s.map_values(f),
    decreases s.len(),
{
    if s.len() > 0 {
        lemma_flat_of_ones(s.drop_last(), f, g);
    }
    assert(flat(s, g) =~= s.map_values(f));
}

/// No two elements compete.
pub open spec fn apart<A>(s: Seq<A>, compete: spec_fn(A, A) -> bool) -> bool {
    forall|i: int, j: int|
        0 <= i < j < s.len() ==> !compete(#[trigger] s[i], #[trigger] s[j])
}

/// Whether elements compete does not depend on their order.
pub proof fn lemma_apart_reordered<A>(s: Seq<A>, t: Seq<A>, compete: spec_fn(A, A) -> bool)
    requires
        s.to_multiset() == t.to_multiset(),
        forall|a: A| #[trigger] compete(a, a),
        forall|a: A, b: A| #[trigger] compete(a, b) ==> compete(b, a),
        apart(s, compete),
    ensures
        apart(t, compete),
{
    broadcast use vstd::seq_lib::group_to_multiset_ensures;

    assert(s.no_duplicates()) by {
        assert forall|i: int, j: int| 0 <= i < s.len() && 0 <= j < s.len() && i != j implies s[i]
            != s[j] by {
            assert(compete(s[i], s[i]));
            if i < j {
                assert(!compete(s[i], s[j]));
            } else {
                assert(!compete(s[j], s[i]));
            }
        }
    }
    s.lemma_multiset_has_no_duplicates();
    t.lemma_multiset_has_no_duplicates_conv();
    assert forall|i: int, j: int| 0 <= i < j < t.len() implies !compete(
        #[trigger] t[i],
        #[trigger] t[j],
    ) by {
        assert(t.contains(t[i]) && t.contains(t[j]));
        assert(s.to_multiset().count(t[i]) > 0 && s.to_multiset().count(t[j]) > 0);
        let p = choose|p: int| 0 <= p < s.len() && s[p] == t[i];
        let q = choose|q: int| 0 <= q < s.len() && s[q] == t[j];
        assert(t[i] != t[j]);
        if p < q {
            assert(!compete(s[p], s[q]));
        } else {
            assert(!compete(s[q], s[p]));
            if compete(t[i], t[j]) {
                assert(compete(t[j], t[i]));
            }
        }
    }
}

/// What is in a list of lists is in one of the lists, and the other way round.
pub proof fn lemma_flat_members<A, B>(s: Seq<A>, f: spec_fn(A) -> Seq<B>, b: B)
    ensures
        flat(s, f).contains(b) <==> exists|i: int|
            0 <= i < s.len() && f(#[trigger] s[i]).contains(b),
    decreases s.len(),
{
    if s.len() > 0 {
        let rest = s.drop_last();
        lemma_flat_members(rest, f, b);
        let all = flat(rest, f) + f(s.last());
        if flat(rest, f).contains(b) {
            let i = choose|i: int| 0 <= i < rest.len() && f(#[trigger] rest[i]).contains(b);
            assert(s[i] == rest[i]);
            let k = choose|k: int| 0 <= k < flat(rest, f).len() && flat(rest, f)[k] == b;
            assert(all[k] == b);
        }
        if f(s.last()).contains(b) {
            let last = f(s.last());
            let k = choose|k: int| 0 <= k < last.len() && #[trigger] last[k] == b;
            assert(all[flat(rest, f).len() + k] == b);
            assert(f(s[s.len() - 1]).contains(b));
        }
        if all.contains(b) {
            let k = choose|k: int| 0 <= k < all.len() && all[k] == b;
            if k < flat(rest, f).len() {
                assert(flat(rest, f)[k] == b);
            } else {
                assert(f(s.last())[k - flat(rest, f).len()] == b);
            }
        }
        if exists|i: int| 0 <= i < s.len() && f(#[trigger] s[i]).contains(b) {
            let i = choose|i: int| 0 <= i < s.len() && f(#[trigger] s[i]).contains(b);
            if i < rest.len() {
                assert(rest[i] == s[i]);
            } else {
                assert(s[i] == s.last());
            }
        }
    }
}

/// A row has an entry for a key.
pub open spec fn gives<W>(
    row: Seq<char>,
    entry: spec_fn(Seq<char>) -> Option<(Seq<char>, W)>,
    k: Seq<char>,
) -> bool {
    entry(row) matches Some((key, _)) && key == k
}

/// A key has the value that the last row with it gives; one that no row gives
/// has none.
pub proof fn law_the_last_row_counts<W>(
    rows: Seq<Seq<char>>,
    entry: spec_fn(Seq<char>) -> Option<(Seq<char>, W)>,
    k: Seq<char>,
    i: int,
)
    ensures
        (forall|j: int| 0 <= j < rows.len() ==> !gives(#[trigger] rows[j], entry, k)) ==> !gathered(
            rows,
            entry,
        ).contains_key(k),
        0 <= i < rows.len() && gives(rows[i], entry, k) && (forall|j: int|
            i < j < rows.len() ==> !gives(#[trigger] rows[j], entry, k)) ==> gathered(
            rows,
            entry,
        ).contains_key(k) && entry(rows[i]) == Some((k, gathered(rows, entry)[k])),
    decreases rows.len(),
{
    if rows.len() > 0 {
        let rest = rows.drop_last();
        law_the_last_row_counts(rest, entry, k, i);
        assert(rows.last() == rows[rows.len() - 1]);
        if forall|j: int| 0 <= j < rows.len() ==> !gives(#[trigger] rows[j], entry, k) {
            assert forall|j: int| 0 <= j < rest.len() implies !gives(
                #[trigger] rest[j],
                entry,
                k,
            ) by {
                assert(rest[j] == rows[j]);
            }
            assert(!gives(rows[rows.len() - 1], entry, k));
        }
        if 0 <= i < rest.len() && gives(rows[i], entry, k) && (forall|j: int|
            i < j < rows.len() ==> !gives(#[trigger] rows[j], entry, k)) {
            assert(rest[i] == rows[i]);
            assert forall|j: int| i < j < rest.len() implies !gives(
                #[trigger] rest[j],
                entry,
                k,
            ) by {
                assert(rest[j] == rows[j]);
            }
            assert(!gives(rows[rows.len() - 1], entry, k));
        }
    }
}

/// The sum of two lists one behind the other is that of both, and the sum of
/// one number is the number.
pub proof fn law_sums_add_up(a: Seq<u64>, b: Seq<u64>, n: u64)
    ensures
        sum_of(a + b) == sum_of(a) + sum_of(b),
        sum_of(seq![n]) == n,
        sum_of(Seq::<u64>::empty()) == 0,
    decreases b.len(),
{
    reveal_with_fuel(sum_of, 2);
    assert(seq![n].drop_last() =~= Seq::<u64>::empty());
    if b.len() == 0 {
        assert(a + b =~= a);
    } else {
        assert((a + b).drop_last() =~= a + b.drop_last());
        law_sums_add_up(a, b.drop_last(), n);
    }
}

/// The numbers of some fields are those that the fields write, all of them or
/// none.
pub proof fn law_numbers_are_those_of_the_fields(fields: Seq<Seq<char>>, i: int)
    ensures
        numbers_of(fields) matches Some(v) ==> v.len() == fields.len() && (0 <= i < fields.len()
            ==> u64_of(fields[i]) == Some(v[i])),
        0 <= i < fields.len() && u64_of(fields[i]) is None ==> numbers_of(fields) is None,
{
}

} // verus!
