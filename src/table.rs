//! Tables of rows keyed by a caller-supplied text identifier, and the
//! ordering of query results.

use vstd::prelude::*;
use vstd::multiset::Multiset;
use vstd::seq_lib::{to_multiset_build, to_multiset_insert};

use crate::text::text_eq;

verus! {

/// A row with a primary key.
pub trait Row: Sized {
    spec fn key(&self) -> Seq<char>;

    fn key_text(&self) -> (r: &str)
        ensures
            r@ == self.key(),
    ;
}

/// An order in which query results are returned (`ORDER BY`).
pub trait ListOrder: Sized {
    spec fn sorts_before(&self, other: &Self) -> bool;

    fn sorts_before_exec(&self, other: &Self) -> (r: bool)
        ensures
            r == self.sorts_before(other),
    ;

    proof fn lemma_sorts_total(a: &Self, b: &Self)
        ensures
            a.sorts_before(b) || b.sorts_before(a),
    ;

    proof fn lemma_sorts_trans(a: &Self, b: &Self, c: &Self)
        requires
            a.sorts_before(b),
            b.sorts_before(c),
        ensures
            a.sorts_before(c),
    ;
}

/// A row listed under the key of a parent row: its organization (the
/// tenant key), or for an invoice line item its invoice.
pub trait Scoped: Sized {
    spec fn scope(&self) -> Seq<char>;

    fn scope_text(&self) -> (r: &str)
        ensures
            r@ == self.scope(),
    ;
}

/// A row that can be copied field by field.
pub trait RowCopy: Sized {
    fn copy_row(&self) -> (r: Self)
        ensures
            r == *self,
    ;
}

/// The rows under parent key `parent`, in table order.
pub open spec fn of_scope<T: Scoped>(rows: Seq<T>, parent: Seq<char>) -> Seq<T>
    decreases rows.len(),
{
    if rows.len() == 0 {
        Seq::empty()
    } else {
        let rest = of_scope(rows.drop_last(), parent);
        if rows.last().scope() == parent {
            rest.push(rows.last())
        } else {
            rest
        }
    }
}

/// Every row selected under parent key `parent` carries that key.
pub proof fn lemma_of_scope_isolated<T: Scoped>(rows: Seq<T>, parent: Seq<char>)
    ensures
        forall|k: int| 0 <= k < of_scope(rows, parent).len() ==> #[trigger] of_scope(rows, parent)[k].scope() == parent,
    decreases rows.len(),
{
    if rows.len() > 0 {
        lemma_of_scope_isolated(rows.drop_last(), parent);
        let rest = of_scope(rows.drop_last(), parent);
        assert forall|k: int| 0 <= k < of_scope(rows, parent).len() implies #[trigger] of_scope(
            rows,
            parent,
        )[k].scope() == parent by {
            if k < rest.len() {
                assert(rest[k].scope() == parent);
            }
        }
    }
}

/// A rearrangement of rows that all carry key `parent` carries it too.
pub proof fn lemma_members_in_scope<T: Scoped>(r: Seq<T>, s: Seq<T>, parent: Seq<char>)
    requires
        r.to_multiset() == s.to_multiset(),
        forall|k: int| 0 <= k < s.len() ==> (#[trigger] s[k]).scope() == parent,
    ensures
        forall|i: int| 0 <= i < r.len() ==> (#[trigger] r[i]).scope() == parent,
{
    broadcast use vstd::seq_lib::group_to_multiset_ensures;

    assert forall|i: int| 0 <= i < r.len() implies (#[trigger] r[i]).scope() == parent by {
        assert(r.contains(r[i]));
        assert(r.to_multiset().count(r[i]) > 0);
        assert(s.contains(r[i]));
    }
}

/// Copies of the rows under parent key `parent`, in table order.
pub fn select_scope<T: Scoped + RowCopy>(rows: &Vec<T>, parent: &str) -> (r: Vec<T>)
    ensures
        r@ == of_scope(rows@, parent@),
{
    let mut out: Vec<T> = Vec::new();
    let mut i: usize = 0;
    assert(rows@.subrange(0, 0) =~= Seq::<T>::empty());
    while i < rows.len()
        invariant
            i <= rows@.len(),
            out@ == of_scope(rows@.subrange(0, i as int), parent@),
        decreases rows@.len() - i,
    {
        assert(rows@.subrange(0, i + 1).drop_last() =~= rows@.subrange(0, i as int));
        if text_eq(rows[i].scope_text(), parent) {
            out.push(rows[i].copy_row());
        }
        i = i + 1;
    }
    assert(rows@.subrange(0, rows@.len() as int) =~= rows@);
    out
}

/// The rows not under parent key `k`, in table order.
pub open spec fn outside_scope<T: Scoped>(rows: Seq<T>, k: Seq<char>) -> Seq<T>
    decreases rows.len(),
{
    if rows.len() == 0 {
        Seq::empty()
    } else {
        let rest = outside_scope(rows.drop_last(), k);
        if rows.last().scope() != k {
            rest.push(rows.last())
        } else {
            rest
        }
    }
}

pub proof fn lemma_of_scope_append<T: Scoped>(a: Seq<T>, b: Seq<T>, k: Seq<char>)
    ensures
        of_scope(a + b, k) == of_scope(a, k) + of_scope(b, k),
    decreases b.len(),
{
    if b.len() == 0 {
        assert(a + b =~= a);
        assert(of_scope(a, k) + of_scope(b, k) =~= of_scope(a, k));
    } else {
        lemma_of_scope_append(a, b.drop_last(), k);
        assert((a + b).drop_last() =~= a + b.drop_last());
        assert((a + b).last() == b.last());
        if b.last().scope() == k {
            assert(of_scope(a, k) + of_scope(b.drop_last(), k).push(b.last()) =~= (of_scope(a, k)
                + of_scope(b.drop_last(), k)).push(b.last()));
        }
    }
}

pub proof fn lemma_of_scope_none<T: Scoped>(a: Seq<T>, k: Seq<char>)
    requires
        forall|i: int| 0 <= i < a.len() ==> (#[trigger] a[i]).scope() != k,
    ensures
        of_scope(a, k) == Seq::<T>::empty(),
    decreases a.len(),
{
    if a.len() > 0 {
        lemma_of_scope_none(a.drop_last(), k);
    }
}

pub proof fn lemma_of_scope_all<T: Scoped>(a: Seq<T>, k: Seq<char>)
    requires
        forall|i: int| 0 <= i < a.len() ==> (#[trigger] a[i]).scope() == k,
    ensures
        of_scope(a, k) == a,
    decreases a.len(),
{
    if a.len() > 0 {
        lemma_of_scope_all(a.drop_last(), k);
        assert(a.drop_last().push(a.last()) =~= a);
    } else {
        assert(a =~= Seq::<T>::empty());
    }
}

pub proof fn lemma_outside_scope_none<T: Scoped>(a: Seq<T>, k: Seq<char>)
    requires
        forall|i: int| 0 <= i < a.len() ==> (#[trigger] a[i]).scope() != k,
    ensures
        outside_scope(a, k) == a,
    decreases a.len(),
{
    if a.len() > 0 {
        lemma_outside_scope_none(a.drop_last(), k);
        assert(a.drop_last().push(a.last()) =~= a);
    } else {
        assert(a =~= Seq::<T>::empty());
    }
}

/// What `outside_scope` keeps: rows of `a`, none under key `k`.
pub proof fn lemma_outside_scope_members<T: Scoped>(a: Seq<T>, k: Seq<char>)
    ensures
        forall|i: int|
            0 <= i < outside_scope(a, k).len() ==> (#[trigger] outside_scope(a, k)[i]).scope() != k
                && a.contains(outside_scope(a, k)[i]),
    decreases a.len(),
{
    if a.len() > 0 {
        lemma_outside_scope_members(a.drop_last(), k);
        let rest = outside_scope(a.drop_last(), k);
        assert forall|i: int| 0 <= i < outside_scope(a, k).len() implies (#[trigger] outside_scope(
            a,
            k,
        )[i]).scope() != k && a.contains(outside_scope(a, k)[i]) by {
            if i < rest.len() {
                assert(a.drop_last().contains(rest[i]));
                let j = choose|j: int| 0 <= j < a.drop_last().len() && a.drop_last()[j] == rest[i];
                assert(a[j] == rest[i]);
            } else {
                assert(a[a.len() - 1] == a.last());
            }
        }
    }
}

/// Copies of the rows not under parent key `k`, in table order.
pub fn select_outside_scope<T: Scoped + RowCopy>(rows: &Vec<T>, k: &str) -> (r: Vec<T>)
    ensures
        r@ == outside_scope(rows@, k@),
{
    let mut out: Vec<T> = Vec::new();
    let mut i: usize = 0;
    assert(rows@.subrange(0, 0) =~= Seq::<T>::empty());
    while i < rows.len()
        invariant
            i <= rows@.len(),
            out@ == outside_scope(rows@.subrange(0, i as int), k@),
        decreases rows@.len() - i,
    {
        assert(rows@.subrange(0, i + 1).drop_last() =~= rows@.subrange(0, i as int));
        if !text_eq(rows[i].scope_text(), k) {
            out.push(rows[i].copy_row());
        }
        i = i + 1;
    }
    assert(rows@.subrange(0, rows@.len() as int) =~= rows@);
    out
}

/// No two rows share a primary key.
pub open spec fn keys_unique<T: Row>(s: Seq<T>) -> bool {
    forall|i: int, j: int|
        0 <= i < s.len() && 0 <= j < s.len() && i != j ==> #[trigger] s[i].key() != #[trigger] s[j].key()
}

pub open spec fn has_key<T: Row>(s: Seq<T>, k: Seq<char>) -> bool {
    exists|i: int| 0 <= i < s.len() && #[trigger] s[i].key() == k
}

/// The position of the row with key `k` (meaningful when `has_key(s, k)`).
pub open spec fn index_of<T: Row>(s: Seq<T>, k: Seq<char>) -> int {
    choose|i: int| 0 <= i < s.len() && #[trigger] s[i].key() == k
}

/// The row with primary key `k`, if there is one.
pub open spec fn lookup<T: Row>(s: Seq<T>, k: Seq<char>) -> Option<T> {
    if has_key(s, k) {
        Some(s[index_of(s, k)])
    } else {
        None
    }
}

/// The rows are in the order `sorts_before`.
pub open spec fn sorted<T: ListOrder>(s: Seq<T>) -> bool {
    forall|i: int, j: int| 0 <= i < j < s.len() ==> #[trigger] s[i].sorts_before(&#[trigger] s[j])
}

pub proof fn lemma_index_of<T: Row>(s: Seq<T>, i: int)
    requires
        keys_unique(s),
        0 <= i < s.len(),
    ensures
        has_key(s, s[i].key()),
        index_of(s, s[i].key()) == i,
        lookup(s, s[i].key()) == Some(s[i]),
{
    assert(has_key(s, s[i].key()));
}

/// Appending a row with a fresh key.
pub proof fn lemma_lookup_push<T: Row>(s: Seq<T>, x: T)
    requires
        keys_unique(s),
        !has_key(s, x.key()),
    ensures
        keys_unique(s.push(x)),
        forall|k: Seq<char>|
            #[trigger] lookup(s.push(x), k) == if k == x.key() {
                Some(x)
            } else {
                lookup(s, k)
            },
{
    let t = s.push(x);
    assert forall|i: int, j: int|
        0 <= i < t.len() && 0 <= j < t.len() && i != j implies #[trigger] t[i].key()
        != #[trigger] t[j].key() by {
        if i < s.len() && j < s.len() {
            assert(t[i] == s[i] && t[j] == s[j]);
        } else if i < s.len() {
            assert(t[i] == s[i]);
        } else {
            assert(t[j] == s[j]);
        }
    }
    assert forall|k: Seq<char>|
        #[trigger] lookup(t, k) == if k == x.key() {
            Some(x)
        } else {
            lookup(s, k)
        } by {
        if k == x.key() {
            lemma_index_of(t, s.len() as int);
        } else if has_key(s, k) {
            let i = index_of(s, k);
            lemma_index_of(s, i);
            assert(t[i] == s[i]);
            lemma_index_of(t, i);
        } else {
            if has_key(t, k) {
                let i = index_of(t, k);
                assert(t[i] == s[i]);
            }
        }
    }
}

/// Replacing a row by one with the same key.
pub proof fn lemma_lookup_update<T: Row>(s: Seq<T>, i: int, x: T)
    requires
        keys_unique(s),
        0 <= i < s.len(),
        x.key() == s[i].key(),
    ensures
        keys_unique(s.update(i, x)),
        forall|k: Seq<char>|
            #[trigger] lookup(s.update(i, x), k) == if k == x.key() {
                Some(x)
            } else {
                lookup(s, k)
            },
{
    let t = s.update(i, x);
    assert forall|a: int, b: int|
        0 <= a < t.len() && 0 <= b < t.len() && a != b implies #[trigger] t[a].key()
        != #[trigger] t[b].key() by {
        assert(t[a].key() == s[a].key());
        assert(t[b].key() == s[b].key());
    }
    assert forall|k: Seq<char>|
        #[trigger] lookup(t, k) == if k == x.key() {
            Some(x)
        } else {
            lookup(s, k)
        } by {
        if k == x.key() {
            lemma_index_of(t, i);
        } else if has_key(s, k) {
            let j = index_of(s, k);
            lemma_index_of(s, j);
            assert(t[j] == s[j]);
            lemma_index_of(t, j);
        } else {
            if has_key(t, k) {
                let j = index_of(t, k);
                assert(t[j].key() == s[j].key());
            }
        }
    }
}

/// Removing the row at position `i`.
pub proof fn lemma_lookup_remove<T: Row>(s: Seq<T>, i: int)
    requires
        keys_unique(s),
        0 <= i < s.len(),
    ensures
        keys_unique(s.remove(i)),
        forall|k: Seq<char>|
            #[trigger] lookup(s.remove(i), k) == if k == s[i].key() {
                None
            } else {
                lookup(s, k)
            },
{
    let t = s.remove(i);
    assert forall|a: int, b: int|
        0 <= a < t.len() && 0 <= b < t.len() && a != b implies #[trigger] t[a].key()
        != #[trigger] t[b].key() by {
        let a2 = if a < i { a } else { a + 1 };
        let b2 = if b < i { b } else { b + 1 };
        assert(t[a] == s[a2]);
        assert(t[b] == s[b2]);
    }
    assert forall|k: Seq<char>|
        #[trigger] lookup(t, k) == if k == s[i].key() {
            None
        } else {
            lookup(s, k)
        } by {
        if has_key(t, k) {
            let j = index_of(t, k);
            let j2 = if j < i { j } else { j + 1 };
            assert(t[j] == s[j2]);
            lemma_index_of(s, j2);
            lemma_index_of(t, j);
        }
        if k != s[i].key() && has_key(s, k) {
            let j = index_of(s, k);
            let j1 = if j < i { j } else { j - 1 };
            assert(t[j1] == s[j]);
            assert(has_key(t, k));
        }
    }
}

/// Whether no two rows share a primary key.
pub fn check_keys_unique<T: Row>(rows: &Vec<T>) -> (r: bool)
    ensures
        r == keys_unique(rows@),
{
    let mut i: usize = 0;
    while i < rows.len()
        invariant
            i <= rows@.len(),
            forall|a: int, b: int|
                0 <= a < i && 0 <= b < rows@.len() && a != b ==> #[trigger] rows@[a].key()
                    != #[trigger] rows@[b].key(),
        decreases rows@.len() - i,
    {
        let mut j: usize = 0;
        while j < rows.len()
            invariant
                i < rows@.len(),
                j <= rows@.len(),
                forall|a: int, b: int|
                    0 <= a < i && 0 <= b < rows@.len() && a != b ==> #[trigger] rows@[a].key()
                        != #[trigger] rows@[b].key(),
                forall|b: int| 0 <= b < j && b != i ==> rows@[i as int].key() != #[trigger] rows@[b].key(),
            decreases rows@.len() - j,
        {
            if j != i && text_eq(rows[i].key_text(), rows[j].key_text()) {
                return false;
            }
            j = j + 1;
        }
        i = i + 1;
    }
    true
}

/// Whether some row has primary key `key`.
pub fn contains_key<T: Row>(rows: &Vec<T>, key: &str) -> (r: bool)
    ensures
        r == has_key(rows@, key@),
{
    let mut i: usize = 0;
    while i < rows.len()
        invariant
            i <= rows@.len(),
            forall|j: int| 0 <= j < i ==> #[trigger] rows@[j].key() != key@,
        decreases rows@.len() - i,
    {
        if text_eq(rows[i].key_text(), key) {
            return true;
        }
        i = i + 1;
    }
    false
}

/// The position of the row whose key is `key`.
pub fn find_row<T: Row>(rows: &Vec<T>, key: &str) -> (r: Option<usize>)
    requires
        keys_unique(rows@),
    ensures
        match r {
            Some(i) => i < rows@.len() && rows@[i as int].key() == key@ && index_of(rows@, key@)
                == i,
            None => !has_key(rows@, key@),
        },
        r is Some == has_key(rows@, key@),
{
    let mut i: usize = 0;
    while i < rows.len()
        invariant
            i <= rows@.len(),
            keys_unique(rows@),
            forall|j: int| 0 <= j < i ==> #[trigger] rows@[j].key() != key@,
        decreases rows@.len() - i,
    {
        if text_eq(rows[i].key_text(), key) {
            proof {
                lemma_index_of(rows@, i as int);
            }
            return Some(i);
        }
        i = i + 1;
    }
    None
}

/// Removes the row whose key is `key`; tells whether there was one.
pub fn remove_row<T: Row>(rows: &mut Vec<T>, key: &str) -> (r: bool)
    requires
        keys_unique(old(rows)@),
    ensures
        r == has_key(old(rows)@, key@),
        r ==> final(rows)@ == old(rows)@.remove(index_of(old(rows)@, key@)),
        !r ==> final(rows)@ == old(rows)@,
        keys_unique(final(rows)@),
        forall|k: Seq<char>|
            #[trigger] lookup(final(rows)@, k) == if k == key@ {
                None
            } else {
                lookup(old(rows)@, k)
            },
{
    match find_row(rows, key) {
        Some(i) => {
            proof {
                lemma_lookup_remove(rows@, i as int);
            }
            rows.remove(i);
            true
        },
        None => {
            assert forall|k: Seq<char>|
                #[trigger] lookup(rows@, k) == if k == key@ {
                    None
                } else {
                    lookup(rows@, k)
                } by {}
            false
        },
    }
}

/// The rows in the order `sorts_before`: the same rows, rearranged.
pub fn sort_rows<T: ListOrder>(v: Vec<T>) -> (r: Vec<T>)
    ensures
        r@.to_multiset() == v@.to_multiset(),
        r@.len() == v@.len(),
        sorted(r@),
{
    let ghost orig = v@;
    let mut rest = v;
    let mut out: Vec<T> = Vec::new();
    proof {
        broadcast use vstd::seq_lib::group_to_multiset_ensures;
        vstd::multiset::lemma_multiset_empty_len(out@.to_multiset());
        assert(out@.to_multiset() =~= Multiset::empty());
        assert(out@.to_multiset().add(rest@.to_multiset()) =~= orig.to_multiset());
    }
    while rest.len() > 0
        invariant
            out@.to_multiset().add(rest@.to_multiset()) == orig.to_multiset(),
            out@.len() + rest@.len() == orig.len(),
            sorted(out@),
        decreases rest@.len(),
    {
        let ghost before_rest = rest@;
        let x = rest.pop().unwrap();
        proof {
            assert(before_rest == rest@.push(x));
            to_multiset_build(rest@, x);
        }
        let mut p: usize = 0;
        while p < out.len() && out[p].sorts_before_exec(&x)
            invariant
                p <= out@.len(),
                forall|k: int| 0 <= k < p ==> #[trigger] out@[k].sorts_before(&x),
            decreases out@.len() - p,
        {
            p = p + 1;
        }
        let ghost before_out = out@;
        out.insert(p, x);
        proof {
            to_multiset_insert(before_out, p as int, x);
            assert(out@.to_multiset().add(rest@.to_multiset()) =~= orig.to_multiset());
            let t = out@;
            assert forall|i: int, j: int| 0 <= i < j < t.len() implies #[trigger] t[i].sorts_before(
                &#[trigger] t[j],
            ) by {
                if j < p {
                    assert(t[i] == before_out[i] && t[j] == before_out[j]);
                } else if j == p {
                    assert(t[i] == before_out[i]);
                } else if i > p {
                    assert(t[i] == before_out[i - 1] && t[j] == before_out[j - 1]);
                } else {
                    assert(t[j] == before_out[j - 1]);
                    T::lemma_sorts_total(&before_out[p as int], &x);
                    if i == p {
                        if j - 1 > p {
                            assert(before_out[p as int].sorts_before(&before_out[j - 1]));
                            T::lemma_sorts_trans(&x, &before_out[p as int], &before_out[j - 1]);
                        }
                    } else {
                        assert(t[i] == before_out[i]);
                    }
                }
            }
        }
    }
    proof {
        broadcast use vstd::seq_lib::group_to_multiset_ensures;
        vstd::multiset::lemma_multiset_empty_len(rest@.to_multiset());
    }
    assert(rest@.to_multiset() =~= Multiset::empty());
    assert(out@.to_multiset() =~= orig.to_multiset());
    out
}

} // verus!
