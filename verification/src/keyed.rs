//! Lists of records that are found by a key.
//!
//! The coordinator's maps are lists in which no key occurs twice. Those that
//! are part of a checkpoint are also kept in the order of their keys, so that
//! a checkpoint has one byte form whatever the order in which it was filled.

use vstd::prelude::*;

verus! {

/// A record with a key.
pub trait Keyed {
    /// The key as the caller holds it.
    type Key;

    /// The key as a mathematical value.
    type KeyV;

    /// The key of this record.
    spec fn key(&self) -> Self::KeyV;

    /// The value of a key that the caller holds.
    spec fn key_of(k: &Self::Key) -> Self::KeyV;

    /// Whether this record has the key `k`.
    fn has_key(&self, k: &Self::Key) -> (r: bool)
        ensures
            r == (self.key() == Self::key_of(k)),
    ;

    /// Whether two records have the same key.
    fn same_key(&self, other: &Self) -> (r: bool)
        ensures
            r == (self.key() == other.key()),
    ;
}

/// A record whose keys are strictly and totally ordered.
pub trait Ordered: Keyed {
    /// Whether the key `a` comes before the key `b`.
    spec fn key_lt(a: Self::KeyV, b: Self::KeyV) -> bool;

    /// Whether this record's key comes before `k`.
    fn key_before(&self, k: &Self::Key) -> (r: bool)
        ensures
            r == Self::key_lt(self.key(), Self::key_of(k)),
    ;

    /// Whether this record's key comes before that of `other`.
    fn comes_before(&self, other: &Self) -> (r: bool)
        ensures
            r == Self::key_lt(self.key(), other.key()),
    ;

    /// No key comes before itself.
    proof fn lemma_irreflexive(a: Self::KeyV)
        ensures
            !Self::key_lt(a, a),
    ;

    /// The order is transitive.
    proof fn lemma_transitive(a: Self::KeyV, b: Self::KeyV, c: Self::KeyV)
        requires
            Self::key_lt(a, b),
            Self::key_lt(b, c),
        ensures
            Self::key_lt(a, c),
    ;

    /// Of two different keys one comes before the other.
    proof fn lemma_total(a: Self::KeyV, b: Self::KeyV)
        ensures
            a == b || Self::key_lt(a, b) || Self::key_lt(b, a),
    ;
}

/// The first position from `i` on at which the key `k` stands, or the length
/// of the list where it stands nowhere.
pub open spec fn position_from<T: Keyed>(s: Seq<T>, k: T::KeyV, i: int) -> int
    decreases s.len() - i,
{
    if 0 <= i < s.len() && s[i].key() != k {
        position_from(s, k, i + 1)
    } else {
        i
    }
}

/// The first position at which the key `k` stands, or the length of the list.
pub open spec fn position<T: Keyed>(s: Seq<T>, k: T::KeyV) -> int {
    position_from(s, k, 0)
}

/// Whether some record of the list has the key `k`.
pub open spec fn present<T: Keyed>(s: Seq<T>, k: T::KeyV) -> bool {
    position(s, k) < s.len()
}

/// Whether no key occurs twice in the list.
pub open spec fn distinct<T: Keyed>(s: Seq<T>) -> bool {
    forall|i: int, j: int| 0 <= i < j < s.len() ==> (#[trigger] s[i]).key() != (#[trigger] s[j]).key()
}

/// Whether the list is in the strict order of its keys.
pub open spec fn sorted<T: Ordered>(s: Seq<T>) -> bool {
    forall|i: int, j: int|
        0 <= i < j < s.len() ==> T::key_lt((#[trigger] s[i]).key(), (#[trigger] s[j]).key())
}

/// The first position from `i` on whose key does not come before `k`.
pub open spec fn rank_from<T: Ordered>(s: Seq<T>, k: T::KeyV, i: int) -> int
    decreases s.len() - i,
{
    if 0 <= i < s.len() && T::key_lt(s[i].key(), k) {
        rank_from(s, k, i + 1)
    } else {
        i
    }
}

/// The place of the key `k` in a sorted list: the first position whose key
/// does not come before `k`.
pub open spec fn rank<T: Ordered>(s: Seq<T>, k: T::KeyV) -> int {
    rank_from(s, k, 0)
}

/// What `position_from` finds: a position in range, the key there if it is
/// inside the list, and the key nowhere before it.
pub proof fn lemma_position_from<T: Keyed>(s: Seq<T>, k: T::KeyV, i: int)
    requires
        0 <= i <= s.len(),
    ensures
        i <= position_from(s, k, i) <= s.len(),
        position_from(s, k, i) < s.len() ==> s[position_from(s, k, i)].key() == k,
        forall|j: int| i <= j < position_from(s, k, i) ==> (#[trigger] s[j]).key() != k,
    decreases s.len() - i,
{
    if i < s.len() && s[i].key() != k {
        lemma_position_from(s, k, i + 1);
    }
}

/// What `position` finds.
pub proof fn lemma_position<T: Keyed>(s: Seq<T>, k: T::KeyV)
    ensures
        0 <= position(s, k) <= s.len(),
        present(s, k) ==> s[position(s, k)].key() == k,
        forall|j: int| 0 <= j < position(s, k) ==> (#[trigger] s[j]).key() != k,
        !present(s, k) ==> forall|j: int| 0 <= j < s.len() ==> (#[trigger] s[j]).key() != k,
{
    lemma_position_from(s, k, 0);
}

/// A position at which the key stands, in a list without repeated keys, is the
/// position of that key.
pub proof fn lemma_position_unique<T: Keyed>(s: Seq<T>, k: T::KeyV, i: int)
    requires
        distinct(s),
        0 <= i < s.len(),
        s[i].key() == k,
    ensures
        position(s, k) == i,
{
    lemma_position(s, k);
    let p = position(s, k);
    if p < i {
        assert(s[p].key() != s[i].key());
    }
}

/// Replacing a record by one of the same key moves no key.
pub proof fn lemma_update_keeps_keys<T: Keyed>(s: Seq<T>, i: int, item: T)
    requires
        0 <= i < s.len(),
        item.key() == s[i].key(),
    ensures
        forall|k: T::KeyV| position(s.update(i, item), k) == position(s, k),
        distinct(s) ==> distinct(s.update(i, item)),
{
    let t = s.update(i, item);
    assert forall|k: T::KeyV| position(t, k) == position(s, k) by {
        lemma_same_keys_same_position(s, t, k, 0);
    }
    if distinct(s) {
        assert forall|a: int, b: int| 0 <= a < b < t.len() implies (#[trigger] t[a]).key() != (
        #[trigger] t[b]).key() by {
            assert(s[a].key() != s[b].key());
        }
    }
}

/// Lists with the same keys at the same places find every key at the same
/// position.
pub proof fn lemma_same_keys_same_position<T: Keyed>(s: Seq<T>, t: Seq<T>, k: T::KeyV, i: int)
    requires
        s.len() == t.len(),
        0 <= i <= s.len(),
        forall|j: int| 0 <= j < s.len() ==> (#[trigger] s[j]).key() == (#[trigger] t[j]).key(),
    ensures
        position_from(s, k, i) == position_from(t, k, i),
    decreases s.len() - i,
{
    if i < s.len() {
        assert(s[i].key() == t[i].key());
        if s[i].key() != k {
            lemma_same_keys_same_position(s, t, k, i + 1);
        }
    }
}

/// Appending a record whose key is new keeps the keys distinct, and finds the
/// new key at the end and every other key where it was.
pub proof fn lemma_push_new_key<T: Keyed>(s: Seq<T>, item: T)
    requires
        distinct(s),
        !present(s, item.key()),
    ensures
        distinct(s.push(item)),
        position(s.push(item), item.key()) == s.len(),
        forall|k: T::KeyV|
            k != item.key() ==> (present(s.push(item), k) <==> present(s, k)) && (present(s, k) ==> position(
                s.push(item),
                k,
            ) == position(s, k)),
{
    let t = s.push(item);
    lemma_position(s, item.key());
    assert forall|a: int, b: int| 0 <= a < b < t.len() implies (#[trigger] t[a]).key() != (
    #[trigger] t[b]).key() by {
        if b < s.len() {
            assert(s[a].key() != s[b].key());
        } else {
            assert(t[a] == s[a]);
        }
    }
    lemma_position_unique(t, item.key(), s.len() as int);
    assert forall|k: T::KeyV| k != item.key() implies (present(t, k) <==> present(s, k)) && (present(s, k)
        ==> position(t, k) == position(s, k)) by {
        lemma_position(s, k);
        lemma_position(t, k);
        if present(s, k) {
            assert(t[position(s, k)] == s[position(s, k)]);
            lemma_position_unique(t, k, position(s, k));
        } else if present(t, k) {
            let p = position(t, k);
            if p < s.len() {
                assert(t[p] == s[p]);
            }
        }
    }
}

/// Removing the record at `i` keeps the keys distinct, removes its key and
/// keeps every other key.
pub proof fn lemma_remove_key<T: Keyed>(s: Seq<T>, i: int)
    requires
        distinct(s),
        0 <= i < s.len(),
    ensures
        distinct(s.remove(i)),
        !present(s.remove(i), s[i].key()),
        forall|k: T::KeyV| k != s[i].key() ==> (present(s.remove(i), k) <==> present(s, k)),
        forall|k: T::KeyV|
            k != s[i].key() && present(s, k) ==> s.remove(i)[position(s.remove(i), k)] == s[position(
                s,
                k,
            )],
{
    let t = s.remove(i);
    assert forall|a: int, b: int| 0 <= a < b < t.len() implies (#[trigger] t[a]).key() != (
    #[trigger] t[b]).key() by {
        let a0 = if a < i {
            a
        } else {
            a + 1
        };
        let b0 = if b < i {
            b
        } else {
            b + 1
        };
        assert(t[a] == s[a0] && t[b] == s[b0]);
        assert(s[a0].key() != s[b0].key());
    }
    lemma_position(t, s[i].key());
    if present(t, s[i].key()) {
        let p = position(t, s[i].key());
        let origin = if p < i {
            p
        } else {
            p + 1
        };
        assert(t[p] == s[origin]);
        if origin < i {
            assert(s[origin].key() != s[i].key());
        } else {
            assert(s[i].key() != s[origin].key());
        }
    }
    assert forall|k: T::KeyV| k != s[i].key() implies (present(t, k) <==> present(s, k)) && (present(s, k)
        ==> t[position(t, k)] == s[position(s, k)]) by {
        lemma_position(s, k);
        lemma_position(t, k);
        if present(s, k) {
            let p = position(s, k);
            let q = if p < i {
                p
            } else {
                p - 1
            };
            assert(t[q] == s[p]);
            lemma_position_unique(t, k, q);
        } else if present(t, k) {
            let p = position(t, k);
            let origin = if p < i {
                p
            } else {
                p + 1
            };
            assert(t[p] == s[origin]);
        }
    }
}

/// What `rank_from` finds: every key before it comes before `k`, and the key
/// at it, if any, does not.
pub proof fn lemma_rank_from<T: Ordered>(s: Seq<T>, k: T::KeyV, i: int)
    requires
        0 <= i <= s.len(),
    ensures
        i <= rank_from(s, k, i) <= s.len(),
        rank_from(s, k, i) < s.len() ==> !T::key_lt(s[rank_from(s, k, i)].key(), k),
        forall|j: int| i <= j < rank_from(s, k, i) ==> T::key_lt((#[trigger] s[j]).key(), k),
    decreases s.len() - i,
{
    if i < s.len() && T::key_lt(s[i].key(), k) {
        lemma_rank_from(s, k, i + 1);
    }
}

/// Putting a record with a new key at its rank keeps a sorted list sorted.
pub proof fn lemma_insert_sorted<T: Ordered>(s: Seq<T>, item: T)
    requires
        sorted(s),
        !present(s, item.key()),
    ensures
        sorted(s.insert(rank(s, item.key()), item)),
        0 <= rank(s, item.key()) <= s.len(),
{
    let k = item.key();
    let r = rank(s, k);
    lemma_rank_from(s, k, 0);
    lemma_position(s, k);
    let t = s.insert(r, item);
    assert forall|a: int, b: int| 0 <= a < b < t.len() implies T::key_lt(
        (#[trigger] t[a]).key(),
        (#[trigger] t[b]).key(),
    ) by {
        if b < r {
            assert(t[a] == s[a] && t[b] == s[b]);
        } else if b == r {
            assert(t[a] == s[a]);
        } else if a == r {
            assert(t[b] == s[b - 1]);
            assert(s[r].key() != k);
            T::lemma_total(s[r].key(), k);
            if b - 1 > r {
                assert(T::key_lt(s[r].key(), s[b - 1].key()));
                T::lemma_transitive(k, s[r].key(), s[b - 1].key());
            }
        } else if a < r {
            assert(t[a] == s[a] && t[b] == s[b - 1]);
        } else {
            assert(t[a] == s[a - 1] && t[b] == s[b - 1]);
        }
    }
}

/// Putting a record with a new key into a list without repeated keys keeps
/// the keys distinct, finds the new record under its key, and finds under
/// every other key the record that stood there.
pub proof fn lemma_insert_new_key<T: Keyed>(s: Seq<T>, at: int, item: T)
    requires
        distinct(s),
        !present(s, item.key()),
        0 <= at <= s.len(),
    ensures
        distinct(s.insert(at, item)),
        position(s.insert(at, item), item.key()) == at,
        forall|k: T::KeyV|
            k != item.key() ==> (present(s.insert(at, item), k) <==> present(s, k)),
        forall|k: T::KeyV|
            k != item.key() && present(s, k) ==> s.insert(at, item)[position(
                s.insert(at, item),
                k,
            )] == s[position(s, k)],
{
    let t = s.insert(at, item);
    lemma_position(s, item.key());
    assert forall|a: int, b: int| 0 <= a < b < t.len() implies (#[trigger] t[a]).key() != (
    #[trigger] t[b]).key() by {
        let a0 = if a < at {
            a
        } else {
            a - 1
        };
        let b0 = if b < at {
            b
        } else {
            b - 1
        };
        if a == at {
            assert(t[b] == s[b0]);
        } else if b == at {
            assert(t[a] == s[a0]);
        } else {
            assert(t[a] == s[a0] && t[b] == s[b0]);
            assert(s[a0].key() != s[b0].key());
        }
    }
    lemma_position_unique(t, item.key(), at);
    assert forall|k: T::KeyV| k != item.key() implies (present(t, k) <==> present(s, k)) && (
    present(s, k) ==> t[position(t, k)] == s[position(s, k)]) by {
        lemma_position(s, k);
        lemma_position(t, k);
        if present(s, k) {
            let p = position(s, k);
            let q = if p < at {
                p
            } else {
                p + 1
            };
            assert(t[q] == s[p]);
            lemma_position_unique(t, k, q);
        } else if present(t, k) {
            let p = position(t, k);
            let origin = if p < at {
                p
            } else {
                p - 1
            };
            assert(p != at);
            assert(t[p] == s[origin]);
        }
    }
}

/// A sorted list has no key twice.
pub proof fn lemma_sorted_distinct<T: Ordered>(s: Seq<T>)
    requires
        sorted(s),
    ensures
        distinct(s),
{
    assert forall|i: int, j: int| 0 <= i < j < s.len() implies (#[trigger] s[i]).key() != (
    #[trigger] s[j]).key() by {
        T::lemma_irreflexive(s[i].key());
    }
}

/// Replacing a record by one of the same key keeps a sorted list sorted.
pub proof fn lemma_update_sorted<T: Ordered>(s: Seq<T>, i: int, item: T)
    requires
        sorted(s),
        0 <= i < s.len(),
        item.key() == s[i].key(),
    ensures
        sorted(s.update(i, item)),
{
    let t = s.update(i, item);
    assert forall|a: int, b: int| 0 <= a < b < t.len() implies T::key_lt(
        (#[trigger] t[a]).key(),
        (#[trigger] t[b]).key(),
    ) by {
        assert(T::key_lt(s[a].key(), s[b].key()));
    }
}

/// The position of the record with key `k`, if there is one.
pub fn find<T: Keyed>(v: &Vec<T>, k: &T::Key) -> (r: Option<usize>)
    ensures
        match r {
            Some(i) => present(v@, T::key_of(k)) && i == position(v@, T::key_of(k)),
            None => !present(v@, T::key_of(k)),
        },
{
    let mut i: usize = 0;
    while i < v.len()
        invariant
            0 <= i <= v.len(),
            position(v@, T::key_of(k)) == position_from(v@, T::key_of(k), i as int),
        decreases v.len() - i,
    {
        if v[i].has_key(k) {
            return Some(i);
        }
        i += 1;
    }
    None
}

/// The place at which a record with key `k` belongs in a sorted list.
pub fn find_rank<T: Ordered>(v: &Vec<T>, k: &T::Key) -> (r: usize)
    ensures
        r == rank(v@, T::key_of(k)),
        r <= v@.len(),
{
    let mut i: usize = 0;
    while i < v.len() && v[i].key_before(k)
        invariant
            0 <= i <= v.len(),
            rank(v@, T::key_of(k)) == rank_from(v@, T::key_of(k), i as int),
        decreases v.len() - i,
    {
        i += 1;
    }
    i
}

/// Whether no key occurs twice in the list.
pub fn is_distinct<T: Keyed>(v: &Vec<T>) -> (r: bool)
    ensures
        r == distinct(v@),
{
    let n = v.len();
    let mut j: usize = 0;
    while j < n
        invariant
            0 <= j <= n,
            n == v@.len(),
            forall|a: int, b: int| 0 <= a < b < j ==> (#[trigger] v@[a]).key() != (#[trigger] v@[b]).key(),
        decreases n - j,
    {
        let mut i: usize = 0;
        while i < j
            invariant
                0 <= i <= j < n,
                n == v@.len(),
                forall|a: int| 0 <= a < i ==> (#[trigger] v@[a]).key() != v@[j as int].key(),
            decreases j - i,
        {
            if v[i].same_key(&v[j]) {
                return false;
            }
            i += 1;
        }
        j += 1;
    }
    true
}

/// A list in which each record comes before the next is in the strict order
/// of its keys.
pub proof fn lemma_adjacent_sorted<T: Ordered>(s: Seq<T>, i: int, j: int)
    requires
        forall|a: int|
            0 <= a < s.len() - 1 ==> T::key_lt((#[trigger] s[a]).key(), s[a + 1].key()),
        0 <= i < j < s.len(),
    ensures
        T::key_lt(s[i].key(), s[j].key()),
    decreases j - i,
{
    if i + 1 < j {
        lemma_adjacent_sorted(s, i, j - 1);
        assert(T::key_lt(s[j - 1].key(), s[j - 1 + 1].key()));
        T::lemma_transitive(s[i].key(), s[j - 1].key(), s[j].key());
    } else {
        assert(T::key_lt(s[i].key(), s[i + 1].key()));
    }
}

/// Whether the list is in the strict order of its keys.
pub fn is_sorted<T: Ordered>(v: &Vec<T>) -> (r: bool)
    ensures
        r == sorted(v@),
{
    let n = v.len();
    if n < 2 {
        return true;
    }
    let mut i: usize = 0;
    while i < n - 1
        invariant
            0 <= i <= n - 1,
            n == v@.len(),
            n >= 2,
            forall|a: int| 0 <= a < i ==> T::key_lt((#[trigger] v@[a]).key(), v@[a + 1].key()),
        decreases n - i,
    {
        if !v[i].comes_before(&v[i + 1]) {
            assert(!T::key_lt(v@[i as int].key(), v@[i as int + 1].key()));
            return false;
        }
        i += 1;
    }
    proof {
        assert forall|a: int, b: int| 0 <= a < b < v@.len() implies T::key_lt(
            (#[trigger] v@[a]).key(),
            (#[trigger] v@[b]).key(),
        ) by {
            lemma_adjacent_sorted(v@, a, b);
        }
    }
    true
}

} // verus!
