//! An ordered table from text keys to records.
//!
//! Keys are kept in ascending byte order, each at most once. A table is read as
//! a map for lookups and as an ascending listing for paging.

use vstd::prelude::*;
use crate::text::{
    key_less, key_lt, lemma_key_lt_connected, lemma_key_lt_irreflexive, lemma_key_lt_transitive,
};

verus! {

/// A listing: keys with what is stored under them, in the order they are held.
pub type Listing<T> = Seq<(Seq<char>, T)>;

/// The keys of a listing strictly ascend.
pub open spec fn ascending<T>(s: Listing<T>) -> bool {
    forall|i: int, j: int|
        #![trigger s[i], s[j]]
        0 <= i < j < s.len() ==> key_lt(s[i].0, s[j].0)
}

/// `k` is one of the keys of the listing.
pub open spec fn has_key<T>(s: Listing<T>, k: Seq<char>) -> bool {
    exists|i: int| 0 <= i < s.len() && (#[trigger] s[i]).0 == k
}

/// A place in the listing where `k` stands.
pub open spec fn index_of<T>(s: Listing<T>, k: Seq<char>) -> int {
    choose|i: int| 0 <= i < s.len() && (#[trigger] s[i]).0 == k
}

/// The listing read as a map.
pub open spec fn as_map<T>(s: Listing<T>) -> Map<Seq<char>, T> {
    Map::new(|k: Seq<char>| has_key(s, k), |k: Seq<char>| s[index_of(s, k)].1)
}

/// The entries that come strictly after the cursor; all of them without one.
pub open spec fn after<T>(s: Listing<T>, cursor: Option<Seq<char>>) -> Listing<T> {
    match cursor {
        None => s,
        Some(c) => s.filter(|e: (Seq<char>, T)| key_lt(c, e.0)),
    }
}

/// The cursor as a key.
pub open spec fn cursor_of(start_after: Option<&str>) -> Option<Seq<char>> {
    match start_after {
        Some(c) => Some(c@),
        None => None,
    }
}

/// One page: the first `limit` entries after the cursor.
pub open spec fn page<T>(s: Listing<T>, cursor: Option<Seq<char>>, limit: nat) -> Listing<T> {
    let rest = after(s, cursor);
    if limit <= rest.len() {
        rest.take(limit as int)
    } else {
        rest
    }
}

/// In an ascending listing a key stands at one place only.
pub proof fn lemma_index_of<T>(s: Listing<T>, i: int)
    requires
        ascending(s),
        0 <= i < s.len(),
    ensures
        has_key(s, s[i].0),
        index_of(s, s[i].0) == i,
        as_map(s).contains_key(s[i].0),
        as_map(s)[s[i].0] == s[i].1,
{
    let j = index_of(s, s[i].0);
    lemma_key_lt_irreflexive(s[i].0);
    if j < i {
        assert(key_lt(s[j].0, s[i].0));
    } else if i < j {
        assert(key_lt(s[i].0, s[j].0));
    }
}

/// Putting a new key at its place keeps the order and adds it to the map.
pub proof fn lemma_insert_at<T>(s: Listing<T>, p: int, k: Seq<char>, v: T)
    requires
        ascending(s),
        0 <= p <= s.len(),
        forall|i: int| 0 <= i < p ==> key_lt((#[trigger] s[i]).0, k),
        forall|i: int| p <= i < s.len() ==> key_lt(k, (#[trigger] s[i]).0),
    ensures
        ascending(s.insert(p, (k, v))),
        as_map(s.insert(p, (k, v))) == as_map(s).insert(k, v),
{
    let t = s.insert(p, (k, v));
    assert forall|i: int, j: int| 0 <= i < j < t.len() implies key_lt(
        (#[trigger] t[i]).0,
        (#[trigger] t[j]).0,
    ) by {
        let a = if i < p { i } else { i - 1 };
        let b = if j < p { j } else { j - 1 };
        if i != p && j != p {
            assert(t[i] == s[a] && t[j] == s[b]);
            assert(key_lt(s[a].0, s[b].0));
        } else if i == p {
            assert(t[j] == s[b]);
        } else {
            assert(t[i] == s[a]);
        }
    }
    assert forall|q: Seq<char>| has_key(t, q) <==> (q == k || has_key(s, q)) by {
        if has_key(t, q) {
            let i = index_of(t, q);
            if i != p {
                let a = if i < p { i } else { i - 1 };
                assert(t[i] == s[a]);
            }
        }
        if q == k {
            assert(t[p].0 == k);
        }
        if has_key(s, q) {
            let a = index_of(s, q);
            let i = if a < p { a } else { a + 1 };
            assert(t[i] == s[a]);
        }
    }
    assert forall|q: Seq<char>| has_key(t, q) implies as_map(t)[q] == as_map(s).insert(k, v)[q] by {
        let i = index_of(t, q);
        lemma_index_of(t, i);
        if i != p {
            let a = if i < p { i } else { i - 1 };
            assert(t[i] == s[a]);
            lemma_index_of(s, a);
            lemma_key_lt_irreflexive(k);
        }
    }
    assert(as_map(t) =~= as_map(s).insert(k, v));
}

/// Replacing what stands under a key keeps the order and updates the map.
pub proof fn lemma_update_at<T>(s: Listing<T>, p: int, v: T)
    requires
        ascending(s),
        0 <= p < s.len(),
    ensures
        ascending(s.update(p, (s[p].0, v))),
        as_map(s.update(p, (s[p].0, v))) == as_map(s).insert(s[p].0, v),
{
    let k = s[p].0;
    let t = s.update(p, (k, v));
    assert forall|i: int, j: int| 0 <= i < j < t.len() implies key_lt(
        (#[trigger] t[i]).0,
        (#[trigger] t[j]).0,
    ) by {
        assert(t[i].0 == s[i].0 && t[j].0 == s[j].0);
    }
    assert forall|q: Seq<char>| has_key(t, q) <==> (q == k || has_key(s, q)) by {
        if has_key(t, q) {
            let i = index_of(t, q);
            assert(t[i].0 == s[i].0);
        }
        if q == k {
            assert(t[p].0 == k);
        }
        if has_key(s, q) {
            let a = index_of(s, q);
            assert(t[a].0 == s[a].0);
        }
    }
    assert forall|q: Seq<char>| has_key(t, q) implies as_map(t)[q] == as_map(s).insert(k, v)[q] by {
        let i = index_of(t, q);
        lemma_index_of(t, i);
        lemma_index_of(s, i);
        lemma_index_of(s, p);
    }
    assert(as_map(t) =~= as_map(s).insert(k, v));
}

/// Taking an entry out keeps the order and removes its key from the map.
pub proof fn lemma_remove_at<T>(s: Listing<T>, p: int)
    requires
        ascending(s),
        0 <= p < s.len(),
    ensures
        ascending(s.remove(p)),
        as_map(s.remove(p)) == as_map(s).remove(s[p].0),
{
    let k = s[p].0;
    let t = s.remove(p);
    assert forall|i: int, j: int| 0 <= i < j < t.len() implies key_lt(
        (#[trigger] t[i]).0,
        (#[trigger] t[j]).0,
    ) by {
        let a = if i < p { i } else { i + 1 };
        let b = if j < p { j } else { j + 1 };
        assert(t[i] == s[a] && t[j] == s[b]);
        assert(key_lt(s[a].0, s[b].0));
    }
    assert forall|q: Seq<char>| has_key(t, q) <==> (q != k && has_key(s, q)) by {
        if has_key(t, q) {
            let i = index_of(t, q);
            let a = if i < p { i } else { i + 1 };
            assert(t[i] == s[a]);
            lemma_index_of(s, a);
            lemma_index_of(s, p);
        }
        if q != k && has_key(s, q) {
            let a = index_of(s, q);
            let i = if a < p { a } else { a - 1 };
            assert(t[i] == s[a]);
        }
    }
    assert forall|q: Seq<char>| has_key(t, q) implies as_map(t)[q] == as_map(s).remove(k)[q] by {
        let i = index_of(t, q);
        lemma_index_of(t, i);
        let a = if i < p { i } else { i + 1 };
        assert(t[i] == s[a]);
        lemma_index_of(s, a);
    }
    assert(as_map(t) =~= as_map(s).remove(k));
}

/// An ascending listing is determined by the map it stands for.
pub proof fn lemma_listing_determined<T>(a: Listing<T>, b: Listing<T>)
    requires
        ascending(a),
        ascending(b),
        as_map(a) == as_map(b),
    ensures
        a == b,
    decreases a.len(),
{
    if a.len() == 0 {
        if b.len() > 0 {
            lemma_index_of(b, 0);
            assert(has_key(a, b[0].0));
        }
        assert(a =~= b);
    } else if b.len() == 0 {
        lemma_index_of(a, 0);
        assert(has_key(b, a[0].0));
    } else {
        let m = a.len() - 1;
        let n = b.len() - 1;
        lemma_index_of(a, m);
        lemma_index_of(b, n);
        assert(has_key(b, a[m].0));
        assert(has_key(a, b[n].0));
        let j = index_of(b, a[m].0);
        let i = index_of(a, b[n].0);
        if j < n {
            assert(key_lt(b[j].0, b[n].0));
            if i < m {
                assert(key_lt(a[i].0, a[m].0));
                lemma_key_lt_transitive(a[m].0, a[i].0, a[m].0);
            }
            lemma_key_lt_irreflexive(a[m].0);
        }
        lemma_index_of(b, j);
        assert(a[m] == b[n]);
        lemma_remove_at(a, m);
        lemma_remove_at(b, n);
        assert(a.remove(m) =~= a.drop_last());
        assert(b.remove(n) =~= b.drop_last());
        lemma_listing_determined(a.drop_last(), b.drop_last());
        assert(a =~= a.drop_last().push(a[m]));
        assert(b =~= b.drop_last().push(b[n]));
    }
}

/// Where every entry from `lo` on, and none before it, comes after the cursor,
/// the entries after the cursor are exactly those from `lo` on.
pub proof fn lemma_after_is_skip<T>(s: Listing<T>, c: Seq<char>, lo: int)
    requires
        0 <= lo <= s.len(),
        forall|i: int| 0 <= i < lo ==> !key_lt(c, (#[trigger] s[i]).0),
        forall|i: int| lo <= i < s.len() ==> key_lt(c, (#[trigger] s[i]).0),
    ensures
        after(s, Some(c)) == s.skip(lo),
    decreases s.len(),
{
    reveal(Seq::filter);
    let pred = |e: (Seq<char>, T)| key_lt(c, e.0);
    if s.len() > 0 {
        let r = s.drop_last();
        if lo < s.len() {
            lemma_after_is_skip(r, c, lo);
            assert(pred(s.last()));
            assert(r.skip(lo).push(s.last()) =~= s.skip(lo));
        } else {
            lemma_after_is_skip(r, c, lo - 1);
            assert(!pred(s.last()));
            assert(r.skip(lo - 1) =~= s.skip(lo));
        }
    } else {
        assert(s.filter(pred) =~= s.skip(lo));
    }
}

/// Every entry after the cursor is an entry of the listing.
pub proof fn lemma_after_within<T>(s: Listing<T>, cursor: Option<Seq<char>>, i: int)
    requires
        0 <= i < after(s, cursor).len(),
    ensures
        exists|j: int| 0 <= j < s.len() && #[trigger] s[j] == after(s, cursor)[i],
    decreases s.len(),
{
    match cursor {
        None => {
            assert(s[i] == after(s, cursor)[i]);
        },
        Some(c) => {
            reveal(Seq::filter);
            let pred = |e: (Seq<char>, T)| key_lt(c, e.0);
            let r = s.drop_last();
            if pred(s.last()) && i == r.filter(pred).len() {
                assert(s[s.len() - 1] == after(s, cursor)[i]);
            } else {
                lemma_after_within(r, cursor, i);
                let j = choose|j: int| 0 <= j < r.len() && #[trigger] r[j] == after(r, cursor)[i];
                assert(s[j] == after(s, cursor)[i]);
            }
        },
    }
}

/// A page holds at most `limit` entries, each of them stored in the listing
/// under its key.
pub proof fn lemma_page_within<T>(s: Listing<T>, cursor: Option<Seq<char>>, limit: nat, i: int)
    requires
        ascending(s),
        0 <= i < page(s, cursor, limit).len(),
    ensures
        page(s, cursor, limit).len() <= limit,
        as_map(s).contains_key(page(s, cursor, limit)[i].0),
        as_map(s)[page(s, cursor, limit)[i].0] == page(s, cursor, limit)[i].1,
{
    lemma_after_within(s, cursor, i);
    let j = choose|j: int| 0 <= j < s.len() && #[trigger] s[j] == after(s, cursor)[i];
    lemma_index_of(s, j);
}

/// One stored record with its key.
pub struct Entry<V> {
    pub key: String,
    pub value: V,
}

/// An ordered table from text keys to records.
pub struct Store<V> {
    entries: Vec<Entry<V>>,
}

impl<V: View> View for Store<V> {
    type V = Map<Seq<char>, V::V>;

    /// The table as a map from keys to what is stored under them.
    open spec fn view(&self) -> Map<Seq<char>, V::V> {
        as_map(self.listing())
    }
}

impl<V: View> Store<V> {
    /// The table as a listing, in the order in which it is held.
    pub closed spec fn listing(&self) -> Listing<V::V> {
        Seq::new(self.entries@.len(), |i: int| (self.entries@[i].key@, self.entries@[i].value@))
    }

    /// The keys ascend strictly, so that each stands once.
    pub open spec fn wf(&self) -> bool {
        ascending(self.listing())
    }

    /// Two tables that hold the same records under the same keys list them in
    /// the same order.
    pub proof fn lemma_listing_unique(&self, other: &Self)
        requires
            self.wf(),
            other.wf(),
            self@ == other@,
        ensures
            self.listing() == other.listing(),
    {
        lemma_listing_determined(self.listing(), other.listing());
    }

    /// A table that holds nothing.
    pub fn new() -> (r: Self)
        ensures
            r.wf(),
            r.listing() == Seq::<(Seq<char>, V::V)>::empty(),
            r@ == Map::<Seq<char>, V::V>::empty(),
    {
        let r = Store { entries: Vec::new() };
        assert(r.listing() =~= Seq::<(Seq<char>, V::V)>::empty());
        assert(r@ =~= Map::<Seq<char>, V::V>::empty());
        r
    }

    /// How many records the table holds.
    pub fn len(&self) -> (r: usize)
        ensures
            r == self.listing().len(),
    {
        self.entries.len()
    }

    /// The record at a place of the listing.
    pub fn entry(&self, i: usize) -> (r: &Entry<V>)
        requires
            i < self.listing().len(),
        ensures
            (r.key@, r.value@) == self.listing()[i as int],
    {
        &self.entries[i]
    }

    /// The first place whose key is not below `key`.
    fn lower_bound(&self, key: &str) -> (r: usize)
        requires
            self.wf(),
        ensures
            r <= self.listing().len(),
            forall|i: int| 0 <= i < r ==> key_lt((#[trigger] self.listing()[i]).0, key@),
            forall|i: int|
                r <= i < self.listing().len() ==> !key_lt((#[trigger] self.listing()[i]).0, key@),
    {
        let mut lo: usize = 0;
        let mut hi: usize = self.entries.len();
        while lo < hi
            invariant
                self.wf(),
                lo <= hi <= self.listing().len(),
                self.listing().len() == self.entries@.len(),
                forall|i: int| 0 <= i < lo ==> key_lt((#[trigger] self.listing()[i]).0, key@),
                forall|i: int|
                    hi <= i < self.listing().len() ==> !key_lt(
                        (#[trigger] self.listing()[i]).0,
                        key@,
                    ),
            decreases hi - lo,
        {
            let mid: usize = lo + (hi - lo) / 2;
            let ghost s = self.listing();
            assert(s[mid as int].0 == self.entries@[mid as int].key@);
            if key_less(self.entries[mid].key.as_str(), key) {
                assert forall|i: int| 0 <= i < mid + 1 implies key_lt(
                    (#[trigger] s[i]).0,
                    key@,
                ) by {
                    if i < mid {
                        assert(key_lt(s[i].0, s[mid as int].0));
                        lemma_key_lt_transitive(s[i].0, s[mid as int].0, key@);
                    }
                }
                lo = mid + 1;
            } else {
                assert forall|i: int| mid <= i < s.len() implies !key_lt(
                    (#[trigger] s[i]).0,
                    key@,
                ) by {
                    if mid < i && key_lt(s[i].0, key@) {
                        assert(key_lt(s[mid as int].0, s[i].0));
                        lemma_key_lt_transitive(s[mid as int].0, s[i].0, key@);
                    }
                }
                hi = mid;
            }
        }
        lo
    }

    /// The place of `key` in the listing, if it stands there.
    pub fn find(&self, key: &str) -> (r: Option<usize>)
        requires
            self.wf(),
        ensures
            match r {
                Some(i) => i < self.listing().len() && self.listing()[i as int].0 == key@,
                None => !self@.contains_key(key@),
            },
    {
        let p = self.lower_bound(key);
        let ghost s = self.listing();
        if p < self.entries.len() {
            assert(s[p as int].0 == self.entries@[p as int].key@);
            if !key_less(key, self.entries[p].key.as_str()) {
                proof {
                    lemma_key_lt_connected(key@, s[p as int].0);
                }
                return Some(p);
            }
        }
        proof {
            if has_key(s, key@) {
                let i = index_of(s, key@);
                lemma_key_lt_irreflexive(key@);
                if i > p {
                    assert(key_lt(s[p as int].0, s[i].0));
                }
            }
        }
        None
    }

    /// Whether a record is stored under `key`.
    pub fn contains(&self, key: &str) -> (r: bool)
        requires
            self.wf(),
        ensures
            r == self@.contains_key(key@),
    {
        match self.find(key) {
            Some(i) => {
                proof {
                    lemma_index_of(self.listing(), i as int);
                }
                true
            },
            None => false,
        }
    }

    /// The record stored under `key`.
    pub fn get(&self, key: &str) -> (r: Option<&V>)
        requires
            self.wf(),
        ensures
            match r {
                Some(v) => self@.contains_key(key@) && self@[key@] == v@,
                None => !self@.contains_key(key@),
            },
    {
        match self.find(key) {
            Some(i) => {
                proof {
                    lemma_index_of(self.listing(), i as int);
                }
                Some(&self.entries[i].value)
            },
            None => None,
        }
    }

    /// Stores `value` under `key`, in place of what was stored there.
    pub fn insert(&mut self, key: String, value: V)
        requires
            old(self).wf(),
        ensures
            final(self).wf(),
            final(self)@ == old(self)@.insert(key@, value@),
    {
        let p = self.lower_bound(key.as_str());
        let ghost s = self.listing();
        let ghost k = key@;
        let ghost v = value@;
        let found = p < self.entries.len() && !key_less(key.as_str(), self.entries[p].key.as_str());
        if found {
            proof {
                assert(s[p as int].0 == self.entries@[p as int].key@);
                lemma_key_lt_connected(k, s[p as int].0);
                lemma_update_at(s, p as int, v);
            }
            self.entries.remove(p);
            self.entries.insert(p, Entry { key, value });
            assert(self.listing() =~= s.update(p as int, (k, v)));
        } else {
            proof {
                assert forall|i: int| p <= i < s.len() implies key_lt(k, (#[trigger] s[i]).0) by {
                    assert(s[p as int].0 == self.entries@[p as int].key@);
                    lemma_key_lt_connected(k, s[i].0);
                    if i > p {
                        assert(key_lt(s[p as int].0, s[i].0));
                        lemma_key_lt_connected(k, s[p as int].0);
                        if k == s[p as int].0 {
                        } else {
                            lemma_key_lt_transitive(k, s[p as int].0, s[i].0);
                        }
                    }
                }
                lemma_insert_at(s, p as int, k, v);
            }
            self.entries.insert(p, Entry { key, value });
            assert(self.listing() =~= s.insert(p as int, (k, v)));
        }
    }

    /// Takes out what is stored under `key`, if anything is.
    pub fn remove(&mut self, key: &str)
        requires
            old(self).wf(),
        ensures
            final(self).wf(),
            final(self)@ == old(self)@.remove(key@),
    {
        let ghost s = self.listing();
        match self.find(key) {
            Some(i) => {
                proof {
                    lemma_remove_at(s, i as int);
                }
                self.entries.remove(i);
                assert(self.listing() =~= s.remove(i as int));
            },
            None => {
                assert(self@ =~= self@.remove(key@));
            },
        }
    }

    /// The places of one page of the listing: from the first entry after the
    /// cursor, `limit` entries at most.
    pub fn page_bounds(&self, start_after: Option<&str>, limit: usize) -> (r: (usize, usize))
        requires
            self.wf(),
        ensures
            r.0 <= r.1 <= self.listing().len(),
            self.listing().skip(r.0 as int) == after(self.listing(), cursor_of(start_after)),
            self.listing().subrange(r.0 as int, r.1 as int) == page(
                self.listing(),
                cursor_of(start_after),
                limit as nat,
            ),
    {
        let ghost s = self.listing();
        let lo: usize = match start_after {
            None => 0,
            Some(c) => {
                let p = self.lower_bound(c);
                let q: usize = if p < self.entries.len() && !key_less(
                    c,
                    self.entries[p].key.as_str(),
                ) {
                    p + 1
                } else {
                    p
                };
                proof {
                    lemma_key_lt_irreflexive(c@);
                    assert forall|i: int| 0 <= i < q implies !key_lt(c@, (#[trigger] s[i]).0) by {
                        if i < p {
                            if key_lt(c@, s[i].0) {
                                lemma_key_lt_transitive(c@, s[i].0, c@);
                            }
                        } else {
                            assert(s[p as int].0 == self.entries@[p as int].key@);
                        }
                    }
                    assert forall|i: int| q <= i < s.len() implies key_lt(
                        c@,
                        (#[trigger] s[i]).0,
                    ) by {
                        assert(s[p as int].0 == self.entries@[p as int].key@);
                        if i == p {
                        } else {
                            assert(key_lt(s[p as int].0, s[i].0));
                            lemma_key_lt_connected(c@, s[p as int].0);
                            if c@ != s[p as int].0 {
                                lemma_key_lt_transitive(c@, s[p as int].0, s[i].0);
                            }
                        }
                    }
                    lemma_after_is_skip(s, c@, q as int);
                }
                q
            },
        };
        let rest: usize = self.entries.len() - lo;
        let hi: usize = if limit <= rest {
            lo + limit
        } else {
            self.entries.len()
        };
        proof {
            let cursor = cursor_of(start_after);
            assert(after(s, cursor) =~= s.skip(lo as int));
            assert(s.subrange(lo as int, hi as int) =~= page(s, cursor, limit as nat));
        }
        (lo, hi)
    }
}

} // verus!
