//! The view registry: the column catalog, the filter catalog, and the
//! ordering association that fixes each view's column order.
//!
//! Column definitions are shared across views by name; each view (named by
//! its filter) fixes its own column order through association entries
//! `(column, filter, position)` whose positions are unique per filter and
//! form a contiguous 0-based range, in storage order.

use vstd::prelude::*;

verus! {

/// The registry's three catalogs.
pub struct Registry {
    /// Column name to extraction expression.
    pub cols: Vec<(String, String)>,
    /// Filter name to predicate expression.
    pub filters: Vec<(String, String)>,
    /// `(column name, filter name, position)` ordering associations.
    pub assoc: Vec<(String, String, u64)>,
}

/// First-match lookup of a name in a catalog.
pub open spec fn lookup(s: Seq<(String, String)>, name: Seq<char>) -> Option<Seq<char>>
    decreases s.len(),
{
    if s.len() == 0 {
        None
    } else if s[0].0@ == name {
        Some(s[0].1@)
    } else {
        lookup(s.drop_first(), name)
    }
}

/// No two entries of a catalog share a name.
pub open spec fn distinct_keys(s: Seq<(String, String)>) -> bool {
    forall|i: int, j: int| 0 <= i < j < s.len() ==> (#[trigger] s[i]).0@ != (#[trigger] s[j]).0@
}

/// How many association entries of a prefix belong to filter `f`.
pub open spec fn count_filter(a: Seq<(String, String, u64)>, f: Seq<char>) -> int
    decreases a.len(),
{
    if a.len() == 0 {
        0
    } else {
        count_filter(a.drop_last(), f) + if a.last().1@ == f {
            1int
        } else {
            0int
        }
    }
}

/// The column names associated with filter `f`, in storage order.
pub open spec fn cols_of_filter(a: Seq<(String, String, u64)>, f: Seq<char>) -> Seq<Seq<char>>
    decreases a.len(),
{
    if a.len() == 0 {
        Seq::empty()
    } else {
        let rest = cols_of_filter(a.drop_last(), f);
        if a.last().1@ == f {
            rest + seq![a.last().0@]
        } else {
            rest
        }
    }
}

/// Every association entry's position equals the number of earlier entries
/// of its own filter: per filter, positions read 0, 1, 2, … in storage
/// order.
pub open spec fn positions_ok(a: Seq<(String, String, u64)>) -> bool {
    forall|p: int|
        0 <= p < a.len() ==> (#[trigger] a[p]).2 == count_filter(a.subrange(0, p), a[p].1@)
}

/// The association entries with every entry of filter `f` removed.
pub open spec fn remove_filter(a: Seq<(String, String, u64)>, f: Seq<char>) -> Seq<
    (String, String, u64),
>
    decreases a.len(),
{
    if a.len() == 0 {
        Seq::empty()
    } else {
        let rest = remove_filter(a.drop_last(), f);
        if a.last().1@ == f {
            rest
        } else {
            rest + seq![a.last()]
        }
    }
}

/// What removing one filter's entries does to the catalogs' derived views:
/// that filter keeps nothing, every other filter keeps everything, and the
/// position invariant survives.
proof fn lemma_remove_filter(a: Seq<(String, String, u64)>, f: Seq<char>)
    ensures
        count_filter(remove_filter(a, f), f) == 0,
        forall|g: Seq<char>|
            g != f ==> #[trigger] count_filter(remove_filter(a, f), g) == count_filter(a, g),
        forall|g: Seq<char>|
            g != f ==> #[trigger] cols_of_filter(remove_filter(a, f), g) == cols_of_filter(a, g),
        cols_of_filter(remove_filter(a, f), f) == Seq::<Seq<char>>::empty(),
        positions_ok(a) ==> positions_ok(remove_filter(a, f)),
    decreases a.len(),
{
    if a.len() == 0 {
    } else {
        let d = a.drop_last();
        lemma_remove_filter(d, f);
        assert(forall|p: int| 0 <= p < d.len() ==> d.subrange(0, p) =~= a.subrange(0, p));
        let r = remove_filter(a, f);
        let rd = remove_filter(d, f);
        if a.last().1@ == f {
            assert(r == rd);
            assert forall|g: Seq<char>| g != f implies #[trigger] count_filter(r, g)
                == count_filter(a, g) by {
                assert(count_filter(rd, g) == count_filter(d, g));
            }
            assert forall|g: Seq<char>| g != f implies #[trigger] cols_of_filter(r, g)
                == cols_of_filter(a, g) by {
                assert(cols_of_filter(rd, g) == cols_of_filter(d, g));
            }
        } else {
            assert(r == rd + seq![a.last()]);
            assert(r.drop_last() =~= rd);
            assert(r.last() == a.last());
            assert forall|g: Seq<char>| g != f implies #[trigger] count_filter(r, g)
                == count_filter(a, g) by {
                assert(count_filter(rd, g) == count_filter(d, g));
                assert(count_filter(r, g) == count_filter(rd, g) + if a.last().1@ == g {
                    1int
                } else {
                    0int
                });
            }
            assert forall|g: Seq<char>| g != f implies #[trigger] cols_of_filter(r, g)
                == cols_of_filter(a, g) by {
                assert(cols_of_filter(rd, g) == cols_of_filter(d, g));
                assert(cols_of_filter(r, g) == if a.last().1@ == g {
                    cols_of_filter(rd, g) + seq![a.last().0@]
                } else {
                    cols_of_filter(rd, g)
                });
            }
            if positions_ok(a) {
                assert forall|p: int| 0 <= p < r.len() implies (#[trigger] r[p]).2 == count_filter(
                    r.subrange(0, p),
                    r[p].1@,
                ) by {
                    assert(r.subrange(0, p) =~= rd.subrange(0, p));
                    if p < rd.len() {
                        assert(rd[p] == r[p]);
                    } else {
                        assert(r[p] == a.last());
                        assert(r.subrange(0, p) =~= rd);
                        assert(a.subrange(0, a.len() - 1) =~= d);
                        assert(a.last().2 == count_filter(d, a.last().1@));
                    }
                }
            }
        }
    }
}

/// Whether the registry is well formed: unique catalog names and the
/// position invariant on the association.
pub open spec fn wf(r: Registry) -> bool {
    &&& distinct_keys(r.cols@)
    &&& distinct_keys(r.filters@)
    &&& positions_ok(r.assoc@)
}

/// Looking a key up after an in-place update at `i` finds the new value at
/// that key and the old value elsewhere.
proof fn lemma_lookup_update(s: Seq<(String, String)>, i: int, v: (String, String))
    requires
        0 <= i < s.len(),
        distinct_keys(s),
        v.0@ == s[i].0@,
    ensures
        lookup(s.update(i, v), v.0@) == Some(v.1@),
        forall|k: Seq<char>| k != v.0@ ==> #[trigger] lookup(s.update(i, v), k) == lookup(s, k),
        distinct_keys(s.update(i, v)),
    decreases s.len(),
{
    let t = s.update(i, v);
    if i == 0 {
        assert(t[0] == v);
        assert(t.drop_first() =~= s.drop_first());
        assert forall|k: Seq<char>| k != v.0@ implies #[trigger] lookup(t, k) == lookup(s, k) by {
            assert(lookup(t, k) == lookup(t.drop_first(), k));
        }
    } else {
        assert(t[0] == s[0]);
        assert(t.drop_first() =~= s.drop_first().update(i - 1, v));
        assert(distinct_keys(s.drop_first())) by {
            assert(forall|p: int|
                0 <= p < s.drop_first().len() ==> s.drop_first()[p] == s[p + 1]);
        }
        lemma_lookup_update(s.drop_first(), i - 1, v);
        assert(s[0].0@ != v.0@);
        assert forall|k: Seq<char>| k != v.0@ implies #[trigger] lookup(t, k) == lookup(s, k) by {
            if k != s[0].0@ {
                assert(lookup(t.drop_first(), k) == lookup(s.drop_first(), k));
            }
        }
    }
    assert(distinct_keys(t)) by {
        assert(forall|p: int| 0 <= p < t.len() && p != i ==> t[p] == s[p]);
    }
}

/// Looking a key up after appending a fresh pair finds the pair at its own
/// key and the old value elsewhere.
proof fn lemma_lookup_push(s: Seq<(String, String)>, v: (String, String))
    requires
        lookup(s, v.0@) is None,
    ensures
        lookup(s.push(v), v.0@) == Some(v.1@),
        forall|k: Seq<char>| k != v.0@ ==> #[trigger] lookup(s.push(v), k) == lookup(s, k),
    decreases s.len(),
{
    let t = s.push(v);
    if s.len() == 0 {
        assert(t[0] == v);
        assert(t.drop_first() =~= Seq::empty());
        assert forall|k: Seq<char>| k != v.0@ implies #[trigger] lookup(t, k) == lookup(s, k) by {
            assert(lookup(t, k) == lookup(t.drop_first(), k));
        }
    } else {
        assert(t[0] == s[0]);
        assert(t.drop_first() =~= s.drop_first().push(v));
        lemma_lookup_push(s.drop_first(), v);
        assert forall|k: Seq<char>| k != v.0@ implies #[trigger] lookup(t, k) == lookup(s, k) by {
            if k != s[0].0@ {
                assert(lookup(s.drop_first().push(v), k) == lookup(s.drop_first(), k));
            }
        }
    }
}

/// A key that no entry carries looks up to nothing.
proof fn lemma_lookup_absent(s: Seq<(String, String)>, k: Seq<char>)
    requires
        forall|i: int| 0 <= i < s.len() ==> (#[trigger] s[i]).0@ != k,
    ensures
        lookup(s, k) is None,
    decreases s.len(),
{
    if s.len() > 0 {
        assert(forall|i: int|
            0 <= i < s.drop_first().len() ==> s.drop_first()[i] == s[i + 1]);
        lemma_lookup_absent(s.drop_first(), k);
    }
}

/// Law: a name that looks up carries an entry, so a view just created
/// appears in the listing — its filter holds some catalog index, and the
/// listing's entry there carries the view's name with its columns in
/// stored order.
pub proof fn lemma_lookup_index(s: Seq<(String, String)>, k: Seq<char>)
    requires
        lookup(s, k) is Some,
    ensures
        exists|i: int|
            0 <= i < s.len() && (#[trigger] s[i]).0@ == k && s[i].1@ == lookup(s, k).unwrap(),
    decreases s.len(),
{
    if s[0].0@ == k {
        assert(s[0].0@ == k);
    } else {
        lemma_lookup_index(s.drop_first(), k);
        let i = choose|i: int|
            0 <= i < s.drop_first().len() && (#[trigger] s.drop_first()[i]).0@ == k
                && s.drop_first()[i].1@ == lookup(s.drop_first(), k).unwrap();
        assert(s[i + 1] == s.drop_first()[i]);
    }
}

/// Inserts or replaces one `name -> query` pair of a catalog.
fn upsert_pair(list: &mut Vec<(String, String)>, name: &String, query: &String)
    requires
        distinct_keys(old(list)@),
    ensures
        distinct_keys(final(list)@),
        lookup(final(list)@, name@) == Some(query@),
        forall|k: Seq<char>| k != name@ ==> #[trigger] lookup(final(list)@, k) == lookup(
            old(list)@,
            k,
        ),
{
    let mut i: usize = 0;
    while i < list.len()
        invariant
            i <= list@.len(),
            list@ == old(list)@,
            distinct_keys(list@),
            forall|j: int| 0 <= j < i ==> (#[trigger] list@[j]).0@ != name@,
        decreases list@.len() - i,
    {
        if list[i].0.eq(name) {
            let nm = list[i].0.clone();
            let pair = (nm, query.clone());
            proof {
                lemma_lookup_update(list@, i as int, pair);
            }
            list[i] = pair;
            return ;
        }
        i = i + 1;
    }
    let pair = (name.clone(), query.clone());
    proof {
        lemma_lookup_absent(list@, name@);
        lemma_lookup_push(list@, pair);
        assert(distinct_keys(list@.push(pair)));
    }
    list.push(pair);
}

impl Registry {
    /// An empty registry.
    pub fn new() -> (r: Registry)
        ensures
            wf(r),
            r.cols@.len() == 0,
            r.filters@.len() == 0,
            r.assoc@.len() == 0,
    {
        Registry { cols: Vec::new(), filters: Vec::new(), assoc: Vec::new() }
    }

    /// The registry effect of creating or replacing a view, as one atomic
    /// step: upserts every named column's expression, replaces the filter's
    /// ordering association by the given column order, and upserts the
    /// filter's predicate.
    #[verifier::rlimit(100)]
    pub fn upsert_view(
        &mut self,
        column_names: &Vec<String>,
        column_queries: &Vec<String>,
        filter_name: &String,
        filter_query: &String,
    )
        requires
            wf(*old(self)),
            column_names@.len() == column_queries@.len(),
        ensures
            wf(*final(self)),
            lookup(final(self).filters@, filter_name@) == Some(filter_query@),
            forall|k: Seq<char>|
                k != filter_name@ ==> #[trigger] lookup(final(self).filters@, k) == lookup(
                    old(self).filters@,
                    k,
                ),
            cols_of_filter(final(self).assoc@, filter_name@).len() == column_names@.len(),
            forall|i: int|
                0 <= i < column_names@.len() ==> cols_of_filter(
                    final(self).assoc@,
                    filter_name@,
                )[i] == column_names@[i]@,
            forall|g: Seq<char>|
                g != filter_name@ ==> #[trigger] cols_of_filter(final(self).assoc@, g)
                    == cols_of_filter(old(self).assoc@, g),
            forall|i: int|
                0 <= i < column_names@.len() && (forall|j: int|
                    i < j < column_names@.len() ==> (#[trigger] column_names@[j])@
                        != column_names@[i]@) ==> lookup(final(self).cols@, column_names@[i]@)
                    == Some(column_queries@[i]@),
            forall|k: Seq<char>|
                (forall|i: int| 0 <= i < column_names@.len() ==> (#[trigger] column_names@[i])@ != k)
                    ==> #[trigger] lookup(final(self).cols@, k) == lookup(old(self).cols@, k),
    {
        // Step 1: upsert each named column's extraction expression.
        let mut i: usize = 0;
        while i < column_names.len()
            invariant
                column_names@.len() == column_queries@.len(),
                i <= column_names@.len(),
                distinct_keys(self.cols@),
                self.filters@ == old(self).filters@,
                self.assoc@ == old(self).assoc@,
                forall|p: int|
                    0 <= p < i && (forall|j: int|
                        p < j < i ==> (#[trigger] column_names@[j])@ != column_names@[p]@)
                        ==> lookup(self.cols@, column_names@[p]@) == Some(column_queries@[p]@),
                forall|k: Seq<char>|
                    (forall|p: int| 0 <= p < i ==> (#[trigger] column_names@[p])@ != k)
                        ==> #[trigger] lookup(self.cols@, k) == lookup(old(self).cols@, k),
            decreases column_names@.len() - i,
        {
            upsert_pair(&mut self.cols, &column_names[i], &column_queries[i]);
            i = i + 1;
        }
        // Step 2: drop every existing ordering association of this filter.
        let mut kept: Vec<(String, String, u64)> = Vec::new();
        let mut k: usize = 0;
        while k < self.assoc.len()
            invariant
                k <= self.assoc@.len(),
                kept@ == remove_filter(self.assoc@.subrange(0, k as int), filter_name@),
            decreases self.assoc@.len() - k,
        {
            let ghost pre = self.assoc@.subrange(0, k as int);
            let ghost post = self.assoc@.subrange(0, (k + 1) as int);
            proof {
                assert(post.drop_last() =~= pre);
                assert(post.last() == self.assoc@[k as int]);
            }
            if !self.assoc[k].1.eq(filter_name) {
                let e = (self.assoc[k].0.clone(), self.assoc[k].1.clone(), self.assoc[k].2);
                kept.push(e);
            }
            k = k + 1;
        }
        proof {
            assert(self.assoc@.subrange(0, self.assoc@.len() as int) =~= self.assoc@);
            lemma_remove_filter(self.assoc@, filter_name@);
        }
        self.assoc = kept;
        // Step 3: insert the fresh associations in the given column order.
        let ghost base = self.assoc@;
        let mut p: usize = 0;
        while p < column_names.len()
            invariant
                column_names@.len() == column_queries@.len(),
                p <= column_names@.len(),
                positions_ok(self.assoc@),
                count_filter(self.assoc@, filter_name@) == p,
                cols_of_filter(self.assoc@, filter_name@).len() == p,
                forall|q: int|
                    0 <= q < p ==> cols_of_filter(self.assoc@, filter_name@)[q]
                        == column_names@[q]@,
                forall|g: Seq<char>|
                    g != filter_name@ ==> #[trigger] cols_of_filter(self.assoc@, g)
                        == cols_of_filter(base, g),
                forall|g: Seq<char>|
                    g != filter_name@ ==> #[trigger] count_filter(self.assoc@, g) == count_filter(
                        base,
                        g,
                    ),
                distinct_keys(self.cols@),
                self.filters@ == old(self).filters@,
                forall|q: int|
                    0 <= q < column_names@.len() && (forall|j: int|
                        q < j < column_names@.len() ==> (#[trigger] column_names@[j])@
                            != column_names@[q]@) ==> lookup(self.cols@, column_names@[q]@)
                        == Some(column_queries@[q]@),
                forall|key: Seq<char>|
                    (forall|q: int|
                        0 <= q < column_names@.len() ==> (#[trigger] column_names@[q])@ != key)
                        ==> #[trigger] lookup(self.cols@, key) == lookup(old(self).cols@, key),
            decreases column_names@.len() - p,
        {
            let ghost before = self.assoc@;
            let e = (column_names[p].clone(), filter_name.clone(), p as u64);
            self.assoc.push(e);
            proof {
                assert(self.assoc@.drop_last() =~= before);
                assert(self.assoc@.last() == e);
                assert forall|g: Seq<char>| g != filter_name@ implies #[trigger] cols_of_filter(
                    self.assoc@,
                    g,
                ) == cols_of_filter(base, g) by {
                    assert(cols_of_filter(self.assoc@, g) == cols_of_filter(before, g));
                }
                assert forall|g: Seq<char>| g != filter_name@ implies #[trigger] count_filter(
                    self.assoc@,
                    g,
                ) == count_filter(base, g) by {
                    assert(count_filter(self.assoc@, g) == count_filter(before, g));
                }
                assert forall|q: int| 0 <= q < self.assoc@.len() implies (
                #[trigger] self.assoc@[q]).2 == count_filter(
                    self.assoc@.subrange(0, q),
                    self.assoc@[q].1@,
                ) by {
                    if q < before.len() {
                        assert(self.assoc@.subrange(0, q) =~= before.subrange(0, q));
                        assert(self.assoc@[q] == before[q]);
                    } else {
                        assert(self.assoc@.subrange(0, q) =~= before);
                    }
                }
            }
            p = p + 1;
        }
        // Step 4: upsert the filter's predicate.
        upsert_pair(&mut self.filters, filter_name, filter_query);
    }

    /// Every view: each filter's name with its column names in stored
    /// position order.
    pub fn list_views(&self) -> (r: Vec<(String, Vec<String>)>)
        ensures
            r@.len() == self.filters@.len(),
            forall|i: int|
                0 <= i < r@.len() ==> (#[trigger] r@[i]).0@ == self.filters@[i].0@,
            forall|i: int|
                0 <= i < r@.len() ==> (#[trigger] r@[i]).1@.len() == cols_of_filter(
                    self.assoc@,
                    self.filters@[i].0@,
                ).len(),
            forall|i: int, j: int|
                #![trigger r@[i].1@[j]]
                0 <= i < r@.len() && 0 <= j < r@[i].1@.len() ==> r@[i].1@[j]@ == cols_of_filter(
                    self.assoc@,
                    self.filters@[i].0@,
                )[j],
    {
        let mut r: Vec<(String, Vec<String>)> = Vec::new();
        let mut i: usize = 0;
        while i < self.filters.len()
            invariant
                i <= self.filters@.len(),
                r@.len() == i,
                forall|q: int|
                    0 <= q < i ==> (#[trigger] r@[q]).0@ == self.filters@[q].0@,
                forall|q: int|
                    0 <= q < i ==> (#[trigger] r@[q]).1@.len() == cols_of_filter(
                        self.assoc@,
                        self.filters@[q].0@,
                    ).len(),
                forall|q: int, j: int|
                    #![trigger r@[q].1@[j]]
                    0 <= q < i && 0 <= j < r@[q].1@.len() ==> r@[q].1@[j]@ == cols_of_filter(
                        self.assoc@,
                        self.filters@[q].0@,
                    )[j],
            decreases self.filters@.len() - i,
        {
            let fname = self.filters[i].0.clone();
            let mut cols: Vec<String> = Vec::new();
            let mut k: usize = 0;
            while k < self.assoc.len()
                invariant
                    fname@ == self.filters@[i as int].0@,
                    i < self.filters@.len(),
                    k <= self.assoc@.len(),
                    cols@.len() == cols_of_filter(
                        self.assoc@.subrange(0, k as int),
                        fname@,
                    ).len(),
                    forall|j: int|
                        0 <= j < cols@.len() ==> (#[trigger] cols@[j])@ == cols_of_filter(
                            self.assoc@.subrange(0, k as int),
                            fname@,
                        )[j],
                decreases self.assoc@.len() - k,
            {
                let ghost pre = self.assoc@.subrange(0, k as int);
                let ghost post = self.assoc@.subrange(0, (k + 1) as int);
                proof {
                    assert(post.drop_last() =~= pre);
                    assert(post.last() == self.assoc@[k as int]);
                }
                if self.assoc[k].1.eq(&fname) {
                    cols.push(self.assoc[k].0.clone());
                }
                k = k + 1;
            }
            proof {
                assert(self.assoc@.subrange(0, self.assoc@.len() as int) =~= self.assoc@);
            }
            r.push((fname, cols));
            i = i + 1;
        }
        r
    }
}

} // verus!
