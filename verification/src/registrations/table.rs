//! A table of registrations, one row per name, in the order of their names.
use vstd::prelude::*;

use super::repo::{Registration, RegistrationView};
use super::{Kind, RegistrationError};
use crate::text::{
    before, cat, lemma_before_irreflexive, lemma_before_total, lemma_before_transitive, precedes,
    same,
};

verus! {

/// What a list of rows says.
pub open spec fn row_views(v: Seq<Registration>) -> Seq<RegistrationView> {
    Seq::new(v.len(), |i: int| v[i]@)
}

/// Whether the rows stand in the order of their names, each name once.
pub open spec fn ordered_rows(v: Seq<RegistrationView>) -> bool {
    forall|i: int, j: int|
        0 <= i < j < v.len() ==> before((#[trigger] v[i]).name, (#[trigger] v[j]).name)
}

/// Whether there is a row with the given name.
pub open spec fn has_row(v: Seq<RegistrationView>, name: Seq<char>) -> bool {
    exists|i: int| 0 <= i < v.len() && (#[trigger] v[i]).name == name
}

/// The rows by their names.
pub open spec fn rows_by_name(v: Seq<RegistrationView>) -> Map<Seq<char>, RegistrationView> {
    Map::new(
        |n: Seq<char>| has_row(v, n),
        |n: Seq<char>| v[choose|i: int| 0 <= i < v.len() && (#[trigger] v[i]).name == n],
    )
}

/// Registrations, one per name.
#[derive(Debug)]
pub struct RegistrationTable {
    rows: Vec<Registration>,
}

proof fn lemma_names_unique(v: Seq<RegistrationView>, i: int, j: int)
    requires
        ordered_rows(v),
        0 <= i < v.len(),
        0 <= j < v.len(),
        v[i].name == v[j].name,
    ensures
        i == j,
{
    if i < j {
        assert(before(v[i].name, v[j].name));
        lemma_before_irreflexive(v[i].name);
    } else if j < i {
        assert(before(v[j].name, v[i].name));
        lemma_before_irreflexive(v[i].name);
    }
}

/// A row is found under its name.
pub proof fn lemma_row_by_name(v: Seq<RegistrationView>, i: int)
    requires
        ordered_rows(v),
        0 <= i < v.len(),
    ensures
        rows_by_name(v).dom().contains(v[i].name),
        rows_by_name(v)[v[i].name] == v[i],
{
    let n = v[i].name;
    assert(has_row(v, n));
    let k = choose|k: int| 0 <= k < v.len() && (#[trigger] v[k]).name == n;
    lemma_names_unique(v, i, k);
}

/// What a table holds under a name is a row with that name.
pub proof fn lemma_rows_named(v: Seq<RegistrationView>, n: Seq<char>)
    requires
        rows_by_name(v).dom().contains(n),
    ensures
        rows_by_name(v)[n].name == n,
{
    assert(has_row(v, n));
}

impl RegistrationTable {
    /// The rows, in order.
    pub closed spec fn rows(&self) -> Seq<RegistrationView> {
        row_views(self.rows@)
    }

    /// The rows by their names.
    pub open spec fn by_name(&self) -> Map<Seq<char>, RegistrationView> {
        rows_by_name(self.rows())
    }

    /// Each name stands once, and the rows stand in the order of their names.
    pub open spec fn wf(&self) -> bool {
        ordered_rows(self.rows())
    }

    /// A table without rows.
    pub fn new() -> (r: RegistrationTable)
        ensures
            r.wf(),
            r.by_name() == Map::<Seq<char>, RegistrationView>::empty(),
    {
        let r = RegistrationTable { rows: Vec::new() };
        assert(r.by_name() =~= Map::<Seq<char>, RegistrationView>::empty());
        r
    }

    /// A copy of the table.
    pub fn copy(&self) -> (r: RegistrationTable)
        ensures
            r.rows() == self.rows(),
    {
        let ghost all = self.rows();
        let mut rows: Vec<Registration> = Vec::new();
        let mut i: usize = 0;
        assert(row_views(rows@) =~= all.take(0));
        while i < self.rows.len()
            invariant
                i <= self.rows@.len(),
                all == self.rows(),
                all.len() == self.rows@.len(),
                row_views(rows@) == all.take(i as int),
            decreases self.rows.len() - i,
        {
            let ghost before = rows@;
            let row = self.rows[i].clone();
            let ghost x = row@;
            rows.push(row);
            assert(all[i as int] == x);
            assert(row_views(rows@) =~= row_views(before).push(x));
            assert(all.take(i + 1) =~= all.take(i as int).push(x));
            i = i + 1;
        }
        assert(all.take(all.len() as int) =~= all);
        RegistrationTable { rows }
    }

    /// The number of rows.
    pub fn len(&self) -> (r: usize)
        ensures
            r == self.rows().len(),
    {
        self.rows.len()
    }

    fn place(&self, name: &str) -> (r: (usize, bool))
        requires
            self.wf(),
        ensures
            r.0 <= self.rows@.len(),
            forall|i: int| 0 <= i < r.0 ==> before((#[trigger] self.rows()[i]).name, name@),
            r.1 ==> r.0 < self.rows@.len() && self.rows()[r.0 as int].name == name@,
            !r.1 ==> !has_row(self.rows(), name@) && forall|i: int|
                r.0 <= i < self.rows@.len() ==> before(name@, (#[trigger] self.rows()[i]).name),
    {
        let mut k: usize = 0;
        while k < self.rows.len() && precedes(self.rows[k].name.as_str(), name)
            invariant
                k <= self.rows@.len(),
                forall|i: int| 0 <= i < k ==> before((#[trigger] self.rows()[i]).name, name@),
            decreases self.rows.len() - k,
        {
            k = k + 1;
        }
        let ghost v = self.rows();
        if k < self.rows.len() && same(self.rows[k].name.as_str(), name) {
            (k, true)
        } else {
            proof {
                if k < v.len() {
                    lemma_before_total(v[k as int].name, name@);
                }
                assert forall|i: int| k <= i < v.len() implies before(
                    name@,
                    (#[trigger] v[i]).name,
                ) by {
                    if i > k {
                        assert(before(v[k as int].name, v[i].name));
                        lemma_before_transitive(name@, v[k as int].name, v[i].name);
                    }
                }
                if has_row(v, name@) {
                    let i = choose|i: int| 0 <= i < v.len() && (#[trigger] v[i]).name == name@;
                    lemma_before_irreflexive(name@);
                    if i < k {
                        assert(before(v[i].name, name@));
                    } else {
                        assert(before(name@, v[i].name));
                    }
                }
            }
            (k, false)
        }
    }

    /// The row with the given name.
    pub fn get(&self, name: &str) -> (r: Option<&Registration>)
        requires
            self.wf(),
        ensures
            match r {
                Some(x) => self.by_name().dom().contains(name@) && self.by_name()[name@] == x@,
                None => !self.by_name().dom().contains(name@),
            },
    {
        let (k, found) = self.place(name);
        if found {
            proof {
                lemma_row_by_name(self.rows(), k as int);
            }
            Some(&self.rows[k])
        } else {
            None
        }
    }

    /// Puts a row under its name, in the place of the one that was there.
    pub fn put(&mut self, row: Registration)
        requires
            old(self).wf(),
        ensures
            final(self).wf(),
            final(self).by_name() == old(self).by_name().insert(row.name@, row@),
    {
        let ghost v = self.rows();
        let ghost x = row@;
        let (k, found) = self.place(row.name.as_str());
        if found {
            self.rows.set(k, row);
            proof {
                let w = self.rows();
                assert(w =~= v.update(k as int, x));
                assert(ordered_rows(w));
                lemma_put_view(v, w, x, k as int);
            }
        } else {
            self.rows.insert(k, row);
            proof {
                let w = self.rows();
                assert(w =~= v.insert(k as int, x));
                assert forall|i: int, j: int| 0 <= i < j < w.len() implies before(
                    (#[trigger] w[i]).name,
                    (#[trigger] w[j]).name,
                ) by {
                    let a = if i < k {
                        i
                    } else {
                        i - 1
                    };
                    let b = if j < k {
                        j
                    } else {
                        j - 1
                    };
                    if i != k {
                        assert(w[i] == v[a]);
                    }
                    if j != k {
                        assert(w[j] == v[b]);
                    }
                }
                lemma_put_view(v, w, x, k as int);
            }
        }
    }

    /// Takes out the row with the given name; whether there was one.
    pub fn delete(&mut self, name: &str) -> (r: bool)
        requires
            old(self).wf(),
        ensures
            final(self).wf(),
            r == old(self).by_name().dom().contains(name@),
            final(self).by_name() == old(self).by_name().remove(name@),
    {
        let ghost v = self.rows();
        let (k, found) = self.place(name);
        if found {
            let _gone = self.rows.remove(k);
            proof {
                let w = self.rows();
                assert(w =~= v.remove(k as int));
                lemma_row_by_name(v, k as int);
                assert forall|i: int, j: int| 0 <= i < j < w.len() implies before(
                    (#[trigger] w[i]).name,
                    (#[trigger] w[j]).name,
                ) by {
                    let a = if i < k {
                        i
                    } else {
                        i + 1
                    };
                    let b = if j < k {
                        j
                    } else {
                        j + 1
                    };
                    assert(w[i] == v[a] && w[j] == v[b]);
                }
                lemma_remove_view(v, w, k as int);
            }
            true
        } else {
            assert(self.by_name() =~= old(self).by_name().remove(name@));
            false
        }
    }

    /// The rows of one kind, or all of them, in the order of their names.
    pub fn list(&self, kind: Option<Kind>) -> (r: Vec<&Registration>)
        ensures
            row_views(r@.unref()) == self.rows().filter(
                |x: RegistrationView| kind is None || x.kind == kind->0,
            ),
    {
        let ghost p = |x: RegistrationView| kind is None || x.kind == kind->0;
        let mut out: Vec<&Registration> = Vec::new();
        let mut i: usize = 0;
        reveal(Seq::filter);
        assert(row_views(out@.unref()) =~= self.rows().take(0).filter(p));
        while i < self.rows.len()
            invariant
                i <= self.rows@.len(),
                p == (|x: RegistrationView| kind is None || x.kind == kind->0),
                row_views(out@.unref()) == self.rows().take(i as int).filter(p),
            decreases self.rows.len() - i,
        {
            let ghost next = self.rows().take(i + 1);
            let ghost prev = out@;
            reveal(Seq::filter);
            assert(next.drop_last() =~= self.rows().take(i as int));
            let wanted = match kind {
                Some(k) => self.rows[i].kind == k,
                None => true,
            };
            if wanted {
                out.push(&self.rows[i]);
                assert(row_views(out@.unref()) =~= row_views(prev.unref()).push(next.last()));
            }
            i = i + 1;
        }
        assert(self.rows().take(self.rows@.len() as int) =~= self.rows());
        out
    }
}

proof fn lemma_put_view(
    v: Seq<RegistrationView>,
    w: Seq<RegistrationView>,
    x: RegistrationView,
    k: int,
)
    requires
        ordered_rows(v),
        ordered_rows(w),
        0 <= k < w.len(),
        w[k] == x,
        (k < v.len() && v[k].name == x.name && w == v.update(k, x)) || (k <= v.len() && !has_row(
            v,
            x.name,
        ) && w == v.insert(k, x)),
    ensures
        rows_by_name(w) == rows_by_name(v).insert(x.name, x),
{
    let a = rows_by_name(w);
    let b = rows_by_name(v).insert(x.name, x);
    lemma_row_by_name(w, k);
    assert forall|n: Seq<char>| a.dom().contains(n) <==> b.dom().contains(n) by {
        if has_row(w, n) {
            let i = choose|i: int| 0 <= i < w.len() && (#[trigger] w[i]).name == n;
            if i != k {
                if w == v.update(k, x) {
                    assert(v[i] == w[i]);
                } else {
                    let q = if i < k {
                        i
                    } else {
                        i - 1
                    };
                    assert(v[q] == w[i]);
                }
                assert(has_row(v, n));
            }
        }
        if has_row(v, n) {
            let i = choose|i: int| 0 <= i < v.len() && (#[trigger] v[i]).name == n;
            if w == v.update(k, x) {
                assert(w[i].name == n);
            } else {
                let q = if i < k {
                    i
                } else {
                    i + 1
                };
                assert(w[q] == v[i]);
            }
            assert(has_row(w, n));
        }
    }
    assert forall|n: Seq<char>| a.dom().contains(n) implies a[n] == b[n] by {
        if n != x.name {
            let i = choose|i: int| 0 <= i < v.len() && (#[trigger] v[i]).name == n;
            assert(has_row(v, n));
            if w == v.update(k, x) {
                assert(w[i] == v[i]);
                lemma_row_by_name(w, i);
            } else {
                let q = if i < k {
                    i
                } else {
                    i + 1
                };
                assert(w[q] == v[i]);
                lemma_row_by_name(w, q);
            }
            lemma_row_by_name(v, i);
        }
    }
    assert(a =~= b);
}

proof fn lemma_remove_view(v: Seq<RegistrationView>, w: Seq<RegistrationView>, k: int)
    requires
        ordered_rows(v),
        ordered_rows(w),
        0 <= k < v.len(),
        w == v.remove(k),
    ensures
        rows_by_name(w) == rows_by_name(v).remove(v[k].name),
{
    let a = rows_by_name(w);
    let b = rows_by_name(v).remove(v[k].name);
    assert forall|n: Seq<char>| a.dom().contains(n) <==> b.dom().contains(n) by {
        if has_row(w, n) {
            let i = choose|i: int| 0 <= i < w.len() && (#[trigger] w[i]).name == n;
            let q = if i < k {
                i
            } else {
                i + 1
            };
            assert(v[q] == w[i]);
            if n == v[k].name {
                lemma_names_unique(v, q, k);
            }
            assert(has_row(v, n));
        }
        if has_row(v, n) && n != v[k].name {
            let i = choose|i: int| 0 <= i < v.len() && (#[trigger] v[i]).name == n;
            let q = if i < k {
                i
            } else {
                i - 1
            };
            assert(w[q] == v[i]);
            assert(has_row(w, n));
        }
    }
    assert forall|n: Seq<char>| a.dom().contains(n) implies a[n] == b[n] by {
        let i = choose|i: int| 0 <= i < w.len() && (#[trigger] w[i]).name == n;
        assert(has_row(w, n));
        let q = if i < k {
            i
        } else {
            i + 1
        };
        assert(v[q] == w[i]);
        lemma_row_by_name(v, q);
        lemma_row_by_name(w, i);
    }
    assert(a =~= b);
}

/// What an upsert leaves under a name: the given row, but for the kind and the
/// time of creation, which an existing row keeps.
pub open spec fn upserted(
    old_row: Option<RegistrationView>,
    row: RegistrationView,
) -> RegistrationView {
    match old_row {
        Some(o) => RegistrationView { kind: o.kind, created_at: o.created_at, ..row },
        None => row,
    }
}

/// The row under a name, if there is one.
pub open spec fn row_at(m: Map<Seq<char>, RegistrationView>, name: Seq<char>) -> Option<
    RegistrationView,
> {
    if m.dom().contains(name) {
        Some(m[name])
    } else {
        None
    }
}

impl RegistrationTable {
    /// Adds a row. Refused where the name is taken.
    pub fn create(&mut self, row: Registration) -> (r: Result<(), RegistrationError>)
        requires
            old(self).wf(),
        ensures
            final(self).wf(),
            r is Ok <==> !old(self).by_name().dom().contains(row.name@),
            match r {
                Ok(()) => final(self).by_name() == old(self).by_name().insert(row.name@, row@),
                Err(RegistrationError::Backend(m)) => final(self).by_name()
                    == old(self).by_name() && m@ == "name is taken: "@ + row.name@,
                Err(_) => false,
            },
    {
        if self.get(row.name.as_str()).is_some() {
            return Err(
                RegistrationError::Backend(cat("name is taken: ", row.name.as_str())),
            );
        }
        self.put(row);
        Ok(())
    }

    /// Adds a row, or changes the one with its name; an existing row keeps its
    /// kind and its time of creation.
    pub fn upsert(&mut self, row: Registration)
        requires
            old(self).wf(),
        ensures
            final(self).wf(),
            final(self).by_name() == old(self).by_name().insert(
                row.name@,
                upserted(row_at(old(self).by_name(), row.name@), row@),
            ),
    {
        let mut next = row;
        match self.get(next.name.as_str()) {
            Some(o) => {
                next.kind = o.kind;
                next.created_at = o.created_at;
            },
            None => {},
        }
        self.put(next);
    }

    /// Sets a row's `disabled` flag and the time of its last change; whether
    /// there is such a row.
    pub fn set_disabled(&mut self, name: &str, disabled: bool, now: i64) -> (r: bool)
        requires
            old(self).wf(),
        ensures
            final(self).wf(),
            r == old(self).by_name().dom().contains(name@),
            final(self).by_name() == (if r {
                with_flag(old(self).by_name(), name@, disabled, now)
            } else {
                old(self).by_name()
            }),
    {
        let mut next: Registration = match self.get(name) {
            Some(o) => o.clone(),
            None => {
                return false;
            },
        };
        proof {
            lemma_rows_named(self.rows(), name@);
        }
        next.disabled = disabled;
        next.updated_at = now;
        self.put(next);
        true
    }
}

/// A row that takes the place of another keeps that one's kind and when it was made, and is
/// else as given.
pub proof fn law_replaced_rows_keep_kind_and_time(
    old_row: Option<RegistrationView>,
    row: RegistrationView,
)
    ensures
        old_row is None ==> upserted(old_row, row) == row,
        old_row matches Some(o) ==> {
            let r = upserted(old_row, row);
            &&& r.kind == o.kind && r.created_at == o.created_at
            &&& r.name == row.name && r.description == row.description && r.upstream
                == row.upstream
            &&& r.auth == row.auth && r.egress == row.egress && r.timeouts == row.timeouts
            &&& r.body_limit_bytes == row.body_limit_bytes && r.metadata == row.metadata
            &&& r.seed == row.seed && r.disabled == row.disabled && r.updated_at == row.updated_at
        },
{
}

/// What stands under a name is a row of that name.
pub proof fn law_rows_stand_under_their_names(v: Seq<RegistrationView>, name: Seq<char>, i: int)
    requires
        ordered_rows(v),
    ensures
        row_at(rows_by_name(v), name) matches Some(r) ==> r.name == name && v.contains(r),
        0 <= i < v.len() ==> row_at(rows_by_name(v), v[i].name) == Some(v[i]),
{
    if 0 <= i < v.len() {
        lemma_row_by_name(v, i);
    }
    if has_row(v, name) {
        let k = choose|k: int| 0 <= k < v.len() && (#[trigger] v[k]).name == name;
        assert(v[k].name == name);
        assert(v.contains(v[k]));
    }
}

/// The rows after one of them was disabled or enabled.
pub open spec fn with_flag(
    m: Map<Seq<char>, RegistrationView>,
    name: Seq<char>,
    disabled: bool,
    now: i64,
) -> Map<Seq<char>, RegistrationView> {
    m.insert(name, RegistrationView { disabled, updated_at: now, ..m[name] })
}

/// Disabling or enabling a row changes its flag and the time of its last change, and nothing
/// else of it; every other row stays. The last word counts: doing and undoing it gives the
/// row with the time of the undoing.
pub proof fn law_flag_alone_changes(
    m: Map<Seq<char>, RegistrationView>,
    name: Seq<char>,
    other: Seq<char>,
    disabled: bool,
    now: i64,
    later: i64,
)
    requires
        m.contains_key(name),
    ensures
        ({
            let r = with_flag(m, name, disabled, now);
            &&& r.dom() == m.dom()
            &&& r[name].disabled == disabled
            &&& r[name].updated_at == now
            &&& r[name].name == m[name].name
            &&& r[name].kind == m[name].kind
            &&& r[name].description == m[name].description
            &&& r[name].upstream == m[name].upstream
            &&& r[name].auth == m[name].auth
            &&& r[name].egress == m[name].egress
            &&& r[name].timeouts == m[name].timeouts
            &&& r[name].body_limit_bytes == m[name].body_limit_bytes
            &&& r[name].metadata == m[name].metadata
            &&& r[name].seed == m[name].seed
            &&& r[name].created_at == m[name].created_at
            &&& other != name ==> r[other] == m[other]
            &&& with_flag(r, name, m[name].disabled, later)[name] == (RegistrationView {
                updated_at: later,
                ..m[name]
            })
        }),
{
    let r = with_flag(m, name, disabled, now);
    assert(r.dom() =~= m.dom());
}

} // verus!
