//! The catalogue in memory, as the proxy reads it.
use vstd::prelude::*;

use super::repo::{Registration, RegistrationView};
use super::table::{ordered_rows, row_at, row_views, rows_by_name, RegistrationTable};
use super::Kind;

verus! {

/// The rows by their names; of two rows with one name the later one counts.
pub open spec fn catalog_of(v: Seq<RegistrationView>) -> Map<Seq<char>, RegistrationView>
    decreases v.len(),
{
    if v.len() == 0 {
        Map::empty()
    } else {
        catalog_of(v.drop_last()).insert(v.last().name, v.last())
    }
}

/// A snapshot of the registrations.
#[derive(Debug)]
pub struct Catalog {
    table: RegistrationTable,
}

impl Catalog {
    /// The rows by their names.
    pub closed spec fn by_name(&self) -> Map<Seq<char>, RegistrationView> {
        self.table.by_name()
    }

    /// The rows, in the order of their names.
    pub closed spec fn rows(&self) -> Seq<RegistrationView> {
        self.table.rows()
    }

    /// The rows stand in the order of their names, each name once.
    pub open spec fn wf(&self) -> bool {
        ordered_rows(self.rows()) && self.by_name() == rows_by_name(self.rows())
    }

    /// A snapshot of the given rows, the disabled ones included.
    pub fn from_rows(rows: Vec<Registration>) -> (r: Catalog)
        ensures
            r.wf(),
            r.by_name() == catalog_of(row_views(rows@)),
    {
        let mut table = RegistrationTable::new();
        let mut i: usize = 0;
        assert(row_views(rows@).take(0) =~= Seq::empty());
        while i < rows.len()
            invariant
                i <= rows@.len(),
                table.wf(),
                table.by_name() == catalog_of(row_views(rows@).take(i as int)),
            decreases rows.len() - i,
        {
            let ghost next = row_views(rows@).take(i + 1);
            assert(next.drop_last() =~= row_views(rows@).take(i as int));
            assert(next.last() == rows@[i as int]@);
            table.put(rows[i].clone());
            i = i + 1;
        }
        assert(row_views(rows@).take(rows@.len() as int) =~= row_views(rows@));
        Catalog { table }
    }

    /// The row with the given name, unless it is disabled.
    pub fn lookup_active(&self, name: &str) -> (r: Option<&Registration>)
        requires
            self.wf(),
        ensures
            match r {
                Some(x) => row_at(self.by_name(), name@) == Some(x@) && !x.disabled,
                None => row_at(self.by_name(), name@) is None || self.by_name()[name@].disabled,
            },
    {
        match self.table.get(name) {
            Some(x) => if x.disabled {
                None
            } else {
                Some(x)
            },
            None => None,
        }
    }

    /// The row with the given name, also where it is disabled.
    pub fn lookup_any(&self, name: &str) -> (r: Option<&Registration>)
        requires
            self.wf(),
        ensures
            match r {
                Some(x) => row_at(self.by_name(), name@) == Some(x@),
                None => row_at(self.by_name(), name@) is None,
            },
    {
        self.table.get(name)
    }

    /// The rows of a kind that are not disabled, in the order of their names.
    pub fn iter_enabled_by_kind(&self, kind: Kind) -> (r: Vec<&Registration>)
        ensures
            row_views(r@.unref()) == self.rows().filter(
                |x: RegistrationView| x.kind == kind && !x.disabled,
            ),
    {
        let all = self.table.list(None);
        let ghost every = |x: RegistrationView| Option::<Kind>::None is None || x.kind == Option::<Kind>::None->0;
        let ghost p = |x: RegistrationView| x.kind == kind && !x.disabled;
        proof {
            lemma_filter_all(self.rows(), every);
        }
        let ghost v = row_views(all@.unref());
        let mut out: Vec<&Registration> = Vec::new();
        let mut i: usize = 0;
        reveal(Seq::filter);
        assert(row_views(out@.unref()) =~= v.take(0).filter(p));
        while i < all.len()
            invariant
                i <= all@.len(),
                v == row_views(all@.unref()),
                p == (|x: RegistrationView| x.kind == kind && !x.disabled),
                row_views(out@.unref()) == v.take(i as int).filter(p),
            decreases all.len() - i,
        {
            let ghost next = v.take(i + 1);
            let ghost prev = out@;
            reveal(Seq::filter);
            assert(next.drop_last() =~= v.take(i as int));
            if all[i].kind == kind && !all[i].disabled {
                out.push(all[i]);
                assert(row_views(out@.unref()) =~= row_views(prev.unref()).push(next.last()));
            }
            i = i + 1;
        }
        assert(v.take(v.len() as int) =~= v);
        out
    }

    /// The number of rows, the disabled ones included.
    pub fn len(&self) -> (r: usize)
        ensures
            r == self.rows().len(),
    {
        self.table.len()
    }

    /// Whether there are no rows.
    pub fn is_empty(&self) -> (r: bool)
        ensures
            r == (self.rows().len() == 0),
    {
        self.table.len() == 0
    }
}

proof fn lemma_filter_all(v: Seq<RegistrationView>, p: spec_fn(RegistrationView) -> bool)
    requires
        forall|x: RegistrationView| #[trigger] p(x),
    ensures
        v.filter(p) == v,
    decreases v.len(),
{
    reveal(Seq::filter);
    if v.len() > 0 {
        lemma_filter_all(v.drop_last(), p);
        assert(v.drop_last().push(v.last()) =~= v);
    } else {
        assert(v.filter(p) =~= v);
    }
}

/// The catalogue has under a name the last row of that name, and nothing where there is none.
pub proof fn law_last_row_of_a_name_counts(
    v: Seq<RegistrationView>,
    r: RegistrationView,
    name: Seq<char>,
)
    ensures
        !catalog_of(Seq::empty()).contains_key(name),
        catalog_of(v.push(r)).contains_key(r.name),
        catalog_of(v.push(r))[r.name] == r,
        name != r.name ==> (catalog_of(v.push(r)).contains_key(name) <==> catalog_of(
            v,
        ).contains_key(name)),
        name != r.name && catalog_of(v).contains_key(name) ==> catalog_of(v.push(r))[name]
            == catalog_of(v)[name],
{
    assert(v.push(r).drop_last() =~= v);
}

} // verus!
