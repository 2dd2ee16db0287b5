use vstd::prelude::*;

use crate::data::Aggregate;
use crate::registry::record_model;

verus! {

/// The registry map after every duration of `ds` has been recorded under
/// `name`, first element first.
pub open spec fn record_all(
    m: Map<Seq<char>, Aggregate>,
    name: Seq<char>,
    ds: Seq<int>,
) -> Map<Seq<char>, Aggregate>
    decreases ds.len(),
{
    if ds.len() == 0 {
        m
    } else {
        record_all(record_model(m, name, ds.first()), name, ds.drop_first())
    }
}

/// The sum of a sequence of durations.
pub open spec fn duration_sum(ds: Seq<int>) -> int
    decreases ds.len(),
{
    if ds.len() == 0 {
        0
    } else {
        ds.first() + duration_sum(ds.drop_first())
    }
}

/// One sample merged into an empty registry yields exactly one aggregate:
/// the sample's name, its duration as the total, and a count of one.
pub proof fn lemma_single_accumulation(name: Seq<char>, duration_nanos: int)
    ensures
        record_model(Map::<Seq<char>, Aggregate>::empty(), name, duration_nanos).dom()
            =~= Set::<Seq<char>>::empty().insert(name),
        record_model(Map::<Seq<char>, Aggregate>::empty(), name, duration_nanos)[name]
            == (Aggregate { total: duration_nanos, count: 1 }),
{
}

/// Recording a sequence of samples under one name grows that name's count by
/// how many samples there were and its total by their sum, and leaves every
/// other name's aggregate untouched: the resulting registry is determined by
/// those two numbers alone, not by the order in which the samples arrived.
pub proof fn lemma_accumulation(m: Map<Seq<char>, Aggregate>, name: Seq<char>, ds: Seq<int>)
    requires
        ds.len() > 0,
    ensures
        record_all(m, name, ds).contains_key(name),
        record_all(m, name, ds)[name].total == (if m.contains_key(name) {
            m[name].total
        } else {
            0
        }) + duration_sum(ds),
        record_all(m, name, ds)[name].count == (if m.contains_key(name) {
            m[name].count
        } else {
            0
        }) + ds.len(),
        forall|k: Seq<char>| k != name ==> (#[trigger] record_all(m, name, ds).contains_key(k)
            <==> m.contains_key(k)),
        forall|k: Seq<char>| k != name && m.contains_key(k) ==> #[trigger] record_all(
            m,
            name,
            ds,
        )[k] == m[k],
        record_all(m, name, ds) == m.insert(
            name,
            (Aggregate {
                total: (if m.contains_key(name) {
                    m[name].total
                } else {
                    0
                }) + duration_sum(ds),
                count: (if m.contains_key(name) {
                    m[name].count
                } else {
                    0
                }) + ds.len(),
            }),
        ),
    decreases ds.len(),
{
    let m1 = record_model(m, name, ds.first());
    assert(record_all(m, name, ds) == record_all(m1, name, ds.drop_first()));
    assert(duration_sum(ds) == ds.first() + duration_sum(ds.drop_first()));
    if ds.len() == 1 {
        assert(ds.drop_first().len() == 0);
        assert(duration_sum(ds.drop_first()) == 0);
        assert(record_all(m1, name, ds.drop_first()) == m1);
    } else {
        lemma_accumulation(m1, name, ds.drop_first());
    }
    let total0: int = if m.contains_key(name) {
        m[name].total
    } else {
        0
    };
    let count0: int = if m.contains_key(name) {
        m[name].count
    } else {
        0
    };
    let merged = Aggregate { total: total0 + duration_sum(ds), count: count0 + ds.len() };
    assert(record_all(m, name, ds) =~= m.insert(name, merged));
}

/// Merging samples commutes: two records can swap places without changing
/// the resulting map, whether their names agree or differ. Any serialization
/// of concurrent `record` calls therefore ends in the same registry.
pub proof fn lemma_record_commutes(
    m: Map<Seq<char>, Aggregate>,
    name1: Seq<char>,
    d1: int,
    name2: Seq<char>,
    d2: int,
)
    ensures
        record_model(record_model(m, name1, d1), name2, d2) == record_model(
            record_model(m, name2, d2),
            name1,
            d1,
        ),
{
    let a = record_model(record_model(m, name1, d1), name2, d2);
    let b = record_model(record_model(m, name2, d2), name1, d1);
    assert(a =~= b);
}

proof fn lemma_const_sum(d: int, n: nat)
    ensures
        duration_sum(Seq::new(n, |i: int| d)) == n * d,
    decreases n,
{
    let s = Seq::new(n, |i: int| d);
    if n == 0 {
        assert(n * d == 0) by (nonlinear_arith)
            requires n == 0;
    } else {
        assert(s.drop_first() =~= Seq::new((n - 1) as nat, |i: int| d));
        lemma_const_sum(d, (n - 1) as nat);
        assert(d + (n - 1) * d == n * d) by (nonlinear_arith);
    }
}

/// However `n` calls recording one duration under one name interleave, their
/// serialized effect is `n` merges: the count grows by `n` and the total by
/// `n` times that duration, and no update is lost.
pub proof fn lemma_repeated_accumulation(
    m: Map<Seq<char>, Aggregate>,
    name: Seq<char>,
    d: int,
    n: nat,
)
    requires
        n > 0,
    ensures
        record_all(m, name, Seq::new(n, |i: int| d)).contains_key(name),
        record_all(m, name, Seq::new(n, |i: int| d))[name].total == (if m.contains_key(name) {
            m[name].total
        } else {
            0
        }) + n * d,
        record_all(m, name, Seq::new(n, |i: int| d))[name].count == (if m.contains_key(name) {
            m[name].count
        } else {
            0
        }) + n,
{
    lemma_accumulation(m, name, Seq::new(n, |i: int| d));
    lemma_const_sum(d, n);
}

} // verus!
