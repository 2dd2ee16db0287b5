use vstd::prelude::*;

use crate::data::Aggregate;
use crate::data::ProfileData;

verus! {

/// Each entry pairs a name with its aggregate; a name occurs at most once.
spec fn entries_wf(s: Seq<(String, ProfileData)>) -> bool {
    forall|i: int, j: int| 0 <= i < j < s.len() ==> s[i].0@ != s[j].0@
}

/// The map an entry list denotes: each name present in the list is mapped to
/// the aggregate stored beside it.
spec fn entries_view(s: Seq<(String, ProfileData)>) -> Map<Seq<char>, Aggregate> {
    Map::new(
        |name: Seq<char>| exists|i: int| 0 <= i < s.len() && s[i].0@ == name,
        |name: Seq<char>|
            {
                let i = choose|i: int| 0 <= i < s.len() && s[i].0@ == name;
                s[i].1@
            },
    )
}

/// An entry of a well-formed list is visible in the denoted map, under its
/// name and with its aggregate.
proof fn lemma_entries_view_at(s: Seq<(String, ProfileData)>, i: int)
    requires
        entries_wf(s),
        0 <= i < s.len(),
    ensures
        entries_view(s).contains_key(s[i].0@),
        entries_view(s)[s[i].0@] == s[i].1@,
{
    let name = s[i].0@;
    assert(exists|k: int| 0 <= k < s.len() && s[k].0@ == name) by {
        assert(0 <= i < s.len() && s[i].0@ == name);
    }
    let j = choose|j: int| 0 <= j < s.len() && s[j].0@ == name;
    if i != j {
        assert(s[i].0@ != s[j].0@);
    }
}

/// Removing an entry and inserting another at the same index updates that
/// index and leaves every other entry in place.
proof fn lemma_remove_insert_is_update(s: Seq<(String, ProfileData)>, i: int, p: (String, ProfileData))
    requires
        0 <= i < s.len(),
    ensures
        s.remove(i).insert(i, p) =~= s.update(i, p),
{
    s.remove_ensures(i);
    s.remove(i).insert_ensures(i, p);
    let s2 = s.remove(i).insert(i, p);
    assert forall|k: int| 0 <= k < s.len() implies s2[k] == s.update(i, p)[k] by {
        if k < i {
            assert(s2[k] == s.remove(i)[k]);
        } else if k > i {
            assert(s2[k] == s.remove(i)[k - 1]);
            assert(s.remove(i)[k - 1] == s[k]);
        }
    }
}

/// Updating the aggregate stored at one index, name kept, keeps the entry
/// list well formed and replaces exactly that name's value in the map.
proof fn lemma_view_update(s: Seq<(String, ProfileData)>, i: int, p: (String, ProfileData))
    requires
        entries_wf(s),
        0 <= i < s.len(),
        p.0@ == s[i].0@,
    ensures
        entries_wf(s.update(i, p)),
        entries_view(s.update(i, p)) =~= entries_view(s).insert(s[i].0@, p.1@),
{
    let s2 = s.update(i, p);
    assert(forall|k: int| 0 <= k < s2.len() ==> #[trigger] s2[k].0@ == s[k].0@);
    assert(entries_wf(s2));
    let m1 = entries_view(s2);
    let m2 = entries_view(s).insert(s[i].0@, p.1@);
    assert forall|name: Seq<char>| #[trigger] m1.contains_key(name) implies m2.contains_key(name)
        && m1[name] == m2[name] by {
        let k = choose|k: int| 0 <= k < s2.len() && s2[k].0@ == name;
        lemma_entries_view_at(s2, k);
        if k == i {
            assert(m2.contains_key(name) && m2[name] == p.1@);
        } else {
            assert(s2[k].0@ != s[i].0@);
            lemma_entries_view_at(s, k);
        }
    }
    assert forall|name: Seq<char>| #[trigger] m2.contains_key(name) implies m1.contains_key(name) by {
        if name == s[i].0@ {
            lemma_entries_view_at(s2, i);
        } else {
            let k = choose|k: int| 0 <= k < s.len() && s[k].0@ == name;
            lemma_entries_view_at(s2, k);
        }
    }
    assert(m1 =~= m2);
}

/// Appending an entry under a fresh name keeps the entry list well formed
/// and adds exactly that name to the map.
proof fn lemma_view_push(s: Seq<(String, ProfileData)>, p: (String, ProfileData))
    requires
        entries_wf(s),
        forall|i: int| 0 <= i < s.len() ==> s[i].0@ != p.0@,
    ensures
        entries_wf(s.push(p)),
        !entries_view(s).contains_key(p.0@),
        entries_view(s.push(p)) =~= entries_view(s).insert(p.0@, p.1@),
{
    let s2 = s.push(p);
    assert(forall|k: int| 0 <= k < s.len() ==> #[trigger] s2[k] == s[k]);
    assert(s2[s.len() as int] == p);
    assert(entries_wf(s2));
    let m1 = entries_view(s2);
    let m2 = entries_view(s).insert(p.0@, p.1@);
    assert forall|name: Seq<char>| #[trigger] m1.contains_key(name) implies m2.contains_key(name)
        && m1[name] == m2[name] by {
        let k = choose|k: int| 0 <= k < s2.len() && s2[k].0@ == name;
        lemma_entries_view_at(s2, k);
        if k == s.len() {
            assert(m2.contains_key(name) && m2[name] == p.1@);
        } else {
            assert(s2[k].0@ != p.0@);
            lemma_entries_view_at(s, k);
        }
    }
    assert forall|name: Seq<char>| #[trigger] m2.contains_key(name) implies m1.contains_key(name) by {
        if name == p.0@ {
            lemma_entries_view_at(s2, s.len() as int);
        } else {
            let k = choose|k: int| 0 <= k < s.len() && s[k].0@ == name;
            lemma_entries_view_at(s2, k);
        }
    }
    assert(m1 =~= m2);
}

/// The collection of every aggregate recorded so far, keyed by logical name.
///
/// Seen through its view, a registry is a map from names to [`Aggregate`]
/// values. It is created empty, aggregates are only ever created or grown,
/// and callers only ever receive copies of its state.
pub struct Registry {
    entries: Vec<(String, ProfileData)>,
}

/// The effect of merging one sample into a registry map: the first sample
/// under a name creates its aggregate, a later one grows total and count.
pub open spec fn record_model(
    m: Map<Seq<char>, Aggregate>,
    name: Seq<char>,
    duration_nanos: int,
) -> Map<Seq<char>, Aggregate> {
    if m.contains_key(name) {
        m.insert(name, Aggregate { total: m[name].total + duration_nanos, count: m[name].count + 1 })
    } else {
        m.insert(name, Aggregate { total: duration_nanos, count: 1 })
    }
}

impl Registry {
    #[verifier::type_invariant]
    spec fn wf(self) -> bool {
        entries_wf(self.entries@)
    }

    pub closed spec fn view(&self) -> Map<Seq<char>, Aggregate> {
        entries_view(self.entries@)
    }

    /// A registry with no aggregates at all.
    pub fn new() -> (r: Self)
        ensures
            r@ == Map::<Seq<char>, Aggregate>::empty(),
    {
        let r = Registry { entries: Vec::new() };
        proof {
            assert(r@ =~= Map::<Seq<char>, Aggregate>::empty());
        }
        r
    }
}

/// Merge one sample under `name`: the first sample for a name creates its
/// aggregate with `count = 1`, a later one grows total and count together, as
/// one unit. No other name's aggregate is touched.
///
/// Returns `false`, leaving the registry unchanged, exactly when the grown
/// total or count would no longer fit its field; otherwise the sample is
/// merged and the call returns `true`.
pub fn try_record_data(registry: &mut Registry, name: &str, duration_nanos: u128) -> (ok: bool)
    ensures
        ok == (old(registry)@.contains_key(name@) ==> (old(registry)@[name@].total
            + duration_nanos <= u128::MAX && old(registry)@[name@].count + 1 <= u64::MAX)),
        ok ==> final(registry)@ == record_model(old(registry)@, name@, duration_nanos as int),
        !ok ==> final(registry)@ == old(registry)@,
        forall|k: Seq<char>| k != name@ ==> (#[trigger] final(registry)@.contains_key(k)
            <==> old(registry)@.contains_key(k)),
        forall|k: Seq<char>| k != name@ && old(registry)@.contains_key(k)
            ==> #[trigger] final(registry)@[k] == old(registry)@[k],
{
    proof {
        use_type_invariant(&*registry);
    }
    let ghost m0 = registry@;
    let mut entries: Vec<(String, ProfileData)> = Vec::new();
    std::mem::swap(&mut entries, &mut registry.entries);
    let ghost s0 = entries@;
    let owned: String = name.to_owned();
    let mut idx: usize = 0;
    let mut found: bool = false;
    let mut pos: usize = 0;
    while idx < entries.len() && !found
        invariant
            entries@ == s0,
            owned@ == name@,
            idx <= s0.len(),
            !found ==> forall|j: int| 0 <= j < idx ==> s0[j].0@ != name@,
            found ==> 0 <= pos < s0.len() && s0[pos as int].0@ == name@,
        decreases s0.len() - idx + (if found { 0int } else { 1int }),
    {
        if entries[idx].0 == owned {
            found = true;
            pos = idx;
        } else {
            idx += 1;
        }
    }
    if found {
        proof {
            lemma_entries_view_at(s0, pos as int);
        }
        let pair = entries.remove(pos);
        if pair.1.total_execution_time <= u128::MAX - duration_nanos
            && pair.1.number_of_executions < u64::MAX {
            let updated = pair.1.add_sample(duration_nanos);
            let new_pair = (pair.0, updated);
            proof {
                lemma_remove_insert_is_update(s0, pos as int, new_pair);
                lemma_view_update(s0, pos as int, new_pair);
            }
            entries.insert(pos, new_pair);
            registry.entries = entries;
            proof {
                assert(registry.entries@ =~= s0.update(pos as int, new_pair));
                assert(registry@ =~= record_model(m0, name@, duration_nanos as int));
            }
            true
        } else {
            proof {
                lemma_remove_insert_is_update(s0, pos as int, s0[pos as int]);
                assert(s0.update(pos as int, s0[pos as int]) =~= s0);
            }
            entries.insert(pos, pair);
            registry.entries = entries;
            proof {
                assert(registry.entries@ =~= s0);
                assert(registry@ == m0);
            }
            false
        }
    } else {
        let new_pair = (owned, ProfileData { total_execution_time: duration_nanos, number_of_executions: 1 });
        proof {
            lemma_view_push(s0, new_pair);
        }
        entries.push(new_pair);
        registry.entries = entries;
        proof {
            assert(registry@ =~= record_model(m0, name@, duration_nanos as int));
        }
        true
    }
}

/// Merge one sample under `name`, creating the aggregate on first use.
///
/// The caller keeps the grown total and count within their fields' bounds;
/// [`try_record_data`] checks the same bounds at run time instead.
pub fn record_data(registry: &mut Registry, name: &str, duration_nanos: u128)
    requires
        old(registry)@.contains_key(name@) ==> (old(registry)@[name@].total + duration_nanos
            <= u128::MAX && old(registry)@[name@].count + 1 <= u64::MAX),
    ensures
        final(registry)@ == record_model(old(registry)@, name@, duration_nanos as int),
        final(registry)@.contains_key(name@),
        forall|k: Seq<char>| k != name@ ==> (#[trigger] final(registry)@.contains_key(k)
            <==> old(registry)@.contains_key(k)),
        forall|k: Seq<char>| k != name@ && old(registry)@.contains_key(k)
            ==> #[trigger] final(registry)@[k] == old(registry)@[k],
{
    let ok = try_record_data(registry, name, duration_nanos);
    proof {
        assert(ok);
    }
}

/// The pairs of `r` stand in non-decreasing order of total execution time.
spec fn sorted_by_total(r: Seq<(String, ProfileData)>) -> bool {
    forall|i: int, j: int| 0 <= i <= j < r.len() ==> r[i].1.total_execution_time
        <= r[j].1.total_execution_time
}

/// A consistent copy of every aggregate in the registry, as `(name, data)`
/// pairs in non-decreasing order of total execution time.
///
/// Every pair in the result is an aggregate of the registry under its name,
/// every recorded name appears exactly once, and ties between equal totals
/// carry no promised order.
#[verifier::rlimit(100)]
pub fn get_data(registry: &Registry) -> (result: Vec<(String, ProfileData)>)
    ensures
        forall|i: int| 0 <= i < result@.len() ==> registry@.contains_key(
            (#[trigger] result@[i]).0@,
        ) && registry@[result@[i].0@] == result@[i].1@,
        forall|k: Seq<char>| #[trigger] registry@.contains_key(k) ==> exists|i: int|
            0 <= i < result@.len() && result@[i].0@ == k,
        forall|i: int, j: int| 0 <= i < j < result@.len() ==> result@[i].0@ != result@[j].0@,
        forall|i: int, j: int| 0 <= i <= j < result@.len() ==> result@[i].1@.total
            <= result@[j].1@.total,
{
    proof {
        use_type_invariant(&*registry);
    }
    let ghost s0 = registry.entries@;
    let mut result: Vec<(String, ProfileData)> = Vec::new();
    // For each pair of the result, the index of the entry it copies; and for
    // each entry copied so far, the position of its pair in the result.
    let ghost mut src: Seq<int> = Seq::empty();
    let ghost mut slot: Seq<int> = Seq::empty();
    let mut idx: usize = 0;
    while idx < registry.entries.len()
        invariant
            registry.entries@ == s0,
            entries_wf(s0),
            idx <= s0.len(),
            src.len() == result@.len(),
            forall|i: int| 0 <= i < result@.len() ==> 0 <= #[trigger] src[i] < idx
                && result@[i].0@ == s0[src[i]].0@ && result@[i].1 == s0[src[i]].1,
            forall|i1: int, i2: int| 0 <= i1 < i2 < src.len() ==> #[trigger] src[i1]
                != #[trigger] src[i2],
            slot.len() == idx,
            forall|j: int| 0 <= j < idx ==> 0 <= #[trigger] slot[j] < result@.len()
                && result@[slot[j]].0@ == s0[j].0@ && result@[slot[j]].1 == s0[j].1,
            sorted_by_total(result@),
        decreases s0.len() - idx,
    {
        let name = registry.entries[idx].0.clone();
        let data = registry.entries[idx].1;
        let ghost r0 = result@;
        let mut pos: usize = 0;
        while pos < result.len() && result[pos].1.total_execution_time <= data.total_execution_time
            invariant
                result@ == r0,
                pos <= r0.len(),
                forall|i: int| 0 <= i < pos ==> r0[i].1.total_execution_time
                    <= data.total_execution_time,
            decreases r0.len() - pos,
        {
            pos += 1;
        }
        result.insert(pos, (name, data));
        proof {
            let p = pos as int;
            let n = idx as int;
            let r1 = result@;
            r0.insert_ensures(p, (name, data));
            let src0 = src;
            let slot0 = slot;
            src = src0.insert(p, n);
            src0.insert_ensures(p, n);
            slot = Seq::new((n + 1) as nat, |j: int| if j == n {
                p
            } else if slot0[j] < p {
                slot0[j]
            } else {
                slot0[j] + 1
            });
            assert forall|i: int| 0 <= i < r1.len() implies 0 <= #[trigger] src[i] < n + 1
                && r1[i].0@ == s0[src[i]].0@ && r1[i].1 == s0[src[i]].1 by {
                if i < p {
                    assert(src[i] == src0[i] && r1[i] == r0[i]);
                } else if i > p {
                    assert(src[i] == src0[i - 1] && r1[i] == r0[i - 1]);
                }
            }
            assert forall|i1: int, i2: int| 0 <= i1 < i2 < src.len() implies #[trigger] src[i1]
                != #[trigger] src[i2] by {
                let o1: int = if i1 < p { i1 } else { i1 - 1 };
                let o2: int = if i2 < p { i2 } else { i2 - 1 };
                if i1 == p {
                    assert(src[i2] == src0[o2] && src0[o2] < n);
                } else if i2 == p {
                    assert(src[i1] == src0[o1] && src0[o1] < n);
                } else {
                    assert(src[i1] == src0[o1] && src[i2] == src0[o2]);
                    assert(o1 < o2);
                }
            }
            assert forall|j: int| 0 <= j < n + 1 implies 0 <= #[trigger] slot[j] < r1.len()
                && r1[slot[j]].0@ == s0[j].0@ && r1[slot[j]].1 == s0[j].1 by {
                if j < n {
                    if slot0[j] < p {
                        assert(r1[slot0[j]] == r0[slot0[j]]);
                    } else {
                        assert(r1[slot0[j] + 1] == r0[slot0[j]]);
                    }
                } else {
                    assert(r1[p].0@ == s0[n].0@ && r1[p].1 == s0[n].1);
                }
            }
            assert forall|i1: int, i2: int| 0 <= i1 <= i2 < r1.len() implies r1[i1].1.total_execution_time
                <= r1[i2].1.total_execution_time by {
                if i1 < p && i2 >= p {
                    assert(r1[i1] == r0[i1]);
                    assert(r0[i1].1.total_execution_time <= data.total_execution_time);
                    if i2 > p {
                        assert(r1[i2] == r0[i2 - 1]);
                        assert(data.total_execution_time < r0[p].1.total_execution_time);
                        assert(r0[p].1.total_execution_time <= r0[i2 - 1].1.total_execution_time);
                    }
                } else if i1 == p && i2 > p {
                    assert(r1[i2] == r0[i2 - 1]);
                    assert(data.total_execution_time < r0[p].1.total_execution_time);
                    assert(r0[p].1.total_execution_time <= r0[i2 - 1].1.total_execution_time);
                } else if i1 > p {
                    assert(r1[i1] == r0[i1 - 1] && r1[i2] == r0[i2 - 1]);
                } else if i2 < p {
                    assert(r1[i1] == r0[i1] && r1[i2] == r0[i2]);
                }
            }
        }
        idx += 1;
    }
    proof {
        assert forall|i1: int, i2: int| 0 <= i1 < i2 < result@.len() implies result@[i1].0@
            != result@[i2].0@ by {
            assert(src[i1] != src[i2]);
            assert(s0[src[i1]].0@ != s0[src[i2]].0@);
        }
        assert forall|i: int| 0 <= i < result@.len() implies registry@.contains_key(
            (#[trigger] result@[i]).0@,
        ) && registry@[result@[i].0@] == result@[i].1@ by {
            lemma_entries_view_at(s0, src[i]);
        }
        assert forall|k: Seq<char>| #[trigger] registry@.contains_key(k) implies exists|i: int|
            0 <= i < result@.len() && result@[i].0@ == k by {
            let j0 = choose|j: int| 0 <= j < s0.len() && s0[j].0@ == k;
            assert(0 <= slot[j0] < result@.len() && result@[slot[j0]].0@ == k);
        }
    }
    result
}

} // verus!
