use vstd::prelude::*;

use crate::text::{lemma_unit_name_injective, occurs_in, unit_name};
use crate::types::{EntryView, UnitStatus, UnitType};

verus! {

/// No two entries share a name.
pub open spec fn names_unique(s: Seq<EntryView>) -> bool {
    forall|i: int, j: int|
        0 <= i < s.len() && 0 <= j < s.len() && (#[trigger] s[i]).name == (#[trigger] s[j]).name
            ==> i == j
}

/// Some entry is named `n`.
pub open spec fn has_name(s: Seq<EntryView>, n: Seq<char>) -> bool {
    exists|i: int| 0 <= i < s.len() && (#[trigger] s[i]).name == n
}

/// The position of the entry named `n`, where there is one.
pub open spec fn index_of(s: Seq<EntryView>, n: Seq<char>) -> int {
    choose|i: int| 0 <= i < s.len() && (#[trigger] s[i]).name == n
}

/// The entry named `n`, where there is one.
pub open spec fn entry_named(s: Seq<EntryView>, n: Seq<char>) -> EntryView {
    s[index_of(s, n)]
}

/// `e` stored under its name: it takes the place of an entry of that name,
/// or comes last where there is none.
pub open spec fn upsert(s: Seq<EntryView>, e: EntryView) -> Seq<EntryView> {
    if has_name(s, e.name) {
        s.update(index_of(s, e.name), e)
    } else {
        s.push(e)
    }
}

/// The entries but the one named `n`.
pub open spec fn without_name(s: Seq<EntryView>, n: Seq<char>) -> Seq<EntryView> {
    s.remove(index_of(s, n))
}

/// The entries, with the status of the one named `n` set to `status`.
pub open spec fn with_status(s: Seq<EntryView>, n: Seq<char>, status: UnitStatus) -> Seq<
    EntryView,
> {
    let e = entry_named(s, n);
    s.update(
        index_of(s, n),
        EntryView { name: e.name, unit_type: e.unit_type, status: status, watch: e.watch },
    )
}

/// The entries whose name contains `sub`, in order.
pub open spec fn named_like(s: Seq<EntryView>, sub: Seq<char>) -> Seq<EntryView> {
    s.filter(|e: EntryView| occurs_in(sub, e.name))
}

/// The entries of type `t`, in order.
pub open spec fn of_type(s: Seq<EntryView>, t: UnitType) -> Seq<EntryView> {
    s.filter(|e: EntryView| e.unit_type == t)
}

/// The entries marked for watching, in order.
pub open spec fn watched(s: Seq<EntryView>) -> Seq<EntryView> {
    s.filter(|e: EntryView| e.watch)
}

/// Where names are unique, the entry named `n` stands at the one position
/// that holds that name.
pub proof fn lemma_index_of(s: Seq<EntryView>, n: Seq<char>, i: int)
    requires
        names_unique(s),
        0 <= i < s.len(),
        s[i].name == n,
    ensures
        index_of(s, n) == i,
        has_name(s, n),
        entry_named(s, n) == s[i],
{
}

/// Registering keeps names unique, and leaves exactly one entry under the
/// new entry's name: the new entry. Every other entry stays.
pub proof fn law_register_unique(s: Seq<EntryView>, e: EntryView)
    requires
        names_unique(s),
    ensures
        names_unique(upsert(s, e)),
        has_name(upsert(s, e), e.name),
        forall|i: int|
            0 <= i < upsert(s, e).len() && (#[trigger] upsert(s, e)[i]).name == e.name
                ==> upsert(s, e)[i] == e,
        forall|x: EntryView|
            upsert(s, e).contains(x) <==> (x == e || (s.contains(x) && x.name != e.name)),
{
    let r = upsert(s, e);
    if has_name(s, e.name) {
        let k = index_of(s, e.name);
        assert(r[k] == e);
        assert forall|x: EntryView| r.contains(x) <==> (x == e || (s.contains(x) && x.name
            != e.name)) by {
            if r.contains(x) {
                let j = choose|j: int| 0 <= j < r.len() && r[j] == x;
                if j != k {
                    assert(s[j] == x);
                }
            }
            if s.contains(x) && x.name != e.name {
                let j = choose|j: int| 0 <= j < s.len() && s[j] == x;
                assert(r[j] == x);
            }
        }
    } else {
        let k = s.len() as int;
        assert(r[k] == e);
        assert forall|x: EntryView| r.contains(x) <==> (x == e || (s.contains(x) && x.name
            != e.name)) by {
            if r.contains(x) {
                let j = choose|j: int| 0 <= j < r.len() && r[j] == x;
                if j != k {
                    assert(s[j] == x);
                }
            }
            if s.contains(x) && x.name != e.name {
                let j = choose|j: int| 0 <= j < s.len() && s[j] == x;
                assert(r[j] == x);
            }
        }
    }
}

/// After registering `e`, looking up its name gives `e` back.
pub proof fn law_lookup_round_trip(s: Seq<EntryView>, e: EntryView)
    requires
        names_unique(s),
    ensures
        has_name(upsert(s, e), e.name),
        entry_named(upsert(s, e), e.name) == e,
{
    law_register_unique(s, e);
    let r = upsert(s, e);
    let i = index_of(r, e.name);
    assert(r[i].name == e.name);
}

/// Removing the entry named `n` removes exactly that entry: the name is gone
/// afterwards, and every other entry stays.
pub proof fn law_deregister_removes(s: Seq<EntryView>, n: Seq<char>)
    requires
        names_unique(s),
        has_name(s, n),
    ensures
        names_unique(without_name(s, n)),
        !has_name(without_name(s, n), n),
        without_name(s, n).len() == s.len() - 1,
        forall|x: EntryView| without_name(s, n).contains(x) <==> (s.contains(x) && x.name != n),
{
    let k = index_of(s, n);
    let r = without_name(s, n);
    assert forall|j: int| 0 <= j < r.len() implies r[j] == (if j < k {
        s[j]
    } else {
        s[j + 1]
    }) by {}
    assert forall|x: EntryView| r.contains(x) <==> (s.contains(x) && x.name != n) by {
        if r.contains(x) {
            let j = choose|j: int| 0 <= j < r.len() && r[j] == x;
            if j < k {
                assert(s[j] == x);
            } else {
                assert(s[j + 1] == x);
            }
        }
        if s.contains(x) && x.name != n {
            let j = choose|j: int| 0 <= j < s.len() && s[j] == x;
            if j < k {
                assert(r[j] == x);
            } else {
                assert(r[j - 1] == x);
            }
        }
    }
    assert(!has_name(r, n)) by {
        if has_name(r, n) {
            let j = choose|j: int| 0 <= j < r.len() && (#[trigger] r[j]).name == n;
            if j < k {
                assert(s[j].name == n);
            } else {
                assert(s[j + 1].name == n);
            }
        }
    }
}

/// Setting the status of a present entry changes that status and nothing
/// else: the entry keeps its name, type and watch flag, and every other
/// entry stays as it was.
pub proof fn law_update_status_only(s: Seq<EntryView>, n: Seq<char>, status: UnitStatus)
    requires
        names_unique(s),
        has_name(s, n),
    ensures
        names_unique(with_status(s, n, status)),
        with_status(s, n, status).len() == s.len(),
        has_name(with_status(s, n, status), n),
        entry_named(with_status(s, n, status), n).status == status,
        entry_named(with_status(s, n, status), n).name == entry_named(s, n).name,
        entry_named(with_status(s, n, status), n).unit_type == entry_named(s, n).unit_type,
        entry_named(with_status(s, n, status), n).watch == entry_named(s, n).watch,
        forall|i: int|
            0 <= i < s.len() && s[i].name != n ==> #[trigger] with_status(s, n, status)[i]
                == s[i],
{
    let k = index_of(s, n);
    let r = with_status(s, n, status);
    assert(r[k].name == n);
    lemma_index_of(r, n, k);
}

/// An entry is on the watch list exactly when it is in the registry and is
/// marked for watching, whatever its type or status.
pub proof fn law_watch_filter(s: Seq<EntryView>, x: EntryView)
    ensures
        watched(s).contains(x) <==> (s.contains(x) && x.watch),
{
    broadcast use Seq::lemma_filter_contains_rev;

    if s.contains(x) && x.watch {
        let i = choose|i: int| 0 <= i < s.len() && s[i] == x;
        s.lemma_filter_contains(|e: EntryView| e.watch, i);
    }
}

/// An entry is among the matches of a substring exactly when it is in the
/// registry and its name contains the substring.
pub proof fn law_substring_filter(s: Seq<EntryView>, sub: Seq<char>, x: EntryView)
    ensures
        named_like(s, sub).contains(x) <==> (s.contains(x) && occurs_in(sub, x.name)),
{
    broadcast use Seq::lemma_filter_contains_rev;

    if s.contains(x) && occurs_in(sub, x.name) {
        let i = choose|i: int| 0 <= i < s.len() && s[i] == x;
        s.lemma_filter_contains(|e: EntryView| occurs_in(sub, e.name), i);
    }
}

/// An entry is among the entries of type `t` exactly when it is in the
/// registry and has type `t`.
pub proof fn law_type_filter(s: Seq<EntryView>, t: UnitType, x: EntryView)
    ensures
        of_type(s, t).contains(x) <==> (s.contains(x) && x.unit_type == t),
{
    broadcast use Seq::lemma_filter_contains_rev;

    if s.contains(x) && x.unit_type == t {
        let i = choose|i: int| 0 <= i < s.len() && s[i] == x;
        s.lemma_filter_contains(|e: EntryView| e.unit_type == t, i);
    }
}

/// `unit_name(base, n)` is free in `s`, and every earlier candidate is taken.
pub open spec fn first_free(s: Seq<EntryView>, base: Seq<char>, n: nat) -> bool {
    &&& !has_name(s, unit_name(base, n))
    &&& forall|m: nat| m < n ==> has_name(s, #[trigger] unit_name(base, m))
}

/// Distinct entries hold distinct names, so at most `s.len()` of the
/// candidates `unit_name(base, 0)`, `unit_name(base, 1)`, ... are taken.
pub proof fn lemma_taken_names_bound(s: Seq<EntryView>, base: Seq<char>, k: nat)
    requires
        forall|m: nat| m < k ==> has_name(s, #[trigger] unit_name(base, m)),
    ensures
        k <= s.len(),
{
    broadcast use vstd::seq_lib::seq_to_set_is_finite;

    let cands = Seq::new(k, |m: int| unit_name(base, m as nat));
    let names = s.map_values(|e: EntryView| e.name);
    assert(cands.no_duplicates()) by {
        assert forall|i: int, j: int| 0 <= i < cands.len() && 0 <= j < cands.len() && i != j
            implies cands[i] != cands[j] by {
            if cands[i] == cands[j] {
                lemma_unit_name_injective(base, i as nat, j as nat);
            }
        }
    }
    assert(cands.to_set().subset_of(names.to_set())) by {
        assert forall|x: Seq<char>| cands.to_set().contains(x) implies names.to_set().contains(
            x,
        ) by {
            let i = choose|i: int| 0 <= i < cands.len() && cands[i] == x;
            assert(has_name(s, unit_name(base, i as nat)));
            let j = choose|j: int| 0 <= j < s.len() && (#[trigger] s[j]).name == unit_name(base, i as nat);
            assert(names[j] == x);
        }
    }
    cands.unique_seq_to_set();
    names.lemma_cardinality_of_set();
    vstd::set_lib::lemma_len_subset(cands.to_set(), names.to_set());
}

/// At most one counter is the first free one, and where the counter 0
/// gives a free name, it is that one.
pub proof fn law_first_free_unique(s: Seq<EntryView>, base: Seq<char>, a: nat, b: nat)
    ensures
        first_free(s, base, a) && first_free(s, base, b) ==> a == b,
        !has_name(s, unit_name(base, 0)) ==> first_free(s, base, 0),
{
    if first_free(s, base, a) && first_free(s, base, b) {
        if a < b {
            assert(has_name(s, unit_name(base, a)));
        } else if b < a {
            assert(has_name(s, unit_name(base, b)));
        }
    }
}

} // verus!
