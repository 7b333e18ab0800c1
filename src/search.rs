//! Narrowing the entry list to one namespace and a case-insensitive query.
use vstd::prelude::*;
use crate::entry::{entry_views, CommandEntry, EntryView};
use crate::text::{contains, contains_chars, lower_of, lowercase, starts_with, starts_with_chars, to_chars};

verus! {

/// The folded query `q` occurs in the folded name, a folded tag or the
/// folded description.
pub open spec fn folded_match(
    name: Seq<char>,
    tags: Seq<Seq<char>>,
    description: Seq<char>,
    q: Seq<char>,
) -> bool {
    contains(name, q) || (exists|j: int| 0 <= j < tags.len() && #[trigger] contains(tags[j], q))
        || contains(description, q)
}

/// The folded forms of a list of texts.
pub open spec fn folded_all(ts: Seq<Seq<char>>) -> Seq<Seq<char>> {
    ts.map_values(|t: Seq<char>| lower_of(t))
}

/// Entry `e` matches the folded query `q`.
pub open spec fn entry_matches(e: EntryView, q: Seq<char>) -> bool {
    folded_match(lower_of(e.name), folded_all(e.tags), lower_of(e.description), q)
}

/// The folded name of `e` begins with the folded query `q`.
pub open spec fn name_first(e: EntryView, q: Seq<char>) -> bool {
    starts_with(lower_of(e.name), q)
}

/// Entry `e` belongs to namespace `ns`, matches `q`, and falls in the tier
/// `first` (name begins with the query) or the other one.
pub open spec fn in_tier(e: EntryView, ns: Seq<char>, q: Seq<char>, first: bool) -> bool {
    e.namespace == ns && entry_matches(e, q) && name_first(e, q) == first
}

/// The entries of one tier, in store order.
pub open spec fn tier(es: Seq<EntryView>, ns: Seq<char>, q: Seq<char>, first: bool) -> Seq<EntryView>
    decreases es.len(),
{
    if es.len() == 0 {
        Seq::empty()
    } else {
        let rest = tier(es.drop_last(), ns, q, first);
        if in_tier(es.last(), ns, q, first) {
            rest.push(es.last())
        } else {
            rest
        }
    }
}

/// The entries of namespace `ns`, in store order.
pub open spec fn in_namespace(es: Seq<EntryView>, ns: Seq<char>) -> Seq<EntryView>
    decreases es.len(),
{
    if es.len() == 0 {
        Seq::empty()
    } else {
        let rest = in_namespace(es.drop_last(), ns);
        if es.last().namespace == ns {
            rest.push(es.last())
        } else {
            rest
        }
    }
}

/// The search result for the folded query `q`: the matching entries of `ns`
/// whose name begins with `q`, then the other matching entries of `ns`,
/// each group in store order.
pub open spec fn filter_spec(es: Seq<EntryView>, ns: Seq<char>, q: Seq<char>) -> Seq<EntryView> {
    tier(es, ns, q, true) + tier(es, ns, q, false)
}

proof fn lemma_tier_members(es: Seq<EntryView>, ns: Seq<char>, q: Seq<char>, first: bool)
    ensures
        forall|i: int| 0 <= i < tier(es, ns, q, first).len() ==>
            in_tier(#[trigger] tier(es, ns, q, first)[i], ns, q, first),
    decreases es.len(),
{
    if es.len() > 0 {
        lemma_tier_members(es.drop_last(), ns, q, first);
        let rest = tier(es.drop_last(), ns, q, first);
        assert forall|i: int| 0 <= i < tier(es, ns, q, first).len() implies
            in_tier(#[trigger] tier(es, ns, q, first)[i], ns, q, first) by {
            if i < rest.len() {
                assert(tier(es, ns, q, first)[i] == rest[i]);
            }
        }
    }
}

proof fn lemma_empty_query_tiers(es: Seq<EntryView>, ns: Seq<char>)
    ensures
        tier(es, ns, Seq::empty(), true) == in_namespace(es, ns),
        tier(es, ns, Seq::empty(), false) == Seq::<EntryView>::empty(),
    decreases es.len(),
{
    if es.len() > 0 {
        lemma_empty_query_tiers(es.drop_last(), ns);
        let e = es.last();
        let q = Seq::<char>::empty();
        assert(lower_of(e.name).subrange(0, 0) =~= q);
        assert(starts_with(lower_of(e.name), q));
        assert(contains(lower_of(e.name), q));
    }
}

/// With an empty query the search keeps exactly the entries of the
/// namespace, in store order.
pub proof fn lemma_empty_query_keeps_namespace(es: Seq<EntryView>, ns: Seq<char>)
    ensures
        filter_spec(es, ns, Seq::empty()) == in_namespace(es, ns),
{
    lemma_empty_query_tiers(es, ns);
    assert(filter_spec(es, ns, Seq::empty()) =~= in_namespace(es, ns));
}

/// Every entry that the search returns belongs to the namespace and holds the
/// folded query in its folded name, one of its folded tags or its folded
/// description.
pub proof fn lemma_results_match(es: Seq<EntryView>, ns: Seq<char>, q: Seq<char>)
    ensures
        forall|i: int| 0 <= i < filter_spec(es, ns, q).len() ==> {
            let e = #[trigger] filter_spec(es, ns, q)[i];
            e.namespace == ns && entry_matches(e, q)
        },
{
    lemma_tier_members(es, ns, q, true);
    lemma_tier_members(es, ns, q, false);
    let a = tier(es, ns, q, true);
    let b = tier(es, ns, q, false);
    assert forall|i: int| 0 <= i < filter_spec(es, ns, q).len() implies {
        let e = #[trigger] filter_spec(es, ns, q)[i];
        e.namespace == ns && entry_matches(e, q)
    } by {
        if i < a.len() {
            assert(filter_spec(es, ns, q)[i] == a[i]);
            assert(in_tier(a[i], ns, q, true));
        } else {
            assert(filter_spec(es, ns, q)[i] == b[i - a.len()]);
            assert(in_tier(b[i - a.len()], ns, q, false));
        }
    }
}

proof fn lemma_tier_from_store(es: Seq<EntryView>, ns: Seq<char>, q: Seq<char>, first: bool)
    ensures
        forall|i: int| 0 <= i < tier(es, ns, q, first).len() ==> es.contains(
            #[trigger] tier(es, ns, q, first)[i],
        ),
    decreases es.len(),
{
    if es.len() > 0 {
        let p = es.drop_last();
        lemma_tier_from_store(p, ns, q, first);
        let rest = tier(p, ns, q, first);
        assert forall|i: int| 0 <= i < tier(es, ns, q, first).len() implies es.contains(
            #[trigger] tier(es, ns, q, first)[i],
        ) by {
            if i < rest.len() {
                assert(tier(es, ns, q, first)[i] == rest[i]);
                assert(p.contains(rest[i]));
                let j = choose|j: int| 0 <= j < p.len() && p[j] == rest[i];
                assert(es[j] == rest[i]);
            } else {
                assert(tier(es, ns, q, first)[i] == es[es.len() - 1]);
            }
        }
    }
}

proof fn lemma_tier_remove(es: Seq<EntryView>, k: int, ns: Seq<char>, q: Seq<char>, first: bool)
    requires
        0 <= k < es.len(),
    ensures
        tier(es.remove(k), ns, q, first).len() + (if in_tier(es[k], ns, q, first) {
            1int
        } else {
            0int
        }) == tier(es, ns, q, first).len(),
    decreases es.len(),
{
    let r = es.remove(k);
    if k == es.len() - 1 {
        assert(r =~= es.drop_last());
    } else {
        lemma_tier_remove(es.drop_last(), k, ns, q, first);
        assert(r.drop_last() =~= es.drop_last().remove(k));
        assert(r.last() == es.last());
        assert(es.drop_last()[k] == es[k]);
    }
}

/// Every entry that the search returns is one of the stored entries.
pub proof fn lemma_results_in_store(es: Seq<EntryView>, ns: Seq<char>, q: Seq<char>)
    ensures
        forall|i: int| 0 <= i < filter_spec(es, ns, q).len() ==> es.contains(
            #[trigger] filter_spec(es, ns, q)[i],
        ),
{
    lemma_tier_from_store(es, ns, q, true);
    lemma_tier_from_store(es, ns, q, false);
    let a = tier(es, ns, q, true);
    let b = tier(es, ns, q, false);
    assert forall|i: int| 0 <= i < filter_spec(es, ns, q).len() implies es.contains(
        #[trigger] filter_spec(es, ns, q)[i],
    ) by {
        if i < a.len() {
            assert(filter_spec(es, ns, q)[i] == a[i]);
        } else {
            assert(filter_spec(es, ns, q)[i] == b[i - a.len()]);
        }
    }
}

/// Taking out of the store one entry that the search returns shortens the
/// search result by exactly one.
pub proof fn lemma_removing_a_result_shrinks(es: Seq<EntryView>, ns: Seq<char>, q: Seq<char>, k: int)
    requires
        0 <= k < es.len(),
        es[k].namespace == ns,
        entry_matches(es[k], q),
    ensures
        filter_spec(es.remove(k), ns, q).len() + 1 == filter_spec(es, ns, q).len(),
{
    lemma_tier_remove(es, k, ns, q, true);
    lemma_tier_remove(es, k, ns, q, false);
}

/// Whether the folded query `q` occurs in the folded name, one of the folded
/// tags or the folded description.
pub fn matches_folded(name: &str, tags: &Vec<String>, description: &str, q: &str) -> (r: bool)
    ensures
        r == folded_match(name@, crate::entry::texts(tags@), description@, q@),
{
    let qc = to_chars(q);
    if contains_chars(&to_chars(name), &qc) {
        return true;
    }
    let ghost ts = crate::entry::texts(tags@);
    let mut j: usize = 0;
    while j < tags.len()
        invariant
            j <= tags@.len(),
            ts == crate::entry::texts(tags@),
            qc@ == q@,
            forall|k: int| 0 <= k < j ==> !contains(#[trigger] ts[k], q@),
        decreases tags@.len() - j,
    {
        if contains_chars(&to_chars(tags[j].as_str()), &qc) {
            assert(contains(ts[j as int], q@));
            return true;
        }
        j = j + 1;
    }
    contains_chars(&to_chars(description), &qc)
}

/// Whether entry `e` matches the folded query `q`, and whether its folded
/// name begins with it.
fn classify(e: &CommandEntry, q: &str) -> (r: (bool, bool))
    ensures
        r.0 == entry_matches(e@, q@),
        r.1 == name_first(e@, q@),
{
    let name = lowercase(e.name.as_str());
    let description = lowercase(e.description.as_str());
    let mut tags: Vec<String> = Vec::new();
    let mut j: usize = 0;
    while j < e.tags.len()
        invariant
            j <= e.tags@.len(),
            crate::entry::texts(tags@) == folded_all(e@.tags).subrange(0, j as int),
        decreases e.tags@.len() - j,
    {
        let t = lowercase(e.tags[j].as_str());
        let ghost before = tags@;
        tags.push(t);
        assert(crate::entry::texts(tags@) =~= crate::entry::texts(before).push(t@));
        assert(folded_all(e@.tags).subrange(0, j + 1) =~= folded_all(e@.tags).subrange(0, j as int).push(
            lower_of(e.tags@[j as int]@),
        ));
        j = j + 1;
    }
    assert(folded_all(e@.tags).subrange(0, j as int) =~= folded_all(e@.tags));
    let m = matches_folded(name.as_str(), &tags, description.as_str(), q);
    let f = starts_with_chars(&to_chars(name.as_str()), &to_chars(q));
    (m, f)
}

/// The entries of `namespace` that match `query` without regard to case:
/// first those whose name begins with the query, then the rest, each group in
/// store order. An empty query keeps the whole namespace.
pub fn filter(entries: &Vec<CommandEntry>, namespace: &str, query: &str) -> (r: Vec<CommandEntry>)
    ensures
        entry_views(r@) == filter_spec(entry_views(entries@), namespace@, lower_of(query@)),
        query@.len() == 0 ==> entry_views(r@) == in_namespace(entry_views(entries@), namespace@),
        forall|i: int| 0 <= i < r@.len() ==> (#[trigger] r@[i]@).namespace == namespace@
            && entry_matches(r@[i]@, lower_of(query@)),
{
    let q = lowercase(query);
    let ns_owned = namespace.to_owned();
    let ghost es = entry_views(entries@);
    let ghost ns = namespace@;
    let mut first: Vec<CommandEntry> = Vec::new();
    let mut rest: Vec<CommandEntry> = Vec::new();
    let mut i: usize = 0;
    while i < entries.len()
        invariant
            i <= entries@.len(),
            es == entry_views(entries@),
            ns == namespace@,
            ns_owned@ == ns,
            entry_views(first@) == tier(es.subrange(0, i as int), ns, q@, true),
            entry_views(rest@) == tier(es.subrange(0, i as int), ns, q@, false),
        decreases entries@.len() - i,
    {
        let e = &entries[i];
        let ghost pre = es.subrange(0, i as int);
        let ghost next = es.subrange(0, i + 1);
        assert(next.drop_last() =~= pre);
        assert(next.last() == e@);
        if e.namespace == ns_owned {
            let (m, f) = classify(e, q.as_str());
            if m {
                let ghost fb = first@;
                let ghost rb = rest@;
                if f {
                    first.push(e.duplicate());
                    assert(entry_views(first@) =~= entry_views(fb).push(e@));
                } else {
                    rest.push(e.duplicate());
                    assert(entry_views(rest@) =~= entry_views(rb).push(e@));
                }
            }
        }
        i = i + 1;
    }
    assert(es.subrange(0, entries@.len() as int) =~= es);
    let ghost fv = entry_views(first@);
    let ghost rv = entry_views(rest@);
    first.append(&mut rest);
    assert(entry_views(first@) =~= fv + rv);
    proof {
        lemma_results_match(es, ns, q@);
        if query@.len() == 0 {
            assert(q@ =~= Seq::<char>::empty());
            lemma_empty_query_keeps_namespace(es, ns);
        }
        assert forall|i: int| 0 <= i < first@.len() implies (#[trigger] first@[i]@).namespace == namespace@
            && entry_matches(first@[i]@, q@) by {
            assert(entry_views(first@)[i] == first@[i]@);
            assert(filter_spec(es, ns, q@)[i] == first@[i]@);
        }
    }
    first
}

} // verus!
