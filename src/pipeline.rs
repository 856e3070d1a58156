//! The sort/filter pipeline: from a snapshot's records, the filter text, the sort key
//! and the direction to the ordered rows that the table shows.
use vstd::prelude::*;
use crate::record::{ProcessRecord, RecordView, SortKey, SortOrder, views};
use crate::text::{
    contains_infix, decimal_chars, decimal_text, is_infix, lemma_lex_le_total,
    lemma_lex_le_transitive, lex_le, lex_le_chars, lower_of, lowercase,
};

verus! {

/// A record passes a folded query when the query stands in its folded name or in
/// its process id written in decimal.
pub open spec fn matches_query(lq: Seq<char>, r: RecordView) -> bool {
    is_infix(lq, lower_of(r.name)) || is_infix(lq, decimal_text(r.pid as nat))
}

/// The records of `s` that pass the folded query `lq`, in their order.
pub open spec fn keep_matching(s: Seq<RecordView>, lq: Seq<char>) -> Seq<RecordView>
    decreases s.len(),
{
    if s.len() == 0 {
        s
    } else if matches_query(lq, s.last()) {
        keep_matching(s.drop_last(), lq).push(s.last())
    } else {
        keep_matching(s.drop_last(), lq)
    }
}

/// Without a filter every record passes; with one, matching is case-insensitive.
pub open spec fn filter_view(s: Seq<RecordView>, q: Option<Seq<char>>) -> Seq<RecordView> {
    match q {
        Some(q) => keep_matching(s, lower_of(q)),
        None => s,
    }
}

/// The filter text as characters.
pub open spec fn query_view(q: Option<Vec<char>>) -> Option<Seq<char>> {
    match q {
        Some(v) => Some(v@),
        None => None,
    }
}

/// `a` sorts no later than `b` under `k`: numbers by value, names by their folded
/// text in code-point order.
pub open spec fn key_le(k: SortKey, a: RecordView, b: RecordView) -> bool {
    match k {
        SortKey::Cpu => a.cpu <= b.cpu,
        SortKey::Mem => a.mem_kb <= b.mem_kb,
        SortKey::Pid => a.pid <= b.pid,
        SortKey::Name => lex_le(lower_of(a.name), lower_of(b.name)),
    }
}

/// `x` placed into `s` right after the last record whose key is no greater.
pub open spec fn insert_by_key(k: SortKey, s: Seq<RecordView>, x: RecordView) -> Seq<RecordView>
    decreases s.len(),
{
    if s.len() == 0 || key_le(k, s.last(), x) {
        s.push(x)
    } else {
        insert_by_key(k, s.drop_last(), x).push(s.last())
    }
}

/// The stable ascending sort of `s` under `k`: records with equal keys keep the
/// order they have in `s`.
pub open spec fn sort_by_key(k: SortKey, s: Seq<RecordView>) -> Seq<RecordView>
    decreases s.len(),
{
    if s.len() == 0 {
        s
    } else {
        insert_by_key(k, sort_by_key(k, s.drop_last()), s.last())
    }
}

/// The ascending sort, reversed for the descending direction.
pub open spec fn arranged(k: SortKey, o: SortOrder, s: Seq<RecordView>) -> Seq<RecordView> {
    match o {
        SortOrder::Ascending => sort_by_key(k, s),
        SortOrder::Descending => sort_by_key(k, s).reverse(),
    }
}

/// The rows shown for a snapshot's records.
pub open spec fn pipeline_view(
    s: Seq<RecordView>,
    q: Option<Seq<char>>,
    k: SortKey,
    o: SortOrder,
) -> Seq<RecordView> {
    arranged(k, o, filter_view(s, q))
}

/// Every pair of positions is in key order for the direction `o`.
pub open spec fn ordered(k: SortKey, o: SortOrder, s: Seq<RecordView>) -> bool {
    forall|i: int, j: int|
        0 <= i < j < s.len() ==> match o {
            SortOrder::Ascending => key_le(k, #[trigger] s[i], #[trigger] s[j]),
            SortOrder::Descending => key_le(k, s[j], s[i]),
        }
}

pub proof fn lemma_key_le_total(k: SortKey, a: RecordView, b: RecordView)
    ensures
        key_le(k, a, b) || key_le(k, b, a),
{
    if k == SortKey::Name {
        lemma_lex_le_total(lower_of(a.name), lower_of(b.name));
    }
}

pub proof fn lemma_key_le_transitive(k: SortKey, a: RecordView, b: RecordView, c: RecordView)
    requires
        key_le(k, a, b),
        key_le(k, b, c),
    ensures
        key_le(k, a, c),
{
    if k == SortKey::Name {
        lemma_lex_le_transitive(lower_of(a.name), lower_of(b.name), lower_of(c.name));
    }
}

proof fn lemma_insert_contents(k: SortKey, s: Seq<RecordView>, x: RecordView)
    ensures
        insert_by_key(k, s, x).to_multiset() =~= s.to_multiset().insert(x),
        insert_by_key(k, s, x).len() == s.len() + 1,
        forall|i: int|
            0 <= i < s.len() + 1 ==> #[trigger] insert_by_key(k, s, x)[i] == x || s.contains(
                insert_by_key(k, s, x)[i],
            ),
    decreases s.len(),
{
    broadcast use vstd::seq_lib::group_to_multiset_ensures;

    if s.len() == 0 || key_le(k, s.last(), x) {
    } else {
        let d = s.drop_last();
        lemma_insert_contents(k, d, x);
        assert(s =~= d.push(s.last()));
        let t = insert_by_key(k, d, x);
        assert forall|i: int| 0 <= i < s.len() + 1 implies #[trigger] insert_by_key(k, s, x)[i]
            == x || s.contains(insert_by_key(k, s, x)[i]) by {
            if i < s.len() {
                if t[i] != x {
                    let m = choose|m: int| 0 <= m < d.len() && d[m] == t[i];
                    assert(s[m] == t[i]);
                }
            } else {
                assert(s[s.len() - 1] == s.last());
            }
        }
    }
}

proof fn lemma_insert_ordered(k: SortKey, s: Seq<RecordView>, x: RecordView)
    requires
        ordered(k, SortOrder::Ascending, s),
    ensures
        ordered(k, SortOrder::Ascending, insert_by_key(k, s, x)),
    decreases s.len(),
{
    let r = insert_by_key(k, s, x);
    lemma_insert_contents(k, s, x);
    if s.len() == 0 {
    } else if key_le(k, s.last(), x) {
        assert forall|i: int, j: int| 0 <= i < j < r.len() implies key_le(
            k,
            #[trigger] r[i],
            #[trigger] r[j],
        ) by {
            if j == s.len() && i < s.len() - 1 {
                lemma_key_le_transitive(k, s[i], s.last(), x);
            }
        }
    } else {
        let d = s.drop_last();
        lemma_key_le_total(k, s.last(), x);
        assert(ordered(k, SortOrder::Ascending, d)) by {
            assert forall|i: int, j: int| 0 <= i < j < d.len() implies key_le(
                k,
                #[trigger] d[i],
                #[trigger] d[j],
            ) by {
                assert(d[i] == s[i] && d[j] == s[j]);
            }
        }
        lemma_insert_ordered(k, d, x);
        lemma_insert_contents(k, d, x);
        let t = insert_by_key(k, d, x);
        assert forall|i: int, j: int| 0 <= i < j < r.len() implies key_le(
            k,
            #[trigger] r[i],
            #[trigger] r[j],
        ) by {
            if j == t.len() {
                if t[i] != x {
                    let m = choose|m: int| 0 <= m < d.len() && d[m] == t[i];
                    assert(s[m] == t[i]);
                    assert(key_le(k, s[m], s[s.len() - 1]));
                }
            }
        }
    }
}

proof fn lemma_sort_props(k: SortKey, s: Seq<RecordView>)
    ensures
        sort_by_key(k, s).to_multiset() =~= s.to_multiset(),
        ordered(k, SortOrder::Ascending, sort_by_key(k, s)),
    decreases s.len(),
{
    broadcast use vstd::seq_lib::group_to_multiset_ensures;

    if s.len() > 0 {
        let d = s.drop_last();
        lemma_sort_props(k, d);
        lemma_insert_contents(k, sort_by_key(k, d), s.last());
        lemma_insert_ordered(k, sort_by_key(k, d), s.last());
        assert(s =~= d.push(s.last()));
    }
}

/// The rows are a rearrangement of the records that pass the filter, and every two
/// of them stand in key order for the chosen direction.
pub proof fn lemma_pipeline_sorted_permutation(
    s: Seq<RecordView>,
    q: Option<Seq<char>>,
    k: SortKey,
    o: SortOrder,
)
    ensures
        pipeline_view(s, q, k, o).to_multiset() =~= filter_view(s, q).to_multiset(),
        pipeline_view(s, q, k, o).len() == filter_view(s, q).len(),
        ordered(k, o, pipeline_view(s, q, k, o)),
{
    broadcast use vstd::seq_lib::group_to_multiset_ensures;

    let f = filter_view(s, q);
    let a = sort_by_key(k, f);
    lemma_sort_props(k, f);
    if o == SortOrder::Descending {
        a.lemma_reverse_to_multiset();
        let r = a.reverse();
        assert forall|i: int, j: int| 0 <= i < j < r.len() implies key_le(
            k,
            #[trigger] r[j],
            #[trigger] r[i],
        ) by {
            assert(r[j] == a[a.len() - 1 - j]);
            assert(r[i] == a[a.len() - 1 - i]);
        }
    }
    let p = pipeline_view(s, q, k, o);
    assert(p.len() == p.to_multiset().len());
    assert(f.len() == f.to_multiset().len());
}

/// Sorting rows that are already in ascending key order leaves them exactly as they
/// are, equal keys included; so sorting twice is sorting once.
pub proof fn lemma_sort_keeps_ordered(k: SortKey, s: Seq<RecordView>)
    requires
        ordered(k, SortOrder::Ascending, s),
    ensures
        sort_by_key(k, s) == s,
        sort_by_key(k, sort_by_key(k, s)) == sort_by_key(k, s),
    decreases s.len(),
{
    if s.len() > 0 {
        let d = s.drop_last();
        assert(ordered(k, SortOrder::Ascending, d)) by {
            assert forall|i: int, j: int| 0 <= i < j < d.len() implies key_le(
                k,
                #[trigger] d[i],
                #[trigger] d[j],
            ) by {
                assert(d[i] == s[i] && d[j] == s[j]);
            }
        }
        lemma_sort_keeps_ordered(k, d);
        if d.len() > 0 {
            assert(key_le(k, s[d.len() - 1], s[s.len() - 1]));
        }
        assert(d.push(s.last()) =~= s);
    }
}

/// `a` and `b` have equal keys under `k`.
pub open spec fn same_key(k: SortKey, a: RecordView, b: RecordView) -> bool {
    key_le(k, a, b) && key_le(k, b, a)
}

/// The records of `s` whose key equals that of `e`, in their order.
pub open spec fn ties_of(k: SortKey, s: Seq<RecordView>, e: RecordView) -> Seq<RecordView>
    decreases s.len(),
{
    if s.len() == 0 {
        s
    } else if same_key(k, s.last(), e) {
        ties_of(k, s.drop_last(), e).push(s.last())
    } else {
        ties_of(k, s.drop_last(), e)
    }
}

proof fn lemma_ties_insert(k: SortKey, s: Seq<RecordView>, x: RecordView, e: RecordView)
    requires
        ordered(k, SortOrder::Ascending, s),
    ensures
        ties_of(k, insert_by_key(k, s, x), e) == if same_key(k, x, e) {
            ties_of(k, s, e).push(x)
        } else {
            ties_of(k, s, e)
        },
    decreases s.len(),
{
    if s.len() == 0 || key_le(k, s.last(), x) {
        assert(s.push(x).drop_last() =~= s);
    } else {
        let d = s.drop_last();
        assert(ordered(k, SortOrder::Ascending, d)) by {
            assert forall|i: int, j: int| 0 <= i < j < d.len() implies key_le(
                k,
                #[trigger] d[i],
                #[trigger] d[j],
            ) by {
                assert(d[i] == s[i] && d[j] == s[j]);
            }
        }
        lemma_ties_insert(k, d, x, e);
        let t = insert_by_key(k, d, x);
        assert(t.push(s.last()).drop_last() =~= t);
        if same_key(k, x, e) && same_key(k, s.last(), e) {
            lemma_key_le_transitive(k, s.last(), e, x);
        }
    }
}

/// The sort is stable: the records that share a key come out in the order they
/// went in.
pub proof fn lemma_sort_stable(k: SortKey, s: Seq<RecordView>, e: RecordView)
    ensures
        ties_of(k, sort_by_key(k, s), e) == ties_of(k, s, e),
    decreases s.len(),
{
    if s.len() > 0 {
        let d = s.drop_last();
        lemma_sort_stable(k, d, e);
        lemma_sort_props(k, d);
        lemma_ties_insert(k, sort_by_key(k, d), s.last(), e);
    }
}

proof fn lemma_keep_matching_passes(s: Seq<RecordView>, lq: Seq<char>)
    ensures
        forall|i: int|
            0 <= i < keep_matching(s, lq).len() ==> matches_query(
                lq,
                #[trigger] keep_matching(s, lq)[i],
            ),
    decreases s.len(),
{
    if s.len() > 0 {
        let d = keep_matching(s.drop_last(), lq);
        lemma_keep_matching_passes(s.drop_last(), lq);
        assert forall|i: int| 0 <= i < keep_matching(s, lq).len() implies matches_query(
            lq,
            #[trigger] keep_matching(s, lq)[i],
        ) by {
            if i < d.len() {
                assert(keep_matching(s, lq)[i] == d[i]);
            }
        }
    }
}

proof fn lemma_keep_matching_all(s: Seq<RecordView>, lq: Seq<char>)
    requires
        forall|i: int| 0 <= i < s.len() ==> matches_query(lq, #[trigger] s[i]),
    ensures
        keep_matching(s, lq) == s,
    decreases s.len(),
{
    if s.len() > 0 {
        lemma_keep_matching_all(s.drop_last(), lq);
        assert(s.drop_last().push(s.last()) =~= s);
    }
}

/// Filtering rows that already passed a filter, with the same text, changes nothing.
pub proof fn lemma_filter_idempotent(s: Seq<RecordView>, q: Option<Seq<char>>)
    ensures
        filter_view(filter_view(s, q), q) == filter_view(s, q),
{
    if let Some(t) = q {
        lemma_keep_matching_passes(s, lower_of(t));
        lemma_keep_matching_all(keep_matching(s, lower_of(t)), lower_of(t));
    }
}

proof fn lemma_views_push(s: Seq<ProcessRecord>, x: ProcessRecord)
    ensures
        views(s.push(x)) == views(s).push(x@),
{
    assert(views(s.push(x)) =~= views(s).push(x@));
}

/// Decides a match from texts that are already folded: the query against the folded
/// name and against the decimal process id.
pub fn matches_folded(lq: &Vec<char>, lname: &Vec<char>, pid_text: &Vec<char>) -> (r: bool)
    ensures
        r == (is_infix(lq@, lname@) || is_infix(lq@, pid_text@)),
{
    contains_infix(lname, lq) || contains_infix(pid_text, lq)
}

/// Tells whether a record passes the folded query `lq`.
pub fn record_matches(lq: &Vec<char>, rec: &ProcessRecord) -> (r: bool)
    ensures
        r == matches_query(lq@, rec@),
{
    let lname = lowercase(rec.name.as_str());
    let pid_text = decimal_chars(rec.pid);
    matches_folded(lq, &lname, &pid_text)
}

/// Keeps the records that pass the filter, in their order.
pub fn filter_records(records: &Vec<ProcessRecord>, query: &Option<Vec<char>>) -> (out: Vec<
    ProcessRecord,
>)
    ensures
        views(out@) == filter_view(views(records@), query_view(*query)),
{
    let mut out: Vec<ProcessRecord> = Vec::new();
    match query {
        None => {
            let mut i: usize = 0;
            while i < records.len()
                invariant
                    i <= records@.len(),
                    views(out@) == views(records@).take(i as int),
                decreases records@.len() - i,
            {
                proof {
                    lemma_views_push(out@, records@[i as int]);
                }
                out.push(records[i].duplicate());
                assert(views(records@).take(i + 1) =~= views(records@).take(i as int).push(
                    records@[i as int]@,
                ));
                i += 1;
            }
            assert(views(records@).take(i as int) =~= views(records@));
        },
        Some(q) => {
            let lq = lowercase(crate::text::chars_to_string(q).as_str());
            let mut i: usize = 0;
            while i < records.len()
                invariant
                    i <= records@.len(),
                    lq@ == lower_of(q@),
                    views(out@) == keep_matching(views(records@).take(i as int), lq@),
                decreases records@.len() - i,
            {
                let ghost pre = views(records@).take(i as int);
                let ghost next = views(records@).take(i + 1);
                assert(next.drop_last() =~= pre);
                assert(next.last() == records@[i as int]@);
                if record_matches(&lq, &records[i]) {
                    proof {
                        lemma_views_push(out@, records@[i as int]);
                    }
                    out.push(records[i].duplicate());
                }
                i += 1;
            }
            assert(views(records@).take(i as int) =~= views(records@));
        },
    }
    out
}

/// Compares two records under `k`, as `key_le` does.
fn key_le_records(k: SortKey, a: &ProcessRecord, b: &ProcessRecord) -> (r: bool)
    ensures
        r == key_le(k, a@, b@),
{
    match k {
        SortKey::Cpu => a.cpu <= b.cpu,
        SortKey::Mem => a.mem_kb <= b.mem_kb,
        SortKey::Pid => a.pid <= b.pid,
        SortKey::Name => {
            let la = lowercase(a.name.as_str());
            let lb = lowercase(b.name.as_str());
            lex_le_chars(&la, &lb)
        },
    }
}

/// Sorts the records ascending under `k`, keeping the order of equal keys.
pub fn sort_records(records: &Vec<ProcessRecord>, key: SortKey) -> (out: Vec<ProcessRecord>)
    ensures
        views(out@) == sort_by_key(key, views(records@)),
{
    let mut out: Vec<ProcessRecord> = Vec::new();
    let mut i: usize = 0;
    assert(views(records@).take(0) =~= Seq::<RecordView>::empty());
    assert(views(out@) =~= Seq::<RecordView>::empty());
    while i < records.len()
        invariant
            i <= records@.len(),
            views(out@) == sort_by_key(key, views(records@).take(i as int)),
        decreases records@.len() - i,
    {
        let x = records[i].duplicate();
        let ghost v = views(out@);
        let mut q: usize = out.len();
        assert(v.take(q as int) =~= v);
        assert(v.skip(q as int) =~= Seq::<RecordView>::empty());
        assert(insert_by_key(key, v, x@) =~= insert_by_key(key, v.take(q as int), x@) + v.skip(
            q as int,
        ));
        while q > 0 && !key_le_records(key, &out[q - 1], &x)
            invariant
                q <= out@.len(),
                v == views(out@),
                insert_by_key(key, v, x@) == insert_by_key(key, v.take(q as int), x@) + v.skip(
                    q as int,
                ),
            decreases q,
        {
            let ghost t = v.take(q as int);
            assert(t.drop_last() =~= v.take(q - 1));
            assert(t.last() == v[q - 1]);
            assert(insert_by_key(key, t, x@) == insert_by_key(key, v.take(q - 1), x@).push(
                v[q - 1],
            ));
            assert(insert_by_key(key, v.take(q - 1), x@).push(v[q - 1]) + v.skip(q as int)
                =~= insert_by_key(key, v.take(q - 1), x@) + v.skip(q - 1));
            q -= 1;
        }
        assert(insert_by_key(key, v.take(q as int), x@) == v.take(q as int).push(x@));
        out.insert(q, x);
        assert(views(out@) =~= v.take(q as int).push(x@) + v.skip(q as int));
        let ghost next = views(records@).take(i + 1);
        assert(next.drop_last() =~= views(records@).take(i as int));
        assert(next.last() == records@[i as int]@);
        i += 1;
    }
    assert(views(records@).take(i as int) =~= views(records@));
    out
}

/// Hands back the ascending rows as they are, or reversed for the descending
/// direction.
pub fn arrange_records(sorted: Vec<ProcessRecord>, order: SortOrder) -> (out: Vec<
    ProcessRecord,
>)
    ensures
        views(out@) == match order {
            SortOrder::Ascending => views(sorted@),
            SortOrder::Descending => views(sorted@).reverse(),
        },
{
    match order {
        SortOrder::Ascending => sorted,
        SortOrder::Descending => {
            let n = sorted.len();
            let mut out: Vec<ProcessRecord> = Vec::new();
            let mut j: usize = 0;
            while j < n
                invariant
                    n == sorted@.len(),
                    j <= n,
                    out@.len() == j,
                    forall|m: int| 0 <= m < j ==> #[trigger] out@[m]@ == sorted@[n - 1 - m]@,
                decreases n - j,
            {
                out.push(sorted[n - 1 - j].duplicate());
                j += 1;
            }
            assert(views(out@) =~= views(sorted@).reverse());
            out
        },
    }
}

/// The full pipeline: filter, stable sort, direction.
pub fn run_pipeline(
    records: &Vec<ProcessRecord>,
    query: &Option<Vec<char>>,
    key: SortKey,
    order: SortOrder,
) -> (out: Vec<ProcessRecord>)
    ensures
        views(out@) == pipeline_view(views(records@), query_view(*query), key, order),
{
    let kept = filter_records(records, query);
    let sorted = sort_records(&kept, key);
    arrange_records(sorted, order)
}

} // verus!
