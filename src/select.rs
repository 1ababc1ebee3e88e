use vstd::prelude::*;
use crate::err::ProfError;
use crate::parse::{FunctionRecord, ParseResult, RecordView, ReportView, TotalsRecord, records_view, report_of, parse_report};
use crate::schema::{Metric, ProfilerKind, schema_len};

verus! {

/// The count of a row in a given column.
pub open spec fn key(r: RecordView, col: nat) -> u64 {
    r.metrics[col as int]
}

/// The rows whose count in column `col` is `v`.
pub open spec fn has_key(col: nat, v: u64) -> spec_fn(RecordView) -> bool {
    |r: RecordView| key(r, col) == v
}

/// Where a row with count `k` goes in rows sorted by descending count: after
/// every row, from position `p` on, whose count is greater.
pub open spec fn insert_pos(s: Seq<RecordView>, col: nat, k: u64, p: nat) -> nat
    decreases s.len() - p,
{
    if p < s.len() && key(s[p as int], col) > k {
        insert_pos(s, col, k, p + 1)
    } else {
        p
    }
}

/// The rows ordered by descending count in column `col`; rows with equal counts
/// keep their order.
pub open spec fn sort_desc(fs: Seq<RecordView>, col: nat) -> Seq<RecordView>
    decreases fs.len(),
{
    if fs.len() == 0 {
        seq![]
    } else {
        let s = sort_desc(fs.drop_first(), col);
        s.insert(insert_pos(s, col, key(fs[0], col), 0) as int, fs[0])
    }
}

/// The first `n` rows, or all of them when there is no limit or fewer rows.
pub open spec fn limit(s: Seq<RecordView>, n: Option<usize>) -> Seq<RecordView> {
    match n {
        Some(k) => if k < s.len() {
            s.take(k as int)
        } else {
            s
        },
        None => s,
    }
}

/// The rows that a report shows: for the cache profiler ordered by the sort
/// metric, for the call profiler in the order of the report; then limited.
pub open spec fn shown_rows(p: ReportView, n: Option<usize>, sort: Metric) -> Seq<RecordView> {
    match p.kind {
        ProfilerKind::CacheGrind => limit(sort_desc(p.functions, sort.column()), n),
        ProfilerKind::CallGrind => limit(p.functions, n),
    }
}

/// What is handed to the display: the kind, the totals and the chosen rows.
#[derive(Debug)]
pub struct ReportModel {
    pub kind: ProfilerKind,
    pub totals: TotalsRecord,
    pub functions: Vec<FunctionRecord>,
}

proof fn lemma_insert_pos(s: Seq<RecordView>, col: nat, k: u64, p: nat)
    requires
        p <= s.len(),
    ensures
        p <= insert_pos(s, col, k, p) <= s.len(),
        forall|q: int| p <= q < insert_pos(s, col, k, p) ==> key(#[trigger] s[q], col) > k,
        insert_pos(s, col, k, p) < s.len() ==> key(s[insert_pos(s, col, k, p) as int], col) <= k,
    decreases s.len() - p,
{
    if p < s.len() && key(s[p as int], col) > k {
        lemma_insert_pos(s, col, k, p + 1);
    }
}

/// Sorting keeps the number of rows.
pub proof fn lemma_sort_len(fs: Seq<RecordView>, col: nat)
    ensures
        sort_desc(fs, col).len() == fs.len(),
    decreases fs.len(),
{
    if fs.len() > 0 {
        let s = sort_desc(fs.drop_first(), col);
        lemma_sort_len(fs.drop_first(), col);
        lemma_insert_pos(s, col, key(fs[0], col), 0);
    }
}

/// Sorted rows come in order of descending count.
pub proof fn lemma_sort_descending(fs: Seq<RecordView>, col: nat)
    ensures
        forall|i: int, j: int|
            0 <= i < j < sort_desc(fs, col).len() ==> key(#[trigger] sort_desc(fs, col)[i], col)
                >= key(#[trigger] sort_desc(fs, col)[j], col),
    decreases fs.len(),
{
    if fs.len() > 0 {
        let s = sort_desc(fs.drop_first(), col);
        let k = key(fs[0], col);
        lemma_sort_descending(fs.drop_first(), col);
        lemma_sort_len(fs.drop_first(), col);
        lemma_insert_pos(s, col, k, 0);
        let p = insert_pos(s, col, k, 0) as int;
        let r = s.insert(p, fs[0]);
        assert forall|i: int, j: int| 0 <= i < j < r.len() implies key(#[trigger] r[i], col) >= key(
            #[trigger] r[j],
            col,
        ) by {
            if p < s.len() {
                assert(key(s[p], col) <= k);
            }
            if i < p && j > p {
                assert(key(s[i], col) > k);
            } else if i == p && j > p {
                assert(key(s[j - 1], col) <= key(s[p], col));
            }
        }
    }
}

/// Rows with equal counts keep the order they had: for each count, the rows
/// that have it come in the same order before and after sorting.
pub proof fn lemma_sort_stable(fs: Seq<RecordView>, col: nat, v: u64)
    ensures
        sort_desc(fs, col).filter(has_key(col, v)) == fs.filter(has_key(col, v)),
    decreases fs.len(),
{
    if fs.len() > 0 {
        let pred = has_key(col, v);
        let x = fs[0];
        let rest = fs.drop_first();
        let s = sort_desc(rest, col);
        let k = key(x, col);
        lemma_sort_stable(rest, col, v);
        lemma_sort_len(rest, col);
        lemma_insert_pos(s, col, k, 0);
        let p = insert_pos(s, col, k, 0) as int;
        let front = s.take(p);
        let back = s.skip(p);
        assert(s.insert(p, x) =~= front + (seq![x] + back));
        assert(s =~= front + back);
        assert(fs =~= seq![x] + rest);
        Seq::filter_distributes_over_add(front, seq![x] + back, pred);
        Seq::filter_distributes_over_add(front, back, pred);
        back.lemma_filter_prepend(x, pred);
        rest.lemma_filter_prepend(x, pred);
        if pred(x) {
            assert forall|q: int| 0 <= q < front.len() implies !pred(#[trigger] front[q]) by {
                assert(key(s[q], col) > k);
            }
            front.lemma_all_neg_filter_empty(pred);
            assert(front.filter(pred) =~= seq![]);
        }
        assert(sort_desc(fs, col).filter(pred) =~= fs.filter(pred));
    }
}

/// Orders the rows of a report and keeps the first `n`.
pub fn select(parsed: ParseResult, n: Option<usize>, sort: Metric) -> (r: ReportModel)
    requires
        parsed.well_formed(),
    ensures
        r.kind == parsed.kind,
        r.totals.metrics@ == parsed.totals.metrics@,
        records_view(r.functions@) == shown_rows(parsed@, n, sort),
{
    let ghost fs = records_view(parsed.functions@);
    let kind = parsed.kind;
    let totals = parsed.totals;
    let mut ordered: Vec<FunctionRecord>;
    match kind {
        ProfilerKind::CallGrind => {
            ordered = parsed.functions;
        },
        ProfilerKind::CacheGrind => {
            let col = sort.index();
            let mut rest = parsed.functions;
            let mut sorted: Vec<FunctionRecord> = Vec::new();
            assert(parsed@.functions == fs);
            assert(schema_len(parsed.kind) == 9);
            assert(fs.skip(fs.len() as int) =~= seq![]);
            assert(records_view(sorted@) =~= seq![]);
            while rest.len() > 0
                invariant
                    col == sort.column(),
                    col < 9,
                    fs.len() == records_view(parsed.functions@).len(),
                    rest.len() <= fs.len(),
                    records_view(rest@) == fs.take(rest.len() as int),
                    records_view(sorted@) == sort_desc(fs.skip(rest.len() as int), col as nat),
                    forall|i: int| 0 <= i < fs.len() ==> (#[trigger] fs[i]).metrics.len() == 9,
                    forall|i: int| 0 <= i < sorted.len() ==> (#[trigger] sorted@[i]).metrics@.len() == 9,
                decreases rest.len(),
            {
                let ghost m = rest.len() as int;
                let ghost old_rest = rest@;
                assert(records_view(old_rest)[m - 1] == fs.take(m)[m - 1]);
                let f = rest.pop().unwrap();
                assert(records_view(rest@) =~= fs.take(m - 1));
                assert(f@ == fs[m - 1]);
                assert(fs.skip(m - 1).drop_first() =~= fs.skip(m));
                assert(fs.skip(m - 1)[0] == fs[m - 1]);
                let ghost s = records_view(sorted@);
                let k = f.metrics[col];
                let mut p: usize = 0;
                proof {
                    lemma_insert_pos(s, col as nat, k, 0);
                }
                while p < sorted.len() && sorted[p].metrics[col] > k
                    invariant
                        p <= sorted.len(),
                        col < 9,
                        s == records_view(sorted@),
                        forall|i: int| 0 <= i < sorted.len() ==> (#[trigger] sorted@[i]).metrics@.len() == 9,
                        insert_pos(s, col as nat, k, p as nat) == insert_pos(s, col as nat, k, 0),
                    decreases sorted.len() - p,
                {
                    assert(s[p as int] == sorted@[p as int]@);
                    p = p + 1;
                }
                proof {
                    if p < sorted.len() {
                        assert(s[p as int] == sorted@[p as int]@);
                    }
                }
                let ghost fv = f@;
                sorted.insert(p, f);
                assert(records_view(sorted@) =~= s.insert(p as int, fv));
            }
            ordered = sorted;
            assert(fs.skip(0) =~= fs);
        },
    }
    match n {
        Some(k) => {
            let ghost before = records_view(ordered@);
            if k < ordered.len() {
                ordered.truncate(k);
                assert(records_view(ordered@) =~= before.take(k as int));
            }
        },
        None => {},
    }
    proof {
        lemma_sort_len(fs, sort.column());
    }
    ReportModel { kind, totals, functions: ordered }
}

} // verus!

verus! {

/// With a limit `n`, the cache profiler's report shows `min(n, rows)` rows, in
/// descending order of the sort metric, and rows with equal counts in the
/// order of the report: for each count, the rows shown that have it are the
/// first rows of the report that have it.
pub proof fn lemma_top_n_sorted_stable(p: ReportView, n: usize, sort: Metric)
    requires
        p.kind == ProfilerKind::CacheGrind,
        p.fits_schema(),
    ensures
        shown_rows(p, Some(n), sort).len() == (if n < p.functions.len() {
            n as int
        } else {
            p.functions.len() as int
        }),
        forall|i: int, j: int|
            0 <= i < j < shown_rows(p, Some(n), sort).len() ==> key(
                #[trigger] shown_rows(p, Some(n), sort)[i],
                sort.column(),
            ) >= key(#[trigger] shown_rows(p, Some(n), sort)[j], sort.column()),
        forall|v: u64|
            {
                let shown = shown_rows(p, Some(n), sort).filter(#[trigger] has_key(sort.column(), v));
                p.functions.filter(has_key(sort.column(), v)).take(shown.len() as int) == shown
            },
{
    let col = sort.column();
    let s = sort_desc(p.functions, col);
    let r = shown_rows(p, Some(n), sort);
    lemma_sort_len(p.functions, col);
    lemma_sort_descending(p.functions, col);
    assert forall|i: int, j: int| 0 <= i < j < r.len() implies key(#[trigger] r[i], col) >= key(
        #[trigger] r[j],
        col,
    ) by {
        assert(r[i] == s[i] && r[j] == s[j]);
    }
    assert forall|v: u64|
        {
            let shown = r.filter(#[trigger] has_key(col, v));
            p.functions.filter(has_key(col, v)).take(shown.len() as int) == shown
        } by {
        let pred = has_key(col, v);
        lemma_sort_stable(p.functions, col, v);
        let m = r.len() as int;
        assert(s =~= s.take(m) + s.skip(m));
        assert(r == s.take(m));
        Seq::filter_distributes_over_add(s.take(m), s.skip(m), pred);
        assert(s.filter(pred).take(r.filter(pred).len() as int) =~= r.filter(pred));
    }
}

/// Without a limit every row is shown: the cache profiler's rows in sorted
/// order, the call profiler's rows unchanged.
pub proof fn lemma_no_limit_keeps_all(p: ReportView, sort: Metric)
    ensures
        shown_rows(p, None, sort).len() == p.functions.len(),
        p.kind == ProfilerKind::CacheGrind ==> shown_rows(p, None, sort) == sort_desc(
            p.functions,
            sort.column(),
        ),
        p.kind == ProfilerKind::CallGrind ==> shown_rows(p, None, sort) == p.functions,
{
    lemma_sort_len(p.functions, sort.column());
}

/// Reads a report and chooses the rows to show.
pub fn profile_report(kind: ProfilerKind, text: &str, n: Option<usize>, sort: Metric) -> (r: Result<
    ReportModel,
    ProfError,
>)
    ensures
        match report_of(kind, text@) {
            Ok(v) => r is Ok && r->Ok_0.kind == kind && r->Ok_0.totals.metrics@ == v.totals
                && records_view(r->Ok_0.functions@) == shown_rows(v, n, sort),
            Err(e) => r is Err && r->Err_0 == e,
        },
{
    match parse_report(kind, text) {
        Ok(parsed) => Ok(select(parsed, n, sort)),
        Err(e) => Err(e),
    }
}

} // verus!
