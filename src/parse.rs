use vstd::prelude::*;
use crate::err::ProfError;
use crate::scan::{LineClass, LineShape, classify, classify_line};
use crate::schema::{ProfilerKind, schema_len, metric_count};
use crate::text::{lines_of, split_lines, chars_of};

verus! {

/// One row of a report: a function's label and its counts, one per column.
#[derive(Debug)]
pub struct FunctionRecord {
    pub name: String,
    pub metrics: Vec<u64>,
}

/// A row as values.
pub struct RecordView {
    pub name: Seq<char>,
    pub metrics: Seq<u64>,
}

impl View for FunctionRecord {
    type V = RecordView;

    open spec fn view(&self) -> RecordView {
        RecordView { name: self.name@, metrics: self.metrics@ }
    }
}

/// The whole-program row of a report.
#[derive(Debug)]
pub struct TotalsRecord {
    pub metrics: Vec<u64>,
}

/// A report read in full: its kind, its totals and its function rows in the
/// order in which the profiler wrote them.
#[derive(Debug)]
pub struct ParseResult {
    pub kind: ProfilerKind,
    pub totals: TotalsRecord,
    pub functions: Vec<FunctionRecord>,
}

/// A read report as values.
pub struct ReportView {
    pub kind: ProfilerKind,
    pub totals: Seq<u64>,
    pub functions: Seq<RecordView>,
}

pub open spec fn records_view(fs: Seq<FunctionRecord>) -> Seq<RecordView> {
    fs.map_values(|f: FunctionRecord| f@)
}

impl View for ParseResult {
    type V = ReportView;

    open spec fn view(&self) -> ReportView {
        ReportView {
            kind: self.kind,
            totals: self.totals.metrics@,
            functions: records_view(self.functions@),
        }
    }
}

impl ReportView {
    /// Every row has one count per column of the report's kind.
    pub open spec fn fits_schema(self) -> bool {
        &&& self.totals.len() == schema_len(self.kind)
        &&& forall|i: int|
            0 <= i < self.functions.len() ==> (#[trigger] self.functions[i]).metrics.len()
                == schema_len(self.kind)
    }
}

impl ParseResult {
    pub open spec fn well_formed(&self) -> bool {
        self@.fits_schema()
    }
}

/// The rows read from the first lines of a report: the totals if seen, and the
/// function rows; or the first error met.
pub open spec fn aggregate(kind: ProfilerKind, lines: Seq<Seq<char>>) -> Result<
    (Option<Seq<u64>>, Seq<RecordView>),
    ProfError,
>
    decreases lines.len(),
{
    if lines.len() == 0 {
        Ok((None, seq![]))
    } else {
        match aggregate(kind, lines.drop_last()) {
            Err(e) => Err(e),
            Ok((totals, fs)) => match classify(lines.last()) {
                LineShape::Other => Ok((totals, fs)),
                LineShape::Malformed => Err(ProfError::RegexError),
                LineShape::Totals(v) => {
                    if v.len() != schema_len(kind) {
                        Err(ProfError::MisalignedData)
                    } else if totals is Some {
                        Err(ProfError::RegexError)
                    } else {
                        Ok((Some(v), fs))
                    }
                },
                LineShape::Function(v, label) => {
                    if v.len() != schema_len(kind) {
                        Err(ProfError::MisalignedData)
                    } else {
                        Ok((totals, fs.push(RecordView { name: label, metrics: v })))
                    }
                },
            },
        }
    }
}

/// The meaning of a report's text: its rows, or the error that reading it gives.
/// A report without a totals row does not have the expected shape.
pub open spec fn report_of(kind: ProfilerKind, text: Seq<char>) -> Result<ReportView, ProfError> {
    match aggregate(kind, lines_of(text)) {
        Err(e) => Err(e),
        Ok((None, _)) => Err(ProfError::RegexError),
        Ok((Some(t), fs)) => Ok(ReportView { kind, totals: t, functions: fs }),
    }
}

/// Relies on `FromIterator<char>` for `String`: the string holds the characters in order.
#[verifier::external_body]
fn string_from_chars(v: &Vec<char>) -> (r: String)
    ensures
        r@ == v@,
{
    v.iter().collect()
}

/// Builds a function row from its counts and label, checking the column count.
pub fn build_record(kind: ProfilerKind, values: Vec<u64>, label: &Vec<char>) -> (r: Result<
    FunctionRecord,
    ProfError,
>)
    ensures
        values@.len() == schema_len(kind) ==> r is Ok && r->Ok_0@ == (RecordView {
            name: label@,
            metrics: values@,
        }),
        values@.len() != schema_len(kind) ==> r is Err && r->Err_0 == ProfError::MisalignedData,
{
    if values.len() != metric_count(kind) {
        return Err(ProfError::MisalignedData);
    }
    Ok(FunctionRecord { name: string_from_chars(label), metrics: values })
}

/// Builds the totals row from its counts, checking the column count.
pub fn build_totals(kind: ProfilerKind, values: Vec<u64>) -> (r: Result<TotalsRecord, ProfError>)
    ensures
        values@.len() == schema_len(kind) ==> r is Ok && r->Ok_0.metrics@ == values@,
        values@.len() != schema_len(kind) ==> r is Err && r->Err_0 == ProfError::MisalignedData,
{
    if values.len() != metric_count(kind) {
        return Err(ProfError::MisalignedData);
    }
    Ok(TotalsRecord { metrics: values })
}

/// Reads the text of a report of the given kind into its rows.
pub fn parse_report(kind: ProfilerKind, text: &str) -> (r: Result<ParseResult, ProfError>)
    ensures
        match report_of(kind, text@) {
            Ok(v) => r is Ok && r->Ok_0@ == v,
            Err(e) => r is Err && r->Err_0 == e,
        },
        r is Ok ==> r->Ok_0.well_formed(),
{
    let chars = chars_of(text);
    let lines = split_lines(&chars);
    let ghost ls = lines_of(text@);
    let mut totals: Option<TotalsRecord> = None;
    let mut functions: Vec<FunctionRecord> = Vec::new();
    let mut i: usize = 0;
    assert(ls.take(0) =~= seq![]);
    assert(records_view(functions@) =~= seq![]);
    while i < lines.len()
        invariant
            i <= lines.len(),
            lines.deep_view() == ls,
            ls == lines_of(text@),
            aggregate(kind, ls.take(i as int)) == Ok::<_, ProfError>((
                match totals {
                    Some(t) => Some(t.metrics@),
                    None => None::<Seq<u64>>,
                },
                records_view(functions@),
            )),
        decreases lines.len() - i,
    {
        assert(lines@[i as int]@ =~= ls[i as int]);
        assert(ls.take(i + 1).drop_last() =~= ls.take(i as int));
        let ghost prev = records_view(functions@);
        match classify_line(&lines[i]) {
            LineClass::Other => {},
            LineClass::Malformed => {
                proof {
                    lemma_error_persists(kind, ls, i + 1);
                }
                return Err(ProfError::RegexError);
            },
            LineClass::Totals(v) => {
                let t = match build_totals(kind, v) {
                    Ok(t) => t,
                    Err(e) => {
                        proof {
                            lemma_error_persists(kind, ls, i + 1);
                        }
                        return Err(e);
                    },
                };
                if totals.is_some() {
                    proof {
                        lemma_error_persists(kind, ls, i + 1);
                    }
                    return Err(ProfError::RegexError);
                }
                totals = Some(t);
            },
            LineClass::Function(v, label) => {
                let f = match build_record(kind, v, &label) {
                    Ok(f) => f,
                    Err(e) => {
                        proof {
                            lemma_error_persists(kind, ls, i + 1);
                        }
                        return Err(e);
                    },
                };
                functions.push(f);
                assert(records_view(functions@) =~= prev.push(f@));
            },
        }
        i = i + 1;
    }
    assert(ls.take(lines.len() as int) =~= ls);
    match totals {
        None => Err(ProfError::RegexError),
        Some(t) => {
            let r = ParseResult { kind, totals: t, functions };
            proof {
                lemma_aggregate_fits_schema(kind, ls);
            }
            Ok(r)
        },
    }
}

/// An error met in the first lines of a report is the error of every longer part of it.
pub proof fn lemma_error_persists(kind: ProfilerKind, lines: Seq<Seq<char>>, i: int)
    requires
        0 <= i <= lines.len(),
        aggregate(kind, lines.take(i)) is Err,
    ensures
        aggregate(kind, lines) == aggregate(kind, lines.take(i)),
    decreases lines.len() - i,
{
    if i < lines.len() {
        assert(lines.take(i + 1).drop_last() =~= lines.take(i));
        lemma_error_persists(kind, lines, i + 1);
    } else {
        assert(lines.take(i) =~= lines);
    }
}

/// Every row read from a report has one count per column of its kind.
pub proof fn lemma_aggregate_fits_schema(kind: ProfilerKind, lines: Seq<Seq<char>>)
    ensures
        aggregate(kind, lines) is Ok ==> {
            let (t, fs) = aggregate(kind, lines)->Ok_0;
            &&& (t is Some ==> t->Some_0.len() == schema_len(kind))
            &&& forall|i: int| 0 <= i < fs.len() ==> (#[trigger] fs[i]).metrics.len() == schema_len(kind)
        },
    decreases lines.len(),
{
    if lines.len() > 0 {
        lemma_aggregate_fits_schema(kind, lines.drop_last());
    }
}

} // verus!

verus! {

/// Every row of a report that reads without error, totals included, has one
/// count per column of the report's kind.
pub proof fn lemma_parse_fits_schema(kind: ProfilerKind, text: Seq<char>)
    requires
        report_of(kind, text) is Ok,
    ensures
        report_of(kind, text)->Ok_0.fits_schema(),
        report_of(kind, text)->Ok_0.kind == kind,
{
    lemma_aggregate_fits_schema(kind, lines_of(text));
}

/// A function row with a missing or extra count, met before any other error,
/// makes the whole report fail with `MisalignedData`: no rows are returned.
pub proof fn lemma_misaligned_row_aborts(kind: ProfilerKind, text: Seq<char>, i: int)
    requires
        0 <= i < lines_of(text).len(),
        aggregate(kind, lines_of(text).take(i)) is Ok,
        classify(lines_of(text)[i]) is Function,
        classify(lines_of(text)[i])->Function_0.len() != schema_len(kind),
    ensures
        report_of(kind, text) == Err::<ReportView, ProfError>(ProfError::MisalignedData),
{
    let ls = lines_of(text);
    assert(ls.take(i + 1).drop_last() =~= ls.take(i));
    assert(ls.take(i + 1).last() == ls[i]);
    lemma_error_persists(kind, ls, i + 1);
}

} // verus!
