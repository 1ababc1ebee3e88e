use vstd::prelude::*;
use crate::text::{is_blank, tokens_of, split_tokens, chars_of};

verus! {

pub open spec fn is_digit(c: char) -> bool {
    '0' <= c && c <= '9'
}

/// A count field: a digit followed by digits and thousands separators.
pub open spec fn is_count_token(t: Seq<char>) -> bool {
    &&& t.len() > 0
    &&& is_digit(t[0])
    &&& forall|i: int| 0 <= i < t.len() ==> is_digit(#[trigger] t[i]) || t[i] == ','
}

pub open spec fn digit_value(c: char) -> nat {
    (c as u32 - '0' as u32) as nat
}

/// The number that a count field writes, separators ignored.
pub open spec fn count_value(t: Seq<char>) -> nat
    decreases t.len(),
{
    if t.len() == 0 {
        0
    } else if t.last() == ',' {
        count_value(t.drop_last())
    } else {
        count_value(t.drop_last()) * 10 + digit_value(t.last())
    }
}

/// The label of the whole-program row.
pub open spec fn totals_label() -> Seq<char> {
    seq!['P', 'R', 'O', 'G', 'R', 'A', 'M', ' ', 'T', 'O', 'T', 'A', 'L', 'S']
}

/// Index of the first field at or after `i` that is not a count field.
pub open spec fn count_run(ts: Seq<Seq<char>>, i: nat) -> nat
    decreases ts.len() - i,
{
    if i < ts.len() && is_count_token(ts[i as int]) {
        count_run(ts, i + 1)
    } else {
        i
    }
}

/// Fields joined by single spaces.
pub open spec fn join_words(ts: Seq<Seq<char>>) -> Seq<char>
    decreases ts.len(),
{
    if ts.len() == 0 {
        seq![]
    } else if ts.len() == 1 {
        ts[0]
    } else {
        join_words(ts.drop_last()) + seq![' '] + ts.last()
    }
}

/// What a line of a profiler report is.
pub enum LineShape {
    /// Headers, separators, blank lines and any text that does not start with a digit.
    Other,
    /// The whole-program row.
    Totals(Seq<u64>),
    /// A per-function row: its counts and its label.
    Function(Seq<u64>, Seq<char>),
    /// A line that starts like a row of counts but is not one.
    Malformed,
}

/// The classification of one line.
pub open spec fn classify(line: Seq<char>) -> LineShape {
    let ts = tokens_of(line);
    if ts.len() == 0 || ts[0].len() == 0 || !is_digit(ts[0][0]) {
        LineShape::Other
    } else {
        let k = count_run(ts, 0);
        if k == 0 || k == ts.len() || exists|j: int|
            0 <= j < k && count_value(#[trigger] ts[j]) > u64::MAX {
            LineShape::Malformed
        } else {
            let vals = Seq::new(k, |j: int| count_value(ts[j]) as u64);
            let label = join_words(ts.subrange(k as int, ts.len() as int));
            if label == totals_label() {
                LineShape::Totals(vals)
            } else {
                LineShape::Function(vals, label)
            }
        }
    }
}

/// A classified line, with its fields extracted.
#[derive(Debug)]
pub enum LineClass {
    Other,
    Totals(Vec<u64>),
    Function(Vec<u64>, Vec<char>),
    Malformed,
}

impl View for LineClass {
    type V = LineShape;

    open spec fn view(&self) -> LineShape {
        match self {
            LineClass::Other => LineShape::Other,
            LineClass::Totals(v) => LineShape::Totals(v@),
            LineClass::Function(v, l) => LineShape::Function(v@, l@),
            LineClass::Malformed => LineShape::Malformed,
        }
    }
}

proof fn lemma_count_value_grows(t: Seq<char>, i: int)
    requires
        0 <= i <= t.len(),
    ensures
        count_value(t.take(i)) <= count_value(t),
    decreases t.len(),
{
    if i < t.len() {
        assert(t.drop_last().take(i) =~= t.take(i));
        lemma_count_value_grows(t.drop_last(), i);
    } else {
        assert(t.take(i) =~= t);
    }
}

proof fn lemma_count_run_ge(ts: Seq<Seq<char>>, i: nat)
    ensures
        count_run(ts, i) >= i,
    decreases ts.len() - i,
{
    if i < ts.len() && is_count_token(ts[i as int]) {
        lemma_count_run_ge(ts, i + 1);
    }
}

fn is_digit_char(c: char) -> (r: bool)
    ensures
        r == is_digit(c),
{
    '0' <= c && c <= '9'
}

fn is_count_chars(t: &Vec<char>) -> (r: bool)
    ensures
        r == is_count_token(t@),
{
    if t.len() == 0 || !is_digit_char(t[0]) {
        return false;
    }
    let mut i: usize = 0;
    while i < t.len()
        invariant
            i <= t.len(),
            forall|j: int| 0 <= j < i ==> is_digit(#[trigger] t@[j]) || t@[j] == ',',
        decreases t.len() - i,
    {
        if !(is_digit_char(t[i]) || t[i] == ',') {
            return false;
        }
        i = i + 1;
    }
    true
}

/// The value of a count field given as characters.
fn count_of_chars(t: &Vec<char>) -> (r: Option<u64>)
    ensures
        r == (if is_count_token(t@) && count_value(t@) <= u64::MAX {
            Some(count_value(t@) as u64)
        } else {
            None
        }),
{
    if !is_count_chars(t) {
        return None;
    }
    let mut acc: u64 = 0;
    let mut i: usize = 0;
    while i < t.len()
        invariant
            i <= t.len(),
            is_count_token(t@),
            acc as nat == count_value(t@.take(i as int)),
        decreases t.len() - i,
    {
        let c = t[i];
        assert(t@.take(i + 1).drop_last() =~= t@.take(i as int));
        if c != ',' {
            assert(is_digit(t@[i as int]));
            let d: u64 = (c as u32 - '0' as u32) as u64;
            if acc > (u64::MAX - d) / 10 {
                proof {
                    lemma_count_value_grows(t@, i + 1);
                }
                return None;
            }
            acc = acc * 10 + d;
        }
        i = i + 1;
    }
    assert(t@.take(t.len() as int) =~= t@);
    Some(acc)
}

/// The value of a count field such as `123,456`: `None` unless the text is a
/// digit followed by digits and commas, and its value fits in a `u64`.
pub fn parse_count(token: &str) -> (r: Option<u64>)
    ensures
        r == (if is_count_token(token@) && count_value(token@) <= u64::MAX {
            Some(count_value(token@) as u64)
        } else {
            None
        }),
{
    let t = chars_of(token);
    count_of_chars(&t)
}

fn is_totals_label(label: &Vec<char>) -> (r: bool)
    ensures
        r == (label@ == totals_label()),
{
    let expected: Vec<char> = vec!['P', 'R', 'O', 'G', 'R', 'A', 'M', ' ', 'T', 'O', 'T', 'A', 'L', 'S'];
    assert(expected@ =~= totals_label());
    if label.len() != expected.len() {
        return false;
    }
    let mut i: usize = 0;
    while i < label.len()
        invariant
            i <= label.len(),
            label.len() == expected.len(),
            expected@ == totals_label(),
            forall|j: int| 0 <= j < i ==> label@[j] == expected@[j],
        decreases label.len() - i,
    {
        if label[i] != expected[i] {
            assert(label@[i as int] != totals_label()[i as int]);
            return false;
        }
        i = i + 1;
    }
    assert(label@ =~= expected@);
    true
}

/// Classifies one line of a report and extracts its counts and label.
pub fn classify_line(line: &Vec<char>) -> (r: LineClass)
    ensures
        r@ == classify(line@),
{
    let toks = split_tokens(line);
    let ghost ts = tokens_of(line@);
    assert(forall|j: int| 0 <= j < toks.len() ==> toks@[j]@ =~= #[trigger] ts[j]);
    if toks.len() == 0 || toks[0].len() == 0 || !is_digit_char(toks[0][0]) {
        return LineClass::Other;
    }
    let mut vals: Vec<u64> = Vec::new();
    let mut k: usize = 0;
    while k < toks.len() && is_count_chars(&toks[k])
        invariant
            k <= toks.len(),
            ts == tokens_of(line@),
            toks.len() == ts.len(),
            forall|j: int| 0 <= j < toks.len() ==> toks@[j]@ == #[trigger] ts[j],
            count_run(ts, k as nat) == count_run(ts, 0),
            vals@.len() == k,
            forall|j: int| 0 <= j < k ==> count_value(#[trigger] ts[j]) <= u64::MAX,
            forall|j: int| 0 <= j < k ==> vals@[j] == count_value(#[trigger] ts[j]) as u64,
        decreases toks.len() - k,
    {
        match count_of_chars(&toks[k]) {
            Some(v) => {
                vals.push(v);
            },
            None => {
                proof {
                    lemma_count_run_ge(ts, (k + 1) as nat);
                }
                assert(count_run(ts, 0) > k);
                assert(toks@[k as int]@ == ts[k as int]);
                assert(count_value(ts[k as int]) > u64::MAX);
                assert(toks@[0]@ == ts[0]);
                return LineClass::Malformed;
            },
        }
        k = k + 1;
    }
    assert(count_run(ts, 0) == k);
    if k == 0 || k == toks.len() {
        return LineClass::Malformed;
    }
    let ghost rest = ts.subrange(k as int, ts.len() as int);
    let mut label: Vec<char> = Vec::new();
    let mut j: usize = k;
    while j < toks.len()
        invariant
            k < toks.len(),
            k <= j <= toks.len(),
            ts == tokens_of(line@),
            toks.len() == ts.len(),
            forall|m: int| 0 <= m < toks.len() ==> toks@[m]@ == #[trigger] ts[m],
            rest == ts.subrange(k as int, ts.len() as int),
            label@ == join_words(ts.subrange(k as int, j as int)),
        decreases toks.len() - j,
    {
        let ghost before = label@;
        if j > k {
            label.push(' ');
        }
        let tok = &toks[j];
        let mut m: usize = 0;
        while m < tok.len()
            invariant
                m <= tok.len(),
                label@ == (if j > k { before + seq![' '] } else { before }) + tok@.take(m as int),
            decreases tok.len() - m,
        {
            label.push(tok[m]);
            assert(tok@.take(m + 1) =~= tok@.take(m as int).push(tok@[m as int]));
            m = m + 1;
        }
        assert(tok@.take(tok.len() as int) =~= tok@);
        assert(ts.subrange(k as int, j + 1).drop_last() =~= ts.subrange(k as int, j as int));
        if j == k {
            assert(label@ =~= join_words(ts.subrange(k as int, j + 1)));
        } else {
            assert(label@ =~= join_words(ts.subrange(k as int, j + 1)));
        }
        j = j + 1;
    }
    let ghost vals_spec = Seq::new(k as nat, |i: int| count_value(ts[i]) as u64);
    assert(vals@ =~= vals_spec);
    if is_totals_label(&label) {
        LineClass::Totals(vals)
    } else {
        LineClass::Function(vals, label)
    }
}

} // verus!

verus! {

pub open spec fn not_separator() -> spec_fn(char) -> bool {
    |c: char| c != ','
}

/// Thousands separators do not change a count: `1,234` and `1234` have the same value.
pub proof fn lemma_separators_ignored(t: Seq<char>)
    ensures
        count_value(t) == count_value(t.filter(not_separator())),
    decreases t.len(),
{
    if t.len() > 0 {
        let init = t.drop_last();
        lemma_separators_ignored(init);
        assert(t =~= init.push(t.last()));
        init.lemma_filter_push(t.last(), not_separator());
        if t.last() != ',' {
            let f = init.filter(not_separator()).push(t.last());
            assert(f.drop_last() =~= init.filter(not_separator()));
        }
    }
}

} // verus!
