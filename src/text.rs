use vstd::prelude::*;

verus! {

/// Characters that separate the fields of a line.
pub open spec fn is_blank(c: char) -> bool {
    c == ' ' || c == '\t' || c == '\r'
}

/// Splits `s` at each newline, scanning from the left: the finished lines and
/// the line still being read.
pub open spec fn lines_acc(s: Seq<char>) -> (Seq<Seq<char>>, Seq<char>)
    decreases s.len(),
{
    if s.len() == 0 {
        (seq![], seq![])
    } else {
        let (done, cur) = lines_acc(s.drop_last());
        if s.last() == '\n' {
            (done.push(cur), seq![])
        } else {
            (done, cur.push(s.last()))
        }
    }
}

/// The lines of `s`; a text without a newline is one line.
pub open spec fn lines_of(s: Seq<char>) -> Seq<Seq<char>> {
    lines_acc(s).0.push(lines_acc(s).1)
}

/// Splits `s` into maximal runs of non-blank characters, scanning from the left.
pub open spec fn tokens_acc(s: Seq<char>) -> (Seq<Seq<char>>, Seq<char>)
    decreases s.len(),
{
    if s.len() == 0 {
        (seq![], seq![])
    } else {
        let (done, cur) = tokens_acc(s.drop_last());
        if is_blank(s.last()) {
            if cur.len() > 0 {
                (done.push(cur), seq![])
            } else {
                (done, seq![])
            }
        } else {
            (done, cur.push(s.last()))
        }
    }
}

/// The whitespace-separated fields of a line.
pub open spec fn tokens_of(s: Seq<char>) -> Seq<Seq<char>> {
    if tokens_acc(s).1.len() > 0 {
        tokens_acc(s).0.push(tokens_acc(s).1)
    } else {
        tokens_acc(s).0
    }
}

/// The characters of a string, in order.
pub fn chars_of(s: &str) -> (r: Vec<char>)
    ensures
        r@ == s@,
{
    let mut r: Vec<char> = Vec::new();
    for c in it: s.chars()
        invariant
            r@ == it.seq().take(it.index() as int),
            it.seq() == s@,
    {
        r.push(c);
    }
    r
}

/// Splits a text into its lines at each newline.
pub fn split_lines(text: &Vec<char>) -> (r: Vec<Vec<char>>)
    ensures
        r.deep_view() == lines_of(text@),
{
    let mut done: Vec<Vec<char>> = Vec::new();
    let mut cur: Vec<char> = Vec::new();
    let mut i: usize = 0;
    while i < text.len()
        invariant
            i <= text.len(),
            (done.deep_view(), cur@) == lines_acc(text@.take(i as int)),
        decreases text.len() - i,
    {
        let c = text[i];
        assert(text@.take(i + 1).drop_last() =~= text@.take(i as int));
        if c == '\n' {
            let line = cur;
            cur = Vec::new();
            done.push(line);
            assert(done.deep_view() =~~= lines_acc(text@.take(i + 1)).0);
        } else {
            cur.push(c);
        }
        i = i + 1;
    }
    assert(text@.take(text.len() as int) =~= text@);
    done.push(cur);
    assert(done.deep_view() =~~= lines_of(text@));
    done
}

/// Splits a line into its whitespace-separated fields.
pub fn split_tokens(line: &Vec<char>) -> (r: Vec<Vec<char>>)
    ensures
        r.deep_view() == tokens_of(line@),
{
    let mut done: Vec<Vec<char>> = Vec::new();
    let mut cur: Vec<char> = Vec::new();
    let mut i: usize = 0;
    while i < line.len()
        invariant
            i <= line.len(),
            (done.deep_view(), cur@) == tokens_acc(line@.take(i as int)),
        decreases line.len() - i,
    {
        let c = line[i];
        assert(line@.take(i + 1).drop_last() =~= line@.take(i as int));
        if c == ' ' || c == '\t' || c == '\r' {
            if cur.len() > 0 {
                let tok = cur;
                cur = Vec::new();
                done.push(tok);
                assert(done.deep_view() =~~= tokens_acc(line@.take(i + 1)).0);
            } else {
                cur = Vec::new();
                assert(cur@ =~= tokens_acc(line@.take(i + 1)).1);
            }
        } else {
            cur.push(c);
        }
        i = i + 1;
    }
    assert(line@.take(line.len() as int) =~= line@);
    if cur.len() > 0 {
        done.push(cur);
        assert(done.deep_view() =~~= tokens_of(line@));
    }
    done
}

} // verus!
