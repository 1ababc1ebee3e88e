use vstd::prelude::*;
use crate::text::chars_of;

verus! {

/// The two profilers whose reports are read.
#[derive(Clone, Copy, Debug, PartialEq, Eq, Structural)]
pub enum ProfilerKind {
    /// The instruction/call profiler: one count per row.
    CallGrind,
    /// The cache-simulation profiler: nine counts per row.
    CacheGrind,
}

/// The counters of the cache-simulation profiler, in the order of its columns.
#[derive(Clone, Copy, Debug, PartialEq, Eq, Structural)]
pub enum Metric {
    Ir,
    I1mr,
    ILmr,
    Dr,
    D1mr,
    DLmr,
    Dw,
    D1mw,
    DLmw,
}

/// The number of counts in each row of a report of this kind.
pub open spec fn schema_len(kind: ProfilerKind) -> nat {
    match kind {
        ProfilerKind::CallGrind => 1,
        ProfilerKind::CacheGrind => 9,
    }
}

impl Metric {
    /// The column of this counter.
    pub open spec fn column(self) -> nat {
        match self {
            Metric::Ir => 0,
            Metric::I1mr => 1,
            Metric::ILmr => 2,
            Metric::Dr => 3,
            Metric::D1mr => 4,
            Metric::DLmr => 5,
            Metric::Dw => 6,
            Metric::D1mw => 7,
            Metric::DLmw => 8,
        }
    }

    /// The name by which a user asks to sort on this counter.
    pub open spec fn name_of(self) -> Seq<char> {
        match self {
            Metric::Ir => seq!['i', 'r'],
            Metric::I1mr => seq!['i', '1', 'm', 'r'],
            Metric::ILmr => seq!['i', 'l', 'm', 'r'],
            Metric::Dr => seq!['d', 'r'],
            Metric::D1mr => seq!['d', '1', 'm', 'r'],
            Metric::DLmr => seq!['d', 'l', 'm', 'r'],
            Metric::Dw => seq!['d', 'w'],
            Metric::D1mw => seq!['d', '1', 'm', 'w'],
            Metric::DLmw => seq!['d', 'l', 'm', 'w'],
        }
    }

    fn name_chars(&self) -> (r: Vec<char>)
        ensures
            r@ == self.name_of(),
    {
        let r = match self {
            Metric::Ir => vec!['i', 'r'],
            Metric::I1mr => vec!['i', '1', 'm', 'r'],
            Metric::ILmr => vec!['i', 'l', 'm', 'r'],
            Metric::Dr => vec!['d', 'r'],
            Metric::D1mr => vec!['d', '1', 'm', 'r'],
            Metric::DLmr => vec!['d', 'l', 'm', 'r'],
            Metric::Dw => vec!['d', 'w'],
            Metric::D1mw => vec!['d', '1', 'm', 'w'],
            Metric::DLmw => vec!['d', 'l', 'm', 'w'],
        };
        assert(r@ =~= self.name_of());
        r
    }

    /// The counter with this name (`ir`, `i1mr`, `ilmr`, `dr`, `d1mr`, `dlmr`,
    /// `dw`, `d1mw` or `dlmw`), if there is one.
    pub fn from_name(name: &str) -> (r: Option<Metric>)
        ensures
            r is Some ==> r->Some_0.name_of() == name@,
            r is None ==> forall|m: Metric| m.name_of() != name@,
    {
        let given = chars_of(name);
        let all = schema(ProfilerKind::CacheGrind);
        let mut i: usize = 0;
        while i < all.len()
            invariant
                i <= all.len(),
                given@ == name@,
                all@.len() == 9,
                forall|j: int| 0 <= j < all@.len() ==> (#[trigger] all@[j]).column() == j,
                forall|j: int| 0 <= j < i ==> (#[trigger] all@[j]).name_of() != name@,
            decreases all.len() - i,
        {
            let m = all[i];
            let expected = m.name_chars();
            if same_chars(&expected, &given) {
                return Some(m);
            }
            i = i + 1;
        }
        assert forall|m: Metric| m.name_of() != name@ by {
            assert(all@[m.column() as int].column() == m.column());
        }
        None
    }

    pub fn index(&self) -> (r: usize)
        ensures
            r == self.column(),
            r < 9,
    {
        match self {
            Metric::Ir => 0,
            Metric::I1mr => 1,
            Metric::ILmr => 2,
            Metric::Dr => 3,
            Metric::D1mr => 4,
            Metric::DLmr => 5,
            Metric::Dw => 6,
            Metric::D1mw => 7,
            Metric::DLmw => 8,
        }
    }
}

fn same_chars(a: &Vec<char>, b: &Vec<char>) -> (r: bool)
    ensures
        r == (a@ == b@),
{
    if a.len() != b.len() {
        return false;
    }
    let mut i: usize = 0;
    while i < a.len()
        invariant
            i <= a.len(),
            a.len() == b.len(),
            forall|j: int| 0 <= j < i ==> a@[j] == b@[j],
        decreases a.len() - i,
    {
        if a[i] != b[i] {
            assert(a@[i as int] != b@[i as int]);
            return false;
        }
        i = i + 1;
    }
    assert(a@ =~= b@);
    true
}

/// The number of counts in each row of a report of this kind.
pub fn metric_count(kind: ProfilerKind) -> (r: usize)
    ensures
        r == schema_len(kind),
{
    match kind {
        ProfilerKind::CallGrind => 1,
        ProfilerKind::CacheGrind => 9,
    }
}

/// The counters of a report of this kind, in column order.
pub fn schema(kind: ProfilerKind) -> (r: Vec<Metric>)
    ensures
        r@.len() == schema_len(kind),
        forall|i: int| 0 <= i < r@.len() ==> (#[trigger] r@[i]).column() == i,
{
    match kind {
        ProfilerKind::CallGrind => vec![Metric::Ir],
        ProfilerKind::CacheGrind => vec![
            Metric::Ir,
            Metric::I1mr,
            Metric::ILmr,
            Metric::Dr,
            Metric::D1mr,
            Metric::DLmr,
            Metric::Dw,
            Metric::D1mw,
            Metric::DLmw,
        ],
    }
}

} // verus!
