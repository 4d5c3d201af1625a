//! The rows of a report: which variants were measured, in which order they
//! stand, and what each is compared with.
use vstd::prelude::*;

verus! {

/// How a workload reaches its bytes.
#[derive(Clone, Copy, Debug, PartialEq, Eq, Structural)]
pub enum Variant {
    M32,
    M64,
    TvmMm,
    TvmUnified,
    Tvm,
}

/// What is measured.
#[derive(Clone, Copy, Debug, PartialEq, Eq, Structural)]
pub enum Class {
    Sequential,
    Random,
    List,
    Growth,
    MultiRegion,
    Columnar,
    Jvm,
    LargeWs,
    SpillDriven,
}

impl Variant {
    pub open spec fn text(self) -> Seq<char> {
        match self {
            Variant::M32 => "m32"@,
            Variant::M64 => "m64"@,
            Variant::TvmMm => "tvm-mm"@,
            Variant::TvmUnified => "tvm-unified"@,
            Variant::Tvm => "tvm"@,
        }
    }

    /// The name in a report.
    pub fn name(self) -> (r: &'static str)
        ensures
            r@ == self.text(),
    {
        match self {
            Variant::M32 => "m32",
            Variant::M64 => "m64",
            Variant::TvmMm => "tvm-mm",
            Variant::TvmUnified => "tvm-unified",
            Variant::Tvm => "tvm",
        }
    }
}

impl Class {
    pub open spec fn text(self) -> Seq<char> {
        match self {
            Class::Sequential => "sequential_sum"@,
            Class::Random => "random_chase"@,
            Class::List => "list_walk"@,
            Class::Growth => "growth_bump"@,
            Class::MultiRegion => "multi_region_90_9_1"@,
            Class::Columnar => "columnar_filter_sum"@,
            Class::Jvm => "jvm_gen_alloc_scan"@,
            Class::LargeWs => "large_ws_probe"@,
            Class::SpillDriven => "spill_driven"@,
        }
    }

    /// The name in a report.
    pub fn name(self) -> (r: &'static str)
        ensures
            r@ == self.text(),
    {
        match self {
            Class::Sequential => "sequential_sum",
            Class::Random => "random_chase",
            Class::List => "list_walk",
            Class::Growth => "growth_bump",
            Class::MultiRegion => "multi_region_90_9_1",
            Class::Columnar => "columnar_filter_sum",
            Class::Jvm => "jvm_gen_alloc_scan",
            Class::LargeWs => "large_ws_probe",
            Class::SpillDriven => "spill_driven",
        }
    }
}

/// The rows of a class: the plain memory, the 64-bit memory and the multi-memory
/// variant where there are any, and the regions.
pub open spec fn rows_of<T>(m32: T, m64: Option<T>, mm: Option<T>, tvm: T) -> Seq<T> {
    let a = seq![m32];
    let b = match m64 {
        Some(m) => a.push(m),
        None => a,
    };
    let c = match mm {
        Some(m) => b.push(m),
        None => b,
    };
    c.push(tvm)
}

/// The rows of a class that has no multi-memory variant.
pub fn samples_with_optional<T>(m32: T, m64: Option<T>, tvm: T) -> (r: Vec<T>)
    ensures
        r@ == rows_of(m32, m64, None, tvm),
{
    samples_with_mm(m32, m64, None, tvm)
}

/// The rows of a class that may have a multi-memory variant.
pub fn samples_with_mm<T>(m32: T, m64: Option<T>, mm: Option<T>, tvm: T) -> (r: Vec<T>)
    ensures
        r@ == rows_of(m32, m64, mm, tvm),
{
    let mut v: Vec<T> = Vec::new();
    v.push(m32);
    assert(v@ =~= seq![m32]);
    if let Some(m) = m64 {
        v.push(m);
    }
    if let Some(m) = mm {
        v.push(m);
    }
    v.push(tvm);
    v
}

/// A row as far as comparisons go: its variant, and whether it has a mean.
#[derive(Clone, Copy, Debug, PartialEq, Eq, Structural)]
pub struct Row {
    pub variant: Variant,
    pub measured: bool,
}

/// What a row is compared with.
#[derive(Clone, Copy, Debug, PartialEq, Eq, Structural)]
pub struct Comparison {
    /// The row is the baseline that the others are compared with.
    pub is_baseline: bool,
    /// The ratio to the baseline is reported as zero.
    pub no_ratio: bool,
    /// The row whose mean is divided by this row's.
    pub m64_row: Option<usize>,
}

/// The first measured row of the 64-bit memory among the first `n`.
pub open spec fn m64_row_of(rows: Seq<Row>, n: int) -> Option<usize>
    decreases n,
{
    if n <= 0 {
        None
    } else {
        match m64_row_of(rows, n - 1) {
            Some(k) => Some(k),
            None => if rows[n - 1].variant == Variant::M64 && rows[n - 1].measured {
                Some((n - 1) as usize)
            } else {
                None
            },
        }
    }
}

/// What the row at `i` is compared with: the first row is the baseline, and a
/// measured row of a region variant is also compared with the 64-bit memory.
pub open spec fn comparison_of(rows: Seq<Row>, i: int) -> Comparison {
    if i == 0 {
        Comparison { is_baseline: true, no_ratio: false, m64_row: None }
    } else {
        Comparison {
            is_baseline: false,
            no_ratio: !rows[i].measured,
            m64_row: if (rows[i].variant == Variant::Tvm || rows[i].variant == Variant::TvmMm)
                && rows[i].measured {
                m64_row_of(rows, rows.len() as int)
            } else {
                None
            },
        }
    }
}

/// The row that a search finds is one of the 64-bit memory, and no row before
/// it would do.
pub proof fn lemma_m64_row(rows: Seq<Row>, n: int)
    requires
        0 <= n <= rows.len() <= usize::MAX,
    ensures
        match m64_row_of(rows, n) {
            Some(k) => {
                &&& k < n
                &&& rows[k as int].variant == Variant::M64 && rows[k as int].measured
                &&& forall|j: int|
                    0 <= j < k ==> !(rows[j].variant == Variant::M64 && rows[j].measured)
            },
            None => forall|j: int|
                0 <= j < n ==> !(rows[j].variant == Variant::M64 && rows[j].measured),
        },
    decreases n,
{
    if n > 0 {
        lemma_m64_row(rows, n - 1);
    }
}

/// Settles what each row is compared with.
pub fn annotate_against_baseline(rows: &Vec<Row>) -> (r: Vec<Comparison>)
    ensures
        r@ == Seq::new(rows@.len(), |i: int| comparison_of(rows@, i)),
        forall|i: int|
            0 <= i < r@.len() && #[trigger] r@[i].m64_row is Some ==> r@[i].m64_row->0
                < rows@.len(),
{
    let n: usize = rows.len();
    let mut m64: Option<usize> = None;
    let mut i: usize = 0;
    while i < n
        invariant
            i <= n,
            n == rows@.len(),
            m64 == m64_row_of(rows@, i as int),
        decreases n - i,
    {
        if m64.is_none() && rows[i].variant == Variant::M64 && rows[i].measured {
            m64 = Some(i);
        }
        i += 1;
    }
    proof {
        lemma_m64_row(rows@, n as int);
    }
    let mut out: Vec<Comparison> = Vec::new();
    let mut k: usize = 0;
    while k < n
        invariant
            k <= n,
            n == rows@.len(),
            m64 == m64_row_of(rows@, n as int),
            out@ == Seq::new(k as nat, |i: int| comparison_of(rows@, i)),
        decreases n - k,
    {
        let row = rows[k];
        let c = if k == 0 {
            Comparison { is_baseline: true, no_ratio: false, m64_row: None }
        } else {
            let against_m64 = (row.variant == Variant::Tvm || row.variant == Variant::TvmMm)
                && row.measured;
            Comparison {
                is_baseline: false,
                no_ratio: !row.measured,
                m64_row: if against_m64 {
                    m64
                } else {
                    None
                },
            }
        };
        out.push(c);
        k += 1;
        assert(out@ =~= Seq::new(k as nat, |i: int| comparison_of(rows@, i)));
    }
    out
}

} // verus!
