//! The repeating unit of a raw dump: a payload sector followed by spare bytes.

use vstd::prelude::*;
use vstd::arithmetic::div_mod::lemma_fundamental_div_mod;
use vstd::arithmetic::div_mod::lemma_fundamental_div_mod_converse;

verus! {

/// Bytes of payload in a sector.
pub const PAYLOAD_SIZE: usize = 512;

/// Bytes of out-of-band data that follow each sector in a dump.
pub const SPARE_SIZE: usize = 8;

/// The sizes of the two parts of a unit. A unit holds at least one payload
/// byte, and its size is a `usize`.
#[derive(Clone, Copy, Debug, PartialEq, Eq, Structural)]
pub struct SectorLayout {
    payload_size: usize,
    spare_size: usize,
}

impl SectorLayout {
    /// Bytes of payload in a unit, for contracts.
    pub closed spec fn spec_payload_size(&self) -> usize {
        self.payload_size
    }

    /// Spare bytes in a unit, for contracts.
    pub closed spec fn spec_spare_size(&self) -> usize {
        self.spare_size
    }

    /// What every layout in use meets.
    #[verifier::type_invariant]
    pub open spec fn wf(self) -> bool {
        &&& self.payload_size() > 0
        &&& self.payload_size() + self.spare_size() <= usize::MAX
    }

    /// Bytes in one unit, payload and spare together.
    pub open spec fn unit_size(self) -> int {
        self.payload_size() + self.spare_size()
    }

    /// How many of the first `n` bytes of a stream of units are payload:
    /// the whole payload of each complete unit, and of what is left as much
    /// as lies before the spare bytes.
    pub open spec fn payload_len(self, n: int) -> int {
        let rest = n % self.unit_size();
        (n / self.unit_size()) * self.payload_size() + if rest < self.payload_size() {
            rest
        } else {
            self.payload_size() as int
        }
    }

    /// Where in a stream of units payload byte `k` lies.
    pub open spec fn source_index(self, k: int) -> int {
        (k / (self.payload_size() as int)) * self.unit_size() + k % (self.payload_size() as int)
    }

    /// The layout of sector dumps: 512 bytes of payload, 8 spare bytes.
    pub fn standard() -> (layout: SectorLayout)
        ensures
            layout.payload_size() == PAYLOAD_SIZE,
            layout.spare_size() == SPARE_SIZE,
            layout.wf(),
    {
        SectorLayout { payload_size: PAYLOAD_SIZE, spare_size: SPARE_SIZE }
    }

    /// A layout of other sizes, where they make a unit.
    pub fn new(payload_size: usize, spare_size: usize) -> (layout: Option<SectorLayout>)
        ensures
            layout is Some <==> payload_size > 0 && payload_size + spare_size <= usize::MAX,
            layout matches Some(l) ==> l.wf() && l.payload_size() == payload_size
                && l.spare_size() == spare_size,
    {
        if payload_size == 0 || spare_size > usize::MAX - payload_size {
            None
        } else {
            Some(SectorLayout { payload_size, spare_size })
        }
    }

    /// Bytes of payload in a unit.
    #[verifier::when_used_as_spec(spec_payload_size)]
    pub fn payload_size(&self) -> (size: usize)
        ensures
            size == self.payload_size(),
    {
        self.payload_size
    }

    /// Spare bytes that follow the payload in a unit.
    #[verifier::when_used_as_spec(spec_spare_size)]
    pub fn spare_size(&self) -> (size: usize)
        ensures
            size == self.spare_size(),
    {
        self.spare_size
    }
}

/// A number of bytes splits into complete units and a rest shorter than a unit.
pub proof fn lemma_units(layout: SectorLayout, n: int)
    requires
        layout.wf(),
        0 <= n,
    ensures
        n == (n / layout.unit_size()) * layout.unit_size() + n % layout.unit_size(),
        0 <= n / layout.unit_size(),
        0 <= n % layout.unit_size() < layout.unit_size(),
{
    let u = layout.unit_size();
    lemma_fundamental_div_mod(n, u);
}

/// Stripping never yields more bytes than it is given, and yields all of them
/// exactly where no spare byte is among them.
pub proof fn lemma_payload_len_bounds(layout: SectorLayout, n: int)
    requires
        layout.wf(),
        0 <= n,
    ensures
        0 <= layout.payload_len(n) <= n,
        n > 0 ==> layout.payload_len(n) > 0,
        layout.payload_len(n) == n <==> layout.spare_size() == 0 || n <= layout.payload_size(),
{
    let u = layout.unit_size();
    let p = layout.payload_size() as int;
    let s = layout.spare_size() as int;
    let q = n / u;
    lemma_units(layout, n);
    assert(q * u == q * p + q * s) by (nonlinear_arith)
        requires
            u == p + s,
    ;
    if q >= 1 {
        assert(q * p >= p && q * s >= s) by (nonlinear_arith)
            requires
                q >= 1,
                0 <= p,
                0 <= s,
        ;
    } else {
        assert(q * p == 0 && q * s == 0) by (nonlinear_arith)
            requires
                q == 0,
        ;
    }
}

/// The payload of a longer prefix is no shorter.
pub proof fn lemma_payload_len_monotonic(layout: SectorLayout, a: int, b: int)
    requires
        layout.wf(),
        0 <= a <= b,
    ensures
        layout.payload_len(a) <= layout.payload_len(b),
{
    let u = layout.unit_size();
    let p = layout.payload_size() as int;
    lemma_units(layout, a);
    lemma_units(layout, b);
    let qa = a / u;
    let qb = b / u;
    if qa != qb {
        assert(qa < qb) by (nonlinear_arith)
            requires
                a <= b,
                a == qa * u + a % u,
                b == qb * u + b % u,
                0 <= a % u < u,
                0 <= b % u < u,
                qa != qb,
        ;
        assert(qa * p + p <= qb * p) by (nonlinear_arith)
            requires
                qa + 1 <= qb,
                0 <= p,
        ;
    }
}

/// A block that starts on a unit boundary, `start` bytes into a stream of
/// `total` bytes, adds its payload to what came before it: a whole sector, or
/// what the stream still holds.
pub proof fn lemma_payload_len_block(layout: SectorLayout, start: int, total: int)
    requires
        layout.wf(),
        0 <= start < total,
        start % layout.unit_size() == 0,
    ensures
        layout.payload_len(start) == (start / layout.unit_size()) * layout.payload_size(),
        start + layout.unit_size() <= total ==> layout.payload_len(start + layout.unit_size())
            == layout.payload_len(start) + layout.payload_size(),
        start + layout.unit_size() > total ==> layout.payload_len(total) == layout.payload_len(
            start,
        ) + if total - start < layout.payload_size() {
            total - start
        } else {
            layout.payload_size() as int
        },
{
    let u = layout.unit_size();
    let p = layout.payload_size() as int;
    let q = start / u;
    lemma_units(layout, start);
    if start + u <= total {
        assert(start + u == (q + 1) * u + 0) by (nonlinear_arith)
            requires
                start == q * u,
        ;
        lemma_fundamental_div_mod_converse(start + u, u, q + 1, 0);
        assert((q + 1) * p == q * p + p) by (nonlinear_arith);
    } else {
        lemma_fundamental_div_mod_converse(total, u, q, total - start);
    }
}

/// Within a block that starts on a unit boundary, payload byte `j` of the
/// block is byte `j` of the unit.
pub proof fn lemma_source_index_block(layout: SectorLayout, start: int, j: int)
    requires
        layout.wf(),
        0 <= start,
        start % layout.unit_size() == 0,
        0 <= j < layout.payload_size(),
    ensures
        layout.source_index(layout.payload_len(start) + j) == start + j,
{
    let u = layout.unit_size();
    let p = layout.payload_size() as int;
    let q = start / u;
    lemma_units(layout, start);
    lemma_fundamental_div_mod_converse(q * p + j, p, q, j);
}

/// Every payload byte of a prefix lies inside that prefix.
pub proof fn lemma_source_index_in_range(layout: SectorLayout, n: int, k: int)
    requires
        layout.wf(),
        0 <= k < layout.payload_len(n),
        0 <= n,
    ensures
        0 <= layout.source_index(k) < n,
{
    let u = layout.unit_size();
    let p = layout.payload_size() as int;
    let q = n / u;
    let kq = k / p;
    let kr = k % p;
    lemma_units(layout, n);
    lemma_fundamental_div_mod(k, p);
    if kq < q {
        assert(kq * u + u <= q * u) by (nonlinear_arith)
            requires
                kq + 1 <= q,
                0 <= u,
        ;
    } else {
        assert(kq == q) by (nonlinear_arith)
            requires
                kq >= q,
                0 <= kr,
                0 < p,
                k == kq * p + kr,
                k < q * p + p,
        ;
    }
}

} // verus!
