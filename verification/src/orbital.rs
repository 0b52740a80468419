//! Integer structure of the hydrogen-like orbital: the factorial ratios
//! that make up the associated Laguerre polynomial and the normalization.
use vstd::prelude::*;
use crate::saturate::sat_add_u32;

verus! {

/// The signed factorial ratio `(-1)^negative * numerator! / (lower! * upper!) / index!`.
#[derive(PartialEq, Eq, Structural, Debug, Clone, Copy)]
pub struct FactorialTerm {
    pub numerator: u32,
    pub lower: u32,
    pub upper: u32,
    pub index: u32,
    pub negative: bool,
}

/// Degree `n - l - 1` and order `2l + 1` of the associated Laguerre
/// polynomial of quantum numbers `n` and `l` (both taken at most
/// `i32::MAX`, the order capped at `i32::MAX`), or `None` when `l >= n`.
pub open spec fn spec_laguerre_params(n: u32, l: u32) -> Option<(int, int)> {
    let nv: int = if n > i32::MAX { i32::MAX as int } else { n as int };
    let lv: int = if l > i32::MAX { i32::MAX as int } else { l as int };
    let alpha: int = if 2 * lv + 1 > i32::MAX { i32::MAX as int } else { 2 * lv + 1 };
    if nv - lv - 1 < 0 { None } else { Some((nv - lv - 1, alpha)) }
}

/// Coefficient `k` of the associated Laguerre polynomial of degree `degree`
/// and order `alpha`: `(-1)^k * (degree + alpha)! / ((degree - k)! * (alpha + k)!) / k!`.
pub open spec fn laguerre_term(degree: int, alpha: int, k: int) -> FactorialTerm {
    FactorialTerm {
        numerator: sat_add_u32(degree, alpha) as u32,
        lower: (degree - k) as u32,
        upper: sat_add_u32(alpha, k) as u32,
        index: k as u32,
        negative: k % 2 == 1,
    }
}

/// The ratio that evaluates to one.
pub open spec fn unit_term() -> FactorialTerm {
    FactorialTerm { numerator: 0, lower: 0, upper: 0, index: 0, negative: false }
}

/// The Laguerre coefficients alternate in sign, `(-1)^k`: coefficient `k`
/// is negative exactly when `k` is odd, so neighbours have opposite signs;
/// coefficient `k` has lower factorial `degree - k` and upper `alpha + k`
/// (below saturation), all sharing the numerator `(degree + alpha)!`.
pub proof fn lemma_laguerre_term_shape(degree: int, alpha: int, k: int)
    requires
        0 <= k <= degree,
        0 <= alpha,
        degree + alpha <= u32::MAX,
    ensures
        laguerre_term(degree, alpha, k).negative <==> k % 2 == 1,
        k + 1 <= degree ==> laguerre_term(degree, alpha, k + 1).negative != laguerre_term(degree, alpha, k).negative,
        laguerre_term(degree, alpha, k).index == k,
        laguerre_term(degree, alpha, k).lower == degree - k,
        laguerre_term(degree, alpha, k).upper == alpha + k,
        laguerre_term(degree, alpha, k).numerator == degree + alpha,
        laguerre_term(degree, alpha, k).numerator == laguerre_term(degree, alpha, 0).numerator,
{
}

/// The Laguerre parameters of quantum numbers `n`, `l` (both at most
/// `i32::MAX`): defined exactly when `l < n`, with degree `n - l - 1` and
/// order `2l + 1` (below `i32::MAX`).
pub proof fn lemma_laguerre_params(n: u32, l: u32)
    ensures
        (n <= i32::MAX && l <= i32::MAX) ==> (spec_laguerre_params(n, l) is Some <==> l < n),
        (n <= i32::MAX && l < n) ==> spec_laguerre_params(n, l) == Some(((n - l - 1) as int, (if l < 0x4000_0000 { 2 * l + 1 } else { i32::MAX as int }))),
        spec_laguerre_params(n, l) matches Some((d, a)) ==> 0 <= d && d + 1 <= n && 1 <= a <= i32::MAX && d + a <= u32::MAX,
        spec_laguerre_params(n, l) is None ==> !(n <= i32::MAX && l < n),
{
}

/// Coefficients of the associated Laguerre polynomial for quantum numbers
/// `n` and `l`, lowest power first; the constant polynomial 1 when `l >= n`.
pub fn laguerre_terms(n_quantum: u32, l_quantum: u32) -> (r: Vec<FactorialTerm>)
    ensures
        match spec_laguerre_params(n_quantum, l_quantum) {
            None => r@ == seq![unit_term()],
            Some((degree, alpha)) => {
                &&& r@.len() == degree + 1
                &&& forall|k: int| 0 <= k <= degree ==> #[trigger] r@[k] == laguerre_term(degree, alpha, k)
            },
        },
        forall|k: int|
            0 <= k < r@.len() ==> {
                &&& (#[trigger] r@[k]).negative == (k % 2 == 1)
                &&& r@[k].index == k
                &&& r@[k].lower + r@[k].index == r@.len() - 1
                &&& r@[k].numerator == r@[0].numerator
            },
        r@.len() >= 1,
        (n_quantum <= i32::MAX && l_quantum < n_quantum) ==> r@.len() == n_quantum - l_quantum,
        l_quantum >= n_quantum ==> r@.len() == 1 && !r@[0].negative && r@[0].numerator == 0
            && r@[0].lower == 0 && r@[0].upper == 0 && r@[0].index == 0,
        (n_quantum <= i32::MAX && l_quantum < n_quantum && l_quantum < 0x4000_0000) ==> forall|k: int|
            0 <= k < r@.len() ==> {
                &&& (#[trigger] r@[k]).upper == 2 * l_quantum + 1 + k
                &&& r@[k].numerator == n_quantum + l_quantum
            },
{
    let nv: u32 = if n_quantum > 2147483647u32 { 2147483647u32 } else { n_quantum };
    let lv: u32 = if l_quantum > 2147483647u32 { 2147483647u32 } else { l_quantum };
    proof {
        lemma_laguerre_params(n_quantum, l_quantum);
    }
    if nv < lv + 1 {
        let mut terms: Vec<FactorialTerm> = Vec::new();
        terms.push(FactorialTerm { numerator: 0, lower: 0, upper: 0, index: 0, negative: false });
        assert(terms@ =~= seq![unit_term()]);
        return terms;
    }
    let degree: u32 = nv - lv - 1;
    let alpha: u32 = if lv > 1073741823u32 { 2147483647u32 } else { 2 * lv + 1 };
    let mut terms: Vec<FactorialTerm> = Vec::new();
    let mut k: u32 = 0;
    while k <= degree
        invariant
            degree < 2147483647u32,
            k <= degree + 1,
            terms@.len() == k,
            forall|j: int| 0 <= j < k ==> #[trigger] terms@[j] == laguerre_term(degree as int, alpha as int, j),
        decreases degree + 1 - k,
    {
        let term = FactorialTerm {
            numerator: degree.saturating_add(alpha),
            lower: degree - k,
            upper: alpha.saturating_add(k),
            index: k,
            negative: k % 2 == 1,
        };
        terms.push(term);
        k = k + 1;
    }
    terms
}

/// Factorial arguments of the orbital normalization for quantum numbers
/// `n`, `l`, `m`: `(n - l - 1, n + l, l - |m|, l + |m|)` with saturating
/// `u32` arithmetic (differences floored at zero).
pub fn normalization_factorials(n_quantum: u32, l_quantum: u32, m_quantum: i32) -> (r: (u32, u32, u32, u32))
    ensures
        ({
            let abs_m: int = if m_quantum < 0 { -m_quantum } else { m_quantum as int };
            let floor0 = |v: int| if v < 0 { 0 } else { v };
            r == (
                floor0(n_quantum - l_quantum - 1) as u32,
                sat_add_u32(n_quantum as int, l_quantum as int) as u32,
                floor0(l_quantum - abs_m) as u32,
                sat_add_u32(l_quantum as int, abs_m) as u32,
            )
        }),
{
    let abs_m: u32 = unsigned_abs(m_quantum);
    (
        n_quantum.saturating_sub(l_quantum).saturating_sub(1),
        n_quantum.saturating_add(l_quantum),
        l_quantum.saturating_sub(abs_m),
        l_quantum.saturating_add(abs_m),
    )
}

/// A value narrowed to `u16`: anything negative or above `u16::MAX` becomes `u16::MAX`.
pub open spec fn narrow_u16(v: int) -> int {
    if v < 0 || v > u16::MAX { u16::MAX as int } else { v }
}

/// A `u32` taken as `i32`, capped at `i32::MAX`.
pub open spec fn cap_i32(v: int) -> int {
    if v > i32::MAX { i32::MAX as int } else { v }
}

/// An `i32` sum or product, saturating at `i32::MAX` (used on non-negative operands).
pub open spec fn sat_i32(v: int) -> int {
    if v > i32::MAX { i32::MAX as int } else { v }
}

/// Narrowing to `u16` is the identity on `0..=u16::MAX` and gives
/// `u16::MAX` outside it.
pub proof fn lemma_narrow_u16(v: int)
    ensures
        0 <= v <= u16::MAX ==> narrow_u16(v) == v,
        (v < 0 || v > u16::MAX) ==> narrow_u16(v) == u16::MAX,
{
}

fn narrow_i64_to_u16(v: i64) -> (r: u16)
    ensures
        r == narrow_u16(v as int),
        0 <= v <= 65535 ==> r == v,
{
    if v < 0 || v > 65535i64 {
        65535u16
    } else {
        v as u16
    }
}

/// Factor `2i - 1` of the odd double factorial, computed in saturating `u32`
/// arithmetic and clamped to `u16`.
pub fn odd_factor(index: u32) -> (r: u16)
    ensures
        ({
            let doubled = if 2 * index > u32::MAX { u32::MAX as int } else { 2 * index };
            let odd = if doubled - 1 < 0 { 0 } else { doubled - 1 };
            r == (if odd > u16::MAX { u16::MAX as int } else { odd })
        }),
        1 <= index <= 32768 ==> r == 2 * index - 1,
{
    let doubled: u32 = if index > 2147483647u32 { u32::MAX } else { 2 * index };
    let odd = doubled.saturating_sub(1);
    if odd > 65535u32 {
        65535u16
    } else {
        odd as u16
    }
}

/// Factor `2|m| + 1` that seeds the Legendre recurrence one degree above `|m|`.
pub fn legendre_seed_factor(abs_m: u32) -> (r: u16)
    ensures
        r == narrow_u16(sat_i32(sat_i32(2 * cap_i32(abs_m as int)) + 1)),
        abs_m <= 32767 ==> r == 2 * abs_m + 1,
        abs_m > 32767 ==> r == u16::MAX,
{
    let m: i64 = if abs_m > 2147483647u32 { 2147483647i64 } else { abs_m as i64 };
    let doubled: i64 = if 2 * m > 2147483647i64 { 2147483647i64 } else { 2 * m };
    let seed: i64 = if doubled + 1 > 2147483647i64 { 2147483647i64 } else { doubled + 1 };
    narrow_i64_to_u16(seed)
}

/// The recurrence factors are the plain integers `2d - 1`, `d + |m| - 1`
/// and `d - |m|` whenever these lie in `0..=u16::MAX`, and `u16::MAX` when
/// they are negative or larger; the seed factor is `2|m| + 1`.
pub proof fn lemma_legendre_factor_values(d: u32, m: u32)
    ensures
        ({
            let dd = cap_i32(d as int);
            let mm = cap_i32(m as int);
            &&& (1 <= d <= 32768 ==> narrow_u16(sat_i32(2 * dd) - 1) == 2 * d - 1)
            &&& (1 <= d + m <= 65536 ==> narrow_u16(sat_i32(dd + mm) - 1) == d + m - 1)
            &&& ((d <= i32::MAX && m <= d <= m + 65535) ==> narrow_u16(dd - mm) == d - m)
            &&& (m <= 32767 ==> narrow_u16(sat_i32(sat_i32(2 * mm) + 1)) == 2 * m + 1)
        }),
{
}

/// Factors of the Legendre recurrence at degree `d` for order `|m|`:
/// `(2d - 1, d + |m| - 1, d - |m|)` in saturating `i32` arithmetic, each
/// narrowed to `u16`; `P_d = ((2d - 1) x P_{d-1} - (d + |m| - 1) P_{d-2}) / (d - |m|)`.
pub fn legendre_factors(degree: u32, abs_m: u32) -> (r: (u16, u16, u16))
    ensures
        ({
            let d = cap_i32(degree as int);
            let m = cap_i32(abs_m as int);
            r == (
                narrow_u16(sat_i32(2 * d) - 1) as u16,
                narrow_u16(sat_i32(d + m) - 1) as u16,
                narrow_u16(d - m) as u16,
            )
        }),
        1 <= degree <= 32768 ==> r.0 == 2 * degree - 1,
        (degree == 0 || degree > 32768) ==> r.0 == u16::MAX,
        1 <= degree + abs_m <= 65536 ==> r.1 == degree + abs_m - 1,
        (degree + abs_m == 0 || degree + abs_m > 65536) ==> r.1 == u16::MAX,
        (degree <= i32::MAX && abs_m <= degree <= abs_m + 65535) ==> r.2 == degree - abs_m,
        (degree <= i32::MAX && abs_m <= i32::MAX && degree < abs_m) ==> r.2 == u16::MAX,
{
    let d: i64 = if degree > 2147483647u32 { 2147483647i64 } else { degree as i64 };
    let m: i64 = if abs_m > 2147483647u32 { 2147483647i64 } else { abs_m as i64 };
    let doubled: i64 = if 2 * d > 2147483647i64 { 2147483647i64 } else { 2 * d };
    let sum: i64 = if d + m > 2147483647i64 { 2147483647i64 } else { d + m };
    (narrow_i64_to_u16(doubled - 1), narrow_i64_to_u16(sum - 1), narrow_i64_to_u16(d - m))
}

/// `|m|` as a `u32` (exact for every `i32`, `i32::MIN` included).
pub fn unsigned_abs(m: i32) -> (r: u32)
    ensures
        r == (if m < 0 { -m } else { m as int }),
{
    if m < 0 {
        if m == i32::MIN {
            2147483648u32
        } else {
            (-m) as u32
        }
    } else {
        m as u32
    }
}

} // verus!
