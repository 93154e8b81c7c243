use vstd::prelude::*;

verus! {

/// Slab-method distance bounds are exact rationals, kept as a numerator
/// and a denominator. A pair with `den > 0` stands for `num / den`; the
/// pair `(num, 0)` with `num > 0` stands for positive infinity, the
/// upper bound before any slab has constrained it.
pub open spec fn frac_wf(num: int, den: int) -> bool {
    den > 0 || (den == 0 && num > 0)
}

/// `a_num / a_den <= b_num / b_den`, stated by cross-multiplication so
/// that no division is needed. With well-formed fractions this is the
/// ordinary order on the rationals, and `(num, 0)` sits above everything.
pub open spec fn frac_le(a_num: int, a_den: int, b_num: int, b_den: int) -> bool {
    a_num * b_den <= b_num * a_den
}

/// The product of two 64-bit values fits in 128 bits.
proof fn lemma_i64_product_fits(a: int, b: int)
    by (nonlinear_arith)
    requires
        -0x8000_0000_0000_0000 <= a <= 0x7fff_ffff_ffff_ffff,
        -0x8000_0000_0000_0000 <= b <= 0x7fff_ffff_ffff_ffff,
    ensures
        -0x8000_0000_0000_0000_0000_0000_0000_0000 <= a * b
            <= 0x7fff_ffff_ffff_ffff_ffff_ffff_ffff_ffff,
{
}

/// Cross-multiplied comparison of two fractions, carried out in 128-bit
/// arithmetic, which the products of 64-bit values cannot overflow.
pub fn frac_le_exec(a_num: i64, a_den: i64, b_num: i64, b_den: i64) -> (r: bool)
    ensures
        r == frac_le(a_num as int, a_den as int, b_num as int, b_den as int),
{
    proof {
        lemma_i64_product_fits(a_num as int, b_den as int);
        lemma_i64_product_fits(b_num as int, a_den as int);
    }
    (a_num as i128) * (b_den as i128) <= (b_num as i128) * (a_den as i128)
}

/// `frac_le` is transitive on well-formed fractions; infinity behaves as
/// the largest element.
pub proof fn lemma_frac_le_trans(
    a_num: int,
    a_den: int,
    b_num: int,
    b_den: int,
    c_num: int,
    c_den: int,
)
    by (nonlinear_arith)
    requires
        a_den > 0 || (a_den == 0 && a_num > 0),
        b_den > 0 || (b_den == 0 && b_num > 0),
        c_den > 0 || (c_den == 0 && c_num > 0),
        a_num * b_den <= b_num * a_den,
        b_num * c_den <= c_num * b_den,
    ensures
        a_num * c_den <= c_num * a_den,
{
}

} // verus!
