use vstd::prelude::*;

use crate::aabb::AABB;
use crate::frac::frac_le;
use crate::frac::frac_le_exec;
use crate::frac::frac_wf;
use crate::frac::lemma_frac_le_trans;
use crate::point::Point3;
use crate::point::Vector3;

verus! {

/// A ray: an origin point and a direction, both held as exact integer
/// coordinates.
///
/// Only the direction's heading matters: every intersection answer is
/// unchanged when the direction is scaled by a positive factor
/// ([`lemma_direction_scale_invariant`]). An integer triple of unit
/// length exists only along the coordinate axes, so construction keeps
/// the components exactly as given instead of storing a unit-length
/// form.
#[derive(Clone, Copy, Debug, PartialEq, Eq, Structural)]
pub struct Ray {
    pub origin: Point3,
    pub direction: Vector3,
}

/// One slab constraint, scaled by `td > 0` so that it stays within the
/// integers: at parameter `t = tn / td` the ray coordinate `o + t * d`
/// lies in the closed interval `[lo, hi]`.
pub open spec fn axis_within(lo: int, hi: int, o: int, d: int, tn: int, td: int) -> bool {
    lo * td <= o * td + tn * d && o * td + tn * d <= hi * td
}

/// At parameter `t = tn / td` the ray's point lies in the closed box.
pub open spec fn hits_at(r: Ray, a: AABB, tn: int, td: int) -> bool {
    &&& axis_within(a.min.x as int, a.max.x as int, r.origin.x as int, r.direction.x as int, tn, td)
    &&& axis_within(a.min.y as int, a.max.y as int, r.origin.y as int, r.direction.y as int, tn, td)
    &&& axis_within(a.min.z as int, a.max.z as int, r.origin.z as int, r.direction.z as int, tn, td)
}

/// The geometric hit relation: at some rational parameter `t >= 0` the
/// ray's point `origin + t * direction` lies in the closed box.
pub open spec fn ray_hits(r: Ray, a: AABB) -> bool {
    exists|tn: int, td: int| td > 0 && tn >= 0 && #[trigger] hits_at(r, a, tn, td)
}

/// All three direction components vanish, so the ray has no heading.
pub open spec fn direction_is_zero(r: Ray) -> bool {
    r.direction.x == 0 && r.direction.y == 0 && r.direction.z == 0
}

/// The ray runs parallel to some axis while its origin sits exactly on
/// one of the box's two faces for that axis, so the ray can at most run
/// along the face without entering the box's interior on that side.
pub open spec fn grazes_parallel_face(r: Ray, a: AABB) -> bool {
    ||| r.direction.x == 0 && (r.origin.x == a.min.x || r.origin.x == a.max.x)
    ||| r.direction.y == 0 && (r.origin.y == a.min.y || r.origin.y == a.max.y)
    ||| r.direction.z == 0 && (r.origin.z == a.min.z || r.origin.z == a.max.z)
}

/// What the slab test reports: a geometric hit, with two deliberate
/// exceptions. A ray with no heading never hits anything, and a ray that
/// merely grazes a face it runs parallel to is reported as a miss; both
/// are degenerate inputs whose silent-miss policy is part of the design,
/// not an accident of the arithmetic.
pub open spec fn ray_reports_hit(r: Ray, a: AABB) -> bool {
    !direction_is_zero(r) && !grazes_parallel_face(r, a) && ray_hits(r, a)
}

/// Denominator of the two slab bounds on an axis with direction `d != 0`.
spec fn slab_den(d: int) -> int {
    if d > 0 {
        d
    } else {
        -d
    }
}

/// Numerator of the entry bound of the slab `[lo, hi]` on an axis with
/// direction `d != 0`: the near face is `lo` for a positive heading and
/// `hi` for a negative one.
spec fn slab_low_num(o: int, d: int, lo: int, hi: int) -> int {
    if d > 0 {
        lo - o
    } else {
        o - hi
    }
}

/// Numerator of the exit bound of the slab `[lo, hi]` on an axis with
/// direction `d != 0`.
spec fn slab_up_num(o: int, d: int, lo: int, hi: int) -> int {
    if d > 0 {
        hi - o
    } else {
        o - lo
    }
}

/// The parameter interval the slab method is narrowing: a lower and an
/// upper distance bound, each an exact fraction. The lower bound starts
/// at zero, the upper at infinity (`(1, 0)`).
#[derive(Clone, Copy)]
struct SlabInterval {
    lo_num: i64,
    lo_den: i64,
    hi_num: i64,
    hi_den: i64,
}

spec fn interval_wf(s: SlabInterval) -> bool {
    s.lo_den > 0 && frac_wf(s.hi_num as int, s.hi_den as int)
}

/// The product with a zero factor vanishes.
proof fn lemma_mul_by_zero(t: int, d: int)
    by (nonlinear_arith)
    requires
        d == 0,
    ensures
        t * d == 0,
{
}

/// Multiplying both sides of `<=` by a nonnegative factor keeps it.
proof fn lemma_le_scale(a: int, b: int, k: int)
    by (nonlinear_arith)
    requires
        a <= b,
        k >= 0,
    ensures
        a * k <= b * k,
{
}

/// Multiplying both sides of `<` by a positive factor keeps it.
proof fn lemma_lt_scale(a: int, b: int, k: int)
    by (nonlinear_arith)
    requires
        a < b,
        k > 0,
    ensures
        a * k < b * k,
{
}

proof fn lemma_pos_times_pos(a: int, b: int)
    by (nonlinear_arith)
    requires
        a > 0,
        b > 0,
    ensures
        a * b > 0,
{
}

proof fn lemma_nonneg_times_pos(a: int, b: int)
    by (nonlinear_arith)
    requires
        a >= 0,
        b > 0,
    ensures
        a * b >= 0,
{
}

/// A fraction with nonnegative numerator and positive denominator lies
/// above the zero fraction `(0, 1)`.
proof fn lemma_frac_above_zero(tn: int, td: int)
    requires
        tn >= 0,
        td > 0,
    ensures
        0 * td <= tn * 1,
{
}

/// Every fraction with positive denominator lies below infinity `(1, 0)`.
proof fn lemma_frac_below_infinity(tn: int, td: int)
    requires
        td > 0,
    ensures
        tn * 0 <= 1 * td,
{
}

/// Scaling by a positive factor keeps a value's being zero or not.
proof fn lemma_scale_zero_iff(k: int, d: int)
    by (nonlinear_arith)
    requires
        k > 0,
    ensures
        (k * d == 0) == (d == 0),
{
}

/// For a positive heading, the slab constraint is the pair of
/// cross-multiplied fraction bounds; a ring rearrangement.
proof fn lemma_axis_bounds_pos(lo: int, hi: int, o: int, d: int, tn: int, td: int)
    by (nonlinear_arith)
    ensures
        (lo * td <= o * td + tn * d && o * td + tn * d <= hi * td) == ((lo - o) * td <= tn * d
            && tn * d <= (hi - o) * td),
{
}

/// For a negative heading, near and far face swap and the sign of the
/// denominator is flipped; a ring rearrangement.
proof fn lemma_axis_bounds_neg(lo: int, hi: int, o: int, d: int, tn: int, td: int)
    by (nonlinear_arith)
    ensures
        (lo * td <= o * td + tn * d && o * td + tn * d <= hi * td) == ((o - hi) * td <= tn * (-d)
            && tn * (-d) <= (o - lo) * td),
{
}

/// With a nonzero direction component, the slab constraint on one axis
/// holds exactly when the parameter fraction lies between the slab's
/// entry and exit bounds.
proof fn lemma_axis_bounds_iff(lo: int, hi: int, o: int, d: int, tn: int, td: int)
    requires
        d != 0,
        td > 0,
    ensures
        axis_within(lo, hi, o, d, tn, td) == (frac_le(slab_low_num(o, d, lo, hi), slab_den(d), tn, td)
            && frac_le(tn, td, slab_up_num(o, d, lo, hi), slab_den(d))),
{
    if d > 0 {
        lemma_axis_bounds_pos(lo, hi, o, d, tn, td);
    } else {
        lemma_axis_bounds_neg(lo, hi, o, d, tn, td);
    }
}

/// Narrows the parameter interval by one slab: the lower bound becomes
/// the larger of the old bound and the slab's entry, the upper bound the
/// smaller of the old bound and the slab's exit.
fn clip_axis(o: i32, d: i32, lo: i32, hi: i32, s: SlabInterval) -> (res: SlabInterval)
    requires
        d != 0,
        interval_wf(s),
    ensures
        interval_wf(res),
        frac_le(s.lo_num as int, s.lo_den as int, res.lo_num as int, res.lo_den as int),
        frac_le(
            slab_low_num(o as int, d as int, lo as int, hi as int),
            slab_den(d as int),
            res.lo_num as int,
            res.lo_den as int,
        ),
        (res.lo_num == s.lo_num && res.lo_den == s.lo_den) || (res.lo_num as int == slab_low_num(
            o as int,
            d as int,
            lo as int,
            hi as int,
        ) && res.lo_den as int == slab_den(d as int)),
        frac_le(res.hi_num as int, res.hi_den as int, s.hi_num as int, s.hi_den as int),
        frac_le(
            res.hi_num as int,
            res.hi_den as int,
            slab_up_num(o as int, d as int, lo as int, hi as int),
            slab_den(d as int),
        ),
        (res.hi_num == s.hi_num && res.hi_den == s.hi_den) || (res.hi_num as int == slab_up_num(
            o as int,
            d as int,
            lo as int,
            hi as int,
        ) && res.hi_den as int == slab_den(d as int)),
{
    let cl_num: i64 = if d > 0 {
        lo as i64 - o as i64
    } else {
        o as i64 - hi as i64
    };
    let cu_num: i64 = if d > 0 {
        hi as i64 - o as i64
    } else {
        o as i64 - lo as i64
    };
    let c_den: i64 = if d > 0 {
        d as i64
    } else {
        -(d as i64)
    };
    let mut res = s;
    if frac_le_exec(s.lo_num, s.lo_den, cl_num, c_den) {
        res.lo_num = cl_num;
        res.lo_den = c_den;
    }
    if frac_le_exec(cu_num, c_den, s.hi_num, s.hi_den) {
        res.hi_num = cu_num;
        res.hi_den = c_den;
    }
    res
}

impl Ray {
    /// Builds the ray with origin `(origin_x, origin_y, origin_z)` and
    /// direction `(dir_x, dir_y, dir_z)`, all stored verbatim. Nothing
    /// rejects a zero direction; such a ray reports no intersection with
    /// anything (see [`Ray::intersects_aabb`]).
    pub fn new(origin_x: i32, origin_y: i32, origin_z: i32, dir_x: i32, dir_y: i32, dir_z: i32) -> (r:
        Ray)
        ensures
            r == (Ray {
                origin: Point3 { x: origin_x, y: origin_y, z: origin_z },
                direction: Vector3 { x: dir_x, y: dir_y, z: dir_z },
            }),
    {
        Ray {
            origin: Point3 { x: origin_x, y: origin_y, z: origin_z },
            direction: Vector3 { x: dir_x, y: dir_y, z: dir_z },
        }
    }

    /// The slab method, carried out in exact rational arithmetic: the
    /// forward-unbounded ray meets the closed box exactly when the
    /// parameter interval `[0, infinity)`, narrowed by every slab the
    /// direction actually crosses, stays nonempty — except that a ray
    /// with a zero direction, and a ray that only grazes a face it runs
    /// parallel to, are reported as misses (see [`ray_reports_hit`]).
    pub fn intersects_aabb(&self, aabb: &AABB) -> (r: bool)
        ensures
            r == ray_reports_hit(*self, *aabb),
    {
        let o: Point3 = self.origin;
        let d: Vector3 = self.direction;
        if d.x == 0 && d.y == 0 && d.z == 0 {
            return false;
        }
        if d.x == 0 && (o.x == aabb.min.x || o.x == aabb.max.x) {
            return false;
        }
        if d.y == 0 && (o.y == aabb.min.y || o.y == aabb.max.y) {
            return false;
        }
        if d.z == 0 && (o.z == aabb.min.z || o.z == aabb.max.z) {
            return false;
        }
        if d.x == 0 && (o.x < aabb.min.x || o.x > aabb.max.x) {
            proof {
                lemma_parallel_offset_misses(*self, *aabb);
            }
            return false;
        }
        if d.y == 0 && (o.y < aabb.min.y || o.y > aabb.max.y) {
            proof {
                lemma_parallel_offset_misses(*self, *aabb);
            }
            return false;
        }
        if d.z == 0 && (o.z < aabb.min.z || o.z > aabb.max.z) {
            proof {
                lemma_parallel_offset_misses(*self, *aabb);
            }
            return false;
        }
        let s0 = SlabInterval { lo_num: 0, lo_den: 1, hi_num: 1, hi_den: 0 };
        let s1 = if d.x != 0 {
            clip_axis(o.x, d.x, aabb.min.x, aabb.max.x, s0)
        } else {
            s0
        };
        let s2 = if d.y != 0 {
            clip_axis(o.y, d.y, aabb.min.y, aabb.max.y, s1)
        } else {
            s1
        };
        let s3 = if d.z != 0 {
            clip_axis(o.z, d.z, aabb.min.z, aabb.max.z, s2)
        } else {
            s2
        };
        let hit = frac_le_exec(s3.lo_num, s3.lo_den, s3.hi_num, s3.hi_den);
        proof {
            lemma_slab_fold_exact(*self, *aabb, s0, s1, s2, s3, hit);
        }
        hit
    }
}

/// The heart of the slab method's correctness: after the parameter
/// interval has been narrowed by every slab the direction crosses, it is
/// nonempty exactly when the ray hits the box geometrically. Axes the
/// ray runs parallel to must already be known to hold the origin
/// strictly inside their extent.
proof fn lemma_slab_fold_exact(
    r: Ray,
    a: AABB,
    s0: SlabInterval,
    s1: SlabInterval,
    s2: SlabInterval,
    s3: SlabInterval,
    hit: bool,
)
    requires
        s0 == (SlabInterval { lo_num: 0, lo_den: 1, hi_num: 1, hi_den: 0 }),
        r.direction.x == 0 ==> a.min.x < r.origin.x < a.max.x,
        r.direction.y == 0 ==> a.min.y < r.origin.y < a.max.y,
        r.direction.z == 0 ==> a.min.z < r.origin.z < a.max.z,
        interval_wf(s1),
        interval_wf(s2),
        interval_wf(s3),
        clip_step(r.origin.x as int, r.direction.x as int, a.min.x as int, a.max.x as int, s0, s1),
        clip_step(r.origin.y as int, r.direction.y as int, a.min.y as int, a.max.y as int, s1, s2),
        clip_step(r.origin.z as int, r.direction.z as int, a.min.z as int, a.max.z as int, s2, s3),
        hit == frac_le(s3.lo_num as int, s3.lo_den as int, s3.hi_num as int, s3.hi_den as int),
    ensures
        hit == ray_hits(r, a),
{
    let ox = r.origin.x as int;
    let oy = r.origin.y as int;
    let oz = r.origin.z as int;
    let dx = r.direction.x as int;
    let dy = r.direction.y as int;
    let dz = r.direction.z as int;
    let lx = a.min.x as int;
    let ly = a.min.y as int;
    let lz = a.min.z as int;
    let hx = a.max.x as int;
    let hy = a.max.y as int;
    let hz = a.max.z as int;
    let ln = s3.lo_num as int;
    let ld = s3.lo_den as int;
    let un = s3.hi_num as int;
    let ud = s3.hi_den as int;
    // The lower bound only ever grows, so the final one is still >= 0.
    assert(frac_le(0, 1, s1.lo_num as int, s1.lo_den as int));
    lemma_frac_le_trans(0, 1, s1.lo_num as int, s1.lo_den as int, s2.lo_num as int, s2.lo_den as int);
    lemma_frac_le_trans(0, 1, s2.lo_num as int, s2.lo_den as int, ln, ld);
    assert(ln >= 0);
    // The upper bound only ever shrinks.
    lemma_frac_le_trans(un, ud, s2.hi_num as int, s2.hi_den as int, s1.hi_num as int, s1.hi_den as int);
    // Each crossed slab's entry bound stays below the final lower bound,
    // and its exit bound stays above the final upper bound.
    if dx != 0 {
        assert(slab_den(dx) > 0);
        lemma_frac_le_trans(
            slab_low_num(ox, dx, lx, hx),
            slab_den(dx),
            s1.lo_num as int,
            s1.lo_den as int,
            s2.lo_num as int,
            s2.lo_den as int,
        );
        lemma_frac_le_trans(
            slab_low_num(ox, dx, lx, hx),
            slab_den(dx),
            s2.lo_num as int,
            s2.lo_den as int,
            ln,
            ld,
        );
        lemma_frac_le_trans(
            un,
            ud,
            s1.hi_num as int,
            s1.hi_den as int,
            slab_up_num(ox, dx, lx, hx),
            slab_den(dx),
        );
    }
    if dy != 0 {
        assert(slab_den(dy) > 0);
        lemma_frac_le_trans(
            slab_low_num(oy, dy, ly, hy),
            slab_den(dy),
            s2.lo_num as int,
            s2.lo_den as int,
            ln,
            ld,
        );
        lemma_frac_le_trans(
            un,
            ud,
            s2.hi_num as int,
            s2.hi_den as int,
            slab_up_num(oy, dy, ly, hy),
            slab_den(dy),
        );
    }
    if dz != 0 {
        assert(slab_den(dz) > 0);
    }
    if hit {
        // The narrowed interval is nonempty: its lower end is a witness
        // parameter at which the ray's point lies in the box.
        if dx != 0 {
            lemma_frac_le_trans(ln, ld, un, ud, slab_up_num(ox, dx, lx, hx), slab_den(dx));
            lemma_axis_bounds_iff(lx, hx, ox, dx, ln, ld);
        } else {
            lemma_mul_by_zero(ln, dx);
            lemma_le_scale(lx, ox, ld);
            lemma_le_scale(ox, hx, ld);
        }
        assert(axis_within(lx, hx, ox, dx, ln, ld));
        if dy != 0 {
            lemma_frac_le_trans(ln, ld, un, ud, slab_up_num(oy, dy, ly, hy), slab_den(dy));
            lemma_axis_bounds_iff(ly, hy, oy, dy, ln, ld);
        } else {
            lemma_mul_by_zero(ln, dy);
            lemma_le_scale(ly, oy, ld);
            lemma_le_scale(oy, hy, ld);
        }
        assert(axis_within(ly, hy, oy, dy, ln, ld));
        if dz != 0 {
            lemma_frac_le_trans(ln, ld, un, ud, slab_up_num(oz, dz, lz, hz), slab_den(dz));
            lemma_axis_bounds_iff(lz, hz, oz, dz, ln, ld);
        } else {
            lemma_mul_by_zero(ln, dz);
            lemma_le_scale(lz, oz, ld);
            lemma_le_scale(oz, hz, ld);
        }
        assert(axis_within(lz, hz, oz, dz, ln, ld));
        assert(hits_at(r, a, ln, ld));
        assert(ray_hits(r, a));
    } else {
        // The narrowed interval is empty: any parameter meeting all three
        // slab constraints would have to lie both above the final lower
        // bound and below the final upper bound at once.
        assert forall|tn: int, td: int| td > 0 && tn >= 0 implies !(#[trigger] hits_at(
            r,
            a,
            tn,
            td,
        )) by {
            if hits_at(r, a, tn, td) {
                if dx != 0 {
                    lemma_axis_bounds_iff(lx, hx, ox, dx, tn, td);
                }
                if dy != 0 {
                    lemma_axis_bounds_iff(ly, hy, oy, dy, tn, td);
                }
                if dz != 0 {
                    lemma_axis_bounds_iff(lz, hz, oz, dz, tn, td);
                }
                lemma_frac_above_zero(tn, td);
                lemma_frac_below_infinity(tn, td);
                // The final lower bound is either still zero or one of the
                // crossed slabs' entry bounds; the parameter lies above any
                // of those.
                assert((ln == 0 && ld == 1) || (dx != 0 && ln == slab_low_num(ox, dx, lx, hx) && ld
                    == slab_den(dx)) || (dy != 0 && ln == slab_low_num(oy, dy, ly, hy) && ld
                    == slab_den(dy)) || (dz != 0 && ln == slab_low_num(oz, dz, lz, hz) && ld
                    == slab_den(dz)));
                assert(frac_le(ln, ld, tn, td));
                // Dually, the final upper bound is either still infinity or
                // one of the crossed slabs' exit bounds.
                assert((un == 1 && ud == 0) || (dx != 0 && un == slab_up_num(ox, dx, lx, hx) && ud
                    == slab_den(dx)) || (dy != 0 && un == slab_up_num(oy, dy, ly, hy) && ud
                    == slab_den(dy)) || (dz != 0 && un == slab_up_num(oz, dz, lz, hz) && ud
                    == slab_den(dz)));
                assert(frac_le(tn, td, un, ud));
                lemma_frac_le_trans(ln, ld, tn, td, un, ud);
                assert(false);
            }
        }
        assert(!ray_hits(r, a));
    }
}

/// What one fold step of the slab method guarantees: either the axis was
/// skipped because the ray runs parallel to it, or the interval was
/// narrowed by that axis's slab as [`clip_axis`] states.
spec fn clip_step(o: int, d: int, lo: int, hi: int, before: SlabInterval, after: SlabInterval) -> bool {
    if d == 0 {
        after == before
    } else {
        &&& frac_le(before.lo_num as int, before.lo_den as int, after.lo_num as int, after.lo_den as int)
        &&& frac_le(slab_low_num(o, d, lo, hi), slab_den(d), after.lo_num as int, after.lo_den as int)
        &&& ((after.lo_num == before.lo_num && after.lo_den == before.lo_den) || (after.lo_num as int
            == slab_low_num(o, d, lo, hi) && after.lo_den as int == slab_den(d)))
        &&& frac_le(after.hi_num as int, after.hi_den as int, before.hi_num as int, before.hi_den as int)
        &&& frac_le(after.hi_num as int, after.hi_den as int, slab_up_num(o, d, lo, hi), slab_den(d))
        &&& ((after.hi_num == before.hi_num && after.hi_den == before.hi_den) || (after.hi_num as int
            == slab_up_num(o, d, lo, hi) && after.hi_den as int == slab_den(d)))
    }
}

/// Scaling the direction by `k > 0` turns a hit at parameter `tn / td`
/// into a hit at `tn / (k * td)`; a ring rearrangement of one slab
/// constraint.
proof fn lemma_axis_scale_up(lo: int, hi: int, o: int, d: int, k: int, tn: int, td: int)
    by (nonlinear_arith)
    requires
        k > 0,
        lo * td <= o * td + tn * d,
        o * td + tn * d <= hi * td,
    ensures
        lo * (k * td) <= o * (k * td) + tn * (k * d),
        o * (k * td) + tn * (k * d) <= hi * (k * td),
{
}

/// A hit against the direction scaled by `k` is a hit against the plain
/// direction at parameter `(tn * k) / td`; a ring rearrangement of one
/// slab constraint.
proof fn lemma_axis_scale_down(lo: int, hi: int, o: int, d: int, k: int, tn: int, td: int)
    by (nonlinear_arith)
    requires
        lo * td <= o * td + tn * (k * d),
        o * td + tn * (k * d) <= hi * td,
    ensures
        lo * td <= o * td + (tn * k) * d,
        o * td + (tn * k) * d <= hi * td,
{
}

/// Only the heading of a ray matters: scaling its direction by any
/// positive factor changes no intersection answer, geometric or
/// reported. This is why construction may keep the supplied components
/// instead of a unit-length form.
pub proof fn lemma_direction_scale_invariant(r1: Ray, r2: Ray, a: AABB, k: int)
    requires
        k > 0,
        r2.origin == r1.origin,
        r2.direction.x as int == k * (r1.direction.x as int),
        r2.direction.y as int == k * (r1.direction.y as int),
        r2.direction.z as int == k * (r1.direction.z as int),
    ensures
        ray_hits(r2, a) == ray_hits(r1, a),
        ray_reports_hit(r2, a) == ray_reports_hit(r1, a),
{
    lemma_scale_zero_iff(k, r1.direction.x as int);
    lemma_scale_zero_iff(k, r1.direction.y as int);
    lemma_scale_zero_iff(k, r1.direction.z as int);
    assert(direction_is_zero(r2) == direction_is_zero(r1));
    assert(grazes_parallel_face(r2, a) == grazes_parallel_face(r1, a));
    if ray_hits(r1, a) {
        let (tn, td) = choose|tn: int, td: int| td > 0 && tn >= 0 && #[trigger] hits_at(
            r1,
            a,
            tn,
            td,
        );
        lemma_pos_times_pos(k, td);
        lemma_axis_scale_up(
            a.min.x as int,
            a.max.x as int,
            r1.origin.x as int,
            r1.direction.x as int,
            k,
            tn,
            td,
        );
        lemma_axis_scale_up(
            a.min.y as int,
            a.max.y as int,
            r1.origin.y as int,
            r1.direction.y as int,
            k,
            tn,
            td,
        );
        lemma_axis_scale_up(
            a.min.z as int,
            a.max.z as int,
            r1.origin.z as int,
            r1.direction.z as int,
            k,
            tn,
            td,
        );
        assert(hits_at(r2, a, tn, k * td));
        assert(ray_hits(r2, a));
    }
    if ray_hits(r2, a) {
        let (tn, td) = choose|tn: int, td: int| td > 0 && tn >= 0 && #[trigger] hits_at(
            r2,
            a,
            tn,
            td,
        );
        lemma_nonneg_times_pos(tn, k);
        lemma_axis_scale_down(
            a.min.x as int,
            a.max.x as int,
            r1.origin.x as int,
            r1.direction.x as int,
            k,
            tn,
            td,
        );
        lemma_axis_scale_down(
            a.min.y as int,
            a.max.y as int,
            r1.origin.y as int,
            r1.direction.y as int,
            k,
            tn,
            td,
        );
        lemma_axis_scale_down(
            a.min.z as int,
            a.max.z as int,
            r1.origin.z as int,
            r1.direction.z as int,
            k,
            tn,
            td,
        );
        assert(hits_at(r1, a, tn * k, td));
        assert(ray_hits(r1, a));
    }
}

/// A ray parallel to an axis and offset outside the box's extent on that
/// axis never meets the box, whatever the travel distance.
pub proof fn lemma_parallel_offset_misses(r: Ray, a: AABB)
    requires
        (r.direction.x == 0 && (r.origin.x < a.min.x || r.origin.x > a.max.x)) || (r.direction.y
            == 0 && (r.origin.y < a.min.y || r.origin.y > a.max.y)) || (r.direction.z == 0 && (
        r.origin.z < a.min.z || r.origin.z > a.max.z)),
    ensures
        !ray_hits(r, a),
        !ray_reports_hit(r, a),
{
    assert forall|tn: int, td: int| td > 0 && tn >= 0 implies !(#[trigger] hits_at(
        r,
        a,
        tn,
        td,
    )) by {
        if hits_at(r, a, tn, td) {
            if r.direction.x == 0 && (r.origin.x < a.min.x || r.origin.x > a.max.x) {
                lemma_mul_by_zero(tn, r.direction.x as int);
                if r.origin.x < a.min.x {
                    lemma_lt_scale(r.origin.x as int, a.min.x as int, td);
                } else {
                    lemma_lt_scale(a.max.x as int, r.origin.x as int, td);
                }
            } else if r.direction.y == 0 && (r.origin.y < a.min.y || r.origin.y > a.max.y) {
                lemma_mul_by_zero(tn, r.direction.y as int);
                if r.origin.y < a.min.y {
                    lemma_lt_scale(r.origin.y as int, a.min.y as int, td);
                } else {
                    lemma_lt_scale(a.max.y as int, r.origin.y as int, td);
                }
            } else {
                lemma_mul_by_zero(tn, r.direction.z as int);
                if r.origin.z < a.min.z {
                    lemma_lt_scale(r.origin.z as int, a.min.z as int, td);
                } else {
                    lemma_lt_scale(a.max.z as int, r.origin.z as int, td);
                }
            }
        }
    }
}

} // verus!
