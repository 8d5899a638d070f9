//! Axis-aligned boxes on the scene's decimal lattice, and the
//! bounding-volume hierarchy built from them.
use vstd::prelude::*;
use crate::number::{Decimal, lemma_pow10_ge, pow10};
use crate::scene::{ObjPrimative, SceneObject};

verus! {

/// A point of the lattice: each coordinate counts units of `10^-scale` for
/// the scale that the lattice was made with.
#[derive(Clone, Copy, Debug, PartialEq, Eq, Structural)]
pub struct LatticePoint {
    pub x: i128,
    pub y: i128,
    pub z: i128,
}

/// An axis-aligned box by its least and greatest corners.
#[derive(Clone, Copy, Debug, PartialEq, Eq, Structural)]
pub struct AABB {
    pub min: LatticePoint,
    pub max: LatticePoint,
}

/// Largest magnitude of a lattice coordinate.
pub const COORD_BOUND: i128 = 0x1_0000_0000_0000_0000_0000_0000;

pub open spec fn coord(p: LatticePoint, axis: int) -> int {
    if axis == 0 {
        p.x as int
    } else if axis == 1 {
        p.y as int
    } else {
        p.z as int
    }
}

pub open spec fn in_bound(v: int) -> bool {
    -COORD_BOUND <= v <= COORD_BOUND
}

/// Whether a point lies in the closed box.
pub open spec fn contains(b: AABB, p: (int, int, int)) -> bool {
    &&& coord(b.min, 0) <= p.0 <= coord(b.max, 0)
    &&& coord(b.min, 1) <= p.1 <= coord(b.max, 1)
    &&& coord(b.min, 2) <= p.2 <= coord(b.max, 2)
}

/// Open overlap: on every axis each box starts before the other ends.
pub open spec fn overlaps_spec(a: AABB, b: AABB) -> bool {
    forall|i: int|
        0 <= i < 3 ==> coord(a.min, i) < coord(b.max, i) && coord(a.max, i) > coord(b.min, i)
}

/// Closed overlap: the boxes share at least one point.
pub open spec fn meets_spec(a: AABB, b: AABB) -> bool {
    forall|i: int|
        0 <= i < 3 ==> coord(a.min, i) <= coord(b.max, i) && coord(a.max, i) >= coord(b.min, i)
}

/// Least corner on or below the greatest, coordinates within the bound.
pub open spec fn wf_box(b: AABB) -> bool {
    forall|i: int|
        0 <= i < 3 ==> in_bound(coord(b.min, i)) && in_bound(coord(b.max, i)) && coord(b.min, i)
            <= coord(b.max, i)
}

pub open spec fn midpoint(lo: int, hi: int) -> int {
    lo + (hi - lo) / 2
}

/// The half of `[lo, hi]` below the midpoint (`bit` 0) or above it (`bit` 1).
pub open spec fn half_of(lo: int, hi: int, bit: int) -> (int, int) {
    if bit == 0 {
        (lo, midpoint(lo, hi))
    } else {
        (midpoint(lo, hi), hi)
    }
}

/// Which half octant `k` takes along axis `i`: bit `2 - i` of `k`.
pub open spec fn octant_bit(k: int, i: int) -> int {
    if i == 0 {
        k / 4
    } else if i == 1 {
        (k / 2) % 2
    } else {
        k % 2
    }
}

/// Octant `k` (0 to 7) of `b`.
pub open spec fn octant(b: AABB, k: int) -> AABB {
    let hx = half_of(coord(b.min, 0), coord(b.max, 0), octant_bit(k, 0));
    let hy = half_of(coord(b.min, 1), coord(b.max, 1), octant_bit(k, 1));
    let hz = half_of(coord(b.min, 2), coord(b.max, 2), octant_bit(k, 2));
    AABB {
        min: LatticePoint { x: hx.0 as i128, y: hy.0 as i128, z: hz.0 as i128 },
        max: LatticePoint { x: hx.1 as i128, y: hy.1 as i128, z: hz.1 as i128 },
    }
}

fn mid(lo: i128, hi: i128) -> (r: i128)
    requires
        in_bound(lo as int),
        in_bound(hi as int),
        lo <= hi,
    ensures
        r == midpoint(lo as int, hi as int),
        lo <= r <= hi,
{
    lo + (hi - lo) / 2
}

impl AABB {
    pub fn new(min: LatticePoint, max: LatticePoint) -> (r: AABB)
        ensures
            r == (AABB { min, max }),
    {
        AABB { min, max }
    }

    /// Whether the open boxes overlap: touching faces alone do not count.
    pub fn overlaps(&self, other: &AABB) -> (r: bool)
        ensures
            r == overlaps_spec(*self, *other),
    {
        let r = self.min.x < other.max.x && self.max.x > other.min.x && self.min.y < other.max.y
            && self.max.y > other.min.y && self.min.z < other.max.z && self.max.z > other.min.z;
        assert(r == overlaps_spec(*self, *other)) by {
            if !r {
                assert(!(coord(self.min, 0) < coord(other.max, 0) && coord(self.max, 0) > coord(other.min, 0))
                    || !(coord(self.min, 1) < coord(other.max, 1) && coord(self.max, 1) > coord(other.min, 1))
                    || !(coord(self.min, 2) < coord(other.max, 2) && coord(self.max, 2) > coord(other.min, 2)));
            }
        }
        r
    }

    /// Whether the closed boxes share a point.
    pub fn meets(&self, other: &AABB) -> (r: bool)
        ensures
            r == meets_spec(*self, *other),
    {
        let r = self.min.x <= other.max.x && self.max.x >= other.min.x && self.min.y <= other.max.y
            && self.max.y >= other.min.y && self.min.z <= other.max.z && self.max.z >= other.min.z;
        assert(r == meets_spec(*self, *other)) by {
            if !r {
                assert(!(coord(self.min, 0) <= coord(other.max, 0) && coord(self.max, 0) >= coord(other.min, 0))
                    || !(coord(self.min, 1) <= coord(other.max, 1) && coord(self.max, 1) >= coord(other.min, 1))
                    || !(coord(self.min, 2) <= coord(other.max, 2) && coord(self.max, 2) >= coord(other.min, 2)));
            }
        }
        r
    }

    /// The eight octants, split at the midpoint of each axis; octant `k`
    /// takes the upper half along x, y, z where bits 2, 1, 0 of `k` are set.
    pub fn subdivide(&self) -> (r: Vec<AABB>)
        requires
            wf_box(*self),
        ensures
            r@.len() == 8,
            forall|k: int| 0 <= k < 8 ==> #[trigger] r@[k] == octant(*self, k),
    {
        assert(in_bound(coord(self.min, 0)) && in_bound(coord(self.max, 0)) && coord(self.min, 0) <= coord(self.max, 0));
        assert(in_bound(coord(self.min, 1)) && in_bound(coord(self.max, 1)) && coord(self.min, 1) <= coord(self.max, 1));
        assert(in_bound(coord(self.min, 2)) && in_bound(coord(self.max, 2)) && coord(self.min, 2) <= coord(self.max, 2));
        let mx = mid(self.min.x, self.max.x);
        let my = mid(self.min.y, self.max.y);
        let mz = mid(self.min.z, self.max.z);
        let mut out: Vec<AABB> = Vec::new();
        let mut k: usize = 0;
        while k < 8
            invariant
                k <= 8,
                out@.len() == k,
                mx == midpoint(coord(self.min, 0), coord(self.max, 0)),
                my == midpoint(coord(self.min, 1), coord(self.max, 1)),
                mz == midpoint(coord(self.min, 2), coord(self.max, 2)),
                forall|j: int| 0 <= j < k ==> #[trigger] out@[j] == octant(*self, j),
            decreases 8 - k,
        {
            let (x0, x1) = if k / 4 == 0 { (self.min.x, mx) } else { (mx, self.max.x) };
            let (y0, y1) = if (k / 2) % 2 == 0 { (self.min.y, my) } else { (my, self.max.y) };
            let (z0, z1) = if k % 2 == 0 { (self.min.z, mz) } else { (mz, self.max.z) };
            let b = AABB {
                min: LatticePoint { x: x0, y: y0, z: z0 },
                max: LatticePoint { x: x1, y: y1, z: z1 },
            };
            assert(b == octant(*self, k as int));
            out.push(b);
            k = k + 1;
        }
        out
    }
}

/// Overlap does not depend on the order of the boxes; a box with room on
/// every axis overlaps any box that holds it; boxes apart on some axis do
/// not overlap.
pub proof fn lemma_overlaps_laws(a: AABB, b: AABB)
    ensures
        overlaps_spec(a, b) == overlaps_spec(b, a),
        (forall|i: int|
            0 <= i < 3 ==> coord(a.min, i) <= coord(b.min, i) && coord(b.max, i) <= coord(a.max, i)
                && coord(b.min, i) < coord(b.max, i)) ==> overlaps_spec(a, b) && overlaps_spec(b, a),
        (exists|i: int|
            0 <= i < 3 && (coord(a.max, i) <= coord(b.min, i) || coord(b.max, i) <= coord(a.min, i)))
            ==> !overlaps_spec(a, b),
{
}

/// The octants of a box lie in it, share no interior with each other, and
/// together hold every point of it.
pub proof fn lemma_subdivide_laws(b: AABB)
    requires
        wf_box(b),
    ensures
        forall|k: int| 0 <= k < 8 ==> wf_box(#[trigger] octant(b, k)),
        forall|k: int, p: (int, int, int)|
            0 <= k < 8 && #[trigger] contains(octant(b, k), p) ==> contains(b, p),
        forall|k: int, l: int|
            0 <= k < 8 && 0 <= l < 8 && k != l ==> !#[trigger] overlaps_spec(octant(b, k), octant(b, l)),
        forall|p: (int, int, int)|
            #[trigger] contains(b, p) ==> exists|k: int| 0 <= k < 8 && contains(octant(b, k), p),
{
    assert forall|k: int| 0 <= k < 8 implies wf_box(#[trigger] octant(b, k)) by {
        assert(coord(b.min, 0) <= coord(b.max, 0));
        assert(coord(b.min, 1) <= coord(b.max, 1));
        assert(coord(b.min, 2) <= coord(b.max, 2));
    }
    assert forall|k: int, l: int|
        0 <= k < 8 && 0 <= l < 8 && k != l implies !#[trigger] overlaps_spec(octant(b, k), octant(b, l)) by {
        let i = if octant_bit(k, 0) != octant_bit(l, 0) {
            0int
        } else if octant_bit(k, 1) != octant_bit(l, 1) {
            1int
        } else {
            2int
        };
        assert(octant_bit(k, i) != octant_bit(l, i));
        assert(!(coord(octant(b, k).min, i) < coord(octant(b, l).max, i) && coord(octant(b, k).max, i)
            > coord(octant(b, l).min, i)));
    }
    assert forall|p: (int, int, int)| #[trigger] contains(b, p) implies exists|k: int|
        0 <= k < 8 && contains(octant(b, k), p) by {
        let bx: int = if p.0 <= midpoint(coord(b.min, 0), coord(b.max, 0)) { 0 } else { 1 };
        let by: int = if p.1 <= midpoint(coord(b.min, 1), coord(b.max, 1)) { 0 } else { 1 };
        let bz: int = if p.2 <= midpoint(coord(b.min, 2), coord(b.max, 2)) { 0 } else { 1 };
        let k = 4 * bx + 2 * by + bz;
        assert(octant_bit(k, 0) == bx && octant_bit(k, 1) == by && octant_bit(k, 2) == bz);
        assert(contains(octant(b, k), p));
    }
}

/// Largest magnitude of a scene coordinate on the lattice, so that a center
/// plus or minus a radius stays within `COORD_BOUND`.
pub const INPUT_BOUND: i128 = 0x8000_0000_0000_0000_0000_0000;

/// The decimal `d` in units of `10^-s`.
pub open spec fn lattice_value(d: Decimal, s: nat) -> int {
    let v = d.magnitude * pow10((s - d.scale) as nat);
    if d.negative {
        -v
    } else {
        v as int
    }
}

/// Whether `d` has at most `s` fractional digits and fits the lattice.
pub open spec fn fits(d: Decimal, s: nat) -> bool {
    d.scale <= s && d.magnitude * pow10((s - d.scale) as nat) <= INPUT_BOUND
}

pub open spec fn min3(a: int, b: int, c: int) -> int {
    if a <= b && a <= c {
        a
    } else if b <= c {
        b
    } else {
        c
    }
}

pub open spec fn max3(a: int, b: int, c: int) -> int {
    if a >= b && a >= c {
        a
    } else if b >= c {
        b
    } else {
        c
    }
}

pub open spec fn lattice_point(x: int, y: int, z: int) -> LatticePoint {
    LatticePoint { x: x as i128, y: y as i128, z: z as i128 }
}

/// Whether every coordinate of the object fits the lattice of scale `s`.
pub open spec fn object_fits(o: SceneObject, s: nat) -> bool {
    match o.primitive {
        ObjPrimative::Sphere { xyz, r } => fits(xyz.x, s) && fits(xyz.y, s) && fits(xyz.z, s)
            && fits(r, s),
        ObjPrimative::Triangle { p0, p1, p2 } => fits(p0.x, s) && fits(p0.y, s) && fits(p0.z, s)
            && fits(p1.x, s) && fits(p1.y, s) && fits(p1.z, s) && fits(p2.x, s) && fits(p2.y, s)
            && fits(p2.z, s),
        ObjPrimative::Plane { .. } => true,
    }
}

/// The box of an object on the lattice of scale `s`: a sphere's center
/// plus or minus the magnitude of its radius, a triangle's least and greatest vertex
/// coordinates; a plane has none.
pub open spec fn object_box(o: SceneObject, s: nat) -> Option<AABB> {
    match o.primitive {
        ObjPrimative::Sphere { xyz, r } => {
            let (x, y, z) = (lattice_value(xyz.x, s), lattice_value(xyz.y, s), lattice_value(xyz.z, s));
            let rr = r.magnitude * pow10((s - r.scale) as nat);
            Some(AABB { min: lattice_point(x - rr, y - rr, z - rr), max: lattice_point(x + rr, y + rr, z + rr) })
        },
        ObjPrimative::Triangle { p0, p1, p2 } => {
            let xs = (lattice_value(p0.x, s), lattice_value(p1.x, s), lattice_value(p2.x, s));
            let ys = (lattice_value(p0.y, s), lattice_value(p1.y, s), lattice_value(p2.y, s));
            let zs = (lattice_value(p0.z, s), lattice_value(p1.z, s), lattice_value(p2.z, s));
            Some(
                AABB {
                    min: lattice_point(min3(xs.0, xs.1, xs.2), min3(ys.0, ys.1, ys.2), min3(zs.0, zs.1, zs.2)),
                    max: lattice_point(max3(xs.0, xs.1, xs.2), max3(ys.0, ys.1, ys.2), max3(zs.0, zs.1, zs.2)),
                },
            )
        },
        ObjPrimative::Plane { .. } => None,
    }
}

/// The decimal `d` in units of `10^-s`, if it fits the lattice.
pub fn to_lattice(d: &Decimal, s: u32) -> (r: Option<i128>)
    ensures
        r == if fits(*d, s as nat) {
            Some(lattice_value(*d, s as nat) as i128)
        } else {
            None::<i128>
        },
{
    if d.scale > s {
        return None;
    }
    let n = s - d.scale;
    let mut p: u128 = 1;
    let mut k: u32 = 0;
    while k < n
        invariant
            k <= n,
            n == s - d.scale,
            p == pow10(k as nat),
            1 <= p <= INPUT_BOUND,
        decreases n - k,
    {
        if p > INPUT_BOUND as u128 / 10 {
            proof {
                lemma_pow10_ge((k + 1) as nat, n as nat);
            }
            if d.magnitude == 0 {
                return Some(0);
            }
            assert(d.magnitude * pow10(n as nat) > INPUT_BOUND) by (nonlinear_arith)
                requires
                    d.magnitude >= 1,
                    pow10(n as nat) >= pow10((k + 1) as nat),
                    pow10((k + 1) as nat) == 10 * p,
                    p > (INPUT_BOUND as u128) / 10,
            ;
            return None;
        }
        p = p * 10;
        k = k + 1;
    }
    let m = d.magnitude as u128;
    if m > INPUT_BOUND as u128 / p {
        assert(m * p > INPUT_BOUND) by (nonlinear_arith)
            requires
                m > (INPUT_BOUND as u128) / p,
                p >= 1,
        ;
        return None;
    }
    assert(m * p <= INPUT_BOUND) by (nonlinear_arith)
        requires
            m <= (INPUT_BOUND as u128) / p,
            p >= 1,
    ;
    let v = (m * p) as i128;
    if d.negative {
        Some(-v)
    } else {
        Some(v)
    }
}

fn min3_exec(a: i128, b: i128, c: i128) -> (r: i128)
    ensures
        r == min3(a as int, b as int, c as int),
{
    if a <= b && a <= c {
        a
    } else if b <= c {
        b
    } else {
        c
    }
}

fn max3_exec(a: i128, b: i128, c: i128) -> (r: i128)
    ensures
        r == max3(a as int, b as int, c as int),
{
    if a >= b && a >= c {
        a
    } else if b >= c {
        b
    } else {
        c
    }
}

/// Largest number of fractional digits among the coordinates of an object
/// that has a box.
pub open spec fn object_scale(o: SceneObject) -> nat {
    match o.primitive {
        ObjPrimative::Sphere { xyz, r } => max_nat(
            max_nat(xyz.x.scale as nat, xyz.y.scale as nat),
            max_nat(xyz.z.scale as nat, r.scale as nat),
        ),
        ObjPrimative::Triangle { p0, p1, p2 } => max_nat(
            max_nat(
                max_nat(p0.x.scale as nat, p0.y.scale as nat),
                max_nat(p0.z.scale as nat, p1.x.scale as nat),
            ),
            max_nat(
                max_nat(p1.y.scale as nat, p1.z.scale as nat),
                max_nat(max_nat(p2.x.scale as nat, p2.y.scale as nat), p2.z.scale as nat),
            ),
        ),
        ObjPrimative::Plane { .. } => 0,
    }
}

pub open spec fn max_nat(a: nat, b: nat) -> nat {
    if a >= b {
        a
    } else {
        b
    }
}

/// The scale of the lattice for objects `os`: the largest of their scales.
pub open spec fn max_scale(os: Seq<SceneObject>) -> nat
    decreases os.len(),
{
    if os.len() == 0 {
        0
    } else {
        max_nat(max_scale(os.drop_last()), object_scale(os.last()))
    }
}

fn max_u32(a: u32, b: u32) -> (r: u32)
    ensures
        r == max_nat(a as nat, b as nat),
{
    if a >= b {
        a
    } else {
        b
    }
}

fn object_scale_exec(o: &SceneObject) -> (r: u32)
    ensures
        r == object_scale(*o),
{
    match o.primitive {
        ObjPrimative::Sphere { xyz, r } => max_u32(
            max_u32(xyz.x.scale, xyz.y.scale),
            max_u32(xyz.z.scale, r.scale),
        ),
        ObjPrimative::Triangle { p0, p1, p2 } => max_u32(
            max_u32(max_u32(p0.x.scale, p0.y.scale), max_u32(p0.z.scale, p1.x.scale)),
            max_u32(
                max_u32(p1.y.scale, p1.z.scale),
                max_u32(max_u32(p2.x.scale, p2.y.scale), p2.z.scale),
            ),
        ),
        ObjPrimative::Plane { .. } => 0,
    }
}

/// The box of an object on the lattice of scale `s`: `None` when a
/// coordinate does not fit, else the box, if the object has one.
pub fn box_of(o: &SceneObject, s: u32) -> (r: Option<Option<AABB>>)
    ensures
        r == if object_fits(*o, s as nat) {
            Some(object_box(*o, s as nat))
        } else {
            None::<Option<AABB>>
        },
        r matches Some(Some(b)) ==> wf_box(b),
{
    match o.primitive {
        ObjPrimative::Sphere { xyz, r } => {
            let x = to_lattice(&xyz.x, s);
            let y = to_lattice(&xyz.y, s);
            let z = to_lattice(&xyz.z, s);
            let rr = to_lattice(&r, s);
            match (x, y, z, rr) {
                (Some(x), Some(y), Some(z), Some(rr)) => {
                    let rr = if rr < 0 { -rr } else { rr };
                    assert(rr == r.magnitude * pow10((s - r.scale) as nat));
                    let b = AABB {
                        min: LatticePoint { x: x - rr, y: y - rr, z: z - rr },
                        max: LatticePoint { x: x + rr, y: y + rr, z: z + rr },
                    };
                    assert(coord(b.min, 0) <= coord(b.max, 0) && coord(b.min, 1) <= coord(b.max, 1) && coord(b.min, 2) <= coord(b.max, 2));
                    Some(Some(b))
                },
                _ => None,
            }
        },
        ObjPrimative::Triangle { p0, p1, p2 } => {
            let v0 = (to_lattice(&p0.x, s), to_lattice(&p0.y, s), to_lattice(&p0.z, s));
            let v1 = (to_lattice(&p1.x, s), to_lattice(&p1.y, s), to_lattice(&p1.z, s));
            let v2 = (to_lattice(&p2.x, s), to_lattice(&p2.y, s), to_lattice(&p2.z, s));
            match (v0, v1, v2) {
                ((Some(ax), Some(ay), Some(az)), (Some(bx), Some(by), Some(bz)), (Some(cx), Some(cy), Some(cz))) => {
                    let b = AABB {
                        min: LatticePoint { x: min3_exec(ax, bx, cx), y: min3_exec(ay, by, cy), z: min3_exec(az, bz, cz) },
                        max: LatticePoint { x: max3_exec(ax, bx, cx), y: max3_exec(ay, by, cy), z: max3_exec(az, bz, cz) },
                    };
                    assert(coord(b.min, 0) <= coord(b.max, 0) && coord(b.min, 1) <= coord(b.max, 1) && coord(b.min, 2) <= coord(b.max, 2));
                    Some(Some(b))
                },
                _ => None,
            }
        },
        ObjPrimative::Plane { .. } => Some(None),
    }
}

/// The lattice boxes of a scene's objects, by object index.
pub struct SceneBoxes {
    pub scale: u32,
    pub boxes: Vec<Option<AABB>>,
}

pub open spec fn boxes_wf(bs: Seq<Option<AABB>>) -> bool {
    forall|i: int| 0 <= i < bs.len() && (#[trigger] bs[i]) is Some ==> wf_box(bs[i]->0)
}

/// The boxes of the objects on the lattice whose scale is the largest
/// scale among them; `None` when some coordinate does not fit that lattice.
pub fn scene_boxes(objects: &Vec<SceneObject>) -> (r: Option<SceneBoxes>)
    ensures
        ({
            let os = objects@;
            let s = max_scale(os);
            &&& r is Some <==> forall|i: int| 0 <= i < os.len() ==> object_fits(#[trigger] os[i], s)
            &&& r is Some ==> {
                let b = r->0;
                &&& b.scale == s
                &&& b.boxes@.len() == os.len()
                &&& forall|i: int| 0 <= i < os.len() ==> #[trigger] b.boxes@[i] == object_box(os[i], s)
                &&& boxes_wf(b.boxes@)
            }
        }),
{
    let ghost os = objects@;
    let n = objects.len();
    let mut s: u32 = 0;
    let mut i: usize = 0;
    assert(os.take(0) =~= Seq::<SceneObject>::empty());
    while i < n
        invariant
            n == os.len(),
            os == objects@,
            i <= n,
            s == max_scale(os.take(i as int)),
        decreases n - i,
    {
        assert(os.take(i + 1).drop_last() =~= os.take(i as int));
        s = max_u32(s, object_scale_exec(&objects[i]));
        i = i + 1;
    }
    assert(os.take(n as int) =~= os);
    let mut boxes: Vec<Option<AABB>> = Vec::new();
    let mut j: usize = 0;
    while j < n
        invariant
            n == os.len(),
            os == objects@,
            s == max_scale(os),
            j <= n,
            boxes@.len() == j,
            forall|k: int| 0 <= k < j ==> object_fits(#[trigger] os[k], s as nat),
            forall|k: int| 0 <= k < j ==> #[trigger] boxes@[k] == object_box(os[k], s as nat),
            boxes_wf(boxes@),
        decreases n - j,
    {
        match box_of(&objects[j], s) {
            Some(b) => {
                boxes.push(b);
            },
            None => {
                return None;
            },
        }
        j = j + 1;
    }
    Some(SceneBoxes { scale: s, boxes })
}

pub open spec fn join(a: AABB, b: AABB) -> AABB {
    AABB {
        min: lattice_point(
            min3(coord(a.min, 0), coord(b.min, 0), coord(b.min, 0)),
            min3(coord(a.min, 1), coord(b.min, 1), coord(b.min, 1)),
            min3(coord(a.min, 2), coord(b.min, 2), coord(b.min, 2)),
        ),
        max: lattice_point(
            max3(coord(a.max, 0), coord(b.max, 0), coord(b.max, 0)),
            max3(coord(a.max, 1), coord(b.max, 1), coord(b.max, 1)),
            max3(coord(a.max, 2), coord(b.max, 2), coord(b.max, 2)),
        ),
    }
}

/// The least box that holds every box of `bs`, if any.
pub open spec fn union_of(bs: Seq<Option<AABB>>) -> Option<AABB>
    decreases bs.len(),
{
    if bs.len() == 0 {
        None
    } else {
        match (union_of(bs.drop_last()), bs.last()) {
            (u, None) => u,
            (None, Some(b)) => Some(b),
            (Some(u), Some(b)) => Some(join(u, b)),
        }
    }
}

/// The indices, among `members`, of the objects whose box meets `b`.
pub open spec fn select(bs: Seq<Option<AABB>>, members: Seq<usize>, b: AABB) -> Seq<usize>
    decreases members.len(),
{
    if members.len() == 0 {
        seq![]
    } else {
        let rest = select(bs, members.drop_last(), b);
        let i = members.last() as int;
        if 0 <= i < bs.len() && bs[i] is Some && meets_spec(bs[i]->0, b) {
            rest.push(members.last())
        } else {
            rest
        }
    }
}

/// The indices below `n` of objects with a box.
pub open spec fn bounded(bs: Seq<Option<AABB>>, n: int) -> Seq<usize>
    decreases n,
{
    if n <= 0 {
        seq![]
    } else if bs[n - 1] is Some {
        bounded(bs, n - 1).push((n - 1) as usize)
    } else {
        bounded(bs, n - 1)
    }
}

/// Nodes with at most this many objects are leaves.
pub const MAX_OBJECTS: usize = 20;

/// Depth from which nodes are leaves whatever they hold, so that many
/// coincident objects cannot make the tree split forever.
pub const MAX_BVH_DEPTH: usize = 12;

/// A node of the hierarchy: its box, the objects (by index) whose boxes
/// meet it, and, unless it is a leaf, its children, one for each octant
/// that some of those objects meet, in octant order.
#[derive(Debug)]
pub struct BVHNode {
    pub aabb: AABB,
    pub objects: Vec<usize>,
    pub children: Option<Vec<BVHNode>>,
}

pub open spec fn splits(count: int, depth: int) -> bool {
    count > MAX_OBJECTS && depth < MAX_BVH_DEPTH
}

/// Whether `n` is the node built for box `b`, objects `members` and depth
/// `depth`.
pub open spec fn node_ok(n: BVHNode, b: AABB, members: Seq<usize>, depth: int, bs: Seq<Option<AABB>>) -> bool
    decreases MAX_BVH_DEPTH - depth, 9int,
{
    &&& n.aabb == b
    &&& n.objects@ == members
    &&& if splits(members.len() as int, depth) {
        n.children is Some && children_ok(n.children->0@, b, 8, members, depth, bs)
    } else {
        n.children is None
    }
}

/// Whether `cs` are the children for the octants of `b` below `k`: one for
/// each octant that some of `members` meet, in order.
pub open spec fn children_ok(
    cs: Seq<BVHNode>,
    b: AABB,
    k: int,
    members: Seq<usize>,
    depth: int,
    bs: Seq<Option<AABB>>,
) -> bool
    decreases MAX_BVH_DEPTH - depth, k,
{
    if depth >= MAX_BVH_DEPTH || k < 0 {
        false
    } else if k == 0 {
        cs.len() == 0
    } else {
        let sel = select(bs, members, octant(b, k - 1));
        if sel.len() == 0 {
            children_ok(cs, b, k - 1, members, depth, bs)
        } else {
            cs.len() > 0 && node_ok(cs.last(), octant(b, k - 1), sel, depth + 1, bs) && children_ok(
                cs.drop_last(),
                b,
                k - 1,
                members,
                depth,
                bs,
            )
        }
    }
}

/// The indices among `members` of the objects whose box meets `b`.
fn select_exec(bs: &Vec<Option<AABB>>, members: &Vec<usize>, b: &AABB) -> (r: Vec<usize>)
    ensures
        r@ == select(bs@, members@, *b),
{
    let mut out: Vec<usize> = Vec::new();
    let mut i: usize = 0;
    assert(members@.take(0) =~= Seq::<usize>::empty());
    while i < members.len()
        invariant
            i <= members@.len(),
            out@ == select(bs@, members@.take(i as int), *b),
        decreases members@.len() - i,
    {
        let ghost pre = members@.take(i as int);
        assert(members@.take(i + 1).drop_last() =~= pre);
        assert(members@.take(i + 1).last() == members@[i as int]);
        let m = members[i];
        if m < bs.len() {
            match &bs[m] {
                Some(ob) => {
                    if ob.meets(b) {
                        out.push(m);
                    }
                },
                None => {},
            }
        }
        i = i + 1;
    }
    assert(members@.take(i as int) =~= members@);
    out
}

fn build(b: AABB, members: Vec<usize>, depth: usize, bs: &Vec<Option<AABB>>) -> (r: BVHNode)
    requires
        wf_box(b),
        depth <= MAX_BVH_DEPTH,
    ensures
        node_ok(r, b, members@, depth as int, bs@),
    decreases MAX_BVH_DEPTH - depth,
{
    if !(members.len() > MAX_OBJECTS && depth < MAX_BVH_DEPTH) {
        return BVHNode { aabb: b, objects: members, children: None };
    }
    let octs = b.subdivide();
    proof {
        lemma_subdivide_laws(b);
    }
    let mut children: Vec<BVHNode> = Vec::new();
    let mut k: usize = 0;
    while k < 8
        invariant
            wf_box(b),
            depth < MAX_BVH_DEPTH,
            octs@.len() == 8,
            forall|j: int| 0 <= j < 8 ==> #[trigger] octs@[j] == octant(b, j),
            forall|j: int| 0 <= j < 8 ==> wf_box(#[trigger] octant(b, j)),
            k <= 8,
            children_ok(children@, b, k as int, members@, depth as int, bs@),
        decreases 8 - k,
    {
        let sel = select_exec(bs, &members, &octs[k]);
        assert(octs@[k as int] == octant(b, k as int));
        if sel.len() > 0 {
            let ghost before = children@;
            let child = build(octs[k], sel, depth + 1, bs);
            children.push(child);
            assert(children@.drop_last() =~= before);
        }
        k = k + 1;
    }
    BVHNode { aabb: b, objects: members, children: Some(children) }
}

fn join_exec(a: &AABB, b: &AABB) -> (r: AABB)
    requires
        wf_box(*a),
        wf_box(*b),
    ensures
        r == join(*a, *b),
        wf_box(r),
{
    let r = AABB {
        min: LatticePoint {
            x: min3_exec(a.min.x, b.min.x, b.min.x),
            y: min3_exec(a.min.y, b.min.y, b.min.y),
            z: min3_exec(a.min.z, b.min.z, b.min.z),
        },
        max: LatticePoint {
            x: max3_exec(a.max.x, b.max.x, b.max.x),
            y: max3_exec(a.max.y, b.max.y, b.max.y),
            z: max3_exec(a.max.z, b.max.z, b.max.z),
        },
    };
    assert(coord(a.min, 0) <= coord(a.max, 0) && coord(a.min, 1) <= coord(a.max, 1) && coord(a.min, 2) <= coord(a.max, 2));
    assert(coord(b.min, 0) <= coord(b.max, 0) && coord(b.min, 1) <= coord(b.max, 1) && coord(b.min, 2) <= coord(b.max, 2));
    assert(in_bound(coord(a.min, 0)) && in_bound(coord(a.min, 1)) && in_bound(coord(a.min, 2)));
    assert(in_bound(coord(a.max, 0)) && in_bound(coord(a.max, 1)) && in_bound(coord(a.max, 2)));
    assert(in_bound(coord(b.min, 0)) && in_bound(coord(b.min, 1)) && in_bound(coord(b.min, 2)));
    assert(in_bound(coord(b.max, 0)) && in_bound(coord(b.max, 1)) && in_bound(coord(b.max, 2)));
    r
}

impl BVHNode {
    /// The hierarchy over the objects with a box: its root holds them all
    /// and is their union box.  `None` when no object has a box.
    pub fn from_boxes(bs: &Vec<Option<AABB>>) -> (r: Option<BVHNode>)
        requires
            boxes_wf(bs@),
        ensures
            match union_of(bs@) {
                None => r is None,
                Some(u) => r is Some && node_ok(r->0, u, bounded(bs@, bs@.len() as int), 0, bs@),
            },
    {
        let mut acc: Option<AABB> = None;
        let mut members: Vec<usize> = Vec::new();
        let mut i: usize = 0;
        assert(bs@.take(0) =~= Seq::<Option<AABB>>::empty());
        while i < bs.len()
            invariant
                i <= bs@.len(),
                boxes_wf(bs@),
                acc == union_of(bs@.take(i as int)),
                acc matches Some(u) ==> wf_box(u),
                members@ == bounded(bs@, i as int),
            decreases bs@.len() - i,
        {
            assert(bs@.take(i + 1).drop_last() =~= bs@.take(i as int));
            assert(bs@.take(i + 1).last() == bs@[i as int]);
            match &bs[i] {
                Some(b) => {
                    acc = match acc {
                        None => Some(*b),
                        Some(u) => Some(join_exec(&u, b)),
                    };
                    members.push(i);
                },
                None => {},
            }
            i = i + 1;
        }
        assert(bs@.take(i as int) =~= bs@);
        match acc {
            None => None,
            Some(u) => Some(build(u, members, 0, bs)),
        }
    }

    pub fn is_leaf(&self) -> (r: bool)
        ensures
            r == self.children is None,
    {
        self.children.is_none()
    }
}

/// Whether object `i` is held by a leaf of `n` reached through boxes that
/// contain the point `p`, in at most `height` steps down.
pub open spec fn reaches(n: BVHNode, p: (int, int, int), i: usize, height: nat) -> bool
    decreases height,
{
    match n.children {
        Some(cs) if height > 0 => exists|j: int|
            0 <= j < cs@.len() && #[trigger] contains(cs@[j].aabb, p) && reaches(
                cs@[j],
                p,
                i,
                (height - 1) as nat,
            ),
        _ => n.objects@.contains(i),
    }
}

proof fn lemma_select_contains(bs: Seq<Option<AABB>>, members: Seq<usize>, b: AABB, i: usize)
    requires
        members.contains(i),
        (i as int) < bs.len(),
        bs[i as int] is Some,
        meets_spec(bs[i as int]->0, b),
    ensures
        select(bs, members, b).contains(i),
    decreases members.len(),
{
    let rest = select(bs, members.drop_last(), b);
    if members.last() == i {
        assert(select(bs, members, b) == rest.push(i));
        assert(rest.push(i)[rest.len() as int] == i);
    } else {
        let k = choose|k: int| 0 <= k < members.len() && members[k] == i;
        assert(k < members.len() - 1);
        assert(members.drop_last()[k] == i);
        lemma_select_contains(bs, members.drop_last(), b, i);
        let j = choose|j: int| 0 <= j < rest.len() && rest[j] == i;
        let whole = select(bs, members, b);
        assert(whole == rest || whole == rest.push(members.last()));
        assert(whole[j] == i);
    }
}

proof fn lemma_children_find(
    cs: Seq<BVHNode>,
    b: AABB,
    kk: int,
    members: Seq<usize>,
    depth: int,
    bs: Seq<Option<AABB>>,
    k: int,
)
    requires
        children_ok(cs, b, kk, members, depth, bs),
        0 <= k < kk <= 8,
        select(bs, members, octant(b, k)).len() > 0,
    ensures
        exists|j: int|
            0 <= j < cs.len() && #[trigger] node_ok(
                cs[j],
                octant(b, k),
                select(bs, members, octant(b, k)),
                depth + 1,
                bs,
            ),
    decreases kk,
{
    if k == kk - 1 {
        assert(node_ok(cs[cs.len() - 1], octant(b, k), select(bs, members, octant(b, k)), depth + 1, bs));
    } else if select(bs, members, octant(b, kk - 1)).len() == 0 {
        lemma_children_find(cs, b, kk - 1, members, depth, bs, k);
    } else {
        let rest = cs.drop_last();
        lemma_children_find(rest, b, kk - 1, members, depth, bs, k);
        let j = choose|j: int|
            0 <= j < rest.len() && #[trigger] node_ok(
                rest[j],
                octant(b, k),
                select(bs, members, octant(b, k)),
                depth + 1,
                bs,
            );
        assert(rest[j] == cs[j]);
    }
}

/// Nothing is lost by the hierarchy: an object whose box contains a point
/// of a node's box is held by a leaf that is reached from that node through
/// boxes containing the point.  A ray that hits the object at that point
/// therefore meets every box on the way to a leaf that holds it.
pub proof fn lemma_bvh_covers(
    n: BVHNode,
    b: AABB,
    members: Seq<usize>,
    depth: int,
    bs: Seq<Option<AABB>>,
    i: usize,
    p: (int, int, int),
)
    requires
        node_ok(n, b, members, depth, bs),
        wf_box(b),
        0 <= depth <= MAX_BVH_DEPTH,
        contains(b, p),
        members.contains(i),
        (i as int) < bs.len(),
        bs[i as int] is Some,
        contains(bs[i as int]->0, p),
    ensures
        reaches(n, p, i, (MAX_BVH_DEPTH - depth) as nat),
    decreases MAX_BVH_DEPTH - depth,
{
    if splits(members.len() as int, depth) {
        lemma_subdivide_laws(b);
        let k = choose|k: int| 0 <= k < 8 && contains(octant(b, k), p);
        let ob = bs[i as int]->0;
        assert(meets_spec(ob, octant(b, k)));
        lemma_select_contains(bs, members, octant(b, k), i);
        let sel = select(bs, members, octant(b, k));
        let cs = n.children->0@;
        lemma_children_find(cs, b, 8, members, depth, bs, k);
        let j = choose|j: int|
            0 <= j < cs.len() && #[trigger] node_ok(cs[j], octant(b, k), sel, depth + 1, bs);
        lemma_bvh_covers(cs[j], octant(b, k), sel, depth + 1, bs, i, p);
        assert(contains(cs[j].aabb, p));
        assert(contains(cs[j].aabb, p));
    }
}

/// Whether box `a` lies within box `b`.
pub open spec fn within(a: AABB, b: AABB) -> bool {
    forall|k: int| 0 <= k < 3 ==> coord(b.min, k) <= coord(a.min, k) && coord(a.max, k) <= coord(b.max, k)
}

proof fn lemma_union_wf(bs: Seq<Option<AABB>>)
    requires
        boxes_wf(bs),
    ensures
        union_of(bs) matches Some(u) ==> wf_box(u),
    decreases bs.len(),
{
    if bs.len() > 0 {
        let pre = bs.drop_last();
        assert(boxes_wf(pre)) by {
            assert forall|k: int| 0 <= k < pre.len() && (#[trigger] pre[k]) is Some implies wf_box(pre[k]->0) by {
                assert(pre[k] == bs[k]);
            }
        }
        lemma_union_wf(pre);
        match (union_of(pre), bs.last()) {
            (Some(u), Some(b)) => {
                assert(wf_box(b));
                assert(forall|k: int| 0 <= k < 3 ==> coord(u.min, k) <= coord(u.max, k) && coord(b.min, k) <= coord(b.max, k));
                assert(forall|k: int| 0 <= k < 3 ==> in_bound(coord(u.min, k)) && in_bound(coord(b.min, k)) && in_bound(coord(u.max, k)) && in_bound(coord(b.max, k)));
            },
            _ => {},
        }
    }
}

proof fn lemma_union(bs: Seq<Option<AABB>>, i: int)
    requires
        boxes_wf(bs),
        0 <= i < bs.len(),
        bs[i] is Some,
    ensures
        union_of(bs) is Some,
        wf_box(union_of(bs)->0),
        within(bs[i]->0, union_of(bs)->0),
    decreases bs.len(),
{
    let pre = bs.drop_last();
    assert(boxes_wf(pre)) by {
        assert forall|k: int| 0 <= k < pre.len() && (#[trigger] pre[k]) is Some implies wf_box(pre[k]->0) by {
            assert(pre[k] == bs[k]);
        }
    }
    lemma_union_wf(pre);
    if i < bs.len() - 1 {
        assert(pre[i] == bs[i]);
        lemma_union(pre, i);
    }
}

proof fn lemma_bounded_contains(bs: Seq<Option<AABB>>, n: int, i: int)
    requires
        0 <= i < n <= bs.len(),
        bs[i] is Some,
    ensures
        bounded(bs, n).contains(i as usize),
    decreases n,
{
    if i == n - 1 {
        assert(bounded(bs, n).last() == i as usize);
    } else {
        lemma_bounded_contains(bs, n - 1, i);
        let rest = bounded(bs, n - 1);
        let j = choose|j: int| 0 <= j < rest.len() && rest[j] == i as usize;
        assert(bounded(bs, n)[j] == rest[j]);
    }
}

/// What the hierarchy of the lattice boxes `bs` is: built over the objects
/// with a box, from their union box.
pub open spec fn index_of(bs: Seq<Option<AABB>>, root: BVHNode) -> bool {
    union_of(bs) is Some && node_ok(root, union_of(bs)->0, bounded(bs, bs.len() as int), 0, bs)
}

/// The hierarchy finds every object a ray can hit: for any point of any
/// object's box, some leaf holding that object is reached from the root
/// through boxes that all contain the point.  Traversal that enters every
/// box the ray meets thus tests every object that a brute-force scan tests
/// at that point.
pub proof fn lemma_index_covers(bs: Seq<Option<AABB>>, root: BVHNode, i: usize, p: (int, int, int))
    requires
        boxes_wf(bs),
        index_of(bs, root),
        (i as int) < bs.len(),
        bs[i as int] is Some,
        contains(bs[i as int]->0, p),
    ensures
        contains(root.aabb, p),
        reaches(root, p, i, MAX_BVH_DEPTH as nat),
{
    lemma_union(bs, i as int);
    lemma_bounded_contains(bs, bs.len() as int, i as int);
    let u = union_of(bs)->0;
    assert(contains(u, p));
    lemma_bvh_covers(root, u, bounded(bs, bs.len() as int), 0, bs, i, p);
}

/// The spatial index of a scene: the lattice boxes of its objects and the
/// hierarchy over those that have one.
pub struct SpatialIndex {
    pub scale: u32,
    pub boxes: Vec<Option<AABB>>,
    pub root: Option<BVHNode>,
}

impl BVHNode {
    /// Builds the spatial index of `objects`; `None` when some coordinate
    /// does not fit the lattice.
    pub fn from_objects(objects: &Vec<SceneObject>) -> (r: Option<SpatialIndex>)
        ensures
            ({
                let os = objects@;
                let s = max_scale(os);
                &&& r is Some <==> forall|i: int| 0 <= i < os.len() ==> object_fits(#[trigger] os[i], s)
                &&& r is Some ==> {
                    let x = r->0;
                    &&& x.scale == s
                    &&& x.boxes@.len() == os.len()
                    &&& forall|i: int| 0 <= i < os.len() ==> #[trigger] x.boxes@[i] == object_box(os[i], s)
                    &&& boxes_wf(x.boxes@)
                    &&& match x.root {
                        None => union_of(x.boxes@) is None,
                        Some(root) => index_of(x.boxes@, root),
                    }
                }
            }),
    {
        match scene_boxes(objects) {
            None => None,
            Some(sb) => {
                let root = BVHNode::from_boxes(&sb.boxes);
                Some(SpatialIndex { scale: sb.scale, boxes: sb.boxes, root })
            },
        }
    }
}

} // verus!
