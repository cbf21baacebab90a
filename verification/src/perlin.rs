//! Gradient noise on a lattice of 256 random unit vectors, reached through
//! three random permutations of `0 .. 256`.

use crate::random::{index_spec, is_unit, random_index};
use crate::scalar::{modulo, Scalar};
use crate::vec3::Vec3;
use vstd::prelude::*;

verus! {

/// A table of 256 entries, each an index into a table of 256.
pub open spec fn is_table(p: Seq<i32>) -> bool {
    &&& p.len() == 256
    &&& forall|i: int| 0 <= i < 256 ==> 0 <= #[trigger] p[i] < 256
}

/// The table that holds `0, 1, .., 255` in that order.
pub open spec fn identity_table() -> Seq<i32> {
    Seq::new(256, |i: int| i as i32)
}

/// The table holds each of `0 .. 256` exactly once.
pub open spec fn is_permutation(p: Seq<i32>) -> bool {
    p.to_multiset() == identity_table().to_multiset()
}

/// The smoothed weight `t^2 (3 - 2 t)` of a fractional coordinate.
pub open spec fn hermite(t: Scalar) -> Scalar {
    t.times(t).times(Scalar::from_int(3).minus(t.plus(t)))
}

/// The share of one lattice corner in the noise at fractional position
/// `(u, v, w)` of its cell: the product of the weights along the three axes
/// and of the gradient's dot product with the offset from the corner.
pub open spec fn corner_term(
    gradient: Vec3,
    u: Scalar,
    v: Scalar,
    w: Scalar,
    di: i64,
    dj: i64,
    dk: i64,
) -> Scalar {
    let uu = hermite(u);
    let vv = hermite(v);
    let ww = hermite(w);
    let weight_x = if di == 0 { Scalar::one().minus(uu) } else { uu };
    let weight_y = if dj == 0 { Scalar::one().minus(vv) } else { vv };
    let weight_z = if dk == 0 { Scalar::one().minus(ww) } else { ww };
    let offset = Vec3::new(
        u.minus(Scalar::from_int(di)),
        v.minus(Scalar::from_int(dj)),
        w.minus(Scalar::from_int(dk)),
    );
    weight_x.times(weight_y).times(weight_z).times(gradient.dot(offset))
}

/// The shares of the eight corners of a cell, added up: the corners stand
/// in `c` with the offset along z counting fastest and that along x slowest.
pub open spec fn trilinear_spec(c: Seq<Vec3>, u: Scalar, v: Scalar, w: Scalar) -> Scalar {
    corner_term(c[0], u, v, w, 0, 0, 0).plus(corner_term(c[1], u, v, w, 0, 0, 1)).plus(
        corner_term(c[2], u, v, w, 0, 1, 0),
    ).plus(corner_term(c[3], u, v, w, 0, 1, 1)).plus(corner_term(c[4], u, v, w, 1, 0, 0)).plus(
        corner_term(c[5], u, v, w, 1, 0, 1),
    ).plus(corner_term(c[6], u, v, w, 1, 1, 0)).plus(corner_term(c[7], u, v, w, 1, 1, 1))
}

fn corner(gradient: Vec3, u: Scalar, v: Scalar, w: Scalar, di: i64, dj: i64, dk: i64) -> (r:
    Scalar)
    ensures
        r == corner_term(gradient, u, v, w, di, dj, dk),
{
    let uu: Scalar = u.times(u).times(Scalar::from_int(3).minus(u.plus(u)));
    let vv: Scalar = v.times(v).times(Scalar::from_int(3).minus(v.plus(v)));
    let ww: Scalar = w.times(w).times(Scalar::from_int(3).minus(w.plus(w)));
    let weight_x: Scalar = if di == 0 { Scalar::one().minus(uu) } else { uu };
    let weight_y: Scalar = if dj == 0 { Scalar::one().minus(vv) } else { vv };
    let weight_z: Scalar = if dk == 0 { Scalar::one().minus(ww) } else { ww };
    let offset: Vec3 = Vec3::new(
        u.minus(Scalar::from_int(di)),
        v.minus(Scalar::from_int(dj)),
        w.minus(Scalar::from_int(dk)),
    );
    weight_x.times(weight_y).times(weight_z).times(gradient.dot(offset))
}

pub struct Perlin {
    ranfloat: Vec<Vec3>,
    perm_x: Vec<i32>,
    perm_y: Vec<i32>,
    perm_z: Vec<i32>,
}

impl Perlin {
    /// 256 gradients, and three tables that are permutations of `0 .. 256`.
    #[verifier::type_invariant]
    pub closed spec fn wf(&self) -> bool {
        &&& self.ranfloat@.len() == 256
        &&& is_table(self.perm_x@)
        &&& is_table(self.perm_y@)
        &&& is_table(self.perm_z@)
        &&& is_permutation(self.perm_x@)
        &&& is_permutation(self.perm_y@)
        &&& is_permutation(self.perm_z@)
    }

    /// The gradients of the lattice.
    pub closed spec fn gradients(&self) -> Seq<Vec3> {
        self.ranfloat@
    }

    /// The permutation tables of the x, y and z axis.
    pub closed spec fn tables(&self) -> (Seq<i32>, Seq<i32>, Seq<i32>) {
        (self.perm_x@, self.perm_y@, self.perm_z@)
    }

    /// A generator with gradients drawn as random directions and freshly
    /// shuffled tables.
    pub fn new() -> (r: Perlin)
        ensures
            r.wf(),
            r.gradients().len() == 256,
            is_permutation(r.tables().0),
            is_permutation(r.tables().1),
            is_permutation(r.tables().2),
    {
        let mut ranvec: Vec<Vec3> = Vec::new();
        let low: Scalar = Scalar::one().neg();
        let high: Scalar = Scalar::one();
        let mut i: usize = 0;
        while i < 256
            invariant
                i <= 256,
                ranvec@.len() == i,
            decreases 256 - i,
        {
            ranvec.push(Vec3::random_range(low, high).unit_vector());
            i = i + 1;
        }
        Perlin {
            ranfloat: ranvec,
            perm_x: Perlin::perlin_generate_perm(),
            perm_y: Perlin::perlin_generate_perm(),
            perm_z: Perlin::perlin_generate_perm(),
        }
    }

    /// The gradient that the tables assign to the lattice point
    /// `(i, j, k)`: the three table entries, each looked up at its
    /// coordinate modulo 256, are combined bit by bit.
    pub closed spec fn lattice(&self, i: int, j: int, k: int) -> Vec3 {
        let px = self.perm_x@[i % 256] as usize;
        let py = self.perm_y@[j % 256] as usize;
        let pz = self.perm_z@[k % 256] as usize;
        self.ranfloat@[(px ^ py ^ pz) as int]
    }

    fn gradient_at(&self, i: i64, j: i64, k: i64) -> (g: Vec3)
        ensures
            g == self.lattice(i as int, j as int, k as int),
    {
        proof {
            use_type_invariant(self);
        }
        let px: usize = self.perm_x[modulo(i, 256) as usize] as usize;
        let py: usize = self.perm_y[modulo(j, 256) as usize] as usize;
        let pz: usize = self.perm_z[modulo(k, 256) as usize] as usize;
        assert((px ^ py ^ pz) < 256) by (bit_vector)
            requires
                px < 256,
                py < 256,
                pz < 256,
        ;
        self.ranfloat[px ^ py ^ pz]
    }

    /// The gradients at the eight corners of the lattice cell at
    /// `(i, j, k)`, the corner's offset along z counting fastest and that
    /// along x slowest.
    pub closed spec fn cell(&self, i: int, j: int, k: int) -> Seq<Vec3> {
        seq![
            self.lattice(i, j, k),
            self.lattice(i, j, k + 1),
            self.lattice(i, j + 1, k),
            self.lattice(i, j + 1, k + 1),
            self.lattice(i + 1, j, k),
            self.lattice(i + 1, j, k + 1),
            self.lattice(i + 1, j + 1, k),
            self.lattice(i + 1, j + 1, k + 1),
        ]
    }

    /// The noise at `point`: the gradients of the lattice cell that holds
    /// the point, interpolated at the point's position within the cell.
    pub closed spec fn noise_spec(&self, point: Vec3) -> Scalar {
        trilinear_spec(
            self.cell(point.x.whole() as int, point.y.whole() as int, point.z.whole() as int),
            point.x.minus(point.x.floor()),
            point.y.minus(point.y.floor()),
            point.z.minus(point.z.floor()),
        )
    }

    pub fn noise(&self, point: Vec3) -> (r: Scalar)
        ensures
            r == self.noise_spec(point),
    {
        let u: Scalar = point.x.minus(point.x.floor());
        let v: Scalar = point.y.minus(point.y.floor());
        let w: Scalar = point.z.minus(point.z.floor());
        let i: i64 = point.x.whole();
        let j: i64 = point.y.whole();
        let k: i64 = point.z.whole();
        let c: [Vec3; 8] = [
            self.gradient_at(i, j, k),
            self.gradient_at(i, j, k + 1),
            self.gradient_at(i, j + 1, k),
            self.gradient_at(i, j + 1, k + 1),
            self.gradient_at(i + 1, j, k),
            self.gradient_at(i + 1, j, k + 1),
            self.gradient_at(i + 1, j + 1, k),
            self.gradient_at(i + 1, j + 1, k + 1),
        ];
        assert(c@ =~= self.cell(i as int, j as int, k as int));
        Perlin::trilinear_interp(&c, u, v, w)
    }

    /// Interpolates the gradients at the eight corners of a cell at the
    /// position `(u, v, w)` within it.
    pub fn trilinear_interp(c: &[Vec3; 8], u: Scalar, v: Scalar, w: Scalar) -> (r: Scalar)
        ensures
            r == trilinear_spec(c@, u, v, w),
    {
        corner(c[0], u, v, w, 0, 0, 0).plus(corner(c[1], u, v, w, 0, 0, 1)).plus(
            corner(c[2], u, v, w, 0, 1, 0),
        ).plus(corner(c[3], u, v, w, 0, 1, 1)).plus(corner(c[4], u, v, w, 1, 0, 0)).plus(
            corner(c[5], u, v, w, 1, 0, 1),
        ).plus(corner(c[6], u, v, w, 1, 1, 0)).plus(corner(c[7], u, v, w, 1, 1, 1))
    }

    /// Octaves of noise, each at twice the frequency and half the weight of
    /// the one before, are added to `total` one after the other: first the
    /// octave at `point` with `weight`, `depth` of them in all.
    pub closed spec fn accumulate(
        &self,
        total: Scalar,
        point: Vec3,
        weight: Scalar,
        depth: int,
    ) -> Scalar
        decreases depth,
    {
        if depth <= 0 {
            total
        } else {
            self.accumulate(
                total.plus(weight.times(self.noise_spec(point))),
                point.scale(Scalar::from_int(2)),
                weight.times(Scalar::from_ratio(1, 2)),
                depth - 1,
            )
        }
    }

    pub closed spec fn turbulence_spec(&self, point: Vec3, depth: i32) -> Scalar {
        self.accumulate(Scalar::zero(), point, Scalar::one(), depth as int).abs()
    }

    /// The magnitude of `depth` octaves of noise at `point` added up, the
    /// first with weight one.
    pub fn turbulence(&self, point: Vec3, depth: i32) -> (r: Scalar)
        ensures
            r == self.turbulence_spec(point, depth),
    {
        let mut accumulator: Scalar = Scalar::zero();
        let mut weight: Scalar = Scalar::one();
        let mut temp_point: Vec3 = point;
        let mut left: i32 = depth;
        while left > 0
            invariant
                self.accumulate(accumulator, temp_point, weight, left as int) == self.accumulate(
                    Scalar::zero(),
                    point,
                    Scalar::one(),
                    depth as int,
                ),
            decreases left,
        {
            accumulator = accumulator.plus(weight.times(self.noise(temp_point)));
            weight = weight.times(Scalar::from_ratio(1, 2));
            temp_point = temp_point.scale(Scalar::from_int(2));
            left = left - 1;
        }
        accumulator.abs()
    }

    /// A table that holds `0 .. 256` in a random order.
    pub fn perlin_generate_perm() -> (p: Vec<i32>)
        ensures
            is_table(p@),
            is_permutation(p@),
    {
        let mut p: Vec<i32> = Vec::new();
        let mut i: i32 = 0;
        while i < 256
            invariant
                0 <= i <= 256,
                p@.len() == i,
                forall|j: int| 0 <= j < i ==> p@[j] == j,
            decreases 256 - i,
        {
            p.push(i);
            i = i + 1;
        }
        assert(p@ =~= identity_table());
        Perlin::permute(&mut p, 256);
        p
    }

    /// Shuffles the first `n` entries: from the last one down to the
    /// second, each is swapped with the entry before it that a number drawn
    /// from `[0, 1)` selects. The entries from `n` on stay as they are.
    pub fn permute(p: &mut Vec<i32>, n: usize)
        requires
            n <= old(p)@.len(),
            n <= u32::MAX,
        ensures
            exists|units: Seq<Scalar>|
                all_units(units, n as int) && final(p)@ == #[trigger] shuffled(
                    old(p)@,
                    n as int,
                    1,
                    units,
                ),
            final(p)@.len() == old(p)@.len(),
            final(p)@.to_multiset() == old(p)@.to_multiset(),
            is_table(old(p)@) ==> is_table(final(p)@),
    {
        let ghost mut units: Seq<Scalar> = Seq::new(n as nat, |k: int| Scalar::zero());
        let mut i: usize = n;
        while i > 1
            invariant
                i <= n <= p@.len(),
                n <= u32::MAX,
                p@.len() == old(p)@.len(),
                p@.to_multiset() == old(p)@.to_multiset(),
                is_table(old(p)@) ==> is_table(p@),
                n >= 1 ==> i >= 1,
                all_units(units, n as int),
                p@ == shuffled(old(p)@, n as int, i as int, units),
            decreases i,
        {
            i = i - 1;
            let target: usize = random_index(i as u32);
            let a: i32 = p[i];
            let b: i32 = p[target];
            proof {
                broadcast use {
                    vstd::seq_lib::group_to_multiset_ensures,
                    vstd::multiset::group_multiset_properties,
                    vstd::multiset::group_multiset_axioms,
                };

                let s0 = p@;
                let s1 = s0.update(i as int, b);
                let s2 = s1.update(target as int, a);
                assert(s1.to_multiset() == s0.to_multiset().insert(b).remove(a));
                assert(s2.to_multiset() == s1.to_multiset().insert(a).remove(b));
                assert(s2.to_multiset() =~= s0.to_multiset());

                let unit = choose|unit: Scalar|
                    is_unit(unit) && target == #[trigger] index_spec(i as u32, unit);
                let drawn = units.update(i as int, unit);
                lemma_shuffle_reads_above(old(p)@, n as int, i + 1, units, drawn);
                units = drawn;
                assert(s2 == swapped(s0, i as int, index_spec(i as u32, units[i as int])));
            }
            p.set(i, b);
            p.set(target, a);
        }
        proof {
            if i == 0 {
                assert(shuffled(old(p)@, n as int, 0, units) == old(p)@);
                assert(shuffled(old(p)@, n as int, 1, units) == old(p)@);
            }
            assert(p@ == shuffled(old(p)@, n as int, 1, units));
            assert(all_units(units, n as int));
        }
    }
}

/// The first `n` of the numbers are numbers of `[0, 1)`.
pub open spec fn all_units(units: Seq<Scalar>, n: int) -> bool {
    &&& units.len() == n
    &&& forall|k: int| 0 <= k < n ==> is_unit(#[trigger] units[k])
}

/// The table with its entries `i` and `j` exchanged.
pub open spec fn swapped(s: Seq<i32>, i: int, j: int) -> Seq<i32> {
    s.update(i, s[j]).update(j, s[i])
}

/// The table after the steps of a shuffle of its first `n` entries for the
/// positions `n - 1` down to `i`: the step for a position `k` exchanges
/// entry `k` with the entry that `units[k]` selects among those before it.
pub open spec fn shuffled(s: Seq<i32>, n: int, i: int, units: Seq<Scalar>) -> Seq<i32>
    decreases n - i,
{
    if i >= n {
        s
    } else {
        let before = shuffled(s, n, i + 1, units);
        swapped(before, i, index_spec(i as u32, units[i]))
    }
}

/// The steps for the positions from `i` up read only the numbers from `i`
/// up.
proof fn lemma_shuffle_reads_above(
    s: Seq<i32>,
    n: int,
    i: int,
    first: Seq<Scalar>,
    second: Seq<Scalar>,
)
    requires
        0 <= i,
        first.len() == second.len(),
        n <= first.len(),
        forall|k: int| i <= k < n ==> first[k] == second[k],
    ensures
        shuffled(s, n, i, first) == shuffled(s, n, i, second),
    decreases n - i,
{
    if i < n {
        lemma_shuffle_reads_above(s, n, i + 1, first, second);
    }
}

} // verus!
