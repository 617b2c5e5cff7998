use vstd::prelude::*;

verus! {

/// Edge length of a volume, in voxels.
pub const SIZE: usize = 64;

/// Number of 64-bit columns in a volume: one per (y, z) pair.
pub const WORDS: usize = 4096;

/// Voxel coordinates `(x, y, z)`.
pub type Coords = (usize, usize, usize);

/// Errors of the coordinate-accepting operations.
#[derive(Debug, Clone, Copy, PartialEq, Eq, Structural)]
pub enum VoxelError {
    /// A coordinate lies outside `[0, SIZE)`.
    CoordinateOutOfRange,
}

/// A dense cube of `SIZE`³ occupancy bits. Column `(y, z)` is the word at
/// index `z * SIZE + y`; bit `x` of that word is voxel `(x, y, z)`.
#[derive(Clone)]
pub struct VoxelGrid {
    data: Vec<u64>,
}

pub open spec fn in_range(c: int) -> bool {
    0 <= c < SIZE
}

pub open spec fn coords_in_range(p: Coords) -> bool {
    in_range(p.0 as int) && in_range(p.1 as int) && in_range(p.2 as int)
}

/// Index of the column that holds voxels `(_, y, z)`.
pub open spec fn column(y: int, z: int) -> int {
    z * 64 + y
}

/// Whether bit `i` of `word` is set.
pub open spec fn bit_set(word: u64, i: int) -> bool {
    (word >> (i as u64)) & 1 == 1
}

/// Whether voxel `(x, y, z)` is set in the column words `w`.
pub open spec fn voxel(w: Seq<u64>, x: int, y: int, z: int) -> bool {
    bit_set(w[column(y, z)], x)
}

/// Occupancy of voxel `(x, y, z)` as 0 or 1.
pub open spec fn occupancy(w: Seq<u64>, x: int, y: int, z: int) -> u64 {
    if voxel(w, x, y, z) {
        1
    } else {
        0
    }
}

/// The words of an empty volume.
pub open spec fn empty_words() -> Seq<u64> {
    Seq::new(WORDS as nat, |i: int| 0u64)
}

/// Column-wise union: bitwise OR.
pub open spec fn union_words(a: Seq<u64>, b: Seq<u64>) -> Seq<u64> {
    Seq::new(WORDS as nat, |i: int| a[i] | b[i])
}

/// Column-wise difference: `a AND NOT b`.
pub open spec fn difference_words(a: Seq<u64>, b: Seq<u64>) -> Seq<u64> {
    Seq::new(WORDS as nat, |i: int| a[i] & !b[i])
}

/// The column words of a volume.
pub open spec fn well_formed_words(w: Seq<u64>) -> bool {
    w.len() == WORDS
}

/// Whether `paint_cube(min, max)` stays inside the volume: the x bounds of
/// the half-open range are at most `SIZE`, the closed y and z bounds are
/// below `SIZE`.
pub open spec fn cube_in_range(min: Coords, max: Coords) -> bool {
    min.0 <= SIZE && max.0 <= SIZE && in_range(min.1 as int) && in_range(max.1 as int) && in_range(
        min.2 as int,
    ) && in_range(max.2 as int)
}

/// Whether `(x, y, z)` lies in the box painted by `paint_cube(min, max)`:
/// half-open along x, closed along y and z.
pub open spec fn in_cube(min: Coords, max: Coords, x: int, y: int, z: int) -> bool {
    min.0 <= x < max.0 && min.1 <= y <= max.1 && min.2 <= z <= max.2
}

/// A radius given as the exact fraction `numerator / denominator`.
#[derive(Debug, Clone, Copy, PartialEq, Eq, Structural)]
pub struct Radius {
    pub numerator: u32,
    pub denominator: u32,
}

pub open spec fn square(v: int) -> int {
    v * v
}

/// Whether the integer offset from `center` to `(x, y, z)` has a Euclidean
/// norm of at most `r`.
pub open spec fn in_ball(center: Coords, r: Radius, x: int, y: int, z: int) -> bool {
    square(r.denominator as int) * (square(x - center.0) + square(y - center.1) + square(
        z - center.2,
    )) <= square(r.numerator as int)
}

/// Bit `x` of `w | m` is set exactly when it is set in `w` or in `m`.
proof fn lemma_or_bit(w: u64, m: u64, x: u64)
    by (bit_vector)
    requires
        x < 64,
    ensures
        ((w | m) >> x) & 1 == 1 <==> ((w >> x) & 1 == 1 || (m >> x) & 1 == 1),
{
}

/// The single bit `1 << b` has bit `x` set exactly when `x == b`.
proof fn lemma_single_bit(b: u64, x: u64)
    by (bit_vector)
    requires
        b < 64,
        x < 64,
    ensures
        ((1u64 << b) >> x) & 1 == 1 <==> x == b,
{
}

proof fn lemma_or_bit_set(w: u64, m: u64, i: int)
    requires
        0 <= i < 64,
    ensures
        bit_set(w | m, i) <==> (bit_set(w, i) || bit_set(m, i)),
{
    lemma_or_bit(w, m, i as u64);
}

proof fn lemma_single_bit_set(b: u64, i: int)
    requires
        b < 64,
        0 <= i < 64,
    ensures
        bit_set(1u64 << b, i) <==> i == b,
{
    lemma_single_bit(b, i as u64);
}

proof fn lemma_zero_bit(x: u64)
    by (bit_vector)
    requires
        x < 64,
    ensures
        (0u64 >> x) & 1 != 1,
{
}

proof fn lemma_span_mask(lo: u64, hi: u64, x: u64)
    by (bit_vector)
    requires
        lo < hi < 64,
        x < 64,
    ensures
        (1u64 << lo) >= 1,
        (1u64 << hi) >= 1,
        ((1u64 << lo) - 1) as u64 <= ((1u64 << hi) - 1) as u64,
        ((((((1u64 << hi) - 1) as u64) - (((1u64 << lo) - 1) as u64)) as u64) >> x) & 1 == 1 <==> (
        lo <= x && x < hi),
{
}

proof fn lemma_top_mask(lo: u64, x: u64)
    by (bit_vector)
    requires
        lo < 64,
        x < 64,
    ensures
        (1u64 << lo) >= 1,
        ((!(((1u64 << lo) - 1) as u64)) >> x) & 1 == 1 <==> lo <= x,
{
}

/// The word whose bits `lo..hi` are set and no other.
fn span_mask(lo: usize, hi: usize) -> (m: u64)
    requires
        lo <= SIZE,
        hi <= SIZE,
    ensures
        forall|x: int| 0 <= x < 64 ==> (#[trigger] bit_set(m, x) <==> (lo <= x && x < hi)),
{
    if lo < hi && hi == SIZE {
        proof {
            lemma_top_mask(lo as u64, 0);
        }
        let m = !((1u64 << lo as u64) - 1);
        assert forall|x: int| 0 <= x < 64 implies (#[trigger] bit_set(m, x) <==> (lo <= x && x < hi)) by {
            lemma_top_mask(lo as u64, x as u64);
        }
        m
    } else if lo < hi {
        proof {
            lemma_span_mask(lo as u64, hi as u64, 0);
        }
        let m = ((1u64 << hi as u64) - 1) - ((1u64 << lo as u64) - 1);
        assert forall|x: int| 0 <= x < 64 implies (#[trigger] bit_set(m, x) <==> (lo <= x && x < hi)) by {
            lemma_span_mask(lo as u64, hi as u64, x as u64);
        }
        m
    } else {
        assert forall|x: int| 0 <= x < 64 implies (#[trigger] bit_set(0u64, x) <==> (lo <= x && x < hi)) by {
            lemma_zero_bit(x as u64);
        }
        0
    }
}

/// Whether voxel `(x, y, z)` lies within `r` of `center`.
fn within_ball(center: Coords, r: Radius, x: usize, y: usize, z: usize) -> (b: bool)
    requires
        coords_in_range(center),
        x < SIZE,
        y < SIZE,
        z < SIZE,
    ensures
        b == in_ball(center, r, x as int, y as int, z as int),
{
    let dx: u64 = if x >= center.0 { (x - center.0) as u64 } else { (center.0 - x) as u64 };
    let dy: u64 = if y >= center.1 { (y - center.1) as u64 } else { (center.1 - y) as u64 };
    let dz: u64 = if z >= center.2 { (z - center.2) as u64 } else { (center.2 - z) as u64 };
    assert(dx * dx <= 4096 && dy * dy <= 4096 && dz * dz <= 4096) by (nonlinear_arith)
        requires
            dx < 64,
            dy < 64,
            dz < 64,
    ;
    let s: u64 = dx * dx + dy * dy + dz * dz;
    let den = r.denominator as u128;
    let num = r.numerator as u128;
    assert(den * den <= 0xffff_ffff_ffff_ffff && num * num <= 0xffff_ffff_ffff_ffff) by (
    nonlinear_arith)
        requires
            den <= 0xffff_ffff,
            num <= 0xffff_ffff,
    ;
    let dd: u128 = den * den;
    assert(dd * (s as u128) <= 0xffff_ffff_ffff_ffff * 0x4000) by (nonlinear_arith)
        requires
            dd <= 0xffff_ffff_ffff_ffff,
            s <= 0x4000,
    ;
    let lhs: u128 = dd * (s as u128);
    let rhs: u128 = num * num;
    proof {
        let (ix, iy, iz) = (x as int - center.0 as int, y as int - center.1 as int, z as int
            - center.2 as int);
        assert(square(ix) == dx * dx) by (nonlinear_arith)
            requires
                dx == ix || dx == -ix,
        ;
        assert(square(iy) == dy * dy) by (nonlinear_arith)
            requires
                dy == iy || dy == -iy,
        ;
        assert(square(iz) == dz * dz) by (nonlinear_arith)
            requires
                dz == iz || dz == -iz,
        ;
    }
    lhs <= rhs
}

/// Offsets beyond `bound` along one axis, where `bound + 1` exceeds the
/// radius, are outside the ball whatever the other two offsets.
proof fn lemma_beyond_bound(d: int, e: int, f: int, num: int, den: int, bound: int)
    requires
        den > 0,
        num >= 0,
        num < den * (bound + 1),
        d > bound || d < -bound,
        bound >= 0,
    ensures
        square(den) * (square(d) + square(e) + square(f)) > square(num),
{
    let a: int = if d >= 0 { d } else { -d };
    assert(a >= bound + 1);
    assert(den * a >= den * (bound + 1)) by (nonlinear_arith)
        requires
            den > 0,
            a >= bound + 1,
    ;
    assert(den * a > num);
    assert(square(den * a) > square(num)) by (nonlinear_arith)
        requires
            den * a > num,
            num >= 0,
    ;
    assert(square(d) == a * a) by (nonlinear_arith)
        requires
            a == d || a == -d,
    ;
    assert(square(den) * (square(d) + square(e) + square(f)) >= square(den) * square(d)) by (
    nonlinear_arith);
    assert(square(den) * square(d) == square(den * a)) by (nonlinear_arith)
        requires
            square(d) == a * a,
    ;
}

/// The lowest and highest coordinate within `bound` of `c`.
fn span_around(c: usize, bound: u64) -> (r: (usize, usize))
    requires
        c >= bound,
        c + bound < SIZE,
    ensures
        r.0 == c - bound,
        r.1 == c + bound,
{
    (c - bound as usize, c + bound as usize)
}

/// The point `bound` away from `center` along one axis lies in the ball
/// when `bound` is at most the radius.
proof fn lemma_axis_point_in_ball(num: int, den: int, bound: int)
    requires
        bound >= 0,
        den > 0,
        den * bound <= num,
    ensures
        square(den) * (square(bound) + square(0) + square(0)) <= square(num),
        square(den) * (square(-bound) + square(0) + square(0)) <= square(num),
        square(den) * (square(0) + square(bound) + square(0)) <= square(num),
        square(den) * (square(0) + square(-bound) + square(0)) <= square(num),
        square(den) * (square(0) + square(0) + square(bound)) <= square(num),
        square(den) * (square(0) + square(0) + square(-bound)) <= square(num),
{
    assert(square(den) * square(bound) == square(den * bound)) by (nonlinear_arith);
    assert(square(den * bound) <= square(num)) by (nonlinear_arith)
        requires
            0 <= den * bound <= num,
    ;
    assert(square(-bound) == square(bound)) by (nonlinear_arith);
}

/// Whether the ball of `r` around `center` lies wholly inside the volume.
pub open spec fn ball_inside(center: Coords, r: Radius) -> bool {
    coords_in_range(center) && forall|x: int, y: int, z: int|
        #[trigger] in_ball(center, r, x, y, z) ==> in_range(x) && in_range(y) && in_range(z)
}

/// Whether the ball of `r` around `center` fits the volume, tested along
/// each axis with the whole part `bound` of the radius.
fn ball_fits(center: Coords, r: Radius, bound: u64) -> (b: bool)
    requires
        r.denominator > 0,
        r.denominator * bound <= r.numerator < r.denominator * (bound + 1),
    ensures
        b == ball_inside(center, r),
        b ==> center.0 >= bound && center.0 + bound < SIZE && center.1 >= bound && center.1 + bound
            < SIZE && center.2 >= bound && center.2 + bound < SIZE,
{
    let (cx, cy, cz) = center;
    let fits = cx < SIZE && cy < SIZE && cz < SIZE && cx as u64 >= bound && cx as u64 + bound < 64
        && cy as u64 >= bound && cy as u64 + bound < 64 && cz as u64 >= bound && cz as u64 + bound
        < 64;
    let ghost (num, den, b) = (r.numerator as int, r.denominator as int, bound as int);
    proof {
        lemma_axis_point_in_ball(num, den, b);
        assert(square(0) == 0);
        assert(square(num) >= 0) by (nonlinear_arith);
        assert(square(den) * (square(0) + square(0) + square(0)) == 0) by (nonlinear_arith);
        assert(in_ball(center, r, cx as int, cy as int, cz as int));
        if fits {
            assert forall|x: int, y: int, z: int| #[trigger]
                in_ball(center, r, x, y, z) implies in_range(x) && in_range(y) && in_range(z) by {
                if x > cx + b || x < cx - b {
                    lemma_beyond_bound(x - cx, y - cy, z - cz, num, den, b);
                }
                if y > cy + b || y < cy - b {
                    lemma_beyond_bound(y - cy, x - cx, z - cz, num, den, b);
                    assert(square(den) * (square(y - cy) + square(x - cx) + square(z - cz))
                        == square(den) * (square(x - cx) + square(y - cy) + square(z - cz)));
                }
                if z > cz + b || z < cz - b {
                    lemma_beyond_bound(z - cz, x - cx, y - cy, num, den, b);
                    assert(square(den) * (square(z - cz) + square(x - cx) + square(y - cy))
                        == square(den) * (square(x - cx) + square(y - cy) + square(z - cz)));
                }
            }
        } else if coords_in_range(center) {
            if cx < b {
                assert(in_ball(center, r, cx - b, cy as int, cz as int));
            } else if cx + b >= 64 {
                assert(in_ball(center, r, cx + b, cy as int, cz as int));
            } else if cy < b {
                assert(in_ball(center, r, cx as int, cy - b, cz as int));
            } else if cy + b >= 64 {
                assert(in_ball(center, r, cx as int, cy + b, cz as int));
            } else if cz < b {
                assert(in_ball(center, r, cx as int, cy as int, cz - b));
            } else {
                assert(in_ball(center, r, cx as int, cy as int, cz + b));
            }
        }
    }
    fits
}

/// The column word `(y, z)` of the ball: bit `x` is set exactly when voxel
/// `(x, y, z)` lies within `r` of `center`.
fn ball_row_mask(center: Coords, r: Radius, bound: u64, y: usize, z: usize) -> (m: u64)
    requires
        coords_in_range(center),
        center.0 >= bound,
        center.0 + bound < SIZE,
        r.denominator > 0,
        r.numerator < r.denominator * (bound + 1),
        y < SIZE,
        z < SIZE,
    ensures
        forall|x: int| 0 <= x < 64 ==> (#[trigger] bit_set(m, x) <==> in_ball(center, r, x, y as int, z as int)),
{
    let (lo, hi) = span_around(center.0, bound);
    let mut m: u64 = 0;
    let mut x: usize = lo;
    assert forall|i: int| 0 <= i < 64 implies !#[trigger] bit_set(0u64, i) by {
        lemma_zero_bit(i as u64);
    }
    while x <= hi
        invariant
            lo <= x <= hi + 1,
            hi < SIZE,
            coords_in_range(center),
            y < SIZE,
            z < SIZE,
            forall|i: int|
                0 <= i < 64 ==> (#[trigger] bit_set(m, i) <==> (lo <= i < x && in_ball(center, r, i, y as int, z as int))),
        decreases hi + 1 - x,
    {
        if within_ball(center, r, x, y, z) {
            let ghost prev = m;
            m = m | (1u64 << x as u64);
            assert forall|i: int| 0 <= i < 64 implies (#[trigger] bit_set(m, i) <==> (lo <= i < x + 1
                && in_ball(center, r, i, y as int, z as int))) by {
                lemma_or_bit_set(prev, 1u64 << x as u64, i);
                lemma_single_bit_set(x as u64, i);
            }
        }
        x = x + 1;
    }
    assert forall|i: int| 0 <= i < 64 implies (#[trigger] bit_set(m, i) <==> in_ball(center, r, i, y as int, z as int)) by {
        if i < lo || i > hi {
            lemma_beyond_bound(i - center.0, y - center.1, z - center.2, r.numerator as int, r.denominator as int, bound as int);
        }
    }
    m
}

impl View for VoxelGrid {
    type V = Seq<u64>;

    closed spec fn view(&self) -> Seq<u64> {
        self.data@
    }
}

/// Two volumes are equal when they hold the same bits.
impl PartialEq for VoxelGrid {
    fn eq(&self, other: &VoxelGrid) -> (r: bool) {
        if self.data.len() != other.data.len() {
            return false;
        }
        let mut i: usize = 0;
        while i < self.data.len()
            invariant
                self.data@.len() == other.data@.len(),
                i <= self.data@.len(),
                forall|j: int| 0 <= j < i ==> self.data@[j] == other.data@[j],
            decreases self.data@.len() - i,
        {
            if self.data[i] != other.data[i] {
                return false;
            }
            i = i + 1;
        }
        assert(self.data@ =~= other.data@);
        true
    }
}

impl vstd::std_specs::cmp::PartialEqSpecImpl for VoxelGrid {
    open spec fn obeys_eq_spec() -> bool {
        true
    }

    open spec fn eq_spec(&self, other: &VoxelGrid) -> bool {
        self@ == other@
    }
}

impl VoxelGrid {
    pub open spec fn wf(&self) -> bool {
        well_formed_words(self@)
    }

    /// An empty volume.
    pub fn new() -> (r: Self)
        ensures
            r.wf(),
            r@ == empty_words(),
            forall|x: int, y: int, z: int|
                in_range(x) && in_range(y) && in_range(z) ==> !#[trigger] voxel(r@, x, y, z),
    {
        let data = vec![0u64; WORDS];
        let r = VoxelGrid { data };
        assert(r@ =~= empty_words());
        assert forall|x: int, y: int, z: int|
            in_range(x) && in_range(y) && in_range(z) implies !#[trigger] voxel(r@, x, y, z) by {
            lemma_zero_bit(x as u64);
        }
        r
    }

    /// Occupancy bit of voxel `(x, y, z)`, with no range check.
    pub(crate) fn bit(&self, x: usize, y: usize, z: usize) -> (r: u64)
        requires
            self.wf(),
            x < SIZE,
            y < SIZE,
            z < SIZE,
        ensures
            r == occupancy(self@, x as int, y as int, z as int),
    {
        let line = self.data[z * 64 + y];
        let r = (line >> (x as u64)) & 1;
        assert(r == 0 || r == 1) by (bit_vector)
            requires
                r == (line >> (x as u64)) & 1,
        ;
        r
    }

    /// Occupancy of voxel `pos` as 0 or 1.
    pub fn read(&self, pos: Coords) -> (r: Result<u64, VoxelError>)
        requires
            self.wf(),
        ensures
            coords_in_range(pos) ==> r == Ok::<u64, VoxelError>(
                occupancy(self@, pos.0 as int, pos.1 as int, pos.2 as int),
            ),
            !coords_in_range(pos) ==> r == Err::<u64, VoxelError>(
                VoxelError::CoordinateOutOfRange,
            ),
    {
        if pos.0 < SIZE && pos.1 < SIZE && pos.2 < SIZE {
            Ok(self.bit(pos.0, pos.1, pos.2))
        } else {
            Err(VoxelError::CoordinateOutOfRange)
        }
    }

    /// Union: every voxel set in `other` becomes set in `self`.
    pub fn add(&mut self, other: &Self)
        requires
            old(self).wf(),
            other.wf(),
        ensures
            final(self).wf(),
            final(self)@ == union_words(old(self)@, other@),
    {
        let mut i: usize = 0;
        while i < WORDS
            invariant
                self.data@.len() == WORDS,
                other.data@.len() == WORDS,
                0 <= i <= WORDS,
                forall|j: int| 0 <= j < i ==> self.data@[j] == old(self).data@[j] | other.data@[j],
                forall|j: int| i <= j < WORDS ==> self.data@[j] == old(self).data@[j],
            decreases WORDS - i,
        {
            let merged = self.data[i] | other.data[i];
            self.data.set(i, merged);
            i = i + 1;
        }
        assert(self@ =~= union_words(old(self)@, other@));
    }

    /// Difference: every voxel set in `other` becomes clear in `self`.
    pub fn subtract(&mut self, other: &Self)
        requires
            old(self).wf(),
            other.wf(),
        ensures
            final(self).wf(),
            final(self)@ == difference_words(old(self)@, other@),
    {
        let mut i: usize = 0;
        while i < WORDS
            invariant
                self.data@.len() == WORDS,
                other.data@.len() == WORDS,
                0 <= i <= WORDS,
                forall|j: int| 0 <= j < i ==> self.data@[j] == old(self).data@[j] & !other.data@[j],
                forall|j: int| i <= j < WORDS ==> self.data@[j] == old(self).data@[j],
            decreases WORDS - i,
        {
            let kept = self.data[i] & !other.data[i];
            self.data.set(i, kept);
            i = i + 1;
        }
        assert(self@ =~= difference_words(old(self)@, other@));
    }

    /// Sets every voxel with `min.0 <= x < max.0`, `min.1 <= y <= max.1`
    /// and `min.2 <= z <= max.2`. The box must lie in the volume: the x
    /// bounds at most `SIZE`, the y and z bounds below `SIZE`; otherwise
    /// nothing changes and the error is returned.
    pub fn paint_cube(&mut self, min: Coords, max: Coords) -> (r: Result<(), VoxelError>)
        requires
            old(self).wf(),
        ensures
            final(self).wf(),
            r is Ok <==> cube_in_range(min, max),
            r is Err ==> r == Err::<(), VoxelError>(VoxelError::CoordinateOutOfRange)
                && final(self)@ == old(self)@,
            r is Ok ==> forall|x: int, y: int, z: int|
                in_range(x) && in_range(y) && in_range(z) ==> #[trigger] voxel(final(self)@, x, y, z)
                    == (voxel(old(self)@, x, y, z) || in_cube(min, max, x, y, z)),
    {
        if !(min.0 <= SIZE && min.1 < SIZE && min.2 < SIZE && max.0 <= SIZE && max.1 < SIZE
            && max.2 < SIZE) {
            return Err(VoxelError::CoordinateOutOfRange);
        }
        if min.1 > max.1 || min.2 > max.2 {
            return Ok(());
        }
        let mask = span_mask(min.0, max.0);
        let ghost before = self.data@;
        let mut z: usize = min.2;
        while z <= max.2
            invariant
                self.data@.len() == WORDS,
                before == old(self).data@,
                min.2 <= z <= max.2 + 1,
                min.1 <= max.1,
                max.1 < SIZE,
                max.2 < SIZE,
                forall|yy: int, zz: int|
                    in_range(yy) && in_range(zz) ==> #[trigger] self.data@[column(yy, zz)] == if min.1
                        <= yy <= max.1 && min.2 <= zz < z {
                        before[column(yy, zz)] | mask
                    } else {
                        before[column(yy, zz)]
                    },
            decreases max.2 + 1 - z,
        {
            let mut y: usize = min.1;
            while y <= max.1
                invariant
                    self.data@.len() == WORDS,
                    min.2 <= z <= max.2,
                    min.1 <= y <= max.1 + 1,
                    max.1 < SIZE,
                    max.2 < SIZE,
                    forall|yy: int, zz: int|
                        in_range(yy) && in_range(zz) ==> #[trigger] self.data@[column(yy, zz)] == if (
                        min.1 <= yy <= max.1 && min.2 <= zz < z) || (zz == z && min.1 <= yy < y) {
                            before[column(yy, zz)] | mask
                        } else {
                            before[column(yy, zz)]
                        },
                decreases max.1 + 1 - y,
            {
                let index = z * 64 + y;
                let painted = self.data[index] | mask;
                self.data.set(index, painted);
                assert forall|yy: int, zz: int| in_range(yy) && in_range(zz) && column(yy, zz)
                    == index implies yy == y && zz == z by {}
                y = y + 1;
            }
            z = z + 1;
        }
        assert forall|x: int, y: int, z: int|
            in_range(x) && in_range(y) && in_range(z) implies #[trigger] voxel(self@, x, y, z) == (
            voxel(before, x, y, z) || in_cube(min, max, x, y, z)) by {
            lemma_or_bit_set(before[column(y, z)], mask, x);
        }
        Ok(())
    }

    /// Sets every voxel whose integer offset from `center` has a Euclidean
    /// norm of at most `radius`. The whole ball must lie in the volume;
    /// otherwise nothing changes and the error is returned.
    pub fn paint_sphere(&mut self, center: Coords, radius: Radius) -> (r: Result<(), VoxelError>)
        requires
            old(self).wf(),
            radius.denominator > 0,
        ensures
            final(self).wf(),
            r is Ok <==> ball_inside(center, radius),
            r is Err ==> r == Err::<(), VoxelError>(VoxelError::CoordinateOutOfRange)
                && final(self)@ == old(self)@,
            r is Ok ==> forall|x: int, y: int, z: int|
                in_range(x) && in_range(y) && in_range(z) ==> #[trigger] voxel(final(self)@, x, y, z)
                    == (voxel(old(self)@, x, y, z) || in_ball(center, radius, x, y, z)),
    {
        let num = radius.numerator as u64;
        let den = radius.denominator as u64;
        let bound: u64 = num / den;
        assert(den * bound <= num && num < den * (bound + 1)) by (nonlinear_arith)
            requires
                den > 0,
                bound == num as int / den as int,
        ;
        if !ball_fits(center, radius, bound) {
            return Err(VoxelError::CoordinateOutOfRange);
        }
        let (lo_y, hi_y) = span_around(center.1, bound);
        let (lo_z, hi_z) = span_around(center.2, bound);
        let ghost before = self.data@;
        let mut z: usize = lo_z;
        while z <= hi_z
            invariant
                self.data@.len() == WORDS,
                before == old(self).data@,
                lo_z <= z <= hi_z + 1,
                hi_z < SIZE,
                lo_y <= hi_y < SIZE,
                coords_in_range(center),
                radius.denominator > 0,
                radius.numerator < radius.denominator * (bound + 1),
                center.0 >= bound,
                center.0 + bound < SIZE,
                forall|xx: int, yy: int, zz: int|
                    in_range(xx) && in_range(yy) && in_range(zz) ==> #[trigger] voxel(self.data@, xx, yy, zz)
                        == (voxel(before, xx, yy, zz) || (lo_y <= yy <= hi_y && lo_z <= zz < z
                        && in_ball(center, radius, xx, yy, zz))),
            decreases hi_z + 1 - z,
        {
            let mut y: usize = lo_y;
            while y <= hi_y
                invariant
                    self.data@.len() == WORDS,
                    lo_z <= z <= hi_z,
                    hi_z < SIZE,
                    lo_y <= y <= hi_y + 1,
                    hi_y < SIZE,
                    coords_in_range(center),
                    radius.denominator > 0,
                    radius.numerator < radius.denominator * (bound + 1),
                    center.0 >= bound,
                    center.0 + bound < SIZE,
                    forall|xx: int, yy: int, zz: int|
                        in_range(xx) && in_range(yy) && in_range(zz) ==> #[trigger] voxel(self.data@, xx, yy, zz)
                            == (voxel(before, xx, yy, zz) || (((lo_y <= yy <= hi_y && lo_z <= zz < z)
                            || (zz == z && lo_y <= yy < y)) && in_ball(center, radius, xx, yy, zz))),
                decreases hi_y + 1 - y,
            {
                let m = ball_row_mask(center, radius, bound, y, z);
                let index = z * 64 + y;
                let ghost prev = self.data@;
                let painted = self.data[index] | m;
                self.data.set(index, painted);
                assert forall|xx: int, yy: int, zz: int|
                    in_range(xx) && in_range(yy) && in_range(zz) implies #[trigger] voxel(self.data@, xx, yy, zz)
                        == (voxel(before, xx, yy, zz) || (((lo_y <= yy <= hi_y && lo_z <= zz < z)
                        || (zz == z && lo_y <= yy < y + 1)) && in_ball(center, radius, xx, yy, zz))) by {
                    if column(yy, zz) == index {
                        assert(yy == y && zz == z);
                        lemma_or_bit_set(prev[index as int], m, xx);
                        assert(self.data@[column(yy, zz)] == prev[index as int] | m);
                        assert(bit_set(m, xx) == in_ball(center, radius, xx, yy, zz));
                        assert(voxel(prev, xx, yy, zz) == bit_set(prev[index as int], xx));
                    } else {
                        assert(voxel(prev, xx, yy, zz) == voxel(self.data@, xx, yy, zz));
                    }
                }
                y = y + 1;
            }
            z = z + 1;
        }
        assert forall|x: int, y: int, z: int|
            in_range(x) && in_range(y) && in_range(z) implies #[trigger] voxel(self@, x, y, z) == (
            voxel(before, x, y, z) || in_ball(center, radius, x, y, z)) by {
            if y < lo_y || y > hi_y {
                lemma_beyond_bound(y - center.1, x - center.0, z - center.2, num as int, den as int, bound as int);
            } else if z < lo_z || z > hi_z {
                lemma_beyond_bound(z - center.2, x - center.0, y - center.1, num as int, den as int, bound as int);
            }
        }
        Ok(())
    }
}

} // verus!
