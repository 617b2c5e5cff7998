use vstd::prelude::*;

use crate::voxels::{voxel, VoxelGrid, SIZE};

verus! {

/// Number of cells along each axis: a cell spans two voxels per axis.
pub const CELLS: usize = 63;

/// Length of the per-cell lookup table: one slot per voxel position.
pub const LOOKUP_LEN: usize = 262144;

/// One mesh vertex. It stands at the center of cell `cell`, that is at
/// `(x + 0.5, y + 0.5, z + 0.5)`; `normal` is the unnormalized sum of the
/// unit normals of the faces around it.
#[derive(Debug, Clone, Copy, PartialEq, Eq)]
pub struct VertexData {
    pub cell: (u32, u32, u32),
    pub normal: (i32, i32, i32),
}

/// Bytes that one vertex takes in an upload buffer: six 4-byte floats.
pub const VERTEX_BYTES: usize = 24;

/// Bytes that one index takes in an upload buffer.
pub const INDEX_BYTES: usize = 4;

/// Errors of the mesh consumer.
#[derive(Debug, Clone, Copy, PartialEq, Eq, Structural)]
pub enum MeshError {
    /// The vertices or the indices do not fit their upload buffer.
    MeshCapacityExceeded,
}

/// Whether `vertex_count` vertices and `index_count` indices each fit an
/// upload buffer of `buffer_bytes` bytes.
pub open spec fn fits_buffers(vertex_count: int, index_count: int, buffer_bytes: int) -> bool {
    vertex_count * VERTEX_BYTES <= buffer_bytes && index_count * INDEX_BYTES <= buffer_bytes
}

/// Checks that a mesh fits two upload buffers of `buffer_bytes` bytes each.
pub fn check_capacity(vertices: &Vec<VertexData>, indices: &Vec<u32>, buffer_bytes: usize) -> (r:
    Result<(), MeshError>)
    ensures
        r is Ok <==> fits_buffers(vertices@.len() as int, indices@.len() as int, buffer_bytes as int),
        r is Err ==> r == Err::<(), MeshError>(MeshError::MeshCapacityExceeded),
{
    let vertex_limit = buffer_bytes / VERTEX_BYTES;
    let index_limit = buffer_bytes / INDEX_BYTES;
    if vertices.len() <= vertex_limit && indices.len() <= index_limit {
        assert(vertices@.len() * 24 <= buffer_bytes) by (nonlinear_arith)
            requires
                vertices@.len() <= vertex_limit,
                vertex_limit == buffer_bytes as int / 24,
        ;
        assert(indices@.len() * 4 <= buffer_bytes) by (nonlinear_arith)
            requires
                indices@.len() <= index_limit,
                index_limit == buffer_bytes as int / 4,
        ;
        Ok(())
    } else {
        assert(!fits_buffers(vertices@.len() as int, indices@.len() as int, buffer_bytes as int))
            by (nonlinear_arith)
            requires
                vertices@.len() > vertex_limit || indices@.len() > index_limit,
                vertex_limit == buffer_bytes as int / 24,
                index_limit == buffer_bytes as int / 4,
        ;
        Err(MeshError::MeshCapacityExceeded)
    }
}

/// The axis along which two neighbouring voxels are compared.
#[derive(Debug, Clone, Copy, PartialEq, Eq, Structural)]
pub enum Axis {
    X,
    Y,
    Z,
}

/// Occupancy of voxel `(x, y, z)` as 0 or 1.
pub open spec fn occ(w: Seq<u64>, x: int, y: int, z: int) -> int {
    if voxel(w, x, y, z) {
        1
    } else {
        0
    }
}

/// How many of the eight corner voxels of cell `(x, y, z)` are set.
pub open spec fn corner_count(w: Seq<u64>, x: int, y: int, z: int) -> int {
    occ(w, x, y, z) + occ(w, x + 1, y, z) + occ(w, x + 1, y + 1, z) + occ(w, x, y + 1, z) + occ(
        w,
        x,
        y,
        z + 1,
    ) + occ(w, x + 1, y, z + 1) + occ(w, x + 1, y + 1, z + 1) + occ(w, x, y + 1, z + 1)
}

/// A cell whose corners are neither all set nor all clear.
pub open spec fn is_boundary(w: Seq<u64>, x: int, y: int, z: int) -> bool {
    0 < corner_count(w, x, y, z) < 8
}

pub open spec fn in_cells(c: int) -> bool {
    0 <= c < CELLS
}

/// Position `(x, y, z)` of the point that has coordinate `a` along `ax` and
/// coordinates `p`, `q` along the two other axes (for `X`: y, z; for `Y`:
/// x, z; for `Z`: x, y).
pub open spec fn to_xyz(ax: Axis, a: int, p: int, q: int) -> (int, int, int) {
    match ax {
        Axis::X => (a, p, q),
        Axis::Y => (p, a, q),
        Axis::Z => (p, q, a),
    }
}

pub open spec fn voxel_at(w: Seq<u64>, c: (int, int, int)) -> bool {
    voxel(w, c.0, c.1, c.2)
}

/// Direction of the face between voxel `a` and voxel `a + 1` along `ax`:
/// 0 where both are alike, +1 where the lower one is set, -1 where the
/// upper one is set. The face points away from the set voxel.
pub open spec fn face_sign(w: Seq<u64>, ax: Axis, a: int, p: int, q: int) -> int {
    let lower = voxel_at(w, to_xyz(ax, a, p, q));
    let upper = voxel_at(w, to_xyz(ax, a + 1, p, q));
    if lower == upper {
        0
    } else if lower {
        1
    } else {
        -1
    }
}

/// The faces that the scan visits lie at `1 <= p < CELLS`, `1 <= q < CELLS`.
pub open spec fn face_term(w: Seq<u64>, ax: Axis, a: int, p: int, q: int) -> int {
    if 1 <= p < CELLS && 1 <= q < CELLS {
        face_sign(w, ax, a, p, q)
    } else {
        0
    }
}

/// Component along `ax` of the normal of the cell with coordinate `a`
/// along `ax` and `p`, `q` across it: the sum over the (up to) four faces
/// around the cell's edge along `ax`.
pub open spec fn normal_along(w: Seq<u64>, ax: Axis, a: int, p: int, q: int) -> int {
    face_term(w, ax, a, p, q) + face_term(w, ax, a, p + 1, q) + face_term(w, ax, a, p, q + 1)
        + face_term(w, ax, a, p + 1, q + 1)
}

/// The vertex of cell `(x, y, z)`.
pub open spec fn vertex_at(w: Seq<u64>, x: int, y: int, z: int) -> VertexData {
    VertexData {
        cell: (x as u32, y as u32, z as u32),
        normal: (
            normal_along(w, Axis::X, x, y, z) as i32,
            normal_along(w, Axis::Y, y, x, z) as i32,
            normal_along(w, Axis::Z, z, x, y) as i32,
        ),
    }
}

/// Vertices of the boundary cells `(x, y, z)` with `x < n`.
pub open spec fn cell_row(w: Seq<u64>, y: int, z: int, n: nat) -> Seq<VertexData>
    decreases n,
{
    if n == 0 {
        Seq::empty()
    } else {
        let x = n - 1;
        cell_row(w, y, z, (n - 1) as nat) + if is_boundary(w, x, y, z) {
            seq![vertex_at(w, x, y, z)]
        } else {
            Seq::empty()
        }
    }
}

/// Vertices of the boundary cells of layer `z` with `y < n`, row by row.
pub open spec fn cell_plane(w: Seq<u64>, z: int, n: nat) -> Seq<VertexData>
    decreases n,
{
    if n == 0 {
        Seq::empty()
    } else {
        cell_plane(w, z, (n - 1) as nat) + cell_row(w, n - 1, z, CELLS as nat)
    }
}

/// Vertices of the boundary cells with `z < n`, layer by layer.
pub open spec fn cell_volume(w: Seq<u64>, n: nat) -> Seq<VertexData>
    decreases n,
{
    if n == 0 {
        Seq::empty()
    } else {
        cell_volume(w, (n - 1) as nat) + cell_plane(w, n - 1, CELLS as nat)
    }
}

/// The vertex list: one vertex per boundary cell, in order of z, then y,
/// then x.
pub open spec fn mesh_vertices(w: Seq<u64>) -> Seq<VertexData> {
    cell_volume(w, CELLS as nat)
}

/// Index of the vertex of cell `(x, y, z)`: the number of boundary cells
/// that come before it.
pub open spec fn slot(w: Seq<u64>, x: int, y: int, z: int) -> int {
    (cell_volume(w, z as nat) + cell_plane(w, z, y as nat) + cell_row(w, y, z, x as nat)).len() as int
}

pub open spec fn slot_at(w: Seq<u64>, c: (int, int, int)) -> int {
    slot(w, c.0, c.1, c.2)
}

/// Corner `k` of the quad around the face at `(a, p, q)` along `ax`. Corners
/// 0 and 2 are the cells at `(p - 1, q - 1)` and `(p, q)`; corners 1 and 3
/// are the two others, in the order that gives the quad its winding.
pub open spec fn quad_corner(ax: Axis, a: int, p: int, q: int, k: int) -> (int, int, int) {
    if k == 0 {
        to_xyz(ax, a, p - 1, q - 1)
    } else if k == 2 {
        to_xyz(ax, a, p, q)
    } else if (k == 1) == (ax == Axis::Y) {
        to_xyz(ax, a, p, q - 1)
    } else {
        to_xyz(ax, a, p - 1, q)
    }
}

pub open spec fn corner_index(w: Seq<u64>, ax: Axis, a: int, p: int, q: int, k: int) -> u32 {
    slot_at(w, quad_corner(ax, a, p, q, k)) as u32
}

/// The two triangles of the face at `(a, p, q)` along `ax`, or nothing where
/// the two voxels are alike. The winding makes the quad face away from the
/// set voxel.
#[verifier::opaque]
pub open spec fn quad(w: Seq<u64>, ax: Axis, a: int, p: int, q: int) -> Seq<u32> {
    let s = face_sign(w, ax, a, p, q);
    let i0 = corner_index(w, ax, a, p, q, 0);
    let i1 = corner_index(w, ax, a, p, q, 1);
    let i2 = corner_index(w, ax, a, p, q, 2);
    let i3 = corner_index(w, ax, a, p, q, 3);
    if s == 0 {
        Seq::empty()
    } else if s < 0 {
        seq![i0, i1, i2, i2, i3, i0]
    } else {
        seq![i0, i3, i2, i2, i1, i0]
    }
}

/// Quads of the faces at `(a, p, q)` with `a < n`.
pub open spec fn face_row(w: Seq<u64>, ax: Axis, p: int, q: int, n: nat) -> Seq<u32>
    decreases n,
{
    if n == 0 {
        Seq::empty()
    } else {
        face_row(w, ax, p, q, (n - 1) as nat) + quad(w, ax, n - 1, p, q)
    }
}

/// Quads of the faces at `q` with `1 <= p < n`.
pub open spec fn face_plane(w: Seq<u64>, ax: Axis, q: int, n: nat) -> Seq<u32>
    decreases n,
{
    if n <= 1 {
        Seq::empty()
    } else {
        face_plane(w, ax, q, (n - 1) as nat) + face_row(w, ax, n - 1, q, CELLS as nat)
    }
}

/// Quads of the faces along `ax` with `1 <= q < n`.
pub open spec fn face_sweep(w: Seq<u64>, ax: Axis, n: nat) -> Seq<u32>
    decreases n,
{
    if n <= 1 {
        Seq::empty()
    } else {
        face_sweep(w, ax, (n - 1) as nat) + face_plane(w, ax, n - 1, CELLS as nat)
    }
}

/// The index list: the quads of the x faces, then the y faces, then the z
/// faces.
pub open spec fn mesh_indices(w: Seq<u64>) -> Seq<u32> {
    face_sweep(w, Axis::X, CELLS as nat) + face_sweep(w, Axis::Y, CELLS as nat) + face_sweep(
        w,
        Axis::Z,
        CELLS as nat,
    )
}

/// Index of voxel position `(x, y, z)` in the per-cell lookup table.
pub open spec fn flat(x: int, y: int, z: int) -> int {
    z * 4096 + y * 64 + x
}

pub open spec fn flat_at(c: (int, int, int)) -> int {
    flat(c.0, c.1, c.2)
}

/// Every boundary cell's slot in the lookup table holds the index of its
/// vertex.
#[verifier::opaque]
pub open spec fn lookup_slots(w: Seq<u64>, lookup: Seq<u32>) -> bool {
    forall|x: int, y: int, z: int|
        in_cells(x) && in_cells(y) && in_cells(z) && is_boundary(w, x, y, z) ==> #[trigger] lookup[flat(
            x,
            y,
            z,
        )] as int == slot(w, x, y, z)
}

/// The lookup table holds, for every boundary cell, the index of its vertex.
pub open spec fn lookup_complete(w: Seq<u64>, lookup: Seq<u32>) -> bool {
    lookup.len() == LOOKUP_LEN && lookup_slots(w, lookup)
}

proof fn lemma_row_monotone(w: Seq<u64>, y: int, z: int, m: nat, n: nat)
    requires
        m <= n,
    ensures
        cell_row(w, y, z, m).len() <= cell_row(w, y, z, n).len(),
    decreases n,
{
    if m < n {
        lemma_row_monotone(w, y, z, m, (n - 1) as nat);
    }
}

proof fn lemma_plane_monotone(w: Seq<u64>, z: int, m: nat, n: nat)
    requires
        m <= n,
    ensures
        cell_plane(w, z, m).len() <= cell_plane(w, z, n).len(),
    decreases n,
{
    if m < n {
        lemma_plane_monotone(w, z, m, (n - 1) as nat);
    }
}

proof fn lemma_volume_monotone(w: Seq<u64>, m: nat, n: nat)
    requires
        m <= n,
    ensures
        cell_volume(w, m).len() <= cell_volume(w, n).len(),
    decreases n,
{
    if m < n {
        lemma_volume_monotone(w, m, (n - 1) as nat);
    }
}

/// The vertex of a boundary cell is in the vertex list.
proof fn lemma_slot_in_range(w: Seq<u64>, x: int, y: int, z: int)
    requires
        in_cells(x),
        in_cells(y),
        in_cells(z),
        is_boundary(w, x, y, z),
    ensures
        0 <= slot(w, x, y, z) < mesh_vertices(w).len(),
{
    assert(cell_row(w, y, z, (x + 1) as nat).len() == cell_row(w, y, z, x as nat).len() + 1);
    lemma_row_monotone(w, y, z, (x + 1) as nat, CELLS as nat);
    assert(cell_plane(w, z, (y + 1) as nat) == cell_plane(w, z, y as nat) + cell_row(
        w,
        y,
        z,
        CELLS as nat,
    ));
    lemma_plane_monotone(w, z, (y + 1) as nat, CELLS as nat);
    assert(cell_volume(w, (z + 1) as nat) == cell_volume(w, z as nat) + cell_plane(
        w,
        z,
        CELLS as nat,
    ));
    lemma_volume_monotone(w, (z + 1) as nat, CELLS as nat);
}

/// The four cells around a face between two unlike voxels are boundary
/// cells.
proof fn lemma_quad_corners_boundary(w: Seq<u64>, ax: Axis, a: int, p: int, q: int, k: int)
    requires
        in_cells(a),
        1 <= p < CELLS,
        1 <= q < CELLS,
        0 <= k < 4,
        face_sign(w, ax, a, p, q) != 0,
    ensures
        ({
            let c = quad_corner(ax, a, p, q, k);
            in_cells(c.0) && in_cells(c.1) && in_cells(c.2) && is_boundary(w, c.0, c.1, c.2)
        }),
{
    let c = quad_corner(ax, a, p, q, k);
    match ax {
        Axis::X => {
            assert(0 < corner_count(w, c.0, c.1, c.2) < 8);
        },
        Axis::Y => {
            assert(0 < corner_count(w, c.0, c.1, c.2) < 8);
        },
        Axis::Z => {
            assert(0 < corner_count(w, c.0, c.1, c.2) < 8);
        },
    }
}

/// The lookup table gives the vertex of each corner of a face between two
/// unlike voxels, and that vertex is in the list.
proof fn lemma_corner_lookup(w: Seq<u64>, lookup: Seq<u32>, ax: Axis, a: int, p: int, q: int, k: int)
    requires
        lookup_complete(w, lookup),
        in_cells(a),
        1 <= p < CELLS,
        1 <= q < CELLS,
        0 <= k < 4,
        face_sign(w, ax, a, p, q) != 0,
    ensures
        lookup[flat_at(quad_corner(ax, a, p, q, k))] == corner_index(w, ax, a, p, q, k),
        (corner_index(w, ax, a, p, q, k) as int) < mesh_vertices(w).len(),
{
    reveal(lookup_slots);
    lemma_quad_corners_boundary(w, ax, a, p, q, k);
    let c = quad_corner(ax, a, p, q, k);
    lemma_slot_in_range(w, c.0, c.1, c.2);
    assert(lookup[flat(c.0, c.1, c.2)] as int == slot(w, c.0, c.1, c.2));
}

proof fn lemma_quad_shape(w: Seq<u64>, ax: Axis, a: int, p: int, q: int)
    ensures
        ({
            let i0 = corner_index(w, ax, a, p, q, 0);
            let i1 = corner_index(w, ax, a, p, q, 1);
            let i2 = corner_index(w, ax, a, p, q, 2);
            let i3 = corner_index(w, ax, a, p, q, 3);
            let s = face_sign(w, ax, a, p, q);
            &&& s == 0 ==> quad(w, ax, a, p, q) == Seq::<u32>::empty()
            &&& s < 0 ==> quad(w, ax, a, p, q) == seq![i0, i1, i2, i2, i3, i0]
            &&& s > 0 ==> quad(w, ax, a, p, q) == seq![i0, i3, i2, i2, i1, i0]
        }),
{
    reveal(quad);
}

/// The point with coordinate `a` along `ax` and `p`, `q` across it.
fn frame(ax: Axis, a: usize, p: usize, q: usize) -> (r: (usize, usize, usize))
    ensures
        (r.0 as int, r.1 as int, r.2 as int) == to_xyz(ax, a as int, p as int, q as int),
{
    match ax {
        Axis::X => (a, p, q),
        Axis::Y => (p, a, q),
        Axis::Z => (p, q, a),
    }
}

/// Lookup-table index of corner `k` of the quad around face `(a, p, q)`.
fn corner_flat(ax: Axis, a: usize, p: usize, q: usize, k: usize) -> (r: usize)
    requires
        a < CELLS,
        1 <= p < CELLS,
        1 <= q < CELLS,
        k < 4,
    ensures
        r as int == flat_at(quad_corner(ax, a as int, p as int, q as int, k as int)),
        r < LOOKUP_LEN,
{
    let (dp, dq): (usize, usize) = if k == 0 {
        (1, 1)
    } else if k == 2 {
        (0, 0)
    } else if (k == 1) == (ax == Axis::Y) {
        (0, 1)
    } else {
        (1, 0)
    };
    let (x, y, z) = frame(ax, a, p - dp, q - dq);
    z * 4096 + y * 64 + x
}

impl VoxelGrid {
    /// Number of set corner voxels of cell `(x, y, z)`.
    fn corner_total(&self, x: usize, y: usize, z: usize) -> (r: u64)
        requires
            self.wf(),
            x < CELLS,
            y < CELLS,
            z < CELLS,
        ensures
            r as int == corner_count(self@, x as int, y as int, z as int),
    {
        self.bit(x, y, z) + self.bit(x + 1, y, z) + self.bit(x + 1, y + 1, z) + self.bit(x, y + 1, z)
            + self.bit(x, y, z + 1) + self.bit(x + 1, y, z + 1) + self.bit(x + 1, y + 1, z + 1)
            + self.bit(x, y + 1, z + 1)
    }

    /// Contribution of the face at `(a, p, q)` along `ax` to the normals
    /// around it.
    fn face_contribution(&self, ax: Axis, a: usize, p: usize, q: usize) -> (r: i32)
        requires
            self.wf(),
            a < CELLS,
            p < SIZE,
            q < SIZE,
        ensures
            r as int == face_term(self@, ax, a as int, p as int, q as int),
            -1 <= r <= 1,
    {
        if 1 <= p && p < CELLS && 1 <= q && q < CELLS {
            let (x0, y0, z0) = frame(ax, a, p, q);
            let (x1, y1, z1) = frame(ax, a + 1, p, q);
            let lower = self.bit(x0, y0, z0);
            let upper = self.bit(x1, y1, z1);
            if lower == upper {
                0
            } else if lower == 1 {
                1
            } else {
                -1
            }
        } else {
            0
        }
    }

    /// Normal component along `ax` of the cell at `(a, p, q)`.
    fn normal_component(&self, ax: Axis, a: usize, p: usize, q: usize) -> (r: i32)
        requires
            self.wf(),
            a < CELLS,
            p < CELLS,
            q < CELLS,
        ensures
            r as int == normal_along(self@, ax, a as int, p as int, q as int),
    {
        self.face_contribution(ax, a, p, q) + self.face_contribution(ax, a, p + 1, q)
            + self.face_contribution(ax, a, p, q + 1) + self.face_contribution(ax, a, p + 1, q + 1)
    }

    /// The vertex of cell `(x, y, z)`.
    fn vertex(&self, x: usize, y: usize, z: usize) -> (v: VertexData)
        requires
            self.wf(),
            x < CELLS,
            y < CELLS,
            z < CELLS,
        ensures
            v == vertex_at(self@, x as int, y as int, z as int),
    {
        VertexData {
            cell: (x as u32, y as u32, z as u32),
            normal: (
                self.normal_component(Axis::X, x, y, z),
                self.normal_component(Axis::Y, y, x, z),
                self.normal_component(Axis::Z, z, x, y),
            ),
        }
    }

    /// First phase: one vertex per boundary cell, and the table from cell
    /// to vertex index.
    fn place_vertices(&self) -> (r: (Vec<VertexData>, Vec<u32>))
        requires
            self.wf(),
        ensures
            r.0@ == mesh_vertices(self@),
            lookup_complete(self@, r.1@),
    {
        let ghost w = self@;
        let mut vertices: Vec<VertexData> = Vec::new();
        let mut lookup: Vec<u32> = vec![0u32; LOOKUP_LEN];
        let mut z: usize = 0;
        while z < CELLS
            invariant
                self.wf(),
                w == self@,
                z <= CELLS,
                vertices@ == cell_volume(w, z as nat),
                vertices@.len() <= z * 3969,
                lookup@.len() == LOOKUP_LEN,
                forall|cx: int, cy: int, cz: int|
                    in_cells(cx) && in_cells(cy) && 0 <= cz < z && is_boundary(w, cx, cy, cz)
                        ==> #[trigger] lookup@[flat(cx, cy, cz)] as int == slot(w, cx, cy, cz),
            decreases CELLS - z,
        {
            let mut y: usize = 0;
            while y < CELLS
                invariant
                    self.wf(),
                    w == self@,
                    z < CELLS,
                    y <= CELLS,
                    vertices@ == cell_volume(w, z as nat) + cell_plane(w, z as int, y as nat),
                    vertices@.len() <= z * 3969 + y * 63,
                    lookup@.len() == LOOKUP_LEN,
                    forall|cx: int, cy: int, cz: int|
                        in_cells(cx) && in_cells(cy) && in_cells(cz) && (cz < z || (cz == z && cy
                            < y)) && is_boundary(w, cx, cy, cz) ==> #[trigger] lookup@[flat(
                            cx,
                            cy,
                            cz,
                        )] as int == slot(w, cx, cy, cz),
                decreases CELLS - y,
            {
                let mut x: usize = 0;
                while x < CELLS
                    invariant
                        self.wf(),
                        w == self@,
                        z < CELLS,
                        y < CELLS,
                        x <= CELLS,
                        vertices@ == cell_volume(w, z as nat) + cell_plane(w, z as int, y as nat)
                            + cell_row(w, y as int, z as int, x as nat),
                        vertices@.len() <= z * 3969 + y * 63 + x,
                        lookup@.len() == LOOKUP_LEN,
                        forall|cx: int, cy: int, cz: int|
                            in_cells(cx) && in_cells(cy) && in_cells(cz) && (cz < z || (cz == z
                                && cy < y) || (cz == z && cy == y && cx < x)) && is_boundary(
                                w,
                                cx,
                                cy,
                                cz,
                            ) ==> #[trigger] lookup@[flat(cx, cy, cz)] as int == slot(w, cx, cy, cz),
                    decreases CELLS - x,
                {
                    let count = self.corner_total(x, y, z);
                    let ghost before = vertices@;
                    if count > 0 && count < 8 {
                        let index = z * 4096 + y * 64 + x;
                        lookup.set(index, vertices.len() as u32);
                        let v = self.vertex(x, y, z);
                        vertices.push(v);
                        assert forall|cx: int, cy: int, cz: int|
                            in_cells(cx) && in_cells(cy) && in_cells(cz) && (cz < z || (cz == z
                                && cy < y) || (cz == z && cy == y && cx < x + 1)) && is_boundary(
                                w,
                                cx,
                                cy,
                                cz,
                            ) implies #[trigger] lookup@[flat(cx, cy, cz)] as int == slot(
                            w,
                            cx,
                            cy,
                            cz,
                        ) by {
                            if flat(cx, cy, cz) == index {
                                assert(cx == x && cy == y && cz == z);
                            }
                        }
                    }
                    assert(vertices@ =~= cell_volume(w, z as nat) + cell_plane(w, z as int, y as nat)
                        + cell_row(w, y as int, z as int, (x + 1) as nat));
                    x = x + 1;
                }
                assert(vertices@ =~= cell_volume(w, z as nat) + cell_plane(
                    w,
                    z as int,
                    (y + 1) as nat,
                ));
                y = y + 1;
            }
            assert(vertices@ =~= cell_volume(w, (z + 1) as nat));
            z = z + 1;
        }
        proof {
            reveal(lookup_slots);
        }
        (vertices, lookup)
    }

    /// Vertex indices of the four corners of the face at `(a, p, q)` along
    /// `ax`, whose two voxels differ.
    fn quad_indices(&self, ax: Axis, a: usize, p: usize, q: usize, lookup: &Vec<u32>) -> (r: (u32, u32, u32, u32))
        requires
            self.wf(),
            lookup_complete(self@, lookup@),
            a < CELLS,
            1 <= p < CELLS,
            1 <= q < CELLS,
            face_sign(self@, ax, a as int, p as int, q as int) != 0,
        ensures
            r.0 == corner_index(self@, ax, a as int, p as int, q as int, 0),
            r.1 == corner_index(self@, ax, a as int, p as int, q as int, 1),
            r.2 == corner_index(self@, ax, a as int, p as int, q as int, 2),
            r.3 == corner_index(self@, ax, a as int, p as int, q as int, 3),
            (r.0 as int) < mesh_vertices(self@).len(),
            (r.1 as int) < mesh_vertices(self@).len(),
            (r.2 as int) < mesh_vertices(self@).len(),
            (r.3 as int) < mesh_vertices(self@).len(),
    {
        proof {
            let (w, ai, pi, qi) = (self@, a as int, p as int, q as int);
            lemma_corner_lookup(w, lookup@, ax, ai, pi, qi, 0);
            lemma_corner_lookup(w, lookup@, ax, ai, pi, qi, 1);
            lemma_corner_lookup(w, lookup@, ax, ai, pi, qi, 2);
            lemma_corner_lookup(w, lookup@, ax, ai, pi, qi, 3);
        }
        (
            lookup[corner_flat(ax, a, p, q, 0)],
            lookup[corner_flat(ax, a, p, q, 1)],
            lookup[corner_flat(ax, a, p, q, 2)],
            lookup[corner_flat(ax, a, p, q, 3)],
        )
    }

    /// The quad of the face at `(a, p, q)` along `ax`, if its two voxels
    /// differ.
    fn emit_face(&self, ax: Axis, a: usize, p: usize, q: usize, lookup: &Vec<u32>, indices: &mut Vec<u32>)
        requires
            self.wf(),
            lookup_complete(self@, lookup@),
            a < CELLS,
            1 <= p < CELLS,
            1 <= q < CELLS,
            old(indices)@.len() % 3 == 0,
            forall|i: int|
                0 <= i < old(indices)@.len() ==> (#[trigger] old(indices)@[i] as int) < mesh_vertices(
                    self@,
                ).len(),
        ensures
            final(indices)@ == old(indices)@ + quad(self@, ax, a as int, p as int, q as int),
            final(indices)@.len() % 3 == 0,
            forall|i: int|
                0 <= i < final(indices)@.len() ==> (#[trigger] final(indices)@[i] as int)
                    < mesh_vertices(self@).len(),
    {
        let ghost w = self@;
        let ghost before = indices@;
        let (x0, y0, z0) = frame(ax, a, p, q);
        let (x1, y1, z1) = frame(ax, a + 1, p, q);
        let lower = self.bit(x0, y0, z0);
        let upper = self.bit(x1, y1, z1);
        proof {
            lemma_quad_shape(w, ax, a as int, p as int, q as int);
        }
        if lower != upper {
            let (i0, i1, i2, i3) = self.quad_indices(ax, a, p, q, lookup);
            let six = if lower < upper {
                [i0, i1, i2, i2, i3, i0]
            } else {
                [i0, i3, i2, i2, i1, i0]
            };
            let mut k: usize = 0;
            while k < 6
                invariant
                    k <= 6,
                    indices@ == before + six@.take(k as int),
                decreases 6 - k,
            {
                indices.push(six[k]);
                assert(six@.take(k + 1) =~= six@.take(k as int).push(six@[k as int]));
                k = k + 1;
            }
            assert(six@.take(6) =~= six@);
            assert(six@ =~= quad(w, ax, a as int, p as int, q as int));
        } else {
            assert(indices@ =~= before + quad(w, ax, a as int, p as int, q as int));
        }
    }

    /// Second phase, for one axis: the quad of every face between two
    /// unlike voxels, in scan order.
    fn emit_faces(&self, ax: Axis, lookup: &Vec<u32>, indices: &mut Vec<u32>)
        requires
            self.wf(),
            lookup_complete(self@, lookup@),
            old(indices)@.len() % 3 == 0,
            forall|i: int|
                0 <= i < old(indices)@.len() ==> (#[trigger] old(indices)@[i] as int) < mesh_vertices(
                    self@,
                ).len(),
        ensures
            final(indices)@ == old(indices)@ + face_sweep(self@, ax, CELLS as nat),
            final(indices)@.len() % 3 == 0,
            forall|i: int|
                0 <= i < final(indices)@.len() ==> (#[trigger] final(indices)@[i] as int)
                    < mesh_vertices(self@).len(),
    {
        let ghost w = self@;
        let ghost base = indices@;
        let ghost nv = mesh_vertices(w).len();
        let mut q: usize = 1;
        while q < CELLS
            invariant
                self.wf(),
                w == self@,
                nv == mesh_vertices(w).len(),
                lookup_complete(w, lookup@),
                1 <= q <= CELLS,
                indices@ == base + face_sweep(w, ax, q as nat),
                indices@.len() % 3 == 0,
                forall|i: int| 0 <= i < indices@.len() ==> (#[trigger] indices@[i] as int) < nv,
            decreases CELLS - q,
        {
            let mut p: usize = 1;
            while p < CELLS
                invariant
                    self.wf(),
                    w == self@,
                    nv == mesh_vertices(w).len(),
                    lookup_complete(w, lookup@),
                    1 <= q < CELLS,
                    1 <= p <= CELLS,
                    indices@ == base + face_sweep(w, ax, q as nat) + face_plane(
                        w,
                        ax,
                        q as int,
                        p as nat,
                    ),
                    indices@.len() % 3 == 0,
                    forall|i: int| 0 <= i < indices@.len() ==> (#[trigger] indices@[i] as int) < nv,
                decreases CELLS - p,
            {
                let mut a: usize = 0;
                while a < CELLS
                    invariant
                        self.wf(),
                        w == self@,
                        nv == mesh_vertices(w).len(),
                        lookup_complete(w, lookup@),
                        1 <= q < CELLS,
                        1 <= p < CELLS,
                        a <= CELLS,
                        indices@ == base + face_sweep(w, ax, q as nat) + face_plane(
                            w,
                            ax,
                            q as int,
                            p as nat,
                        ) + face_row(w, ax, p as int, q as int, a as nat),
                        indices@.len() % 3 == 0,
                        forall|i: int|
                            0 <= i < indices@.len() ==> (#[trigger] indices@[i] as int) < nv,
                    decreases CELLS - a,
                {
                    self.emit_face(ax, a, p, q, lookup, indices);
                    assert(indices@ =~= base + face_sweep(w, ax, q as nat) + face_plane(
                        w,
                        ax,
                        q as int,
                        p as nat,
                    ) + face_row(w, ax, p as int, q as int, (a + 1) as nat));
                    a = a + 1;
                }
                assert(indices@ =~= base + face_sweep(w, ax, q as nat) + face_plane(
                    w,
                    ax,
                    q as int,
                    (p + 1) as nat,
                ));
                p = p + 1;
            }
            assert(indices@ =~= base + face_sweep(w, ax, (q + 1) as nat));
            q = q + 1;
        }
    }

    /// The surface mesh of the volume: one vertex per boundary cell and two
    /// triangles per face between unlike voxels (see `mesh_vertices` and
    /// `mesh_indices`). Every index refers to a vertex of the list.
    pub fn generate_mesh(&self) -> (r: (Vec<VertexData>, Vec<u32>))
        requires
            self.wf(),
        ensures
            r.0@ == mesh_vertices(self@),
            r.1@ == mesh_indices(self@),
            r.1@.len() % 3 == 0,
            forall|i: int| 0 <= i < r.1@.len() ==> (#[trigger] r.1@[i] as int) < r.0@.len(),
    {
        let (vertices, lookup) = self.place_vertices();
        let mut indices: Vec<u32> = Vec::new();
        self.emit_faces(Axis::X, &lookup, &mut indices);
        self.emit_faces(Axis::Y, &lookup, &mut indices);
        self.emit_faces(Axis::Z, &lookup, &mut indices);
        assert(indices@ =~= mesh_indices(self@));
        (vertices, indices)
    }
}

/// The mesh is a function of the volume's bits alone: two volumes with the
/// same bits, or one volume meshed twice, give the same vertices and the
/// same indices.
pub proof fn lemma_mesh_deterministic(a: Seq<u64>, b: Seq<u64>)
    requires
        a == b,
    ensures
        mesh_vertices(a) == mesh_vertices(b),
        mesh_indices(a) == mesh_indices(b),
{
}

} // verus!
