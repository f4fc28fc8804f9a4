//! The index buffer: two triangles for every cell of the lattice.
//!
//! The cell `(lat, long)` has the lattice points `(lat, long)`,
//! `(lat + 1, long)`, `(lat, long + 1)` and `(lat + 1, long + 1)` as its
//! corners. It is split along the diagonal from `(lat + 1, long)` to
//! `(lat, long + 1)`, and its two triangles take six consecutive entries of
//! the index buffer. Cells follow each other band of latitude by band of
//! latitude.

use vstd::prelude::*;
use vstd::arithmetic::div_mod::{
    lemma_fundamental_div_mod, lemma_fundamental_div_mod_converse, lemma_mod_pos_bound,
};
use crate::grid::{
    grid_points, lemma_grid_point_of_vertex_index, lemma_vertex_index_in_range,
    lemma_vertex_index_injective, on_grid, vertex_count, vertex_index,
};

verus! {

/// Number of cells of the lattice.
pub open spec fn cell_count(lat_bands: int, long_bands: int) -> int {
    lat_bands * long_bands
}

/// Number of entries of the index buffer.
pub open spec fn index_count(lat_bands: int, long_bands: int) -> int {
    6 * cell_count(lat_bands, long_bands)
}

/// Where the `corner`-th of a cell's six index entries lies relative to the
/// cell: how many steps of latitude and of longitude away from `(lat, long)`.
pub open spec fn corner_offset(corner: int) -> (int, int) {
    if corner == 0 {
        (0, 0)
    } else if corner == 1 {
        (1, 0)
    } else if corner == 2 {
        (0, 1)
    } else if corner == 3 {
        (1, 0)
    } else if corner == 4 {
        (1, 1)
    } else {
        (0, 1)
    }
}

/// The lattice point that entry `k` of the index buffer refers to.
pub open spec fn mesh_point(k: int, long_bands: int) -> (int, int) {
    let cell = k / 6;
    let offset = corner_offset(k % 6);
    (cell / long_bands + offset.0, cell % long_bands + offset.1)
}

/// Entry `k` of the index buffer.
pub open spec fn mesh_index(k: int, long_bands: int) -> int {
    vertex_index(mesh_point(k, long_bands).0, mesh_point(k, long_bands).1, long_bands)
}

/// The whole index buffer.
pub open spec fn mesh_indices(lat_bands: int, long_bands: int) -> Seq<int> {
    Seq::new(index_count(lat_bands, long_bands) as nat, |k: int| mesh_index(k, long_bands))
}

/// Indices as mathematical integers.
pub open spec fn indices_as_ints(indices: Seq<u16>) -> Seq<int> {
    indices.map_values(|i: u16| i as int)
}

/// Whether 16-bit indices can name every vertex that a triangle uses: either
/// there is no triangle at all, or the lattice has at most 65536 vertices.
pub open spec fn indexable(lat_bands: int, long_bands: int) -> bool {
    lat_bands == 0 || long_bands == 0 || vertex_count(lat_bands, long_bands) <= 0x1_0000
}

/// Twice the signed area of the triangle `a`, `b`, `c` in lattice
/// coordinates. Its sign tells which way round the corners run.
pub open spec fn winding(a: (int, int), b: (int, int), c: (int, int)) -> int {
    (b.0 - a.0) * (c.1 - a.1) - (b.1 - a.1) * (c.0 - a.0)
}

/// Entry `k` of the index buffer belongs to cell `(lat, long)` when `k` is
/// one of the six entries that start at `6 * (lat * long_bands + long)`.
proof fn lemma_mesh_point_of_cell(lat: int, long: int, corner: int, long_bands: int)
    requires
        0 <= long < long_bands,
        0 <= corner < 6,
    ensures
        mesh_point(6 * (lat * long_bands + long) + corner, long_bands) == (
            lat + corner_offset(corner).0,
            long + corner_offset(corner).1,
        ),
{
    let cell = lat * long_bands + long;
    let k = 6 * cell + corner;
    lemma_fundamental_div_mod_converse(k, 6, cell, corner);
    lemma_fundamental_div_mod_converse(cell, long_bands, lat, long);
}

/// The cell that entry `k` of the index buffer belongs to is a cell of the
/// lattice.
proof fn lemma_cell_of_entry(k: int, lat_bands: int, long_bands: int)
    requires
        0 <= k < index_count(lat_bands, long_bands),
        0 <= lat_bands,
        0 <= long_bands,
    ensures
        0 < long_bands,
        0 <= (k / 6) / long_bands < lat_bands,
        0 <= (k / 6) % long_bands < long_bands,
        k == 6 * (((k / 6) / long_bands) * long_bands + (k / 6) % long_bands) + k % 6,
{
    let cell = k / 6;
    assert(0 < long_bands) by (nonlinear_arith)
        requires
            0 < 6 * (lat_bands * long_bands),
            0 <= lat_bands,
            0 <= long_bands,
    ;
    lemma_fundamental_div_mod(cell, long_bands);
    lemma_mod_pos_bound(cell, long_bands);
    let lat = cell / long_bands;
    let long = cell % long_bands;
    assert(lat * long_bands == long_bands * lat) by (nonlinear_arith);
    assert(0 <= lat < lat_bands) by (nonlinear_arith)
        requires
            0 < long_bands,
            0 <= long < long_bands,
            cell == lat * long_bands + long,
            0 <= cell < lat_bands * long_bands,
    ;
}

/// Every entry of the index buffer names a vertex of the lattice.
pub proof fn lemma_mesh_index_in_range(k: int, lat_bands: int, long_bands: int)
    requires
        0 <= lat_bands,
        0 <= long_bands,
        0 <= k < index_count(lat_bands, long_bands),
    ensures
        on_grid(mesh_point(k, long_bands).0, mesh_point(k, long_bands).1, lat_bands, long_bands),
        0 <= mesh_index(k, long_bands) < vertex_count(lat_bands, long_bands),
{
    lemma_cell_of_entry(k, lat_bands, long_bands);
    lemma_vertex_index_in_range(
        mesh_point(k, long_bands).0,
        mesh_point(k, long_bands).1,
        lat_bands,
        long_bands,
    );
}

/// The index buffer and the vertex buffer agree: the vertex stored at the
/// position that entry `k` names is the lattice point that entry `k` stands
/// for.
pub proof fn lemma_index_names_grid_point(k: int, lat_bands: int, long_bands: int)
    requires
        0 <= lat_bands,
        0 <= long_bands,
        0 <= k < index_count(lat_bands, long_bands),
    ensures
        0 <= mesh_index(k, long_bands) < grid_points(lat_bands, long_bands).len(),
        grid_points(lat_bands, long_bands)[mesh_index(k, long_bands)] == mesh_point(k, long_bands),
{
    lemma_mesh_index_in_range(k, lat_bands, long_bands);
    lemma_grid_point_of_vertex_index(
        mesh_point(k, long_bands).0,
        mesh_point(k, long_bands).1,
        long_bands,
    );
}

/// No triangle is degenerate: the three entries of the index buffer that
/// make up triangle `t` name three different vertices.
pub proof fn lemma_triangle_corners_differ(t: int, lat_bands: int, long_bands: int)
    requires
        0 <= lat_bands,
        0 <= long_bands,
        0 <= t < 2 * cell_count(lat_bands, long_bands),
    ensures
        mesh_index(3 * t, long_bands) != mesh_index(3 * t + 1, long_bands),
        mesh_index(3 * t, long_bands) != mesh_index(3 * t + 2, long_bands),
        mesh_index(3 * t + 1, long_bands) != mesh_index(3 * t + 2, long_bands),
{
    let a = mesh_point(3 * t, long_bands);
    let b = mesh_point(3 * t + 1, long_bands);
    let c = mesh_point(3 * t + 2, long_bands);
    lemma_mesh_index_in_range(3 * t, lat_bands, long_bands);
    lemma_mesh_index_in_range(3 * t + 1, lat_bands, long_bands);
    lemma_mesh_index_in_range(3 * t + 2, lat_bands, long_bands);
    assert(a != b && a != c && b != c);
    if mesh_index(3 * t, long_bands) == mesh_index(3 * t + 1, long_bands) {
        lemma_vertex_index_injective(a.0, a.1, b.0, b.1, long_bands);
    }
    if mesh_index(3 * t, long_bands) == mesh_index(3 * t + 2, long_bands) {
        lemma_vertex_index_injective(a.0, a.1, c.0, c.1, long_bands);
    }
    if mesh_index(3 * t + 1, long_bands) == mesh_index(3 * t + 2, long_bands) {
        lemma_vertex_index_injective(b.0, b.1, c.0, c.1, long_bands);
    }
}

/// All triangles run the same way round, and each covers half a cell: in
/// lattice coordinates every triangle has twice the signed area 1.
pub proof fn lemma_triangles_wind_alike(t: int, long_bands: int)
    ensures
        winding(
            mesh_point(3 * t, long_bands),
            mesh_point(3 * t + 1, long_bands),
            mesh_point(3 * t + 2, long_bands),
        ) == 1,
{
    let a = mesh_point(3 * t, long_bands);
    let b = mesh_point(3 * t + 1, long_bands);
    let c = mesh_point(3 * t + 2, long_bands);
    let (db, dc) = if t % 2 == 0 {
        ((1int, 0int), (0int, 1int))
    } else {
        ((0int, 1int), (-1int, 1int))
    };
    assert(b.0 - a.0 == db.0 && b.1 - a.1 == db.1);
    assert(c.0 - a.0 == dc.0 && c.1 - a.1 == dc.1);
    assert(winding(a, b, c) == db.0 * dc.1 - db.1 * dc.0);
}

/// No vertex is left out: where the sphere has at least one band each way,
/// every lattice point is a corner of some triangle.
pub proof fn lemma_every_vertex_used(lat: int, long: int, lat_bands: int, long_bands: int)
    requires
        0 < lat_bands,
        0 < long_bands,
        on_grid(lat, long, lat_bands, long_bands),
    ensures
        exists|k: int|
            0 <= k < index_count(lat_bands, long_bands) && #[trigger] mesh_index(k, long_bands)
                == vertex_index(lat, long, long_bands),
{
    let cell_lat = if lat < lat_bands { lat } else { lat - 1 };
    let cell_long = if long < long_bands { long } else { long - 1 };
    let corner = if lat < lat_bands {
        if long < long_bands { 0int } else { 2int }
    } else {
        if long < long_bands { 1int } else { 4int }
    };
    let cell = cell_lat * long_bands + cell_long;
    let k = 6 * cell + corner;
    lemma_mesh_point_of_cell(cell_lat, cell_long, corner, long_bands);
    assert(0 <= cell < lat_bands * long_bands) by (nonlinear_arith)
        requires
            0 <= cell_lat < lat_bands,
            0 <= cell_long < long_bands,
            cell == cell_lat * long_bands + cell_long,
    ;
    assert(mesh_index(k, long_bands) == vertex_index(lat, long, long_bands));
}

/// Where the lattice is indexable, every entry of the index buffer fits a
/// 16-bit index, and the number of entries fits a signed 32-bit count.
pub proof fn lemma_indexable_bounds(lat_bands: int, long_bands: int)
    requires
        0 <= lat_bands,
        0 <= long_bands,
        indexable(lat_bands, long_bands),
    ensures
        index_count(lat_bands, long_bands) <= i32::MAX,
        forall|k: int|
            0 <= k < index_count(lat_bands, long_bands) ==> 0 <= #[trigger] mesh_index(
                k,
                long_bands,
            ) <= u16::MAX,
{
    assert(index_count(lat_bands, long_bands) <= i32::MAX) by (nonlinear_arith)
        requires
            0 <= lat_bands,
            0 <= long_bands,
            lat_bands == 0 || long_bands == 0 || (lat_bands + 1) * (long_bands + 1) <= 0x1_0000,
            index_count(lat_bands, long_bands) == 6 * (lat_bands * long_bands),
    ;
    assert forall|k: int| 0 <= k < index_count(lat_bands, long_bands) implies 0
        <= #[trigger] mesh_index(k, long_bands) <= u16::MAX by {
        lemma_mesh_index_in_range(k, lat_bands, long_bands);
    }
}

/// Tells whether 16-bit indices suffice for a sphere of `lat_bands` by
/// `long_bands` bands.
pub fn is_indexable(lat_bands: u32, long_bands: u32) -> (ok: bool)
    ensures
        ok == indexable(lat_bands as int, long_bands as int),
{
    if lat_bands == 0 || long_bands == 0 {
        return true;
    }
    if lat_bands >= 0x1_0000 || long_bands >= 0x1_0000 {
        assert(vertex_count(lat_bands as int, long_bands as int) > 0x1_0000) by (nonlinear_arith)
            requires
                1 <= lat_bands,
                1 <= long_bands,
                lat_bands >= 0x1_0000 || long_bands >= 0x1_0000,
                vertex_count(lat_bands as int, long_bands as int) == (lat_bands + 1) * (long_bands
                    + 1),
        ;
        return false;
    }
    assert((lat_bands + 1) * (long_bands + 1) <= 0x1_0001 * 0x1_0001) by (nonlinear_arith)
        requires
            lat_bands < 0x1_0000,
            long_bands < 0x1_0000,
    ;
    let vertices: u64 = (lat_bands as u64 + 1) * (long_bands as u64 + 1);
    vertices <= 0x1_0000
}

/// Builds the index buffer of a sphere of `lat_bands` by `long_bands` bands:
/// for every cell of the lattice, band of latitude by band of latitude, the
/// six indices of its two triangles.
pub fn sphere_indices(lat_bands: u32, long_bands: u32) -> (indices: Vec<u16>)
    requires
        indexable(lat_bands as int, long_bands as int),
    ensures
        indices_as_ints(indices@) == mesh_indices(lat_bands as int, long_bands as int),
{
    let mut indices: Vec<u16> = Vec::new();
    let mut lat: u32 = 0;
    while lat < lat_bands
        invariant
            indexable(lat_bands as int, long_bands as int),
            lat <= lat_bands,
            indices@.len() == 6 * (lat * long_bands),
            forall|k: int|
                0 <= k < indices@.len() ==> #[trigger] indices@[k] as int == mesh_index(
                    k,
                    long_bands as int,
                ),
        decreases lat_bands - lat,
    {
        let mut long: u32 = 0;
        while long < long_bands
            invariant
                indexable(lat_bands as int, long_bands as int),
                lat < lat_bands,
                long <= long_bands,
                indices@.len() == 6 * (lat * long_bands + long),
                forall|k: int|
                    0 <= k < indices@.len() ==> #[trigger] indices@[k] as int == mesh_index(
                        k,
                        long_bands as int,
                    ),
            decreases long_bands - long,
        {
            proof {
                lemma_vertex_index_in_range(
                    lat + 1,
                    long + 1,
                    lat_bands as int,
                    long_bands as int,
                );
                assert((lat + 1) * (long_bands + 1) == lat * (long_bands + 1) + long_bands + 1)
                    by (nonlinear_arith);
                assert(long_bands + 1 <= 0x1_0000) by (nonlinear_arith)
                    requires
                        1 <= lat_bands,
                        (lat_bands + 1) * (long_bands + 1) <= 0x1_0000,
                ;
            }
            let first: u16 = (lat * (long_bands + 1) + long) as u16;
            let second: u16 = first + long_bands as u16 + 1;

            indices.push(first);
            indices.push(second);
            indices.push(first + 1);

            indices.push(second);
            indices.push(second + 1);
            indices.push(first + 1);

            proof {
                let base = 6 * (lat * long_bands + long);
                assert forall|k: int| 0 <= k < indices@.len() implies #[trigger] indices@[k] as int
                    == mesh_index(k, long_bands as int) by {
                    if k >= base {
                        lemma_mesh_point_of_cell(
                            lat as int,
                            long as int,
                            k - base,
                            long_bands as int,
                        );
                    }
                }
            }
            long = long + 1;
        }
        proof {
            assert(6 * (lat * long_bands + long_bands) == 6 * ((lat + 1) * long_bands))
                by (nonlinear_arith);
        }
        lat = lat + 1;
    }
    assert(indices_as_ints(indices@) =~= mesh_indices(lat_bands as int, long_bands as int));
    indices
}

} // verus!
