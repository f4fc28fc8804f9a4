//! The lattice of vertices: which lattice point sits at which position of
//! the vertex buffer.
//!
//! A sphere cut into `lat_bands` bands of latitude and `long_bands` bands of
//! longitude has `lat_bands + 1` circles of latitude with `long_bands + 1`
//! vertices on each. The vertex buffer stores them circle by circle, from
//! pole to pole.

use vstd::prelude::*;
use vstd::arithmetic::div_mod::{
    lemma_fundamental_div_mod, lemma_fundamental_div_mod_converse, lemma_mod_pos_bound,
};

verus! {

/// Number of vertices on one circle of latitude. The seam of the sphere is
/// stored twice, once at each end of the row.
pub open spec fn row_len(long_bands: int) -> int {
    long_bands + 1
}

/// Number of vertices of the whole lattice.
pub open spec fn vertex_count(lat_bands: int, long_bands: int) -> int {
    (lat_bands + 1) * row_len(long_bands)
}

/// Position in the vertex buffer of the lattice point `(lat, long)`.
pub open spec fn vertex_index(lat: int, long: int, long_bands: int) -> int {
    lat * row_len(long_bands) + long
}

/// Whether `(lat, long)` is a point of the lattice.
pub open spec fn on_grid(lat: int, long: int, lat_bands: int, long_bands: int) -> bool {
    0 <= lat <= lat_bands && 0 <= long <= long_bands
}

/// The lattice point stored at position `index` of the vertex buffer.
pub open spec fn grid_point(index: int, long_bands: int) -> (int, int) {
    (index / row_len(long_bands), index % row_len(long_bands))
}

/// All lattice points in the order of the vertex buffer.
pub open spec fn grid_points(lat_bands: int, long_bands: int) -> Seq<(int, int)> {
    Seq::new(
        vertex_count(lat_bands, long_bands) as nat,
        |index: int| grid_point(index, long_bands),
    )
}

/// Lattice points as mathematical integers.
pub open spec fn points_as_ints(points: Seq<(u32, u32)>) -> Seq<(int, int)> {
    points.map_values(|p: (u32, u32)| (p.0 as int, p.1 as int))
}

/// A row of `w` entries starting at `lat * w` ends where row `lat + 1`
/// starts, and all rows up to `rows` lie below `rows * w`.
proof fn lemma_row_bounds(lat: int, rows: int, w: int)
    requires
        0 <= lat < rows,
        0 < w,
    ensures
        0 <= lat * w,
        lat * w + w == (lat + 1) * w,
        (lat + 1) * w <= rows * w,
{
    assert(0 <= lat * w) by (nonlinear_arith)
        requires
            0 <= lat,
            0 < w,
    ;
    assert(lat * w + w == (lat + 1) * w) by (nonlinear_arith);
    assert((lat + 1) * w <= rows * w) by (nonlinear_arith)
        requires
            lat + 1 <= rows,
            0 < w,
    ;
}

/// Every lattice point has a position inside the vertex buffer.
pub proof fn lemma_vertex_index_in_range(lat: int, long: int, lat_bands: int, long_bands: int)
    requires
        on_grid(lat, long, lat_bands, long_bands),
    ensures
        0 <= vertex_index(lat, long, long_bands) < vertex_count(lat_bands, long_bands),
{
    lemma_row_bounds(lat, lat_bands + 1, row_len(long_bands));
}

/// The position of a lattice point determines the point: reading the
/// vertex buffer at `vertex_index(lat, long, ..)` gives back `(lat, long)`.
pub proof fn lemma_grid_point_of_vertex_index(lat: int, long: int, long_bands: int)
    requires
        0 <= long <= long_bands,
    ensures
        grid_point(vertex_index(lat, long, long_bands), long_bands) == (lat, long),
{
    lemma_fundamental_div_mod_converse(
        vertex_index(lat, long, long_bands),
        row_len(long_bands),
        lat,
        long,
    );
}

/// Every position of the vertex buffer holds a lattice point, and that
/// point's position is the one it was read from.
pub proof fn lemma_vertex_index_of_grid_point(index: int, lat_bands: int, long_bands: int)
    requires
        0 <= long_bands,
        0 <= index < vertex_count(lat_bands, long_bands),
    ensures
        on_grid(
            grid_point(index, long_bands).0,
            grid_point(index, long_bands).1,
            lat_bands,
            long_bands,
        ),
        vertex_index(grid_point(index, long_bands).0, grid_point(index, long_bands).1, long_bands)
            == index,
{
    let w = row_len(long_bands);
    let lat = index / w;
    let long = index % w;
    lemma_fundamental_div_mod(index, w);
    lemma_mod_pos_bound(index, w);
    assert(lat * w == w * lat) by (nonlinear_arith);
    assert(0 <= lat <= lat_bands) by (nonlinear_arith)
        requires
            0 < w,
            0 <= long < w,
            index == lat * w + long,
            0 <= index < (lat_bands + 1) * w,
    ;
}

/// Two lattice points stored at the same position are the same point.
pub proof fn lemma_vertex_index_injective(
    lat_a: int,
    long_a: int,
    lat_b: int,
    long_b: int,
    long_bands: int,
)
    requires
        0 <= long_a <= long_bands,
        0 <= long_b <= long_bands,
        vertex_index(lat_a, long_a, long_bands) == vertex_index(lat_b, long_b, long_bands),
    ensures
        lat_a == lat_b,
        long_a == long_b,
{
    lemma_grid_point_of_vertex_index(lat_a, long_a, long_bands);
    lemma_grid_point_of_vertex_index(lat_b, long_b, long_bands);
}

/// Lists the lattice points in the order in which their vertices are stored:
/// circle of latitude by circle of latitude, and along each circle by
/// longitude.
pub fn vertex_grid(lat_bands: u32, long_bands: u32) -> (grid: Vec<(u32, u32)>)
    ensures
        points_as_ints(grid@) == grid_points(lat_bands as int, long_bands as int),
{
    let rows: u64 = lat_bands as u64 + 1;
    let cols: u64 = long_bands as u64 + 1;
    let mut grid: Vec<(u32, u32)> = Vec::new();
    let mut lat: u64 = 0;
    while lat < rows
        invariant
            rows == lat_bands + 1,
            cols == row_len(long_bands as int),
            lat <= rows,
            grid@.len() == lat * cols,
            forall|k: int|
                0 <= k < grid@.len() ==> (#[trigger] grid@[k].0 as int, grid@[k].1 as int)
                    == grid_point(k, long_bands as int),
        decreases rows - lat,
    {
        let mut long: u64 = 0;
        while long < cols
            invariant
                rows == lat_bands + 1,
                cols == row_len(long_bands as int),
                lat < rows,
                long <= cols,
                grid@.len() == lat * cols + long,
                forall|k: int|
                    0 <= k < grid@.len() ==> (#[trigger] grid@[k].0 as int, grid@[k].1 as int)
                        == grid_point(k, long_bands as int),
            decreases cols - long,
        {
            proof {
                lemma_grid_point_of_vertex_index(lat as int, long as int, long_bands as int);
            }
            grid.push((lat as u32, long as u32));
            long = long + 1;
        }
        proof {
            lemma_row_bounds(lat as int, rows as int, cols as int);
        }
        lat = lat + 1;
    }
    assert(points_as_ints(grid@) =~= grid_points(lat_bands as int, long_bands as int));
    grid
}

} // verus!
