use vstd::prelude::*;
use vstd::arithmetic::div_mod::{
    lemma_div_is_ordered,
    lemma_fundamental_div_mod,
    lemma_fundamental_div_mod_converse,
};
use crate::lattice::{column, columns, lemma_simulate_on_lattice, simulate, span, valid_row};

verus! {

/// Grid points along a parallel: the number of columns of the mesh.
pub const NUMBER_OF_POINT_AT_VERTICAL: u32 = 2_560;

/// Grid points along a meridian: the number of rows of the mesh.
pub const NUMBER_OF_POINT_AT_HORIZONTAL: u32 = 3_360;

/// The grid definition: corners and increments in micro-degrees.
pub struct GridGeometry {
    pub number_of_points: u32,
    pub northernmost: u32,
    pub westernmost: u32,
    pub southernmost: u32,
    pub easternmost: u32,
    pub longitude_increment: u32,
    pub latitude_increment: u32,
}

impl GridGeometry {
    /// The corners and increments describe the mesh of this product, and the
    /// scan over it, which ends one row below the last, stays within `u32`.
    pub open spec fn wf(&self) -> bool {
        &&& self.westernmost < self.easternmost
        &&& self.southernmost < self.northernmost
        &&& 0 < self.longitude_increment
        &&& self.easternmost - self.westernmost == (NUMBER_OF_POINT_AT_VERTICAL - 1)
            * self.longitude_increment
        &&& self.easternmost + self.longitude_increment <= u32::MAX
        &&& NUMBER_OF_POINT_AT_HORIZONTAL * self.latitude_increment <= self.northernmost
        &&& self.number_of_points == NUMBER_OF_POINT_AT_HORIZONTAL * NUMBER_OF_POINT_AT_VERTICAL
    }

    /// Longitude of the `p`-th grid point in raster order.
    pub open spec fn lon_at(&self, p: int) -> int {
        self.westernmost + (p % (NUMBER_OF_POINT_AT_VERTICAL as int)) * self.longitude_increment
    }

    /// Latitude of the `p`-th grid point in raster order.
    pub open spec fn lat_at(&self, p: int) -> int {
        self.northernmost - (p / (NUMBER_OF_POINT_AT_VERTICAL as int)) * self.latitude_increment
    }
}

/// One reported grid point: coordinates in micro-degrees and the physical
/// value of its level.
#[derive(Clone, Copy, Debug, PartialEq, Eq)]
pub struct GridValue {
    pub longitude: u32,
    pub latitude: u32,
    pub value: u16,
}

/// The data representation: point count, code width, level bounds and the
/// physical value of each level from 1 up.
pub struct CompressionParams {
    pub number_of_points: u32,
    pub bits_per_data: u8,
    pub max_level_at_file: u16,
    pub max_level: u16,
    pub level_values: Vec<u16>,
}

impl CompressionParams {
    /// Codes are bytes, every level used has a table entry and the level
    /// bounds are ordered.
    pub open spec fn wf(&self) -> bool {
        &&& self.bits_per_data == 8
        &&& self.max_level_at_file <= u8::MAX
        &&& self.max_level_at_file <= self.max_level
        &&& self.max_level_at_file <= self.level_values@.len()
    }

    /// Radix of the run lengths: the byte values left above the levels.
    pub open spec fn lngu(&self) -> u16 {
        (u8::MAX - self.max_level_at_file) as u16
    }
}

proof fn lemma_geometry_on_lattice(g: GridGeometry)
    requires
        g.wf(),
    ensures
        valid_row(g.longitude_increment as int, g.westernmost as int, g.easternmost as int),
        span(g.longitude_increment as int, g.westernmost as int, g.easternmost as int)
            == NUMBER_OF_POINT_AT_VERTICAL - 1,
{
    lemma_fundamental_div_mod_converse(
        g.easternmost - g.westernmost,
        g.longitude_increment as int,
        (NUMBER_OF_POINT_AT_VERTICAL - 1) as int,
        0,
    );
}

/// Every grid point up to the one after the last lies within `u32`.
pub proof fn lemma_position_in_range(g: GridGeometry, p: int)
    requires
        g.wf(),
        0 <= p <= g.number_of_points,
    ensures
        g.westernmost <= g.lon_at(p) <= g.easternmost,
        0 <= g.lat_at(p) <= g.northernmost,
{
    let cols = NUMBER_OF_POINT_AT_VERTICAL as int;
    let rows = NUMBER_OF_POINT_AT_HORIZONTAL as int;
    let k = p % cols;
    let inc = g.longitude_increment as int;
    let latinc = g.latitude_increment as int;
    lemma_fundamental_div_mod(p, cols);
    assert(k * inc <= (cols - 1) * inc) by (nonlinear_arith)
        requires
            0 <= k < cols,
            inc > 0,
    ;
    assert(0 <= k * inc) by (nonlinear_arith)
        requires
            0 <= k,
            inc > 0,
    ;
    lemma_div_is_ordered(p, rows * cols, cols);
    lemma_fundamental_div_mod_converse(rows * cols, cols, rows, 0);
    let q = p / cols;
    lemma_div_is_ordered(0, p, cols);
    assert(0 <= q * latinc <= rows * latinc) by (nonlinear_arith)
        requires
            0 <= q <= rows,
            latinc >= 0,
    ;
}

/// Stepping `count` grid points one at a time from the `p`-th grid point
/// reaches the `(p + count)`-th.
pub proof fn lemma_simulate_from_position(g: GridGeometry, p: int, count: nat)
    requires
        g.wf(),
        0 <= p,
    ensures
        simulate(
            g.lon_at(p),
            g.lat_at(p),
            count,
            g.longitude_increment as int,
            g.latitude_increment as int,
            g.westernmost as int,
            g.easternmost as int,
        ) == (g.lon_at(p + count), g.lat_at(p + count)),
{
    let cols = NUMBER_OF_POINT_AT_VERTICAL as int;
    lemma_geometry_on_lattice(g);
    lemma_fundamental_div_mod(p, cols);
    let k = p % cols;
    let q = p / cols;
    lemma_simulate_on_lattice(
        k,
        g.lat_at(p),
        count,
        g.longitude_increment as int,
        g.latitude_increment as int,
        g.westernmost as int,
        g.easternmost as int,
    );
    lemma_shift_position(g, p, count as int);
}

/// From the `p`-th grid point, with `count` more points still on the grid,
/// the cursor is on the row's lattice at column `p mod columns`, and the rows
/// that `count` points pass fit above latitude 0.
pub proof fn lemma_skip_from_position(g: GridGeometry, p: int, count: int)
    requires
        g.wf(),
        0 <= p,
        0 <= count,
        p + count <= g.number_of_points,
    ensures
        g.westernmost <= g.lon_at(p) <= g.easternmost,
        (g.lon_at(p) - g.westernmost) % (g.longitude_increment as int) == 0,
        column(g.lon_at(p), g.longitude_increment as int, g.westernmost as int) == p % (
        NUMBER_OF_POINT_AT_VERTICAL as int),
        columns(g.longitude_increment as int, g.westernmost as int, g.easternmost as int)
            == NUMBER_OF_POINT_AT_VERTICAL,
        g.latitude_increment * ((p % (NUMBER_OF_POINT_AT_VERTICAL as int) + count) / (
        NUMBER_OF_POINT_AT_VERTICAL as int)) <= g.lat_at(p),
{
    let cols = NUMBER_OF_POINT_AT_VERTICAL as int;
    let k = p % cols;
    let inc = g.longitude_increment as int;
    lemma_geometry_on_lattice(g);
    lemma_position_in_range(g, p);
    lemma_position_in_range(g, p + count);
    lemma_fundamental_div_mod(p, cols);
    lemma_fundamental_div_mod_converse(k * inc, inc, k, 0);
    lemma_shift_position(g, p, count);
    let q2 = (k + count) / cols;
    assert(g.latitude_increment * q2 == q2 * g.latitude_increment) by (nonlinear_arith);
}

/// Moving `count` columns east from the column of `p` (with wraps) is the
/// same as moving from `p` to `p + count` in raster order.
pub(crate) proof fn lemma_shift_position(g: GridGeometry, p: int, count: int)
    requires
        g.wf(),
        0 <= p,
        0 <= count,
    ensures
        g.westernmost + ((p % (NUMBER_OF_POINT_AT_VERTICAL as int) + count) % (
        NUMBER_OF_POINT_AT_VERTICAL as int)) * g.longitude_increment == g.lon_at(p + count),
        g.lat_at(p) - ((p % (NUMBER_OF_POINT_AT_VERTICAL as int) + count) / (
        NUMBER_OF_POINT_AT_VERTICAL as int)) * g.latitude_increment == g.lat_at(p + count),
{
    let cols = NUMBER_OF_POINT_AT_VERTICAL as int;
    let k = p % cols;
    let q = p / cols;
    lemma_fundamental_div_mod(p, cols);
    lemma_fundamental_div_mod(k + count, cols);
    let q2 = (k + count) / cols;
    let r2 = (k + count) % cols;
    assert(p + count == (q + q2) * cols + r2) by (nonlinear_arith)
        requires
            p == cols * q + k,
            k + count == cols * q2 + r2,
    ;
    lemma_fundamental_div_mod_converse(p + count, cols, q + q2, r2);
    let latinc = g.latitude_increment as int;
    assert((q + q2) * latinc == q * latinc + q2 * latinc) by (nonlinear_arith);
}

} // verus!
