use vstd::prelude::*;
use vstd::arithmetic::div_mod::{
    lemma_fundamental_div_mod,
    lemma_fundamental_div_mod_converse,
    lemma_mod_multiples_basic,
    lemma_mod_pos_bound,
};

verus! {

/// Moves the scan cursor by one grid point in raster order: one increment
/// east, or back to the western edge of the next row south once the eastern
/// edge is passed.
pub open spec fn step(lon: int, lat: int, inc: int, latinc: int, west: int, east: int) -> (int, int) {
    if east < lon + inc {
        (west, lat - latinc)
    } else {
        (lon + inc, lat)
    }
}

/// Moves the scan cursor by `count` grid points, one at a time.
pub open spec fn simulate(
    lon: int,
    lat: int,
    count: nat,
    inc: int,
    latinc: int,
    west: int,
    east: int,
) -> (int, int)
    decreases count,
{
    if count == 0 {
        (lon, lat)
    } else {
        let next = step(lon, lat, inc, latinc, west, east);
        simulate(next.0, next.1, (count - 1) as nat, inc, latinc, west, east)
    }
}

/// Number of whole increments between the western and the eastern edge:
/// the last column of a row.
pub open spec fn span(inc: int, west: int, east: int) -> int {
    (east - west) / inc
}

/// Grid points in a row.
pub open spec fn columns(inc: int, west: int, east: int) -> int {
    span(inc, west, east) + 1
}

/// Column of a longitude on the row's lattice.
pub open spec fn column(lon: int, inc: int, west: int) -> int {
    (lon - west) / inc
}

/// A row with a positive increment and its eastern edge east of its western
/// one.
pub open spec fn valid_row(inc: int, west: int, east: int) -> bool {
    0 < inc && west < east
}

/// Moves the cursor over `count` missing grid points in one move, from the
/// column index: the new column is the remainder, and the rows passed the
/// quotient, of the column plus `count` by the number of columns. Lands
/// where stepping over the points one by one does.
///
/// The scan cursor starts at the western edge and only ever moves by whole
/// increments from it, so it always lies on the row's lattice; that is the
/// only kind of cursor this takes.
pub fn move_lattice_for_missing_values(
    longitude: u32,
    latitude: u32,
    count: u32,
    longitude_increment: u32,
    latitude_increment: u32,
    westernmost: u32,
    easternmost: u32,
) -> (r: (u32, u32))
    requires
        0 < longitude_increment,
        westernmost < easternmost,
        westernmost <= longitude <= easternmost,
        (longitude - westernmost) % (longitude_increment as int) == 0,
        latitude_increment * ((column(
            longitude as int,
            longitude_increment as int,
            westernmost as int,
        ) + count) / columns(longitude_increment as int, westernmost as int, easternmost as int))
            <= latitude,
    ensures
        (r.0 as int, r.1 as int) == simulate(
            longitude as int,
            latitude as int,
            count as nat,
            longitude_increment as int,
            latitude_increment as int,
            westernmost as int,
            easternmost as int,
        ),
        westernmost <= r.0 <= easternmost,
        (r.0 - westernmost) % (longitude_increment as int) == 0,
        r.1 <= latitude,
{
    let ghost inc = longitude_increment as int;
    let ghost west = westernmost as int;
    let ghost east = easternmost as int;
    let column = (longitude - westernmost) / longitude_increment;
    let columns = ((easternmost - westernmost) / longitude_increment) as u64 + 1;
    let position = column as u64 + count as u64;
    let rows_down = position / columns;
    let new_column = position % columns;
    proof {
        let n = span(inc, west, east);
        lemma_simulate_from_cursor(
            longitude as int,
            latitude as int,
            count as nat,
            inc,
            latitude_increment as int,
            west,
            east,
        );
        lemma_span_nonnegative(inc, west, east);
        lemma_mod_pos_bound(position as int, columns as int);
        assert(new_column * inc <= n * inc) by (nonlinear_arith)
            requires
                new_column <= n,
                inc > 0,
        ;
        assert(latitude_increment * rows_down == rows_down * latitude_increment) by (nonlinear_arith);
        lemma_mod_multiples_basic(new_column as int, inc);
    }
    let lon = westernmost + (new_column * longitude_increment as u64) as u32;
    let lat = latitude - (rows_down * latitude_increment as u64) as u32;
    (lon, lat)
}

/// From a cursor on the row's lattice, stepping `count` times lands on
/// column `(column + count) mod columns`, `(column + count) div columns`
/// rows further south.
pub proof fn lemma_simulate_from_cursor(
    lon: int,
    lat: int,
    count: nat,
    inc: int,
    latinc: int,
    west: int,
    east: int,
)
    requires
        valid_row(inc, west, east),
        west <= lon <= east,
        (lon - west) % inc == 0,
    ensures
        0 <= column(lon, inc, west) <= span(inc, west, east),
        lon == west + column(lon, inc, west) * inc,
        simulate(lon, lat, count, inc, latinc, west, east) == (
            west + ((column(lon, inc, west) + count) % columns(inc, west, east)) * inc,
            lat - ((column(lon, inc, west) + count) / columns(inc, west, east)) * latinc,
        ),
        west <= simulate(lon, lat, count, inc, latinc, west, east).0 <= east,
{
    let k = column(lon, inc, west);
    let n = span(inc, west, east);
    lemma_span_nonnegative(inc, west, east);
    lemma_fundamental_div_mod(lon - west, inc);
    assert(lon == west + k * inc);
    assert(0 <= k <= n) by (nonlinear_arith)
        requires
            k * inc == lon - west,
            lon >= west,
            lon <= east,
            east - west < (n + 1) * inc,
            inc > 0,
    ;
    lemma_simulate_on_lattice(k, lat, count, inc, latinc, west, east);
    let c = (k + count) % (n + 1);
    lemma_mod_pos_bound(k + count, n + 1);
    assert(0 <= c * inc <= n * inc) by (nonlinear_arith)
        requires
            0 <= c <= n,
            inc > 0,
    ;
}

proof fn lemma_span_nonnegative(inc: int, west: int, east: int)
    requires
        valid_row(inc, west, east),
    ensures
        span(inc, west, east) >= 0,
        span(inc, west, east) * inc <= east - west,
        east - west < (span(inc, west, east) + 1) * inc,
{
    let n = span(inc, west, east);
    let r = (east - west) % inc;
    lemma_fundamental_div_mod(east - west, inc);
    lemma_mod_pos_bound(east - west, inc);
    assert(n >= 0 && n * inc <= east - west && east - west < (n + 1) * inc) by (nonlinear_arith)
        requires
            east - west == inc * n + r,
            0 <= r < inc,
            east - west > 0,
    ;
}

proof fn lemma_step_on_lattice(k: int, lat: int, inc: int, latinc: int, west: int, east: int)
    requires
        valid_row(inc, west, east),
        0 <= k <= span(inc, west, east),
    ensures
        step(west + k * inc, lat, inc, latinc, west, east) == if k < span(inc, west, east) {
            (west + (k + 1) * inc, lat)
        } else {
            (west, lat - latinc)
        },
{
    let n = span(inc, west, east);
    lemma_span_nonnegative(inc, west, east);
    assert((k + 1) * inc == k * inc + inc) by (nonlinear_arith);
    if k < n {
        assert((k + 1) * inc <= n * inc) by (nonlinear_arith)
            requires
                k + 1 <= n,
                inc > 0,
        ;
    } else {
        assert(k * inc == n * inc);
    }
}

/// Stepping `count` times from column `k` lands on column
/// `(k + count) mod columns`, `(k + count) div columns` rows further south.
pub proof fn lemma_simulate_on_lattice(
    k: int,
    lat: int,
    count: nat,
    inc: int,
    latinc: int,
    west: int,
    east: int,
)
    requires
        valid_row(inc, west, east),
        0 <= k <= span(inc, west, east),
    ensures
        simulate(west + k * inc, lat, count, inc, latinc, west, east) == (
            west + ((k + count) % (span(inc, west, east) + 1)) * inc,
            lat - ((k + count) / (span(inc, west, east) + 1)) * latinc,
        ),
    decreases count,
{
    let n = span(inc, west, east);
    lemma_span_nonnegative(inc, west, east);
    if count == 0 {
        lemma_fundamental_div_mod_converse(k, n + 1, 0, k);
        assert(k + count == k);
        assert(0 * latinc == 0);
    } else {
        lemma_step_on_lattice(k, lat, inc, latinc, west, east);
        let next = step(west + k * inc, lat, inc, latinc, west, east);
        assert(simulate(west + k * inc, lat, count, inc, latinc, west, east) == simulate(
            next.0,
            next.1,
            (count - 1) as nat,
            inc,
            latinc,
            west,
            east,
        ));
        if k < n {
            lemma_simulate_on_lattice(k + 1, lat, (count - 1) as nat, inc, latinc, west, east);
            assert(k + 1 + (count - 1) as nat == k + count);
            assert(simulate(west + k * inc, lat, count, inc, latinc, west, east) == (
                west + ((k + count) % (n + 1)) * inc,
                lat - ((k + count) / (n + 1)) * latinc,
            ));
        } else {
            assert(west + 0 * inc == west);
            lemma_simulate_on_lattice(0, lat - latinc, (count - 1) as nat, inc, latinc, west, east);
            let q = (count - 1) / (n + 1);
            let r = (count - 1) % (n + 1);
            lemma_fundamental_div_mod(count - 1, n + 1);
            assert(k + count == (q + 1) * (n + 1) + r) by (nonlinear_arith)
                requires
                    count - 1 == (n + 1) * q + r,
                    k == n,
            ;
            lemma_fundamental_div_mod_converse(k + count, n + 1, q + 1, r);
            assert((q + 1) * latinc == q * latinc + latinc) by (nonlinear_arith);
            assert(0 + (count - 1) as nat == count - 1);
            assert(simulate(next.0, next.1, (count - 1) as nat, inc, latinc, west, east) == (
                west + r * inc,
                lat - latinc - q * latinc,
            ));
        }
    }
}

/// Skipping `a` grid points and then `b` more lands where skipping `a + b`
/// does.
pub proof fn lemma_simulate_additive(
    lon: int,
    lat: int,
    a: nat,
    b: nat,
    inc: int,
    latinc: int,
    west: int,
    east: int,
)
    ensures
        ({
            let first = simulate(lon, lat, a, inc, latinc, west, east);
            simulate(first.0, first.1, b, inc, latinc, west, east)
        }) == simulate(lon, lat, a + b, inc, latinc, west, east),
    decreases a,
{
    if a > 0 {
        let next = step(lon, lat, inc, latinc, west, east);
        lemma_simulate_additive(next.0, next.1, (a - 1) as nat, b, inc, latinc, west, east);
        assert((a + b - 1) as nat == (a - 1) as nat + b);
    }
}

} // verus!
