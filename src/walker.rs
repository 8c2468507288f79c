use vstd::prelude::*;
use vstd::arithmetic::div_mod::lemma_div_is_ordered;
use crate::boundary::Boundary;
use crate::error::Grib2Error;
use crate::grid::{
    lemma_simulate_from_position,
    lemma_skip_from_position,
    CompressionParams,
    GridGeometry,
    GridValue,
    NUMBER_OF_POINT_AT_VERTICAL,
};
use crate::lattice::{
    column,
    columns,
    lemma_simulate_additive,
    lemma_simulate_from_cursor,
    move_lattice_for_missing_values,
    simulate,
    step,
};
use crate::run_length::{
    expand_run_length,
    is_run_set,
    lemma_value_nonnegative,
    run_count,
    run_count_at_most,
};

verus! {

pub open spec fn split_sets(codes: Seq<u8>, maxv: u16) -> (Seq<Seq<u16>>, Seq<u16>)
    decreases codes.len(),
{
    if codes.len() == 0 {
        (Seq::empty(), Seq::empty())
    } else {
        let prev = split_sets(codes.drop_last(), maxv);
        let v = codes.last() as u16;
        if v <= maxv && prev.1.len() > 0 {
            (prev.0.push(prev.1), seq![v])
        } else {
            (prev.0, prev.1.push(v))
        }
    }
}

pub open spec fn run_sets(codes: Seq<u8>, maxv: u16) -> Seq<Seq<u16>> {
    let s = split_sets(codes, maxv);
    if s.1.len() == 0 {
        s.0
    } else {
        s.0.push(s.1)
    }
}

pub open spec fn levels_of_sets(sets: Seq<Seq<u16>>, maxv: u16, lngu: u16) -> Seq<u16>
    decreases sets.len(),
{
    if sets.len() == 0 {
        Seq::empty()
    } else {
        let last = sets.last();
        levels_of_sets(sets.drop_last(), maxv, lngu) + Seq::new(
            run_count(last, maxv, lngu) as nat,
            |i: int| last[0],
        )
    }
}

pub open spec fn decoded_levels(codes: Seq<u8>, maxv: u16, lngu: u16) -> Seq<u16> {
    levels_of_sets(run_sets(codes, maxv), maxv, lngu)
}

pub open spec fn rows_of(levels: Seq<u16>, g: GridGeometry, table: Seq<u16>, b: Boundary) -> Seq<
    GridValue,
>
    decreases levels.len(),
{
    if levels.len() == 0 {
        Seq::empty()
    } else {
        let p = levels.len() - 1;
        let prev = rows_of(levels.drop_last(), g, table, b);
        let level = levels.last();
        let lon = g.lon_at(p) as u32;
        let lat = g.lat_at(p) as u32;
        if level > 0 && b.spec_contains(lon, lat) {
            prev.push(GridValue { longitude: lon, latitude: lat, value: table[level - 1] })
        } else {
            prev
        }
    }
}

proof fn lemma_levels_push(sets: Seq<Seq<u16>>, set: Seq<u16>, maxv: u16, lngu: u16)
    ensures
        levels_of_sets(sets.push(set), maxv, lngu) == levels_of_sets(sets, maxv, lngu) + Seq::new(
            run_count(set, maxv, lngu) as nat,
            |i: int| set[0],
        ),
{
    assert(sets.push(set).drop_last() =~= sets);
}

proof fn lemma_open_set_shape(codes: Seq<u8>, maxv: u16)
    ensures
        forall|i: int|
            1 <= i < split_sets(codes, maxv).1.len() ==> split_sets(codes, maxv).1[i] > maxv,
        codes.len() > 0 ==> split_sets(codes, maxv).1.len() > 0,
        codes.len() > 0 && codes[0] <= maxv ==> is_run_set(split_sets(codes, maxv).1, maxv),
    decreases codes.len(),
{
    if codes.len() > 0 {
        let prefix = codes.drop_last();
        lemma_open_set_shape(prefix, maxv);
        if prefix.len() > 0 {
            assert(prefix[0] == codes[0]);
        }
    }
}

proof fn lemma_run_count_positive(set: Seq<u16>, maxv: u16, lngu: u16)
    requires
        set.len() >= 1,
        forall|i: int| 1 <= i < set.len() ==> set[i] > maxv,
    ensures
        run_count(set, maxv, lngu) >= 1,
{
    let conts = set.drop_first();
    assert forall|i: int| 0 <= i < conts.len() implies conts[i] > maxv by {
        assert(conts[i] == set[i + 1]);
    }
    lemma_value_nonnegative(conts, maxv, lngu);
}

pub open spec fn sum_of_counts(sets: Seq<Seq<u16>>, maxv: u16, lngu: u16) -> int
    decreases sets.len(),
{
    if sets.len() == 0 {
        0
    } else {
        sum_of_counts(sets.drop_last(), maxv, lngu) + run_count(sets.last(), maxv, lngu)
    }
}

pub proof fn lemma_levels_are_sum_of_counts(codes: Seq<u8>, maxv: u16, lngu: u16)
    requires
        codes.len() > 0 ==> codes[0] <= maxv,
    ensures
        decoded_levels(codes, maxv, lngu).len() == sum_of_counts(run_sets(codes, maxv), maxv, lngu),
{
    lemma_run_sets_shape(codes, maxv);
    lemma_levels_length(run_sets(codes, maxv), maxv, lngu);
}

proof fn lemma_levels_length(sets: Seq<Seq<u16>>, maxv: u16, lngu: u16)
    requires
        forall|k: int| 0 <= k < sets.len() ==> is_run_set(#[trigger] sets[k], maxv),
    ensures
        levels_of_sets(sets, maxv, lngu).len() == sum_of_counts(sets, maxv, lngu),
    decreases sets.len(),
{
    if sets.len() > 0 {
        let last = sets.last();
        assert(is_run_set(sets[sets.len() - 1], maxv));
        lemma_run_count_positive(last, maxv, lngu);
        let shorter = sets.drop_last();
        assert forall|k: int| 0 <= k < shorter.len() implies is_run_set(#[trigger] shorter[k], maxv) by {
            assert(shorter[k] == sets[k]);
        }
        lemma_levels_length(shorter, maxv, lngu);
    }
}

proof fn lemma_run_sets_shape(codes: Seq<u8>, maxv: u16)
    requires
        codes.len() > 0 ==> codes[0] <= maxv,
    ensures
        forall|k: int|
            0 <= k < run_sets(codes, maxv).len() ==> is_run_set(#[trigger] run_sets(codes, maxv)[k], maxv),
{
    lemma_closed_sets_shape(codes, maxv);
    lemma_open_set_shape(codes, maxv);
    let s = split_sets(codes, maxv);
    if s.1.len() > 0 {
        assert forall|k: int| 0 <= k < s.0.push(s.1).len() implies is_run_set(#[trigger] s.0.push(s.1)[k], maxv) by {
            if k < s.0.len() {
                assert(s.0.push(s.1)[k] == s.0[k]);
            }
        }
    }
}

proof fn lemma_closed_sets_shape(codes: Seq<u8>, maxv: u16)
    requires
        codes.len() > 0 ==> codes[0] <= maxv,
    ensures
        forall|k: int|
            0 <= k < split_sets(codes, maxv).0.len() ==> is_run_set(#[trigger] split_sets(codes, maxv).0[k], maxv),
    decreases codes.len(),
{
    if codes.len() > 0 {
        let prefix = codes.drop_last();
        if prefix.len() > 0 {
            assert(prefix[0] == codes[0]);
        }
        lemma_closed_sets_shape(prefix, maxv);
        lemma_open_set_shape(prefix, maxv);
        let prev = split_sets(prefix, maxv);
        let v = codes.last() as u16;
        if v <= maxv && prev.1.len() > 0 {
            assert forall|k: int| 0 <= k < prev.0.push(prev.1).len() implies is_run_set(#[trigger] prev.0.push(prev.1)[k], maxv) by {
                if k < prev.0.len() {
                    assert(prev.0.push(prev.1)[k] == prev.0[k]);
                }
            }
        }
    }
}

/// `x`, or `u32::MAX` where `x` is larger.
pub open spec fn saturate(x: int) -> int {
    if x > u32::MAX {
        u32::MAX as int
    } else {
        x
    }
}

/// The rows that a run of `count` points at `level` reports from the cursor
/// (`lon`, `lat`): the points that stepping visits, where the level is above
/// 0 and the boundary contains them.
pub open spec fn run_rows(
    lon: int,
    lat: int,
    level: u16,
    count: nat,
    g: GridGeometry,
    table: Seq<u16>,
    b: Boundary,
) -> Seq<GridValue>
    decreases count,
{
    if count == 0 {
        Seq::empty()
    } else {
        let prev = run_rows(lon, lat, level, (count - 1) as nat, g, table, b);
        let cell = simulate(
            lon,
            lat,
            (count - 1) as nat,
            g.longitude_increment as int,
            g.latitude_increment as int,
            g.westernmost as int,
            g.easternmost as int,
        );
        if level > 0 && b.spec_contains(cell.0 as u32, cell.1 as u32) {
            prev.push(
                GridValue { longitude: cell.0 as u32, latitude: cell.1 as u32, value: table[level - 1] },
            )
        } else {
            prev
        }
    }
}

proof fn lemma_run_rows_missing(
    lon: int,
    lat: int,
    count: nat,
    g: GridGeometry,
    table: Seq<u16>,
    b: Boundary,
)
    ensures
        run_rows(lon, lat, 0u16, count, g, table, b) == Seq::<GridValue>::empty(),
    decreases count,
{
    if count > 0 {
        lemma_run_rows_missing(lon, lat, (count - 1) as nat, g, table, b);
    }
}

/// A run that starts at the `p`-th grid point reports, after the rows of
/// the points before it, the rows of its own points in raster order.
proof fn lemma_rows_extend(
    levels: Seq<u16>,
    level: u16,
    count: nat,
    g: GridGeometry,
    table: Seq<u16>,
    b: Boundary,
)
    requires
        g.wf(),
    ensures
        rows_of(levels + Seq::new(count, |i: int| level), g, table, b) == rows_of(levels, g, table, b)
            + run_rows(
            g.lon_at(levels.len() as int),
            g.lat_at(levels.len() as int),
            level,
            count,
            g,
            table,
            b,
        ),
    decreases count,
{
    let p = levels.len() as int;
    let prev_rows = rows_of(levels, g, table, b);
    if count == 0 {
        assert(levels + Seq::new(0, |i: int| level) =~= levels);
        assert(prev_rows + Seq::<GridValue>::empty() =~= prev_rows);
    } else {
        let shorter = levels + Seq::new((count - 1) as nat, |i: int| level);
        let longer = levels + Seq::new(count, |i: int| level);
        assert(longer.drop_last() =~= shorter);
        assert(longer.last() == level);
        lemma_rows_extend(levels, level, (count - 1) as nat, g, table, b);
        lemma_simulate_from_position(g, p, (count - 1) as nat);
        let prev_run = run_rows(g.lon_at(p), g.lat_at(p), level, (count - 1) as nat, g, table, b);
        let q = p + count - 1;
        let x = GridValue {
            longitude: g.lon_at(q) as u32,
            latitude: g.lat_at(q) as u32,
            value: table[level - 1],
        };
        assert((prev_rows + prev_run).push(x) =~= prev_rows + prev_run.push(x));
    }
}

/// Moves the cursor by one grid point in raster order.
fn advance_one(g: &GridGeometry, longitude: &mut u32, latitude: &mut u32)
    requires
        g.wf(),
        g.westernmost <= *old(longitude) <= g.easternmost,
        g.easternmost < *old(longitude) + g.longitude_increment ==> g.latitude_increment
            <= *old(latitude),
    ensures
        (*final(longitude) as int, *final(latitude) as int) == step(
            *old(longitude) as int,
            *old(latitude) as int,
            g.longitude_increment as int,
            g.latitude_increment as int,
            g.westernmost as int,
            g.easternmost as int,
        ),
{
    *longitude += g.longitude_increment;
    if g.easternmost < *longitude {
        *longitude = g.westernmost;
        *latitude -= g.latitude_increment;
    }
}

/// Reports the grid points of one run and moves the cursor past them, as
/// stepping one point at a time does. A run of level 0 (missing) reports
/// nothing and is skipped in one move.
fn output_values(
    g: &GridGeometry,
    table: &Vec<u16>,
    boundary: &Boundary,
    level: u16,
    count: u32,
    out: &mut Vec<GridValue>,
    longitude: &mut u32,
    latitude: &mut u32,
)
    requires
        g.wf(),
        level <= table@.len(),
        g.westernmost <= *old(longitude) <= g.easternmost,
        (*old(longitude) - g.westernmost) % (g.longitude_increment as int) == 0,
        g.latitude_increment * ((column(
            *old(longitude) as int,
            g.longitude_increment as int,
            g.westernmost as int,
        ) + count) / columns(
            g.longitude_increment as int,
            g.westernmost as int,
            g.easternmost as int,
        )) <= *old(latitude),
    ensures
        final(out)@ == old(out)@ + run_rows(
            *old(longitude) as int,
            *old(latitude) as int,
            level,
            count as nat,
            *g,
            table@,
            *boundary,
        ),
        (*final(longitude) as int, *final(latitude) as int) == simulate(
            *old(longitude) as int,
            *old(latitude) as int,
            count as nat,
            g.longitude_increment as int,
            g.latitude_increment as int,
            g.westernmost as int,
            g.easternmost as int,
        ),
{
    let ghost lon0 = *longitude as int;
    let ghost lat0 = *latitude as int;
    let ghost out0 = out@;
    let ghost inc = g.longitude_increment as int;
    let ghost latinc = g.latitude_increment as int;
    let ghost w = g.westernmost as int;
    let ghost e = g.easternmost as int;
    if 0 < level {
        let mut i: u32 = 0;
        assert(out0 + Seq::<GridValue>::empty() =~= out0);
        while i < count
            invariant
                g.wf(),
                0 < level <= table@.len(),
                0 <= i <= count,
                inc == g.longitude_increment,
                latinc == g.latitude_increment,
                w == g.westernmost,
                e == g.easternmost,
                w <= lon0 <= e,
                (lon0 - w) % inc == 0,
                latinc * ((column(lon0, inc, w) + count) / columns(inc, w, e)) <= lat0,
                (*longitude as int, *latitude as int) == simulate(
                    lon0,
                    lat0,
                    i as nat,
                    inc,
                    latinc,
                    w,
                    e,
                ),
                out@ == out0 + run_rows(lon0, lat0, level, i as nat, *g, table@, *boundary),
            decreases count - i,
        {
            proof {
                lemma_simulate_from_cursor(lon0, lat0, i as nat, inc, latinc, w, e);
                lemma_simulate_from_cursor(lon0, lat0, (i + 1) as nat, inc, latinc, w, e);
                lemma_simulate_additive(lon0, lat0, i as nat, 1, inc, latinc, w, e);
                let cur = simulate(lon0, lat0, i as nat, inc, latinc, w, e);
                let next = step(cur.0, cur.1, inc, latinc, w, e);
                assert(simulate(next.0, next.1, 0, inc, latinc, w, e) == next);
                let k = column(lon0, inc, w);
                let cols = columns(inc, w, e);
                lemma_div_is_ordered(k + i + 1, k + count, cols);
                lemma_div_is_ordered(0, k + i + 1, cols);
                let q1 = (k + i + 1) / cols;
                let q = (k + count) / cols;
                assert(q1 * latinc <= lat0) by (nonlinear_arith)
                    requires
                        0 <= q1 <= q,
                        latinc * q <= lat0,
                        latinc >= 0,
                ;
            }
            let ghost prev = out@;
            if boundary.contains(*longitude, *latitude) {
                out.push(
                    GridValue {
                        longitude: *longitude,
                        latitude: *latitude,
                        value: table[(level - 1) as usize],
                    },
                );
            }
            proof {
                let run = run_rows(lon0, lat0, level, i as nat, *g, table@, *boundary);
                let x = GridValue {
                    longitude: *longitude,
                    latitude: *latitude,
                    value: table@[level - 1],
                };
                assert((out0 + run).push(x) =~= out0 + run.push(x));
            }
            advance_one(g, longitude, latitude);
            i += 1;
        }
    } else {
        proof {
            lemma_run_rows_missing(lon0, lat0, count as nat, *g, table@, *boundary);
            assert(out0 + Seq::<GridValue>::empty() =~= out0);
        }
        let moved = move_lattice_for_missing_values(
            *longitude,
            *latitude,
            count,
            g.longitude_increment,
            g.latitude_increment,
            g.westernmost,
            g.easternmost,
        );
        *longitude = moved.0;
        *latitude = moved.1;
    }
}

/// How many grid points the set covers, or `u32::MAX` where that is more.
fn saturated_count(values: &[u16], maxv: u16, lngu: u16) -> (r: u32)
    requires
        is_run_set(values@, maxv),
    ensures
        r == saturate(run_count(values@, maxv, lngu)),
{
    if run_count_at_most(values, maxv, lngu, u32::MAX) {
        let (_, count) = expand_run_length(values, maxv, lngu);
        count
    } else {
        u32::MAX
    }
}

/// Decodes the compressed codes and reports, in raster order, every grid
/// point that carries a level above 0 and lies within the boundary. The runs
/// must cover the grid exactly; where they do not, the error carries their
/// total count (saturated at `u32::MAX`).
pub fn walk_run_lengths(
    codes: &[u8],
    geometry: &GridGeometry,
    params: &CompressionParams,
    boundary: &Boundary,
) -> (r: Result<Vec<GridValue>, Grib2Error>)
    requires
        geometry.wf(),
        params.wf(),
    ensures
        codes@.len() > 0 && codes@[0] > params.max_level_at_file ==> r == Err::<
            Vec<GridValue>,
            Grib2Error,
        >(Grib2Error::MisplacedContinuationCode),
        !(codes@.len() > 0 && codes@[0] > params.max_level_at_file) ==> (r is Ok <==> sum_of_counts(
            run_sets(codes@, params.max_level_at_file),
            params.max_level_at_file,
            params.lngu(),
        ) == geometry.number_of_points),
        !(codes@.len() > 0 && codes@[0] > params.max_level_at_file) && sum_of_counts(
            run_sets(codes@, params.max_level_at_file),
            params.max_level_at_file,
            params.lngu(),
        ) != geometry.number_of_points ==> r == Err::<Vec<GridValue>, Grib2Error>(
            Grib2Error::RunLengthCountMismatch {
                expected: geometry.number_of_points,
                actual: saturate(
                    sum_of_counts(
                        run_sets(codes@, params.max_level_at_file),
                        params.max_level_at_file,
                        params.lngu(),
                    ),
                ) as u32,
            },
        ),
        r is Ok ==> r->Ok_0@ == rows_of(
            decoded_levels(codes@, params.max_level_at_file, params.lngu()),
            *geometry,
            params.level_values@,
            *boundary,
        ),
{
    let maxv = params.max_level_at_file;
    // Codes are bytes: the byte values above the levels are run-length digits.
    let lngu: u16 = u8::MAX as u16 - maxv;
    let n = geometry.number_of_points;
    if codes.len() > 0 && codes[0] as u16 > maxv {
        return Err(Grib2Error::MisplacedContinuationCode);
    }
    let mut run_length: Vec<u16> = Vec::new();
    let mut out: Vec<GridValue> = Vec::new();
    let mut longitude = geometry.westernmost;
    let mut latitude = geometry.northernmost;
    // Points of the runs decoded so far, saturated; past the grid's point
    // count the runs are only counted.
    let mut number_of_read: u32 = 0;
    let mut overrun = false;
    let ghost mut done: Seq<u16> = Seq::empty();
    let mut i: usize = 0;
    assert(codes@.take(0) =~= Seq::<u8>::empty());
    assert(0int % (NUMBER_OF_POINT_AT_VERTICAL as int) == 0);
    assert(0int / (NUMBER_OF_POINT_AT_VERTICAL as int) == 0);
    assert(geometry.lon_at(0) == geometry.westernmost);
    assert(geometry.lat_at(0) == geometry.northernmost);
    while i < codes.len()
        invariant
            geometry.wf(),
            params.wf(),
            maxv == params.max_level_at_file,
            lngu == params.lngu(),
            n == geometry.number_of_points,
            0 <= i <= codes.len(),
            codes@.len() > 0 ==> codes@[0] <= maxv,
            run_length@ == split_sets(codes@.take(i as int), maxv).1,
            number_of_read == saturate(
                sum_of_counts(split_sets(codes@.take(i as int), maxv).0, maxv, lngu),
            ),
            overrun ==> sum_of_counts(split_sets(codes@.take(i as int), maxv).0, maxv, lngu) > n,
            !overrun ==> {
                &&& sum_of_counts(split_sets(codes@.take(i as int), maxv).0, maxv, lngu) <= n
                &&& done == levels_of_sets(split_sets(codes@.take(i as int), maxv).0, maxv, lngu)
                &&& longitude == geometry.lon_at(done.len() as int)
                &&& latitude == geometry.lat_at(done.len() as int)
                &&& out@ == rows_of(done, *geometry, params.level_values@, *boundary)
            },
        decreases codes.len() - i,
    {
        let value = codes[i] as u16;
        let ghost a = codes@.take(i as int);
        let ghost b = codes@.take(i + 1);
        let ghost closed = split_sets(a, maxv).0;
        proof {
            assert(b.drop_last() =~= a);
            lemma_open_set_shape(a, maxv);
            if i > 0 {
                assert(a[0] == codes@[0]);
            }
            lemma_closed_sets_shape(a, maxv);
            lemma_levels_length(closed, maxv, lngu);
            assert(closed.push(run_length@).drop_last() =~= closed);
            lemma_levels_push(closed, run_length@, maxv, lngu);
            if run_length@.len() > 0 {
                lemma_run_count_positive(run_length@, maxv, lngu);
            }
        }
        if value <= maxv && run_length.len() > 0 {
            if !overrun && run_count_at_most(run_length.as_slice(), maxv, lngu, n - number_of_read) {
                let (level, count) = expand_run_length(run_length.as_slice(), maxv, lngu);
                proof {
                    lemma_skip_from_position(*geometry, done.len() as int, count as int);
                }
                output_values(
                    geometry,
                    &params.level_values,
                    boundary,
                    level,
                    count,
                    &mut out,
                    &mut longitude,
                    &mut latitude,
                );
                proof {
                    lemma_rows_extend(done, level, count as nat, *geometry, params.level_values@, *boundary);
                    lemma_simulate_from_position(*geometry, done.len() as int, count as nat);
                    assert(Seq::new(count as nat, |j: int| level) =~= Seq::new(
                        run_count(run_length@, maxv, lngu) as nat,
                        |j: int| run_length@[0],
                    ));
                    done = done + Seq::new(count as nat, |j: int| level);
                }
                number_of_read += count;
            } else {
                let count = saturated_count(run_length.as_slice(), maxv, lngu);
                number_of_read = number_of_read.saturating_add(count);
                overrun = true;
            }
            run_length = Vec::new();
        }
        run_length.push(value);
        i += 1;
    }
    proof {
        assert(codes@.take(codes.len() as int) =~= codes@);
    }
    let ghost closed = split_sets(codes@, maxv).0;
    proof {
        lemma_open_set_shape(codes@, maxv);
        lemma_closed_sets_shape(codes@, maxv);
        lemma_levels_length(closed, maxv, lngu);
        assert(closed.push(run_length@).drop_last() =~= closed);
        lemma_levels_push(closed, run_length@, maxv, lngu);
        if run_length@.len() > 0 {
            lemma_run_count_positive(run_length@, maxv, lngu);
        }
    }
    if run_length.len() > 0 {
        if !overrun && run_count_at_most(run_length.as_slice(), maxv, lngu, n - number_of_read) {
            let (level, count) = expand_run_length(run_length.as_slice(), maxv, lngu);
            proof {
                lemma_skip_from_position(*geometry, done.len() as int, count as int);
            }
            output_values(
                geometry,
                &params.level_values,
                boundary,
                level,
                count,
                &mut out,
                &mut longitude,
                &mut latitude,
            );
            proof {
                lemma_rows_extend(done, level, count as nat, *geometry, params.level_values@, *boundary);
                assert(Seq::new(count as nat, |j: int| level) =~= Seq::new(
                    run_count(run_length@, maxv, lngu) as nat,
                    |j: int| run_length@[0],
                ));
                done = done + Seq::new(count as nat, |j: int| level);
            }
            number_of_read += count;
        } else {
            let count = saturated_count(run_length.as_slice(), maxv, lngu);
            number_of_read = number_of_read.saturating_add(count);
            overrun = true;
        }
    }
    if number_of_read != n {
        return Err(Grib2Error::RunLengthCountMismatch { expected: n, actual: number_of_read });
    }
    proof {
        lemma_levels_are_sum_of_counts(codes@, maxv, lngu);
    }
    Ok(out)
}

} // verus!
