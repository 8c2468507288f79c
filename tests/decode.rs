use grib2csv::{
    expand_run_length, move_lattice_for_missing_values, walk_run_lengths, Boundary,
    BoundaryBuilder, CompressionParams, Field, Grib2Csv, Grib2Error, GridGeometry, GridValue,
};

const NORTH: u32 = 47_995_833;
const WEST: u32 = 118_006_250;
const SOUTH: u32 = 20_004_167;
const EAST: u32 = 149_993_750;
const LON_INC: u32 = 12_500;
const LAT_INC: u32 = 8_333;
const POINTS: u32 = 2_560 * 3_360;

struct FileBuilder {
    magic: [u8; 4],
    month: u8,
    day: u8,
    hour: u8,
    points3: u32,
    points5: u32,
    earth_figure: u8,
    maxv: u16,
    max_level: u16,
    levels: Vec<u16>,
    section7_number: u8,
    codes: Vec<u8>,
    end: [u8; 4],
}

impl FileBuilder {
    fn new(maxv: u16, levels: Vec<u16>, codes: Vec<u8>) -> FileBuilder {
        FileBuilder {
            magic: *b"GRIB",
            month: 8,
            day: 15,
            hour: 12,
            points3: POINTS,
            points5: POINTS,
            earth_figure: 4,
            maxv,
            max_level: levels.len() as u16,
            levels,
            section7_number: 7,
            codes,
            end: *b"7777",
        }
    }

    fn bytes(&self) -> Vec<u8> {
        let mut b = Vec::new();
        // Section 0.
        b.extend_from_slice(&self.magic);
        b.extend_from_slice(&[0, 0, 0, 2]);
        b.extend_from_slice(&0u64.to_be_bytes());
        // Section 1.
        b.extend_from_slice(&21u32.to_be_bytes());
        b.push(1);
        b.extend_from_slice(&[0, 34, 0, 0]);
        b.extend_from_slice(&[2, 1, 0]);
        b.extend_from_slice(&2024u16.to_be_bytes());
        b.extend_from_slice(&[self.month, self.day, self.hour, 30, 0]);
        b.extend_from_slice(&[0, 0]);
        // Section 3.
        b.extend_from_slice(&72u32.to_be_bytes());
        b.push(3);
        b.push(0);
        b.extend_from_slice(&self.points3.to_be_bytes());
        b.extend_from_slice(&[0, 0]);
        b.extend_from_slice(&0u16.to_be_bytes());
        b.push(self.earth_figure);
        b.extend_from_slice(&[0; 15]);
        b.extend_from_slice(&2560u32.to_be_bytes());
        b.extend_from_slice(&3360u32.to_be_bytes());
        b.extend_from_slice(&0u32.to_be_bytes());
        b.extend_from_slice(&[0; 4]);
        b.extend_from_slice(&NORTH.to_be_bytes());
        b.extend_from_slice(&WEST.to_be_bytes());
        b.push(0x30);
        b.extend_from_slice(&SOUTH.to_be_bytes());
        b.extend_from_slice(&EAST.to_be_bytes());
        b.extend_from_slice(&LON_INC.to_be_bytes());
        b.extend_from_slice(&LAT_INC.to_be_bytes());
        b.push(0);
        // Section 4.
        b.extend_from_slice(&9u32.to_be_bytes());
        b.push(4);
        b.extend_from_slice(&[0, 0, 1, 8]);
        // Section 5.
        b.extend_from_slice(&(17 + 2 * self.levels.len() as u32).to_be_bytes());
        b.push(5);
        b.extend_from_slice(&self.points5.to_be_bytes());
        b.extend_from_slice(&200u16.to_be_bytes());
        b.push(8);
        b.extend_from_slice(&self.maxv.to_be_bytes());
        b.extend_from_slice(&self.max_level.to_be_bytes());
        b.push(1);
        for v in &self.levels {
            b.extend_from_slice(&v.to_be_bytes());
        }
        // Section 6.
        b.extend_from_slice(&6u32.to_be_bytes());
        b.extend_from_slice(&[6, 255]);
        // Section 7.
        b.extend_from_slice(&(5 + self.codes.len() as u32).to_be_bytes());
        b.push(self.section7_number);
        b.extend_from_slice(&self.codes);
        // Section 8.
        b.extend_from_slice(&self.end);
        b
    }
}

/// Encodes one run: the level, then the digits of `count - 1` in base
/// `255 - maxv`, least significant first.
fn encode_run(level: u8, count: u32, maxv: u8) -> Vec<u8> {
    let lngu = 255 - maxv as u32;
    let mut codes = vec![level];
    let mut rest = count - 1;
    while rest > 0 {
        codes.push((rest % lngu) as u8 + maxv + 1);
        rest /= lngu;
    }
    codes
}

/// Three points of level 2, skip to the eastern edge, two points of level 1
/// across the wrap, then missing points up to the end.
fn sample_codes() -> Vec<u8> {
    let mut codes = Vec::new();
    codes.extend(encode_run(2, 3, 3));
    codes.extend(encode_run(0, 2556, 3));
    codes.extend(encode_run(1, 2, 3));
    codes.extend(encode_run(0, POINTS - 2561, 3));
    codes
}

fn sample_file() -> FileBuilder {
    FileBuilder::new(3, vec![10, 20, 30], sample_codes())
}

fn row(longitude: u32, latitude: u32, value: u16) -> GridValue {
    GridValue { longitude, latitude, value }
}

fn step(lon: u32, lat: u32, count: u32, inc: u32, latinc: u32, west: u32, east: u32) -> (u32, u32) {
    let (mut lon, mut lat) = (lon, lat);
    for _ in 0..count {
        lon += inc;
        if east < lon {
            lon = west;
            lat -= latinc;
        }
    }
    (lon, lat)
}

#[test]
fn encoded_runs_decode_to_their_counts() {
    let codes: Vec<u16> = encode_run(0, POINTS - 2561, 3).iter().map(|c| *c as u16).collect();
    assert_eq!(codes, vec![0, 4 + 42, 4 + 103, 4 + 135]);
    assert_eq!(expand_run_length(&codes, 3, 252), (0, POINTS - 2561));
}

#[test]
fn single_code_decodes_to_one_point() {
    for v in 0..=77u16 {
        assert_eq!(expand_run_length(&[v], 77, 178), (v, 1));
    }
}

#[test]
fn bounds_are_inclusive_and_one_increment_beyond_is_excluded() {
    let b = BoundaryBuilder::default()
        .northernmost(Some(36_000_000))
        .southernmost(Some(35_000_000))
        .westernmost(Some(135_000_000))
        .easternmost(Some(136_000_000))
        .build();
    assert!(b.contains(135_000_000, 36_000_000));
    assert!(b.contains(136_000_000, 35_000_000));
    assert!(!b.contains(135_000_000, 36_000_001));
    assert!(!b.contains(135_000_000, 34_999_999));
    assert!(!b.contains(134_999_999, 35_000_000));
    assert!(!b.contains(136_000_001, 35_000_000));
}

#[test]
fn builder_without_bounds_contains_everything() {
    let b = BoundaryBuilder::default().northernmost(None).build();
    assert!(b.contains(0, 0));
    assert!(b.contains(u32::MAX, u32::MAX));
    let d = Boundary::default();
    assert!(d.contains(u32::MAX, 0));
}

#[test]
fn builder_sets_each_side() {
    let b = BoundaryBuilder::default().easternmost(Some(10)).build();
    assert!(b.contains(10, 1_000));
    assert!(!b.contains(11, 1_000));
    let b = BoundaryBuilder::default().southernmost(Some(10)).build();
    assert!(!b.contains(5, 9));
}

#[test]
fn missing_move_matches_stepping() {
    let cases = [(135, 40, 10), (135, 40, 11), (145, 40, 50), (130, 40, 45), (149, 40, 25)];
    for (lon, lat, count) in cases {
        let (lon, lat) = (lon * 1_000_000, lat * 1_000_000);
        let one_move = move_lattice_for_missing_values(
            lon, lat, count, 1_000_000, 1_000_000, 130_000_000, 150_000_000,
        );
        let stepped = step(lon, lat, count, 1_000_000, 1_000_000, 130_000_000, 150_000_000);
        assert_eq!(one_move, stepped, "{lon} {lat} {count}");
    }
}

#[test]
fn missing_move_over_a_row_end_matches_stepping() {
    let (w, e, d) = (130_000_000, 150_000_000, 1_000_000);
    assert_eq!(move_lattice_for_missing_values(w, 40_000_000, 20, d, d, w, e), (e, 40_000_000));
    assert_eq!(move_lattice_for_missing_values(w, 40_000_000, 21, d, d, w, e), (w, 39_000_000));
    for count in [20, 21, 40, 42, 63, 1_000] {
        assert_eq!(
            move_lattice_for_missing_values(w, 40_000_000, count, d, d, w, e),
            step(w, 40_000_000, count, d, d, w, e),
            "{count}"
        );
    }
}

#[test]
fn missing_move_on_a_row_that_ends_between_increments() {
    // Columns at 0, 3, 6 and 9: the eastern edge 10 is not a column.
    for (lon, count) in [(0, 4), (0, 5), (9, 1), (6, 11), (3, 100)] {
        assert_eq!(
            move_lattice_for_missing_values(lon, 1_000, count, 3, 2, 0, 10),
            step(lon, 1_000, count, 3, 2, 0, 10),
            "{lon} {count}"
        );
    }
}

#[test]
fn two_missing_moves_add_up() {
    let (w, e, d) = (130_000_000, 150_000_000, 1_000_000);
    let (lon, lat) = move_lattice_for_missing_values(135_000_000, 40_000_000, 17, d, d, w, e);
    assert_eq!(
        move_lattice_for_missing_values(lon, lat, 29, d, d, w, e),
        move_lattice_for_missing_values(135_000_000, 40_000_000, 46, d, d, w, e)
    );
}

#[test]
fn overrun_reports_the_total_of_all_runs() {
    let mut codes = encode_run(0, POINTS + 5, 3);
    codes.extend(encode_run(2, 7, 3));
    codes.extend(encode_run(1, 1, 3));
    let grib = Grib2Csv::new(FileBuilder::new(3, vec![10, 20, 30], codes).bytes(), true).unwrap();
    assert_eq!(
        grib.convert(&Boundary::default()).err(),
        Some(Grib2Error::RunLengthCountMismatch { expected: POINTS, actual: POINTS + 13 })
    );
}

#[test]
fn overrun_total_saturates() {
    // Five continuation digits of 251 in base 252: 252^5 points.
    let mut codes = vec![1u8, 255, 255, 255, 255, 255];
    codes.extend(encode_run(0, 4, 3));
    let grib = Grib2Csv::new(FileBuilder::new(3, vec![10, 20, 30], codes).bytes(), true).unwrap();
    assert_eq!(
        grib.convert(&Boundary::default()).err(),
        Some(Grib2Error::RunLengthCountMismatch { expected: POINTS, actual: u32::MAX })
    );
}

#[test]
fn converts_a_whole_file() {
    let grib = Grib2Csv::new(sample_file().bytes(), true).unwrap();
    assert!(grib.with_header());
    let rows = grib.convert(&Boundary::default()).unwrap();
    assert_eq!(
        rows,
        vec![
            row(WEST, NORTH, 20),
            row(WEST + LON_INC, NORTH, 20),
            row(WEST + 2 * LON_INC, NORTH, 20),
            row(EAST, NORTH, 10),
            row(WEST, NORTH - LAT_INC, 10),
        ]
    );
}

#[test]
fn converts_only_points_inside_the_boundary() {
    let grib = Grib2Csv::new(sample_file().bytes(), false).unwrap();
    assert!(!grib.with_header());
    let boundary = BoundaryBuilder::default().easternmost(Some(WEST + LON_INC)).build();
    let rows = grib.convert(&boundary).unwrap();
    assert_eq!(
        rows,
        vec![row(WEST, NORTH, 20), row(WEST + LON_INC, NORTH, 20), row(WEST, NORTH - LAT_INC, 10)]
    );
}

#[test]
fn missing_run_over_whole_rows_keeps_the_raster() {
    let mut codes = Vec::new();
    codes.extend(encode_run(0, 2 * 2559 + 5, 3));
    codes.extend(encode_run(3, 1, 3));
    codes.extend(encode_run(0, 2559, 3));
    codes.extend(encode_run(1, 1, 3));
    codes.extend(encode_run(0, POINTS - 2 * 2559 - 5 - 1 - 2559 - 1, 3));
    let grib = Grib2Csv::new(FileBuilder::new(3, vec![10, 20, 30], codes).bytes(), true).unwrap();
    let rows = grib.convert(&Boundary::default()).unwrap();
    // Point 5123 is column 3 of row 2; 2560 points later comes column 3 of row 3.
    assert_eq!(
        rows,
        vec![
            row(WEST + 3 * LON_INC, NORTH - 2 * LAT_INC, 30),
            row(WEST + 3 * LON_INC, NORTH - 3 * LAT_INC, 10),
        ]
    );
}

#[test]
fn point_count_mismatch_aborts_open() {
    let mut file = sample_file();
    file.points5 = POINTS - 1;
    let r = Grib2Csv::new(file.bytes(), true);
    assert_eq!(
        r.err(),
        Some(Grib2Error::PointCountMismatch { section_a: POINTS, section_b: POINTS - 1 })
    );
}

#[test]
fn truncated_compressed_data_is_rejected() {
    let bytes = sample_file().bytes();
    let cut = bytes.len() - 6;
    let grib = Grib2Csv::new(bytes[..cut].to_vec(), true).unwrap();
    assert_eq!(grib.convert(&Boundary::default()).err(), Some(Grib2Error::TruncatedRead));
}

#[test]
fn short_runs_are_a_count_mismatch() {
    let mut codes = sample_codes();
    codes.pop();
    let grib = Grib2Csv::new(FileBuilder::new(3, vec![10, 20, 30], codes).bytes(), true).unwrap();
    // The last run loses its most significant digit: 1 + 42 + 103 * 252 points.
    assert_eq!(
        grib.convert(&Boundary::default()).err(),
        Some(Grib2Error::RunLengthCountMismatch { expected: POINTS, actual: 2561 + 25999 })
    );
}

#[test]
fn too_many_points_are_a_count_mismatch() {
    let mut codes = sample_codes();
    codes.extend(encode_run(1, 1, 3));
    let grib = Grib2Csv::new(FileBuilder::new(3, vec![10, 20, 30], codes).bytes(), true).unwrap();
    assert_eq!(
        grib.convert(&Boundary::default()).err(),
        Some(Grib2Error::RunLengthCountMismatch { expected: POINTS, actual: POINTS + 1 })
    );
}

#[test]
fn leading_continuation_code_is_rejected() {
    let mut codes = vec![200u8];
    codes.extend(sample_codes());
    let grib = Grib2Csv::new(FileBuilder::new(3, vec![10, 20, 30], codes).bytes(), true).unwrap();
    assert_eq!(
        grib.convert(&Boundary::default()).err(),
        Some(Grib2Error::MisplacedContinuationCode)
    );
}

#[test]
fn missing_end_marker_is_rejected() {
    let mut file = sample_file();
    file.end = *b"7778";
    let grib = Grib2Csv::new(file.bytes(), true).unwrap();
    assert_eq!(grib.convert(&Boundary::default()).err(), Some(Grib2Error::MissingEndMarker));
}

#[test]
fn wrong_section_number_is_rejected() {
    let mut file = sample_file();
    file.section7_number = 8;
    let grib = Grib2Csv::new(file.bytes(), true).unwrap();
    assert_eq!(
        grib.convert(&Boundary::default()).err(),
        Some(Grib2Error::SectionNumberMismatch { expected: 7, actual: 8 })
    );
}

#[test]
fn bad_magic_is_rejected() {
    let mut file = sample_file();
    file.magic = *b"GRIC";
    assert_eq!(Grib2Csv::new(file.bytes(), true).err(), Some(Grib2Error::MalformedMagic));
    assert_eq!(Grib2Csv::new(b"GR".to_vec(), true).err(), Some(Grib2Error::MalformedMagic));
}

#[test]
fn unexpected_constant_names_the_field() {
    let mut file = sample_file();
    file.earth_figure = 6;
    assert_eq!(
        Grib2Csv::new(file.bytes(), true).err(),
        Some(Grib2Error::UnexpectedConstant { field: Field::EarthFigure, expected: 4, actual: 6 })
    );
}

#[test]
fn invalid_reference_times_are_rejected() {
    for (month, day, hour) in [(13, 1, 0), (0, 1, 0), (2, 30, 0), (4, 31, 0), (1, 0, 0), (1, 1, 24)] {
        let mut file = sample_file();
        file.month = month;
        file.day = day;
        file.hour = hour;
        assert_eq!(
            Grib2Csv::new(file.bytes(), true).err(),
            Some(Grib2Error::InvalidDateTime),
            "{month} {day} {hour}"
        );
    }
}

#[test]
fn valid_reference_times_are_accepted() {
    for (month, day, hour) in [(2, 29, 0), (12, 31, 23), (1, 1, 0)] {
        let mut file = sample_file();
        file.month = month;
        file.day = day;
        file.hour = hour;
        assert!(Grib2Csv::new(file.bytes(), true).is_ok(), "{month} {day} {hour}");
    }
}

#[test]
fn grid_of_another_shape_is_rejected() {
    let mut file = sample_file();
    file.points3 = POINTS + 1;
    file.points5 = POINTS + 1;
    assert_eq!(Grib2Csv::new(file.bytes(), true).err(), Some(Grib2Error::InvalidGrid));
}

#[test]
fn level_beyond_the_table_is_rejected() {
    let mut file = sample_file();
    file.maxv = 4;
    file.max_level = 4;
    assert_eq!(
        Grib2Csv::new(file.bytes(), true).err(),
        Some(Grib2Error::InvalidLevels { max_level_at_file: 4, max_level: 4, number_of_levels: 3 })
    );
}

#[test]
fn truncated_header_is_rejected() {
    let bytes = sample_file().bytes();
    assert_eq!(Grib2Csv::new(bytes[..40].to_vec(), true).err(), Some(Grib2Error::TruncatedRead));
}

#[test]
fn walker_reports_levels_through_the_table() {
    let geometry = GridGeometry {
        number_of_points: POINTS,
        northernmost: NORTH,
        westernmost: WEST,
        southernmost: SOUTH,
        easternmost: EAST,
        longitude_increment: LON_INC,
        latitude_increment: LAT_INC,
    };
    let params = CompressionParams {
        number_of_points: POINTS,
        bits_per_data: 8,
        max_level_at_file: 3,
        max_level: 3,
        level_values: vec![10, 20, 30],
    };
    let mut codes = encode_run(3, 1, 3);
    codes.extend(encode_run(0, POINTS - 1, 3));
    let rows = walk_run_lengths(&codes, &geometry, &params, &Boundary::default()).unwrap();
    assert_eq!(rows, vec![row(WEST, NORTH, 30)]);
}
