use vstd::prelude::*;
use crate::datetime::{is_calendar_date, is_time_of_day, ReferenceTime};
use crate::error::{Field, Grib2Error};
use crate::grid::{
    CompressionParams,
    GridGeometry,
    NUMBER_OF_POINT_AT_HORIZONTAL,
    NUMBER_OF_POINT_AT_VERTICAL,
};
use crate::reader::{be16, be32, read_u16, read_u32, read_u8, skip};

verus! {

/// `GRIB` in ASCII: the first four bytes of a file.
pub const GRIB_MAGIC: u32 = 0x4752_4942;
/// `7777` in ASCII: the last four bytes of a file.
pub const END_MARKER: u32 = 0x3737_3737;

/// Section 0: meteorological products.
pub const DOCUMENT_DOMAIN: u8 = 0;
/// Section 0: GRIB edition.
pub const GRIB_VERSION: u8 = 2;
/// Section 1: version of the master tables.
pub const GRIB_MASTER_TABLE_VERSION: u8 = 2;
/// Section 1: version of the local tables.
pub const GRIB_LOCAL_TABLE_VERSION: u8 = 1;
/// Section 1: operational products.
pub const CREATION_STATUS: u8 = 0;
/// Section 1: analysis products.
pub const DOCUMENT_KIND: u8 = 0;
/// Section 3: grid defined by a template.
pub const GRID_SYSTEM_DEFINITION: u8 = 0;
/// Section 3: latitude/longitude grid (equidistant cylindrical).
pub const GRID_SYSTEM_DEFINITION_TEMPLATE: u16 = 0;
/// Section 3: GRS80 oblate spheroid.
pub const EARTH_FIGURE: u8 = 4;
/// Section 3: basic angle of the initial production domain.
pub const CREATION_RANGE_ANGLE: u32 = 0;
/// Section 3: scanning west to east, then north to south.
pub const SCANNING_MODE: u8 = 0x00;
/// Section 5: run-length packing with level values.
pub const DOCUMENT_EXPRESSION_TEMPLATE: u16 = 200;
/// Section 5: bits per code.
pub const BITS_PER_DATA: u8 = 8;
/// Section 5: decimal scale factor of the level values.
pub const DATA_VALUE_FACTOR: u8 = 1;

/// Length of section 0.
pub const SECTION0_LENGTH: usize = 16;
/// Length of section 1 (section 2 is absent from this product).
pub const SECTION1_LENGTH: usize = 21;
/// Length of section 3.
pub const SECTION3_LENGTH: usize = 72;
/// Length of the fixed part of section 5, before the level table.
pub const SECTION5_HEADER_LENGTH: usize = 17;
/// Length of section 6.
pub const SECTION6_LENGTH: usize = 6;

pub open spec fn unexpected(field: Field, expected: int, actual: int) -> Grib2Error {
    Grib2Error::UnexpectedConstant { field, expected: expected as u32, actual: actual as u32 }
}

pub open spec fn mismatch(expected: int, actual: u8) -> Grib2Error {
    Grib2Error::SectionNumberMismatch { expected: expected as u8, actual }
}

/// Checks of section 0 at `p`, in file order; the end of the section on
/// success.
pub open spec fn section0_result(s: Seq<u8>, p: int) -> Result<int, Grib2Error> {
    if p + 4 > s.len() || be32(s, p) != GRIB_MAGIC {
        Err(Grib2Error::MalformedMagic)
    } else if p + SECTION0_LENGTH > s.len() {
        Err(Grib2Error::TruncatedRead)
    } else if s[p + 6] != DOCUMENT_DOMAIN {
        Err(unexpected(Field::DocumentDomain, DOCUMENT_DOMAIN as int, s[p + 6] as int))
    } else if s[p + 7] != GRIB_VERSION {
        Err(unexpected(Field::GribVersion, GRIB_VERSION as int, s[p + 7] as int))
    } else {
        Ok(p + SECTION0_LENGTH)
    }
}

/// The reference time recorded in section 1 at `p`.
pub open spec fn reference_time_at(s: Seq<u8>, p: int) -> ReferenceTime {
    ReferenceTime {
        year: be16(s, p + 12) as u16,
        month: s[p + 14],
        day: s[p + 15],
        hour: s[p + 16],
        minute: s[p + 17],
        second: s[p + 18],
    }
}

/// Checks of section 1 at `p`, in file order; the end of the section on
/// success.
pub open spec fn section1_result(s: Seq<u8>, p: int) -> Result<int, Grib2Error> {
    if p + SECTION1_LENGTH > s.len() {
        Err(Grib2Error::TruncatedRead)
    } else if s[p + 4] != 1 {
        Err(mismatch(1, s[p + 4]))
    } else if s[p + 9] != GRIB_MASTER_TABLE_VERSION {
        Err(unexpected(Field::MasterTableVersion, GRIB_MASTER_TABLE_VERSION as int, s[p + 9] as int))
    } else if s[p + 10] != GRIB_LOCAL_TABLE_VERSION {
        Err(unexpected(Field::LocalTableVersion, GRIB_LOCAL_TABLE_VERSION as int, s[p + 10] as int))
    } else if !reference_time_at(s, p).spec_is_valid() {
        Err(Grib2Error::InvalidDateTime)
    } else if s[p + 19] != CREATION_STATUS {
        Err(unexpected(Field::CreationStatus, CREATION_STATUS as int, s[p + 19] as int))
    } else if s[p + 20] != DOCUMENT_KIND {
        Err(unexpected(Field::DocumentKind, DOCUMENT_KIND as int, s[p + 20] as int))
    } else {
        Ok(p + SECTION1_LENGTH)
    }
}

/// The grid definition recorded in section 3 at `p`.
pub open spec fn geometry_at(s: Seq<u8>, p: int) -> GridGeometry {
    GridGeometry {
        number_of_points: be32(s, p + 6) as u32,
        northernmost: be32(s, p + 46) as u32,
        westernmost: be32(s, p + 50) as u32,
        southernmost: be32(s, p + 55) as u32,
        easternmost: be32(s, p + 59) as u32,
        longitude_increment: be32(s, p + 63) as u32,
        latitude_increment: be32(s, p + 67) as u32,
    }
}

/// Checks of section 3 at `p`, in file order; the grid on success.
pub open spec fn section3_result(s: Seq<u8>, p: int) -> Result<GridGeometry, Grib2Error> {
    if p + SECTION3_LENGTH > s.len() {
        Err(Grib2Error::TruncatedRead)
    } else if s[p + 4] != 3 {
        Err(mismatch(3, s[p + 4]))
    } else if s[p + 5] != GRID_SYSTEM_DEFINITION {
        Err(unexpected(Field::GridSystemDefinition, GRID_SYSTEM_DEFINITION as int, s[p + 5] as int))
    } else if be16(s, p + 12) != GRID_SYSTEM_DEFINITION_TEMPLATE {
        Err(
            unexpected(
                Field::GridSystemDefinitionTemplate,
                GRID_SYSTEM_DEFINITION_TEMPLATE as int,
                be16(s, p + 12),
            ),
        )
    } else if s[p + 14] != EARTH_FIGURE {
        Err(unexpected(Field::EarthFigure, EARTH_FIGURE as int, s[p + 14] as int))
    } else if be32(s, p + 30) != NUMBER_OF_POINT_AT_VERTICAL {
        Err(
            unexpected(
                Field::NumberOfPointsAtVertical,
                NUMBER_OF_POINT_AT_VERTICAL as int,
                be32(s, p + 30),
            ),
        )
    } else if be32(s, p + 34) != NUMBER_OF_POINT_AT_HORIZONTAL {
        Err(
            unexpected(
                Field::NumberOfPointsAtHorizontal,
                NUMBER_OF_POINT_AT_HORIZONTAL as int,
                be32(s, p + 34),
            ),
        )
    } else if be32(s, p + 38) != CREATION_RANGE_ANGLE {
        Err(unexpected(Field::CreationRangeAngle, CREATION_RANGE_ANGLE as int, be32(s, p + 38)))
    } else if s[p + 71] != SCANNING_MODE {
        Err(unexpected(Field::ScanningMode, SCANNING_MODE as int, s[p + 71] as int))
    } else if !geometry_at(s, p).wf() {
        Err(Grib2Error::InvalidGrid)
    } else {
        Ok(geometry_at(s, p))
    }
}

/// Checks of section 4 at `p`, which is skipped whole; the end of the
/// section on success.
pub open spec fn section4_result(s: Seq<u8>, p: int) -> Result<int, Grib2Error> {
    if p + 5 > s.len() {
        Err(Grib2Error::TruncatedRead)
    } else if s[p + 4] != 4 {
        Err(mismatch(4, s[p + 4]))
    } else if be32(s, p) < 5 {
        Err(Grib2Error::InvalidSectionLength { section: 4, length: be32(s, p) as u32 })
    } else if p + be32(s, p) > s.len() {
        Err(Grib2Error::TruncatedRead)
    } else {
        Ok(p + be32(s, p))
    }
}

/// Number of level values that section 5 at `p` announces.
pub open spec fn level_count(s: Seq<u8>, p: int) -> int {
    (be32(s, p) - SECTION5_HEADER_LENGTH) / 2
}

/// The level table of section 5 at `p`: the value of level `i + 1` at `i`.
pub open spec fn level_table(s: Seq<u8>, p: int) -> Seq<u16> {
    Seq::new(level_count(s, p) as nat, |i: int| be16(s, p + 17 + 2 * i) as u16)
}

/// Checks of section 5 at `p`, in file order; the end of the level table
/// on success.
pub open spec fn section5_result(s: Seq<u8>, p: int) -> Result<int, Grib2Error> {
    let max_level_at_file = be16(s, p + 12);
    let max_level = be16(s, p + 14);
    if p + SECTION5_HEADER_LENGTH > s.len() {
        Err(Grib2Error::TruncatedRead)
    } else if s[p + 4] != 5 {
        Err(mismatch(5, s[p + 4]))
    } else if be16(s, p + 9) != DOCUMENT_EXPRESSION_TEMPLATE {
        Err(
            unexpected(
                Field::DocumentExpressionTemplate,
                DOCUMENT_EXPRESSION_TEMPLATE as int,
                be16(s, p + 9),
            ),
        )
    } else if s[p + 11] != BITS_PER_DATA {
        Err(unexpected(Field::BitsPerData, BITS_PER_DATA as int, s[p + 11] as int))
    } else if s[p + 16] != DATA_VALUE_FACTOR {
        Err(unexpected(Field::DataValueFactor, DATA_VALUE_FACTOR as int, s[p + 16] as int))
    } else if be32(s, p) < SECTION5_HEADER_LENGTH {
        Err(Grib2Error::InvalidSectionLength { section: 5, length: be32(s, p) as u32 })
    } else if p + SECTION5_HEADER_LENGTH + 2 * level_count(s, p) > s.len() {
        Err(Grib2Error::TruncatedRead)
    } else if !(max_level_at_file <= max_level && max_level_at_file <= u8::MAX && max_level_at_file
        <= level_count(s, p)) {
        Err(
            Grib2Error::InvalidLevels {
                max_level_at_file: max_level_at_file as u16,
                max_level: max_level as u16,
                number_of_levels: level_count(s, p) as usize,
            },
        )
    } else {
        Ok(p + SECTION5_HEADER_LENGTH + 2 * level_count(s, p))
    }
}

/// Checks of section 6 at `p`; the end of the section on success.
pub open spec fn section6_result(s: Seq<u8>, p: int) -> Result<int, Grib2Error> {
    if p + SECTION6_LENGTH > s.len() {
        Err(Grib2Error::TruncatedRead)
    } else if s[p + 4] != 6 {
        Err(mismatch(6, s[p + 4]))
    } else {
        Ok(p + SECTION6_LENGTH)
    }
}

/// Checks of the header of section 7 at `p`; the end of the compressed
/// codes on success.
pub open spec fn section7_result(s: Seq<u8>, p: int) -> Result<int, Grib2Error> {
    if p + 5 > s.len() {
        Err(Grib2Error::TruncatedRead)
    } else if s[p + 4] != 7 {
        Err(mismatch(7, s[p + 4]))
    } else if be32(s, p) < 5 {
        Err(Grib2Error::InvalidSectionLength { section: 7, length: be32(s, p) as u32 })
    } else if p + be32(s, p) > s.len() {
        Err(Grib2Error::TruncatedRead)
    } else {
        Ok(p + be32(s, p))
    }
}

/// Section 8 at `p` is the end marker.
pub open spec fn section8_ok(s: Seq<u8>, p: int) -> bool {
    p + 4 <= s.len() && be32(s, p) == END_MARKER
}

/// Reads a byte that must equal `expected`.
fn expect_u8(data: &[u8], pos: &mut usize, field: Field, expected: u8) -> (r: Result<(), Grib2Error>)
    requires
        *old(pos) + 1 <= data@.len(),
    ensures
        *final(pos) == *old(pos) + 1,
        data@[*old(pos) as int] == expected ==> r is Ok,
        data@[*old(pos) as int] != expected ==> r == Err::<(), Grib2Error>(
            unexpected(field, expected as int, data@[*old(pos) as int] as int),
        ),
{
    let value = read_u8(data, pos)?;
    if value != expected {
        return Err(
            Grib2Error::UnexpectedConstant { field, expected: expected as u32, actual: value as u32 },
        );
    }
    Ok(())
}

/// Reads a big-endian `u16` that must equal `expected`.
fn expect_u16(data: &[u8], pos: &mut usize, field: Field, expected: u16) -> (r: Result<(), Grib2Error>)
    requires
        *old(pos) + 2 <= data@.len(),
    ensures
        *final(pos) == *old(pos) + 2,
        be16(data@, *old(pos) as int) == expected ==> r is Ok,
        be16(data@, *old(pos) as int) != expected ==> r == Err::<(), Grib2Error>(
            unexpected(field, expected as int, be16(data@, *old(pos) as int)),
        ),
{
    let value = read_u16(data, pos)?;
    if value != expected {
        return Err(
            Grib2Error::UnexpectedConstant { field, expected: expected as u32, actual: value as u32 },
        );
    }
    Ok(())
}

/// Reads a big-endian `u32` that must equal `expected`.
fn expect_u32(data: &[u8], pos: &mut usize, field: Field, expected: u32) -> (r: Result<(), Grib2Error>)
    requires
        *old(pos) + 4 <= data@.len(),
    ensures
        *final(pos) == *old(pos) + 4,
        be32(data@, *old(pos) as int) == expected ==> r is Ok,
        be32(data@, *old(pos) as int) != expected ==> r == Err::<(), Grib2Error>(
            unexpected(field, expected as int, be32(data@, *old(pos) as int)),
        ),
{
    let value = read_u32(data, pos)?;
    if value != expected {
        return Err(Grib2Error::UnexpectedConstant { field, expected, actual: value });
    }
    Ok(())
}

/// Reads a section number that must equal `expected`.
fn expect_section_number(data: &[u8], pos: &mut usize, expected: u8) -> (r: Result<(), Grib2Error>)
    requires
        *old(pos) + 1 <= data@.len(),
    ensures
        *final(pos) == *old(pos) + 1,
        data@[*old(pos) as int] == expected ==> r is Ok,
        data@[*old(pos) as int] != expected ==> r == Err::<(), Grib2Error>(
            mismatch(expected as int, data@[*old(pos) as int]),
        ),
{
    let number = read_u8(data, pos)?;
    if number != expected {
        return Err(Grib2Error::SectionNumberMismatch { expected, actual: number });
    }
    Ok(())
}

/// Reads and checks section 0: the magic, the domain and the edition.
pub fn read_section0(data: &[u8], pos: &mut usize) -> (r: Result<(), Grib2Error>)
    requires
        *old(pos) <= data@.len(),
    ensures
        r is Ok <==> section0_result(data@, *old(pos) as int) is Ok,
        r is Ok ==> *final(pos) == section0_result(data@, *old(pos) as int)->Ok_0,
        r is Err ==> r->Err_0 == section0_result(data@, *old(pos) as int)->Err_0,
{
    let p = *pos;
    let magic = match read_u32(data, pos) {
        Ok(v) => v,
        Err(_) => return Err(Grib2Error::MalformedMagic),
    };
    if magic != GRIB_MAGIC {
        return Err(Grib2Error::MalformedMagic);
    }
    if data.len() - p < SECTION0_LENGTH {
        return Err(Grib2Error::TruncatedRead);
    }
    // Reserved.
    skip(data, pos, 2)?;
    expect_u8(data, pos, Field::DocumentDomain, DOCUMENT_DOMAIN)?;
    expect_u8(data, pos, Field::GribVersion, GRIB_VERSION)?;
    // Total length of the message.
    skip(data, pos, 8)?;
    Ok(())
}

/// Reads the reference time of section 1 and checks that it names an
/// existing instant.
fn read_section1_referenced_at(data: &[u8], pos: &mut usize) -> (r: Result<ReferenceTime, Grib2Error>)
    ensures
        *old(pos) + 7 > data@.len() ==> r == Err::<ReferenceTime, Grib2Error>(
            Grib2Error::TruncatedRead,
        ),
        *old(pos) + 7 <= data@.len() ==> *final(pos) == *old(pos) + 7,
        *old(pos) + 7 <= data@.len() && reference_time_at(data@, *old(pos) - 12).spec_is_valid()
            ==> r == Ok::<ReferenceTime, Grib2Error>(reference_time_at(data@, *old(pos) - 12)),
        *old(pos) + 7 <= data@.len() && !reference_time_at(data@, *old(pos) - 12).spec_is_valid()
            ==> r == Err::<ReferenceTime, Grib2Error>(Grib2Error::InvalidDateTime),
{
    let year = read_u16(data, pos)?;
    let month = read_u8(data, pos)?;
    let day = read_u8(data, pos)?;
    let hour = read_u8(data, pos)?;
    let minute = read_u8(data, pos)?;
    let second = read_u8(data, pos)?;
    let time = ReferenceTime { year, month, day, hour, minute, second };
    if !time.is_valid() {
        return Err(Grib2Error::InvalidDateTime);
    }
    Ok(time)
}

/// Reads and checks section 1: table versions, reference time, status and
/// kind of the data.
pub fn read_section1(data: &[u8], pos: &mut usize) -> (r: Result<(), Grib2Error>)
    requires
        *old(pos) <= data@.len(),
    ensures
        r is Ok <==> section1_result(data@, *old(pos) as int) is Ok,
        r is Ok ==> *final(pos) == section1_result(data@, *old(pos) as int)->Ok_0,
        r is Err ==> r->Err_0 == section1_result(data@, *old(pos) as int)->Err_0,
{
    if data.len() - *pos < SECTION1_LENGTH {
        return Err(Grib2Error::TruncatedRead);
    }
    // Length of the section.
    skip(data, pos, 4)?;
    expect_section_number(data, pos, 1)?;
    // Originating centre and sub-centre.
    skip(data, pos, 4)?;
    expect_u8(data, pos, Field::MasterTableVersion, GRIB_MASTER_TABLE_VERSION)?;
    expect_u8(data, pos, Field::LocalTableVersion, GRIB_LOCAL_TABLE_VERSION)?;
    // Significance of the reference time.
    skip(data, pos, 1)?;
    read_section1_referenced_at(data, pos)?;
    expect_u8(data, pos, Field::CreationStatus, CREATION_STATUS)?;
    expect_u8(data, pos, Field::DocumentKind, DOCUMENT_KIND)?;
    Ok(())
}

/// Tells whether the grid definition describes this product's mesh.
fn grid_is_consistent(g: &GridGeometry) -> (r: bool)
    ensures
        r == g.wf(),
{
    let columns = NUMBER_OF_POINT_AT_VERTICAL as u64;
    let rows = NUMBER_OF_POINT_AT_HORIZONTAL as u64;
    proof {
        assert((columns - 1) * g.longitude_increment <= 4096 * u32::MAX) by (nonlinear_arith)
            requires
                columns == 2560,
                g.longitude_increment <= u32::MAX,
        ;
        assert(rows * g.latitude_increment <= 4096 * u32::MAX) by (nonlinear_arith)
            requires
                rows == 3360,
                g.latitude_increment <= u32::MAX,
        ;
    }
    g.westernmost < g.easternmost && g.southernmost < g.northernmost && 0 < g.longitude_increment
        && (g.easternmost - g.westernmost) as u64 == (columns - 1) * g.longitude_increment as u64
        && g.easternmost as u64 + g.longitude_increment as u64 <= u32::MAX as u64 && rows
        * g.latitude_increment as u64 <= g.northernmost as u64 && g.number_of_points as u64 == rows
        * columns
}

/// Reads and checks section 3, the grid definition.
pub fn read_section3(data: &[u8], pos: &mut usize) -> (r: Result<GridGeometry, Grib2Error>)
    requires
        *old(pos) <= data@.len(),
    ensures
        r is Ok <==> section3_result(data@, *old(pos) as int) is Ok,
        r is Ok ==> r->Ok_0 == section3_result(data@, *old(pos) as int)->Ok_0 && *final(pos)
            == *old(pos) + SECTION3_LENGTH,
        r is Err ==> r->Err_0 == section3_result(data@, *old(pos) as int)->Err_0,
{
    if data.len() - *pos < SECTION3_LENGTH {
        return Err(Grib2Error::TruncatedRead);
    }
    // Length of the section.
    skip(data, pos, 4)?;
    expect_section_number(data, pos, 3)?;
    expect_u8(data, pos, Field::GridSystemDefinition, GRID_SYSTEM_DEFINITION)?;
    let number_of_points = read_u32(data, pos)?;
    // Octets for optional list of numbers and its interpretation.
    skip(data, pos, 2)?;
    expect_u16(
        data,
        pos,
        Field::GridSystemDefinitionTemplate,
        GRID_SYSTEM_DEFINITION_TEMPLATE,
    )?;
    expect_u8(data, pos, Field::EarthFigure, EARTH_FIGURE)?;
    // Radius and axes of the earth, each a scale factor and a scaled value.
    skip(data, pos, 15)?;
    expect_u32(data, pos, Field::NumberOfPointsAtVertical, NUMBER_OF_POINT_AT_VERTICAL)?;
    expect_u32(data, pos, Field::NumberOfPointsAtHorizontal, NUMBER_OF_POINT_AT_HORIZONTAL)?;
    expect_u32(data, pos, Field::CreationRangeAngle, CREATION_RANGE_ANGLE)?;
    // Subdivisions of the basic angle.
    skip(data, pos, 4)?;
    let northernmost = read_u32(data, pos)?;
    let westernmost = read_u32(data, pos)?;
    // Resolution and component flags.
    skip(data, pos, 1)?;
    let southernmost = read_u32(data, pos)?;
    let easternmost = read_u32(data, pos)?;
    let longitude_increment = read_u32(data, pos)?;
    let latitude_increment = read_u32(data, pos)?;
    expect_u8(data, pos, Field::ScanningMode, SCANNING_MODE)?;
    let geometry = GridGeometry {
        number_of_points,
        northernmost,
        westernmost,
        southernmost,
        easternmost,
        longitude_increment,
        latitude_increment,
    };
    if !grid_is_consistent(&geometry) {
        return Err(Grib2Error::InvalidGrid);
    }
    Ok(geometry)
}

/// Reads section 4 and skips it by its announced length.
pub fn read_section4(data: &[u8], pos: &mut usize) -> (r: Result<(), Grib2Error>)
    requires
        *old(pos) <= data@.len(),
    ensures
        r is Ok <==> section4_result(data@, *old(pos) as int) is Ok,
        r is Ok ==> *final(pos) == section4_result(data@, *old(pos) as int)->Ok_0,
        r is Err ==> r->Err_0 == section4_result(data@, *old(pos) as int)->Err_0,
{
    let p = *pos;
    if data.len() - p < 5 {
        return Err(Grib2Error::TruncatedRead);
    }
    let length = read_u32(data, pos)?;
    expect_section_number(data, pos, 4)?;
    if length < 5 {
        return Err(Grib2Error::InvalidSectionLength { section: 4, length });
    }
    if length as u64 > (data.len() - p) as u64 {
        return Err(Grib2Error::TruncatedRead);
    }
    skip(data, pos, (length - 5) as usize)?;
    Ok(())
}

/// Reads and checks section 5: the compression parameters and the table of
/// level values.
pub fn read_section5(data: &[u8], pos: &mut usize) -> (r: Result<CompressionParams, Grib2Error>)
    requires
        *old(pos) <= data@.len(),
    ensures
        r is Ok <==> section5_result(data@, *old(pos) as int) is Ok,
        r is Ok ==> {
            let p = *old(pos) as int;
            let c = r->Ok_0;
            &&& *final(pos) == section5_result(data@, p)->Ok_0
            &&& c.number_of_points == be32(data@, p + 5)
            &&& c.bits_per_data == data@[p + 11]
            &&& c.max_level_at_file == be16(data@, p + 12)
            &&& c.max_level == be16(data@, p + 14)
            &&& c.level_values@ == level_table(data@, p)
            &&& c.wf()
        },
        r is Err ==> r->Err_0 == section5_result(data@, *old(pos) as int)->Err_0,
{
    let p = *pos;
    if data.len() - p < SECTION5_HEADER_LENGTH {
        return Err(Grib2Error::TruncatedRead);
    }
    let length = read_u32(data, pos)?;
    expect_section_number(data, pos, 5)?;
    let number_of_points = read_u32(data, pos)?;
    expect_u16(data, pos, Field::DocumentExpressionTemplate, DOCUMENT_EXPRESSION_TEMPLATE)?;
    let bits_per_data = read_u8(data, pos)?;
    if bits_per_data != BITS_PER_DATA {
        return Err(
            Grib2Error::UnexpectedConstant {
                field: Field::BitsPerData,
                expected: BITS_PER_DATA as u32,
                actual: bits_per_data as u32,
            },
        );
    }
    let max_level_at_file = read_u16(data, pos)?;
    let max_level = read_u16(data, pos)?;
    expect_u8(data, pos, Field::DataValueFactor, DATA_VALUE_FACTOR)?;
    if length < SECTION5_HEADER_LENGTH as u32 {
        return Err(Grib2Error::InvalidSectionLength { section: 5, length });
    }
    let number_of_levels = ((length - SECTION5_HEADER_LENGTH as u32) / 2) as usize;
    if (data.len() - p - SECTION5_HEADER_LENGTH) / 2 < number_of_levels {
        return Err(Grib2Error::TruncatedRead);
    }
    if !(max_level_at_file <= max_level && max_level_at_file <= u8::MAX as u16
        && (max_level_at_file as usize) <= number_of_levels) {
        return Err(Grib2Error::InvalidLevels { max_level_at_file, max_level, number_of_levels });
    }
    let mut level_values: Vec<u16> = Vec::new();
    let mut k: usize = 0;
    while k < number_of_levels
        invariant
            0 <= k <= number_of_levels,
            number_of_levels == level_count(data@, p as int),
            p + SECTION5_HEADER_LENGTH + 2 * number_of_levels <= data@.len(),
            *pos == p + SECTION5_HEADER_LENGTH + 2 * k,
            level_values@ == level_table(data@, p as int).take(k as int),
        decreases number_of_levels - k,
    {
        let value = read_u16(data, pos)?;
        level_values.push(value);
        k += 1;
        assert(level_values@ =~= level_table(data@, p as int).take(k as int));
    }
    assert(level_values@ =~= level_table(data@, p as int));
    Ok(CompressionParams { number_of_points, bits_per_data, max_level_at_file, max_level, level_values })
}

/// Reads section 6; its bitmap indicator is not used.
pub fn read_section6(data: &[u8], pos: &mut usize) -> (r: Result<(), Grib2Error>)
    requires
        *old(pos) <= data@.len(),
    ensures
        r is Ok <==> section6_result(data@, *old(pos) as int) is Ok,
        r is Ok ==> *final(pos) == section6_result(data@, *old(pos) as int)->Ok_0,
        r is Err ==> r->Err_0 == section6_result(data@, *old(pos) as int)->Err_0,
{
    if data.len() - *pos < SECTION6_LENGTH {
        return Err(Grib2Error::TruncatedRead);
    }
    // Length of the section.
    skip(data, pos, 4)?;
    expect_section_number(data, pos, 6)?;
    // Bitmap indicator.
    skip(data, pos, 1)?;
    Ok(())
}

/// Reads the header of section 7 and returns the end of its compressed
/// codes, which start at the cursor.
pub fn read_section7_header(data: &[u8], pos: &mut usize) -> (r: Result<usize, Grib2Error>)
    requires
        *old(pos) <= data@.len(),
    ensures
        r is Ok <==> section7_result(data@, *old(pos) as int) is Ok,
        r is Ok ==> r->Ok_0 == section7_result(data@, *old(pos) as int)->Ok_0 && *final(pos)
            == *old(pos) + 5,
        r is Err ==> r->Err_0 == section7_result(data@, *old(pos) as int)->Err_0,
{
    let p = *pos;
    if data.len() - p < 5 {
        return Err(Grib2Error::TruncatedRead);
    }
    let length = read_u32(data, pos)?;
    expect_section_number(data, pos, 7)?;
    if length < 5 {
        return Err(Grib2Error::InvalidSectionLength { section: 7, length });
    }
    if length as u64 > (data.len() - p) as u64 {
        return Err(Grib2Error::TruncatedRead);
    }
    Ok(p + length as usize)
}

/// Reads section 8, the end marker.
pub fn read_section8(data: &[u8], pos: &mut usize) -> (r: Result<(), Grib2Error>)
    requires
        *old(pos) <= data@.len(),
    ensures
        r is Ok <==> section8_ok(data@, *old(pos) as int),
        r is Err ==> r->Err_0 == Grib2Error::MissingEndMarker,
{
    match read_u32(data, pos) {
        Ok(marker) => if marker == END_MARKER {
            Ok(())
        } else {
            Err(Grib2Error::MissingEndMarker)
        },
        Err(_) => Err(Grib2Error::MissingEndMarker),
    }
}

} // verus!
