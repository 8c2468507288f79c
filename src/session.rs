use vstd::prelude::*;
use vstd::slice::slice_subrange;
use crate::boundary::Boundary;
use crate::error::Grib2Error;
use crate::grid::{CompressionParams, GridGeometry, GridValue};
use crate::reader::{be16, be32};
use crate::sections::{
    level_table,
    read_section0,
    read_section1,
    read_section3,
    read_section4,
    read_section5,
    read_section6,
    read_section7_header,
    read_section8,
    section0_result,
    section1_result,
    section3_result,
    section4_result,
    section5_result,
    section6_result,
    section7_result,
    section8_ok,
    SECTION3_LENGTH,
};
use crate::walker::{
    decoded_levels,
    saturate,
    rows_of,
    run_sets,
    sum_of_counts,
    walk_run_lengths,
};

verus! {

/// Sections 0 to 6 of a file, checked in order: on success the grid
/// definition, the start of section 5 and the start of section 7.
pub open spec fn open_result(s: Seq<u8>) -> Result<(GridGeometry, int, int), Grib2Error> {
    match section0_result(s, 0) {
        Err(e) => Err(e),
        Ok(p1) => match section1_result(s, p1) {
            Err(e) => Err(e),
            Ok(p3) => match section3_result(s, p3) {
                Err(e) => Err(e),
                Ok(g) => match section4_result(s, p3 + SECTION3_LENGTH) {
                    Err(e) => Err(e),
                    Ok(p5) => match section5_result(s, p5) {
                        Err(e) => Err(e),
                        Ok(p6) => if g.number_of_points != be32(s, p5 + 5) {
                            Err(
                                Grib2Error::PointCountMismatch {
                                    section_a: g.number_of_points,
                                    section_b: be32(s, p5 + 5) as u32,
                                },
                            )
                        } else {
                            match section6_result(s, p6) {
                                Err(e) => Err(e),
                                Ok(p7) => Ok((g, p5, p7)),
                            }
                        },
                    },
                },
            },
        },
    }
}

/// When sections 0 to 5 pass their checks but sections 3 and 5 count
/// different numbers of grid points, opening the file fails with that
/// mismatch, before section 6 and the compressed data are looked at.
pub proof fn lemma_point_count_mismatch_aborts_open(s: Seq<u8>)
    requires
        section0_result(s, 0) is Ok,
        section1_result(s, section0_result(s, 0)->Ok_0) is Ok,
        section3_result(s, section1_result(s, section0_result(s, 0)->Ok_0)->Ok_0) is Ok,
        section4_result(
            s,
            section1_result(s, section0_result(s, 0)->Ok_0)->Ok_0 + SECTION3_LENGTH,
        ) is Ok,
        section5_result(
            s,
            section4_result(
                s,
                section1_result(s, section0_result(s, 0)->Ok_0)->Ok_0 + SECTION3_LENGTH,
            )->Ok_0,
        ) is Ok,
        section3_result(s, section1_result(s, section0_result(s, 0)->Ok_0)->Ok_0)->Ok_0.number_of_points
            != be32(
            s,
            section4_result(
                s,
                section1_result(s, section0_result(s, 0)->Ok_0)->Ok_0 + SECTION3_LENGTH,
            )->Ok_0 + 5,
        ),
    ensures
        open_result(s) is Err,
        open_result(s)->Err_0 is PointCountMismatch,
{
}

/// A file cut anywhere inside section 7 fails with a truncated read.
pub proof fn lemma_truncated_codes_rejected(s: Seq<u8>, p7: int, k: int)
    requires
        0 <= p7 <= k,
        section7_result(s, p7) is Ok,
        k < section7_result(s, p7)->Ok_0,
    ensures
        section7_result(s.take(k), p7) == Err::<int, Grib2Error>(Grib2Error::TruncatedRead),
{
    if p7 + 5 <= k {
        assert(s.take(k)[p7 + 4] == s[p7 + 4]);
        assert(be32(s.take(k), p7) == be32(s, p7));
    }
}

/// A checked file, ready to be decoded from its compressed data on.
pub struct Grib2Csv {
    data: Vec<u8>,
    section7_start: usize,
    section3: GridGeometry,
    section5: CompressionParams,
    with_header: bool,
}

impl Grib2Csv {
    /// The bytes of the file.
    pub closed spec fn spec_data(&self) -> Seq<u8> {
        self.data@
    }

    /// Where section 7 starts.
    pub closed spec fn spec_section7_start(&self) -> int {
        self.section7_start as int
    }

    /// The grid definition.
    pub closed spec fn spec_geometry(&self) -> GridGeometry {
        self.section3
    }

    /// The highest level that the compressed data uses.
    pub closed spec fn spec_max_level_at_file(&self) -> u16 {
        self.section5.max_level_at_file
    }

    /// The number of grid points that section 5 records.
    pub closed spec fn spec_points_in_section5(&self) -> u32 {
        self.section5.number_of_points
    }

    /// The width of a code in bits.
    pub closed spec fn spec_bits_per_data(&self) -> u8 {
        self.section5.bits_per_data
    }

    /// The highest level that the level table defines.
    pub closed spec fn spec_max_level(&self) -> u16 {
        self.section5.max_level
    }

    /// The physical value of each level from 1 up.
    pub closed spec fn spec_level_values(&self) -> Seq<u16> {
        self.section5.level_values@
    }

    /// Whether the caller asked for a header line in the output.
    pub closed spec fn spec_with_header(&self) -> bool {
        self.with_header
    }

    pub closed spec fn wf(&self) -> bool {
        &&& self.section3.wf()
        &&& self.section5.wf()
        &&& self.section7_start <= self.data@.len()
    }

    /// Checks sections 0 to 6 of a file, the agreement of the point counts
    /// of sections 3 and 5 included.
    pub fn new(data: Vec<u8>, with_header: bool) -> (r: Result<Grib2Csv, Grib2Error>)
        ensures
            r is Ok <==> open_result(data@) is Ok,
            r is Err ==> r->Err_0 == open_result(data@)->Err_0,
            r is Ok ==> {
                let c = r->Ok_0;
                let (g, p5, p7) = open_result(data@)->Ok_0;
                &&& c.wf()
                &&& c.spec_data() == data@
                &&& c.spec_geometry() == g
                &&& c.spec_section7_start() == p7
                &&& c.spec_points_in_section5() == be32(data@, p5 + 5)
                &&& c.spec_points_in_section5() == g.number_of_points
                &&& c.spec_bits_per_data() == data@[p5 + 11]
                &&& c.spec_max_level_at_file() == be16(data@, p5 + 12)
                &&& c.spec_max_level() == be16(data@, p5 + 14)
                &&& c.spec_max_level_at_file() <= c.spec_max_level()
                &&& c.spec_level_values() == level_table(data@, p5)
                &&& c.spec_with_header() == with_header
            },
    {
        let mut pos: usize = 0;
        read_section0(data.as_slice(), &mut pos)?;
        read_section1(data.as_slice(), &mut pos)?;
        let section3 = read_section3(data.as_slice(), &mut pos)?;
        read_section4(data.as_slice(), &mut pos)?;
        let ghost p5 = pos as int;
        let section5 = read_section5(data.as_slice(), &mut pos)?;
        if section3.number_of_points != section5.number_of_points {
            return Err(
                Grib2Error::PointCountMismatch {
                    section_a: section3.number_of_points,
                    section_b: section5.number_of_points,
                },
            );
        }
        read_section6(data.as_slice(), &mut pos)?;
        Ok(Grib2Csv { data, section7_start: pos, section3, section5, with_header })
    }

    /// Whether the caller asked for a header line in the output.
    pub fn with_header(&self) -> (r: bool)
        ensures
            r == self.spec_with_header(),
    {
        self.with_header
    }

    /// Decodes section 7 and returns, in raster order, every grid point with
    /// a level above 0 that the boundary contains; then checks the end
    /// marker. The runs must cover the grid exactly.
    pub fn convert(&self, boundary: &Boundary) -> (r: Result<Vec<GridValue>, Grib2Error>)
        requires
            self.wf(),
        ensures
            ({
                let s = self.spec_data();
                let p7 = self.spec_section7_start();
                let maxv = self.spec_max_level_at_file();
                let lngu = (u8::MAX - maxv) as u16;
                let n = self.spec_geometry().number_of_points;
                match section7_result(s, p7) {
                    Err(e) => r == Err::<Vec<GridValue>, Grib2Error>(e),
                    Ok(end) => {
                        let codes = s.subrange(p7 + 5, end);
                        let levels = decoded_levels(codes, maxv, lngu);
                        let total = sum_of_counts(run_sets(codes, maxv), maxv, lngu);
                        if codes.len() > 0 && codes[0] > maxv {
                            r == Err::<Vec<GridValue>, Grib2Error>(
                                Grib2Error::MisplacedContinuationCode,
                            )
                        } else if total != n {
                            r == Err::<Vec<GridValue>, Grib2Error>(
                                Grib2Error::RunLengthCountMismatch {
                                    expected: n,
                                    actual: saturate(total) as u32,
                                },
                            )
                        } else if !section8_ok(s, end) {
                            r == Err::<Vec<GridValue>, Grib2Error>(Grib2Error::MissingEndMarker)
                        } else {
                            &&& r is Ok
                            &&& r->Ok_0@ == rows_of(
                                levels,
                                self.spec_geometry(),
                                self.spec_level_values(),
                                *boundary,
                            )
                            &&& total == n
                        }
                    },
                }
            }),
    {
        let data = self.data.as_slice();
        let mut pos = self.section7_start;
        let end = read_section7_header(data, &mut pos)?;
        let codes = slice_subrange(data, pos, end);
        let rows = walk_run_lengths(codes, &self.section3, &self.section5, boundary)?;
        let mut pos = end;
        read_section8(data, &mut pos)?;
        Ok(rows)
    }
}

} // verus!
