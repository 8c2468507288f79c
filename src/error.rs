use vstd::prelude::*;

verus! {

/// A header field whose value is fixed for this product.
#[derive(Clone, Copy, Debug, PartialEq, Eq)]
pub enum Field {
    DocumentDomain,
    GribVersion,
    MasterTableVersion,
    LocalTableVersion,
    CreationStatus,
    DocumentKind,
    GridSystemDefinition,
    GridSystemDefinitionTemplate,
    EarthFigure,
    NumberOfPointsAtVertical,
    NumberOfPointsAtHorizontal,
    CreationRangeAngle,
    ScanningMode,
    DocumentExpressionTemplate,
    BitsPerData,
    DataValueFactor,
}

/// Why a file could not be decoded. Every error is fatal.
#[allow(inconsistent_fields)]
#[derive(Clone, Copy, Debug, PartialEq, Eq)]
pub enum Grib2Error {
    /// The file does not start with `GRIB`.
    MalformedMagic,
    /// A fixed field holds another value than this product's.
    UnexpectedConstant { field: Field, expected: u32, actual: u32 },
    /// A section announces another number than the one expected at its place.
    SectionNumberMismatch { expected: u8, actual: u8 },
    /// A section announces a length shorter than its own header.
    InvalidSectionLength { section: u8, length: u32 },
    /// The grid definition and the data representation count different
    /// numbers of grid points.
    PointCountMismatch { section_a: u32, section_b: u32 },
    /// The corners, increments and point count do not describe this
    /// product's mesh.
    InvalidGrid,
    /// The level bounds contradict each other or the level table.
    InvalidLevels { max_level_at_file: u16, max_level: u16, number_of_levels: usize },
    /// The reference time is not a calendar date and time of day.
    InvalidDateTime,
    /// The file ends inside a field.
    TruncatedRead,
    /// The compressed data starts with a continuation code.
    MisplacedContinuationCode,
    /// The runs do not cover the grid exactly: `actual` grid points were
    /// accounted for when the mismatch was found.
    RunLengthCountMismatch { expected: u32, actual: u32 },
    /// The file does not end with `7777`.
    MissingEndMarker,
}

} // verus!
