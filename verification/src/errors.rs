//! The failures that the library reports.
use vstd::prelude::*;

verus! {

/// Two geometries were asked for their common part and have none.
#[derive(Debug, Clone, Copy, PartialEq, Eq, Structural)]
pub enum IntersectionError {
    /// The two rectangles lie apart on at least one axis.
    NoIntersection,
}

/// A coordinate reference system could not be used to project a geometry.
#[derive(Debug, Clone, PartialEq, Eq)]
pub enum CrsGeometryError {
    /// Projecting the coordinates failed; the message is the projection engine's.
    ProjError(String),
    /// No projection between the two reference systems could be set up.
    ProjCreateError(String),
}

/// A failure of the GDAL engine that is not GDAL's own.
#[derive(Debug, Clone, PartialEq, Eq)]
pub enum GdalEngineError {
    /// The named driver cannot read the path it was given.
    WrongDriver(String),
}

/// Every failure that a raster, a view or a read can end in.
#[derive(Debug, Clone, PartialEq, Eq)]
pub enum RusterioError {
    /// The raster backend failed (I/O, a malformed file, a pixel type that
    /// does not match); the message is the backend's.
    GdalError(String),
    /// A geometry could not be brought into another reference system.
    CrsGeometryError(CrsGeometryError),
    /// Two bounds that had to overlap do not.
    NoIntersection(IntersectionError),
    /// The GDAL engine refused the file.
    GdalEngineError(GdalEngineError),
    /// An affine transform that had to be inverted is singular.
    NonInvertibleTransform,
    /// A coordinate does not fit the integer type it is needed in.
    Uncastable,
    /// The file names no area of use.
    NoAreaOfUse,
    /// A metadata key was looked up that the object does not hold.
    MetadataKeyNotFound { object_desc: String, key: String },
}

/// The error that a failed rectangle intersection is reported as.
pub open spec fn no_intersection() -> RusterioError {
    RusterioError::NoIntersection(IntersectionError::NoIntersection)
}

} // verus!
