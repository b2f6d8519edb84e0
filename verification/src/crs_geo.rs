//! A geometry together with the coordinate reference system that its
//! coordinates are expressed in.
use vstd::prelude::*;
use crate::errors::RusterioError;
use crate::intersection::Intersection;

verus! {

/// A geometry tagged with the identifier of its reference system.
#[derive(Debug, Clone)]
pub struct CrsGeometry<G> {
    crs: String,
    geometry: G,
}

impl<G> CrsGeometry<G> {
    /// The identifier of the reference system, as characters.
    pub closed spec fn spec_crs(&self) -> Seq<char> {
        self.crs@
    }

    /// The geometry itself.
    pub closed spec fn spec_geometry(&self) -> G {
        self.geometry
    }

    pub fn new(crs: String, geometry: G) -> (r: Self)
        ensures
            r.spec_crs() == crs@,
            r.spec_geometry() == geometry,
    {
        Self { crs, geometry }
    }

    pub fn crs(&self) -> (r: &str)
        ensures
            r@ == self.spec_crs(),
    {
        self.crs.as_str()
    }

    pub fn geometry(&self) -> (r: &G)
        ensures
            *r == self.spec_geometry(),
    {
        &self.geometry
    }
}

impl<G: Intersection> Intersection for CrsGeometry<G> {
    type Output = CrsGeometry<G::Output>;

    open spec fn overlaps(&self, rhs: &Self) -> bool {
        self.spec_geometry().overlaps(&rhs.spec_geometry())
    }

    /// The common part keeps the reference system of `self`; that of `rhs`
    /// is not looked at.
    open spec fn is_common_part(&self, rhs: &Self, out: CrsGeometry<G::Output>) -> bool {
        &&& out.spec_crs() == self.spec_crs()
        &&& self.spec_geometry().is_common_part(&rhs.spec_geometry(), out.spec_geometry())
    }

    fn intersection(&self, rhs: &Self) -> (r: Result<CrsGeometry<G::Output>, RusterioError>) {
        match self.geometry.intersection(&rhs.geometry) {
            Ok(geometry) => Ok(CrsGeometry { crs: self.crs.clone(), geometry }),
            Err(e) => Err(e),
        }
    }
}

} // verus!
