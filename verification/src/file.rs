//! The interface of a raster file, as a backend offers it.
use vstd::prelude::*;
use crate::band::{BandInfo, BandReader};
use crate::bounds::GeoBounds;
use crate::errors::RusterioError;
use crate::geometry::Rect;
use crate::indexes::Indexes;
use crate::metadata::Metadata;
use crate::raster::band::RasterBand;
use crate::transforms::{Affine, ReadGeoTransform};
use crate::DataType;

verus! {

/// The first failure among the answers for the positions `picked`, taken
/// in order, if one of them is a failure.
pub open spec fn first_failure<B>(
    answer: spec_fn(usize) -> Result<B, RusterioError>,
    picked: Seq<usize>,
) -> Option<RusterioError>
    decreases picked.len(),
{
    if picked.len() == 0 {
        None
    } else {
        match first_failure(answer, picked.drop_last()) {
            Some(e) => Some(e),
            None => match answer(picked.last()) {
                Err(e) => Some(e),
                Ok(_) => None,
            },
        }
    }
}

/// The first failure among the answers for the first `n` positions is the
/// first failure among the answers for all of them.
pub proof fn lemma_first_failure_prefix<B>(
    answer: spec_fn(usize) -> Result<B, RusterioError>,
    picked: Seq<usize>,
    n: int,
)
    requires
        0 <= n <= picked.len(),
        first_failure(answer, picked.take(n)) is Some,
    ensures
        first_failure(answer, picked) == first_failure(answer, picked.take(n)),
    decreases picked.len() - n,
{
    if n < picked.len() {
        assert(picked.take(n + 1).drop_last() =~= picked.take(n));
        lemma_first_failure_prefix(answer, picked, n + 1);
    } else {
        assert(picked.take(n) =~= picked);
    }
}

/// Access to the information and the bands of a raster file.
///
/// What a file answers is up to the backend. A file on disk can promise
/// nothing of it, and leaves `declares` as it is. A file whose answers are
/// fixed says so in `declares` and names them in the `declared_`
/// functions; of such a file the library states what a raster made of it
/// is, and which failure is handed on.
pub trait File<T: DataType, I: BandInfo, R: BandReader<T>>: std::fmt::Debug + Sized {
    /// The file answers what the `declared_` functions name.
    open spec fn declares(&self) -> bool {
        false
    }

    /// The description, as characters, or the failure to give it.
    open spec fn declared_description(&self) -> Result<Seq<char>, RusterioError> {
        arbitrary()
    }

    /// The extent with the identifier of its reference system, or the
    /// failure to give it.
    open spec fn declared_bounds(&self) -> Result<(Rect, Seq<char>), RusterioError> {
        arbitrary()
    }

    /// The pixel-to-geographic map with the identifier of its reference
    /// system, or the failure to give it.
    open spec fn declared_transform(&self) -> Result<(Affine, Seq<char>), RusterioError> {
        arbitrary()
    }

    open spec fn declared_count(&self) -> usize {
        arbitrary()
    }

    open spec fn declared_band(&self, index: usize) -> Result<RasterBand<T, I, R>, RusterioError> {
        arbitrary()
    }

    /// The description and the entries of the metadata.
    open spec fn declared_metadata(&self) -> (Seq<char>, Map<Seq<char>, Seq<char>>) {
        arbitrary()
    }

    fn open(path: &str) -> Result<Self, RusterioError>;

    fn description(&self) -> (r: Result<String, RusterioError>)
        ensures
            self.declares() ==> match self.declared_description() {
                Ok(description) => r is Ok && r->Ok_0@ == description,
                Err(e) => r == Err::<String, RusterioError>(e),
            },
    ;

    /// The geographic extent that the file declares.
    fn geo_bounds(&self) -> (r: Result<GeoBounds, RusterioError>)
        ensures
            self.declares() ==> match self.declared_bounds() {
                Ok(bounds) => r is Ok && r->Ok_0@ == bounds.0 && r->Ok_0.spec_crs() == bounds.1,
                Err(e) => r == Err::<GeoBounds, RusterioError>(e),
            },
    ;

    /// The transform from the file's pixel space to geographic space.
    fn transform(&self) -> (r: Result<ReadGeoTransform, RusterioError>)
        ensures
            self.declares() ==> match self.declared_transform() {
                Ok(transform) => r is Ok && r->Ok_0@ == transform.0 && r->Ok_0.spec_crs()
                    == transform.1,
                Err(e) => r == Err::<ReadGeoTransform, RusterioError>(e),
            },
    ;

    fn num_bands(&self) -> (r: usize)
        ensures
            self.declares() ==> r == self.declared_count(),
    ;

    /// The band at position `index`, counted from 0.
    fn band(&self, index: usize) -> (r: Result<RasterBand<T, I, R>, RusterioError>)
        ensures
            self.declares() ==> r == self.declared_band(index),
    ;

    /// The bands that `indexes` selects among those of the file, or the
    /// first failure to get one.
    ///
    /// The file is asked for the number of its bands, and then for each
    /// band that the selection picks among that many, in the order of the
    /// selection. With `count` the number that the file gave: on success
    /// there are as many bands as the selection picks among `count`, and a
    /// failure is the failure to get a band, which there is none of where
    /// the selection picks nothing. Of a file that declares its answers:
    /// the first failure among the picked bands is handed on as it is, and
    /// else the bands are the declared ones, in the order of the selection.
    fn bands(&self, indexes: Indexes) -> (r: Result<Vec<RasterBand<T, I, R>>, RusterioError>)
        ensures
            exists|count: usize|
                #![trigger indexes@.count(count as nat)]
                match r {
                    Ok(bands) => bands@.len() == indexes@.count(count as nat),
                    Err(_) => indexes@.count(count as nat) > 0,
                },
            self.declares() ==> ({
                let picked = indexes@.resolve(self.declared_count() as nat);
                match first_failure(|i: usize| self.declared_band(i), picked) {
                    Some(e) => r == Err::<Vec<RasterBand<T, I, R>>, RusterioError>(e),
                    None => {
                        &&& r is Ok
                        &&& r->Ok_0@.len() == picked.len()
                        &&& forall|k: int|
                            0 <= k < picked.len() ==> self.declared_band(picked[k]) == Ok::<
                                RasterBand<T, I, R>,
                                RusterioError,
                            >(#[trigger] r->Ok_0@[k])
                    },
                }
            }),
    {
        let ghost selection = indexes@;
        let count = self.num_bands();
        let picked = indexes.indexes_from(count);
        let ghost answer = |i: usize| self.declared_band(i);
        let mut bands: Vec<RasterBand<T, I, R>> = Vec::with_capacity(picked.len());
        let mut k: usize = 0;
        assert(picked@.take(0) =~= Seq::<usize>::empty());
        while k < picked.len()
            invariant
                k <= picked@.len(),
                bands@.len() == k,
                selection == indexes@,
                picked@.len() == selection.count(count as nat),
                picked@ == selection.resolve(count as nat),
                self.declares() ==> count == self.declared_count(),
                answer == |i: usize| self.declared_band(i),
                self.declares() ==> first_failure(answer, picked@.take(k as int)) is None,
                self.declares() ==> forall|j: int|
                    0 <= j < k ==> self.declared_band(picked@[j]) == Ok::<
                        RasterBand<T, I, R>,
                        RusterioError,
                    >(#[trigger] bands@[j]),
            decreases picked@.len() - k,
        {
            proof {
                assert(picked@.take(k + 1).drop_last() =~= picked@.take(k as int));
                assert(picked@.take(k + 1).last() == picked@[k as int]);
            }
            let band = match self.band(picked[k]) {
                Ok(band) => band,
                Err(e) => {
                    proof {
                        assert(selection.count(count as nat) > 0);
                        if self.declares() {
                            assert(first_failure(answer, picked@.take(k + 1)) == Some(e));
                            lemma_first_failure_prefix(answer, picked@, k + 1);
                        }
                    }
                    return Err(e);
                },
            };
            bands.push(band);
            k = k + 1;
        }
        proof {
            assert(bands@.len() == selection.count(count as nat));
            assert(picked@.take(k as int) =~= picked@);
        }
        Ok(bands)
    }

    fn metadata(&self) -> (r: Metadata)
        ensures
            self.declares() ==> r.spec_description() == self.declared_metadata().0 && r@
                == self.declared_metadata().1,
    ;
}

} // verus!
