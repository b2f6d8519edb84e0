//! The bands of a raster, and the collection that holds them by group.
use vstd::prelude::*;
use std::marker::PhantomData;
use std::rc::Rc;
use std::sync::Arc;
use crate::band::{BandInfo, BandReader};
use crate::raster::group::{RasterGroup, RasterGroupInfo};
use crate::sharing::{share_arc, share_rc};
use crate::DataType;

verus! {

/// Raster representation of a band: a handle to its information and a
/// handle to its reader. Both are shared, read-only, by every view of the
/// band.
#[derive(Debug)]
pub struct RasterBand<T: DataType, I: BandInfo, R: BandReader<T>> {
    pub info: Rc<I>,
    pub reader: Arc<R>,
    pub pixel: PhantomData<T>,
}

impl<T: DataType, I: BandInfo, R: BandReader<T>> RasterBand<T, I, R> {
    pub fn new(info: Rc<I>, reader: Arc<R>) -> (r: Self)
        ensures
            r.info == info,
            r.reader == reader,
    {
        RasterBand { info, reader, pixel: PhantomData }
    }
}

/// The bands of all the groups, each with the information of its group, in
/// the order of the groups and, within a group, of its bands.
pub open spec fn flat_group_bands<T: DataType, I: BandInfo, R: BandReader<T>>(
    groups: Seq<RasterGroup<T, I, R>>,
) -> Seq<(RasterGroupInfo, RasterBand<T, I, R>)>
    decreases groups.len(),
{
    if groups.len() == 0 {
        Seq::empty()
    } else {
        flat_group_bands(groups.drop_last()) + Seq::new(
            groups.last().bands@.len(),
            |k: int| (groups.last().info, groups.last().bands@[k]),
        )
    }
}

/// Collection to access the bands of a raster and their groups.
pub struct RasterBands<T: DataType, I: BandInfo, R: BandReader<T>>(pub Vec<RasterGroup<T, I, R>>);

impl<T: DataType, I: BandInfo, R: BandReader<T>> View for RasterBands<T, I, R> {
    type V = Seq<RasterGroup<T, I, R>>;

    /// The groups, in order.
    open spec fn view(&self) -> Seq<RasterGroup<T, I, R>> {
        self.0@
    }
}

impl<T: DataType, I: BandInfo, R: BandReader<T>> From<RasterGroup<T, I, R>> for RasterBands<T, I, R> {
    /// The collection that holds the one group.
    fn from(value: RasterGroup<T, I, R>) -> (r: Self)
        ensures
            r@ == seq![value],
    {
        let mut groups = Vec::new();
        groups.push(value);
        assert(groups@ =~= seq![value]);
        RasterBands(groups)
    }
}

impl<T: DataType, I: BandInfo, R: BandReader<T>> vstd::std_specs::convert::FromSpecImpl<RasterGroup<T, I, R>> for RasterBands<T, I, R> {
    open spec fn obeys_from_spec() -> bool {
        false
    }

    open spec fn from_spec(value: RasterGroup<T, I, R>) -> Self {
        arbitrary()
    }
}

impl<T: DataType, I: BandInfo, R: BandReader<T>> RasterBands<T, I, R> {
    /// The bands, group after group.
    pub fn iter(&self) -> (r: Vec<&RasterBand<T, I, R>>)
        ensures
            r@.len() == flat_group_bands(self@).len(),
            forall|k: int| 0 <= k < r@.len() ==> *r@[k] == flat_group_bands(self@)[k].1,
    {
        let pairs = self.group_band();
        let mut bands: Vec<&RasterBand<T, I, R>> = Vec::with_capacity(pairs.len());
        let mut k: usize = 0;
        while k < pairs.len()
            invariant
                k <= pairs@.len(),
                bands@.len() == k,
                forall|j: int| 0 <= j < k ==> bands@[j] == pairs@[j].1,
            decreases pairs@.len() - k,
        {
            bands.push(pairs[k].1);
            k = k + 1;
        }
        bands
    }

    /// The band groups, in order.
    pub fn groups(&self) -> (r: &[RasterGroup<T, I, R>])
        ensures
            r@ == self@,
    {
        self.0.as_slice()
    }

    /// The bands, group after group, each with the information of its
    /// group.
    pub fn group_band(&self) -> (r: Vec<(&RasterGroupInfo, &RasterBand<T, I, R>)>)
        ensures
            r@.len() == flat_group_bands(self@).len(),
            forall|k: int|
                0 <= k < r@.len() ==> *r@[k].0 == flat_group_bands(self@)[k].0 && *r@[k].1
                    == flat_group_bands(self@)[k].1,
    {
        let mut pairs: Vec<(&RasterGroupInfo, &RasterBand<T, I, R>)> = Vec::new();
        let mut g: usize = 0;
        assert(self@.take(0) =~= Seq::empty());
        while g < self.0.len()
            invariant
                g <= self@.len(),
                pairs@.len() == flat_group_bands(self@.take(g as int)).len(),
                forall|k: int|
                    0 <= k < pairs@.len() ==> *pairs@[k].0 == flat_group_bands(
                        self@.take(g as int),
                    )[k].0 && *pairs@[k].1 == flat_group_bands(self@.take(g as int))[k].1,
            decreases self@.len() - g,
        {
            let group = &self.0[g];
            let ghost before = flat_group_bands(self@.take(g as int));
            assert(self@.take(g + 1).drop_last() =~= self@.take(g as int));
            assert(self@.take(g + 1).last() == *group);
            let mut b: usize = 0;
            while b < group.bands.len()
                invariant
                    b <= group.bands@.len(),
                    pairs@.len() == before.len() + b,
                    forall|k: int|
                        0 <= k < before.len() ==> *pairs@[k].0 == before[k].0 && *pairs@[k].1
                            == before[k].1,
                    forall|j: int|
                        before.len() <= j < before.len() + b ==> *pairs@[j].0 == group.info
                            && *pairs@[j].1 == group.bands@[j - before.len()],
                decreases group.bands@.len() - b,
            {
                pairs.push((&group.info, &group.bands[b]));
                b = b + 1;
            }
            g = g + 1;
        }
        assert(self@.take(g as int) =~= self@);
        pairs
    }

    /// Moves the groups of `other` behind those of `self`.
    pub fn append(&mut self, other: &mut RasterBands<T, I, R>)
        ensures
            final(self)@ == old(self)@ + old(other)@,
            final(other)@ == Seq::<RasterGroup<T, I, R>>::empty(),
    {
        self.0.append(&mut other.0)
    }
}

impl<T: DataType, I: BandInfo, R: BandReader<T>> RasterBand<T, I, R> {
    /// Another pair of handles to the same band.
    pub fn share(&self) -> (r: Self)
        ensures
            r.info == self.info,
            r.reader == self.reader,
            r == *self,
    {
        RasterBand { info: share_rc(&self.info), reader: share_arc(&self.reader), pixel: PhantomData }
    }
}

} // verus!
