//! Free-form metadata of a raster, a band group or a band: a description
//! and a set of key-value pairs.
use vstd::prelude::*;
use vstd::hash_map::StringHashMap;
use crate::errors::RusterioError;

verus! {

/// The description of an object and its metadata entries.
pub struct Metadata {
    description: String,
    hashmap: StringHashMap<String>,
}

impl View for Metadata {
    type V = Map<Seq<char>, Seq<char>>;

    /// The entries: the value of each key that is present.
    closed spec fn view(&self) -> Map<Seq<char>, Seq<char>> {
        self.hashmap@.map_values(|v: String| v@)
    }
}

impl Metadata {
    /// The description of the object that the metadata belong to.
    pub closed spec fn spec_description(&self) -> Seq<char> {
        self.description@
    }

    /// The metadata of an object with the given description, without any
    /// entry.
    pub fn new(description: String) -> (r: Self)
        ensures
            r@ == Map::<Seq<char>, Seq<char>>::empty(),
            r.spec_description() == description@,
    {
        let r = Self { description, hashmap: StringHashMap::new() };
        assert(r@ =~= Map::<Seq<char>, Seq<char>>::empty());
        r
    }

    pub fn description(&self) -> (r: &str)
        ensures
            r@ == self.spec_description(),
    {
        self.description.as_str()
    }

    /// Sets the value of `key`, in place of an earlier one if there is one.
    pub fn insert(&mut self, key: String, value: String)
        ensures
            final(self)@ == old(self)@.insert(key@, value@),
            final(self).spec_description() == old(self).spec_description(),
    {
        self.hashmap.insert(key, value);
        assert(self@ =~= old(self)@.insert(key@, value@));
    }

    /// The value of `key`, or the error that names the object and the key
    /// when the object has no such entry.
    pub fn get(&self, key: &str) -> (r: Result<&String, RusterioError>)
        ensures
            match r {
                Ok(value) => self@.contains_key(key@) && value@ == self@[key@],
                Err(RusterioError::MetadataKeyNotFound { object_desc, key: missing }) => {
                    &&& !self@.contains_key(key@)
                    &&& object_desc@ == self.spec_description()
                    &&& missing@ == key@
                },
                Err(_) => false,
            },
    {
        match self.hashmap.get(key) {
            Some(value) => Ok(value),
            None => Err(
                RusterioError::MetadataKeyNotFound {
                    object_desc: self.description.clone(),
                    key: key.to_owned(),
                },
            ),
        }
    }
}

impl Default for Metadata {
    /// Metadata with an empty description and no entry.
    fn default() -> (r: Self)
        ensures
            r@ == Map::<Seq<char>, Seq<char>>::empty(),
            r.spec_description() == Seq::<char>::empty(),
    {
        let r = Self { description: String::new(), hashmap: StringHashMap::new() };
        assert(r@ =~= Map::<Seq<char>, Seq<char>>::empty());
        r
    }
}

} // verus!
