//! The results of the current turn, by key. It is not bounded and nothing in
//! it expires: it goes when the turn ends.

use vstd::hash_map::StringHashMap;
use vstd::prelude::*;
use crate::response::{ResponseInputItem, ResponseInputItemView};

verus! {

pub struct TurnResultCache {
    entries: StringHashMap<ResponseInputItem>,
}

impl TurnResultCache {
    /// The cached results.
    pub closed spec fn view(&self) -> Map<Seq<char>, ResponseInputItemView> {
        self.entries@.map_values(|response: ResponseInputItem| response@)
    }

    pub fn new() -> (cache: Self)
        ensures
            cache@ == Map::<Seq<char>, ResponseInputItemView>::empty(),
    {
        let cache = TurnResultCache { entries: StringHashMap::new() };
        assert(cache@ =~= Map::empty());
        cache
    }

    /// A copy of the result cached under `key`.
    pub fn get(&self, key: &str) -> (found: Option<ResponseInputItem>)
        ensures
            match found {
                Some(response) => self@.contains_key(key@) && self@[key@] == response@,
                None => !self@.contains_key(key@),
            },
    {
        match self.entries.get(key) {
            Some(response) => Some(response.clone()),
            None => None,
        }
    }

    /// Caches `response` under `key`, in place of what was there.
    pub fn insert(&mut self, key: String, response: ResponseInputItem)
        ensures
            final(self)@ == old(self)@.insert(key@, response@),
    {
        self.entries.insert(key, response);
        assert(self@ =~= old(self)@.insert(key@, response@));
    }
}

} // verus!
