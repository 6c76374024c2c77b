//! What the backend remembers about each config besides its contents.
use crate::str_map::StrMap;
use vstd::prelude::*;

verus! {

#[derive(Debug)]
pub struct ConfigMetadata {
    /// The core that runs the config.
    pub core_tag: String,
}

#[derive(Debug)]
pub struct MetadataDB {
    pub configs_meta: StrMap<ConfigMetadata>,
}

/// Config id to core tag, as a metadata database records them.
pub open spec fn core_tags_of(db: MetadataDB) -> Map<Seq<char>, Seq<char>> {
    db.configs_meta@.map_values(|m: ConfigMetadata| m.core_tag@)
}

impl Default for MetadataDB {
    fn default() -> (r: Self)
        ensures
            r.configs_meta@ == Map::<Seq<char>, ConfigMetadata>::empty(),
    {
        MetadataDB { configs_meta: StrMap::new() }
    }
}

} // verus!
