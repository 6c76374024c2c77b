//! Configs stored as files in one directory, with a metadata database that
//! records the core each config runs on. The files are read and written by
//! the caller; this keeps the rules: which ids are accepted, where a config
//! lives, what the metadata becomes, and what a failure is answered with.
pub mod metadata;

use crate::paths::{
    components, file_name, is_single_name, is_single_name_path, join, join_path,
    lemma_file_name_of_join, lemma_join_config_id, lemma_single_name_plain, parent_components,
};
use crate::status::{Code, Status};
use crate::str_map::StrMap;
pub use metadata::{core_tags_of, ConfigMetadata, MetadataDB};
use vstd::prelude::*;

verus! {

/// How a file operation failed, as far as the rules tell failures apart.
#[derive(PartialEq, Eq, Structural, Clone, Copy, Debug)]
pub enum FileFailure {
    NotFound,
    InvalidData,
    Other,
}

/// Where reading a config failed: opening the file, or reading it.
#[derive(PartialEq, Eq, Structural, Clone, Copy, Debug)]
pub enum ReadFailure {
    Open(FileFailure),
    Read(FileFailure),
}

/// `Path::is_file`: whether a regular file is there now. Its answer depends
/// on the disk, so nothing is stated of it.
#[verifier::external_body]
pub(crate) fn path_is_file(path: &str) -> bool {
    std::path::Path::new(path).is_file()
}

/// What reading a config gives, from the outcome of reading its file.
pub fn read_outcome(contents: Result<String, ReadFailure>) -> (r: Result<String, Status>)
    ensures
        contents matches Ok(s) ==> (r matches Ok(t) && t@ == s@),
        contents matches Err(f) ==> (r matches Err(e) && if f == ReadFailure::Open(FileFailure::NotFound) {
            e.code == Code::NotFound && e.message@ == "Config not found"@
        } else {
            e.code == Code::Internal && e.message@ == "Config reading error"@
        }),
{
    match contents {
        Ok(s) => Ok(s),
        Err(ReadFailure::Open(FileFailure::NotFound)) => Err(Status::not_found("Config not found")),
        Err(_) => Err(Status::internal("Config reading error")),
    }
}

/// What deleting a config's file gives, from the outcome of removing it.
pub fn delete_outcome(removal: Result<(), FileFailure>) -> (r: Result<(), Status>)
    ensures
        removal is Ok ==> r is Ok,
        removal matches Err(f) ==> (r matches Err(e) && if f == FileFailure::NotFound {
            e.code == Code::NotFound && e.message@ == "Config not found"@
        } else {
            e.code == Code::Internal && e.message@ == "Config deletion error"@
        }),
{
    match removal {
        Ok(()) => Ok(()),
        Err(FileFailure::NotFound) => Err(Status::not_found("Config not found")),
        Err(_) => Err(Status::internal("Config deletion error")),
    }
}

/// What writing a config's contents gives, from the outcome of the write.
pub fn write_outcome(written: Result<(), FileFailure>) -> (r: Result<(), Status>)
    ensures
        written is Ok ==> r is Ok,
        written is Err ==> (r matches Err(e) && e.code == Code::Internal && e.message@
            == "Config editing error"@),
{
    match written {
        Ok(()) => Ok(()),
        Err(_) => Err(Status::internal("Config editing error")),
    }
}

/// Where saving the metadata database failed.
#[derive(PartialEq, Eq, Structural, Clone, Copy, Debug)]
pub enum SaveFailure {
    /// Its file could not be opened.
    Open,
    /// It could not be written out.
    Write,
}

/// What saving the metadata gives, from the outcome of saving it.
pub fn save_outcome(saved: Result<(), SaveFailure>) -> (r: Result<(), Status>)
    ensures
        saved is Ok ==> r is Ok,
        saved == Err::<(), SaveFailure>(SaveFailure::Open) ==> (r matches Err(e) && e.code
            == Code::Internal && e.message@ == "Metadata file opening error"@),
        saved == Err::<(), SaveFailure>(SaveFailure::Write) ==> (r matches Err(e) && e.code
            == Code::Internal && e.message@ == "Metadata saving error"@),
{
    match saved {
        Ok(()) => Ok(()),
        Err(SaveFailure::Open) => Err(Status::internal("Metadata file opening error")),
        Err(SaveFailure::Write) => Err(Status::internal("Metadata saving error")),
    }
}

/// What reading a directory tells of one of its entries: its name when that
/// is valid UTF-8, and whether it is a regular file when its type could be had.
#[derive(Debug)]
pub struct DirEntryInfo {
    pub name: Option<String>,
    pub is_file: Option<bool>,
}

/// Whether listing reports an entry: a regular file with a UTF-8 name.
pub open spec fn listed_entry(e: DirEntryInfo) -> bool {
    e.is_file == Some(true) && e.name is Some
}

/// The names that listing reports, in the directory's order.
pub open spec fn listed_names(entries: Seq<DirEntryInfo>) -> Seq<Seq<char>>
    decreases entries.len(),
{
    if entries.len() == 0 {
        Seq::empty()
    } else {
        let rest = listed_names(entries.drop_last());
        if listed_entry(entries.last()) {
            rest.push(entries.last().name->Some_0@)
        } else {
            rest
        }
    }
}

/// Listing reports every regular file whose name is valid UTF-8, whatever
/// that name is, after the ones before it; it leaves out every other entry.
pub proof fn law_listing_keeps_named_files(entries: Seq<DirEntryInfo>, e: DirEntryInfo)
    ensures
        (e.is_file == Some(true) && e.name is Some) ==> listed_names(entries.push(e)) == listed_names(
            entries,
        ).push(e.name->Some_0@),
        !(e.is_file == Some(true) && e.name is Some) ==> listed_names(entries.push(e))
            == listed_names(entries),
{
    assert(entries.push(e).drop_last() =~= entries);
}

/// The config ids among a directory's entries: the regular files with UTF-8
/// names, in the directory's order.
pub fn config_files(entries: Vec<DirEntryInfo>) -> (r: Vec<String>)
    ensures
        r@.map_values(|s: String| s@) == listed_names(entries@),
{
    let mut names: Vec<String> = Vec::new();
    let mut i: usize = 0;
    assert(entries@.subrange(0, 0) =~= Seq::<DirEntryInfo>::empty());
    while i < entries.len()
        invariant
            i <= entries@.len(),
            names@.map_values(|s: String| s@) == listed_names(entries@.subrange(0, i as int)),
        decreases entries@.len() - i,
    {
        let ghost before = names@;
        let e = &entries[i];
        assert(entries@.subrange(0, i + 1).drop_last() =~= entries@.subrange(0, i as int));
        assert(entries@.subrange(0, i + 1).last() == entries@[i as int]);
        match (&e.name, e.is_file) {
            (Some(name), Some(true)) => {
                names.push(name.clone());
                assert(names@.map_values(|s: String| s@) =~= before.map_values(|s: String| s@).push(
                    name@,
                ));
            },
            _ => {},
        }
        i = i + 1;
    }
    assert(entries@.subrange(0, i as int) =~= entries@);
    names
}

/// Accepts a config id only when it is a single plain name.
pub fn check_config_id(config_id: &str) -> (r: Result<(), Status>)
    ensures
        r is Ok <==> is_single_name(config_id@),
        r matches Err(e) ==> e.code == Code::InvalidArgument && e.message@ == "Invalid config id"@,
{
    if is_single_name_path(config_id) {
        Ok(())
    } else {
        Err(Status::invalid_argument("Invalid config id"))
    }
}

/// A config as listing reports it.
#[derive(Debug)]
pub struct ConfigEntry {
    pub config_id: String,
    pub core_tag: String,
}

/// The core tag that listing reports for a config: the recorded one, or empty.
pub open spec fn listed_core_tag(tags: Map<Seq<char>, Seq<char>>, id: Seq<char>) -> Seq<char> {
    if tags.contains_key(id) {
        tags[id]
    } else {
        Seq::empty()
    }
}

/// The core tags after a config was edited to run on `core_tag`.
pub open spec fn edited_tags(tags: Map<Seq<char>, Seq<char>>, id: Seq<char>, core_tag: Seq<char>) -> Map<Seq<char>, Seq<char>> {
    tags.insert(id, core_tag)
}

/// Whether an edit changes what the metadata records, so that it must be saved.
pub open spec fn edit_changes_metadata(tags: Map<Seq<char>, Seq<char>>, id: Seq<char>, core_tag: Seq<char>) -> bool {
    !(tags.contains_key(id) && tags[id] == core_tag)
}

/// After an edit the config's core tag is the one given, and no other
/// config's tag changed.
pub proof fn law_edit_then_lookup(tags: Map<Seq<char>, Seq<char>>, id: Seq<char>, core_tag: Seq<char>, other: Seq<char>)
    requires
        other != id,
    ensures
        edited_tags(tags, id, core_tag).contains_key(id),
        edited_tags(tags, id, core_tag)[id] == core_tag,
        listed_core_tag(edited_tags(tags, id, core_tag), id) == core_tag,
        edited_tags(tags, id, core_tag).contains_key(other) == tags.contains_key(other),
        listed_core_tag(edited_tags(tags, id, core_tag), other) == listed_core_tag(tags, other),
{
}

/// Editing a config again with the same core tag leaves the metadata as it
/// is, so nothing needs saving.
pub proof fn law_edit_idempotent(tags: Map<Seq<char>, Seq<char>>, id: Seq<char>, core_tag: Seq<char>)
    ensures
        edited_tags(edited_tags(tags, id, core_tag), id, core_tag) == edited_tags(tags, id, core_tag),
        !edit_changes_metadata(edited_tags(tags, id, core_tag), id, core_tag),
{
    assert(edited_tags(edited_tags(tags, id, core_tag), id, core_tag) =~= edited_tags(tags, id, core_tag));
}

/// An edit changes the metadata exactly when it records something new.
pub proof fn law_edit_change_detected(tags: Map<Seq<char>, Seq<char>>, id: Seq<char>, core_tag: Seq<char>)
    ensures
        edit_changes_metadata(tags, id, core_tag) <==> edited_tags(tags, id, core_tag) != tags,
{
    if !edit_changes_metadata(tags, id, core_tag) {
        assert(edited_tags(tags, id, core_tag) =~= tags);
    } else if edited_tags(tags, id, core_tag) == tags {
        assert(edited_tags(tags, id, core_tag).contains_key(id));
    }
}

/// A deleted config has no metadata left, whatever it was edited to before,
/// and is listed with an empty core tag.
pub proof fn law_delete_forgets(tags: Map<Seq<char>, Seq<char>>, id: Seq<char>, core_tag: Seq<char>)
    ensures
        edited_tags(tags, id, core_tag).remove(id) == tags.remove(id),
        !tags.remove(id).contains_key(id),
        listed_core_tag(tags.remove(id), id) == Seq::<char>::empty(),
{
    assert(edited_tags(tags, id, core_tag).remove(id) =~= tags.remove(id));
}

pub struct ConfigsManager {
    configs_directory: String,
    metadata_path: String,
    metadata: MetadataDB,
}

/// A config id that edit accepts names a file right in the configs
/// directory: the path that edit writes and `get_path` gives has the
/// directory as its parent and the id's one component as its file name,
/// which is the id itself when it holds no separator.
pub proof fn law_config_file_in_directory(m: ConfigsManager, id: Seq<char>)
    requires
        is_single_name(id),
    ensures
        parent_components(join(m.directory(), id)) == Some(components(m.directory())),
        file_name(join(m.directory(), id)) == file_name(id),
        file_name(id) is Some,
        !id.contains('/') ==> file_name(join(m.directory(), id)) == Some(id),
{
    lemma_join_config_id(m.directory(), id);
    if !id.contains('/') {
        lemma_single_name_plain(id);
        lemma_file_name_of_join(m.directory(), id);
    }
}

impl ConfigsManager {
    /// The directory that holds the config files.
    pub closed spec fn directory(&self) -> Seq<char> {
        self.configs_directory@
    }

    /// Where the metadata database is saved.
    pub closed spec fn metadata_file(&self) -> Seq<char> {
        self.metadata_path@
    }

    /// Config id to core tag, as the metadata records them.
    pub closed spec fn core_tags(&self) -> Map<Seq<char>, Seq<char>> {
        core_tags_of(self.metadata)
    }

    /// A manager over `directory`, with the metadata loaded from
    /// `metadata_path`; `None` when what was stored there is unreadable,
    /// which starts an empty database.
    pub fn new(directory: String, metadata_path: String, stored: Option<MetadataDB>) -> (r: Self)
        ensures
            r.directory() == directory@,
            r.metadata_file() == metadata_path@,
            r.core_tags() == match stored {
                Some(db) => core_tags_of(db),
                None => Map::<Seq<char>, Seq<char>>::empty(),
            },
    {
        let metadata = match stored {
            Some(db) => db,
            None => MetadataDB::default(),
        };
        let r = ConfigsManager { configs_directory: directory, metadata_path, metadata };
        proof {
            if stored is None {
                assert(r.core_tags() =~= Map::<Seq<char>, Seq<char>>::empty());
            }
        }
        r
    }

    pub fn configs_directory(&self) -> (r: &String)
        ensures
            r@ == self.directory(),
    {
        &self.configs_directory
    }

    pub fn metadata_path(&self) -> (r: &String)
        ensures
            r@ == self.metadata_file(),
    {
        &self.metadata_path
    }

    /// The metadata database, as it is to be saved.
    pub fn metadata(&self) -> (r: &MetadataDB)
        ensures
            core_tags_of(*r) == self.core_tags(),
    {
        &self.metadata
    }

    /// The file that holds config `config_id`.
    pub fn config_path(&self, config_id: &str) -> (r: String)
        ensures
            r@ == join(self.directory(), config_id@),
    {
        join_path(self.configs_directory.as_str(), config_id)
    }

    /// The config's file, when a regular file is there.
    pub fn get_path(&self, config_id: &str) -> (r: Option<String>)
        ensures
            r matches Some(p) ==> p@ == join(self.directory(), config_id@),
    {
        let path = self.config_path(config_id);
        let is_file = path_is_file(path.as_str());
        self.get_path_when(config_id, is_file)
    }

    /// The config's file, given whether a regular file is there: the path
    /// when there is one, nothing otherwise.
    pub fn get_path_when(&self, config_id: &str, is_file: bool) -> (r: Option<String>)
        ensures
            is_file ==> (r matches Some(p) && p@ == join(self.directory(), config_id@)),
            !is_file ==> r is None,
    {
        if is_file {
            Some(self.config_path(config_id))
        } else {
            None
        }
    }

    /// The configs whose files `listing` names, each with its core tag; a
    /// listing that could not be had is answered as an inaccessible directory.
    pub fn list(&self, listing: Option<Vec<String>>) -> (r: Result<Vec<ConfigEntry>, Status>)
        ensures
            listing is None ==> (r matches Err(e) && e.code == Code::Internal && e.message@
                == "Backend storage directory is inaccessible"@),
            listing matches Some(names) ==> (r matches Ok(entries) && entries.len() == names.len()
                && forall|i: int|
                0 <= i < names.len() ==> {
                    &&& (#[trigger] entries[i]).config_id@ == names[i]@
                    &&& entries[i].core_tag@ == listed_core_tag(self.core_tags(), names[i]@)
                }),
    {
        let names = match listing {
            Some(names) => names,
            None => {
                return Err(Status::internal("Backend storage directory is inaccessible"));
            },
        };
        let mut entries: Vec<ConfigEntry> = Vec::new();
        let mut i: usize = 0;
        while i < names.len()
            invariant
                i <= names.len(),
                entries.len() == i,
                forall|j: int|
                    0 <= j < i ==> {
                        &&& (#[trigger] entries[j]).config_id@ == names[j]@
                        &&& entries[j].core_tag@ == listed_core_tag(self.core_tags(), names[j]@)
                    },
            decreases names.len() - i,
        {
            let name = &names[i];
            let core_tag = match self.metadata.configs_meta.get(name.as_str()) {
                Some(meta) => meta.core_tag.clone(),
                None => String::new(),
            };
            entries.push(ConfigEntry { config_id: name.clone(), core_tag });
            i = i + 1;
        }
        Ok(entries)
    }

    /// Checks a config id before its file is written; gives the file to write.
    pub fn edit_target(&self, config_id: &str) -> (r: Result<String, Status>)
        ensures
            r is Ok <==> is_single_name(config_id@),
            r matches Ok(p) ==> p@ == join(self.directory(), config_id@),
            r matches Err(e) ==> e.code == Code::InvalidArgument && e.message@ == "Invalid config id"@,
    {
        check_config_id(config_id)?;
        Ok(self.config_path(config_id))
    }

    /// Records, once the config's file was written, that config `config_id`
    /// runs on `core_tag`. Gives whether the metadata changed and must be
    /// saved. An id that is not a single plain name is refused and nothing
    /// changes.
    pub fn edit(&mut self, config_id: &str, core_tag: &str) -> (r: Result<bool, Status>)
        ensures
            r is Ok <==> is_single_name(config_id@),
            r matches Ok(changed) ==> final(self).core_tags() == edited_tags(
                old(self).core_tags(),
                config_id@,
                core_tag@,
            ) && changed == edit_changes_metadata(old(self).core_tags(), config_id@, core_tag@),
            r matches Err(e) ==> e.code == Code::InvalidArgument && e.message@ == "Invalid config id"@
                && final(self).core_tags() == old(self).core_tags(),
            final(self).directory() == old(self).directory(),
            final(self).metadata_file() == old(self).metadata_file(),
    {
        check_config_id(config_id)?;
        let changed = match self.metadata.configs_meta.get(config_id) {
            Some(meta) => {
                crate::text::compare_text(meta.core_tag.as_str(), core_tag)
                    != crate::text::TextOrder::Same
            },
            None => true,
        };
        if changed {
            self.metadata.configs_meta.insert(
                config_id.to_string(),
                ConfigMetadata { core_tag: core_tag.to_string() },
            );
        }
        proof {
            let old_tags = old(self).core_tags();
            let want = edited_tags(old_tags, config_id@, core_tag@);
            if !changed {
                assert(want =~= old_tags);
            }
            assert(self.core_tags() =~= want);
        }
        Ok(changed)
    }

    /// Records the edit of config `config_id` from the outcome of writing its
    /// file: a failed write is answered as an editing error and leaves the
    /// metadata as it was; otherwise as [`Self::edit`].
    pub fn edit_written(&mut self, config_id: &str, core_tag: &str, written: Result<(), FileFailure>) -> (r: Result<bool, Status>)
        ensures
            written is Err ==> (r matches Err(e) && e.code == Code::Internal && e.message@
                == "Config editing error"@ && final(self).core_tags() == old(self).core_tags()),
            written is Ok ==> (r is Ok <==> is_single_name(config_id@)),
            written is Ok ==> (r matches Ok(changed) ==> final(self).core_tags() == edited_tags(
                old(self).core_tags(),
                config_id@,
                core_tag@,
            ) && changed == edit_changes_metadata(old(self).core_tags(), config_id@, core_tag@)),
            written is Ok ==> (r matches Err(e) ==> e.code == Code::InvalidArgument && e.message@
                == "Invalid config id"@ && final(self).core_tags() == old(self).core_tags()),
            final(self).directory() == old(self).directory(),
            final(self).metadata_file() == old(self).metadata_file(),
    {
        match write_outcome(written) {
            Err(e) => Err(e),
            Ok(()) => self.edit(config_id, core_tag),
        }
    }

    /// Forgets the metadata of config `config_id`.
    pub fn delete(&mut self, config_id: &str)
        ensures
            final(self).core_tags() == old(self).core_tags().remove(config_id@),
            final(self).directory() == old(self).directory(),
            final(self).metadata_file() == old(self).metadata_file(),
    {
        self.metadata.configs_meta.remove(config_id);
        assert(self.core_tags() =~= old(self).core_tags().remove(config_id@));
    }

    /// The metadata of config `config_id`.
    pub fn get_metadata(&self, config_id: &str) -> (r: Option<&ConfigMetadata>)
        ensures
            r is Some <==> self.core_tags().contains_key(config_id@),
            r matches Some(m) ==> m.core_tag@ == self.core_tags()[config_id@],
    {
        self.metadata.configs_meta.get(config_id)
    }
}

} // verus!
