//! Configs kept as files in one directory, without metadata.
use crate::paths::{join, join_path};
use crate::configs_manager::path_is_file;
use vstd::prelude::*;

verus! {

pub struct ConfigsManager {
    directory: String,
}

impl ConfigsManager {
    pub closed spec fn directory(&self) -> Seq<char> {
        self.directory@
    }

    pub fn new(directory: String) -> (r: Self)
        ensures
            r.directory() == directory@,
    {
        ConfigsManager { directory }
    }

    pub fn directory_path(&self) -> (r: &String)
        ensures
            r@ == self.directory(),
    {
        &self.directory
    }

    /// The file that holds config `config_id`.
    pub fn config_path(&self, config_id: &str) -> (r: String)
        ensures
            r@ == join(self.directory(), config_id@),
    {
        join_path(self.directory.as_str(), config_id)
    }

    /// The config's file, when a regular file is there.
    pub fn get_path(&self, config_id: &str) -> (r: Option<String>)
        ensures
            r matches Some(p) ==> p@ == join(self.directory(), config_id@),
    {
        let path = self.config_path(config_id);
        let is_file = path_is_file(path.as_str());
        self.get_path_when(config_id, is_file)
    }

    /// The config's file, given whether a regular file is there: the path
    /// when there is one, nothing otherwise.
    pub fn get_path_when(&self, config_id: &str, is_file: bool) -> (r: Option<String>)
        ensures
            is_file ==> (r matches Some(p) && p@ == join(self.directory(), config_id@)),
            !is_file ==> r is None,
    {
        if is_file {
            Some(self.config_path(config_id))
        } else {
            None
        }
    }
}

} // verus!
