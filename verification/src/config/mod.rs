//! The configuration, read once and kept for the backend's lifetime.
pub mod model;

pub use model::{Config, Server};
use once_cell::sync::OnceCell;
use vstd::prelude::*;

verus! {

#[verifier::external_type_specification]
#[verifier::external_body]
#[verifier::reject_recursive_types(T)]
pub struct ExOnceCell<T>(OnceCell<T>);

/// What a `OnceCell<Config>` holds: nothing, or the one value it was set to.
pub uninterp spec fn config_cell_contents(cell: OnceCell<Config>) -> Seq<Config>;

/// `OnceCell::new`: "Creates a new empty cell."
#[verifier::external_body]
fn config_cell_new() -> (c: OnceCell<Config>)
    ensures
        config_cell_contents(c) == Seq::<Config>::empty(),
{
    OnceCell::new()
}

/// `OnceCell::set`: "Returns `Ok(())` if the cell was empty and `Err(value)`
/// if it was full." Taken through `&mut`, so no other initialization can run
/// at the same time.
#[verifier::external_body]
fn config_cell_set(cell: &mut OnceCell<Config>, value: Config) -> (r: Result<(), Config>)
    ensures
        r is Ok <==> config_cell_contents(*old(cell)).len() == 0,
        r is Ok ==> config_cell_contents(*final(cell)) == seq![value],
        r matches Err(v) ==> v == value,
        r is Err ==> config_cell_contents(*final(cell)) == config_cell_contents(*old(cell)),
{
    cell.set(value)
}

/// `OnceCell::get`: the value once the cell is set, `None` before.
#[verifier::external_body]
fn config_cell_get(cell: &OnceCell<Config>) -> (r: Option<&Config>)
    ensures
        config_cell_contents(*cell).len() == 0 ==> r is None,
        r matches Some(v) ==> *v == config_cell_contents(*cell)[0],
        config_cell_contents(*cell).len() > 0 ==> r is Some,
{
    cell.get()
}

/// Holds the configuration once it has been read.
pub struct ConfigStore {
    cell: OnceCell<Config>,
}

/// Why the configuration could not be stored.
#[derive(PartialEq, Eq, Structural, Debug)]
pub enum ConfigError {
    /// The configuration had been read before.
    AlreadyRead,
}

impl ConfigStore {
    /// What the store holds: nothing, or the configuration that was read.
    pub closed spec fn contents(&self) -> Seq<Config> {
        config_cell_contents(self.cell)
    }

    /// Whether the configuration has been read.
    pub open spec fn is_read(&self) -> bool {
        self.contents().len() > 0
    }

    pub fn new() -> (r: Self)
        ensures
            !r.is_read(),
    {
        ConfigStore { cell: config_cell_new() }
    }

    /// The configuration, if it has been read.
    pub fn get(&self) -> (r: Option<&Config>)
        ensures
            r is Some <==> self.is_read(),
            r matches Some(c) ==> *c == self.contents()[0],
    {
        config_cell_get(&self.cell)
    }
}

/// Keeps `config` as the configuration; refused if one was read before, in
/// which case the store is unchanged.
pub fn read(store: &mut ConfigStore, config: Config) -> (r: Result<&Config, ConfigError>)
    ensures
        !old(store).is_read() ==> r is Ok && final(store).contents() == seq![config],
        old(store).is_read() ==> r == Err::<&Config, ConfigError>(ConfigError::AlreadyRead)
            && final(store).contents() == old(store).contents(),
        r matches Ok(c) ==> *c == config,
{
    match config_cell_set(&mut store.cell, config) {
        Ok(()) => Ok(get_or_panic(store)),
        Err(_) => Err(ConfigError::AlreadyRead),
    }
}

/// The configuration that was read.
pub fn get_or_panic(store: &ConfigStore) -> (r: &Config)
    requires
        store.is_read(),
    ensures
        *r == store.contents()[0],
{
    match config_cell_get(&store.cell) {
        Some(c) => c,
        None => {
            proof {
                assert(false);
            }
            vstd::pervasive::unreached()
        },
    }
}

} // verus!
