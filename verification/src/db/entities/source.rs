//! The table `sources`.

use crate::db::entities::{ForeignKeyAction, opt_bytes};
use crate::db::store::Store;
use crate::error::Error;
use crate::pkg::Source;
use vstd::prelude::*;

verus! {

/// The code of a package: a blob that is held here, or a registry that
/// holds it.
#[derive(Debug, Clone, PartialEq, Eq)]
pub struct Model {
    pub id: u64,
    pub version: String,
    pub digest: String,
    pub wasm_blob: Option<Vec<u8>>,
    pub registry_id: Option<u64>,
    pub git_info_id: Option<u64>,
}

/// What a [`Model`] stands for.
pub struct ModelView {
    pub id: u64,
    pub version: Seq<char>,
    pub digest: Seq<char>,
    pub wasm_blob: Option<Seq<u8>>,
    pub registry_id: Option<u64>,
    pub git_info_id: Option<u64>,
}

impl View for Model {
    type V = ModelView;

    open spec fn view(&self) -> ModelView {
        ModelView {
            id: self.id,
            version: self.version@,
            digest: self.digest@,
            wasm_blob: opt_bytes(self.wasm_blob),
            registry_id: self.registry_id,
            git_info_id: self.git_info_id,
        }
    }
}

/// What the rows of the table stand for.
pub open spec fn table_view(rows: Seq<Model>) -> Seq<ModelView> {
    rows.map_values(|r: Model| r@)
}

/// The relations of the table to other tables.
#[derive(Debug, Clone, Copy, PartialEq, Eq)]
pub enum Relation {
    Registries,
    GitInfo,
}

impl Relation {
    /// What happens to a row of this table when the row that it refers to
    /// is deleted.
    pub open spec fn on_delete_spec(self) -> ForeignKeyAction {
        match self {
            Relation::Registries => ForeignKeyAction::SetNull,
            Relation::GitInfo => ForeignKeyAction::SetNull,
        }
    }

    /// What happens to a row of this table when the row that it refers to
    /// is deleted.
    pub fn on_delete(&self) -> (r: ForeignKeyAction)
        ensures
            r == self.on_delete_spec(),
    {
        match self {
            Relation::Registries => ForeignKeyAction::SetNull,
            Relation::GitInfo => ForeignKeyAction::SetNull,
        }
    }
}

/// Puts sources into the store.
pub struct ActiveSource;

impl ActiveSource {
    /// Puts in a source: its git information or its registry first, then
    /// its own row, which refers to them. Returns the id of the source.
    ///
    /// A source that is not of exactly one kind gives `InvalidSource`. One
    /// whose digest or registry is in the store gives `Conflict`. Else,
    /// where the store has not an id for each of the rows, the result is
    /// `Storage`. After an error the store is as it was.
    pub fn from_model(txn: &mut Store, source: Source) -> (r: Result<u64, Error>)
        requires
            old(txn)@.wf(),
        ensures
            final(txn)@.wf(),
            match r {
                Ok(id) => old(txn)@.source_error(source) is None && final(txn)@ == old(txn)@.add_source(source) && id + 1 == final(txn)@.next_id,
                Err(e) => old(txn)@.source_error(source) == Some(e) && final(txn)@ == old(txn)@,
            },
    {
        match txn.source_check(&source) {
            Some(e) => Err(e),
            None => Ok(txn.add_source(source)),
        }
    }
}

} // verus!
