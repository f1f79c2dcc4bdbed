//! The table `meta`.

use crate::db::entities::{opt_text};
use crate::db::store::{meta_ids, Store};
use crate::error::Error;
use crate::pkg::PkgMeta;
use vstd::prelude::*;

verus! {

/// What is told about a package.
#[derive(Debug, Clone, PartialEq, Eq)]
pub struct Model {
    pub id: u64,
    pub description: Option<String>,
    pub documentation: Option<String>,
    pub license: Option<String>,
    pub repository: Option<String>,
}

/// What a [`Model`] stands for.
pub struct ModelView {
    pub id: u64,
    pub description: Option<Seq<char>>,
    pub documentation: Option<Seq<char>>,
    pub license: Option<Seq<char>>,
    pub repository: Option<Seq<char>>,
}

impl View for Model {
    type V = ModelView;

    open spec fn view(&self) -> ModelView {
        ModelView {
            id: self.id,
            description: opt_text(self.description),
            documentation: opt_text(self.documentation),
            license: opt_text(self.license),
            repository: opt_text(self.repository),
        }
    }
}

/// What the rows of the table stand for.
pub open spec fn table_view(rows: Seq<Model>) -> Seq<ModelView> {
    rows.map_values(|r: Model| r@)
}

/// The relations of the table to other tables.
#[derive(Debug, Clone, Copy, PartialEq, Eq)]
pub enum Relation {
    PackageAuthor,
    Meta,
}

/// Puts metadata into the store.
pub struct ActiveMeta;

impl ActiveMeta {
    /// Puts in metadata, and each of their authors as a row of its own that
    /// is tied to them. Returns the id of the metadata. Where the store has
    /// not an id for each of the rows the result is `Storage` and the store
    /// is as it was.
    pub fn from_model(txn: &mut Store, meta: PkgMeta) -> (r: Result<u64, Error>)
        requires
            old(txn)@.wf(),
        ensures
            final(txn)@.wf(),
            match r {
                Ok(id) => old(txn)@.room(meta_ids(meta)) && id == old(txn)@.next_id && final(txn)@ == old(txn)@.add_meta(meta),
                Err(e) => !old(txn)@.room(meta_ids(meta)) && e == Error::Storage && final(txn)@
                    == old(txn)@,
            },
    {
        if !txn.has_room(1 + meta.authors.len() as u128) {
            return Err(Error::Storage);
        }
        Ok(txn.add_meta(&meta))
    }
}

} // verus!
