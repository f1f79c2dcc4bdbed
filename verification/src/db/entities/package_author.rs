//! The table `package_authors`.

use crate::db::entities::{ForeignKeyAction};
use crate::db::store::Store;
use crate::error::Error;
use vstd::prelude::*;

verus! {

/// Which author belongs to which metadata.
#[derive(Debug, Clone, PartialEq, Eq)]
pub struct Model {
    pub meta_id: u64,
    pub author_id: u64,
}

/// What a [`Model`] stands for.
pub struct ModelView {
    pub meta_id: u64,
    pub author_id: u64,
}

impl View for Model {
    type V = ModelView;

    open spec fn view(&self) -> ModelView {
        ModelView {
            meta_id: self.meta_id,
            author_id: self.author_id,
        }
    }
}

/// What the rows of the table stand for.
pub open spec fn table_view(rows: Seq<Model>) -> Seq<ModelView> {
    rows.map_values(|r: Model| r@)
}

/// The relations of the table to other tables.
#[derive(Debug, Clone, Copy, PartialEq, Eq)]
pub enum Relation {
    Meta,
    Authors,
}

impl Relation {
    /// What happens to a row of this table when the row that it refers to
    /// is deleted.
    pub open spec fn on_delete_spec(self) -> ForeignKeyAction {
        match self {
            Relation::Meta => ForeignKeyAction::Cascade,
            Relation::Authors => ForeignKeyAction::Cascade,
        }
    }

    /// What happens to a row of this table when the row that it refers to
    /// is deleted.
    pub fn on_delete(&self) -> (r: ForeignKeyAction)
        ensures
            r == self.on_delete_spec(),
    {
        match self {
            Relation::Meta => ForeignKeyAction::Cascade,
            Relation::Authors => ForeignKeyAction::Cascade,
        }
    }
}

/// Ties authors to metadata in the store.
pub struct ActivePackageAuthors;

impl ActivePackageAuthors {
    /// Ties an author to metadata. This takes no id.
    ///
    /// Where the metadata or the author are not in the store the result is
    /// `NotFound`; else, where they are tied already, it is `Conflict`. The
    /// store is then as it was.
    pub fn from_ids(txn: &mut Store, meta_id: u64, author_id: u64) -> (r: Result<(), Error>)
        requires
            old(txn)@.wf(),
        ensures
            final(txn)@.wf(),
            match r {
                Ok(_) => old(txn)@.has_meta(meta_id) && old(txn)@.has_author(author_id) && !old(txn)@.has_tie(meta_id, author_id) && final(txn)@ == old(txn)@.add_package_author(
                    meta_id,
                    author_id,
                ),
                Err(e) => final(txn)@ == old(txn)@ && e == (if !old(txn)@.has_meta(meta_id) || !old(txn)@.has_author(author_id) {
                    Error::NotFound
                } else {
                    Error::Conflict
                }) && (e == Error::Conflict ==> old(txn)@.has_tie(meta_id, author_id)),
            },
    {
        if !txn.has_meta(meta_id) || !txn.has_author(author_id) {
            return Err(Error::NotFound);
        }
        if txn.has_tie(meta_id, author_id) {
            return Err(Error::Conflict);
        }
        txn.add_package_author(meta_id, author_id);
        Ok(())
    }
}

} // verus!
