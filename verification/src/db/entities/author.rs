//! The table `authors`.

use crate::db::entities::{opt_text};
use crate::db::store::Store;
use crate::error::Error;
use crate::pkg::Author;
use vstd::prelude::*;

verus! {

/// An author of a package. Every publish makes rows of its own.
#[derive(Debug, Clone, PartialEq, Eq)]
pub struct Model {
    pub id: u64,
    pub name: String,
    pub email: Option<String>,
}

/// What a [`Model`] stands for.
pub struct ModelView {
    pub id: u64,
    pub name: Seq<char>,
    pub email: Option<Seq<char>>,
}

impl View for Model {
    type V = ModelView;

    open spec fn view(&self) -> ModelView {
        ModelView {
            id: self.id,
            name: self.name@,
            email: opt_text(self.email),
        }
    }
}

/// What the rows of the table stand for.
pub open spec fn table_view(rows: Seq<Model>) -> Seq<ModelView> {
    rows.map_values(|r: Model| r@)
}

/// The relations of the table to other tables.
#[derive(Debug, Clone, Copy, PartialEq, Eq)]
pub enum Relation {
    PackageAuthors,
}

/// Puts authors into the store.
pub struct ActiveAuthor;

impl ActiveAuthor {
    /// Puts in an author and returns the id. Where the store has no id
    /// left the result is `Storage` and the store is as it was.
    pub fn from_model(txn: &mut Store, author: Author) -> (r: Result<u64, Error>)
        requires
            old(txn)@.wf(),
        ensures
            final(txn)@.wf(),
            match r {
                Ok(id) => old(txn)@.room(1) && id == old(txn)@.next_id && final(txn)@ == old(txn)@.add_author(author),
                Err(e) => !old(txn)@.room(1) && e == Error::Storage && final(txn)@ == old(txn)@,
            },
    {
        if !txn.has_room(1) {
            return Err(Error::Storage);
        }
        Ok(txn.add_author(&author))
    }
}

} // verus!
