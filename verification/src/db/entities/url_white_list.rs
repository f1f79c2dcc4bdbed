//! The table `url_whitelist`.

use crate::db::entities::{ForeignKeyAction};
use crate::db::store::Store;
use crate::error::Error;
use vstd::prelude::*;

verus! {

/// A URL that a package may call.
#[derive(Debug, Clone, PartialEq, Eq)]
pub struct Model {
    pub id: u64,
    pub capability_id: u64,
    pub url: String,
}

/// What a [`Model`] stands for.
pub struct ModelView {
    pub id: u64,
    pub capability_id: u64,
    pub url: Seq<char>,
}

impl View for Model {
    type V = ModelView;

    open spec fn view(&self) -> ModelView {
        ModelView {
            id: self.id,
            capability_id: self.capability_id,
            url: self.url@,
        }
    }
}

/// What the rows of the table stand for.
pub open spec fn table_view(rows: Seq<Model>) -> Seq<ModelView> {
    rows.map_values(|r: Model| r@)
}

/// The relations of the table to other tables.
#[derive(Debug, Clone, Copy, PartialEq, Eq)]
pub enum Relation {
    Capabilities,
}

impl Relation {
    /// What happens to a row of this table when the row that it refers to
    /// is deleted.
    pub open spec fn on_delete_spec(self) -> ForeignKeyAction {
        match self {
            Relation::Capabilities => ForeignKeyAction::Cascade,
        }
    }

    /// What happens to a row of this table when the row that it refers to
    /// is deleted.
    pub fn on_delete(&self) -> (r: ForeignKeyAction)
        ensures
            r == self.on_delete_spec(),
    {
        match self {
            Relation::Capabilities => ForeignKeyAction::Cascade,
        }
    }
}

/// Puts URLs of capabilities into the store.
pub struct ActiveUrlWhitelist;

impl ActiveUrlWhitelist {
    /// Puts in a URL of the capabilities with this id and returns the id of
    /// the URL.
    ///
    /// Where the capabilities are not in the store the result is
    /// `NotFound`; else, where the store has no id left, it is `Storage`.
    /// The store is then as it was.
    pub fn from_id_and_url(txn: &mut Store, capability_id: u64, url: String) -> (r: Result<
        u64,
        Error,
    >)
        requires
            old(txn)@.wf(),
        ensures
            final(txn)@.wf(),
            match r {
                Ok(id) => old(txn)@.has_capabilities(capability_id) && old(txn)@.room(1) && id
                    == old(txn)@.next_id && final(txn)@ == old(txn)@.add_url(capability_id, url),
                Err(e) => final(txn)@ == old(txn)@ && e == (if !old(txn)@.has_capabilities(
                    capability_id,
                ) {
                    Error::NotFound
                } else {
                    Error::Storage
                }) && (e == Error::Storage ==> !old(txn)@.room(1)),
            },
    {
        if !txn.has_capabilities(capability_id) {
            return Err(Error::NotFound);
        }
        if !txn.has_room(1) {
            return Err(Error::Storage);
        }
        Ok(txn.add_url(capability_id, &url))
    }
}

} // verus!
