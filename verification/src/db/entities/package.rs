//! The table `packages`.

use crate::db::entities::{clone_text, opt_text, ForeignKeyAction};
use crate::db::graph::lemma_add_package_frame;
use crate::db::store::Store;
use crate::error::Error;
use crate::pkg::WasmPkg;
use vstd::prelude::*;

verus! {

/// A published package.
#[derive(Debug, Clone, PartialEq, Eq)]
pub struct Model {
    pub id: u64,
    pub name: String,
    pub app_name: Option<String>,
    pub app_module: Option<String>,
    pub pkg_type: String,
    pub meta_id: u64,
    pub source_id: u64,
    pub capabilities_id: Option<u64>,
    pub created_at: i64,
    pub updated_at: i64,
}

/// What a [`Model`] stands for.
pub struct ModelView {
    pub id: u64,
    pub name: Seq<char>,
    pub app_name: Option<Seq<char>>,
    pub app_module: Option<Seq<char>>,
    pub pkg_type: Seq<char>,
    pub meta_id: u64,
    pub source_id: u64,
    pub capabilities_id: Option<u64>,
    pub created_at: i64,
    pub updated_at: i64,
}

impl View for Model {
    type V = ModelView;

    open spec fn view(&self) -> ModelView {
        ModelView {
            id: self.id,
            name: self.name@,
            app_name: opt_text(self.app_name),
            app_module: opt_text(self.app_module),
            pkg_type: self.pkg_type@,
            meta_id: self.meta_id,
            source_id: self.source_id,
            capabilities_id: self.capabilities_id,
            created_at: self.created_at,
            updated_at: self.updated_at,
        }
    }
}

/// What the rows of the table stand for.
pub open spec fn table_view(rows: Seq<Model>) -> Seq<ModelView> {
    rows.map_values(|r: Model| r@)
}

/// The relations of the table to other tables.
#[derive(Debug, Clone, Copy, PartialEq, Eq)]
pub enum Relation {
    Sources,
    Capabilities,
    Meta,
}

impl Relation {
    /// What happens to a row of this table when the row that it refers to
    /// is deleted.
    pub open spec fn on_delete_spec(self) -> ForeignKeyAction {
        match self {
            Relation::Sources => ForeignKeyAction::Cascade,
            Relation::Capabilities => ForeignKeyAction::SetNull,
            Relation::Meta => ForeignKeyAction::Cascade,
        }
    }

    /// What happens to a row of this table when the row that it refers to
    /// is deleted.
    pub fn on_delete(&self) -> (r: ForeignKeyAction)
        ensures
            r == self.on_delete_spec(),
    {
        match self {
            Relation::Sources => ForeignKeyAction::Cascade,
            Relation::Capabilities => ForeignKeyAction::SetNull,
            Relation::Meta => ForeignKeyAction::Cascade,
        }
    }
}

impl Model {
    /// A copy of the row.
    pub fn duplicate(&self) -> (r: Model)
        ensures
            r@ == self@,
    {
        Model {
            id: self.id,
            name: self.name.clone(),
            app_name: clone_text(&self.app_name),
            app_module: clone_text(&self.app_module),
            pkg_type: self.pkg_type.clone(),
            meta_id: self.meta_id,
            source_id: self.source_id,
            capabilities_id: self.capabilities_id,
            created_at: self.created_at,
            updated_at: self.updated_at,
        }
    }
}

/// Puts packages into the store.
pub struct ActivePackage;

impl ActivePackage {
    /// Puts in a package with all that belongs to it: metadata and
    /// authors, capabilities and URLs, the source, and the row of the
    /// package, which refers to them and is made and updated at `now`.
    /// Returns that row.
    ///
    /// A source that is not of exactly one kind gives `InvalidSource`. One
    /// whose digest or registry is in the store gives `Conflict`. Else,
    /// where the store has not an id for each of the rows, the result is
    /// `Storage`. After an error the store is as it was.
    pub fn from_model(txn: &mut Store, model: WasmPkg, now: i64) -> (r: Result<Model, Error>)
        requires
            old(txn)@.wf(),
        ensures
            final(txn)@.wf(),
            match r {
                Ok(row) => old(txn)@.package_error(model) is None && final(txn)@ == old(txn)@.add_package(model, now) && row@ == final(txn)@.packages.last() && row.id + 1
                    == final(txn)@.next_id,
                Err(e) => old(txn)@.package_error(model) == Some(e) && final(txn)@ == old(txn)@,
            },
    {
        match txn.package_check(&model) {
            Some(e) => Err(e),
            None => {
                txn.add_package(model, now);
                let rows = txn.packages();
                proof {
                    lemma_add_package_frame(old(txn)@, model, now);
                    assert(table_view(rows@).len() == rows@.len());
                }
                let row = rows[rows.len() - 1].duplicate();
                Ok(row)
            },
        }
    }
}

} // verus!
