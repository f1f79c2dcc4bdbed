//! The table `registry_index`.

use crate::db::entities::{ForeignKeyAction};
use vstd::prelude::*;

verus! {

/// An entry of the registry index: it makes a package discoverable under
/// its registry, namespace and tag.
#[derive(Debug, Clone, PartialEq, Eq)]
pub struct Model {
    pub id: u64,
    pub pkg_id: u64,
    pub registry: String,
    pub namespace: String,
    pub repository: String,
    pub tag: String,
    pub yank: bool,
    pub deprecated: bool,
    pub created_at: i64,
}

/// What a [`Model`] stands for.
pub struct ModelView {
    pub id: u64,
    pub pkg_id: u64,
    pub registry: Seq<char>,
    pub namespace: Seq<char>,
    pub repository: Seq<char>,
    pub tag: Seq<char>,
    pub yank: bool,
    pub deprecated: bool,
    pub created_at: i64,
}

impl View for Model {
    type V = ModelView;

    open spec fn view(&self) -> ModelView {
        ModelView {
            id: self.id,
            pkg_id: self.pkg_id,
            registry: self.registry@,
            namespace: self.namespace@,
            repository: self.repository@,
            tag: self.tag@,
            yank: self.yank,
            deprecated: self.deprecated,
            created_at: self.created_at,
        }
    }
}

/// What the rows of the table stand for.
pub open spec fn table_view(rows: Seq<Model>) -> Seq<ModelView> {
    rows.map_values(|r: Model| r@)
}

/// The relations of the table to other tables.
#[derive(Debug, Clone, Copy, PartialEq, Eq)]
pub enum Relation {
    Package,
}

impl Relation {
    /// What happens to a row of this table when the row that it refers to
    /// is deleted.
    pub open spec fn on_delete_spec(self) -> ForeignKeyAction {
        match self {
            Relation::Package => ForeignKeyAction::NoAction,
        }
    }

    /// What happens to a row of this table when the row that it refers to
    /// is deleted.
    pub fn on_delete(&self) -> (r: ForeignKeyAction)
        ensures
            r == self.on_delete_spec(),
    {
        match self {
            Relation::Package => ForeignKeyAction::NoAction,
        }
    }
}

impl Model {
    /// A copy of the entry.
    pub fn duplicate(&self) -> (r: Model)
        ensures
            r@ == self@,
    {
        Model {
            id: self.id,
            pkg_id: self.pkg_id,
            registry: self.registry.clone(),
            namespace: self.namespace.clone(),
            repository: self.repository.clone(),
            tag: self.tag.clone(),
            yank: self.yank,
            deprecated: self.deprecated,
            created_at: self.created_at,
        }
    }
}

} // verus!
